use uxn::cpu::{Cpu, Stack};
use uxn::error::UxnError;
use uxn::opcode::{CodeFlags, LitFlags};
use uxn::tal::assemble;
use uxn::varvara::Varvara;

fn byte_mode() -> CodeFlags {
    CodeFlags {
        keep: false,
        ret: false,
        short: false,
    }
}

fn short_mode() -> CodeFlags {
    CodeFlags {
        keep: false,
        ret: false,
        short: true,
    }
}

fn machine(source: &str) -> (Cpu, Box<Varvara>) {
    let image = assemble(source.as_bytes()).unwrap();
    let mut bus = Box::new(Varvara::new());
    bus.load(&image);
    (Cpu::new(), bus)
}

#[test]
fn stack_is_last_in_first_out() {
    let mut stack = Stack::new();
    assert_eq!(stack.len(), 0);
    assert_eq!(stack.push(1), Ok(()));
    assert_eq!(stack.push(2), Ok(()));
    assert_eq!(stack.as_slice(), &[1, 2]);
    assert_eq!(stack.pop(), Ok(2));
    assert_eq!(stack.pop(), Ok(1));
    assert_eq!(stack.pop(), Err(UxnError::StackUnderflow));
    assert_eq!(stack.len(), 0);
}

#[test]
fn short_lies_high_byte_first() {
    let mut stack = Stack::new();
    assert_eq!(stack.push2(0x1234), Ok(()));
    assert_eq!(stack.as_slice(), &[0x12, 0x34]);
    assert_eq!(stack.pop2(), Ok(0x1234));
    assert_eq!(stack.len(), 0);
}

#[test]
fn pop2_needs_two_bytes() {
    let mut stack = Stack::new();
    stack.push(7).unwrap();
    assert_eq!(stack.pop2(), Err(UxnError::StackUnderflow));
    assert_eq!(stack.as_slice(), &[7]);
}

#[test]
fn peek_mut_changes_the_top_in_place() {
    let mut stack = Stack::new();
    assert_eq!(stack.peek_mut().err(), Some(UxnError::StackUnderflow));
    stack.push(1).unwrap();
    stack.push(2).unwrap();
    *stack.peek_mut().unwrap() = 9;
    assert_eq!(stack.as_slice(), &[1, 9]);
}

#[test]
fn stack_holds_255_bytes() {
    let mut stack = Stack::new();
    for i in 0..255u32 {
        assert_eq!(stack.push(i as u8), Ok(()));
    }
    assert_eq!(stack.push(0), Err(UxnError::StackOverflow));
    assert_eq!(stack.len(), 255);
    assert_eq!(stack.pop(), Ok(254));
    assert_eq!(stack.push2(0), Err(UxnError::StackOverflow));
    assert_eq!(stack.len(), 254);
    assert_eq!(stack.pop(), Ok(253));
    assert_eq!(stack.push2(0xabcd), Ok(()));
    assert_eq!(stack.len(), 255);
}

#[test]
fn add_wraps() {
    let mut cpu = Cpu::new();
    cpu.work.push(0xff).unwrap();
    cpu.work.push(0x02).unwrap();
    assert_eq!(cpu.add(byte_mode()), Ok(()));
    assert_eq!(cpu.work.as_slice(), &[0x01]);

    let mut cpu = Cpu::new();
    cpu.work.push2(0xffff).unwrap();
    cpu.work.push2(0x0003).unwrap();
    assert_eq!(cpu.add(short_mode()), Ok(()));
    assert_eq!(cpu.work.as_slice(), &[0x00, 0x02]);
}

#[test]
fn add_adds() {
    for a in [0u8, 1, 0x7f, 0x80, 0xff] {
        for b in [0u8, 1, 0x7f, 0x80, 0xff] {
            let mut cpu = Cpu::new();
            cpu.work.push(a).unwrap();
            cpu.work.push(b).unwrap();
            assert_eq!(cpu.add(byte_mode()), Ok(()));
            assert_eq!(
                cpu.work.as_slice(),
                &[((a as u32 + b as u32) % 256) as u8]
            );
        }
    }
    let mut cpu = Cpu::new();
    cpu.work.push2(0x1234).unwrap();
    cpu.work.push2(0x0fff).unwrap();
    assert_eq!(cpu.add(short_mode()), Ok(()));
    assert_eq!(cpu.work.pop2(), Ok(0x2233));
}

#[test]
fn sub_takes_the_top_from_the_one_below() {
    let mut cpu = Cpu::new();
    cpu.work.push(0x00).unwrap();
    cpu.work.push(0x01).unwrap();
    assert_eq!(cpu.sub(byte_mode()), Ok(()));
    assert_eq!(cpu.work.as_slice(), &[0xff]);

    let mut cpu = Cpu::new();
    cpu.work.push(0x09).unwrap();
    cpu.work.push(0x04).unwrap();
    assert_eq!(cpu.sub(byte_mode()), Ok(()));
    assert_eq!(cpu.work.as_slice(), &[0x05]);

    let mut cpu = Cpu::new();
    cpu.work.push2(0x0000).unwrap();
    cpu.work.push2(0x0001).unwrap();
    assert_eq!(cpu.sub(short_mode()), Ok(()));
    assert_eq!(cpu.work.as_slice(), &[0xff, 0xff]);
}

#[test]
fn inc_wraps() {
    let mut cpu = Cpu::new();
    cpu.work.push(0xff).unwrap();
    assert_eq!(cpu.inc(byte_mode()), Ok(()));
    assert_eq!(cpu.work.as_slice(), &[0x00]);

    let mut cpu = Cpu::new();
    cpu.work.push2(0xffff).unwrap();
    assert_eq!(cpu.inc(short_mode()), Ok(()));
    assert_eq!(cpu.work.as_slice(), &[0x00, 0x00]);

    let mut cpu = Cpu::new();
    cpu.work.push2(0x00ff).unwrap();
    assert_eq!(cpu.inc(short_mode()), Ok(()));
    assert_eq!(cpu.work.as_slice(), &[0x01, 0x00]);

    let mut cpu = Cpu::new();
    cpu.work.push(0x11).unwrap();
    cpu.work.push(0x41).unwrap();
    assert_eq!(cpu.inc(byte_mode()), Ok(()));
    assert_eq!(cpu.work.as_slice(), &[0x11, 0x42]);
}

#[test]
fn underflow_leaves_the_stack() {
    let mut cpu = Cpu::new();
    assert_eq!(cpu.inc(byte_mode()), Err(UxnError::StackUnderflow));
    cpu.work.push(5).unwrap();
    assert_eq!(cpu.add(byte_mode()), Err(UxnError::StackUnderflow));
    assert_eq!(cpu.sub(byte_mode()), Err(UxnError::StackUnderflow));
    assert_eq!(cpu.inc(short_mode()), Err(UxnError::StackUnderflow));
    cpu.work.push(6).unwrap();
    cpu.work.push(7).unwrap();
    assert_eq!(cpu.add(short_mode()), Err(UxnError::StackUnderflow));
    assert_eq!(cpu.work.as_slice(), &[5, 6, 7]);
}

#[test]
fn new_cpu_starts_at_the_program() {
    let cpu = Cpu::new();
    assert_eq!(cpu.counter, 0x0100);
    assert_eq!(cpu.work.len(), 0);
    assert_eq!(cpu.ret.len(), 0);
}

#[test]
fn fetch_wraps_at_the_end_of_memory() {
    let mut bus = Box::new(Varvara::new());
    bus.main[0xffff] = 0x12;
    bus.main[0x0000] = 0x34;
    let mut cpu = Cpu::new();
    cpu.counter = 0xffff;
    assert_eq!(cpu.next_short(&bus), 0x1234);
    assert_eq!(cpu.counter, 0x0001);
}

#[test]
fn lit_reads_the_immediate() {
    let (mut cpu, bus) = machine("12 3456");
    assert_eq!(
        cpu.lit(
            LitFlags {
                ret: false,
                short: false
            },
            &bus
        ),
        Ok(())
    );
    assert_eq!(
        cpu.lit(
            LitFlags {
                ret: false,
                short: true
            },
            &bus
        ),
        Ok(())
    );
    assert_eq!(cpu.work.as_slice(), &[0x12, 0x34, 0x56]);
    assert_eq!(cpu.counter, 0x0103);
}

#[test]
fn program_adds_and_halts() {
    let (mut cpu, mut bus) = machine("#01 #02 ADD #18 DEO BRK");
    assert_eq!(cpu.step(&mut bus), Ok(false));
    assert_eq!(cpu.step(&mut bus), Ok(false));
    assert_eq!(cpu.step(&mut bus), Ok(false));
    assert_eq!(cpu.work.as_slice(), &[0x03]);
    assert_eq!(cpu.step(&mut bus), Ok(false));
    assert_eq!(cpu.step(&mut bus), Ok(false));
    assert_eq!(cpu.work.len(), 0);
    assert_eq!(bus.io[0x18], 0x03);
    assert_eq!(bus.console.take_output(), vec![0x03]);
    assert_eq!(cpu.step(&mut bus), Ok(true));
    assert_eq!(cpu.counter, 0x0109);
}

#[test]
fn device_write_needs_a_port_and_a_value() {
    let (mut cpu, mut bus) = machine("#01 #02 ADD DEO BRK");
    assert_eq!(cpu.step(&mut bus), Ok(false));
    assert_eq!(cpu.step(&mut bus), Ok(false));
    assert_eq!(cpu.step(&mut bus), Ok(false));
    assert_eq!(cpu.work.as_slice(), &[0x03]);
    assert_eq!(cpu.step(&mut bus), Err(UxnError::StackUnderflow));
    assert_eq!(cpu.work.as_slice(), &[0x03]);
    assert_eq!(cpu.counter, 0x0106);
}

#[test]
fn run_stops_at_the_halt() {
    let (mut cpu, mut bus) = machine("#01 #02 ADD #18 DEO BRK");
    assert_eq!(cpu.run(&mut bus, 3), Ok(false));
    assert_eq!(cpu.work.as_slice(), &[0x03]);
    assert_eq!(cpu.run(&mut bus, 100), Ok(true));
    assert_eq!(cpu.counter, 0x0109);
    assert_eq!(bus.console.take_output(), vec![0x03]);
}

#[test]
fn run_stops_at_the_first_error() {
    let (mut cpu, mut bus) = machine("#01 ADD BRK");
    assert_eq!(cpu.run(&mut bus, 100), Err(UxnError::StackUnderflow));
    assert_eq!(cpu.counter, 0x0103);
    assert_eq!(cpu.work.as_slice(), &[0x01]);
}

#[test]
fn same_image_runs_the_same_twice() {
    let source = "#1234 #0001 ADD2 #05 INC #18 DEO #28 DEI2 SUB2 #41 #18 DEO BRK";
    let (mut first_cpu, mut first_bus) = machine(source);
    let (mut second_cpu, mut second_bus) = machine(source);
    let first = first_cpu.run(&mut first_bus, 1000);
    let second = second_cpu.run(&mut second_bus, 1000);
    assert_eq!(first, Ok(true));
    assert_eq!(first, second);
    assert_eq!(first_cpu.counter, second_cpu.counter);
    assert_eq!(first_cpu.work.as_slice(), second_cpu.work.as_slice());
    assert_eq!(first_cpu.ret.as_slice(), second_cpu.ret.as_slice());
    assert_eq!(first_bus.main[..], second_bus.main[..]);
    assert_eq!(first_bus.io[..], second_bus.io[..]);
    assert_eq!(first_bus.console.take_output(), vec![0x06, 0x41]);
    assert_eq!(second_bus.console.take_output(), vec![0x06, 0x41]);
}

#[test]
fn dei_reads_what_was_written() {
    let (mut cpu, mut bus) = machine("#1234 #28 DEO2 #28 DEI2 #29 DEI BRK");
    assert_eq!(cpu.run(&mut bus, 100), Ok(true));
    assert_eq!(cpu.work.as_slice(), &[0x12, 0x34, 0x34]);
}

#[test]
fn dei_short_can_overflow_the_stack() {
    let mut bus = Box::new(Varvara::new());
    let mut cpu = Cpu::new();
    for _ in 0..255 {
        cpu.work.push(0x20).unwrap();
    }
    assert_eq!(
        cpu.dei(short_mode(), &mut bus),
        Err(UxnError::StackOverflow)
    );
    assert_eq!(cpu.work.len(), 255);
    assert_eq!(cpu.dei(byte_mode(), &mut bus), Ok(()));
    assert_eq!(cpu.work.len(), 255);
}

#[test]
fn unknown_byte_stops_the_step() {
    let (mut cpu, mut bus) = machine("02");
    assert_eq!(cpu.step(&mut bus), Err(UxnError::UnknownOpcode));
    assert_eq!(cpu.counter, 0x0101);
    let (mut cpu, mut bus) = machine("58");
    assert_eq!(cpu.step(&mut bus), Err(UxnError::UnimplementedFeature));
}

#[test]
fn lit_can_overflow_the_stack() {
    let (mut cpu, mut bus) = machine("LIT 07");
    for _ in 0..255 {
        cpu.work.push(0).unwrap();
    }
    assert_eq!(cpu.step(&mut bus), Err(UxnError::StackOverflow));
    assert_eq!(cpu.counter, 0x0102);
    assert_eq!(cpu.work.len(), 255);
}
