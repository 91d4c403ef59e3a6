//! The CPU core: two stacks and a program counter, and the execution of one
//! instruction at a time against the memory and the devices of the bus.

use crate::error::UxnError;
use crate::opcode::{parse_code, spec_parse_code, Code, CodeFlags, LitFlags};
use crate::tal::{high_byte, join_bytes, low_byte, short_of, split_short, PROGRAM_START};
use crate::varvara::{spec_deo, spec_deo2, BusState, Varvara};
use vstd::prelude::*;

verus! {

/// How many bytes a stack can hold.
pub const STACK_CAPACITY: usize = 255;

/// A stack of bytes: the last byte pushed is the first popped. A short lies
/// on it as two bytes, the high byte below the low byte.
pub struct Stack {
    bytes: Vec<u8>,
}

impl View for Stack {
    type V = Seq<u8>;

    /// The bytes on the stack, the oldest first.
    closed spec fn view(&self) -> Seq<u8> {
        self.bytes@
    }
}

/// The stack without its top byte, and that byte.
pub open spec fn spec_pop(stack: Seq<u8>) -> Result<(Seq<u8>, u8), UxnError> {
    if stack.len() < 1 {
        Err(UxnError::StackUnderflow)
    } else {
        Ok((stack.drop_last(), stack.last()))
    }
}

/// The stack without its top two bytes, and the short they make: the top
/// byte is the low byte.
pub open spec fn spec_pop2(stack: Seq<u8>) -> Result<(Seq<u8>, u16), UxnError> {
    if stack.len() < 2 {
        Err(UxnError::StackUnderflow)
    } else {
        Ok(
            (
                stack.take(stack.len() - 2),
                short_of(stack[stack.len() - 2], stack[stack.len() - 1]),
            ),
        )
    }
}

/// The stack with one more byte on top.
pub open spec fn spec_push(stack: Seq<u8>, byte: u8) -> Result<Seq<u8>, UxnError> {
    if stack.len() + 1 > STACK_CAPACITY {
        Err(UxnError::StackOverflow)
    } else {
        Ok(stack.push(byte))
    }
}

/// The stack with one more short on top: its high byte, then its low byte.
pub open spec fn spec_push2(stack: Seq<u8>, short: u16) -> Result<Seq<u8>, UxnError> {
    if stack.len() + 2 > STACK_CAPACITY {
        Err(UxnError::StackOverflow)
    } else {
        Ok(stack.push(high_byte(short)).push(low_byte(short)))
    }
}

impl Stack {
    /// The stack holds no more than its capacity.
    pub open spec fn wf(&self) -> bool {
        self@.len() <= STACK_CAPACITY
    }

    /// An empty stack.
    pub fn new() -> (stack: Stack)
        ensures
            stack@ == Seq::<u8>::empty(),
            stack.wf(),
    {
        Stack { bytes: Vec::with_capacity(STACK_CAPACITY) }
    }

    /// How many bytes the stack holds.
    pub fn len(&self) -> (len: usize)
        ensures
            len == self@.len(),
    {
        self.bytes.len()
    }

    /// The bytes on the stack, the oldest first.
    pub fn as_slice(&self) -> (bytes: &[u8])
        ensures
            bytes@ == self@,
    {
        self.bytes.as_slice()
    }

    /// The top byte, to be read or changed in place.
    pub fn peek_mut(&mut self) -> (top: Result<&mut u8, UxnError>)
        ensures
            match top {
                Ok(byte) => {
                    &&& old(self)@.len() > 0
                    &&& *byte == old(self)@.last()
                    &&& final(self)@ == old(self)@.update(old(self)@.len() - 1, *final(byte))
                },
                Err(e) => e == UxnError::StackUnderflow && old(self)@.len() == 0 && final(self)@
                    == old(self)@,
            },
    {
        let n = self.bytes.len();
        if n == 0 {
            return Err(UxnError::StackUnderflow);
        }
        Ok(&mut self.bytes[n - 1])
    }

    /// Takes the top byte off. An empty stack is left as it is.
    pub fn pop(&mut self) -> (byte: Result<u8, UxnError>)
        ensures
            match spec_pop(old(self)@) {
                Ok((rest, top)) => byte == Ok::<u8, UxnError>(top) && final(self)@ == rest,
                Err(e) => byte == Err::<u8, UxnError>(e) && final(self)@ == old(self)@,
            },
    {
        match self.bytes.pop() {
            Some(b) => Ok(b),
            None => Err(UxnError::StackUnderflow),
        }
    }

    /// Takes the top short off: the low byte first, then the high byte. A
    /// stack with less than two bytes is left as it is.
    pub fn pop2(&mut self) -> (short: Result<u16, UxnError>)
        ensures
            match spec_pop2(old(self)@) {
                Ok((rest, top)) => short == Ok::<u16, UxnError>(top) && final(self)@ == rest,
                Err(e) => short == Err::<u16, UxnError>(e) && final(self)@ == old(self)@,
            },
    {
        if self.bytes.len() < 2 {
            return Err(UxnError::StackUnderflow);
        }
        let low_byte = self.take();
        let high_byte = self.take();
        Ok(join_bytes(high_byte, low_byte))
    }

    /// Puts a byte on top. A full stack is left as it is.
    pub fn push(&mut self, byte: u8) -> (done: Result<(), UxnError>)
        ensures
            match spec_push(old(self)@, byte) {
                Ok(stack) => done == Ok::<(), UxnError>(()) && final(self)@ == stack,
                Err(e) => done == Err::<(), UxnError>(e) && final(self)@ == old(self)@,
            },
    {
        if self.bytes.len() >= STACK_CAPACITY {
            return Err(UxnError::StackOverflow);
        }
        self.bytes.push(byte);
        Ok(())
    }

    /// Puts a short on top: the high byte first, then the low byte. A stack
    /// without room for both is left as it is.
    pub fn push2(&mut self, short: u16) -> (done: Result<(), UxnError>)
        ensures
            match spec_push2(old(self)@, short) {
                Ok(stack) => done == Ok::<(), UxnError>(()) && final(self)@ == stack,
                Err(e) => done == Err::<(), UxnError>(e) && final(self)@ == old(self)@,
            },
    {
        if self.bytes.len() > STACK_CAPACITY - 2 {
            return Err(UxnError::StackOverflow);
        }
        let (high, low) = split_short(short);
        self.bytes.push(high);
        self.bytes.push(low);
        Ok(())
    }

    /// Takes the top byte off a stack that has one.
    fn take(&mut self) -> (byte: u8)
        requires
            old(self)@.len() > 0,
        ensures
            byte == old(self)@.last(),
            final(self)@ == old(self)@.drop_last(),
    {
        self.bytes.pop().unwrap()
    }

    /// Takes the top short off a stack that has one.
    fn take2(&mut self) -> (short: u16)
        requires
            old(self)@.len() >= 2,
        ensures
            spec_pop2(old(self)@) == Ok::<(Seq<u8>, u16), UxnError>((final(self)@, short)),
    {
        let low_byte = self.take();
        let high_byte = self.take();
        assert(self@ =~= old(self)@.take(old(self)@.len() - 2));
        join_bytes(high_byte, low_byte)
    }

    /// Puts a byte on top, where the caller knows of the room.
    fn put(&mut self, byte: u8)
        ensures
            final(self)@ == old(self)@.push(byte),
    {
        self.bytes.push(byte);
    }

    /// Puts a short on top, where the caller knows of the room.
    fn put2(&mut self, short: u16)
        ensures
            final(self)@ == old(self)@.push(high_byte(short)).push(low_byte(short)),
    {
        let (high, low) = split_short(short);
        self.bytes.push(high);
        self.bytes.push(low);
    }
}

impl Default for Stack {
    fn default() -> (stack: Stack)
        ensures
            stack@ == Seq::<u8>::empty(),
            stack.wf(),
    {
        Stack::new()
    }
}

/// The sum of two bytes, modulo 256.
pub open spec fn add_byte(a: u8, b: u8) -> u8 {
    ((a + b) % 0x100) as u8
}

/// The difference of two bytes, modulo 256.
pub open spec fn sub_byte(a: u8, b: u8) -> u8 {
    ((a - b) % 0x100) as u8
}

/// The sum of two shorts, modulo 65536.
pub open spec fn add_short(a: u16, b: u16) -> u16 {
    ((a + b) % 0x10000) as u16
}

/// The difference of two shorts, modulo 65536.
pub open spec fn sub_short(a: u16, b: u16) -> u16 {
    ((a - b) % 0x10000) as u16
}

/// The working stack after `INC`: its top value, a byte or a short, is one
/// more than it was, modulo 256 or 65536.
pub open spec fn spec_inc(work: Seq<u8>, short: bool) -> Result<Seq<u8>, UxnError> {
    if short {
        match spec_pop2(work) {
            Ok((rest, a)) => Ok(rest.push(high_byte(add_short(a, 1))).push(low_byte(add_short(a, 1)))),
            Err(e) => Err(e),
        }
    } else {
        match spec_pop(work) {
            Ok((rest, a)) => Ok(rest.push(add_byte(a, 1))),
            Err(e) => Err(e),
        }
    }
}

/// The working stack after `ADD` or, with `subtract`, after `SUB`: the right
/// operand is popped first, then the left one, and the sum or difference
/// modulo 256 or 65536 is pushed.
pub open spec fn spec_arith(work: Seq<u8>, short: bool, subtract: bool) -> Result<
    Seq<u8>,
    UxnError,
> {
    if short {
        match spec_pop2(work) {
            Ok((rest, b)) => match spec_pop2(rest) {
                Ok((rest, a)) => {
                    let value = if subtract {
                        sub_short(a, b)
                    } else {
                        add_short(a, b)
                    };
                    Ok(rest.push(high_byte(value)).push(low_byte(value)))
                },
                Err(e) => Err(e),
            },
            Err(e) => Err(e),
        }
    } else {
        match spec_pop(work) {
            Ok((rest, b)) => match spec_pop(rest) {
                Ok((rest, a)) => Ok(
                    rest.push(
                        if subtract {
                            sub_byte(a, b)
                        } else {
                            add_byte(a, b)
                        },
                    ),
                ),
                Err(e) => Err(e),
            },
            Err(e) => Err(e),
        }
    }
}

/// The working stack after `DEI`: the port address is popped, and what the
/// I/O page holds there is pushed, a byte or a short.
pub open spec fn spec_dei(work: Seq<u8>, io: Seq<u8>, short: bool) -> Result<Seq<u8>, UxnError> {
    match spec_pop(work) {
        Ok((rest, addr)) => if short {
            spec_push2(rest, short_of(io[addr as int], io[addr.wrapping_add(1) as int]))
        } else {
            spec_push(rest, io[addr as int])
        },
        Err(e) => Err(e),
    }
}

/// The machine state that belongs to the CPU: the working stack, the return
/// stack and the program counter.
pub struct CpuState {
    pub work: Seq<u8>,
    pub ret: Seq<u8>,
    pub counter: u16,
}

/// The CPU after `LIT`, and whether it went well: the byte or short that
/// follows in memory is read, the counter moves past it, and it is pushed.
/// When the stack has no room, the counter has moved all the same.
pub open spec fn spec_lit(cpu: CpuState, main: Seq<u8>, short: bool) -> (CpuState, Result<
    (),
    UxnError,
>) {
    let first = main[cpu.counter as int];
    let second = main[cpu.counter.wrapping_add(1) as int];
    let counter = if short {
        cpu.counter.wrapping_add(1).wrapping_add(1)
    } else {
        cpu.counter.wrapping_add(1)
    };
    let pushed = if short {
        spec_push2(cpu.work, short_of(first, second))
    } else {
        spec_push(cpu.work, first)
    };
    match pushed {
        Ok(work) => (CpuState { work, ret: cpu.ret, counter }, Ok(())),
        Err(e) => (CpuState { work: cpu.work, ret: cpu.ret, counter }, Err(e)),
    }
}

/// The working stack and the bus after `DEO`, and whether it went well: the
/// port address is popped, then the value, a byte or a short, and the value
/// is written to the port. When the stack holds too little, nothing changes.
/// When the write fails, both have been popped all the same.
pub open spec fn spec_cpu_deo(work: Seq<u8>, bus: BusState, short: bool) -> (
    Seq<u8>,
    BusState,
    Result<(), UxnError>,
) {
    match spec_pop(work) {
        Ok((rest, addr)) => if short {
            match spec_pop2(rest) {
                Ok((rest, value)) => {
                    let (after, done) = spec_deo2(bus, addr, value);
                    (rest, after, done)
                },
                Err(e) => (work, bus, Err(e)),
            }
        } else {
            match spec_pop(rest) {
                Ok((rest, value)) => {
                    let (after, done) = spec_deo(bus, addr, value);
                    (rest, after, done)
                },
                Err(e) => (work, bus, Err(e)),
            }
        },
        Err(e) => (work, bus, Err(e)),
    }
}

/// What an instruction's outcome means for the run: it goes on, unless the
/// instruction failed.
pub open spec fn go_on(done: Result<(), UxnError>) -> Result<bool, UxnError> {
    match done {
        Ok(_) => Ok(false),
        Err(e) => Err(e),
    }
}

/// What an instruction that only works on the working stack leaves behind:
/// with a new working stack, that stack and success; without one, the CPU as
/// it was and the error.
pub open spec fn cpu_outcome(
    before: CpuState,
    work: Result<Seq<u8>, UxnError>,
    after: CpuState,
    done: Result<(), UxnError>,
) -> bool {
    match work {
        Ok(w) => done == Ok::<(), UxnError>(()) && after == (CpuState {
            work: w,
            ret: before.ret,
            counter: before.counter,
        }),
        Err(e) => done == Err::<(), UxnError>(e) && after == before,
    }
}

/// The CPU with another working stack, if there is one to take.
pub open spec fn with_work(cpu: CpuState, work: Result<Seq<u8>, UxnError>) -> (
    CpuState,
    Result<bool, UxnError>,
) {
    match work {
        Ok(w) => (CpuState { work: w, ret: cpu.ret, counter: cpu.counter }, Ok(false)),
        Err(e) => (cpu, Err(e)),
    }
}

/// One step of the machine: the CPU and the bus after it, and `Ok(true)` when
/// the step was the halt.
///
/// The byte at the counter is fetched and the counter moves past it, wrapping
/// at the end of memory. Then the byte is decoded, and the instruction is
/// carried out. An instruction that fails leaves the counter where the fetch
/// put it, or after the immediate value that it read.
pub open spec fn spec_step(cpu: CpuState, bus: BusState) -> (
    CpuState,
    BusState,
    Result<bool, UxnError>,
) {
    let fetched = CpuState {
        work: cpu.work,
        ret: cpu.ret,
        counter: cpu.counter.wrapping_add(1),
    };
    match spec_parse_code(bus.main[cpu.counter as int]) {
        Err(e) => (fetched, bus, Err(e)),
        Ok(Code::BRK) => (fetched, bus, Ok(true)),
        Ok(Code::INC(f)) => {
            let (after, done) = with_work(fetched, spec_inc(cpu.work, f.short));
            (after, bus, done)
        },
        Ok(Code::ADD(f)) => {
            let (after, done) = with_work(fetched, spec_arith(cpu.work, f.short, false));
            (after, bus, done)
        },
        Ok(Code::SUB(f)) => {
            let (after, done) = with_work(fetched, spec_arith(cpu.work, f.short, true));
            (after, bus, done)
        },
        Ok(Code::LIT(f)) => {
            let (after, done) = spec_lit(fetched, bus.main, f.short);
            (after, bus, go_on(done))
        },
        Ok(Code::DEO(f)) => {
            let (work, after, done) = spec_cpu_deo(cpu.work, bus, f.short);
            (CpuState { work, ret: cpu.ret, counter: fetched.counter }, after, go_on(done))
        },
        Ok(Code::DEI(f)) => {
            let (after, done) = with_work(fetched, spec_dei(cpu.work, bus.io, f.short));
            (after, bus, done)
        },
    }
}

/// A run of at most `steps` steps: it ends with the halt, with the first
/// error, or when the steps are used up, which gives `Ok(false)`.
pub open spec fn spec_run(cpu: CpuState, bus: BusState, steps: nat) -> (
    CpuState,
    BusState,
    Result<bool, UxnError>,
)
    decreases steps,
{
    if steps == 0 {
        (cpu, bus, Ok(false))
    } else {
        let (next_cpu, next_bus, done) = spec_step(cpu, bus);
        if done == Ok::<bool, UxnError>(false) {
            spec_run(next_cpu, next_bus, (steps - 1) as nat)
        } else {
            (next_cpu, next_bus, done)
        }
    }
}

/// The CPU.
pub struct Cpu {
    /// Working stack
    pub work: Stack,
    /// Return stack
    pub ret: Stack,
    /// Instruction pointer
    pub counter: u16,
}

impl View for Cpu {
    type V = CpuState;

    open spec fn view(&self) -> CpuState {
        CpuState { work: self.work@, ret: self.ret@, counter: self.counter }
    }
}

impl Cpu {
    /// Both stacks hold no more than their capacity.
    pub open spec fn wf(&self) -> bool {
        self.work.wf() && self.ret.wf()
    }

    /// A CPU with empty stacks, about to run the program at 0x0100.
    pub fn new() -> (cpu: Cpu)
        ensures
            cpu.wf(),
            cpu@ == (CpuState { work: Seq::empty(), ret: Seq::empty(), counter: PROGRAM_START }),
    {
        let work = Stack::new();
        let ret = Stack::new();
        let counter = PROGRAM_START;
        Cpu { work, ret, counter }
    }

    /// Reads the byte at the counter, and moves the counter past it.
    pub fn next_byte(&mut self, varvara: &Varvara) -> (byte: u8)
        ensures
            byte == varvara@.main[old(self).counter as int],
            final(self).counter == old(self).counter.wrapping_add(1),
            final(self).work == old(self).work,
            final(self).ret == old(self).ret,
    {
        let byte = varvara.main[self.counter as usize];
        self.counter = self.counter.wrapping_add(1);
        byte
    }

    /// Reads the short at the counter, high byte first, and moves the counter
    /// past it.
    pub fn next_short(&mut self, varvara: &Varvara) -> (short: u16)
        ensures
            short == short_of(
                varvara@.main[old(self).counter as int],
                varvara@.main[old(self).counter.wrapping_add(1) as int],
            ),
            final(self).counter == old(self).counter.wrapping_add(1).wrapping_add(1),
            final(self).work == old(self).work,
            final(self).ret == old(self).ret,
    {
        let high_byte = self.next_byte(varvara);
        let low_byte = self.next_byte(varvara);
        join_bytes(high_byte, low_byte)
    }

    /// Do one operation
    pub fn step(&mut self, varvara: &mut Varvara) -> (halted: Result<bool, UxnError>)
        requires
            old(self).wf(),
            old(varvara).wf(),
        ensures
            final(self).wf(),
            final(varvara).wf(),
            (final(self)@, final(varvara)@, halted) == spec_step(old(self)@, old(varvara)@),
    {
        let raw_code = self.next_byte(varvara);
        let code = match parse_code(raw_code) {
            Ok(c) => c,
            Err(e) => {
                return Err(e);
            },
        };
        let done = match code {
            Code::INC(f) => self.inc(f),
            Code::ADD(f) => self.add(f),
            Code::SUB(f) => self.sub(f),
            Code::LIT(f) => self.lit(f, varvara),
            Code::DEO(f) => self.deo(f, varvara),
            Code::DEI(f) => self.dei(f, varvara),
            Code::BRK => {
                return Ok(true);
            },
        };
        match done {
            Ok(()) => Ok(false),
            Err(e) => Err(e),
        }
    }

    /// Runs until the halt or the first error, for `max_steps` steps at most.
    pub fn run(&mut self, varvara: &mut Varvara, max_steps: usize) -> (halted: Result<
        bool,
        UxnError,
    >)
        requires
            old(self).wf(),
            old(varvara).wf(),
        ensures
            final(self).wf(),
            final(varvara).wf(),
            (final(self)@, final(varvara)@, halted) == spec_run(
                old(self)@,
                old(varvara)@,
                max_steps as nat,
            ),
    {
        let mut left: usize = max_steps;
        while left > 0
            invariant
                self.wf(),
                varvara.wf(),
                spec_run(old(self)@, old(varvara)@, max_steps as nat) == spec_run(
                    self@,
                    varvara@,
                    left as nat,
                ),
            decreases left,
        {
            match self.step(varvara) {
                Ok(false) => {},
                other => {
                    return other;
                },
            }
            left = left - 1;
        }
        Ok(false)
    }

    /// Execute INC
    pub fn inc(&mut self, f: CodeFlags) -> (done: Result<(), UxnError>)
        requires
            old(self).wf(),
        ensures
            final(self).wf(),
            cpu_outcome(old(self)@, spec_inc(old(self)@.work, f.short), final(self)@, done),
    {
        if f.short {
            if self.work.len() < 2 {
                return Err(UxnError::StackUnderflow);
            }
            let a = self.work.take2();
            self.work.put2(a.wrapping_add(1));
        } else {
            match self.work.peek_mut() {
                Ok(top) => {
                    *top = top.wrapping_add(1);
                },
                Err(e) => {
                    return Err(e);
                },
            }
            assert(self.work@ =~= old(self).work@.drop_last().push(
                add_byte(old(self).work@.last(), 1),
            ));
        }
        Ok(())
    }

    /// Execute ADD
    pub fn add(&mut self, f: CodeFlags) -> (done: Result<(), UxnError>)
        requires
            old(self).wf(),
        ensures
            final(self).wf(),
            cpu_outcome(
                old(self)@,
                spec_arith(old(self)@.work, f.short, false),
                final(self)@,
                done,
            ),
    {
        if f.short {
            if self.work.len() < 4 {
                return Err(UxnError::StackUnderflow);
            }
            let b = self.work.take2();
            let a = self.work.take2();
            self.work.put2(a.wrapping_add(b));
        } else {
            if self.work.len() < 2 {
                return Err(UxnError::StackUnderflow);
            }
            let b = self.work.take();
            let a = self.work.take();
            self.work.put(a.wrapping_add(b));
        }
        Ok(())
    }

    /// Execute SUB
    pub fn sub(&mut self, f: CodeFlags) -> (done: Result<(), UxnError>)
        requires
            old(self).wf(),
        ensures
            final(self).wf(),
            cpu_outcome(
                old(self)@,
                spec_arith(old(self)@.work, f.short, true),
                final(self)@,
                done,
            ),
    {
        if f.short {
            if self.work.len() < 4 {
                return Err(UxnError::StackUnderflow);
            }
            let b = self.work.take2();
            let a = self.work.take2();
            self.work.put2(a.wrapping_sub(b));
        } else {
            if self.work.len() < 2 {
                return Err(UxnError::StackUnderflow);
            }
            let b = self.work.take();
            let a = self.work.take();
            self.work.put(a.wrapping_sub(b));
        }
        Ok(())
    }

    /// Execute LIT
    pub fn lit(&mut self, f: LitFlags, varvara: &Varvara) -> (done: Result<(), UxnError>)
        requires
            old(self).wf(),
        ensures
            final(self).wf(),
            (final(self)@, done) == spec_lit(old(self)@, varvara@.main, f.short),
    {
        if f.short {
            let short = self.next_short(varvara);
            self.work.push2(short)
        } else {
            let byte = self.next_byte(varvara);
            self.work.push(byte)
        }
    }

    /// Execute DEO
    pub fn deo(&mut self, f: CodeFlags, varvara: &mut Varvara) -> (done: Result<(), UxnError>)
        requires
            old(self).wf(),
            old(varvara).wf(),
        ensures
            final(self).wf(),
            final(varvara).wf(),
            final(self)@.ret == old(self)@.ret,
            final(self)@.counter == old(self)@.counter,
            (final(self)@.work, final(varvara)@, done) == spec_cpu_deo(
                old(self)@.work,
                old(varvara)@,
                f.short,
            ),
    {
        if f.short {
            if self.work.len() < 3 {
                return Err(UxnError::StackUnderflow);
            }
            let addr = self.work.take();
            let short = self.work.take2();
            varvara.deo2(addr, short)
        } else {
            if self.work.len() < 2 {
                return Err(UxnError::StackUnderflow);
            }
            let addr = self.work.take();
            let byte = self.work.take();
            varvara.deo(addr, byte)
        }
    }

    /// Execute DEI
    pub fn dei(&mut self, f: CodeFlags, varvara: &mut Varvara) -> (done: Result<(), UxnError>)
        requires
            old(self).wf(),
        ensures
            final(self).wf(),
            *final(varvara) == *old(varvara),
            cpu_outcome(
                old(self)@,
                spec_dei(old(self)@.work, old(varvara)@.io, f.short),
                final(self)@,
                done,
            ),
    {
        let n = self.work.len();
        if n < 1 {
            return Err(UxnError::StackUnderflow);
        }
        if f.short {
            if n >= STACK_CAPACITY {
                return Err(UxnError::StackOverflow);
            }
            let addr = self.work.take();
            self.work.put2(varvara.dei2(addr));
        } else {
            let addr = self.work.take();
            self.work.put(varvara.dei(addr));
        }
        Ok(())
    }
}

impl Default for Cpu {
    fn default() -> (cpu: Cpu)
        ensures
            cpu.wf(),
            cpu@ == (CpuState { work: Seq::empty(), ret: Seq::empty(), counter: PROGRAM_START }),
    {
        Cpu::new()
    }
}

/// What was pushed last is popped first: a byte or a short that was pushed is
/// the one that is popped, and the stack below it is as it was.
pub proof fn lemma_push_pop(stack: Seq<u8>, byte: u8, short: u16)
    ensures
        stack.len() + 1 <= STACK_CAPACITY ==> (spec_push(stack, byte) matches Ok(pushed)
            && spec_pop(pushed) == Ok::<(Seq<u8>, u8), UxnError>((stack, byte))),
        stack.len() + 2 <= STACK_CAPACITY ==> (spec_push2(stack, short) matches Ok(pushed)
            && spec_pop2(pushed) == Ok::<(Seq<u8>, u16), UxnError>((stack, short))),
{
    assert(stack.push(byte).drop_last() =~= stack);
    let pushed = stack.push(high_byte(short)).push(low_byte(short));
    assert(pushed.take(pushed.len() - 2) =~= stack);
}

/// Byte arithmetic: with `a` and then `b` on top of the working stack, `ADD`
/// leaves their sum modulo 256 in their place, and `SUB` leaves `a - b`
/// modulo 256.
pub proof fn lemma_byte_arithmetic(work: Seq<u8>, a: u8, b: u8)
    ensures
        spec_arith(work.push(a).push(b), false, false) == Ok::<Seq<u8>, UxnError>(
            work.push(((a + b) % 256) as u8),
        ),
        spec_arith(work.push(a).push(b), false, true) == Ok::<Seq<u8>, UxnError>(
            work.push(((a - b) % 256) as u8),
        ),
{
    let both = work.push(a).push(b);
    assert(both.drop_last() =~= work.push(a));
    assert(work.push(a).drop_last() =~= work);
}

/// Short arithmetic: with `a` and then `b` on top of the working stack, each
/// high byte first, `ADD2` leaves their sum modulo 65536 in their place, and
/// `SUB2` leaves `a - b` modulo 65536.
pub proof fn lemma_short_arithmetic(work: Seq<u8>, a: u16, b: u16)
    ensures
        ({
            let before = work.push(high_byte(a)).push(low_byte(a)).push(high_byte(b)).push(
                low_byte(b),
            );
            let sum = ((a + b) % 65536) as u16;
            let difference = ((a - b) % 65536) as u16;
            &&& spec_arith(before, true, false) == Ok::<Seq<u8>, UxnError>(
                work.push(high_byte(sum)).push(low_byte(sum)),
            )
            &&& spec_arith(before, true, true) == Ok::<Seq<u8>, UxnError>(
                work.push(high_byte(difference)).push(low_byte(difference)),
            )
        }),
{
    let first = work.push(high_byte(a)).push(low_byte(a));
    let before = first.push(high_byte(b)).push(low_byte(b));
    assert(before.take(before.len() - 2) =~= first);
    assert(first.take(first.len() - 2) =~= work);
}

/// Determinism: the outcome of a run is a function of the state it starts
/// from. Two machines that start with the same stacks, counter, memory, I/O
/// page and devices end, after the same number of steps, with the same
/// stacks, counter, memory, I/O page and devices, and the same result.
pub proof fn lemma_run_deterministic(
    first_cpu: Cpu,
    first_bus: Varvara,
    second_cpu: Cpu,
    second_bus: Varvara,
    steps: nat,
)
    requires
        first_cpu@ == second_cpu@,
        first_bus@ == second_bus@,
    ensures
        spec_run(first_cpu@, first_bus@, steps) == spec_run(second_cpu@, second_bus@, steps),
{
}

} // verus!
