//! Sessions: the trace of a run, and the driver that steps a hart until it halts.
use vstd::prelude::*;
use std::collections::BTreeSet;
use crate::alu::{low32, wrap64};
use crate::executor::{
    memory_follows, reg, step_spec, step_writes_pc, HartState, HartView, InstructionException,
    InstructionExecutor,
};
use crate::image::MemoryImage;
use crate::layout::{get_register_addr, register_addr, STACK_INITIAL_ADDRESS};
use crate::memory::{accessible, read_spec, MemAccessSize, Memory};
use crate::monitor::{
    commits, stores_bytes, unmapped_writes, MemStore, MemoryMonitor, OpCodeResult, SyscallRecord,
};
use crate::opcode::{decode_spec, opcode_record, rs1, rs1_of, rs2, rs2_of, InsnKind, OpCode};

verus! {

/// How a segment or session ended.
#[derive(Clone, Copy, Debug, PartialEq, Eq, Structural)]
pub enum ExitCode {
    /// The step budget ran out.
    SessionLimit,
    /// The guest halted with this exit code.
    Halted(u32),
}

/// Pages read and written, by index.
pub struct PageFaults {
    pub reads: BTreeSet<u32>,
    pub writes: BTreeSet<u32>,
}

impl PageFaults {
    pub fn new() -> (r: PageFaults)
        ensures
            r.reads@ == Set::<u32>::empty(),
            r.writes@ == Set::<u32>::empty(),
    {
        PageFaults { reads: BTreeSet::new(), writes: BTreeSet::new() }
    }
}

/// A contiguous part of a trace: where it started and how it ended.
#[derive(Clone, Copy, Debug, PartialEq, Eq, Structural)]
pub struct Segment {
    pub pc: u64,
    pub exit_code: ExitCode,
}

impl Segment {
    pub fn new(pc: u64, exit_code: ExitCode) -> (r: Segment)
        ensures
            r == (Segment { pc, exit_code }),
    {
        Segment { pc, exit_code }
    }
}

/// The trace of a run: its segments and how it ended.
pub struct Session {
    pub segments: Vec<Segment>,
    pub exit_code: ExitCode,
}

impl Session {
    pub fn new(segments: Vec<Segment>, exit_code: ExitCode) -> (r: Session)
        ensures
            r.segments@ == segments@,
            r.exit_code == exit_code,
    {
        Session { segments, exit_code }
    }
}

/// Value of `t0` that asks for a halt.
pub const HALT: u64 = 0;

/// Register holding the system call number (`t0`).
pub const REG_T0: usize = 5;

/// Registers holding the first two arguments (`a0`, `a1`).
pub const REG_A0: usize = 10;

pub const REG_A1: usize = 11;

/// Steps a hart against a memory monitor until it halts.
pub struct Executor {
    pub machine: InstructionExecutor<MemoryMonitor>,
    /// Where the session started.
    pub entry: u64,
    /// The result of the last committed step, for the trace.
    pub last_op: Option<OpCodeResult>,
}

impl Executor {
    pub open spec fn wf(&self) -> bool {
        self.machine.mem.wf()
    }

    /// A hart at `entry` with zero registers, over `image`.
    pub fn new(image: MemoryImage, entry: u64) -> (r: Executor)
        requires
            image.wf(),
        ensures
            r.wf(),
            r.entry == entry,
            r.machine.hart_state.pc == entry,
            r.machine.hart_state.registers@ == Seq::new(32, |i: int| 0u64),
            r.machine.mem.image == image,
            r.machine.mem.pending() == Seq::<crate::monitor::MemStore>::empty(),
            r.last_op is None,
    {
        let mut hart_state = HartState::new();
        hart_state.pc = entry;
        Executor { machine: InstructionExecutor { mem: MemoryMonitor::new(image), hart_state }, entry, last_op: None }
    }

    /// The state a session step works on.
    pub open spec fn view(&self) -> ExecView {
        ExecView { hart: self.machine.hart_state@, mon: self.machine.mem, last_op: self.last_op }
    }

    /// Mirrors register `idx`, just written by the hart, into its shadow.
    fn mirror_register(&mut self, idx: usize)
        requires
            old(self).wf(),
            0 < idx < 32,
        ensures
            final(self).wf(),
            final(self).entry == old(self).entry,
            final(self).last_op == old(self).last_op,
            final(self).machine.hart_state@ == (HartView {
                regs: stack_reset(old(self).machine.hart_state.registers@, idx as int),
                pc: old(self).machine.hart_state.pc,
                last: old(self).machine.hart_state.last_register_write,
            }),
            mirrored(
                old(self).machine.mem,
                final(self).machine.mem,
                idx as int,
                old(self).machine.hart_state.registers@[idx as int],
            ),
    {
        let v = self.machine.hart_state.registers[idx];
        self.machine.mem.store_register(idx, v);
        if idx == 2 && v == 0 {
            self.machine.hart_state.registers[2] = STACK_INITIAL_ADDRESS;
        }
        assert(self.machine.hart_state.registers@ =~= stack_reset(
            old(self).machine.hart_state.registers@,
            idx as int,
        ));
    }

    /// Services an environment call: `t0 == HALT` halts with the low word of `a0`, any other
    /// number is recorded as a system call; the PC moves on and the step is committed.
    fn service_ecall(&mut self, opcode: OpCode) -> (r: StepResult)
        requires
            old(self).wf(),
        ensures
            final(self).wf(),
            final(self).entry == old(self).entry,
            ecall_effect(old(self).view(), final(self).view(), r, opcode),
    {
        let pc = self.machine.hart_state.pc;
        let t0 = self.machine.hart_state.read_register(REG_T0);
        let a0 = self.machine.hart_state.read_register(REG_A0);
        let a1 = self.machine.hart_state.read_register(REG_A1);
        let mut exit: Option<ExitCode> = None;
        let mut syscall: Option<SyscallRecord> = None;
        if t0 == HALT {
            exit = Some(ExitCode::Halted(crate::alu::low_word(a0)));
        } else {
            syscall = Some(SyscallRecord { number: t0, arg0: a0, arg1: a1 });
        }
        self.machine.hart_state.last_register_write = None;
        self.machine.hart_state.pc = crate::alu::wrapping_add64(pc, 4);
        let ghost m = self.machine.mem;
        self.machine.mem.save_op(OpCodeResult { syscall, pc_updated: false, opcode });
        let op = self.machine.mem.commit();
        self.last_op = Some(op);
        assert(committed(m, self.machine.mem, syscall));
        Ok(exit)
    }

    /// Runs instruction `opcode` (not an environment call) on the hart, after bootstrapping the
    /// stack pointer if the instruction reads it; mirrors the written register and commits.
    fn hart_step(&mut self, insn: u32, opcode: OpCode) -> (r: StepResult)
        requires
            old(self).wf(),
        ensures
            final(self).wf(),
            final(self).entry == old(self).entry,
            exists|b: ExecView|
                {
                    &&& if reads_stack_pointer(opcode.kind, insn) {
                        stack_bootstrapped(old(self).view(), b)
                    } else {
                        b == old(self).view()
                    }
                    &&& hart_steps(b, final(self).view(), r, opcode)
                },
    {
        let k = opcode.kind;
        if reads_stack_pointer_exec(k, insn) {
            self.bootstrap_stack();
        }
        let ghost b = self.view();
        let pc_updated = match self.machine.step_and_report() {
            Ok(u) => u,
            Err(e) => {
                assert(hart_steps(b, self.view(), Err(e), opcode));
                return Err(e);
            },
        };
        let ghost m1 = self.machine.mem;
        let ghost oh = self.machine.hart_state@;
        match self.machine.hart_state.last_register_write {
            Some(idx) => {
                if 0 < idx && idx < 32 {
                    self.mirror_register(idx);
                }
            },
            None => {},
        }
        let ghost m2 = self.machine.mem;
        let ghost h2 = self.machine.hart_state@;
        assert(after_mirror(oh, m1, h2, m2));
        self.machine.mem.save_op(OpCodeResult { syscall: None, pc_updated, opcode });
        let op = self.machine.mem.commit();
        self.last_op = Some(op);
        assert(committed(m2, self.machine.mem, None));
        assert(memory_follows(step_spec(b.hart, b.mon), b.mon, m1));
        assert(hart_steps(b, self.view(), Ok(None), opcode));
        Ok(None)
    }

    /// One step of the session: an environment call is serviced here, any other instruction
    /// goes to the hart; then the step's writes and system call are committed.
    /// `Ok(Some(code))` when the guest halted.
    pub fn step(&mut self) -> (r: Result<Option<ExitCode>, InstructionException>)
        requires
            old(self).wf(),
        ensures
            final(self).wf(),
            final(self).entry == old(self).entry,
            session_step(old(self).view(), final(self).view(), r),
    {
        reveal(session_step);
        let pc = self.machine.hart_state.pc;
        let word = match self.machine.mem.read_mem(pc, MemAccessSize::Word) {
            Some(w) => w,
            None => {
                return Err(InstructionException::FetchError(pc));
            },
        };
        let insn = (word % 0x1_0000_0000) as u32;
        let opcode = match OpCode::decode(insn, pc) {
            Ok(op) => op,
            Err(_) => {
                return Err(InstructionException::IllegalInstruction(pc, insn));
            },
        };
        match opcode.kind {
            InsnKind::Ecall => self.service_ecall(opcode),
            _ => self.hart_step(insn, opcode),
        }
    }

    /// Bootstraps a zero stack pointer from its shadow; the shadow is written once per session.
    fn bootstrap_stack(&mut self)
        requires
            old(self).wf(),
        ensures
            final(self).wf(),
            final(self).entry == old(self).entry,
            stack_bootstrapped(old(self).view(), final(self).view()),
    {
        if self.machine.hart_state.registers[2] == 0 {
            let addr = get_register_addr(2);
            if self.machine.mem.image.memory_space.is_accessible(addr, MemAccessSize::DoubleWord) {
                let sp = self.machine.mem.load_register(2);
                self.machine.hart_state.registers[2] = sp;
            }
        }
    }

    /// Steps until the guest halts, a step fails, or
    /// `max_steps` steps have run. The session has one segment, which starts at the entry point
    /// and ends as the session does.
    pub fn run(&mut self, max_steps: u64) -> (r: Result<Session, InstructionException>)
        requires
            old(self).wf(),
        ensures
            final(self).wf(),
            exists|tr: Seq<ExecView>, rs: Seq<StepResult>|
                #![trigger session_trace(tr, rs)]
                {
                    &&& tr[0] == old(self).view()
                    &&& session_trace(tr, rs)
                    &&& tr.last() == final(self).view()
                    &&& session_ends(rs, max_steps, session_result(r))
                },
            r matches Ok(s) ==> {
                &&& s.segments@.len() == 1
                &&& s.segments@[0].pc == old(self).entry
                &&& s.segments@[0].exit_code == s.exit_code
            },
    {
        let ghost mut tr: Seq<ExecView> = seq![self.view()];
        let ghost mut rs: Seq<StepResult> = Seq::empty();
        let ghost start = self.view();
        let mut n: u64 = 0;
        let mut exit_code = ExitCode::SessionLimit;
        while n < max_steps
            invariant
                self.wf(),
                self.entry == old(self).entry,
                n <= max_steps,
                exit_code == ExitCode::SessionLimit,
                start == old(self).view(),
                tr.len() == rs.len() + 1,
                tr[0] == start,
                rs.len() == n,
                session_trace(tr, rs),
                tr.last() == self.view(),
                forall|i: int| 0 <= i < rs.len() ==> #[trigger] rs[i] == Ok::<
                    Option<ExitCode>,
                    InstructionException,
                >(None),
            decreases max_steps - n,
        {
            let res = self.step();
            proof {
                let tr2 = tr.push(self.view());
                let rs2 = rs.push(res);
                assert forall|i: int| 0 <= i < rs2.len() implies session_step(
                    tr2[i],
                    tr2[i + 1],
                    #[trigger] rs2[i],
                ) by {
                    if i < rs.len() {
                        assert(session_step(tr[i], tr[i + 1], rs[i]));
                    }
                }
                tr = tr2;
                rs = rs2;
            }
            match res {
                Err(e) => {
                    assert(session_ends(rs, max_steps, Err(e)));
                    assert(tr.last() == self.view());
                    assert(session_trace(tr, rs));
                    return Err(e);
                },
                Ok(Some(code)) => {
                    exit_code = code;
                    assert(session_ends(rs, max_steps, Ok(code)));
                    let segment = Segment::new(self.entry, exit_code);
                    let mut segments: Vec<Segment> = Vec::new();
                    segments.push(segment);
                    let session = Session::new(segments, exit_code);
                    assert(session_result(Ok(session)) == Ok::<ExitCode, InstructionException>(code));
                    assert(session_trace(tr, rs));
                    return Ok(session);
                },
                Ok(None) => {},
            }
            n = n + 1;
        }
        proof {
            if rs.len() > 0 {
                assert(rs[rs.len() - 1] == Ok::<Option<ExitCode>, InstructionException>(None));
            }
        }
        assert(session_ends(rs, max_steps, Ok(ExitCode::SessionLimit)));
        let segment = Segment::new(self.entry, exit_code);
        let mut segments: Vec<Segment> = Vec::new();
        segments.push(segment);
        let session = Session::new(segments, exit_code);
        assert(session_result(Ok(session)) == Ok::<ExitCode, InstructionException>(
            ExitCode::SessionLimit,
        ));
        assert(session_trace(tr, rs));
        Ok(session)
    }
}

/// What one session step returns.
pub type StepResult = Result<Option<ExitCode>, InstructionException>;

/// The state a session step works on: the hart and its memory monitor.
pub struct ExecView {
    pub hart: HartView,
    pub mon: MemoryMonitor,
    pub last_op: Option<OpCodeResult>,
}

/// The registers after the shadow write of register `idx`: a zero stack pointer is reset to
/// `STACK_INITIAL_ADDRESS`.
pub open spec fn stack_reset(regs: Seq<u64>, idx: int) -> Seq<u64> {
    if idx == 2 && regs[2] == 0 {
        regs.update(2, STACK_INITIAL_ADDRESS)
    } else {
        regs
    }
}

/// `post` is `pre` with register `idx`, whose value is `v`, written to its shadow.
pub open spec fn mirrored(pre: MemoryMonitor, post: MemoryMonitor, idx: int, v: u64) -> bool {
    &&& post.wf()
    &&& stores_bytes(
        pre.pending(),
        post.pending(),
        register_addr(idx),
        8,
        if idx == 2 && v == 0 {
            STACK_INITIAL_ADDRESS
        } else {
            v
        },
    )
    &&& post.image == pre.image
    &&& post.op() == pre.op()
    &&& post.syscalls == pre.syscalls
    &&& post.bootstrapped() == pre.bootstrapped()
    &&& post.dropped_writes == pre.dropped_writes
}

/// From hart `h` and monitor `m` just after the hart's step to `h2` and `m2` once the written
/// register (if any) is mirrored.
pub open spec fn after_mirror(h: HartView, m: MemoryMonitor, h2: HartView, m2: MemoryMonitor) -> bool {
    match h.last {
        Some(i) => if 0 < i < 32 {
            mirrored(m, m2, i as int, h.regs[i as int]) && h2 == HartView {
                regs: stack_reset(h.regs, i as int),
                pc: h.pc,
                last: h.last,
            }
        } else {
            m2 == m && h2 == h
        },
        None => m2 == m && h2 == h,
    }
}

/// `post` is `pre` after the commit that ends a step whose system call is `call`.
pub open spec fn committed(pre: MemoryMonitor, post: MemoryMonitor, call: Option<SyscallRecord>) -> bool {
    &&& post.wf()
    &&& commits(pre.mem(), post.mem(), pre.pending())
    &&& post.pending() == Seq::<MemStore>::empty()
    &&& post.op() is None
    &&& post.syscalls@ == match call {
        Some(c) => pre.syscalls@.push(c),
        None => pre.syscalls@,
    }
    &&& post.bootstrapped() == pre.bootstrapped()
    &&& post.dropped_writes@ == pre.dropped_writes@ + unmapped_writes(pre.mem(), pre.pending())
}

/// One session step from `pre` to `post`, returning `r`.
#[verifier::opaque]
pub open spec fn session_step(pre: ExecView, post: ExecView, r: StepResult) -> bool {
    let h = pre.hart;
    match read_spec(pre.mon.mem(), h.pc, MemAccessSize::Word) {
        None => r == Err::<Option<ExitCode>, InstructionException>(
            InstructionException::FetchError(h.pc),
        ) && post == pre,
        Some(w) => {
            let insn = (w % 0x1_0000_0000) as u32;
            match decode_spec(insn) {
                None => r == Err::<Option<ExitCode>, InstructionException>(
                    InstructionException::IllegalInstruction(h.pc, insn),
                ) && post == pre,
                Some(k) => if k == InsnKind::Ecall {
                    ecall_effect(pre, post, r, opcode_record(insn, h.pc, k))
                } else {
                    exists|b: ExecView|
                        {
                            &&& if reads_stack_pointer(k, insn) {
                                stack_bootstrapped(pre, b)
                            } else {
                                b == pre
                            }
                            &&& hart_steps(b, post, r, opcode_record(insn, h.pc, k))
                        }
                },
            }
        },
    }
}

/// An environment call from `pre` to `post`, returning `r`.
pub open spec fn ecall_effect(pre: ExecView, post: ExecView, r: StepResult, opcode: OpCode) -> bool {
    let h = pre.hart;
    let t0 = reg(h.regs, REG_T0 as int);
    let a0 = reg(h.regs, REG_A0 as int);
    let a1 = reg(h.regs, REG_A1 as int);
    let call = if t0 == HALT {
        None
    } else {
        Some(SyscallRecord { number: t0, arg0: a0, arg1: a1 })
    };
    &&& post.last_op == Some(OpCodeResult { syscall: call, pc_updated: false, opcode })
    &&& r == if t0 == HALT {
        Ok::<Option<ExitCode>, InstructionException>(Some(ExitCode::Halted(low32(a0))))
    } else {
        Ok::<Option<ExitCode>, InstructionException>(None)
    }
    &&& post.hart == HartView { regs: h.regs, pc: wrap64(h.pc + 4), last: None }
    &&& committed(pre.mon, post.mon, call)
}

/// The hart's step from `b` (after any bootstrap) to `post`, then the mirror of the written
/// register and the commit of `opcode`'s result, which records whether the instruction wrote
/// the PC.
pub open spec fn hart_steps(b: ExecView, post: ExecView, r: StepResult, opcode: OpCode) -> bool {
    let o = step_spec(b.hart, b.mon);
    match o.result {
        Err(e) => r == Err::<Option<ExitCode>, InstructionException>(e) && post.hart == o.hart
            && memory_follows(o, b.mon, post.mon) && post.last_op == b.last_op,
        Ok(_) => r == Ok::<Option<ExitCode>, InstructionException>(None) && exists|
            m1: MemoryMonitor,
            h2: HartView,
            m2: MemoryMonitor,
        |
            memory_follows(o, b.mon, m1) && after_mirror(o.hart, m1, h2, m2) && post.hart == h2
                && committed(m2, post.mon, None) && post.last_op == Some(
                OpCodeResult {
                    syscall: None,
                    pc_updated: step_writes_pc(b.hart, b.mon),
                    opcode,
                },
            ),
    }
}

/// Whether instruction `k`, encoded by `insn`, reads the stack pointer x2 as a source.
pub open spec fn reads_stack_pointer(k: InsnKind, insn: u32) -> bool {
    let r1 = rs1_of(insn) == 2;
    let r2 = rs2_of(insn) == 2;
    match k {
        InsnKind::Lui | InsnKind::Auipc | InsnKind::Jal | InsnKind::Fence | InsnKind::Rdtime
        | InsnKind::Ecall | InsnKind::Ebreak => false,
        InsnKind::Lb | InsnKind::Lh | InsnKind::Lw | InsnKind::Ld | InsnKind::Lbu | InsnKind::Lhu
        | InsnKind::Lwu | InsnKind::Addi | InsnKind::Slli | InsnKind::Slti | InsnKind::Sltiu
        | InsnKind::Xori | InsnKind::Srli | InsnKind::Srai | InsnKind::Ori | InsnKind::Andi
        | InsnKind::Jalr | InsnKind::Addiw | InsnKind::LrW | InsnKind::LrD => r1,
        _ => r1 || r2,
    }
}

fn reads_stack_pointer_exec(k: InsnKind, insn: u32) -> (r: bool)
    ensures
        r == reads_stack_pointer(k, insn),
{
    let r1 = rs1(insn) == 2;
    let r2 = rs2(insn) == 2;
    match k {
        InsnKind::Lui | InsnKind::Auipc | InsnKind::Jal | InsnKind::Fence | InsnKind::Rdtime
        | InsnKind::Ecall | InsnKind::Ebreak => false,
        InsnKind::Lb | InsnKind::Lh | InsnKind::Lw | InsnKind::Ld | InsnKind::Lbu | InsnKind::Lhu
        | InsnKind::Lwu | InsnKind::Addi | InsnKind::Slli | InsnKind::Slti | InsnKind::Sltiu
        | InsnKind::Xori | InsnKind::Srli | InsnKind::Srai | InsnKind::Ori | InsnKind::Andi
        | InsnKind::Jalr | InsnKind::Addiw | InsnKind::LrW | InsnKind::LrD => r1,
        _ => r1 || r2,
    }
}

/// The stack-pointer bootstrap before an instruction that reads x2: a zero x2 whose shadow is
/// mapped takes the value `load_register(2)` gives, which writes the shadow once per session.
pub open spec fn stack_bootstrapped(pre: ExecView, post: ExecView) -> bool {
    if pre.hart.regs[2] == 0 && accessible(pre.mon.mem(), register_addr(2), MemAccessSize::DoubleWord) {
        let boot = read_spec(pre.mon.mem(), register_addr(2), MemAccessSize::DoubleWord) == Some(
            0u64,
        ) && !pre.mon.bootstrapped();
        &&& post.hart == HartView {
            regs: pre.hart.regs.update(2, pre.mon.register_value(2)),
            pc: pre.hart.pc,
            last: pre.hart.last,
        }
        &&& post.mon.wf()
        &&& post.mon.image == pre.mon.image
        &&& post.mon.op() == pre.mon.op()
        &&& post.mon.syscalls == pre.mon.syscalls
        &&& post.mon.dropped_writes == pre.mon.dropped_writes
        &&& post.last_op == pre.last_op
        &&& boot ==> post.mon.bootstrapped() && stores_bytes(
            pre.mon.pending(),
            post.mon.pending(),
            register_addr(2),
            8,
            STACK_INITIAL_ADDRESS,
        )
        &&& !boot ==> post.mon.pending() == pre.mon.pending() && post.mon.bootstrapped()
            == pre.mon.bootstrapped()
    } else {
        post == pre
    }
}

/// Successive states `tr` of a session, each step returning the matching entry of `rs`.
pub open spec fn session_trace(tr: Seq<ExecView>, rs: Seq<StepResult>) -> bool {
    &&& tr.len() == rs.len() + 1
    &&& forall|i: int| 0 <= i < rs.len() ==> session_step(tr[i], tr[i + 1], #[trigger] rs[i])
}

/// How a session whose step results are `rs` ends under a budget of `max_steps` steps:
/// every step but the last continued; the last failed, halted, or used up the budget.
pub open spec fn session_ends(
    rs: Seq<StepResult>,
    max_steps: u64,
    r: Result<ExitCode, InstructionException>,
) -> bool {
    &&& rs.len() <= max_steps
    &&& forall|i: int|
        0 <= i < rs.len() - 1 ==> #[trigger] rs[i] == Ok::<Option<ExitCode>, InstructionException>(
            None,
        )
    &&& if rs.len() == 0 || rs.last() == Ok::<Option<ExitCode>, InstructionException>(None) {
        rs.len() == max_steps && r == Ok::<ExitCode, InstructionException>(ExitCode::SessionLimit)
    } else {
        match rs.last() {
            Err(e) => r == Err::<ExitCode, InstructionException>(e),
            Ok(Some(c)) => r == Ok::<ExitCode, InstructionException>(c),
            Ok(None) => false,
        }
    }
}

/// The exit code or error a run returns.
pub open spec fn session_result(r: Result<Session, InstructionException>) -> Result<
    ExitCode,
    InstructionException,
> {
    match r {
        Ok(s) => Ok(s.exit_code),
        Err(e) => Err(e),
    }
}

} // verus!
