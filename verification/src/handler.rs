//! The crash report: what the signal handler does, one action at a time.
//!
//! Opening a report and handing it events never allocates, never blocks and
//! never fails, so all of it may run inside a signal handler. A report always
//! comes to an end, and its end is the end of the process.

use vstd::prelude::*;

use crate::context::{Arch, RAX_OFFSET, RCX_OFFSET, RSP_OFFSET};
use crate::line::Line;
use crate::scan::{
    in_guest_code, is_address, is_guest_code, may_be_address, ScanPos, GUEST_CAP, STACK_CAP,
};
use crate::signal::Signal;
use crate::step::{Act, Action, Ev, Event};
use crate::text::{
    backtrace_header, backtrace_text, banner, banner_text, caller_line, caller_text, fault_pc_line,
    fault_pc_text, guest_header, guest_text, guest_word_line, guest_word_text, registers_line,
    registers_text, stack_header, stack_text, thread_line, thread_text, NAME_CAP,
};

verus! {

/// How many of the latest breadcrumbs a report prints.
pub const CRUMBS: usize = 32;

/// How many frames the native backtrace walks at most.
pub const FRAME_CAP: i32 = 64;

/// The status that a crashed process ends with.
pub const CRASH_STATUS: i32 = 1;

/// What a report waits for.
#[derive(Clone, Copy, Debug, PartialEq, Eq, Structural)]
pub enum Stage {
    /// The kernel's description of the fault.
    FaultInfo,
    /// The banner to be written.
    Banner,
    /// The thread's name.
    ThreadName,
    /// The thread line to be written.
    ThreadLine,
    /// The program counter of the fault.
    Pc,
    /// The program counter to be written.
    PcLine(u64),
    /// Its symbol to be printed.
    PcSymbol,
    /// `rsp`, for the register line.
    Rsp,
    /// `rcx`.
    Rcx { rsp: u64 },
    /// `rax`.
    Rax { rsp: u64, rcx: u64 },
    /// The register line to be written.
    RegisterLine { rsp: u64 },
    /// The word at the top of the stack.
    ReturnWord,
    /// The return address to be written.
    CallerLine(u64),
    /// Its symbol to be printed.
    CallerSymbol,
    /// The breadcrumbs to be printed.
    Crumbs,
    /// The frames to be walked.
    Frames,
    /// The backtrace's header to be written.
    FramesHeader(i32),
    /// The frames' symbols to be printed.
    FrameSymbols,
    /// The stack pointer, for the scan of our own stack.
    StackSp,
    /// The scan's header to be written.
    StackHeader(u64),
    /// A word of our own stack.
    StackWord(ScanPos),
    /// Whether that word points into our own images.
    StackOwner(ScanPos, u64),
    /// Its symbol to be printed.
    StackSymbol(ScanPos),
    /// `rsp`, for the scan of the guest's stack.
    GuestRsp,
    /// The scan's header to be written.
    GuestHeader(u64),
    /// A word of the guest's stack.
    GuestWord(ScanPos),
    /// That word to be written.
    GuestLine(ScanPos),
    /// Nothing: the process is to end.
    Finished,
}

/// A crash report in progress.
#[derive(Clone, Copy, Debug, PartialEq, Eq, Structural)]
pub struct Report {
    pub arch: Arch,
    pub signal: Signal,
    pub stage: Stage,
}

/// A report at a stage, and the action that it asks for.
pub open spec fn at(r: Report, stage: Stage, action: Act) -> (Report, Act) {
    (Report { stage, ..r }, action)
}

/// The end of a report.
pub open spec fn ended(r: Report) -> (Report, Act) {
    at(r, Stage::Finished, Action::Exit(CRASH_STATUS))
}

/// A report that turns to the program counter of the fault.
pub open spec fn to_pc(r: Report) -> (Report, Act) {
    match r.arch.pc_field() {
        Some(offset) => at(r, Stage::Pc, Action::ReadRegister(offset)),
        None => to_registers(r),
    }
}

/// A report that turns to the guest's registers, which only `x86_64` has.
pub open spec fn to_registers(r: Report) -> (Report, Act) {
    if r.arch == Arch::X86_64 {
        at(r, Stage::Rsp, Action::ReadRegister(RSP_OFFSET))
    } else {
        to_crumbs(r)
    }
}

/// A report that turns to the breadcrumbs.
pub open spec fn to_crumbs(r: Report) -> (Report, Act) {
    at(r, Stage::Crumbs, Action::DumpCrumbs(CRUMBS))
}

/// A report that turns to our own stack.
pub open spec fn to_stack(r: Report) -> (Report, Act) {
    match r.arch.sp_field() {
        Some(offset) => at(r, Stage::StackSp, Action::ReadRegister(offset)),
        None => to_guest(r),
    }
}

/// A report that looks at a word of our own stack, if one is left.
pub open spec fn to_stack_word(r: Report, pos: Option<ScanPos>) -> (Report, Act) {
    match pos {
        Some(p) => at(r, Stage::StackWord(p), Action::ReadWord(p.here())),
        None => to_guest(r),
    }
}

/// A report that turns to the guest's stack, which only `x86_64` has.
pub open spec fn to_guest(r: Report) -> (Report, Act) {
    if r.arch == Arch::X86_64 {
        at(r, Stage::GuestRsp, Action::ReadRegister(RSP_OFFSET))
    } else {
        ended(r)
    }
}

/// A report that looks at a word of the guest's stack, if one is left.
pub open spec fn to_guest_word(r: Report, pos: Option<ScanPos>) -> (Report, Act) {
    match pos {
        Some(p) => at(r, Stage::GuestWord(p), Action::ReadHalfWord(p.here())),
        None => ended(r),
    }
}

/// How a report goes on. An event that does not answer what the report waits
/// for ends it.
pub open spec fn step(r: Report, event: Ev) -> (Report, Act) {
    match (r.stage, event) {
        (Stage::FaultInfo, Event::FaultInfo(info)) => at(
            r,
            Stage::Banner,
            Action::Write(banner_text(r.signal, info)),
        ),
        (Stage::Banner, Event::Done) => at(r, Stage::ThreadName, Action::ReadThreadName),
        (Stage::ThreadName, Event::ThreadName(name)) => at(
            r,
            Stage::ThreadLine,
            Action::Write(thread_text(name)),
        ),
        (Stage::ThreadLine, Event::Done) => to_pc(r),
        (Stage::Pc, Event::Register(pc)) => if pc != 0 {
            at(r, Stage::PcLine(pc), Action::Write(fault_pc_text(pc)))
        } else {
            to_registers(r)
        },
        (Stage::PcLine(pc), Event::Done) => at(r, Stage::PcSymbol, Action::Symbolize(pc)),
        (Stage::PcSymbol, Event::Done) => to_registers(r),
        (Stage::Rsp, Event::Register(rsp)) => at(
            r,
            Stage::Rcx { rsp },
            Action::ReadRegister(RCX_OFFSET),
        ),
        (Stage::Rcx { rsp }, Event::Register(rcx)) => at(
            r,
            Stage::Rax { rsp, rcx },
            Action::ReadRegister(RAX_OFFSET),
        ),
        (Stage::Rax { rsp, rcx }, Event::Register(rax)) => at(
            r,
            Stage::RegisterLine { rsp },
            Action::Write(registers_text(rcx, rax, rsp)),
        ),
        (Stage::RegisterLine { rsp }, Event::Done) => if rsp != 0 {
            at(r, Stage::ReturnWord, Action::ReadWord(rsp))
        } else {
            to_crumbs(r)
        },
        (Stage::ReturnWord, Event::Word(ret)) => at(
            r,
            Stage::CallerLine(ret),
            Action::Write(caller_text(ret)),
        ),
        (Stage::CallerLine(ret), Event::Done) => at(
            r,
            Stage::CallerSymbol,
            Action::Symbolize(ret),
        ),
        (Stage::CallerSymbol, Event::Done) => to_crumbs(r),
        (Stage::Crumbs, Event::Done) => at(r, Stage::Frames, Action::Backtrace(FRAME_CAP)),
        (Stage::Frames, Event::Frames(n)) => if n > 0 {
            at(r, Stage::FramesHeader(n), Action::Write(backtrace_text()))
        } else {
            to_stack(r)
        },
        (Stage::FramesHeader(n), Event::Done) => at(
            r,
            Stage::FrameSymbols,
            Action::SymbolizeFrames(n),
        ),
        (Stage::FrameSymbols, Event::Done) => to_stack(r),
        (Stage::StackSp, Event::Register(sp)) => if sp != 0 {
            at(r, Stage::StackHeader(sp), Action::Write(stack_text()))
        } else {
            to_guest(r)
        },
        (Stage::StackHeader(sp), Event::Done) => to_stack_word(
            r,
            Some(ScanPos::first(sp, STACK_CAP)),
        ),
        (Stage::StackWord(pos), Event::Word(v)) => if is_address(v) {
            at(r, Stage::StackOwner(pos, v), Action::Resolve(v))
        } else {
            to_stack_word(r, pos.after(0))
        },
        (Stage::StackOwner(pos, v), Event::Ours(ours)) => if ours {
            at(r, Stage::StackSymbol(pos), Action::Symbolize(v))
        } else {
            to_stack_word(r, pos.after(0))
        },
        (Stage::StackSymbol(pos), Event::Done) => to_stack_word(r, pos.after(1)),
        (Stage::GuestRsp, Event::Register(rsp)) => if rsp != 0 {
            at(r, Stage::GuestHeader(rsp), Action::Write(guest_text()))
        } else {
            ended(r)
        },
        (Stage::GuestHeader(rsp), Event::Done) => to_guest_word(
            r,
            Some(ScanPos::first(rsp, GUEST_CAP)),
        ),
        (Stage::GuestWord(pos), Event::HalfWord(w)) => if is_guest_code(w) {
            at(r, Stage::GuestLine(pos), Action::Write(guest_word_text(w)))
        } else {
            to_guest_word(r, pos.after(0))
        },
        (Stage::GuestLine(pos), Event::Done) => to_guest_word(r, pos.after(1)),
        _ => ended(r),
    }
}

/// How a report begins: at once with its end, where the handler itself has
/// faulted.
pub open spec fn opened(reentered: bool, signal: Signal, arch: Arch) -> (Report, Act) {
    let r = Report { arch, signal, stage: Stage::Finished };
    if reentered {
        ended(r)
    } else if signal.is_fault() {
        at(r, Stage::FaultInfo, Action::ReadFaultInfo)
    } else {
        at(r, Stage::Banner, Action::Write(banner_text(signal, None)))
    }
}

/// The lines that an action holds lie inside their buffers.
pub open spec fn action_wf(action: Action<Line>) -> bool {
    action matches Action::Write(line) ==> line.wf()
}

impl Report {
    /// A scan that is going on has not come to its end.
    pub open spec fn wf(self) -> bool {
        match self.stage {
            Stage::StackWord(pos) => pos.wf(),
            Stage::StackOwner(pos, _) => pos.wf(),
            Stage::StackSymbol(pos) => pos.wf(),
            Stage::GuestWord(pos) => pos.wf(),
            Stage::GuestLine(pos) => pos.wf(),
            _ => true,
        }
    }

    /// Opens the report on a signal. `reentered` says that a report was already
    /// under way, so that carrying it out has itself faulted.
    pub fn open(reentered: bool, signal: Signal, arch: Arch) -> (start: (Report, Action<Line>))
        ensures
            (start.0, start.1@) == opened(reentered, signal, arch),
            start.0.wf(),
            action_wf(start.1),
    {
        if reentered {
            return (
                Report { arch, signal, stage: Stage::Finished },
                Action::Exit(CRASH_STATUS),
            );
        }
        if signal.has_fault_info() {
            return (Report { arch, signal, stage: Stage::FaultInfo }, Action::ReadFaultInfo);
        }
        (Report { arch, signal, stage: Stage::Banner }, Action::Write(banner(signal, None)))
    }

    /// Takes the result of the action that the report last asked for, and asks
    /// for the next one.
    pub fn next(&mut self, event: Event<[u8; NAME_CAP]>) -> (action: Action<Line>)
        requires
            old(self).wf(),
        ensures
            (*final(self), action@) == step(*old(self), event@),
            final(self).wf(),
            action_wf(action),
    {
        match (self.stage, event) {
            (Stage::FaultInfo, Event::FaultInfo(info)) => {
                self.stage = Stage::Banner;
                Action::Write(banner(self.signal, info))
            },
            (Stage::Banner, Event::Done) => {
                self.stage = Stage::ThreadName;
                Action::ReadThreadName
            },
            (Stage::ThreadName, Event::ThreadName(name)) => {
                self.stage = Stage::ThreadLine;
                Action::Write(thread_line(&name))
            },
            (Stage::ThreadLine, Event::Done) => match self.arch.pc_offset() {
                Some(offset) => {
                    self.stage = Stage::Pc;
                    Action::ReadRegister(offset)
                },
                None => self.turn_to_registers(),
            },
            (Stage::Pc, Event::Register(pc)) => {
                if pc != 0 {
                    self.stage = Stage::PcLine(pc);
                    Action::Write(fault_pc_line(pc))
                } else {
                    self.turn_to_registers()
                }
            },
            (Stage::PcLine(pc), Event::Done) => {
                self.stage = Stage::PcSymbol;
                Action::Symbolize(pc)
            },
            (Stage::PcSymbol, Event::Done) => self.turn_to_registers(),
            (Stage::Rsp, Event::Register(rsp)) => {
                self.stage = Stage::Rcx { rsp };
                Action::ReadRegister(RCX_OFFSET)
            },
            (Stage::Rcx { rsp }, Event::Register(rcx)) => {
                self.stage = Stage::Rax { rsp, rcx };
                Action::ReadRegister(RAX_OFFSET)
            },
            (Stage::Rax { rsp, rcx }, Event::Register(rax)) => {
                self.stage = Stage::RegisterLine { rsp };
                Action::Write(registers_line(rcx, rax, rsp))
            },
            (Stage::RegisterLine { rsp }, Event::Done) => {
                if rsp != 0 {
                    self.stage = Stage::ReturnWord;
                    Action::ReadWord(rsp)
                } else {
                    self.turn_to_crumbs()
                }
            },
            (Stage::ReturnWord, Event::Word(ret)) => {
                self.stage = Stage::CallerLine(ret);
                Action::Write(caller_line(ret))
            },
            (Stage::CallerLine(ret), Event::Done) => {
                self.stage = Stage::CallerSymbol;
                Action::Symbolize(ret)
            },
            (Stage::CallerSymbol, Event::Done) => self.turn_to_crumbs(),
            (Stage::Crumbs, Event::Done) => {
                self.stage = Stage::Frames;
                Action::Backtrace(FRAME_CAP)
            },
            (Stage::Frames, Event::Frames(n)) => {
                if n > 0 {
                    self.stage = Stage::FramesHeader(n);
                    Action::Write(backtrace_header())
                } else {
                    self.turn_to_stack()
                }
            },
            (Stage::FramesHeader(n), Event::Done) => {
                self.stage = Stage::FrameSymbols;
                Action::SymbolizeFrames(n)
            },
            (Stage::FrameSymbols, Event::Done) => self.turn_to_stack(),
            (Stage::StackSp, Event::Register(sp)) => {
                if sp != 0 {
                    self.stage = Stage::StackHeader(sp);
                    Action::Write(stack_header())
                } else {
                    self.turn_to_guest()
                }
            },
            (Stage::StackHeader(sp), Event::Done) => self.scan_stack_for_our_frames(
                Some(ScanPos::start(sp, STACK_CAP)),
            ),
            (Stage::StackWord(pos), Event::Word(v)) => {
                if may_be_address(v) {
                    self.stage = Stage::StackOwner(pos, v);
                    Action::Resolve(v)
                } else {
                    self.scan_stack_for_our_frames(pos.advance(false))
                }
            },
            (Stage::StackOwner(pos, v), Event::Ours(ours)) => {
                if ours {
                    self.stage = Stage::StackSymbol(pos);
                    Action::Symbolize(v)
                } else {
                    self.scan_stack_for_our_frames(pos.advance(false))
                }
            },
            (Stage::StackSymbol(pos), Event::Done) => self.scan_stack_for_our_frames(
                pos.advance(true),
            ),
            (Stage::GuestRsp, Event::Register(rsp)) => {
                if rsp != 0 {
                    self.stage = Stage::GuestHeader(rsp);
                    Action::Write(guest_header())
                } else {
                    self.end()
                }
            },
            (Stage::GuestHeader(rsp), Event::Done) => self.scan_guest_stack_for_pe_frames(
                Some(ScanPos::start(rsp, GUEST_CAP)),
            ),
            (Stage::GuestWord(pos), Event::HalfWord(w)) => {
                if in_guest_code(w) {
                    self.stage = Stage::GuestLine(pos);
                    Action::Write(guest_word_line(w))
                } else {
                    self.scan_guest_stack_for_pe_frames(pos.advance(false))
                }
            },
            (Stage::GuestLine(pos), Event::Done) => self.scan_guest_stack_for_pe_frames(
                pos.advance(true),
            ),
            _ => self.end(),
        }
    }

    /// Turns to the guest's registers.
    fn turn_to_registers(&mut self) -> (action: Action<Line>)
        ensures
            (*final(self), action@) == to_registers(*old(self)),
            final(self).wf(),
            action_wf(action),
    {
        if self.arch == Arch::X86_64 {
            self.stage = Stage::Rsp;
            Action::ReadRegister(RSP_OFFSET)
        } else {
            self.turn_to_crumbs()
        }
    }

    /// Turns to the breadcrumbs.
    fn turn_to_crumbs(&mut self) -> (action: Action<Line>)
        ensures
            (*final(self), action@) == to_crumbs(*old(self)),
            final(self).wf(),
            action_wf(action),
    {
        self.stage = Stage::Crumbs;
        Action::DumpCrumbs(CRUMBS)
    }

    /// Turns to our own stack.
    fn turn_to_stack(&mut self) -> (action: Action<Line>)
        ensures
            (*final(self), action@) == to_stack(*old(self)),
            final(self).wf(),
            action_wf(action),
    {
        match self.arch.sp_offset() {
            Some(offset) => {
                self.stage = Stage::StackSp;
                Action::ReadRegister(offset)
            },
            None => self.turn_to_guest(),
        }
    }

    /// Looks at a word of our own stack, if one is left.
    fn scan_stack_for_our_frames(&mut self, pos: Option<ScanPos>) -> (action: Action<Line>)
        requires
            pos is Some ==> pos->0.wf(),
        ensures
            (*final(self), action@) == to_stack_word(*old(self), pos),
            final(self).wf(),
            action_wf(action),
    {
        match pos {
            Some(p) => {
                self.stage = Stage::StackWord(p);
                Action::ReadWord(p.addr())
            },
            None => self.turn_to_guest(),
        }
    }

    /// Turns to the guest's stack.
    fn turn_to_guest(&mut self) -> (action: Action<Line>)
        ensures
            (*final(self), action@) == to_guest(*old(self)),
            final(self).wf(),
            action_wf(action),
    {
        if self.arch == Arch::X86_64 {
            self.stage = Stage::GuestRsp;
            Action::ReadRegister(RSP_OFFSET)
        } else {
            self.end()
        }
    }

    /// Looks at a word of the guest's stack, if one is left.
    fn scan_guest_stack_for_pe_frames(&mut self, pos: Option<ScanPos>) -> (action: Action<Line>)
        requires
            pos is Some ==> pos->0.wf(),
        ensures
            (*final(self), action@) == to_guest_word(*old(self), pos),
            final(self).wf(),
            action_wf(action),
    {
        match pos {
            Some(p) => {
                self.stage = Stage::GuestWord(p);
                Action::ReadHalfWord(p.addr())
            },
            None => self.end(),
        }
    }

    /// Ends the report.
    fn end(&mut self) -> (action: Action<Line>)
        ensures
            (*final(self), action@) == ended(*old(self)),
            final(self).wf(),
            action_wf(action),
    {
        self.stage = Stage::Finished;
        Action::Exit(CRASH_STATUS)
    }
}

} // verus!
