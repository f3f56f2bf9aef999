//! Whole crash reports: every action from the signal to the end of the process.
//!
//! [`run`] carries a report out in some [`World`]; the laws here say which
//! actions come out of that, in which order, and how many of them.

use vstd::prelude::*;

use crate::context::{Arch, RAX_OFFSET, RCX_OFFSET, RSP_OFFSET};
use crate::handler::{
    at, ended, opened, step, to_crumbs, to_guest, to_guest_word, to_pc, to_registers, to_stack,
    to_stack_word, Report, Stage, CRASH_STATUS, CRUMBS, FRAME_CAP,
};
use crate::image::lemma_c_len;
use crate::line::{ascii, lemma_hex_word_len, LINE_CAP};
use crate::scan::{
    is_address, is_guest_code, ScanPos, GUEST_CAP, SCAN_WORDS, STACK_CAP,
};
use crate::signal::Signal;
use crate::step::{answer, Act, Action, Ev, Event, World};
use crate::text::{
    backtrace_text, banner_text, caller_text, code_bits, fault_pc_text, guest_text, guest_word_text,
    registers_text, stack_text, thread_text, NAME_CAP,
};

verus! {

/// How many more actions a report can ask for at most.
pub open spec fn rank(stage: Stage) -> nat {
    match stage {
        Stage::Finished => 0,
        Stage::GuestLine(pos) => 2 * pos.left() + 1,
        Stage::GuestWord(pos) => 2 * pos.left() + 2,
        Stage::GuestHeader(_) => 8195,
        Stage::GuestRsp => 8196,
        Stage::StackSymbol(pos) => 8196 + 3 * pos.left() + 1,
        Stage::StackOwner(pos, _) => 8196 + 3 * pos.left() + 2,
        Stage::StackWord(pos) => 8196 + 3 * pos.left() + 3,
        Stage::StackHeader(_) => 20488,
        Stage::StackSp => 20489,
        Stage::FrameSymbols => 20490,
        Stage::FramesHeader(_) => 20491,
        Stage::Frames => 20492,
        Stage::Crumbs => 20493,
        Stage::CallerSymbol => 20494,
        Stage::CallerLine(_) => 20495,
        Stage::ReturnWord => 20496,
        Stage::RegisterLine { .. } => 20497,
        Stage::Rax { .. } => 20498,
        Stage::Rcx { .. } => 20499,
        Stage::Rsp => 20500,
        Stage::PcSymbol => 20501,
        Stage::PcLine(_) => 20502,
        Stage::Pc => 20503,
        Stage::ThreadLine => 20504,
        Stage::ThreadName => 20505,
        Stage::Banner => 20506,
        Stage::FaultInfo => 20507,
    }
}

/// Whatever a report is told, it comes closer to its end.
pub proof fn law_every_event_brings_the_end_closer(r: Report, event: Ev)
    requires
        r.stage !is Finished,
    ensures
        rank(step(r, event).0.stage) < rank(r.stage),
{
}

/// A report asks to end the process exactly when it is finished, whatever it is
/// told.
pub proof fn law_finished_means_exit(r: Report, event: Ev)
    ensures
        step(r, event).0.stage is Finished <==> step(r, event).1 is Exit,
        step(r, event).1 is Exit ==> step(r, event).1 == Act::Exit(CRASH_STATUS),
        r.stage is Finished ==> step(r, event).1 == Act::Exit(CRASH_STATUS),
{
}

/// An event is of the kind that a report waits for.
pub open spec fn is_awaited(stage: Stage, event: Ev) -> bool {
    match stage {
        Stage::FaultInfo => event is FaultInfo,
        Stage::ThreadName => event is ThreadName,
        Stage::Pc | Stage::Rsp | Stage::StackSp | Stage::GuestRsp => event is Register,
        Stage::Rcx { .. } | Stage::Rax { .. } => event is Register,
        Stage::ReturnWord => event is Word,
        Stage::StackWord(_) => event is Word,
        Stage::StackOwner(_, _) => event is Ours,
        Stage::GuestWord(_) => event is HalfWord,
        Stage::Frames => event is Frames,
        Stage::Finished => false,
        _ => event is Done,
    }
}

/// An event that a report does not wait for ends it.
pub proof fn law_events_out_of_turn_end_the_report(r: Report, event: Ev)
    requires
        !is_awaited(r.stage, event),
    ensures
        step(r, event).0.stage is Finished,
        step(r, event).1 == Act::Exit(1),
{
}

/// The actions of a report from here on, carried out in `w`.
pub open spec fn run(w: World, now: (Report, Act)) -> Seq<Act>
    decreases rank(now.0.stage),
{
    if now.0.stage is Finished {
        seq![now.1]
    } else {
        proof {
            law_every_event_brings_the_end_closer(now.0, answer(w, now.1));
        }
        seq![now.1] + run(w, step(now.0, answer(w, now.1)))
    }
}

/// The opening: the banner and the thread.
pub open spec fn opening_actions(signal: Signal, w: World) -> Seq<Act> {
    (if signal.is_fault() {
        seq![Act::ReadFaultInfo]
    } else {
        seq![]
    }) + seq![
        Act::Write(banner_text(signal, w.info)),
        Act::ReadThreadName,
        Act::Write(thread_text(w.name)),
    ]
}

/// The program counter of the fault, where it can be read and is not null.
pub open spec fn pc_actions(arch: Arch, w: World) -> Seq<Act> {
    match arch.pc_field() {
        None => seq![],
        Some(offset) => {
            let pc = (w.register)(offset);
            seq![Act::ReadRegister(offset)] + if pc != 0 {
                seq![Act::Write(fault_pc_text(pc)), Act::Symbolize(pc)]
            } else {
                seq![]
            }
        },
    }
}

/// The guest's registers and the caller, on `x86_64`.
pub open spec fn register_actions(arch: Arch, w: World) -> Seq<Act> {
    if arch == Arch::X86_64 {
        let rsp = (w.register)(RSP_OFFSET);
        let rcx = (w.register)(RCX_OFFSET);
        let rax = (w.register)(RAX_OFFSET);
        let ret = (w.word)(rsp);
        seq![
            Act::ReadRegister(RSP_OFFSET),
            Act::ReadRegister(RCX_OFFSET),
            Act::ReadRegister(RAX_OFFSET),
            Act::Write(registers_text(rcx, rax, rsp)),
        ] + if rsp != 0 {
            seq![Act::ReadWord(rsp), Act::Write(caller_text(ret)), Act::Symbolize(ret)]
        } else {
            seq![]
        }
    } else {
        seq![]
    }
}

/// The breadcrumbs and the native backtrace.
pub open spec fn history_actions(w: World) -> Seq<Act> {
    seq![Act::DumpCrumbs(CRUMBS), Act::Backtrace(FRAME_CAP)] + if w.frames > 0 {
        seq![Act::Write(backtrace_text()), Act::SymbolizeFrames(w.frames)]
    } else {
        seq![]
    }
}

/// Whether a word of the stack points into our own images.
pub open spec fn is_our_frame(w: World, v: u64) -> bool {
    is_address(v) && (w.ours)(v)
}

/// The scan of our own stack from a position on.
pub open spec fn stack_walk(w: World, pos: Option<ScanPos>) -> Seq<Act>
    decreases
            (match pos {
                Some(p) => p.left() + 1,
                None => 0,
            }),
{
    match pos {
        None => seq![],
        Some(p) => {
            let v = (w.word)(p.here());
            seq![Act::ReadWord(p.here())] + (if is_address(v) {
                seq![Act::Resolve(v)]
            } else {
                seq![]
            }) + (if is_our_frame(w, v) {
                seq![Act::Symbolize(v)]
            } else {
                seq![]
            }) + stack_walk(
                w,
                p.after(
                    if is_our_frame(w, v) {
                        1
                    } else {
                        0
                    },
                ),
            )
        },
    }
}

/// The scan of the guest's stack from a position on.
pub open spec fn guest_walk(w: World, pos: Option<ScanPos>) -> Seq<Act>
    decreases
            (match pos {
                Some(p) => p.left() + 1,
                None => 0,
            }),
{
    match pos {
        None => seq![],
        Some(p) => {
            let v = (w.half)(p.here());
            seq![Act::ReadHalfWord(p.here())] + (if is_guest_code(v) {
                seq![Act::Write(guest_word_text(v))]
            } else {
                seq![]
            }) + guest_walk(
                w,
                p.after(
                    if is_guest_code(v) {
                        1
                    } else {
                        0
                    },
                ),
            )
        },
    }
}

/// Our own return addresses on the stack, where the stack pointer can be read
/// and is not null.
pub open spec fn stack_actions(arch: Arch, w: World) -> Seq<Act> {
    match arch.sp_field() {
        None => seq![],
        Some(offset) => {
            let sp = (w.register)(offset);
            seq![Act::ReadRegister(offset)] + if sp != 0 {
                seq![Act::Write(stack_text())] + stack_walk(
                    w,
                    Some(ScanPos::first(sp, STACK_CAP)),
                )
            } else {
                seq![]
            }
        },
    }
}

/// The guest's return addresses on the stack, on `x86_64`.
pub open spec fn guest_actions(arch: Arch, w: World) -> Seq<Act> {
    if arch == Arch::X86_64 {
        let rsp = (w.register)(RSP_OFFSET);
        seq![Act::ReadRegister(RSP_OFFSET)] + if rsp != 0 {
            seq![Act::Write(guest_text())] + guest_walk(w, Some(ScanPos::first(rsp, GUEST_CAP)))
        } else {
            seq![]
        }
    } else {
        seq![]
    }
}

/// A whole report.
pub open spec fn report_actions(signal: Signal, arch: Arch, w: World) -> Seq<Act> {
    opening_actions(signal, w) + pc_actions(arch, w) + register_actions(arch, w) + history_actions(
        w,
    ) + stack_actions(arch, w) + guest_actions(arch, w) + seq![Act::Exit(CRASH_STATUS)]
}

/// Carries out one action.
proof fn lemma_run_step(w: World, now: (Report, Act))
    requires
        now.0.stage !is Finished,
    ensures
        run(w, now) == seq![now.1] + run(w, step(now.0, answer(w, now.1))),
{
}

proof fn lemma_run_end(w: World, r: Report)
    ensures
        run(w, ended(r)) == seq![Act::Exit(CRASH_STATUS)],
{
}

proof fn lemma_run_guest_word(w: World, r: Report, pos: Option<ScanPos>)
    ensures
        run(w, to_guest_word(r, pos)) == guest_walk(w, pos) + seq![Act::Exit(CRASH_STATUS)],
    decreases
            (match pos {
                Some(p) => p.left() + 1,
                None => 0,
            }),
{
    let end = seq![Act::Exit(CRASH_STATUS)];
    match pos {
        None => {
            lemma_run_end(w, r);
            assert(run(w, to_guest_word(r, pos)) =~= guest_walk(w, pos) + end);
        },
        Some(p) => {
            let v = (w.half)(p.here());
            let read = to_guest_word(r, pos);
            let line = at(r, Stage::GuestLine(p), Act::Write(guest_word_text(v)));
            lemma_run_step(w, read);
            if is_guest_code(v) {
                lemma_run_step(w, line);
                assert(step(read.0, answer(w, read.1)) == line);
                assert(step(line.0, answer(w, line.1)) == to_guest_word(r, p.after(1)));
                lemma_run_guest_word(w, r, p.after(1));
            } else {
                assert(step(read.0, answer(w, read.1)) == to_guest_word(r, p.after(0)));
                lemma_run_guest_word(w, r, p.after(0));
            }
            assert(run(w, read) =~= guest_walk(w, pos) + end);
        },
    }
}

proof fn lemma_run_guest(w: World, r: Report)
    ensures
        run(w, to_guest(r)) == guest_actions(r.arch, w) + seq![Act::Exit(CRASH_STATUS)],
{
    let end = seq![Act::Exit(CRASH_STATUS)];
    lemma_run_end(w, r);
    if r.arch == Arch::X86_64 {
        let rsp = (w.register)(RSP_OFFSET);
        let read = to_guest(r);
        let header = at(r, Stage::GuestHeader(rsp), Act::Write(guest_text()));
        lemma_run_step(w, read);
        if rsp != 0 {
            let first = Some(ScanPos::first(rsp, GUEST_CAP));
            lemma_run_step(w, header);
            assert(step(read.0, answer(w, read.1)) == header);
            assert(step(header.0, answer(w, header.1)) == to_guest_word(r, first));
            lemma_run_guest_word(w, r, first);
        } else {
            assert(step(read.0, answer(w, read.1)) == ended(r));
        }
    }
    assert(run(w, to_guest(r)) =~= guest_actions(r.arch, w) + end);
}

proof fn lemma_run_stack_word(w: World, r: Report, pos: Option<ScanPos>)
    ensures
        run(w, to_stack_word(r, pos)) == stack_walk(w, pos) + run(w, to_guest(r)),
    decreases
            (match pos {
                Some(p) => p.left() + 1,
                None => 0,
            }),
{
    let rest = run(w, to_guest(r));
    match pos {
        None => {
            assert(run(w, to_stack_word(r, pos)) =~= stack_walk(w, pos) + rest);
        },
        Some(p) => {
            let v = (w.word)(p.here());
            let read = to_stack_word(r, pos);
            let resolve = at(r, Stage::StackOwner(p, v), Act::Resolve(v));
            let symbol = at(r, Stage::StackSymbol(p), Act::Symbolize(v));
            lemma_run_step(w, read);
            if is_address(v) {
                lemma_run_step(w, resolve);
                assert(step(read.0, answer(w, read.1)) == resolve);
                if (w.ours)(v) {
                    lemma_run_step(w, symbol);
                    assert(step(resolve.0, answer(w, resolve.1)) == symbol);
                    assert(step(symbol.0, answer(w, symbol.1)) == to_stack_word(r, p.after(1)));
                    lemma_run_stack_word(w, r, p.after(1));
                } else {
                    assert(step(resolve.0, answer(w, resolve.1)) == to_stack_word(r, p.after(0)));
                    lemma_run_stack_word(w, r, p.after(0));
                }
            } else {
                assert(step(read.0, answer(w, read.1)) == to_stack_word(r, p.after(0)));
                lemma_run_stack_word(w, r, p.after(0));
            }
            assert(run(w, read) =~= stack_walk(w, pos) + rest);
        },
    }
}

proof fn lemma_run_stack(w: World, r: Report)
    ensures
        run(w, to_stack(r)) == stack_actions(r.arch, w) + run(w, to_guest(r)),
{
    let rest = run(w, to_guest(r));
    match r.arch.sp_field() {
        None => {
            assert(run(w, to_stack(r)) =~= stack_actions(r.arch, w) + rest);
        },
        Some(offset) => {
            let sp = (w.register)(offset);
            let read = to_stack(r);
            let header = at(r, Stage::StackHeader(sp), Act::Write(stack_text()));
            lemma_run_step(w, read);
            if sp != 0 {
                let first = Some(ScanPos::first(sp, STACK_CAP));
                lemma_run_step(w, header);
                assert(step(read.0, answer(w, read.1)) == header);
                assert(step(header.0, answer(w, header.1)) == to_stack_word(r, first));
                lemma_run_stack_word(w, r, first);
            } else {
                assert(step(read.0, answer(w, read.1)) == to_guest(r));
            }
            assert(run(w, read) =~= stack_actions(r.arch, w) + rest);
        },
    }
}

proof fn lemma_run_crumbs(w: World, r: Report)
    ensures
        run(w, to_crumbs(r)) == history_actions(w) + run(w, to_stack(r)),
{
    let walk = at(r, Stage::Frames, Act::Backtrace(FRAME_CAP));
    let header = at(r, Stage::FramesHeader(w.frames), Act::Write(backtrace_text()));
    let symbols = at(r, Stage::FrameSymbols, Act::SymbolizeFrames(w.frames));
    let rest = run(w, to_stack(r));
    lemma_run_step(w, to_crumbs(r));
    lemma_run_step(w, walk);
    assert(step(to_crumbs(r).0, answer(w, to_crumbs(r).1)) == walk);
    if w.frames > 0 {
        lemma_run_step(w, header);
        lemma_run_step(w, symbols);
        assert(step(walk.0, answer(w, walk.1)) == header);
        assert(step(header.0, answer(w, header.1)) == symbols);
        assert(step(symbols.0, answer(w, symbols.1)) == to_stack(r));
        assert(run(w, header) =~= seq![header.1, symbols.1] + rest);
    } else {
        assert(step(walk.0, answer(w, walk.1)) == to_stack(r));
    }
    assert(run(w, to_crumbs(r)) =~= history_actions(w) + rest);
}

/// The caller: the word at the top of the stack.
proof fn lemma_run_caller(w: World, r: Report, rsp: u64)
    ensures
        run(w, at(r, Stage::ReturnWord, Act::ReadWord(rsp))) == seq![
            Act::ReadWord(rsp),
            Act::Write(caller_text((w.word)(rsp))),
            Act::Symbolize((w.word)(rsp)),
        ] + run(w, to_crumbs(r)),
{
    let ret = (w.word)(rsp);
    let read = at(r, Stage::ReturnWord, Act::ReadWord(rsp));
    let line = at(r, Stage::CallerLine(ret), Act::Write(caller_text(ret)));
    let symbol = at(r, Stage::CallerSymbol, Act::Symbolize(ret));
    lemma_run_step(w, read);
    lemma_run_step(w, line);
    lemma_run_step(w, symbol);
    assert(step(read.0, answer(w, read.1)) == line);
    assert(step(line.0, answer(w, line.1)) == symbol);
    assert(step(symbol.0, answer(w, symbol.1)) == to_crumbs(r));
    assert(run(w, read) =~= seq![read.1, line.1, symbol.1] + run(w, to_crumbs(r)));
}

proof fn lemma_run_registers(w: World, r: Report)
    ensures
        run(w, to_registers(r)) == register_actions(r.arch, w) + run(w, to_crumbs(r)),
{
    let rest = run(w, to_crumbs(r));
    if r.arch == Arch::X86_64 {
        let rsp = (w.register)(RSP_OFFSET);
        let rcx = (w.register)(RCX_OFFSET);
        let rax = (w.register)(RAX_OFFSET);
        let first = to_registers(r);
        let second = at(r, Stage::Rcx { rsp }, Act::ReadRegister(RCX_OFFSET));
        let third = at(r, Stage::Rax { rsp, rcx }, Act::ReadRegister(RAX_OFFSET));
        let line = at(
            r,
            Stage::RegisterLine { rsp },
            Act::Write(registers_text(rcx, rax, rsp)),
        );
        let read = at(r, Stage::ReturnWord, Act::ReadWord(rsp));
        lemma_run_step(w, first);
        lemma_run_step(w, second);
        lemma_run_step(w, third);
        lemma_run_step(w, line);
        assert(step(first.0, answer(w, first.1)) == second);
        assert(step(second.0, answer(w, second.1)) == third);
        assert(step(third.0, answer(w, third.1)) == line);
        let after = if rsp != 0 {
            read
        } else {
            to_crumbs(r)
        };
        assert(step(line.0, answer(w, line.1)) == after);
        lemma_run_caller(w, r, rsp);
        assert(run(w, first) =~= seq![first.1, second.1, third.1, line.1] + run(w, after));
        assert(run(w, first) =~= register_actions(r.arch, w) + rest);
    } else {
        assert(run(w, to_registers(r)) =~= register_actions(r.arch, w) + rest);
    }
}

proof fn lemma_run_pc(w: World, r: Report)
    ensures
        run(w, to_pc(r)) == pc_actions(r.arch, w) + run(w, to_registers(r)),
{
    let rest = run(w, to_registers(r));
    match r.arch.pc_field() {
        None => {
            assert(run(w, to_pc(r)) =~= pc_actions(r.arch, w) + rest);
        },
        Some(offset) => {
            let pc = (w.register)(offset);
            let line = at(r, Stage::PcLine(pc), Act::Write(fault_pc_text(pc)));
            let symbol = at(r, Stage::PcSymbol, Act::Symbolize(pc));
            lemma_run_step(w, to_pc(r));
            if pc != 0 {
                lemma_run_step(w, line);
                lemma_run_step(w, symbol);
                assert(step(to_pc(r).0, answer(w, to_pc(r).1)) == line);
                assert(step(line.0, answer(w, line.1)) == symbol);
                assert(step(symbol.0, answer(w, symbol.1)) == to_registers(r));
                assert(run(w, line) =~= seq![line.1, symbol.1] + rest);
            } else {
                assert(step(to_pc(r).0, answer(w, to_pc(r).1)) == to_registers(r));
            }
            assert(run(w, to_pc(r)) =~= pc_actions(r.arch, w) + rest);
        },
    }
}

proof fn lemma_run_opening(w: World, signal: Signal, arch: Arch)
    ensures
        run(w, opened(false, signal, arch)) == opening_actions(signal, w) + run(
            w,
            to_pc(opened(false, signal, arch).0),
        ),
{
    let r = opened(false, signal, arch).0;
    let written = at(r, Stage::Banner, Act::Write(banner_text(signal, w.info)));
    let named = at(r, Stage::ThreadName, Act::ReadThreadName);
    let thread = at(r, Stage::ThreadLine, Act::Write(thread_text(w.name)));
    lemma_run_step(w, opened(false, signal, arch));
    lemma_run_step(w, written);
    lemma_run_step(w, named);
    lemma_run_step(w, thread);
    assert(signal.is_fault() || banner_text(signal, None) == banner_text(signal, w.info));
    assert(step(written.0, answer(w, written.1)) == named);
    assert(step(named.0, answer(w, named.1)) == thread);
    assert(step(thread.0, answer(w, thread.1)) == to_pc(r));
    let rest = run(w, to_pc(r));
    assert(run(w, written) =~= seq![written.1, named.1, thread.1] + rest);
    if signal.is_fault() {
        assert(step(r, answer(w, Act::ReadFaultInfo)) == written);
        assert(run(w, opened(false, signal, arch)) =~= seq![Act::ReadFaultInfo] + run(w, written));
    } else {
        assert(opened(false, signal, arch) == written);
    }
    assert(run(w, opened(false, signal, arch)) =~= opening_actions(signal, w) + rest);
}

/// Sections that follow one another make one sequence.
proof fn lemma_join(
    a: Seq<Act>,
    b: Seq<Act>,
    c: Seq<Act>,
    d: Seq<Act>,
    e: Seq<Act>,
    f: Seq<Act>,
    g: Seq<Act>,
)
    ensures
        a + (b + (c + (d + (e + (f + g))))) == a + b + c + d + e + f + g,
{
    assert(a + (b + (c + (d + (e + (f + g))))) =~= a + b + c + d + e + f + g);
}

/// A report on a signal consists of its sections, in their order, and ends the
/// process.
pub proof fn law_report_is_its_sections(signal: Signal, arch: Arch, w: World)
    ensures
        run(w, opened(false, signal, arch)) == report_actions(signal, arch, w),
{
    let r = opened(false, signal, arch).0;
    lemma_run_opening(w, signal, arch);
    lemma_run_pc(w, r);
    lemma_run_registers(w, r);
    lemma_run_crumbs(w, r);
    lemma_run_stack(w, r);
    lemma_run_guest(w, r);
    lemma_join(
        opening_actions(signal, w),
        pc_actions(arch, w),
        register_actions(arch, w),
        history_actions(w),
        stack_actions(arch, w),
        guest_actions(arch, w),
        seq![Act::Exit(CRASH_STATUS)],
    );
}

/// Where carrying out a report faults, the second report ends the process at
/// once: a handler never loops.
pub proof fn law_reentry_exits_at_once(signal: Signal, arch: Arch, w: World)
    ensures
        run(w, opened(true, signal, arch)) == seq![Act::Exit(CRASH_STATUS)],
{
}

proof fn lemma_run_exits_once(w: World, now: (Report, Act))
    requires
        now.0.stage is Finished <==> now.1 is Exit,
        now.1 is Exit ==> now.1 == Act::Exit(CRASH_STATUS),
    ensures
        run(w, now).len() > 0,
        run(w, now).last() == Act::Exit(CRASH_STATUS),
        forall|i: int| 0 <= i < run(w, now).len() - 1 ==> #[trigger] run(w, now)[i] !is Exit,
    decreases rank(now.0.stage),
{
    if now.0.stage !is Finished {
        let event = answer(w, now.1);
        let then = step(now.0, event);
        law_every_event_brings_the_end_closer(now.0, event);
        law_finished_means_exit(now.0, event);
        lemma_run_exits_once(w, then);
        lemma_run_step(w, now);
        assert forall|i: int| 0 <= i < run(w, now).len() - 1 implies #[trigger] run(
            w,
            now,
        )[i] !is Exit by {
            if i > 0 {
                assert(run(w, now)[i] == run(w, then)[i - 1]);
            }
        }
    }
}

proof fn lemma_run_is_bounded(w: World, now: (Report, Act))
    ensures
        run(w, now).len() <= rank(now.0.stage) + 1,
    decreases rank(now.0.stage),
{
    if now.0.stage !is Finished {
        law_every_event_brings_the_end_closer(now.0, answer(w, now.1));
        lemma_run_is_bounded(w, step(now.0, answer(w, now.1)));
        lemma_run_step(w, now);
    }
}

/// A report on any signal, anywhere, comes to an end after a bounded number of
/// actions. Its last action, and no other, ends the process.
pub proof fn law_report_ends_the_process(reentered: bool, signal: Signal, arch: Arch, w: World)
    ensures
        ({
            let actions = run(w, opened(reentered, signal, arch));
            &&& 0 < actions.len() <= 20508
            &&& actions.last() == Act::Exit(CRASH_STATUS)
            &&& forall|i: int| 0 <= i < actions.len() - 1 ==> #[trigger] actions[i] !is Exit
        }),
{
    lemma_run_exits_once(w, opened(reentered, signal, arch));
    lemma_run_is_bounded(w, opened(reentered, signal, arch));
}

/// What a report prints of the past: breadcrumbs and the native backtrace.
pub open spec fn is_history(action: Act) -> bool {
    action is DumpCrumbs || action is Backtrace || action is SymbolizeFrames
}

/// The word that the register section reads off the stack: the one at its top,
/// on `x86_64`, where the stack pointer is not null.
pub open spec fn stack_top(arch: Arch, w: World) -> Option<u64> {
    if arch == Arch::X86_64 && (w.register)(RSP_OFFSET) != 0 {
        Some((w.register)(RSP_OFFSET))
    } else {
        None
    }
}

/// Reading the stack beyond the word at `top`, or following what it holds.
pub open spec fn is_scan(action: Act, top: Option<u64>) -> bool {
    ||| action is Resolve
    ||| action is ReadHalfWord
    ||| action matches Action::ReadWord(addr) && top != Some(addr)
}

proof fn lemma_stack_walk_has_no_history(w: World, pos: Option<ScanPos>)
    ensures
        forall|i: int|
            0 <= i < stack_walk(w, pos).len() ==> !is_history(#[trigger] stack_walk(w, pos)[i]),
    decreases
            (match pos {
                Some(p) => p.left() + 1,
                None => 0,
            }),
{
    if let Some(p) = pos {
        let v = (w.word)(p.here());
        let next = p.after(
            if is_our_frame(w, v) {
                1
            } else {
                0
            },
        );
        lemma_stack_walk_has_no_history(w, next);
        let rest = stack_walk(w, next);
        let n = stack_walk(w, pos).len() - rest.len();
        assert forall|i: int| 0 <= i < stack_walk(w, pos).len() implies !is_history(
            #[trigger] stack_walk(w, pos)[i],
        ) by {
            if i >= n {
                assert(stack_walk(w, pos)[i] == rest[i - n]);
            }
        }
    }
}

proof fn lemma_guest_walk_has_no_history(w: World, pos: Option<ScanPos>)
    ensures
        forall|i: int|
            0 <= i < guest_walk(w, pos).len() ==> !is_history(#[trigger] guest_walk(w, pos)[i]),
    decreases
            (match pos {
                Some(p) => p.left() + 1,
                None => 0,
            }),
{
    if let Some(p) = pos {
        let v = (w.half)(p.here());
        let next = p.after(
            if is_guest_code(v) {
                1
            } else {
                0
            },
        );
        lemma_guest_walk_has_no_history(w, next);
        let rest = guest_walk(w, next);
        let n = guest_walk(w, pos).len() - rest.len();
        assert forall|i: int| 0 <= i < guest_walk(w, pos).len() implies !is_history(
            #[trigger] guest_walk(w, pos)[i],
        ) by {
            if i >= n {
                assert(guest_walk(w, pos)[i] == rest[i - n]);
            }
        }
    }
}

proof fn lemma_stack_section_has_no_history(arch: Arch, w: World)
    ensures
        forall|i: int|
            0 <= i < stack_actions(arch, w).len() ==> !is_history(
                #[trigger] stack_actions(arch, w)[i],
            ),
{
    if let Some(offset) = arch.sp_field() {
        let walk = stack_walk(w, Some(ScanPos::first((w.register)(offset), STACK_CAP)));
        lemma_stack_walk_has_no_history(
            w,
            Some(ScanPos::first((w.register)(offset), STACK_CAP)),
        );
        assert forall|i: int| 0 <= i < stack_actions(arch, w).len() implies !is_history(
            #[trigger] stack_actions(arch, w)[i],
        ) by {
            if i >= 2 {
                assert(stack_actions(arch, w)[i] == walk[i - 2]);
            }
        }
    }
}

proof fn lemma_guest_section_has_no_history(arch: Arch, w: World)
    ensures
        forall|i: int|
            0 <= i < guest_actions(arch, w).len() ==> !is_history(
                #[trigger] guest_actions(arch, w)[i],
            ),
{
    let walk = guest_walk(w, Some(ScanPos::first((w.register)(RSP_OFFSET), GUEST_CAP)));
    lemma_guest_walk_has_no_history(
        w,
        Some(ScanPos::first((w.register)(RSP_OFFSET), GUEST_CAP)),
    );
    assert forall|i: int| 0 <= i < guest_actions(arch, w).len() implies !is_history(
        #[trigger] guest_actions(arch, w)[i],
    ) by {
        if i >= 2 {
            assert(guest_actions(arch, w)[i] == walk[i - 2]);
        }
    }
}

/// No read that may fault anew comes before the breadcrumbs and the backtrace
/// are out. Until then, the word at the top of the stack is all that is read of
/// the stack on `x86_64`, and elsewhere no word of it is read.
pub proof fn law_scans_come_last(signal: Signal, arch: Arch, w: World, i: int, j: int)
    requires
        0 <= i < j < report_actions(signal, arch, w).len(),
        is_history(report_actions(signal, arch, w)[j]),
    ensures
        !is_scan(report_actions(signal, arch, w)[i], stack_top(arch, w)),
{
    let actions = report_actions(signal, arch, w);
    let opening = opening_actions(signal, w);
    let pc = pc_actions(arch, w);
    let registers = register_actions(arch, w);
    let history = history_actions(w);
    let early = opening + pc + registers + history;
    let stack = stack_actions(arch, w);
    let guest = guest_actions(arch, w);
    let late = stack + guest + seq![Act::Exit(CRASH_STATUS)];
    assert(actions =~= early + late);
    lemma_stack_section_has_no_history(arch, w);
    lemma_guest_section_has_no_history(arch, w);
    if j >= early.len() {
        let k = j - early.len();
        assert(actions[j] == late[k]);
        if k < stack.len() {
            assert(late[k] == stack[k]);
        } else if k < stack.len() + guest.len() {
            assert(late[k] == guest[k - stack.len()]);
        }
    }
    assert(actions[i] == early[i]);
}

/// The addresses whose symbols are printed one by one, in order.
pub open spec fn symbols(actions: Seq<Act>) -> Seq<u64>
    decreases actions.len(),
{
    if actions.len() == 0 {
        seq![]
    } else {
        symbols(actions.drop_last()) + match actions.last() {
            Action::Symbolize(addr) => seq![addr],
            _ => seq![],
        }
    }
}

/// The lines that are written, in order.
pub open spec fn lines(actions: Seq<Act>) -> Seq<Seq<u8>>
    decreases actions.len(),
{
    if actions.len() == 0 {
        seq![]
    } else {
        lines(actions.drop_last()) + match actions.last() {
            Action::Write(text) => seq![text],
            _ => seq![],
        }
    }
}

/// The words of our own stack, from `index` on, that point into our own images.
pub open spec fn our_frames(w: World, base: u64, index: nat) -> Seq<u64>
    decreases 4096 - index,
{
    if index >= 4096 {
        seq![]
    } else {
        let v = (w.word)(((base + 4 * index) % 0x1_0000_0000_0000_0000) as u64);
        (if v >= 0x1000 && (w.ours)(v) {
            seq![v]
        } else {
            seq![]
        }) + our_frames(w, base, index + 1)
    }
}

/// The words of the guest's stack, from `index` on, that lie in its code.
pub open spec fn guest_frames(w: World, base: u64, index: nat) -> Seq<u32>
    decreases 4096 - index,
{
    if index >= 4096 {
        seq![]
    } else {
        let v = (w.half)(((base + 4 * index) % 0x1_0000_0000_0000_0000) as u64);
        (if 0x7A00_0000 <= v < 0x7C00_0000 || 0x0040_0000 <= v < 0x0080_0000 {
            seq![v]
        } else {
            seq![]
        }) + guest_frames(w, base, index + 1)
    }
}

/// The first `n` items of a sequence, or all of them where there are fewer.
pub open spec fn at_most<A>(s: Seq<A>, n: int) -> Seq<A> {
    if s.len() <= n {
        s
    } else {
        s.take(n)
    }
}

pub proof fn lemma_symbols_add(a: Seq<Act>, b: Seq<Act>)
    ensures
        symbols(a + b) == symbols(a) + symbols(b),
    decreases b.len(),
{
    if b.len() == 0 {
        assert(a + b =~= a);
        assert(symbols(a) + symbols(b) =~= symbols(a));
    } else {
        lemma_symbols_add(a, b.drop_last());
        assert((a + b).drop_last() =~= a + b.drop_last());
        assert(symbols(a + b) =~= symbols(a) + symbols(b));
    }
}

pub proof fn lemma_lines_add(a: Seq<Act>, b: Seq<Act>)
    ensures
        lines(a + b) == lines(a) + lines(b),
    decreases b.len(),
{
    if b.len() == 0 {
        assert(a + b =~= a);
        assert(lines(a) + lines(b) =~= lines(a));
    } else {
        lemma_lines_add(a, b.drop_last());
        assert((a + b).drop_last() =~= a + b.drop_last());
        assert(lines(a + b) =~= lines(a) + lines(b));
    }
}

proof fn lemma_stack_walk_symbols(w: World, p: ScanPos)
    requires
        p.wf(),
    ensures
        symbols(stack_walk(w, Some(p))) == at_most(
            our_frames(w, p.base, p.index as nat),
            p.cap - p.printed,
        ),
    decreases p.left(),
{
    let v = (w.word)(p.here());
    let hit = is_our_frame(w, v);
    let more = if hit {
        1int
    } else {
        0
    };
    let head = seq![Act::ReadWord(p.here())] + (if is_address(v) {
        seq![Act::Resolve(v)]
    } else {
        seq![]
    }) + (if hit {
        seq![Act::Symbolize(v)]
    } else {
        seq![]
    });
    let next = p.after(more);
    assert(stack_walk(w, Some(p)) == head + stack_walk(w, next));
    lemma_symbols_add(head, stack_walk(w, next));
    let printed: Seq<u64> = if hit {
        seq![v]
    } else {
        seq![]
    };
    assert(symbols(head) =~= printed) by {
        reveal_with_fuel(symbols, 4);
        if hit {
            assert(head.drop_last().drop_last().drop_last() =~= seq![]);
        } else if is_address(v) {
            assert(head.drop_last().drop_last() =~= seq![]);
        } else {
            assert(head.drop_last() =~= seq![]);
        }
    }
    let frames = our_frames(w, p.base, p.index as nat);
    let later = our_frames(w, p.base, (p.index + 1) as nat);
    assert(frames == printed + later);
    match next {
        Some(q) => {
            lemma_stack_walk_symbols(w, q);
            assert(symbols(stack_walk(w, Some(p))) =~= at_most(frames, p.cap - p.printed));
        },
        None => {
            assert(symbols(stack_walk(w, None)) =~= seq![]);
            if p.index + 1 >= SCAN_WORDS {
                assert(later =~= seq![]);
            }
            assert(symbols(stack_walk(w, Some(p))) =~= at_most(frames, p.cap - p.printed));
        },
    }
}

/// The scan of our own stack prints the words that point into our own images,
/// in the order of the stack, and no more than 48 of them.
pub proof fn law_stack_scan_prints_our_frames(w: World, sp: u64)
    ensures
        symbols(stack_walk(w, Some(ScanPos::first(sp, STACK_CAP)))) == at_most(
            our_frames(w, sp, 0),
            48,
        ),
{
    lemma_stack_walk_symbols(w, ScanPos::first(sp, STACK_CAP));
}

proof fn lemma_guest_walk_lines(w: World, p: ScanPos)
    requires
        p.wf(),
    ensures
        lines(guest_walk(w, Some(p))) == at_most(
            guest_frames(w, p.base, p.index as nat),
            p.cap - p.printed,
        ).map_values(|v: u32| guest_word_text(v)),
    decreases p.left(),
{
    let v = (w.half)(p.here());
    let hit = is_guest_code(v);
    let more = if hit {
        1int
    } else {
        0
    };
    let head = seq![Act::ReadHalfWord(p.here())] + (if hit {
        seq![Act::Write(guest_word_text(v))]
    } else {
        seq![]
    });
    let next = p.after(more);
    assert(guest_walk(w, Some(p)) == head + guest_walk(w, next));
    lemma_lines_add(head, guest_walk(w, next));
    let printed: Seq<u32> = if hit {
        seq![v]
    } else {
        seq![]
    };
    let show = |v: u32| guest_word_text(v);
    assert(lines(head) =~= printed.map_values(show)) by {
        reveal_with_fuel(lines, 3);
        if hit {
            assert(head.drop_last().drop_last() =~= seq![]);
        } else {
            assert(head.drop_last() =~= seq![]);
        }
    }
    let frames = guest_frames(w, p.base, p.index as nat);
    let later = guest_frames(w, p.base, (p.index + 1) as nat);
    assert(frames == printed + later);
    match next {
        Some(q) => {
            lemma_guest_walk_lines(w, q);
        },
        None => {
            assert(lines(guest_walk(w, None)) =~= seq![]);
            if p.index + 1 >= SCAN_WORDS {
                assert(later =~= seq![]);
            }
        },
    }
    assert(lines(guest_walk(w, Some(p))) =~= at_most(frames, p.cap - p.printed).map_values(show));
}

/// The scan of the guest's stack prints the words that lie in the guest's code,
/// in the order of the stack, and no more than 64 of them.
pub proof fn law_guest_scan_prints_guest_frames(w: World, rsp: u64)
    ensures
        lines(guest_walk(w, Some(ScanPos::first(rsp, GUEST_CAP)))) == at_most(
            guest_frames(w, rsp, 0),
            64,
        ).map_values(|v: u32| guest_word_text(v)),
{
    lemma_guest_walk_lines(w, ScanPos::first(rsp, GUEST_CAP));
}

/// One line: no longer than a line's buffer, and ended by a newline.
pub open spec fn is_line(text: Seq<u8>) -> bool {
    0 < text.len() <= LINE_CAP && text.last() == '\n' as u8
}

proof fn lemma_reveal_texts()
    ensures
        ascii("\n") == seq!['\n' as u8],
        ascii("[mtld3d::unix] FATAL: ").len() == 22,
        ascii("SIGSEGV").len() == 7,
        ascii("SIGBUS").len() == 6,
        ascii("SIGABRT").len() == 7,
        ascii("SIG?").len() == 4,
        ascii(" fault=").len() == 7,
        ascii(" si_code=").len() == 9,
        ascii("[mtld3d::unix] thread=").len() == 22,
        ascii("[mtld3d::unix] fault_pc=").len() == 24,
        ascii("[mtld3d::unix] rcx(this)=").len() == 25,
        ascii(" rax(vtbl)=").len() == 11,
        ascii(" rsp=").len() == 5,
        ascii("[mtld3d::unix] caller(ret@rsp)=").len() == 31,
        ascii("  g=").len() == 4,
        is_line(backtrace_text()),
        is_line(stack_text()),
        is_line(guest_text()),
{
    reveal_strlit("\n");
    reveal_strlit("[mtld3d::unix] FATAL: ");
    reveal_strlit("SIGSEGV");
    reveal_strlit("SIGBUS");
    reveal_strlit("SIGABRT");
    reveal_strlit("SIG?");
    reveal_strlit(" fault=");
    reveal_strlit(" si_code=");
    reveal_strlit("[mtld3d::unix] thread=");
    reveal_strlit("[mtld3d::unix] fault_pc=");
    reveal_strlit("[mtld3d::unix] rcx(this)=");
    reveal_strlit(" rax(vtbl)=");
    reveal_strlit(" rsp=");
    reveal_strlit("[mtld3d::unix] caller(ret@rsp)=");
    reveal_strlit("  g=");
    reveal_strlit("[mtld3d::unix] native backtrace:\n");
    reveal_strlit("[mtld3d::unix] mtld3d.so return addrs on stack:\n");
    reveal_strlit("[mtld3d::unix] guest (PE) stack words:\n");
    assert(ascii("\n") =~= seq!['\n' as u8]);
}

/// Whatever a report is told, all that it writes is lines.
pub proof fn law_reports_consist_of_lines(r: Report, event: Ev)
    requires
        event matches Event::ThreadName(name) ==> name.len() == NAME_CAP,
    ensures
        step(r, event).1 matches Action::Write(text) ==> is_line(text),
        opened(false, r.signal, r.arch).1 matches Action::Write(text) ==> is_line(text),
{
    lemma_reveal_texts();
    match (r.stage, event) {
        (Stage::FaultInfo, Event::FaultInfo(info)) => {
            if info is Some {
                lemma_hex_word_len(info->0.addr);
                lemma_hex_word_len(code_bits(info->0.code));
            }
        },
        (Stage::ThreadName, Event::ThreadName(name)) => {
            lemma_c_len(name);
        },
        (Stage::Pc, Event::Register(pc)) => {
            lemma_hex_word_len(pc);
        },
        (Stage::Rax { rsp, rcx }, Event::Register(rax)) => {
            lemma_hex_word_len(rsp);
            lemma_hex_word_len(rcx);
            lemma_hex_word_len(rax);
        },
        (Stage::ReturnWord, Event::Word(ret)) => {
            lemma_hex_word_len(ret);
        },
        (Stage::GuestWord(_), Event::HalfWord(v)) => {
            lemma_hex_word_len(v as u64);
        },
        _ => {},
    }
}

} // verus!
