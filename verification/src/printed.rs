//! What a crash report prints, told from the crashed process alone.
//!
//! The laws here look at whole reports from the outside: given a process, its
//! registers, its stack and its images, they say which lines a reader finds,
//! which symbols are printed and which words of the stack are read.

use vstd::prelude::*;

use crate::context::Arch;
use crate::handler::{opened, CRASH_STATUS};
use crate::line::{ascii, reads_as};
use crate::scan::{is_guest_code, ScanPos, GUEST_CAP, STACK_CAP};
use crate::signal::Signal;
use crate::step::{Act, Action, World};
use crate::text::{
    banner_text, caller_text, fault_pc_text, guest_word_text, law_banner_reads_back,
    law_caller_reads_back, law_fault_pc_reads_back, law_guest_word_reads_back,
    law_registers_read_back, law_thread_line_holds_the_name, registers_text, thread_text,
};
use crate::trace::{
    at_most, guest_actions, guest_frames, guest_walk, history_actions, is_our_frame,
    law_guest_scan_prints_guest_frames, law_report_is_its_sections,
    law_stack_scan_prints_our_frames, lemma_lines_add, lemma_symbols_add, lines, opening_actions,
    our_frames, pc_actions, register_actions, report_actions, run, stack_actions, stack_walk,
    symbols,
};

verus! {

/// The program counter of the fault; 0 where the machine state is unknown.
pub open spec fn pc_of(arch: Arch, w: World) -> u64 {
    match arch {
        Arch::X86_64 => (w.register)(144),
        Arch::Aarch64 => (w.register)(272),
        Arch::Other => 0,
    }
}

/// The stack pointer of the fault; 0 where the machine state is unknown.
pub open spec fn sp_of(arch: Arch, w: World) -> u64 {
    match arch {
        Arch::X86_64 => (w.register)(72),
        Arch::Aarch64 => (w.register)(264),
        Arch::Other => 0,
    }
}

/// A report has a caller to name: the machine is `x86_64` and its stack pointer
/// is not null.
pub open spec fn has_caller(arch: Arch, w: World) -> bool {
    arch == Arch::X86_64 && (w.register)(72) != 0
}

/// The item, if the condition holds.
pub open spec fn only_if<A>(condition: bool, item: A) -> Seq<A> {
    if condition {
        seq![item]
    } else {
        seq![]
    }
}

/// The actions that print what happened before the fault, in order.
pub open spec fn history(actions: Seq<Act>) -> Seq<Act>
    decreases actions.len(),
{
    if actions.len() == 0 {
        seq![]
    } else {
        let last = actions.last();
        history(actions.drop_last()) + only_if(
            last is DumpCrumbs || last is Backtrace || last is SymbolizeFrames,
            last,
        )
    }
}

proof fn lemma_history_add(a: Seq<Act>, b: Seq<Act>)
    ensures
        history(a + b) == history(a) + history(b),
    decreases b.len(),
{
    if b.len() == 0 {
        assert(a + b =~= a);
        assert(history(a) + history(b) =~= history(a));
    } else {
        lemma_history_add(a, b.drop_last());
        assert((a + b).drop_last() =~= a + b.drop_last());
        assert(history(a + b) =~= history(a) + history(b));
    }
}

/// What one action adds to the symbols, the lines and the history.
proof fn lemma_one(action: Act)
    ensures
        symbols(seq![action]) == (match action {
            Action::Symbolize(addr) => seq![addr],
            _ => seq![],
        }),
        lines(seq![action]) == (match action {
            Action::Write(text) => seq![text],
            _ => seq![],
        }),
        history(seq![action]) == only_if(
            action is DumpCrumbs || action is Backtrace || action is SymbolizeFrames,
            action,
        ),
        symbols(Seq::<Act>::empty()) == Seq::<u64>::empty(),
        lines(Seq::<Act>::empty()) == Seq::<Seq<u8>>::empty(),
        history(Seq::<Act>::empty()) == Seq::<Act>::empty(),
{
    reveal_with_fuel(symbols, 2);
    reveal_with_fuel(lines, 2);
    reveal_with_fuel(history, 2);
    assert(seq![action].drop_last() =~= Seq::<Act>::empty());
    assert(symbols(seq![action]) =~= (match action {
        Action::Symbolize(addr) => seq![addr],
        _ => seq![],
    }));
    assert(lines(seq![action]) =~= (match action {
        Action::Write(text) => seq![text],
        _ => seq![],
    }));
    assert(history(seq![action]) =~= only_if(
        action is DumpCrumbs || action is Backtrace || action is SymbolizeFrames,
        action,
    ));
}

/// What actions that follow one another add.
proof fn lemma_add(a: Seq<Act>, b: Seq<Act>)
    ensures
        symbols(a + b) == symbols(a) + symbols(b),
        lines(a + b) == lines(a) + lines(b),
        history(a + b) == history(a) + history(b),
{
    lemma_symbols_add(a, b);
    lemma_lines_add(a, b);
    lemma_history_add(a, b);
}

/// What one action in front of others adds.
proof fn lemma_cons(action: Act, rest: Seq<Act>)
    ensures
        symbols(seq![action] + rest) == (match action {
            Action::Symbolize(addr) => seq![addr],
            _ => seq![],
        }) + symbols(rest),
        lines(seq![action] + rest) == (match action {
            Action::Write(text) => seq![text],
            _ => seq![],
        }) + lines(rest),
        history(seq![action] + rest) == only_if(
            action is DumpCrumbs || action is Backtrace || action is SymbolizeFrames,
            action,
        ) + history(rest),
{
    lemma_one(action);
    lemma_add(seq![action], rest);
}

/// A scan of our own stack writes no lines and prints nothing of the past.
proof fn lemma_stack_walk_is_quiet(w: World, pos: Option<ScanPos>)
    ensures
        lines(stack_walk(w, pos)) == Seq::<Seq<u8>>::empty(),
        history(stack_walk(w, pos)) == Seq::<Act>::empty(),
    decreases
            (match pos {
                Some(p) => p.left() + 1,
                None => 0,
            }),
{
    match pos {
        None => {
            lemma_one(Act::ReadFaultInfo);
        },
        Some(p) => {
            let v = (w.word)(p.here());
            let hit = is_our_frame(w, v);
            let rest = stack_walk(
                w,
                p.after(
                    if hit {
                        1
                    } else {
                        0
                    },
                ),
            );
            lemma_stack_walk_is_quiet(
                w,
                p.after(
                    if hit {
                        1
                    } else {
                        0
                    },
                ),
            );
            let printed = if hit {
                seq![Act::Symbolize(v)] + rest
            } else {
                rest
            };
            lemma_cons(Act::Symbolize(v), rest);
            let resolved = if v >= 0x1000 {
                seq![Act::Resolve(v)] + printed
            } else {
                printed
            };
            lemma_cons(Act::Resolve(v), printed);
            lemma_cons(Act::ReadWord(p.here()), resolved);
            assert(stack_walk(w, pos) =~= seq![Act::ReadWord(p.here())] + resolved);
            assert(lines(stack_walk(w, pos)) =~= Seq::<Seq<u8>>::empty());
            assert(history(stack_walk(w, pos)) =~= Seq::<Act>::empty());
        },
    }
}

/// A scan of the guest's stack prints no symbols and nothing of the past.
proof fn lemma_guest_walk_is_quiet(w: World, pos: Option<ScanPos>)
    ensures
        symbols(guest_walk(w, pos)) == Seq::<u64>::empty(),
        history(guest_walk(w, pos)) == Seq::<Act>::empty(),
    decreases
            (match pos {
                Some(p) => p.left() + 1,
                None => 0,
            }),
{
    match pos {
        None => {
            lemma_one(Act::ReadFaultInfo);
        },
        Some(p) => {
            let v = (w.half)(p.here());
            let next = p.after(
                if is_guest_code(v) {
                    1
                } else {
                    0
                },
            );
            let rest = guest_walk(w, next);
            lemma_guest_walk_is_quiet(w, next);
            let shown = if is_guest_code(v) {
                seq![Act::Write(guest_word_text(v))] + rest
            } else {
                rest
            };
            lemma_cons(Act::Write(guest_word_text(v)), rest);
            lemma_cons(Act::ReadHalfWord(p.here()), shown);
            assert(guest_walk(w, pos) =~= seq![Act::ReadHalfWord(p.here())] + shown);
            assert(symbols(guest_walk(w, pos)) =~= Seq::<u64>::empty());
            assert(history(guest_walk(w, pos)) =~= Seq::<Act>::empty());
        },
    }
}

proof fn lemma_opening(signal: Signal, w: World)
    ensures
        symbols(opening_actions(signal, w)) == Seq::<u64>::empty(),
        lines(opening_actions(signal, w)) == seq![
            banner_text(signal, w.info),
            thread_text(w.name),
        ],
        history(opening_actions(signal, w)) == Seq::<Act>::empty(),
{
    let b = Act::Write(banner_text(signal, w.info));
    let t = Act::Write(thread_text(w.name));
    let none = Seq::<Act>::empty();
    lemma_one(t);
    lemma_cons(t, none);
    lemma_cons(Act::ReadThreadName, seq![t] + none);
    let tail = seq![Act::ReadThreadName] + (seq![t] + none);
    lemma_cons(b, tail);
    lemma_cons(Act::ReadFaultInfo, seq![b] + tail);
    if signal.is_fault() {
        assert(opening_actions(signal, w) =~= seq![Act::ReadFaultInfo] + (seq![b] + tail));
    } else {
        assert(opening_actions(signal, w) =~= seq![b] + tail);
    }
    assert(symbols(opening_actions(signal, w)) =~= Seq::<u64>::empty());
    assert(lines(opening_actions(signal, w)) =~= seq![
        banner_text(signal, w.info),
        thread_text(w.name),
    ]);
    assert(history(opening_actions(signal, w)) =~= Seq::<Act>::empty());
}

proof fn lemma_pc(arch: Arch, w: World)
    ensures
        symbols(pc_actions(arch, w)) == only_if(pc_of(arch, w) != 0, pc_of(arch, w)),
        lines(pc_actions(arch, w)) == only_if(
            pc_of(arch, w) != 0,
            fault_pc_text(pc_of(arch, w)),
        ),
        history(pc_actions(arch, w)) == Seq::<Act>::empty(),
{
    let pc = pc_of(arch, w);
    let none = Seq::<Act>::empty();
    lemma_one(Act::Symbolize(pc));
    if let Some(offset) = arch.pc_field() {
        let line = Act::Write(fault_pc_text(pc));
        let two = if pc != 0 {
            seq![line] + seq![Act::Symbolize(pc)]
        } else {
            none
        };
        lemma_cons(line, seq![Act::Symbolize(pc)]);
        lemma_cons(Act::ReadRegister(offset), two);
        assert(pc_actions(arch, w) =~= seq![Act::ReadRegister(offset)] + two);
    }
    assert(symbols(pc_actions(arch, w)) =~= only_if(pc != 0, pc));
    assert(lines(pc_actions(arch, w)) =~= only_if(pc != 0, fault_pc_text(pc)));
    assert(history(pc_actions(arch, w)) =~= Seq::<Act>::empty());
}

proof fn lemma_registers(arch: Arch, w: World)
    ensures
        symbols(register_actions(arch, w)) == only_if(
            has_caller(arch, w),
            (w.word)((w.register)(72)),
        ),
        lines(register_actions(arch, w)) == only_if(
            arch == Arch::X86_64,
            registers_text((w.register)(32), (w.register)(16), (w.register)(72)),
        ) + only_if(has_caller(arch, w), caller_text((w.word)((w.register)(72)))),
        history(register_actions(arch, w)) == Seq::<Act>::empty(),
{
    let rsp = (w.register)(72);
    let ret = (w.word)(rsp);
    let none = Seq::<Act>::empty();
    lemma_one(Act::Symbolize(ret));
    if arch == Arch::X86_64 {
        let regs = Act::Write(registers_text((w.register)(32), (w.register)(16), rsp));
        let line = Act::Write(caller_text(ret));
        let called = if rsp != 0 {
            seq![Act::ReadWord(rsp)] + (seq![line] + seq![Act::Symbolize(ret)])
        } else {
            none
        };
        lemma_cons(line, seq![Act::Symbolize(ret)]);
        lemma_cons(Act::ReadWord(rsp), seq![line] + seq![Act::Symbolize(ret)]);
        lemma_cons(regs, called);
        lemma_cons(Act::ReadRegister(16), seq![regs] + called);
        lemma_cons(Act::ReadRegister(32), seq![Act::ReadRegister(16)] + (seq![regs] + called));
        lemma_cons(
            Act::ReadRegister(72),
            seq![Act::ReadRegister(32)] + (seq![Act::ReadRegister(16)] + (seq![regs] + called)),
        );
        assert(register_actions(arch, w) =~= seq![Act::ReadRegister(72)] + (seq![
            Act::ReadRegister(32),
        ] + (seq![Act::ReadRegister(16)] + (seq![regs] + called))));
    }
    assert(symbols(register_actions(arch, w)) =~= only_if(has_caller(arch, w), ret));
    assert(lines(register_actions(arch, w)) =~= only_if(
        arch == Arch::X86_64,
        registers_text((w.register)(32), (w.register)(16), rsp),
    ) + only_if(has_caller(arch, w), caller_text(ret)));
    assert(history(register_actions(arch, w)) =~= Seq::<Act>::empty());
}

proof fn lemma_history(w: World)
    ensures
        symbols(history_actions(w)) == Seq::<u64>::empty(),
        lines(history_actions(w)) == only_if(
            w.frames > 0,
            ascii("[mtld3d::unix] native backtrace:\n"),
        ),
        history(history_actions(w)) == seq![Act::DumpCrumbs(32), Act::Backtrace(64)] + only_if(
            w.frames > 0,
            Act::SymbolizeFrames(w.frames),
        ),
{
    let head = Act::Write(ascii("[mtld3d::unix] native backtrace:\n"));
    let all = Act::SymbolizeFrames(w.frames);
    let none = Seq::<Act>::empty();
    lemma_one(all);
    lemma_cons(head, seq![all]);
    let walked = if w.frames > 0 {
        seq![head] + seq![all]
    } else {
        none
    };
    lemma_cons(Act::Backtrace(64), walked);
    lemma_cons(Act::DumpCrumbs(32), seq![Act::Backtrace(64)] + walked);
    assert(history_actions(w) =~= seq![Act::DumpCrumbs(32)] + (seq![Act::Backtrace(64)] + walked));
    assert(symbols(history_actions(w)) =~= Seq::<u64>::empty());
    assert(lines(history_actions(w)) =~= only_if(
        w.frames > 0,
        ascii("[mtld3d::unix] native backtrace:\n"),
    ));
    assert(history(history_actions(w)) =~= seq![Act::DumpCrumbs(32), Act::Backtrace(64)] + only_if(
        w.frames > 0,
        all,
    ));
}

proof fn lemma_stack(arch: Arch, w: World)
    ensures
        symbols(stack_actions(arch, w)) == (if sp_of(arch, w) != 0 {
            at_most(our_frames(w, sp_of(arch, w), 0), 48)
        } else {
            seq![]
        }),
        lines(stack_actions(arch, w)) == only_if(
            sp_of(arch, w) != 0,
            ascii("[mtld3d::unix] mtld3d.so return addrs on stack:\n"),
        ),
        history(stack_actions(arch, w)) == Seq::<Act>::empty(),
{
    let sp = sp_of(arch, w);
    let head = Act::Write(ascii("[mtld3d::unix] mtld3d.so return addrs on stack:\n"));
    let none = Seq::<Act>::empty();
    lemma_one(head);
    if let Some(offset) = arch.sp_field() {
        let walk = stack_walk(w, Some(ScanPos::first(sp, STACK_CAP)));
        lemma_stack_walk_is_quiet(w, Some(ScanPos::first(sp, STACK_CAP)));
        law_stack_scan_prints_our_frames(w, sp);
        let scanned = if sp != 0 {
            seq![head] + walk
        } else {
            none
        };
        lemma_cons(head, walk);
        lemma_cons(Act::ReadRegister(offset), scanned);
        assert(stack_actions(arch, w) =~= seq![Act::ReadRegister(offset)] + scanned);
    }
    assert(symbols(stack_actions(arch, w)) =~= (if sp != 0 {
        at_most(our_frames(w, sp, 0), 48)
    } else {
        seq![]
    }));
    assert(lines(stack_actions(arch, w)) =~= only_if(
        sp != 0,
        ascii("[mtld3d::unix] mtld3d.so return addrs on stack:\n"),
    ));
    assert(history(stack_actions(arch, w)) =~= Seq::<Act>::empty());
}

/// The lines of the guest's stack: a header, and one line for each of its words
/// that lie in the guest's code, up to 64 of them.
pub open spec fn guest_lines(w: World, rsp: u64) -> Seq<Seq<u8>> {
    seq![ascii("[mtld3d::unix] guest (PE) stack words:\n")] + at_most(
        guest_frames(w, rsp, 0),
        64,
    ).map_values(|v: u32| guest_word_text(v))
}

proof fn lemma_guest(arch: Arch, w: World)
    ensures
        symbols(guest_actions(arch, w)) == Seq::<u64>::empty(),
        lines(guest_actions(arch, w)) == (if has_caller(arch, w) {
            guest_lines(w, (w.register)(72))
        } else {
            seq![]
        }),
        history(guest_actions(arch, w)) == Seq::<Act>::empty(),
{
    let rsp = (w.register)(72);
    let head = Act::Write(ascii("[mtld3d::unix] guest (PE) stack words:\n"));
    let none = Seq::<Act>::empty();
    lemma_one(head);
    if arch == Arch::X86_64 {
        let walk = guest_walk(w, Some(ScanPos::first(rsp, GUEST_CAP)));
        lemma_guest_walk_is_quiet(w, Some(ScanPos::first(rsp, GUEST_CAP)));
        law_guest_scan_prints_guest_frames(w, rsp);
        let scanned = if rsp != 0 {
            seq![head] + walk
        } else {
            none
        };
        lemma_cons(head, walk);
        lemma_cons(Act::ReadRegister(72), scanned);
        assert(guest_actions(arch, w) =~= seq![Act::ReadRegister(72)] + scanned);
    }
    assert(symbols(guest_actions(arch, w)) =~= Seq::<u64>::empty());
    assert(lines(guest_actions(arch, w)) =~= (if has_caller(arch, w) {
        guest_lines(w, rsp)
    } else {
        seq![]
    }));
    assert(history(guest_actions(arch, w)) =~= Seq::<Act>::empty());
}

/// Splits a report into its sections.
proof fn lemma_sections(signal: Signal, arch: Arch, w: World)
    ensures
        ({
            let actions = run(w, opened(false, signal, arch));
            let a = opening_actions(signal, w);
            let b = pc_actions(arch, w);
            let c = register_actions(arch, w);
            let d = history_actions(w);
            let e = stack_actions(arch, w);
            let f = guest_actions(arch, w);
            &&& symbols(actions) == symbols(a) + symbols(b) + symbols(c) + symbols(d) + symbols(e)
                + symbols(f)
            &&& lines(actions) == lines(a) + lines(b) + lines(c) + lines(d) + lines(e) + lines(f)
            &&& history(actions) == history(a) + history(b) + history(c) + history(d) + history(e)
                + history(f)
        }),
{
    law_report_is_its_sections(signal, arch, w);
    let a = opening_actions(signal, w);
    let b = pc_actions(arch, w);
    let c = register_actions(arch, w);
    let d = history_actions(w);
    let e = stack_actions(arch, w);
    let f = guest_actions(arch, w);
    let g = seq![Act::Exit(CRASH_STATUS)];
    lemma_add(a, b);
    lemma_add(a + b, c);
    lemma_add(a + b + c, d);
    lemma_add(a + b + c + d, e);
    lemma_add(a + b + c + d + e, f);
    lemma_add(a + b + c + d + e + f, g);
    lemma_one(Act::Exit(CRASH_STATUS));
    let all = a + b + c + d + e + f;
    assert(symbols(all) + symbols(g) =~= symbols(all));
    assert(lines(all) + lines(g) =~= lines(all));
    assert(history(all) + history(g) =~= history(all));
}

/// The symbols that a report prints one by one: that of the program counter,
/// that of the caller, and those of our own frames on the stack.
pub proof fn law_printed_symbols(signal: Signal, arch: Arch, w: World)
    ensures
        symbols(run(w, opened(false, signal, arch))) == only_if(
            pc_of(arch, w) != 0,
            pc_of(arch, w),
        ) + only_if(has_caller(arch, w), (w.word)((w.register)(72))) + (if sp_of(arch, w) != 0 {
            at_most(our_frames(w, sp_of(arch, w), 0), 48)
        } else {
            seq![]
        }),
{
    lemma_sections(signal, arch, w);
    lemma_opening(signal, w);
    lemma_pc(arch, w);
    lemma_registers(arch, w);
    lemma_history(w);
    lemma_stack(arch, w);
    lemma_guest(arch, w);
    assert(symbols(run(w, opened(false, signal, arch))) =~= only_if(
        pc_of(arch, w) != 0,
        pc_of(arch, w),
    ) + only_if(has_caller(arch, w), (w.word)((w.register)(72))) + (if sp_of(arch, w) != 0 {
        at_most(our_frames(w, sp_of(arch, w), 0), 48)
    } else {
        seq![]
    }));
}

/// The lines that a report writes, in order.
pub proof fn law_printed_lines(signal: Signal, arch: Arch, w: World)
    ensures
        lines(run(w, opened(false, signal, arch))) == seq![
            banner_text(signal, w.info),
            thread_text(w.name),
        ] + only_if(pc_of(arch, w) != 0, fault_pc_text(pc_of(arch, w))) + only_if(
            arch == Arch::X86_64,
            registers_text((w.register)(32), (w.register)(16), (w.register)(72)),
        ) + only_if(has_caller(arch, w), caller_text((w.word)((w.register)(72)))) + only_if(
            w.frames > 0,
            ascii("[mtld3d::unix] native backtrace:\n"),
        ) + only_if(
            sp_of(arch, w) != 0,
            ascii("[mtld3d::unix] mtld3d.so return addrs on stack:\n"),
        ) + (if has_caller(arch, w) {
            guest_lines(w, (w.register)(72))
        } else {
            seq![]
        }),
{
    lemma_sections(signal, arch, w);
    lemma_opening(signal, w);
    lemma_pc(arch, w);
    lemma_registers(arch, w);
    lemma_history(w);
    lemma_stack(arch, w);
    lemma_guest(arch, w);
    let a = seq![banner_text(signal, w.info), thread_text(w.name)];
    let b = only_if(pc_of(arch, w) != 0, fault_pc_text(pc_of(arch, w)));
    let c = only_if(
        arch == Arch::X86_64,
        registers_text((w.register)(32), (w.register)(16), (w.register)(72)),
    );
    let d = only_if(has_caller(arch, w), caller_text((w.word)((w.register)(72))));
    assert(a + b + (c + d) =~= a + b + c + d);
}

/// What a report prints of the past: 32 breadcrumbs, and all of the frames that
/// a walk of at most 64 frames found.
pub proof fn law_printed_history(signal: Signal, arch: Arch, w: World)
    ensures
        history(run(w, opened(false, signal, arch))) == seq![
            Act::DumpCrumbs(32),
            Act::Backtrace(64),
        ] + only_if(w.frames > 0, Act::SymbolizeFrames(w.frames)),
{
    lemma_sections(signal, arch, w);
    lemma_opening(signal, w);
    lemma_pc(arch, w);
    lemma_registers(arch, w);
    lemma_history(w);
    lemma_stack(arch, w);
    lemma_guest(arch, w);
    assert(history(run(w, opened(false, signal, arch))) =~= seq![
        Act::DumpCrumbs(32),
        Act::Backtrace(64),
    ] + only_if(w.frames > 0, Act::SymbolizeFrames(w.frames)));
}

/// The address of the `i`-th word of a stack.
pub open spec fn word_at(base: u64, i: int) -> u64 {
    ((base + 4 * i) % 0x1_0000_0000_0000_0000) as u64
}

/// Our own frames hold every word that is one, and nothing else.
proof fn lemma_our_frames(w: World, base: u64, index: nat)
    ensures
        forall|i: int|
            index <= i < 4096 && (w.word)(#[trigger] word_at(base, i)) >= 0x1000 && (w.ours)(
                (w.word)(word_at(base, i)),
            ) ==> our_frames(w, base, index).contains((w.word)(word_at(base, i))),
        forall|k: int|
            0 <= k < our_frames(w, base, index).len() ==> exists|i: int|
                index <= i < 4096 && #[trigger] our_frames(w, base, index)[k] == (w.word)(
                    #[trigger] word_at(base, i),
                ) && our_frames(w, base, index)[k] >= 0x1000 && (w.ours)(
                    our_frames(w, base, index)[k],
                ),
    decreases 4096 - index,
{
    let frames = our_frames(w, base, index);
    if index < 4096 {
        lemma_our_frames(w, base, index + 1);
        let later = our_frames(w, base, index + 1);
        let v = (w.word)(word_at(base, index as int));
        let hit = v >= 0x1000 && (w.ours)(v);
        let n: int = if hit { 1 } else { 0 };
        assert(frames == only_if(hit, v) + later);
        assert forall|i: int|
            index <= i < 4096 && (w.word)(#[trigger] word_at(base, i)) >= 0x1000 && (w.ours)(
                (w.word)(word_at(base, i)),
            ) implies frames.contains((w.word)(word_at(base, i))) by {
            let x = (w.word)(word_at(base, i));
            if i == index {
                assert(frames[0] == x);
            } else {
                let k = choose|k: int| 0 <= k < later.len() && later[k] == x;
                assert(later.contains(x));
                assert(frames[k + n] == x);
            }
        }
        assert forall|k: int| 0 <= k < frames.len() implies exists|i: int|
            index <= i < 4096 && #[trigger] frames[k] == (w.word)(#[trigger] word_at(base, i))
                && frames[k] >= 0x1000 && (w.ours)(frames[k]) by {
            if k < n {
                assert(frames[k] == (w.word)(word_at(base, index as int)));
            } else {
                assert(frames[k] == later[k - n]);
                let i = choose|i: int|
                    index + 1 <= i < 4096 && later[k - n] == (w.word)(#[trigger] word_at(base, i));
                assert(frames[k] == (w.word)(word_at(base, i)));
            }
        }
    }
}

/// The guest's frames hold every word that is one, and nothing else.
proof fn lemma_guest_frames(w: World, base: u64, index: nat)
    ensures
        forall|i: int|
            index <= i < 4096 && (0x7A00_0000 <= (w.half)(#[trigger] word_at(base, i))
                < 0x7C00_0000 || 0x0040_0000 <= (w.half)(word_at(base, i)) < 0x0080_0000)
                ==> guest_frames(w, base, index).contains((w.half)(word_at(base, i))),
        forall|k: int|
            0 <= k < guest_frames(w, base, index).len() ==> {
                let v = #[trigger] guest_frames(w, base, index)[k];
                &&& 0x7A00_0000 <= v < 0x7C00_0000 || 0x0040_0000 <= v < 0x0080_0000
                &&& exists|i: int|
                    index <= i < 4096 && v == (w.half)(#[trigger] word_at(base, i))
            },
    decreases 4096 - index,
{
    let frames = guest_frames(w, base, index);
    if index < 4096 {
        lemma_guest_frames(w, base, index + 1);
        let later = guest_frames(w, base, index + 1);
        let v = (w.half)(word_at(base, index as int));
        let hit = 0x7A00_0000 <= v < 0x7C00_0000 || 0x0040_0000 <= v < 0x0080_0000;
        let n: int = if hit { 1 } else { 0 };
        assert(frames == only_if(hit, v) + later);
        assert forall|i: int|
            index <= i < 4096 && (0x7A00_0000 <= (w.half)(#[trigger] word_at(base, i))
                < 0x7C00_0000 || 0x0040_0000 <= (w.half)(word_at(base, i))
                < 0x0080_0000) implies frames.contains((w.half)(word_at(base, i))) by {
            let x = (w.half)(word_at(base, i));
            if i == index {
                assert(frames[0] == x);
            } else {
                assert(later.contains(x));
                let k = choose|k: int| 0 <= k < later.len() && later[k] == x;
                assert(frames[k + n] == x);
            }
        }
        assert forall|k: int| 0 <= k < frames.len() implies ({
            let x = #[trigger] frames[k];
            &&& 0x7A00_0000 <= x < 0x7C00_0000 || 0x0040_0000 <= x < 0x0080_0000
            &&& exists|i: int| index <= i < 4096 && x == (w.half)(#[trigger] word_at(base, i))
        }) by {
            if k < n {
                assert(frames[k] == (w.half)(word_at(base, index as int)));
            } else {
                assert(frames[k] == later[k - n]);
                let i = choose|i: int|
                    index + 1 <= i < 4096 && later[k - n] == (w.half)(#[trigger] word_at(base, i));
                assert(frames[k] == (w.half)(word_at(base, i)));
            }
        }
    }
}

proof fn lemma_at_most<A>(s: Seq<A>, n: int, x: A)
    requires
        n >= 0,
        s.contains(x),
    ensures
        at_most(s, n).len() <= n,
        at_most(s, n).contains(x) || at_most(s, n).len() == n,
{
}

/// How many symbols come before those of our own frames.
pub open spec fn symbols_before_frames(arch: Arch, w: World) -> int {
    (if pc_of(arch, w) != 0 {
        1int
    } else {
        0
    }) + (if has_caller(arch, w) {
        1int
    } else {
        0
    })
}

/// Every word among the first 4096 of our own stack that is at least 0x1000 and
/// points into our own images has its symbol printed, unless 48 others have: no
/// such word is passed over, whatever it is.
pub proof fn law_every_own_frame_is_printed(signal: Signal, arch: Arch, w: World, i: int, v: u64)
    requires
        sp_of(arch, w) != 0,
        0 <= i < 4096,
        sp_of(arch, w) + 4 * i <= u64::MAX,
        v == (w.word)((sp_of(arch, w) + 4 * i) as u64),
        v >= 0x1000,
        (w.ours)(v),
    ensures
        ({
            let frames = symbols(run(w, opened(false, signal, arch))).skip(
                symbols_before_frames(arch, w),
            );
            &&& frames.len() <= 48
            &&& frames.contains(v) || frames.len() == 48
        }),
{
    let sp = sp_of(arch, w);
    law_printed_symbols(signal, arch, w);
    lemma_our_frames(w, sp, 0);
    assert(word_at(sp, i) == (sp + 4 * i) as u64);
    lemma_at_most(our_frames(w, sp, 0), 48, v);
    assert(symbols(run(w, opened(false, signal, arch))).skip(symbols_before_frames(arch, w))
        =~= at_most(our_frames(w, sp, 0), 48));
}

/// A symbol in the scan of our own stack is that of a word among the first 4096
/// that is at least 0x1000 and points into our own images.
pub proof fn law_only_own_frames_are_printed(signal: Signal, arch: Arch, w: World, k: int)
    requires
        symbols_before_frames(arch, w) <= k < symbols(run(w, opened(false, signal, arch))).len(),
    ensures
        ({
            let v = symbols(run(w, opened(false, signal, arch)))[k];
            &&& k < symbols_before_frames(arch, w) + 48
            &&& sp_of(arch, w) != 0
            &&& v >= 0x1000
            &&& (w.ours)(v)
            &&& exists|i: int|
                0 <= i < 4096 && v == #[trigger] (w.word)(
                    ((sp_of(arch, w) + 4 * i) % 0x1_0000_0000_0000_0000) as u64,
                )
        }),
{
    let sp = sp_of(arch, w);
    law_printed_symbols(signal, arch, w);
    let n = symbols_before_frames(arch, w);
    let all = symbols(run(w, opened(false, signal, arch)));
    let frames = our_frames(w, sp, 0);
    lemma_our_frames(w, sp, 0);
    assert(all[k] == frames[k - n]);
    let i = choose|i: int|
        0 <= i < 4096 && frames[k - n] == (w.word)(#[trigger] word_at(sp, i)) && frames[k - n]
            >= 0x1000 && (w.ours)(frames[k - n]);
    assert(all[k] == (w.word)(((sp + 4 * i) % 0x1_0000_0000_0000_0000) as u64));
}

/// How many lines come before those of the guest's words, where there are any.
pub open spec fn lines_before_guest_words(arch: Arch, w: World) -> int {
    6 + (if pc_of(arch, w) != 0 {
        1int
    } else {
        0
    }) + (if w.frames > 0 {
        1int
    } else {
        0
    })
}

proof fn lemma_guest_lines_at(signal: Signal, arch: Arch, w: World)
    requires
        has_caller(arch, w),
    ensures
        lines(run(w, opened(false, signal, arch))).len() >= lines_before_guest_words(arch, w),
        lines(run(w, opened(false, signal, arch))).skip(lines_before_guest_words(arch, w))
            == at_most(guest_frames(w, (w.register)(72), 0), 64).map_values(
            |v: u32| guest_word_text(v),
        ),
{
    law_printed_lines(signal, arch, w);
    assert(lines(run(w, opened(false, signal, arch))).skip(lines_before_guest_words(arch, w))
        =~= at_most(guest_frames(w, (w.register)(72), 0), 64).map_values(
        |v: u32| guest_word_text(v),
    ));
}

/// Every word among the first 4096 of the guest's stack that lies from
/// 0x7A000000 up to 0x7C000000, or from 0x400000 up to 0x800000, has a line in
/// which it is read, unless 64 others have.
pub proof fn law_every_guest_word_is_printed(
    signal: Signal,
    arch: Arch,
    w: World,
    i: int,
    v: u32,
)
    requires
        has_caller(arch, w),
        0 <= i < 4096,
        (w.register)(72) + 4 * i <= u64::MAX,
        v == (w.half)(((w.register)(72) + 4 * i) as u64),
        0x7A00_0000 <= v < 0x7C00_0000 || 0x0040_0000 <= v < 0x0080_0000,
    ensures
        ({
            let words = lines(run(w, opened(false, signal, arch))).skip(
                lines_before_guest_words(arch, w),
            );
            &&& words.len() <= 64
            &&& words.len() == 64 || exists|k: int|
                0 <= k < words.len() && (#[trigger] words[k]).len() == 23 && words[k].subrange(0, 4)
                    == ascii("  g=") && reads_as(words[k], 4, v as int)
        }),
{
    let rsp = (w.register)(72);
    lemma_guest_lines_at(signal, arch, w);
    lemma_guest_frames(w, rsp, 0);
    assert(word_at(rsp, i) == (rsp + 4 * i) as u64);
    let frames = guest_frames(w, rsp, 0);
    lemma_at_most(frames, 64, v);
    let shown = at_most(frames, 64);
    let words = lines(run(w, opened(false, signal, arch))).skip(lines_before_guest_words(arch, w));
    if words.len() != 64 {
        let k = choose|k: int| 0 <= k < shown.len() && shown[k] == v;
        assert(words[k] == guest_word_text(v));
        law_guest_word_reads_back(v);
    }
}

/// A line in the scan of the guest's stack holds one of its first 4096 words,
/// from one of the two zones.
pub proof fn law_only_guest_words_are_printed(signal: Signal, arch: Arch, w: World, k: int)
    requires
        has_caller(arch, w),
        lines_before_guest_words(arch, w) <= k < lines(run(w, opened(false, signal, arch))).len(),
    ensures
        exists|i: int|
            {
                let v = #[trigger] (w.half)(
                    (((w.register)(72) + 4 * i) % 0x1_0000_0000_0000_0000) as u64,
                );
                &&& 0 <= i < 4096
                &&& 0x7A00_0000 <= v < 0x7C00_0000 || 0x0040_0000 <= v < 0x0080_0000
                &&& reads_as(lines(run(w, opened(false, signal, arch)))[k], 4, v as int)
            },
{
    let rsp = (w.register)(72);
    let all = lines(run(w, opened(false, signal, arch)));
    let n = lines_before_guest_words(arch, w);
    lemma_guest_lines_at(signal, arch, w);
    lemma_guest_frames(w, rsp, 0);
    let frames = guest_frames(w, rsp, 0);
    let shown = at_most(frames, 64);
    let x = shown[k - n];
    assert(all.skip(n).len() == shown.len());
    assert(all[k] == all.skip(n)[k - n]);
    assert(all[k] == guest_word_text(x));
    assert(x == frames[k - n]);
    law_guest_word_reads_back(x);
    let i = choose|i: int| 0 <= i < 4096 && x == (w.half)(#[trigger] word_at(rsp, i));
    assert(x == (w.half)(((rsp + 4 * i) % 0x1_0000_0000_0000_0000) as u64));
}

/// A reader of the report on a fault finds, in its first line, the address and
/// the code with which the kernel describes the fault.
pub proof fn law_report_tells_the_fault(signal: Signal, arch: Arch, w: World)
    requires
        signal == Signal::Segv || signal == Signal::Bus,
        w.info is Some,
    ensures
        ({
            let first = lines(run(w, opened(false, signal, arch)))[0];
            let n: int = if signal == Signal::Segv { 7 } else { 6 };
            &&& lines(run(w, opened(false, signal, arch))).len() >= 2
            &&& first.subrange(0, 22) == ascii("[mtld3d::unix] FATAL: ")
            &&& first.subrange(22, 22 + n) == (if signal == Signal::Segv {
                ascii("SIGSEGV")
            } else {
                ascii("SIGBUS")
            })
            &&& first.subrange(22 + n, 29 + n) == ascii(" fault=")
            &&& reads_as(first, 29 + n, w.info->0.addr as int)
            &&& first.subrange(47 + n, 56 + n) == ascii(" si_code=")
            &&& reads_as(
                first,
                56 + n,
                if w.info->0.code >= 0 {
                    w.info->0.code as int
                } else {
                    w.info->0.code + 0x1_0000_0000
                },
            )
        }),
{
    law_printed_lines(signal, arch, w);
    law_banner_reads_back(signal, w.info->0);
}

/// A reader of a report finds the thread's name in its second line, byte for
/// byte up to the first NUL.
pub proof fn law_report_names_the_thread(signal: Signal, arch: Arch, w: World, n: int)
    requires
        0 <= n <= w.name.len(),
        forall|i: int| 0 <= i < n ==> #[trigger] w.name[i] != 0,
        n < w.name.len() ==> w.name[n] == 0,
    ensures
        ({
            let second = lines(run(w, opened(false, signal, arch)))[1];
            &&& second.len() == 22 + n + 1
            &&& second.subrange(0, 22) == ascii("[mtld3d::unix] thread=")
            &&& forall|i: int| 0 <= i < n ==> second[22 + i] == #[trigger] w.name[i]
        }),
{
    law_printed_lines(signal, arch, w);
    law_thread_line_holds_the_name(w.name, n);
}

/// A reader of a report finds the program counter of the fault, where it is
/// known and not null, and behind it, on `x86_64`, the registers and the word at
/// the top of the stack, each under its own label.
pub proof fn law_report_tells_the_registers(signal: Signal, arch: Arch, w: World)
    ensures
        ({
            let all = lines(run(w, opened(false, signal, arch)));
            let next: int = if pc_of(arch, w) != 0 { 3 } else { 2 };
            &&& pc_of(arch, w) != 0 ==> {
                &&& all.len() > 2
                &&& all[2].subrange(0, 24) == ascii("[mtld3d::unix] fault_pc=")
                &&& reads_as(all[2], 24, pc_of(arch, w) as int)
            }
            &&& arch == Arch::X86_64 ==> {
                &&& all.len() > next
                &&& all[next].subrange(0, 25) == ascii("[mtld3d::unix] rcx(this)=")
                &&& reads_as(all[next], 25, (w.register)(32) as int)
                &&& all[next].subrange(43, 54) == ascii(" rax(vtbl)=")
                &&& reads_as(all[next], 54, (w.register)(16) as int)
                &&& all[next].subrange(72, 77) == ascii(" rsp=")
                &&& reads_as(all[next], 77, (w.register)(72) as int)
            }
            &&& arch == Arch::X86_64 && (w.register)(72) != 0 ==> {
                &&& all.len() > next + 1
                &&& all[next + 1].subrange(0, 31) == ascii("[mtld3d::unix] caller(ret@rsp)=")
                &&& reads_as(all[next + 1], 31, (w.word)((w.register)(72)) as int)
            }
        }),
{
    law_printed_lines(signal, arch, w);
    law_fault_pc_reads_back(pc_of(arch, w));
    law_registers_read_back((w.register)(32), (w.register)(16), (w.register)(72));
    law_caller_reads_back((w.word)((w.register)(72)));
}

/// A read of the stack, four or eight bytes wide, is at one of the first 4096
/// words behind `sp`.
pub open spec fn reads_near(action: Act, sp: u64) -> bool {
    match action {
        Action::ReadWord(addr) => exists|i: int| 0 <= i < 4096 && addr == #[trigger] word_at(sp, i),
        Action::ReadHalfWord(addr) => exists|i: int|
            0 <= i < 4096 && addr == #[trigger] word_at(sp, i),
        _ => true,
    }
}

proof fn lemma_stack_walk_reads(w: World, pos: Option<ScanPos>, k: int)
    requires
        pos is Some ==> pos->0.wf(),
        0 <= k < stack_walk(w, pos).len(),
    ensures
        pos is Some,
        reads_near(stack_walk(w, pos)[k], pos->0.base),
        stack_walk(w, pos)[k] !is ReadFaultInfo,
    decreases
            (match pos {
                Some(p) => p.left() + 1,
                None => 0,
            }),
{
    if let Some(p) = pos {
        let v = (w.word)(p.here());
        let next = p.after(
            if is_our_frame(w, v) {
                1
            } else {
                0
            },
        );
        let rest = stack_walk(w, next);
        let n = stack_walk(w, pos).len() - rest.len();
        assert(p.here() == word_at(p.base, p.index as int));
        if k >= n {
            assert(stack_walk(w, pos)[k] == rest[k - n]);
            lemma_stack_walk_reads(w, next, k - n);
        }
    }
}

proof fn lemma_guest_walk_reads(w: World, pos: Option<ScanPos>, k: int)
    requires
        pos is Some ==> pos->0.wf(),
        0 <= k < guest_walk(w, pos).len(),
    ensures
        pos is Some,
        reads_near(guest_walk(w, pos)[k], pos->0.base),
        guest_walk(w, pos)[k] !is ReadFaultInfo,
    decreases
            (match pos {
                Some(p) => p.left() + 1,
                None => 0,
            }),
{
    if let Some(p) = pos {
        let v = (w.half)(p.here());
        let next = p.after(
            if is_guest_code(v) {
                1
            } else {
                0
            },
        );
        let rest = guest_walk(w, next);
        let n = guest_walk(w, pos).len() - rest.len();
        assert(p.here() == word_at(p.base, p.index as int));
        if k >= n {
            assert(guest_walk(w, pos)[k] == rest[k - n]);
            lemma_guest_walk_reads(w, next, k - n);
        }
    }
}

/// All that a report reads of the memory is the first 4096 words of the stack.
pub proof fn law_reads_stay_on_the_stack(signal: Signal, arch: Arch, w: World, k: int)
    requires
        0 <= k < run(w, opened(false, signal, arch)).len(),
    ensures
        reads_near(run(w, opened(false, signal, arch))[k], sp_of(arch, w)),
{
    law_report_is_its_sections(signal, arch, w);
    let sp = sp_of(arch, w);
    let actions = report_actions(signal, arch, w);
    let early = opening_actions(signal, w) + pc_actions(arch, w) + register_actions(arch, w)
        + history_actions(w);
    let stack = stack_actions(arch, w);
    let guest = guest_actions(arch, w);
    assert(actions =~= early + stack + guest + seq![Act::Exit(CRASH_STATUS)]);
    assert(word_at(sp, 0) == sp);
    if k < early.len() {
        assert(actions[k] == early[k]);
    } else if k < early.len() + stack.len() {
        let j = k - early.len();
        assert(actions[k] == stack[j]);
        if j >= 2 {
            let first = Some(ScanPos::first(sp, STACK_CAP));
            assert(stack[j] == stack_walk(w, first)[j - 2]);
            lemma_stack_walk_reads(w, first, j - 2);
        }
    } else if k < early.len() + stack.len() + guest.len() {
        let j = k - early.len() - stack.len();
        assert(actions[k] == guest[j]);
        if j >= 2 {
            let first = Some(ScanPos::first(sp, GUEST_CAP));
            assert(guest[j] == guest_walk(w, first)[j - 2]);
            lemma_guest_walk_reads(w, first, j - 2);
        }
    }
}

/// A report asks for the kernel's description of the fault first of all, and
/// only where the signal is a segmentation fault or a bus error.
pub proof fn law_fault_info_is_asked_for_first(signal: Signal, arch: Arch, w: World, k: int)
    requires
        0 <= k < run(w, opened(false, signal, arch)).len(),
    ensures
        run(w, opened(false, signal, arch))[k] is ReadFaultInfo <==> k == 0 && (signal
            == Signal::Segv || signal == Signal::Bus),
{
    law_report_is_its_sections(signal, arch, w);
    let actions = report_actions(signal, arch, w);
    let opening = opening_actions(signal, w);
    let middle = pc_actions(arch, w) + register_actions(arch, w) + history_actions(w);
    let stack = stack_actions(arch, w);
    let guest = guest_actions(arch, w);
    assert(actions =~= opening + middle + stack + guest + seq![Act::Exit(CRASH_STATUS)]);
    let n = opening.len() + middle.len();
    if k < opening.len() {
        assert(actions[k] == opening[k]);
    } else if k < n {
        assert(actions[k] == middle[k - opening.len()]);
    } else if k < n + stack.len() {
        let j = k - n;
        assert(actions[k] == stack[j]);
        if j >= 2 {
            let first = Some(ScanPos::first(sp_of(arch, w), STACK_CAP));
            assert(stack[j] == stack_walk(w, first)[j - 2]);
            lemma_stack_walk_reads(w, first, j - 2);
        }
    } else if k < n + stack.len() + guest.len() {
        let j = k - n - stack.len();
        assert(actions[k] == guest[j]);
        if j >= 2 {
            let first = Some(ScanPos::first(sp_of(arch, w), GUEST_CAP));
            assert(guest[j] == guest_walk(w, first)[j - 2]);
            lemma_guest_walk_reads(w, first, j - 2);
        }
    }
}

} // verus!
