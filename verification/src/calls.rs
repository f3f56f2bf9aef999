//! What calls of the library's functions give, and how calls relate.
//!
//! Each law here speaks of calls: of any result that a function may return for
//! given arguments.

use vstd::arithmetic::power::pow;
use vstd::prelude::*;

use crate::context::{address_at, mcontext_resume, mcontext_u64, Arch, Lookup};
use crate::handler::{opened, step, Report};
use crate::image::{c_str_len, dladdr_is_ours, law_ours_is_having_the_name, lemma_c_len};
use crate::line::{
    ascii, hex_word, law_hex_word_digits, lemma_hex_word_len, lemma_word_reads, push, push_hex,
    reads_as, Line, LINE_CAP,
};
use crate::scan::{in_guest_code, may_be_address, ScanPos};
use crate::signal::{
    classify_signal, host_signals, install_plan, law_names_are_those_of_the_signals, signal_name,
    InstallPlan, Signal, SignalTable,
};
use crate::step::{Act, Action, Ev, Event};
use crate::text::{
    backtrace_header, banner, caller_line, fault_pc_line, guest_header, guest_word_line,
    law_banner_reads_back,
    law_banner_without_fault, law_caller_reads_back, law_fault_pc_reads_back,
    law_guest_word_reads_back, law_registers_read_back, law_thread_line_holds_the_name,
    registers_line, stack_header, thread_line, FaultInfo, NAME_CAP,
};
use crate::tsc::{
    calibrate, law_calibration_at_the_limits, law_calibration_rounds_down, secs_to_cycles,
    split_u64, tsc_hz, widen_usize, Calibration, Clock, Request,
};

verus! {

/// The bytes of a line that are written out.
pub open spec fn written(line: Line) -> Seq<u8> {
    line.buf@.subrange(0, line.len as int)
}

/// A word of our own stack is taken for an address from 0x1000 on, up to the
/// largest word.
pub proof fn law_addresses_begin_at_the_second_page(v: u64, r: bool)
    requires
        call_ensures(may_be_address, (v,), r),
    ensures
        r <==> v >= 0x1000,
{
}

/// Of two words, the larger is taken for an address wherever the smaller is.
pub proof fn law_addresses_have_no_upper_end(v: u64, w: u64, r: bool, s: bool)
    requires
        v <= w,
        call_ensures(may_be_address, (v,), r),
        call_ensures(may_be_address, (w,), s),
    ensures
        r ==> s,
{
}

/// The guest's code lies in two zones without gaps.
pub proof fn law_guest_code_is_two_zones(w: u32, r: bool)
    requires
        call_ensures(in_guest_code, (w,), r),
    ensures
        r <==> 0x0040_0000 <= w < 0x0080_0000 || 0x7A00_0000 <= w < 0x7C00_0000,
{
}

/// An address is the sum of its parts, as the machine adds.
pub proof fn law_addresses_are_sums(base: u64, offset: u64, addr: u64)
    requires
        call_ensures(address_at, (base, offset), addr),
    ensures
        base + offset <= 0xFFFF_FFFF_FFFF_FFFF ==> addr == base + offset,
        base + offset > 0xFFFF_FFFF_FFFF_FFFF ==> addr == base + offset
            - 0x1_0000_0000_0000_0000,
{
}

/// A lookup asks for the word at `ctx + 0x30`, then for the word at
/// `state + offset`, and gives what it was told last; 0 where it meets null.
pub proof fn law_lookups_follow_two_pointers(
    ctx: u64,
    offset: u64,
    state: u64,
    value: u64,
    first: Lookup,
    second: Lookup,
    third: Lookup,
)
    requires
        call_ensures(mcontext_u64, (ctx, offset), first),
        call_ensures(mcontext_resume, (first->pending, state), second),
        call_ensures(mcontext_resume, (second->pending, value), third),
    ensures
        ctx == 0 ==> first == Lookup::Value(0),
        ctx != 0 ==> {
            &&& first is Read
            &&& ctx + 0x30 <= 0xFFFF_FFFF_FFFF_FFFF ==> first->addr == ctx + 0x30
            &&& ctx + 0x30 > 0xFFFF_FFFF_FFFF_FFFF ==> first->addr == ctx + 0x30
                - 0x1_0000_0000_0000_0000
        },
        ctx != 0 && state == 0 ==> second == Lookup::Value(0),
        ctx != 0 && state != 0 ==> {
            &&& second is Read
            &&& state + offset <= 0xFFFF_FFFF_FFFF_FFFF ==> second->addr == state + offset
            &&& state + offset > 0xFFFF_FFFF_FFFF_FFFF ==> second->addr == state + offset
                - 0x1_0000_0000_0000_0000
            &&& third == Lookup::Value(value)
        },
{
}

/// Where the program counter and the stack pointer lie in the machine state.
pub proof fn law_saved_registers(arch: Arch, pc: Option<u64>, sp: Option<u64>)
    requires
        call_ensures(Arch::pc_offset, (arch,), pc),
        call_ensures(Arch::sp_offset, (arch,), sp),
    ensures
        arch is X86_64 ==> pc == Some(144u64) && sp == Some(72u64),
        arch is Aarch64 ==> pc == Some(272u64) && sp == Some(264u64),
        arch is Other ==> pc is None && sp is None,
{
}

/// A scan begins at its base, and each step takes it four bytes on, until it
/// has looked at 4096 words or has printed as many as it may.
pub proof fn law_scans_take_every_word(
    pos: ScanPos,
    here: u64,
    printed: bool,
    next: Option<ScanPos>,
)
    requires
        pos.wf(),
        call_ensures(ScanPos::addr, (pos,), here),
        call_ensures(ScanPos::advance, (pos, printed), next),
    ensures
        pos.base + 4 * pos.index <= 0xFFFF_FFFF_FFFF_FFFF ==> here == pos.base + 4 * pos.index,
        pos.base + 4 * pos.index > 0xFFFF_FFFF_FFFF_FFFF ==> here == pos.base + 4 * pos.index
            - 0x1_0000_0000_0000_0000,
        next is None <==> pos.index + 1 >= 4096 || pos.printed + (if printed {
            1int
        } else {
            0
        }) >= pos.cap,
        next matches Some(p) ==> p.base == pos.base && p.cap == pos.cap && p.index == pos.index + 1
            && p.printed == pos.printed + (if printed {
            1int
        } else {
            0
        }),
{
}

/// A scan begins with the word at its base and nothing printed.
pub proof fn law_scans_begin_at_the_base(base: u64, cap: u32, pos: ScanPos)
    requires
        call_ensures(ScanPos::start, (base, cap), pos),
    ensures
        pos.base == base,
        pos.index == 0,
        pos.printed == 0,
        pos.cap == cap,
{
}

/// The three numbers of a table stand for their signals, any other for none.
pub proof fn law_classes_of_numbers(table: SignalTable, signo: i32, signal: Signal)
    requires
        table.segv != table.bus,
        table.segv != table.abrt,
        table.bus != table.abrt,
        call_ensures(SignalTable::classify, (&table, signo), signal),
    ensures
        signal is Segv <==> signo == table.segv,
        signal is Bus <==> signo == table.bus,
        signal is Abrt <==> signo == table.abrt,
{
}

/// The host gives the three signals three numbers.
pub proof fn law_host_numbers_differ(table: SignalTable)
    requires
        call_ensures(host_signals, (), table),
    ensures
        table.segv != table.bus,
        table.segv != table.abrt,
        table.bus != table.abrt,
        table.segv == 11,
        table.abrt == 6,
{
}

/// A number is classified by itself: 11 and 6 on every host, and a bus error
/// only by one of the numbers that a host may give it.
pub proof fn law_classes_on_the_host(signo: i32, signal: Signal)
    requires
        call_ensures(classify_signal, (signo,), signal),
    ensures
        signal is Segv <==> signo == 11,
        signal is Abrt <==> signo == 6,
        signal is Bus ==> signo == 7 || signo == 10 || signo == 30,
{
}

/// The names are `SIGSEGV`, `SIGBUS`, `SIGABRT` and, for the rest, `SIG?`.
pub proof fn law_names_of_signals(signal: Signal, name: &'static [u8])
    requires
        call_ensures(Signal::name, (signal,), name),
    ensures
        signal is Segv ==> name@ == seq![0x53u8, 0x49, 0x47, 0x53, 0x45, 0x47, 0x56],
        signal is Bus ==> name@ == seq![0x53u8, 0x49, 0x47, 0x42, 0x55, 0x53],
        signal is Abrt ==> name@ == seq![0x53u8, 0x49, 0x47, 0x41, 0x42, 0x52, 0x54],
        signal is Other ==> name@ == seq![0x53u8, 0x49, 0x47, 0x3f],
{
    law_names_are_those_of_the_signals();
}

/// A number that no host gives to one of the signals is named `SIG?`.
pub proof fn law_names_on_the_host(signo: i32, name: &'static [u8])
    requires
        call_ensures(signal_name, (signo,), name),
    ensures
        signo == 11 ==> name@ == seq![0x53u8, 0x49, 0x47, 0x53, 0x45, 0x47, 0x56],
        signo == 6 ==> name@ == seq![0x53u8, 0x49, 0x47, 0x41, 0x42, 0x52, 0x54],
        signo != 11 && signo != 6 && signo != 7 && signo != 10 && signo != 30 ==> name@ == seq![
            0x53u8,
            0x49,
            0x47,
            0x3f,
        ],
{
    law_names_are_those_of_the_signals();
}

/// The kernel describes segmentation faults and bus errors, and nothing else.
pub proof fn law_faults_are_described(signal: Signal, r: bool)
    requires
        call_ensures(Signal::has_fault_info, (signal,), r),
    ensures
        r <==> signal is Segv || signal is Bus,
{
}

/// `RUST_BACKTRACE` is set, to `1`, exactly where it was not; and that does not
/// decide which signals are caught, nor the other way round.
pub proof fn law_plans_follow_the_environment(
    table: SignalTable,
    backtrace_is_set: bool,
    no_crash_handler_is_set: bool,
    plan: InstallPlan,
)
    requires
        call_ensures(install_plan, (&table, backtrace_is_set, no_crash_handler_is_set), plan),
    ensures
        plan.backtrace is None <==> backtrace_is_set,
        !backtrace_is_set ==> plan.backtrace->0@ == "1"@,
        no_crash_handler_is_set ==> plan.signals@.len() == 1 && plan.signals@[0] == table.abrt,
        !no_crash_handler_is_set ==> plan.signals@.len() == 3 && plan.signals@[0] == table.segv
            && plan.signals@[1] == table.bus && plan.signals@[2] == table.abrt,
{
}

/// A C string ends at its first NUL, or with the buffer.
pub proof fn law_c_strings_end_at_the_first_nul(bytes: &[u8], n: usize)
    requires
        call_ensures(c_str_len, (bytes,), n),
    ensures
        n <= bytes@.len(),
        n < bytes@.len() ==> bytes@[n as int] == 0,
        forall|i: int| 0 <= i < n ==> #[trigger] bytes@[i] != 0,
{
    lemma_c_len(bytes@);
}

/// An address is ours exactly where it was found in an image whose path holds
/// `mtld3d` in front of its first NUL, however long the path is.
pub proof fn law_ours_by_the_path(found: i32, path: Option<&[u8]>, ours: bool)
    requires
        call_ensures(dladdr_is_ours, (found, path), ours),
    ensures
        found == 0 ==> !ours,
        path is None ==> !ours,
        found != 0 && path is Some ==> (ours <==> exists|i: int|
            {
                &&& 0 <= i <= path->0@.len() - 6
                &&& #[trigger] path->0@[i] == 0x6d
                &&& path->0@[i + 1] == 0x74
                &&& path->0@[i + 2] == 0x6c
                &&& path->0@[i + 3] == 0x64
                &&& path->0@[i + 4] == 0x33
                &&& path->0@[i + 5] == 0x64
                &&& forall|j: int| 0 <= j < i ==> #[trigger] path->0@[j] != 0
            }),
{
    if path is Some {
        law_ours_is_having_the_name(path->0@);
    }
}

/// A reader of the banner finds the signal, the fault's address and its code.
pub proof fn law_banners_tell_the_fault(signal: Signal, info: FaultInfo, line: Line)
    requires
        signal is Segv || signal is Bus,
        call_ensures(banner, (signal, Some(info)), line),
    ensures
        ({
            let text = written(line);
            let n: int = if signal is Segv { 7 } else { 6 };
            &&& line.len == n + 75
            &&& text.subrange(0, 22) == ascii("[mtld3d::unix] FATAL: ")
            &&& text.subrange(22, 22 + n) == (if signal is Segv {
                ascii("SIGSEGV")
            } else {
                ascii("SIGBUS")
            })
            &&& text.subrange(22 + n, 29 + n) == ascii(" fault=")
            &&& reads_as(text, 29 + n, info.addr as int)
            &&& text.subrange(47 + n, 56 + n) == ascii(" si_code=")
            &&& reads_as(
                text,
                56 + n,
                if info.code >= 0 {
                    info.code as int
                } else {
                    info.code + 0x1_0000_0000
                },
            )
            &&& text[74 + n] == 0x0a
        }),
{
    law_banner_reads_back(signal, info);
    assert(written(line) =~= line@);
}

/// Two faults with the same banner are the same fault.
pub proof fn law_banners_differ_as_faults_do(
    signal: Signal,
    a: FaultInfo,
    b: FaultInfo,
    first: Line,
    second: Line,
)
    requires
        signal is Segv || signal is Bus,
        call_ensures(banner, (signal, Some(a)), first),
        call_ensures(banner, (signal, Some(b)), second),
        written(first) == written(second),
    ensures
        a.addr == b.addr,
        a.code == b.code,
{
    law_banners_tell_the_fault(signal, a, first);
    law_banners_tell_the_fault(signal, b, second);
}

/// A banner without a fault names the signal and no more.
pub proof fn law_banners_without_fault(signal: Signal, info: Option<FaultInfo>, line: Line)
    requires
        call_ensures(banner, (signal, info), line),
        info is None || signal is Abrt || signal is Other,
    ensures
        written(line) == ascii(
            match signal {
                Signal::Segv => "[mtld3d::unix] FATAL: SIGSEGV\n",
                Signal::Bus => "[mtld3d::unix] FATAL: SIGBUS\n",
                Signal::Abrt => "[mtld3d::unix] FATAL: SIGABRT\n",
                Signal::Other => "[mtld3d::unix] FATAL: SIG?\n",
            },
        ),
{
    law_banner_without_fault(info);
    assert(written(line) =~= line@);
}

/// The thread line holds the name in the buffer, up to its first NUL.
pub proof fn law_thread_lines_hold_the_name(name: &[u8; NAME_CAP], n: int, line: Line)
    requires
        call_ensures(thread_line, (name,), line),
        0 <= n <= 64,
        forall|i: int| 0 <= i < n ==> #[trigger] name@[i] != 0,
        n < 64 ==> name@[n] == 0,
    ensures
        line.len == 22 + n + 1,
        written(line).subrange(0, 22) == ascii("[mtld3d::unix] thread="),
        forall|i: int| 0 <= i < n ==> written(line)[22 + i] == #[trigger] name@[i],
        written(line)[22 + n] == 0x0a,
{
    law_thread_line_holds_the_name(name@, n);
    assert(written(line) =~= line@);
}

/// A reader of the line finds the program counter.
pub proof fn law_fault_pc_lines_tell_the_pc(pc: u64, line: Line)
    requires
        call_ensures(fault_pc_line, (pc,), line),
    ensures
        line.len == 43,
        written(line).subrange(0, 24) == ascii("[mtld3d::unix] fault_pc="),
        reads_as(written(line), 24, pc as int),
        written(line)[42] == 0x0a,
{
    law_fault_pc_reads_back(pc);
    assert(written(line) =~= line@);
}

/// A reader of the line finds each register under its own label.
pub proof fn law_register_lines_tell_the_registers(rcx: u64, rax: u64, rsp: u64, line: Line)
    requires
        call_ensures(registers_line, (rcx, rax, rsp), line),
    ensures
        line.len == 96,
        written(line).subrange(0, 25) == ascii("[mtld3d::unix] rcx(this)="),
        reads_as(written(line), 25, rcx as int),
        written(line).subrange(43, 54) == ascii(" rax(vtbl)="),
        reads_as(written(line), 54, rax as int),
        written(line).subrange(72, 77) == ascii(" rsp="),
        reads_as(written(line), 77, rsp as int),
        written(line)[95] == 0x0a,
{
    law_registers_read_back(rcx, rax, rsp);
    assert(written(line) =~= line@);
}

/// A reader of the line finds the return address.
pub proof fn law_caller_lines_tell_the_caller(ret: u64, line: Line)
    requires
        call_ensures(caller_line, (ret,), line),
    ensures
        line.len == 50,
        written(line).subrange(0, 31) == ascii("[mtld3d::unix] caller(ret@rsp)="),
        reads_as(written(line), 31, ret as int),
        written(line)[49] == 0x0a,
{
    law_caller_reads_back(ret);
    assert(written(line) =~= line@);
}

/// A reader of the line finds the guest's word.
pub proof fn law_guest_lines_tell_the_word(w: u32, line: Line)
    requires
        call_ensures(guest_word_line, (w,), line),
    ensures
        line.len == 23,
        written(line).subrange(0, 4) == ascii("  g="),
        reads_as(written(line), 4, w as int),
        written(line)[22] == 0x0a,
{
    law_guest_word_reads_back(w);
    assert(written(line) =~= line@);
}

/// The lines in front of the backtrace and of the two scans.
pub proof fn law_headers(backtrace: Line, stack: Line, guest: Line)
    requires
        call_ensures(backtrace_header, (), backtrace),
        call_ensures(stack_header, (), stack),
        call_ensures(guest_header, (), guest),
    ensures
        written(backtrace) == ascii("[mtld3d::unix] native backtrace:\n"),
        written(stack) == ascii("[mtld3d::unix] mtld3d.so return addrs on stack:\n"),
        written(guest) == ascii("[mtld3d::unix] guest (PE) stack words:\n"),
{
    assert(written(backtrace) =~= backtrace@);
    assert(written(stack) =~= stack@);
    assert(written(guest) =~= guest@);
}

/// A new line has nothing in it.
pub proof fn law_lines_begin_empty(line: Line)
    requires
        call_ensures(Line::new, (), line),
    ensures
        line.len == 0,
{
    assert(line@.len() == 0);
}

/// A line takes bytes one for one behind those that it holds, until it is full.
pub proof fn law_lines_take_bytes(line: &mut Line, bytes: &[u8])
    requires
        old(line).len <= 192,
        call_ensures(Line::push_bytes, (line, bytes), ()),
    ensures
        final(line).len == (if old(line).len + bytes@.len() <= 192 {
            old(line).len + bytes@.len()
        } else {
            192
        }),
        forall|i: int|
            0 <= i < final(line).len ==> #[trigger] final(line).buf@[i] == (if i < old(line).len {
                old(line).buf@[i]
            } else {
                bytes@[i - old(line).len]
            }),
{
    assert(old(line)@.len() == old(line).len);
    assert(final(line)@.len() == final(line).len);
    assert forall|i: int| 0 <= i < final(line).len implies #[trigger] final(line).buf@[i] == (if i
        < old(line).len {
        old(line).buf@[i]
    } else {
        bytes@[i - old(line).len]
    }) by {
        assert(final(line)@[i] == final(line).buf@[i]);
    }
}

/// A line takes a text and a word behind what it holds.
pub proof fn law_lines_take_texts_and_words(line: &mut Line, other: &mut Line, text: &str, v: u64)
    requires
        old(line).len <= 192,
        old(other).len + 18 <= 192,
        call_ensures(Line::push_text, (line, text), ()),
        call_ensures(Line::push_word, (other, v), ()),
    ensures
        written(*final(line)) == written(*old(line)) + ascii(text),
        final(other).len == old(other).len + 18,
        written(*final(other)).subrange(0, old(other).len as int) == written(*old(other)),
        reads_as(written(*final(other)), old(other).len as int, v as int),
{
    assert(written(*old(line)) =~= old(line)@);
    assert(written(*final(line)) =~= final(line)@);
    assert(written(*old(other)) =~= old(other)@);
    assert(written(*final(other)) =~= final(other)@);
    lemma_hex_word_len(v);
    let n = old(other).len as int;
    assert(final(other)@.len() == final(other).len);
    assert(final(other)@.subrange(n, n + 18) =~= hex_word(v));
    lemma_word_reads(final(other)@, n, v);
    assert(final(other)@.subrange(0, n) =~= old(other)@);
}

/// Bytes are appended one for one, up to the 192nd of the line, and nothing else
/// of the line changes.
pub proof fn law_pushes_append(buf: &mut [u8; LINE_CAP], pos: &mut usize, bytes: &[u8])
    requires
        *old(pos) <= 192,
        call_ensures(push, (buf, pos, bytes), ()),
    ensures
        *old(pos) + bytes@.len() <= 192 ==> *final(pos) == *old(pos) + bytes@.len(),
        *old(pos) + bytes@.len() > 192 ==> *final(pos) == 192,
        forall|i: int|
            *old(pos) <= i < *final(pos) ==> #[trigger] final(buf)@[i] == bytes@[i - *old(pos)],
        forall|i: int|
            0 <= i < *old(pos) || *final(pos) <= i < 192 ==> #[trigger] final(buf)@[i] == old(
                buf,
            )@[i],
{
}

/// A word is appended as `0x` and its sixteen nibbles, where all eighteen bytes
/// fit; otherwise nothing changes.
pub proof fn law_hex_pushes_append(buf: &mut [u8; LINE_CAP], pos: &mut usize, v: u64, k: int)
    requires
        call_ensures(push_hex, (buf, pos, v), ()),
        0 <= k < 16,
    ensures
        *old(pos) > 174 ==> *final(pos) == *old(pos) && final(buf)@ == old(buf)@,
        *old(pos) <= 174 ==> {
            let nibble = (v as int / pow(16, (15 - k) as nat)) % 16;
            &&& *final(pos) == *old(pos) + 18
            &&& final(buf)@[*old(pos) as int] == 0x30
            &&& final(buf)@[*old(pos) + 1] == 0x78
            &&& final(buf)@[*old(pos) + 2 + k] as int == (if nibble < 10 {
                0x30 + nibble
            } else {
                0x61 + nibble - 10
            })
            &&& forall|i: int|
                0 <= i < *old(pos) || *final(pos) <= i < 192 ==> #[trigger] final(buf)@[i] == old(
                    buf,
                )@[i]
        },
{
    law_hex_word_digits(v, k);
}

/// The two halves make up the word.
pub proof fn law_halves_make_the_word(v: u64, halves: (u32, u32))
    requires
        call_ensures(split_u64, (v,), halves),
    ensures
        halves.0 == v as int / 0x1_0000_0000,
        halves.1 == v as int % 0x1_0000_0000,
{
}

/// A wider type holds the same number.
pub proof fn law_widening_keeps_the_number(v: usize, r: u64)
    requires
        call_ensures(widen_usize, (v,), r),
    ensures
        r == v,
{
}

/// The calibrated frequency is the number of ticks per second, rounded down,
/// and that of the largest number of ticks where these are beyond it.
pub proof fn law_calibrations_count_ticks_per_second(
    before: u64,
    after: u64,
    elapsed_us: u64,
    calibration: Calibration,
    hz: u64,
)
    requires
        before <= after,
        call_ensures(calibrate, (before, after, elapsed_us), calibration),
        call_ensures(tsc_hz, (&calibration,), hz),
    ensures
        ({
            let us: int = if elapsed_us == 0 { 1 } else { elapsed_us as int };
            let scaled: int = if (after - before) * 1_000_000 <= 0xFFFF_FFFF_FFFF_FFFF {
                (after - before) * 1_000_000
            } else {
                0xFFFF_FFFF_FFFF_FFFF
            };
            hz * us <= scaled < (hz + 1) * us
        }),
{
    let ticks = (after - before) as u64;
    let us: u64 = if elapsed_us == 0 { 1 } else { elapsed_us };
    law_calibration_at_the_limits(ticks, elapsed_us);
    law_calibration_at_the_limits(ticks, us);
    if ticks * 1_000_000 <= 0xFFFF_FFFF_FFFF_FFFF {
        law_calibration_rounds_down(ticks, us);
    }
}

/// A duration has `hz` cycles per second, up to the largest `u64`.
pub proof fn law_durations_are_products(calibration: Calibration, seconds: u64, cycles: u64)
    requires
        call_ensures(secs_to_cycles, (&calibration, seconds), cycles),
    ensures
        calibration.hz * seconds <= 0xFFFF_FFFF_FFFF_FFFF ==> cycles == calibration.hz * seconds,
        calibration.hz * seconds > 0xFFFF_FFFF_FFFF_FFFF ==> cycles == 0xFFFF_FFFF_FFFF_FFFF,
{
}

/// A call for the frequency asks for a measurement around a sleep of 50
/// milliseconds until one was taken, and gives that one ever after.
pub proof fn law_requests_measure_once(clock: Clock, request: Request)
    requires
        call_ensures(Clock::request, (&clock,), request),
    ensures
        clock is Uncalibrated ==> request == (Request::Measure { sleep_ms: 50 }),
        clock matches Clock::Calibrated(known) ==> request == Request::Ready(known),
{
}

/// The first measurement settles the frequency, as a calibration gives it; a
/// later one is not looked at.
pub proof fn law_first_measurement_settles(
    clock: &mut Clock,
    before: u64,
    after: u64,
    elapsed_us: u64,
    given: Calibration,
    calibrated: Calibration,
)
    requires
        before <= after,
        call_ensures(Clock::settle, (clock, before, after, elapsed_us), given),
        call_ensures(calibrate, (before, after, elapsed_us), calibrated),
    ensures
        *final(clock) == Clock::Calibrated(given),
        *old(clock) is Uncalibrated ==> given == calibrated,
        *old(clock) matches Clock::Calibrated(known) ==> given == known,
{
}

/// An action over plain bytes is the action itself; a line stands for the bytes
/// that are written out.
pub proof fn law_actions_mean_themselves(action: Action<Line>)
    ensures
        action@ == (match action {
            Action::ReadFaultInfo => Act::ReadFaultInfo,
            Action::ReadThreadName => Act::ReadThreadName,
            Action::ReadRegister(offset) => Act::ReadRegister(offset),
            Action::ReadWord(addr) => Act::ReadWord(addr),
            Action::ReadHalfWord(addr) => Act::ReadHalfWord(addr),
            Action::Resolve(addr) => Act::Resolve(addr),
            Action::Symbolize(addr) => Act::Symbolize(addr),
            Action::DumpCrumbs(n) => Act::DumpCrumbs(n),
            Action::Backtrace(n) => Act::Backtrace(n),
            Action::SymbolizeFrames(n) => Act::SymbolizeFrames(n),
            Action::Write(line) => Act::Write(written(line)),
            Action::Exit(status) => Act::Exit(status),
        }),
{
    if let Action::Write(line) = action {
        assert(written(line) =~= line@);
    }
}

/// An event over plain bytes is the event itself; a buffer stands for all of its
/// bytes.
pub proof fn law_events_mean_themselves(event: Event<[u8; NAME_CAP]>)
    ensures
        event@ == (match event {
            Event::Done => Ev::Done,
            Event::FaultInfo(info) => Ev::FaultInfo(info),
            Event::ThreadName(name) => Ev::ThreadName(name@),
            Event::Register(v) => Ev::Register(v),
            Event::Word(v) => Ev::Word(v),
            Event::HalfWord(v) => Ev::HalfWord(v),
            Event::Ours(ours) => Ev::Ours(ours),
            Event::Frames(n) => Ev::Frames(n),
        }),
{
}

/// Opening a report gives its first stage and its first action.
pub proof fn law_reports_open(
    reentered: bool,
    signal: Signal,
    arch: Arch,
    start: (Report, Action<Line>),
)
    requires
        call_ensures(Report::open, (reentered, signal, arch), start),
    ensures
        (start.0, start.1@) == opened(reentered, signal, arch),
        start.1 matches Action::Write(line) ==> line.len <= 192,
{
}

/// Handing a report an event takes it one step on.
pub proof fn law_reports_step(
    report: &mut Report,
    event: Event<[u8; NAME_CAP]>,
    action: Action<Line>,
)
    requires
        old(report).wf(),
        call_ensures(Report::next, (report, event), action),
    ensures
        (*final(report), action@) == step(*old(report), event@),
        action matches Action::Write(line) ==> line.len <= 192,
{
}

} // verus!
