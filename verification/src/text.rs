//! The lines of a crash report.

use vstd::prelude::*;
use vstd::slice::slice_subrange;
use vstd::utf8::is_ascii_chars;

use crate::image::{c_len, c_str, c_str_len, lemma_c_len};
use crate::line::{
    ascii, hex_word, lemma_hex_word_len, lemma_word_reads, reads_as, Line, LINE_CAP,
};
use crate::signal::{name_text, Signal};

verus! {

/// Size of the buffer that a thread's name is read into.
pub const NAME_CAP: usize = 64;

/// How the kernel describes a fault.
#[derive(Clone, Copy, Debug, PartialEq, Eq, Structural)]
pub struct FaultInfo {
    pub addr: u64,
    pub code: i32,
}

/// The bits of a signed code, read as an unsigned number.
pub open spec fn code_bits(code: i32) -> u64 {
    if code >= 0 {
        code as u64
    } else {
        (code + 0x1_0000_0000) as u64
    }
}

/// What the banner says of a fault, for the signals that come with one.
pub open spec fn fault_text(signal: Signal, info: Option<FaultInfo>) -> Seq<u8> {
    if signal.is_fault() && info is Some {
        ascii(" fault=") + hex_word(info->0.addr) + ascii(" si_code=") + hex_word(
            code_bits(info->0.code),
        )
    } else {
        seq![]
    }
}

/// The line that opens a report.
pub open spec fn banner_text(signal: Signal, info: Option<FaultInfo>) -> Seq<u8> {
    ascii("[mtld3d::unix] FATAL: ") + name_text(signal) + fault_text(signal, info) + ascii("\n")
}

/// The line that names the faulting thread.
pub open spec fn thread_text(name: Seq<u8>) -> Seq<u8> {
    ascii("[mtld3d::unix] thread=") + c_str(name) + ascii("\n")
}

/// The line with the program counter of the fault.
pub open spec fn fault_pc_text(pc: u64) -> Seq<u8> {
    ascii("[mtld3d::unix] fault_pc=") + hex_word(pc) + ascii("\n")
}

/// The line with the registers that tell what was called on what.
pub open spec fn registers_text(rcx: u64, rax: u64, rsp: u64) -> Seq<u8> {
    ascii("[mtld3d::unix] rcx(this)=") + hex_word(rcx) + ascii(" rax(vtbl)=") + hex_word(rax)
        + ascii(" rsp=") + hex_word(rsp) + ascii("\n")
}

/// The line with the return address of the faulting call.
pub open spec fn caller_text(ret: u64) -> Seq<u8> {
    ascii("[mtld3d::unix] caller(ret@rsp)=") + hex_word(ret) + ascii("\n")
}

/// The line in front of the native backtrace.
pub open spec fn backtrace_text() -> Seq<u8> {
    ascii("[mtld3d::unix] native backtrace:\n")
}

/// The line in front of our own return addresses found on the stack.
pub open spec fn stack_text() -> Seq<u8> {
    ascii("[mtld3d::unix] mtld3d.so return addrs on stack:\n")
}

/// The line in front of the guest's return addresses found on the stack.
pub open spec fn guest_text() -> Seq<u8> {
    ascii("[mtld3d::unix] guest (PE) stack words:\n")
}

/// The line with one word of the guest's stack.
pub open spec fn guest_word_text(w: u32) -> Seq<u8> {
    ascii("  g=") + hex_word(w as u64) + ascii("\n")
}

/// The bits of a signed code, read as an unsigned number.
fn code_to_bits(code: i32) -> (bits: u64)
    ensures
        bits == code_bits(code),
{
    assert(code >= 0 ==> code as u32 == code) by (bit_vector);
    assert(code < 0 ==> code as u32 == code + 0x1_0000_0000) by (bit_vector);
    #[verifier::truncate]
    (code as u32) as u64
}

/// Formats the line that opens a report.
pub fn banner(signal: Signal, info: Option<FaultInfo>) -> (line: Line)
    ensures
        line.wf(),
        line@ == banner_text(signal, info),
{
    proof {
        reveal_strlit("[mtld3d::unix] FATAL: ");
        reveal_strlit("SIGSEGV");
        reveal_strlit("SIGBUS");
        reveal_strlit("SIGABRT");
        reveal_strlit("SIG?");
        reveal_strlit(" fault=");
        reveal_strlit(" si_code=");
        reveal_strlit("\n");
    }
    let mut line = Line::new();
    line.push_text("[mtld3d::unix] FATAL: ");
    let name = signal.name();
    line.push_bytes(name);
    assert(name@.take(name@.len() as int) =~= name@);
    match info {
        Some(fault) => {
            if signal.has_fault_info() {
                proof {
                    lemma_hex_word_len(fault.addr);
                    lemma_hex_word_len(code_bits(fault.code));
                }
                line.push_text(" fault=");
                line.push_word(fault.addr);
                line.push_text(" si_code=");
                line.push_word(code_to_bits(fault.code));
            }
        },
        None => {},
    }
    line.push_text("\n");
    assert(line@ =~= banner_text(signal, info));
    line
}

/// Formats the line that names the faulting thread, from the buffer that its
/// name was read into.
pub fn thread_line(name: &[u8; NAME_CAP]) -> (line: Line)
    ensures
        line.wf(),
        line@ == thread_text(name@),
{
    proof {
        reveal_strlit("[mtld3d::unix] thread=");
        reveal_strlit("\n");
        lemma_c_len(name@);
    }
    let mut line = Line::new();
    line.push_text("[mtld3d::unix] thread=");
    let len: usize = c_str_len(name.as_slice());
    let shown = slice_subrange(name.as_slice(), 0, len);
    line.push_bytes(shown);
    proof {
        assert(shown@ =~= c_str(name@));
        assert(shown@.take(shown@.len() as int) =~= shown@);
    }
    line.push_text("\n");
    line
}

/// Formats the line with the program counter of the fault.
pub fn fault_pc_line(pc: u64) -> (line: Line)
    ensures
        line.wf(),
        line@ == fault_pc_text(pc),
{
    proof {
        reveal_strlit("[mtld3d::unix] fault_pc=");
        reveal_strlit("\n");
        lemma_hex_word_len(pc);
    }
    let mut line = Line::new();
    line.push_text("[mtld3d::unix] fault_pc=");
    line.push_word(pc);
    line.push_text("\n");
    assert(line@ =~= fault_pc_text(pc));
    line
}

/// Formats the line with the registers that tell what was called on what.
pub fn registers_line(rcx: u64, rax: u64, rsp: u64) -> (line: Line)
    ensures
        line.wf(),
        line@ == registers_text(rcx, rax, rsp),
{
    proof {
        reveal_strlit("[mtld3d::unix] rcx(this)=");
        reveal_strlit(" rax(vtbl)=");
        reveal_strlit(" rsp=");
        reveal_strlit("\n");
        lemma_hex_word_len(rcx);
        lemma_hex_word_len(rax);
        lemma_hex_word_len(rsp);
    }
    let mut line = Line::new();
    line.push_text("[mtld3d::unix] rcx(this)=");
    line.push_word(rcx);
    line.push_text(" rax(vtbl)=");
    line.push_word(rax);
    line.push_text(" rsp=");
    line.push_word(rsp);
    line.push_text("\n");
    assert(line@ =~= registers_text(rcx, rax, rsp));
    line
}

/// Formats the line with the return address of the faulting call.
pub fn caller_line(ret: u64) -> (line: Line)
    ensures
        line.wf(),
        line@ == caller_text(ret),
{
    proof {
        reveal_strlit("[mtld3d::unix] caller(ret@rsp)=");
        reveal_strlit("\n");
        lemma_hex_word_len(ret);
    }
    let mut line = Line::new();
    line.push_text("[mtld3d::unix] caller(ret@rsp)=");
    line.push_word(ret);
    line.push_text("\n");
    assert(line@ =~= caller_text(ret));
    line
}

/// A line that holds a fixed text.
fn fixed_line(text: &str) -> (line: Line)
    requires
        is_ascii_chars(text@),
        text@.len() <= LINE_CAP,
    ensures
        line.wf(),
        line@ == ascii(text),
{
    let mut line = Line::new();
    line.push_text(text);
    assert(line@ =~= ascii(text));
    line
}

/// Formats the line in front of the native backtrace.
pub fn backtrace_header() -> (line: Line)
    ensures
        line.wf(),
        line@ == backtrace_text(),
{
    proof {
        reveal_strlit("[mtld3d::unix] native backtrace:\n");
    }
    fixed_line("[mtld3d::unix] native backtrace:\n")
}

/// Formats the line in front of our own return addresses found on the stack.
pub fn stack_header() -> (line: Line)
    ensures
        line.wf(),
        line@ == stack_text(),
{
    proof {
        reveal_strlit("[mtld3d::unix] mtld3d.so return addrs on stack:\n");
    }
    fixed_line("[mtld3d::unix] mtld3d.so return addrs on stack:\n")
}

/// Formats the line in front of the guest's return addresses found on the stack.
pub fn guest_header() -> (line: Line)
    ensures
        line.wf(),
        line@ == guest_text(),
{
    proof {
        reveal_strlit("[mtld3d::unix] guest (PE) stack words:\n");
    }
    fixed_line("[mtld3d::unix] guest (PE) stack words:\n")
}

/// Formats the line with one word of the guest's stack.
pub fn guest_word_line(w: u32) -> (line: Line)
    ensures
        line.wf(),
        line@ == guest_word_text(w),
{
    proof {
        reveal_strlit("  g=");
        reveal_strlit("\n");
        lemma_hex_word_len(w as u64);
    }
    let mut line = Line::new();
    line.push_text("  g=");
    line.push_word(w as u64);
    line.push_text("\n");
    assert(line@ =~= guest_word_text(w));
    line
}

/// A reader of the banner of a fault finds the signal's name, then the fault's
/// address and its code, whatever these are; a negative code as its 32 bits.
pub proof fn law_banner_reads_back(signal: Signal, info: FaultInfo)
    requires
        signal == Signal::Segv || signal == Signal::Bus,
    ensures
        ({
            let text = banner_text(signal, Some(info));
            let n: int = if signal == Signal::Segv { 7 } else { 6 };
            &&& text.len() == n + 75
            &&& text.subrange(0, 22) == ascii("[mtld3d::unix] FATAL: ")
            &&& text.subrange(22, 22 + n) == (if signal == Signal::Segv {
                ascii("SIGSEGV")
            } else {
                ascii("SIGBUS")
            })
            &&& text.subrange(22 + n, 29 + n) == ascii(" fault=")
            &&& reads_as(text, 29 + n, info.addr as int)
            &&& text.subrange(47 + n, 56 + n) == ascii(" si_code=")
            &&& reads_as(
                text,
                56 + n,
                if info.code >= 0 {
                    info.code as int
                } else {
                    info.code + 0x1_0000_0000
                },
            )
            &&& text.last() == 0x0a
        }),
{
    reveal_strlit("[mtld3d::unix] FATAL: ");
    reveal_strlit("SIGSEGV");
    reveal_strlit("SIGBUS");
    reveal_strlit(" fault=");
    reveal_strlit(" si_code=");
    reveal_strlit("\n");
    let text = banner_text(signal, Some(info));
    let n: int = if signal == Signal::Segv { 7 } else { 6 };
    let code = code_bits(info.code);
    lemma_hex_word_len(info.addr);
    lemma_hex_word_len(code);
    assert(name_text(signal).len() == n);
    assert(text.subrange(0, 22) =~= ascii("[mtld3d::unix] FATAL: "));
    assert(text.subrange(22, 22 + n) =~= name_text(signal));
    assert(text.subrange(22 + n, 29 + n) =~= ascii(" fault="));
    assert(text.subrange(29 + n, 47 + n) =~= hex_word(info.addr));
    assert(text.subrange(47 + n, 56 + n) =~= ascii(" si_code="));
    assert(text.subrange(56 + n, 74 + n) =~= hex_word(code));
    lemma_word_reads(text, 29 + n, info.addr);
    lemma_word_reads(text, 56 + n, code);
}

/// Two banners of faults are the same only where the signal, the address and
/// the code are.
pub proof fn law_banners_tell_faults_apart(a: Signal, i: FaultInfo, b: Signal, j: FaultInfo)
    requires
        a == Signal::Segv || a == Signal::Bus,
        b == Signal::Segv || b == Signal::Bus,
        banner_text(a, Some(i)) == banner_text(b, Some(j)),
    ensures
        a == b,
        i == j,
{
    law_banner_reads_back(a, i);
    law_banner_reads_back(b, j);
}

/// A banner that has no fault to describe holds the signal's name alone; the
/// other signals never have one.
pub proof fn law_banner_without_fault(info: Option<FaultInfo>)
    ensures
        banner_text(Signal::Segv, None) == ascii("[mtld3d::unix] FATAL: SIGSEGV\n"),
        banner_text(Signal::Bus, None) == ascii("[mtld3d::unix] FATAL: SIGBUS\n"),
        banner_text(Signal::Abrt, info) == ascii("[mtld3d::unix] FATAL: SIGABRT\n"),
        banner_text(Signal::Other, info) == ascii("[mtld3d::unix] FATAL: SIG?\n"),
{
    reveal_strlit("[mtld3d::unix] FATAL: ");
    reveal_strlit("SIGSEGV");
    reveal_strlit("SIGBUS");
    reveal_strlit("SIGABRT");
    reveal_strlit("SIG?");
    reveal_strlit("\n");
    reveal_strlit("[mtld3d::unix] FATAL: SIGSEGV\n");
    reveal_strlit("[mtld3d::unix] FATAL: SIGBUS\n");
    reveal_strlit("[mtld3d::unix] FATAL: SIGABRT\n");
    reveal_strlit("[mtld3d::unix] FATAL: SIG?\n");
    assert(banner_text(Signal::Segv, None) =~= ascii("[mtld3d::unix] FATAL: SIGSEGV\n"));
    assert(banner_text(Signal::Bus, None) =~= ascii("[mtld3d::unix] FATAL: SIGBUS\n"));
    assert(banner_text(Signal::Abrt, info) =~= ascii("[mtld3d::unix] FATAL: SIGABRT\n"));
    assert(banner_text(Signal::Other, info) =~= ascii("[mtld3d::unix] FATAL: SIG?\n"));
}

/// The thread line holds the name byte for byte, up to its first NUL.
pub proof fn law_thread_line_holds_the_name(name: Seq<u8>, n: int)
    requires
        0 <= n <= name.len(),
        forall|i: int| 0 <= i < n ==> #[trigger] name[i] != 0,
        n < name.len() ==> name[n] == 0,
    ensures
        thread_text(name).len() == 22 + n + 1,
        thread_text(name).subrange(0, 22) == ascii("[mtld3d::unix] thread="),
        forall|i: int| 0 <= i < n ==> thread_text(name)[22 + i] == #[trigger] name[i],
        thread_text(name).last() == 0x0a,
{
    reveal_strlit("[mtld3d::unix] thread=");
    reveal_strlit("\n");
    lemma_c_len(name);
    let c = c_len(name) as int;
    assert(c == n) by {
        if c < n {
            assert(name[c] != 0);
        } else if n < c {
            assert(name[n] != 0);
        }
    }
    assert(thread_text(name).subrange(0, 22) =~= ascii("[mtld3d::unix] thread="));
}

/// A reader of the line finds the program counter of the fault, whatever it is.
pub proof fn law_fault_pc_reads_back(pc: u64)
    ensures
        fault_pc_text(pc).len() == 43,
        fault_pc_text(pc).subrange(0, 24) == ascii("[mtld3d::unix] fault_pc="),
        reads_as(fault_pc_text(pc), 24, pc as int),
        fault_pc_text(pc).last() == 0x0a,
{
    reveal_strlit("[mtld3d::unix] fault_pc=");
    reveal_strlit("\n");
    lemma_hex_word_len(pc);
    let text = fault_pc_text(pc);
    assert(text.subrange(0, 24) =~= ascii("[mtld3d::unix] fault_pc="));
    assert(text.subrange(24, 42) =~= hex_word(pc));
    lemma_word_reads(text, 24, pc);
}

/// A reader of the line finds each register behind its own label, whatever the
/// registers hold.
pub proof fn law_registers_read_back(rcx: u64, rax: u64, rsp: u64)
    ensures
        registers_text(rcx, rax, rsp).len() == 96,
        registers_text(rcx, rax, rsp).subrange(0, 25) == ascii("[mtld3d::unix] rcx(this)="),
        reads_as(registers_text(rcx, rax, rsp), 25, rcx as int),
        registers_text(rcx, rax, rsp).subrange(43, 54) == ascii(" rax(vtbl)="),
        reads_as(registers_text(rcx, rax, rsp), 54, rax as int),
        registers_text(rcx, rax, rsp).subrange(72, 77) == ascii(" rsp="),
        reads_as(registers_text(rcx, rax, rsp), 77, rsp as int),
        registers_text(rcx, rax, rsp).last() == 0x0a,
{
    reveal_strlit("[mtld3d::unix] rcx(this)=");
    reveal_strlit(" rax(vtbl)=");
    reveal_strlit(" rsp=");
    reveal_strlit("\n");
    lemma_hex_word_len(rcx);
    lemma_hex_word_len(rax);
    lemma_hex_word_len(rsp);
    let text = registers_text(rcx, rax, rsp);
    assert(text.subrange(0, 25) =~= ascii("[mtld3d::unix] rcx(this)="));
    assert(text.subrange(25, 43) =~= hex_word(rcx));
    assert(text.subrange(43, 54) =~= ascii(" rax(vtbl)="));
    assert(text.subrange(54, 72) =~= hex_word(rax));
    assert(text.subrange(72, 77) =~= ascii(" rsp="));
    assert(text.subrange(77, 95) =~= hex_word(rsp));
    lemma_word_reads(text, 25, rcx);
    lemma_word_reads(text, 54, rax);
    lemma_word_reads(text, 77, rsp);
}

/// A reader of the line finds the return address, whatever it is.
pub proof fn law_caller_reads_back(ret: u64)
    ensures
        caller_text(ret).len() == 50,
        caller_text(ret).subrange(0, 31) == ascii("[mtld3d::unix] caller(ret@rsp)="),
        reads_as(caller_text(ret), 31, ret as int),
        caller_text(ret).last() == 0x0a,
{
    reveal_strlit("[mtld3d::unix] caller(ret@rsp)=");
    reveal_strlit("\n");
    lemma_hex_word_len(ret);
    let text = caller_text(ret);
    assert(text.subrange(0, 31) =~= ascii("[mtld3d::unix] caller(ret@rsp)="));
    assert(text.subrange(31, 49) =~= hex_word(ret));
    lemma_word_reads(text, 31, ret);
}

/// A reader of the line finds the word of the guest's stack, whatever it is.
pub proof fn law_guest_word_reads_back(w: u32)
    ensures
        guest_word_text(w).len() == 23,
        guest_word_text(w).subrange(0, 4) == ascii("  g="),
        reads_as(guest_word_text(w), 4, w as int),
        guest_word_text(w).last() == 0x0a,
{
    reveal_strlit("  g=");
    reveal_strlit("\n");
    lemma_hex_word_len(w as u64);
    let text = guest_word_text(w);
    assert(text.subrange(0, 4) =~= ascii("  g="));
    assert(text.subrange(4, 22) =~= hex_word(w as u64));
    lemma_word_reads(text, 4, w as u64);
}

} // verus!
