//! The fatal signals: their numbers on this host, their names, and which of
//! them the crash handler is installed for.

use vstd::prelude::*;
use vstd::utf8::{is_ascii_chars, is_ascii_chars_encode_utf8};

use crate::line::ascii;

verus! {

/// A signal, as far as the crash handler tells signals apart.
#[derive(Clone, Copy, Debug, PartialEq, Eq, Structural)]
pub enum Signal {
    Segv,
    Bus,
    Abrt,
    Other,
}

/// The name that a report gives a signal.
pub open spec fn name_text(signal: Signal) -> Seq<u8> {
    match signal {
        Signal::Segv => ascii("SIGSEGV"),
        Signal::Bus => ascii("SIGBUS"),
        Signal::Abrt => ascii("SIGABRT"),
        Signal::Other => ascii("SIG?"),
    }
}

/// The bytes of a text literal that holds only ASCII.
fn literal(text: &'static str) -> (bytes: &'static [u8])
    requires
        is_ascii_chars(text@),
    ensures
        bytes@ == ascii(text),
{
    let bytes = text.as_bytes();
    proof {
        is_ascii_chars_encode_utf8(text@);
        assert(bytes@ =~= ascii(text));
    }
    bytes
}

impl Signal {
    /// The name of the signal in a report.
    pub fn name(self) -> (name: &'static [u8])
        ensures
            name@ == name_text(self),
    {
        proof {
            reveal_strlit("SIGSEGV");
            reveal_strlit("SIGBUS");
            reveal_strlit("SIGABRT");
            reveal_strlit("SIG?");
        }
        match self {
            Signal::Segv => literal("SIGSEGV"),
            Signal::Bus => literal("SIGBUS"),
            Signal::Abrt => literal("SIGABRT"),
            Signal::Other => literal("SIG?"),
        }
    }

    /// Whether the kernel describes the fault behind this signal by an address
    /// and a code.
    pub open spec fn is_fault(self) -> bool {
        self == Signal::Segv || self == Signal::Bus
    }

    /// Whether the kernel describes the fault behind this signal by an address
    /// and a code.
    pub fn has_fault_info(self) -> (r: bool)
        ensures
            r == self.is_fault(),
    {
        self == Signal::Segv || self == Signal::Bus
    }
}

/// The numbers that a host gives the fatal signals.
#[derive(Clone, Copy, Debug, PartialEq, Eq, Structural)]
pub struct SignalTable {
    pub segv: i32,
    pub bus: i32,
    pub abrt: i32,
}

impl SignalTable {
    /// The three signals have three numbers.
    pub open spec fn wf(self) -> bool {
        &&& self.segv != self.bus
        &&& self.segv != self.abrt
        &&& self.bus != self.abrt
    }

    /// What is known of the numbers on the hosts that this library builds for.
    pub open spec fn is_host(self) -> bool {
        &&& self.segv == 11
        &&& self.abrt == 6
        &&& self.bus == 7 || self.bus == 10 || self.bus == 30
    }

    /// The signal that a number stands for.
    pub open spec fn signal_of(self, signo: i32) -> Signal {
        if signo == self.segv {
            Signal::Segv
        } else if signo == self.bus {
            Signal::Bus
        } else if signo == self.abrt {
            Signal::Abrt
        } else {
            Signal::Other
        }
    }

    /// The signal that a number stands for.
    pub fn classify(&self, signo: i32) -> (signal: Signal)
        ensures
            signal == self.signal_of(signo),
    {
        if signo == self.segv {
            Signal::Segv
        } else if signo == self.bus {
            Signal::Bus
        } else if signo == self.abrt {
            Signal::Abrt
        } else {
            Signal::Other
        }
    }
}

/// `libc::SIGSEGV`: 11 on every target for which libc defines it.
#[verifier::external_body]
fn libc_sigsegv() -> (signo: i32)
    ensures
        signo == 11,
{
    libc::SIGSEGV
}

/// `libc::SIGBUS`: 7, 10 or 30, by the target.
#[verifier::external_body]
fn libc_sigbus() -> (signo: i32)
    ensures
        signo == 7 || signo == 10 || signo == 30,
{
    libc::SIGBUS
}

/// `libc::SIGABRT`: 6 on every target for which libc also defines `SIGBUS`,
/// without which this library does not build.
#[verifier::external_body]
fn libc_sigabrt() -> (signo: i32)
    ensures
        signo == 6,
{
    libc::SIGABRT
}

/// The numbers of the fatal signals on this host.
pub fn host_signals() -> (table: SignalTable)
    ensures
        table.is_host(),
        table.wf(),
{
    SignalTable { segv: libc_sigsegv(), bus: libc_sigbus(), abrt: libc_sigabrt() }
}

/// The signal that a number stands for on this host.
pub fn classify_signal(signo: i32) -> (signal: Signal)
    ensures
        exists|table: SignalTable| #[trigger]
            table.is_host() && table.wf() && signal == table.signal_of(signo),
        signal == Signal::Segv <==> signo == 11,
        signal == Signal::Abrt <==> signo == 6,
{
    let table = host_signals();
    table.classify(signo)
}

/// The name that a report gives the signal with this number on this host.
pub fn signal_name(signo: i32) -> (name: &'static [u8])
    ensures
        exists|table: SignalTable| #[trigger]
            table.is_host() && table.wf() && name@ == name_text(table.signal_of(signo)),
        signo == 11 ==> name@ == ascii("SIGSEGV"),
        signo == 6 ==> name@ == ascii("SIGABRT"),
{
    let table = host_signals();
    let signal = table.classify(signo);
    signal.name()
}

/// What installing the crash handler amounts to.
pub struct InstallPlan {
    /// The value to give `RUST_BACKTRACE`, where it is to be set.
    pub backtrace: Option<&'static str>,
    /// The signals to install the handler for, in this order.
    pub signals: Vec<i32>,
}

/// The numbers that the handler is installed for.
pub open spec fn planned_signals(table: SignalTable, no_crash_handler_is_set: bool) -> Seq<i32> {
    if no_crash_handler_is_set {
        seq![table.abrt]
    } else {
        seq![table.segv, table.bus, table.abrt]
    }
}

/// Plans the installation of the crash handler.
///
/// `RUST_BACKTRACE` is set to `1` unless the user has set it, so that a panic
/// prints its message and a backtrace before it aborts. Where the user asks for the handler to
/// stay out of the way, segmentation and bus faults are left alone; an abort
/// is always caught.
pub fn install_plan(
    table: &SignalTable,
    backtrace_is_set: bool,
    no_crash_handler_is_set: bool,
) -> (plan: InstallPlan)
    ensures
        backtrace_is_set ==> plan.backtrace is None,
        !backtrace_is_set ==> plan.backtrace is Some && plan.backtrace->0@ == "1"@,
        plan.signals@ == planned_signals(*table, no_crash_handler_is_set),
{
    let backtrace = if backtrace_is_set { None } else { Some("1") };
    let mut signals: Vec<i32> = Vec::new();
    if !no_crash_handler_is_set {
        signals.push(table.segv);
        signals.push(table.bus);
    }
    signals.push(table.abrt);
    InstallPlan { backtrace, signals }
}

/// An abort is caught whatever the environment holds, and whatever is caught
/// has a name of its own in the report.
pub proof fn law_planned_signals_are_named(table: SignalTable, no_crash_handler_is_set: bool)
    requires
        table.wf(),
    ensures
        planned_signals(table, no_crash_handler_is_set).contains(table.abrt),
        forall|i: int|
            0 <= i < planned_signals(table, no_crash_handler_is_set).len() ==> table.signal_of(
                #[trigger] planned_signals(table, no_crash_handler_is_set)[i],
            ) != Signal::Other,
{
    let signals = planned_signals(table, no_crash_handler_is_set);
    assert(signals[signals.len() - 1] == table.abrt);
}

/// Each number of the table stands for its own signal, and any other number for
/// none of them.
pub proof fn law_numbers_stand_for_their_signals(table: SignalTable, signo: i32)
    requires
        table.wf(),
    ensures
        table.signal_of(table.segv) == Signal::Segv,
        table.signal_of(table.bus) == Signal::Bus,
        table.signal_of(table.abrt) == Signal::Abrt,
        signo != table.segv && signo != table.bus && signo != table.abrt ==> table.signal_of(signo)
            == Signal::Other,
{
}

/// The handler is installed once for each of the three signals; only for the
/// abort where the faults are to be left alone; and for nothing else.
pub proof fn law_plan_holds_exactly_the_signals(
    table: SignalTable,
    no_crash_handler_is_set: bool,
    signo: i32,
)
    requires
        table.wf(),
    ensures
        ({
            let signals = planned_signals(table, no_crash_handler_is_set);
            &&& signals.no_duplicates()
            &&& signals.contains(signo) <==> signo == table.abrt || (!no_crash_handler_is_set && (
            signo == table.segv || signo == table.bus))
        }),
{
    let signals = planned_signals(table, no_crash_handler_is_set);
    assert(signals[signals.len() - 1] == table.abrt);
    if !no_crash_handler_is_set {
        assert(signals[0] == table.segv);
        assert(signals[1] == table.bus);
    }
}

/// The names are those of the C library, and `SIG?` for any other signal.
pub proof fn law_names_are_those_of_the_signals()
    ensures
        name_text(Signal::Segv) == seq![0x53u8, 0x49, 0x47, 0x53, 0x45, 0x47, 0x56],
        name_text(Signal::Bus) == seq![0x53u8, 0x49, 0x47, 0x42, 0x55, 0x53],
        name_text(Signal::Abrt) == seq![0x53u8, 0x49, 0x47, 0x41, 0x42, 0x52, 0x54],
        name_text(Signal::Other) == seq![0x53u8, 0x49, 0x47, 0x3f],
{
    reveal_strlit("SIGSEGV");
    reveal_strlit("SIGBUS");
    reveal_strlit("SIGABRT");
    reveal_strlit("SIG?");
    assert(name_text(Signal::Segv) =~= seq![0x53u8, 0x49, 0x47, 0x53, 0x45, 0x47, 0x56]);
    assert(name_text(Signal::Bus) =~= seq![0x53u8, 0x49, 0x47, 0x42, 0x55, 0x53]);
    assert(name_text(Signal::Abrt) =~= seq![0x53u8, 0x49, 0x47, 0x41, 0x42, 0x52, 0x54]);
    assert(name_text(Signal::Other) =~= seq![0x53u8, 0x49, 0x47, 0x3f]);
}

/// Each signal has a name of its own.
pub proof fn law_names_differ(a: Signal, b: Signal)
    requires
        name_text(a) == name_text(b),
    ensures
        a == b,
{
    reveal_strlit("SIGSEGV");
    reveal_strlit("SIGBUS");
    reveal_strlit("SIGABRT");
    reveal_strlit("SIG?");
    assert(ascii("SIGSEGV").len() == 7 && ascii("SIGSEGV")[3] == 'S' as u8);
    assert(ascii("SIGABRT").len() == 7 && ascii("SIGABRT")[3] == 'A' as u8);
    assert(ascii("SIGBUS").len() == 6);
    assert(ascii("SIG?").len() == 4);
}

} // verus!
