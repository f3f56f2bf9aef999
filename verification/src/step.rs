//! The dialogue between a crash report and the code that carries it out.
//!
//! The report asks for one [`Action`] at a time and is told of its result by an
//! [`Event`]. Texts are a type parameter: [`Line`] where the report runs, the
//! plain bytes where it is reasoned about; so are the thread's name and its
//! buffer.

use vstd::prelude::*;

use crate::line::Line;
use crate::text::{FaultInfo, NAME_CAP};

verus! {

/// What the report asks for.
pub enum Action<T> {
    /// Read the kernel's description of the fault, if there is one.
    ReadFaultInfo,
    /// Read the name of the faulting thread.
    ReadThreadName,
    /// Look up the register at this offset in the machine state.
    ReadRegister(u64),
    /// Read the eight bytes at this address.
    ReadWord(u64),
    /// Read the four bytes at this address.
    ReadHalfWord(u64),
    /// Find out whether this address belongs to one of our own images.
    Resolve(u64),
    /// Print the symbol at this address.
    Symbolize(u64),
    /// Print this many of the latest breadcrumbs.
    DumpCrumbs(usize),
    /// Walk the frame pointers for at most this many frames.
    Backtrace(i32),
    /// Print the symbols of this many of the frames that were walked.
    SymbolizeFrames(i32),
    /// Write this line to the standard error stream.
    Write(T),
    /// End the process with this status.
    Exit(i32),
}

/// What the report is told.
pub enum Event<N> {
    /// The action is done; it had nothing to tell.
    Done,
    /// How the kernel describes the fault.
    FaultInfo(Option<FaultInfo>),
    /// The name of the faulting thread, as a C string.
    ThreadName(N),
    /// The value of the register; 0 where it could not be read.
    Register(u64),
    /// The eight bytes at the address.
    Word(u64),
    /// The four bytes at the address.
    HalfWord(u32),
    /// Whether the address belongs to one of our own images.
    Ours(bool),
    /// How many frames were walked.
    Frames(i32),
}

/// An action over plain bytes.
pub type Act = Action<Seq<u8>>;

/// An event over plain bytes.
pub type Ev = Event<Seq<u8>>;

impl View for Action<Line> {
    type V = Act;

    open spec fn view(&self) -> Act {
        match *self {
            Action::ReadFaultInfo => Action::ReadFaultInfo,
            Action::ReadThreadName => Action::ReadThreadName,
            Action::ReadRegister(offset) => Action::ReadRegister(offset),
            Action::ReadWord(addr) => Action::ReadWord(addr),
            Action::ReadHalfWord(addr) => Action::ReadHalfWord(addr),
            Action::Resolve(addr) => Action::Resolve(addr),
            Action::Symbolize(addr) => Action::Symbolize(addr),
            Action::DumpCrumbs(n) => Action::DumpCrumbs(n),
            Action::Backtrace(n) => Action::Backtrace(n),
            Action::SymbolizeFrames(n) => Action::SymbolizeFrames(n),
            Action::Write(line) => Action::Write(line@),
            Action::Exit(status) => Action::Exit(status),
        }
    }
}

impl View for Event<[u8; NAME_CAP]> {
    type V = Ev;

    open spec fn view(&self) -> Ev {
        match *self {
            Event::Done => Event::Done,
            Event::FaultInfo(info) => Event::FaultInfo(info),
            Event::ThreadName(name) => Event::ThreadName(name@),
            Event::Register(v) => Event::Register(v),
            Event::Word(v) => Event::Word(v),
            Event::HalfWord(v) => Event::HalfWord(v),
            Event::Ours(ours) => Event::Ours(ours),
            Event::Frames(n) => Event::Frames(n),
        }
    }
}

/// A process at the moment of its crash: what each action finds there.
pub struct World {
    pub info: Option<FaultInfo>,
    pub name: Seq<u8>,
    pub register: spec_fn(u64) -> u64,
    pub word: spec_fn(u64) -> u64,
    pub half: spec_fn(u64) -> u32,
    pub ours: spec_fn(u64) -> bool,
    pub frames: i32,
}

/// The event that an action leads to.
pub open spec fn answer(w: World, action: Act) -> Ev {
    match action {
        Action::ReadFaultInfo => Event::FaultInfo(w.info),
        Action::ReadThreadName => Event::ThreadName(w.name),
        Action::ReadRegister(offset) => Event::Register((w.register)(offset)),
        Action::ReadWord(addr) => Event::Word((w.word)(addr)),
        Action::ReadHalfWord(addr) => Event::HalfWord((w.half)(addr)),
        Action::Resolve(addr) => Event::Ours((w.ours)(addr)),
        Action::Backtrace(_) => Event::Frames(w.frames),
        _ => Event::Done,
    }
}

} // verus!
