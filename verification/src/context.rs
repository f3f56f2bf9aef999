//! The registers of the faulting thread, found through the signal context.
//!
//! The context that a handler is given holds, 0x30 bytes in, a pointer to the
//! saved machine state; a register lies at a fixed offset inside that. Reading
//! the memory is the caller's part: a lookup says which address it needs and
//! takes the word that was read there.

use vstd::prelude::*;

verus! {

/// The architecture that the handler runs on.
#[derive(Clone, Copy, Debug, PartialEq, Eq, Structural)]
pub enum Arch {
    X86_64,
    Aarch64,
    /// Anything whose machine state cannot be decoded.
    Other,
}

/// Offset of the machine-state pointer in the signal context.
pub const MCONTEXT_FIELD: u64 = 0x30;

/// Offset of `rax` in the machine state of `x86_64`.
pub const RAX_OFFSET: u64 = 16;

/// Offset of `rcx` in the machine state of `x86_64`.
pub const RCX_OFFSET: u64 = 32;

/// Offset of `rsp` in the machine state of `x86_64`.
pub const RSP_OFFSET: u64 = 72;

/// Offset of `rip` in the machine state of `x86_64`.
pub const RIP_OFFSET: u64 = 144;

/// Offset of `sp` in the machine state of `aarch64`.
pub const SP_OFFSET: u64 = 264;

/// Offset of `pc` in the machine state of `aarch64`.
pub const PC_OFFSET: u64 = 272;

impl Arch {
    /// Where the program counter is saved, if that is known.
    pub open spec fn pc_field(self) -> Option<u64> {
        match self {
            Arch::X86_64 => Some(RIP_OFFSET),
            Arch::Aarch64 => Some(PC_OFFSET),
            Arch::Other => None,
        }
    }

    /// Where the stack pointer is saved, if that is known.
    pub open spec fn sp_field(self) -> Option<u64> {
        match self {
            Arch::X86_64 => Some(RSP_OFFSET),
            Arch::Aarch64 => Some(SP_OFFSET),
            Arch::Other => None,
        }
    }

    /// Where the program counter is saved, if that is known.
    pub fn pc_offset(self) -> (offset: Option<u64>)
        ensures
            offset == self.pc_field(),
    {
        match self {
            Arch::X86_64 => Some(RIP_OFFSET),
            Arch::Aarch64 => Some(PC_OFFSET),
            Arch::Other => None,
        }
    }

    /// Where the stack pointer is saved, if that is known.
    pub fn sp_offset(self) -> (offset: Option<u64>)
        ensures
            offset == self.sp_field(),
    {
        match self {
            Arch::X86_64 => Some(RSP_OFFSET),
            Arch::Aarch64 => Some(SP_OFFSET),
            Arch::Other => None,
        }
    }
}

/// The address `offset` bytes behind `base`, as the machine adds them.
pub open spec fn address(base: u64, offset: int) -> u64 {
    ((base + offset) % 0x1_0000_0000_0000_0000) as u64
}

/// The address `offset` bytes behind `base`, as the machine adds them.
pub fn address_at(base: u64, offset: u64) -> (addr: u64)
    ensures
        addr == (if base + offset <= u64::MAX {
            base + offset
        } else {
            base + offset - 0x1_0000_0000_0000_0000
        }),
        addr == address(base, offset as int),
{
    base.wrapping_add(offset)
}

/// What a lookup still waits for.
#[derive(Clone, Copy, Debug, PartialEq, Eq, Structural)]
pub enum Pending {
    /// The pointer to the machine state, in which the register has this offset.
    MachineState { offset: u64 },
    /// The register.
    Register,
}

/// The state of a lookup.
#[derive(Clone, Copy, Debug, PartialEq, Eq, Structural)]
pub enum Lookup {
    /// The word at this address is needed.
    Read { addr: u64, pending: Pending },
    /// The register's value; 0 where the context could not be read.
    Value(u64),
}

/// How a lookup of the register at `offset` begins.
pub open spec fn begun(ctx: u64, offset: u64) -> Lookup {
    if ctx == 0 {
        Lookup::Value(0)
    } else {
        Lookup::Read {
            addr: address(ctx, MCONTEXT_FIELD as int),
            pending: Pending::MachineState { offset },
        }
    }
}

/// Begins to look up the register at `offset` in the machine state behind the
/// signal context at `ctx`.
pub fn mcontext_u64(ctx: u64, offset: u64) -> (lookup: Lookup)
    ensures
        lookup == begun(ctx, offset),
{
    if ctx == 0 {
        return Lookup::Value(0);
    }
    Lookup::Read {
        addr: address_at(ctx, MCONTEXT_FIELD),
        pending: Pending::MachineState { offset },
    }
}

/// How a lookup goes on once the word it needed was read.
pub open spec fn resumed(pending: Pending, word: u64) -> Lookup {
    match pending {
        Pending::MachineState { offset } => if word == 0 {
            Lookup::Value(0)
        } else {
            Lookup::Read { addr: address(word, offset as int), pending: Pending::Register }
        },
        Pending::Register => Lookup::Value(word),
    }
}

/// Continues a lookup with the word at the address it needed.
pub fn mcontext_resume(pending: Pending, word: u64) -> (lookup: Lookup)
    ensures
        lookup == resumed(pending, word),
{
    match pending {
        Pending::MachineState { offset } => {
            if word == 0 {
                return Lookup::Value(0);
            }
            Lookup::Read { addr: address_at(word, offset), pending: Pending::Register }
        },
        Pending::Register => Lookup::Value(word),
    }
}

/// An address is the sum of its base and its offset, as integers, wherever the
/// sum fits a word; beyond that it wraps around once.
pub proof fn law_address_is_the_sum(base: u64, offset: int)
    requires
        0 <= offset <= u64::MAX,
    ensures
        base + offset <= u64::MAX ==> address(base, offset) == base + offset,
        base + offset > u64::MAX ==> address(base, offset) == base + offset
            - 0x1_0000_0000_0000_0000,
{
}

/// A lookup reads the word 0x30 bytes into the context, then the word `offset`
/// bytes into the state that the first one points to, and comes to the second
/// word. A null pointer on the way makes it come to 0.
pub proof fn law_lookup_reads_two_words(ctx: u64, offset: u64, state: u64, value: u64)
    ensures
        ctx == 0 ==> begun(ctx, offset) == Lookup::Value(0),
        ctx != 0 ==> {
            &&& begun(ctx, offset) is Read
            &&& ctx + 0x30 <= u64::MAX ==> begun(ctx, offset)->addr == ctx + 0x30
            &&& ({
                let then = resumed(begun(ctx, offset)->pending, state);
                &&& state == 0 ==> then == Lookup::Value(0)
                &&& state != 0 ==> {
                    &&& then is Read
                    &&& state + offset <= u64::MAX ==> then->addr == state + offset
                    &&& resumed(then->pending, value) == Lookup::Value(value)
                }
            })
        },
{
}

/// The register at `offset` in the machine state behind the context at `ctx`,
/// in a memory that holds `memory(a)` at the address `a`.
pub open spec fn register(memory: spec_fn(u64) -> u64, ctx: u64, offset: u64) -> u64 {
    let state = memory(address(ctx, MCONTEXT_FIELD as int));
    if ctx == 0 || state == 0 {
        0
    } else {
        memory(address(state, offset as int))
    }
}

/// The value that a lookup comes to in a memory.
pub open spec fn outcome(memory: spec_fn(u64) -> u64, lookup: Lookup) -> u64
    decreases
            (match lookup {
                Lookup::Value(_) => 0int,
                Lookup::Read { pending: Pending::Register, .. } => 1int,
                Lookup::Read { .. } => 2int,
            }),
{
    match lookup {
        Lookup::Value(v) => v,
        Lookup::Read { addr, pending } => outcome(memory, resumed(pending, memory(addr))),
    }
}

/// A lookup comes to the register's value, and to 0 where either pointer on the
/// way is null.
pub proof fn law_lookup_finds_register(memory: spec_fn(u64) -> u64, ctx: u64, offset: u64)
    ensures
        outcome(memory, begun(ctx, offset)) == register(memory, ctx, offset),
{
    reveal_with_fuel(outcome, 3);
}

/// Where the program counter and the stack pointer are saved: behind the 16
/// bytes of the exception state, as the registers of 8 bytes each that they are.
pub proof fn law_register_places()
    ensures
        Arch::X86_64.pc_field() == Some((16 + 8 * 16) as u64),
        Arch::X86_64.sp_field() == Some((16 + 8 * 7) as u64),
        Arch::Aarch64.pc_field() == Some((16 + 8 * 32) as u64),
        Arch::Aarch64.sp_field() == Some((16 + 8 * 31) as u64),
        Arch::Other.pc_field() is None,
        Arch::Other.sp_field() is None,
        RAX_OFFSET == 16,
        RCX_OFFSET == 16 + 8 * 2,
        RSP_OFFSET == 16 + 8 * 7,
{
}

} // verus!
