//! The stack scans: a bounded walk over the words of a stack, with a cap on how
//! many of them are printed.

use vstd::prelude::*;

use crate::context::{address, address_at};

verus! {

/// How many words a scan looks at.
pub const SCAN_WORDS: u64 = 4096;

/// Distance between two words: a 32-bit stack is aligned to four bytes.
pub const SCAN_STRIDE: u64 = 4;

/// How many of our own return addresses are printed.
pub const STACK_CAP: u32 = 48;

/// How many of the guest's words are printed.
pub const GUEST_CAP: u32 = 64;

/// Words below this are no addresses.
pub const LOWEST_ADDRESS: u64 = 0x1000;

/// Whether a word of our own stack may be an address.
pub open spec fn is_address(v: u64) -> bool {
    v >= LOWEST_ADDRESS
}

/// Whether a word of the guest's stack lies where its code is loaded: among the
/// builtin modules, or in the guest's executable.
pub open spec fn is_guest_code(w: u32) -> bool {
    0x7A00_0000 <= w < 0x7C00_0000 || 0x0040_0000 <= w < 0x0080_0000
}

/// Whether a word of our own stack may be an address.
pub fn may_be_address(v: u64) -> (r: bool)
    ensures
        r == (v >= 0x1000),
        r == is_address(v),
{
    v >= LOWEST_ADDRESS
}

/// Whether a word of the guest's stack lies where its code is loaded.
pub fn in_guest_code(w: u32) -> (r: bool)
    ensures
        r == (0x7A00_0000 <= w < 0x7C00_0000 || 0x0040_0000 <= w < 0x0080_0000),
        r == is_guest_code(w),
{
    let in_builtin: bool = 0x7A00_0000 <= w && w < 0x7C00_0000;
    let in_exe: bool = 0x0040_0000 <= w && w < 0x0080_0000;
    in_builtin || in_exe
}

/// How far a scan has come.
#[derive(Clone, Copy, Debug, PartialEq, Eq, Structural)]
pub struct ScanPos {
    /// Where the stack begins.
    pub base: u64,
    /// The word that is looked at.
    pub index: u64,
    /// How many words were printed.
    pub printed: u32,
    /// How many words may be printed.
    pub cap: u32,
}

impl ScanPos {
    /// The scan has not come to its end.
    pub open spec fn wf(self) -> bool {
        self.index < SCAN_WORDS && self.printed < self.cap
    }

    /// The address of the word that is looked at.
    pub open spec fn here(self) -> u64 {
        address(self.base, self.index * SCAN_STRIDE)
    }

    /// The next position, with `more` further words printed; none at the end of
    /// the walk, or where the cap is reached.
    pub open spec fn after(self, more: int) -> Option<ScanPos> {
        if self.index + 1 < SCAN_WORDS && self.printed + more < self.cap {
            Some(
                ScanPos {
                    index: (self.index + 1) as u64,
                    printed: (self.printed + more) as u32,
                    ..self
                },
            )
        } else {
            None
        }
    }

    /// How many words are left to look at.
    pub open spec fn left(self) -> nat {
        if self.index < SCAN_WORDS {
            (SCAN_WORDS - self.index) as nat
        } else {
            0
        }
    }

    /// The first position of a scan.
    pub open spec fn first(base: u64, cap: u32) -> ScanPos {
        ScanPos { base, index: 0, printed: 0, cap }
    }

    /// The first position of a scan.
    pub fn start(base: u64, cap: u32) -> (pos: ScanPos)
        requires
            cap > 0,
        ensures
            pos == ScanPos::first(base, cap),
            pos.wf(),
    {
        ScanPos { base, index: 0, printed: 0, cap }
    }

    /// The address of the word that is looked at.
    pub fn addr(self) -> (addr: u64)
        requires
            self.wf(),
        ensures
            addr == self.here(),
    {
        address_at(self.base, self.index * SCAN_STRIDE)
    }

    /// The position after a word that was, or was not, printed.
    pub fn advance(self, printed: bool) -> (next: Option<ScanPos>)
        requires
            self.wf(),
        ensures
            next == self.after(if printed { 1 } else { 0 }),
            next is Some ==> next->0.wf(),
    {
        let index: u64 = self.index + 1;
        let total: u32 = if printed { self.printed + 1 } else { self.printed };
        if index < SCAN_WORDS && total < self.cap {
            Some(ScanPos { base: self.base, index, printed: total, cap: self.cap })
        } else {
            None
        }
    }
}

/// The words that a scan looks at lie four bytes apart, from the base on.
pub proof fn law_scan_addresses(pos: ScanPos)
    requires
        pos.wf(),
    ensures
        pos.index < 4096,
        pos.base + 4 * pos.index <= u64::MAX ==> pos.here() == pos.base + 4 * pos.index,
        pos.base + 4 * pos.index > u64::MAX ==> pos.here() == pos.base + 4 * pos.index
            - 0x1_0000_0000_0000_0000,
{
}

/// A scan goes from word to word without leaving one out, ends after the
/// 4096th, and ends earlier only where its cap is reached.
pub proof fn law_scan_visits_every_word(pos: ScanPos, more: int)
    requires
        pos.wf(),
        0 <= more <= 1,
    ensures
        pos.after(more) is None <==> pos.index == 4095 || pos.printed + more == pos.cap,
        pos.after(more) matches Some(next) ==> next.wf() && next.base == pos.base && next.cap
            == pos.cap && next.index == pos.index + 1 && next.printed == pos.printed + more,
{
}

} // verus!
