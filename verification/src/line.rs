//! Report lines: bytes and hexadecimal words appended to a fixed buffer.
//!
//! Everything here runs inside a signal handler, so nothing allocates: a line
//! is an array of [`LINE_CAP`] bytes and the count of bytes in use.

use vstd::arithmetic::div_mod::{lemma_div_denominator, lemma_mod_breakdown, lemma_small_mod};
use vstd::arithmetic::power::{lemma_pow_positive, pow};
use vstd::prelude::*;
use vstd::utf8::{is_ascii_chars, is_ascii_chars_encode_utf8};

verus! {

/// Size of the buffer behind every report line.
pub const LINE_CAP: usize = 192;

/// Bytes that one hexadecimal word takes: `0x` and sixteen digits.
pub const HEX_WIDTH: usize = 18;

/// The digits of [`push_hex`], in lower case.
pub const HEX_DIGITS: [u8; 16] = [
    0x30, 0x31, 0x32, 0x33, 0x34, 0x35, 0x36, 0x37, 0x38, 0x39, 0x61, 0x62, 0x63, 0x64, 0x65, 0x66,
];

/// The bytes of an ASCII text.
pub open spec fn ascii(text: &str) -> Seq<u8> {
    text@.map_values(|c: char| c as u8)
}

/// How many of `n` further bytes still fit behind the first `pos` bytes of a line.
pub open spec fn room_for(pos: int, n: int) -> int {
    if n <= LINE_CAP - pos {
        n
    } else {
        LINE_CAP - pos
    }
}

/// The character of the hexadecimal digit `n`.
pub open spec fn hex_digit(n: int) -> u8
    recommends
        0 <= n < 16,
{
    if n < 10 {
        ('0' as int + n) as u8
    } else {
        ('a' as int + (n - 10)) as u8
    }
}

/// The last `width` digits of `v` in base sixteen, most significant first.
pub open spec fn hex_digits(v: nat, width: nat) -> Seq<u8>
    decreases width,
{
    if width == 0 {
        seq![]
    } else {
        hex_digits(v / 16, (width - 1) as nat).push(hex_digit((v % 16) as int))
    }
}

/// A word as it appears in a report: `0x` and all sixteen digits.
pub open spec fn hex_word(v: u64) -> Seq<u8> {
    ascii("0x") + hex_digits(v as nat, 16)
}

/// The number that the character of a hexadecimal digit stands for.
pub open spec fn digit_value(c: u8) -> nat {
    if '0' as u8 <= c <= '9' as u8 {
        (c - '0' as u8) as nat
    } else {
        (c - 'a' as u8 + 10) as nat
    }
}

/// The number that a text of hexadecimal digits stands for.
pub open spec fn hex_value(digits: Seq<u8>) -> nat
    decreases digits.len(),
{
    if digits.len() == 0 {
        0
    } else {
        hex_value(digits.drop_last()) * 16 + digit_value(digits.last())
    }
}

/// A reader of `text` finds the number `v` at position `at`: `0x`, and sixteen
/// digits that read as `v`.
pub open spec fn reads_as(text: Seq<u8>, at: int, v: int) -> bool {
    &&& 0 <= at <= text.len() - 18
    &&& text[at] == 0x30
    &&& text[at + 1] == 0x78
    &&& hex_value(text.subrange(at + 2, at + 18)) == v
}

/// A word that stands in a text is read there.
pub proof fn lemma_word_reads(text: Seq<u8>, at: int, v: u64)
    requires
        0 <= at <= text.len() - 18,
        text.subrange(at, at + 18) == hex_word(v),
    ensures
        reads_as(text, at, v as int),
{
    law_hex_word_round_trip(v);
    law_hex_word_digits(v, 0);
    let word = text.subrange(at, at + 18);
    assert(word[0] == text[at] && word[1] == text[at + 1]);
    assert(text.subrange(at + 2, at + 18) =~= hex_word(v).skip(2));
}

/// The digits of a number have the width that was asked for.
pub proof fn lemma_hex_digits_len(v: nat, width: nat)
    ensures
        hex_digits(v, width).len() == width,
    decreases width,
{
    if width > 0 {
        lemma_hex_digits_len(v / 16, (width - 1) as nat);
    }
}

/// A word always takes [`HEX_WIDTH`] bytes.
pub proof fn lemma_hex_word_len(v: u64)
    ensures
        hex_word(v).len() == HEX_WIDTH,
{
    reveal_strlit("0x");
    lemma_hex_digits_len(v as nat, 16);
}

/// Digits read back as the number they were written from, up to the width.
proof fn lemma_hex_digits_value(v: nat, width: nat)
    ensures
        hex_value(hex_digits(v, width)) == v % pow(16, width) as nat,
    decreases width,
{
    lemma_pow16(width);
    if width > 0 {
        let w = (width - 1) as nat;
        let d = hex_digits(v, width);
        lemma_hex_digits_value(v / 16, w);
        lemma_hex_digits_len(v, width);
        assert(d.drop_last() =~= hex_digits(v / 16, w));
        assert(digit_value(hex_digit((v % 16) as int)) == v % 16);
        let p = pow(16, w);
        lemma_pow16(w);
        lemma_mod_breakdown(v as int, 16, p);
        assert(16 * p == pow(16, width));
    }
}

/// Unfolds the powers of sixteen.
proof fn lemma_pow16(width: nat)
    ensures
        pow(16, width) > 0,
        width == 0 ==> pow(16, width) == 1,
        width > 0 ==> pow(16, width) == 16
            * pow(16, (width - 1) as nat),
{
    reveal(pow);
    lemma_pow_positive(16, width);
}

/// Every word can be read back from its report text.
pub proof fn law_hex_word_round_trip(v: u64)
    ensures
        hex_word(v).take(2) == ascii("0x"),
        hex_value(hex_word(v).skip(2)) == v,
{
    reveal_strlit("0x");
    lemma_hex_digits_len(v as nat, 16);
    lemma_hex_digits_value(v as nat, 16);
    assert(pow(16, 16) == 0x1_0000_0000_0000_0000) by {
        reveal_with_fuel(pow, 17);
    }
    lemma_small_mod(v as nat, 0x1_0000_0000_0000_0000);
    assert(hex_word(v).skip(2) =~= hex_digits(v as nat, 16));
    assert(hex_word(v).take(2) =~= ascii("0x"));
}

/// The digit at each place is the nibble of the word at that place, most
/// significant first, in lower case.
pub proof fn law_hex_word_digits(v: u64, k: int)
    requires
        0 <= k < 16,
    ensures
        hex_word(v).len() == 18,
        hex_word(v)[0] == 0x30,
        hex_word(v)[1] == 0x78,
        ({
            let nibble = (v as int / pow(16, (15 - k) as nat)) % 16;
            hex_word(v)[2 + k] as int == (if nibble < 10 {
                0x30 + nibble
            } else {
                0x61 + nibble - 10
            })
        }),
{
    reveal_strlit("0x");
    lemma_hex_word_len(v);
    lemma_hex_digit_at(v as nat, 16, k);
    assert(hex_word(v)[2 + k] == hex_digits(v as nat, 16)[k]);
}

proof fn lemma_hex_digit_at(v: nat, width: nat, k: int)
    requires
        0 <= k < width,
    ensures
        hex_digits(v, width).len() == width,
        hex_digits(v, width)[k] == hex_digit((v as int / pow(16, (width - 1 - k) as nat)) % 16),
    decreases width,
{
    let w = (width - 1) as nat;
    lemma_hex_digits_len(v, width);
    lemma_hex_digits_len(v / 16, w);
    if k == w {
        lemma_pow16(0);
        assert(pow(16, (width - 1 - k) as nat) == 1);
    } else {
        lemma_hex_digit_at(v / 16, w, k);
        let n = (w - 1 - k) as nat;
        lemma_pow16(n);
        lemma_pow16(n + 1);
        lemma_div_denominator(v as int, 16, pow(16, n));
        assert((width - 1 - k) as nat == n + 1);
    }
}

/// Two words with the same report text are the same word.
pub proof fn law_hex_word_injective(v: u64, w: u64)
    requires
        hex_word(v) == hex_word(w),
    ensures
        v == w,
{
    law_hex_word_round_trip(v);
    law_hex_word_round_trip(w);
}

/// Appends `bytes` at `pos`, as many of them as the buffer still holds.
pub fn push(buf: &mut [u8; LINE_CAP], pos: &mut usize, bytes: &[u8])
    requires
        *old(pos) <= LINE_CAP,
    ensures
        *final(pos) == (if *old(pos) + bytes@.len() <= 192 {
            *old(pos) + bytes@.len()
        } else {
            192
        }),
        forall|i: int|
            *old(pos) <= i < *final(pos) ==> #[trigger] final(buf)@[i] == bytes@[i - *old(pos)],
        forall|i: int|
            0 <= i < *old(pos) || *final(pos) <= i < 192 ==> #[trigger] final(buf)@[i] == old(
                buf,
            )@[i],
        *final(pos) == *old(pos) + room_for(*old(pos) as int, bytes@.len() as int),
        final(buf)@ == old(buf)@.take(*old(pos) as int) + bytes@.take(
            room_for(*old(pos) as int, bytes@.len() as int),
        ) + old(buf)@.skip(*final(pos) as int),
{
    let avail: usize = LINE_CAP - *pos;
    let take: usize = if bytes.len() <= avail { bytes.len() } else { avail };
    let ghost start = *pos as int;
    let ghost before = buf@;
    let mut i: usize = 0;
    while i < take
        invariant
            i <= take <= bytes@.len(),
            *pos == start,
            start + take <= LINE_CAP,
            before.len() == LINE_CAP,
            buf@ =~= before.take(start) + bytes@.take(i as int) + before.skip(start + i),
        decreases take - i,
    {
        buf[*pos + i] = bytes[i];
        i += 1;
    }
    *pos += take;
}

/// Appends `v` as `0x` and sixteen digits, or nothing where these do not fit.
pub fn push_hex(buf: &mut [u8; LINE_CAP], pos: &mut usize, v: u64)
    requires
        *old(pos) + HEX_WIDTH <= usize::MAX,
    ensures
        *old(pos) + HEX_WIDTH > LINE_CAP ==> *final(pos) == *old(pos) && final(buf)@ == old(buf)@,
        *old(pos) + HEX_WIDTH <= LINE_CAP ==> {
            &&& *final(pos) == *old(pos) + HEX_WIDTH
            &&& final(buf)@ == old(buf)@.take(*old(pos) as int) + hex_word(v) + old(buf)@.skip(
                *final(pos) as int,
            )
        },
{
    if *pos + HEX_WIDTH > LINE_CAP {
        return ;
    }
    let ghost start = *pos as int;
    let ghost before = buf@;
    buf[*pos] = 0x30;
    buf[*pos + 1] = 0x78;
    *pos += 2;
    let mut i: u64 = 16;
    assert(v >> 64 == 0) by (bit_vector);
    proof {
        reveal_strlit("0x");
        assert(hex_digits(0, 0) =~= seq![]);
    }
    while i > 0
        invariant
            i <= 16,
            *pos == start + HEX_WIDTH - i,
            start + HEX_WIDTH <= LINE_CAP,
            before.len() == LINE_CAP,
            ascii("0x").len() == 2,
            hex_digits((v >> (4 * i)) as nat, (16 - i) as nat).len() == 16 - i,
            buf@ =~= before.take(start) + ascii("0x") + hex_digits(
                (v >> (4 * i)) as nat,
                (16 - i) as nat,
            ) + before.skip(start + HEX_WIDTH - i),
        decreases i,
    {
        let ghost above = i;
        i -= 1;
        let nib: u64 = (v >> (i * 4)) & 0xf;
        proof {
            let w = v >> (4 * i);
            assert(4 * i == i * 4);
            assert(w & 0xf == w % 16 && (w & 0xf) < 16) by (bit_vector);
            assert(w / 16 == v >> (4 * above)) by (bit_vector)
                requires
                    w == v >> (4 * i),
                    above == i + 1,
                    above <= 16,
            ;
            lemma_hex_digits_len(w as nat, (16 - i) as nat);
        }
        buf[*pos] = HEX_DIGITS[nib as usize];
        *pos += 1;
    }
    assert(v >> 0 == v) by (bit_vector);
}

/// One line of a report.
pub struct Line {
    pub buf: [u8; LINE_CAP],
    pub len: usize,
}

impl View for Line {
    type V = Seq<u8>;

    /// The bytes in use.
    open spec fn view(&self) -> Seq<u8> {
        self.buf@.take(self.len as int)
    }
}

impl Line {
    /// The bytes in use lie inside the buffer.
    pub open spec fn wf(self) -> bool {
        self.len <= LINE_CAP
    }

    /// An empty line.
    pub fn new() -> (line: Line)
        ensures
            line.wf(),
            line@ == Seq::<u8>::empty(),
    {
        Line { buf: [0u8; LINE_CAP], len: 0 }
    }

    /// Appends `bytes`, as many of them as the line still holds.
    pub fn push_bytes(&mut self, bytes: &[u8])
        requires
            old(self).wf(),
        ensures
            final(self).wf(),
            final(self)@ == old(self)@ + bytes@.take(
                room_for(old(self)@.len() as int, bytes@.len() as int),
            ),
    {
        push(&mut self.buf, &mut self.len, bytes);
    }

    /// Appends an ASCII text that still fits.
    pub fn push_text(&mut self, text: &str)
        requires
            old(self).wf(),
            is_ascii_chars(text@),
            old(self)@.len() + text@.len() <= LINE_CAP,
        ensures
            final(self).wf(),
            final(self)@ == old(self)@ + ascii(text),
    {
        let bytes = text.as_bytes();
        proof {
            is_ascii_chars_encode_utf8(text@);
            assert(bytes@ =~= ascii(text));
            assert(bytes@.take(bytes@.len() as int) =~= bytes@);
        }
        self.push_bytes(bytes);
    }

    /// Appends a word that still fits.
    pub fn push_word(&mut self, v: u64)
        requires
            old(self).wf(),
            old(self)@.len() + HEX_WIDTH <= LINE_CAP,
        ensures
            final(self).wf(),
            final(self)@ == old(self)@ + hex_word(v),
    {
        proof {
            lemma_hex_word_len(v);
        }
        push_hex(&mut self.buf, &mut self.len, v);
    }
}

} // verus!
