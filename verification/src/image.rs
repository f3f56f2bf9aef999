//! Which loaded image an address belongs to: C strings, and the search for our
//! own name in an image's path.

use vstd::prelude::*;

use crate::line::ascii;

verus! {

/// The name that the paths of our own images hold: `mtld3d`.
pub const NEEDLE: [u8; 6] = [0x6d, 0x74, 0x6c, 0x64, 0x33, 0x64];

/// The length of the C string at the start of `bytes`: up to the first NUL, or
/// all of `bytes` where there is none.
pub open spec fn c_len(bytes: Seq<u8>) -> nat
    decreases bytes.len(),
{
    if bytes.len() == 0 || bytes[0] == 0 {
        0
    } else {
        1 + c_len(bytes.drop_first())
    }
}

/// The C string at the start of `bytes`, without its NUL.
pub open spec fn c_str(bytes: Seq<u8>) -> Seq<u8> {
    bytes.take(c_len(bytes) as int)
}

/// A C string ends at the first NUL and nowhere else.
pub proof fn lemma_c_len(bytes: Seq<u8>)
    ensures
        c_len(bytes) <= bytes.len(),
        forall|i: int| 0 <= i < c_len(bytes) ==> bytes[i] != 0,
        c_len(bytes) < bytes.len() ==> bytes[c_len(bytes) as int] == 0,
    decreases bytes.len(),
{
    if bytes.len() != 0 && bytes[0] != 0 {
        let rest = bytes.drop_first();
        lemma_c_len(rest);
        assert forall|i: int| 0 <= i < c_len(bytes) implies bytes[i] != 0 by {
            if i > 0 {
                assert(bytes[i] == rest[i - 1]);
            }
        }
    }
}

/// The length of the C string at the start of `bytes`.
pub fn c_str_len(bytes: &[u8]) -> (n: usize)
    ensures
        n == c_len(bytes@),
        n <= bytes@.len(),
{
    proof {
        lemma_c_len(bytes@);
    }
    let mut n: usize = 0;
    while n < bytes.len() && bytes[n] != 0
        invariant
            n <= bytes@.len(),
            forall|i: int| 0 <= i < n ==> bytes@[i] != 0,
        decreases bytes@.len() - n,
    {
        n += 1;
    }
    n
}

/// `needle` occurs somewhere in `text`.
pub open spec fn occurs(needle: Seq<u8>, text: Seq<u8>) -> bool {
    exists|i: int|
        0 <= i <= text.len() - needle.len() && #[trigger] text.subrange(i, i + needle.len())
            == needle
}

/// An image is ours where its path holds our name.
pub open spec fn path_is_ours(path: Seq<u8>) -> bool {
    occurs(ascii("mtld3d"), c_str(path))
}

/// The first `n` bytes of the name stand right before position `end` of `text`.
spec fn ends_with(text: Seq<u8>, end: int, n: int) -> bool {
    &&& 0 <= n <= end
    &&& forall|k: int| 0 <= k < n ==> text[end - n + k] == #[trigger] NEEDLE@[k]
}

/// The name has ended at one of the first `end` positions of `text`.
spec fn seen(text: Seq<u8>, end: int) -> bool {
    exists|e: int| 0 <= e <= end && #[trigger] ends_with(text, e, 6)
}

proof fn lemma_needle()
    ensures
        NEEDLE@ == ascii("mtld3d"),
        NEEDLE@.len() == 6,
        forall|k: int| 1 <= k < 6 ==> #[trigger] NEEDLE@[k] != NEEDLE@[0],
{
    reveal_strlit("mtld3d");
    assert(NEEDLE@ =~= ascii("mtld3d"));
}

/// What [`seen`] says of a whole text is what [`occurs`] says.
proof fn lemma_seen_is_occurs(text: Seq<u8>)
    ensures
        seen(text, text.len() as int) == occurs(ascii("mtld3d"), text),
{
    lemma_needle();
    if seen(text, text.len() as int) {
        let e = choose|e: int| 0 <= e <= text.len() && #[trigger] ends_with(text, e, 6);
        assert(text.subrange(e - 6, e - 6 + 6) =~= NEEDLE@);
    }
    if occurs(ascii("mtld3d"), text) {
        let i = choose|i: int|
            0 <= i <= text.len() - 6 && #[trigger] text.subrange(i, i + 6) == NEEDLE@;
        assert forall|k: int| 0 <= k < 6 implies text[i + 6 - 6 + k] == #[trigger] NEEDLE@[k] by {
            assert(text.subrange(i, i + 6)[k] == NEEDLE@[k]);
        }
        assert(ends_with(text, i + 6, 6));
    }
}

/// A longer match after one more byte was already a match before it.
proof fn lemma_shorten(text: Seq<u8>, end: int, n: int)
    requires
        ends_with(text, end + 1, n),
        1 <= n <= 6,
    ensures
        ends_with(text, end, n - 1),
        text[end] == NEEDLE@[n - 1],
{
    assert forall|k: int| 0 <= k < n - 1 implies text[end - (n - 1) + k] == #[trigger] NEEDLE@[k] by {
        assert(text[end + 1 - n + k] == NEEDLE@[k]);
    }
    assert(text[end + 1 - n + (n - 1)] == NEEDLE@[n - 1]);
}

/// Where the byte after a longest match breaks it, only the first byte of the
/// name can start a new one: the name's first byte does not come back in it.
proof fn lemma_restart(text: Seq<u8>, end: int, matched: int, n: int)
    requires
        0 <= matched < 6,
        ends_with(text, end, matched),
        forall|j: int| matched < j < 6 ==> !#[trigger] ends_with(text, end, j),
        text[end] != NEEDLE@[matched],
        2 <= n <= 6,
    ensures
        !ends_with(text, end + 1, n),
{
    lemma_needle();
    if ends_with(text, end + 1, n) {
        lemma_shorten(text, end, n);
        if n - 1 < matched {
            let k = matched - (n - 1);
            assert(text[end - matched + k] == NEEDLE@[k]);
            assert(text[end - (n - 1) + 0] == NEEDLE@[0]);
        }
    }
}

/// Whether an address belongs to one of our own images.
///
/// `found` and `path` are what `dladdr` gave: zero where the address is in no
/// image, and the path of the image, if it has one.
pub fn dladdr_is_ours(found: i32, path: Option<&[u8]>) -> (ours: bool)
    ensures
        ours == (found != 0 && path is Some && path_is_ours(path->0@)),
{
    if found == 0 {
        return false;
    }
    match path {
        None => false,
        Some(bytes) => holds_our_name(bytes),
    }
}

/// Searches an image's path for our own name.
fn holds_our_name(path: &[u8]) -> (ours: bool)
    ensures
        ours == path_is_ours(path@),
{
    let ghost text = c_str(path@);
    let mut idx: usize = 0;
    let mut matched: usize = 0;
    proof {
        lemma_c_len(path@);
        lemma_needle();
    }
    while idx < path.len() && path[idx] != 0
        invariant
            text == c_str(path@),
            idx <= text.len(),
            c_len(path@) <= path@.len(),
            forall|i: int| 0 <= i < c_len(path@) ==> path@[i] != 0,
            c_len(path@) < path@.len() ==> path@[c_len(path@) as int] == 0,
            matched < 6,
            ends_with(text, idx as int, matched as int),
            forall|j: int| matched < j < 6 ==> !#[trigger] ends_with(text, idx as int, j),
            !seen(text, idx as int),
        decreases path@.len() - idx,
    {
        let c: u8 = path[idx];
        let ghost before = matched as int;
        let ghost end = idx as int;
        assert(idx < text.len() && text[end] == c);
        if c == NEEDLE[matched] {
            matched += 1;
            assert(ends_with(text, end + 1, matched as int));
            assert forall|j: int| matched < j <= 6 implies !#[trigger] ends_with(
                text,
                end + 1,
                j,
            ) by {
                if ends_with(text, end + 1, j) {
                    lemma_shorten(text, end, j);
                }
            }
        } else {
            matched = if c == NEEDLE[0] { 1 } else { 0 };
            assert(ends_with(text, end + 1, matched as int));
            assert forall|j: int| matched < j <= 6 implies !#[trigger] ends_with(
                text,
                end + 1,
                j,
            ) by {
                if j == 1 {
                    if ends_with(text, end + 1, 1) {
                        lemma_shorten(text, end, 1);
                    }
                } else {
                    lemma_restart(text, end, before, j);
                }
            }
        }
        if matched == 6 {
            proof {
                assert(ends_with(text, end + 1, 6));
                lemma_seen_is_occurs(text);
            }
            return true;
        }
        idx += 1;
    }
    proof {
        assert(idx == text.len());
        lemma_seen_is_occurs(text);
    }
    false
}

/// An image is ours exactly where the bytes `m`, `t`, `l`, `d`, `3`, `d` follow
/// one another somewhere in its path, with no NUL in front of them. How long the
/// path is and where in it the name stands do not matter.
pub proof fn law_ours_is_having_the_name(path: Seq<u8>)
    ensures
        path_is_ours(path) <==> exists|i: int|
            {
                &&& 0 <= i <= path.len() - 6
                &&& #[trigger] path[i] == 0x6d
                &&& path[i + 1] == 0x74
                &&& path[i + 2] == 0x6c
                &&& path[i + 3] == 0x64
                &&& path[i + 4] == 0x33
                &&& path[i + 5] == 0x64
                &&& forall|j: int| 0 <= j < i ==> #[trigger] path[j] != 0
            },
{
    lemma_c_len(path);
    lemma_needle();
    let text = c_str(path);
    let name = ascii("mtld3d");
    if path_is_ours(path) {
        let i = choose|i: int|
            0 <= i <= text.len() - name.len() && #[trigger] text.subrange(i, i + name.len())
                == name;
        assert forall|k: int| 0 <= k < 6 implies path[i + k] == NEEDLE@[k] by {
            assert(text.subrange(i, i + 6)[k] == name[k]);
        }
        assert(path[i + 0] == 0x6d && path[i + 1] == 0x74 && path[i + 2] == 0x6c && path[i + 3]
            == 0x64 && path[i + 4] == 0x33 && path[i + 5] == 0x64);
    }
    assert forall|i: int|
        {
            &&& 0 <= i <= path.len() - 6
            &&& #[trigger] path[i] == 0x6d
            &&& path[i + 1] == 0x74
            &&& path[i + 2] == 0x6c
            &&& path[i + 3] == 0x64
            &&& path[i + 4] == 0x33
            &&& path[i + 5] == 0x64
            &&& forall|j: int| 0 <= j < i ==> #[trigger] path[j] != 0
        } implies path_is_ours(path) by {
        assert(c_len(path) >= i + 6) by {
            if c_len(path) < i + 6 {
                assert(path[c_len(path) as int] == 0);
            }
        }
        assert(text.subrange(i, i + 6) =~= name);
    }
}

/// Whatever stands in front of the name, other than a NUL, and whatever stands
/// behind it, the image is ours.
pub proof fn law_name_anywhere_makes_ours(front: Seq<u8>, back: Seq<u8>)
    requires
        forall|j: int| 0 <= j < front.len() ==> #[trigger] front[j] != 0,
    ensures
        path_is_ours(front + seq![0x6du8, 0x74, 0x6c, 0x64, 0x33, 0x64] + back),
{
    let path = front + seq![0x6du8, 0x74, 0x6c, 0x64, 0x33, 0x64] + back;
    law_ours_is_having_the_name(path);
    let i = front.len() as int;
    assert forall|j: int| 0 <= j < i implies #[trigger] path[j] != 0 by {
        assert(path[j] == front[j]);
    }
    assert(path[i] == 0x6d && path[i + 1] == 0x74 && path[i + 2] == 0x6c && path[i + 3] == 0x64
        && path[i + 4] == 0x33 && path[i + 5] == 0x64);
}

} // verus!
