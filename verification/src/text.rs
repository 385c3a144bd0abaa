//! Comparisons of texts by their characters.

use vstd::prelude::*;
use vstd::utf8::{decode_utf8, encode_utf8, encode_utf8_decode_utf8};

verus! {

/// The characters of a text that may be missing.
pub open spec fn optional_text(text: Option<&str>) -> Option<Seq<char>> {
    match text {
        Some(text) => Some(text@),
        None => None,
    }
}

/// The first `i + 1` items of a sequence hold what the first `i` hold, and
/// the item at `i`.
pub proof fn lemma_take_contains<A>(items: Seq<A>, i: int, item: A)
    requires
        0 <= i < items.len(),
    ensures
        items.take(i + 1).contains(item) <==> (items.take(i).contains(item) || items[i] == item),
{
    let longer = items.take(i + 1);
    let shorter = items.take(i);
    if longer.contains(item) {
        let j = choose|j: int| 0 <= j < longer.len() && longer[j] == item;
        if j < i {
            assert(shorter[j] == item);
        }
    }
    if shorter.contains(item) {
        let j = choose|j: int| 0 <= j < shorter.len() && shorter[j] == item;
        assert(longer[j] == item);
    }
    if items[i] == item {
        assert(longer[i] == item);
    }
}

/// Two texts with the same UTF-8 encoding hold the same characters.
pub proof fn lemma_same_encoding_same_text(a: Seq<char>, b: Seq<char>)
    requires
        encode_utf8(a) == encode_utf8(b),
    ensures
        a == b,
{
    encode_utf8_decode_utf8(a);
    encode_utf8_decode_utf8(b);
    assert(decode_utf8(encode_utf8(a)) == a);
    assert(decode_utf8(encode_utf8(b)) == b);
}

/// Whether two texts hold the same characters.
pub fn text_eq(a: &str, b: &str) -> (same: bool)
    ensures
        same == (a@ == b@),
{
    let left = a.as_bytes();
    let right = b.as_bytes();
    if left.len() != right.len() {
        return false;
    }
    let mut i: usize = 0;
    while i < left.len()
        invariant
            i <= left.len(),
            left.len() == right.len(),
            left@ == encode_utf8(a@),
            right@ == encode_utf8(b@),
            forall|j: int| 0 <= j < i ==> left@[j] == right@[j],
        decreases left.len() - i,
    {
        if left[i] != right[i] {
            return false;
        }
        i += 1;
    }
    proof {
        assert(left@ =~= right@);
        lemma_same_encoding_same_text(a@, b@);
    }
    true
}

} // verus!
