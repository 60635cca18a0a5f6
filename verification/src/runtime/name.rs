//! Names, and the order in which two of them stand.

use crate::ext::text::text_is;
use vstd::prelude::*;
use vstd::utf8::{encode_utf8, encode_utf8_decode_utf8};

verus! {

/// Text-based readable name.
#[derive(Debug, PartialEq, Eq, PartialOrd, Ord, Hash)]
pub struct Name(pub String);

impl View for Name {
    type V = Seq<char>;

    open spec fn view(&self) -> Seq<char> {
        self.0@
    }
}

impl Clone for Name {
    fn clone(&self) -> (r: Self)
        ensures
            r@ == self@,
    {
        Name(self.0.clone())
    }
}

impl Name {
    /// The name that the text spells.
    pub fn new(text: &str) -> (r: Name)
        ensures
            r@ == text@,
    {
        Name(text.to_owned())
    }

    pub fn as_str(&self) -> (r: &str)
        ensures
            r@ == self@,
    {
        self.0.as_str()
    }

    /// Whether this name is spelled as `text` is.
    pub fn is(&self, text: &str) -> (r: bool)
        ensures
            r == (self@ == text@),
    {
        text_is(self.0.as_str(), text)
    }

    /// Whether this name sorts before the other one.
    pub fn sorts_before(&self, other: &Name) -> (r: bool)
        ensures
            r == name_lt(self@, other@),
    {
        bytes_lt(self.0.as_str().as_bytes(), other.0.as_str().as_bytes())
    }
}

/// Whether `a` stands before `b` when both are compared byte by byte
/// from position `i` on: at the first difference the smaller byte
/// decides, and without one the shorter sequence comes first.
pub open spec fn lex_lt_from(a: Seq<u8>, b: Seq<u8>, i: int) -> bool
    decreases b.len() - i,
{
    if i >= b.len() {
        false
    } else if i >= a.len() {
        true
    } else if a[i] != b[i] {
        a[i] < b[i]
    } else {
        lex_lt_from(a, b, i + 1)
    }
}

/// The order of two byte sequences, as a dictionary has it.
pub open spec fn lex_lt(a: Seq<u8>, b: Seq<u8>) -> bool {
    lex_lt_from(a, b, 0)
}

/// The order of two names: that of their UTF-8 encodings, which is
/// the order of `String`.
pub open spec fn name_lt(a: Seq<char>, b: Seq<char>) -> bool {
    lex_lt(encode_utf8(a), encode_utf8(b))
}

proof fn lemma_lex_total_from(a: Seq<u8>, b: Seq<u8>, i: int)
    requires
        0 <= i <= a.len(),
        i <= b.len(),
        a.take(i) == b.take(i),
    ensures
        a == b ==> !lex_lt_from(a, b, i) && !lex_lt_from(b, a, i),
        a != b ==> (lex_lt_from(a, b, i) != lex_lt_from(b, a, i)),
    decreases a.len() - i,
{
    if i >= a.len() || i >= b.len() {
        if a.len() == b.len() {
            assert(a.take(i) == a);
            assert(b.take(i) == b);
        }
    } else if a[i] != b[i] {
    } else {
        assert(a.take(i + 1) == a.take(i).push(a[i]));
        assert(b.take(i + 1) == b.take(i).push(b[i]));
        lemma_lex_total_from(a, b, i + 1);
    }
}

/// Of two different byte sequences exactly one stands before the
/// other, and none stands before itself.
pub proof fn lemma_lex_total(a: Seq<u8>, b: Seq<u8>)
    ensures
        a == b ==> !lex_lt(a, b) && !lex_lt(b, a),
        a != b ==> (lex_lt(a, b) != lex_lt(b, a)),
{
    assert(a.take(0) == b.take(0));
    lemma_lex_total_from(a, b, 0);
}

/// Of two different names exactly one stands before the other, and
/// none stands before itself.
pub proof fn lemma_name_order_total(a: Seq<char>, b: Seq<char>)
    ensures
        a == b ==> !name_lt(a, b) && !name_lt(b, a),
        a != b ==> (name_lt(a, b) != name_lt(b, a)),
{
    encode_utf8_decode_utf8(a);
    encode_utf8_decode_utf8(b);
    lemma_lex_total(encode_utf8(a), encode_utf8(b));
}

/// Whether the first slice stands before the second.
fn bytes_lt(a: &[u8], b: &[u8]) -> (r: bool)
    ensures
        r == lex_lt(a@, b@),
{
    let mut i: usize = 0;
    while i < a.len() && i < b.len()
        invariant
            i <= a.len(),
            i <= b.len(),
            lex_lt(a@, b@) == lex_lt_from(a@, b@, i as int),
        decreases a.len() - i,
    {
        if a[i] != b[i] {
            return a[i] < b[i];
        }
        i = i + 1;
    }
    i < b.len()
}

} // verus!
