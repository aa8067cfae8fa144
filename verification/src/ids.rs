//! The order of counter ids.
//!
//! Ids are text. They are ordered as their UTF-8 encodings are ordered byte by
//! byte, which is the order of `str` and of a binary collation. This module
//! states that order, proves that it is a strict total order, and compares two
//! ids in time linear in their length.

use vstd::prelude::*;
use vstd::utf8::*;
use vstd::string::*;

verus! {

/// `a` and `b` hold the same bytes at every position below `k`.
pub open spec fn agree_up_to(a: Seq<u8>, b: Seq<u8>, k: int) -> bool {
    &&& 0 <= k <= a.len()
    &&& k <= b.len()
    &&& forall|j: int| 0 <= j < k ==> a[j] == b[j]
}

/// `a` comes strictly before `b` in lexicographic order: at the first position
/// where they part, either `a` has ended or its byte is the smaller one.
pub open spec fn bytes_before(a: Seq<u8>, b: Seq<u8>) -> bool {
    exists|k: int| #[trigger] agree_up_to(a, b, k) && k < b.len() && (k == a.len() || a[k] < b[k])
}

/// The id `a` comes strictly before the id `b`.
pub open spec fn id_before(a: Seq<char>, b: Seq<char>) -> bool {
    bytes_before(encode_utf8(a), encode_utf8(b))
}

/// No id comes before itself.
pub proof fn lemma_id_before_irreflexive(a: Seq<char>)
    ensures
        !id_before(a, a),
{
}

/// The order of ids is transitive.
pub proof fn lemma_id_before_transitive(a: Seq<char>, b: Seq<char>, c: Seq<char>)
    requires
        id_before(a, b),
        id_before(b, c),
    ensures
        id_before(a, c),
{
    lemma_bytes_before_transitive(encode_utf8(a), encode_utf8(b), encode_utf8(c));
}

/// Of two different ids one comes before the other.
pub proof fn lemma_id_before_total(a: Seq<char>, b: Seq<char>)
    requires
        a != b,
    ensures
        id_before(a, b) || id_before(b, a),
{
    // Different ids have different encodings: decoding gives each id back.
    encode_utf8_decode_utf8(a);
    encode_utf8_decode_utf8(b);
    lemma_bytes_part(encode_utf8(a), encode_utf8(b), 0);
}

/// The order of byte sequences is transitive.
proof fn lemma_bytes_before_transitive(a: Seq<u8>, b: Seq<u8>, c: Seq<u8>)
    requires
        bytes_before(a, b),
        bytes_before(b, c),
    ensures
        bytes_before(a, c),
{
    let k1 = choose|k: int| #[trigger]
        agree_up_to(a, b, k) && k < b.len() && (k == a.len() || a[k] < b[k]);
    let k2 = choose|k: int| #[trigger]
        agree_up_to(b, c, k) && k < c.len() && (k == b.len() || b[k] < c[k]);
    // `a` and `c` part where the first of the two pairs parts.
    let k = if k1 <= k2 { k1 } else { k2 };
    assert(agree_up_to(a, c, k));
}

/// Two different byte sequences that agree up to `k` part at `k` or later,
/// and where they part one of them comes first.
proof fn lemma_bytes_part(a: Seq<u8>, b: Seq<u8>, k: int)
    requires
        a != b,
        agree_up_to(a, b, k),
    ensures
        bytes_before(a, b) || bytes_before(b, a),
    decreases a.len() - k,
{
    if k == a.len() && k == b.len() {
        assert(a =~= b);
    } else if k < a.len() && k < b.len() {
        if a[k] == b[k] {
            lemma_bytes_part(a, b, k + 1);
        } else if b[k] < a[k] {
            assert(agree_up_to(b, a, k));
        }
    }
}

/// Where `a` and `b` first part, and `b` does not have the larger byte there,
/// `a` does not come before `b`.
proof fn lemma_bytes_not_before(a: Seq<u8>, b: Seq<u8>, k: int)
    requires
        agree_up_to(a, b, k),
        k == b.len() || (k < a.len() && b[k] < a[k]),
    ensures
        !bytes_before(a, b),
{
    assert forall|m: int| #[trigger]
        agree_up_to(a, b, m) && m < b.len() implies !(m == a.len() || a[m] < b[m]) by {
        // Below `k` the bytes are equal, at `k` they are as required, and
        // no two sequences that differ at `k` agree beyond it.
    }
}

/// Tells whether `x` comes strictly before `y`.
fn bytes_less(x: &[u8], y: &[u8]) -> (r: bool)
    ensures
        r == bytes_before(x@, y@),
{
    let mut i: usize = 0;
    while i < x.len() && i < y.len()
        invariant
            agree_up_to(x@, y@, i as int),
        decreases x.len() - i,
    {
        if x[i] != y[i] {
            proof {
                if y[i as int] < x[i as int] {
                    lemma_bytes_not_before(x@, y@, i as int);
                }
            }
            return x[i] < y[i];
        }
        i += 1;
    }
    proof {
        if i == y.len() {
            lemma_bytes_not_before(x@, y@, i as int);
        }
    }
    x.len() < y.len()
}

/// Tells whether `x` and `y` hold the same bytes.
fn bytes_equal(x: &[u8], y: &[u8]) -> (r: bool)
    ensures
        r == (x@ == y@),
{
    if x.len() != y.len() {
        return false;
    }
    let mut i: usize = 0;
    while i < x.len()
        invariant
            x.len() == y.len(),
            agree_up_to(x@, y@, i as int),
        decreases x.len() - i,
    {
        if x[i] != y[i] {
            return false;
        }
        i += 1;
    }
    assert(x@ =~= y@);
    true
}

/// Tells whether the id `a` comes strictly before the id `b`.
pub fn id_less(a: &str, b: &str) -> (r: bool)
    ensures
        r == id_before(a@, b@),
{
    bytes_less(a.as_bytes(), b.as_bytes())
}

/// Tells whether `a` and `b` are the same id.
pub fn id_equal(a: &str, b: &str) -> (r: bool)
    ensures
        r == (a@ == b@),
{
    let r = bytes_equal(a.as_bytes(), b.as_bytes());
    proof {
        encode_utf8_decode_utf8(a@);
        encode_utf8_decode_utf8(b@);
    }
    r
}

} // verus!
