//! Byte-wise ordering and comparison of strings: the order in which
//! `String` keys of an ordered map are kept.
use vstd::prelude::*;

verus! {

/// Lexicographic order on byte strings: `a` sorts strictly before `b`.
pub open spec fn bytes_less(a: Seq<u8>, b: Seq<u8>) -> bool
    decreases a.len(),
{
    if b.len() == 0 {
        false
    } else if a.len() == 0 {
        true
    } else if a[0] != b[0] {
        a[0] < b[0]
    } else {
        bytes_less(a.drop_first(), b.drop_first())
    }
}

/// The order is irreflexive.
pub proof fn lemma_bytes_less_irreflexive(a: Seq<u8>)
    ensures
        !bytes_less(a, a),
    decreases a.len(),
{
    if a.len() > 0 {
        lemma_bytes_less_irreflexive(a.drop_first());
    }
}

/// Any two distinct byte strings are ordered one way or the other, and never both.
pub proof fn lemma_bytes_less_total(a: Seq<u8>, b: Seq<u8>)
    ensures
        a != b ==> (bytes_less(a, b) || bytes_less(b, a)),
        !(bytes_less(a, b) && bytes_less(b, a)),
    decreases a.len(),
{
    if a.len() > 0 && b.len() > 0 && a[0] == b[0] {
        lemma_bytes_less_total(a.drop_first(), b.drop_first());
        if a.drop_first() == b.drop_first() {
            assert(a =~= seq![a[0]] + a.drop_first());
            assert(b =~= seq![b[0]] + b.drop_first());
        }
    } else if a.len() == 0 && b.len() == 0 {
        assert(a =~= b);
    }
}

/// The order is transitive.
pub proof fn lemma_bytes_less_transitive(a: Seq<u8>, b: Seq<u8>, c: Seq<u8>)
    requires
        bytes_less(a, b),
        bytes_less(b, c),
    ensures
        bytes_less(a, c),
    decreases a.len(),
{
    if a.len() > 0 && a[0] == b[0] && b[0] == c[0] {
        lemma_bytes_less_transitive(a.drop_first(), b.drop_first(), c.drop_first());
    }
}

/// Outcome of comparing two keys.
#[derive(PartialEq, Eq, Structural, Debug, Clone, Copy)]
pub enum KeyOrder {
    Less,
    Equal,
    Greater,
}

/// Compares two byte strings in lexicographic order.
pub fn compare_bytes(a: &[u8], b: &[u8]) -> (r: KeyOrder)
    ensures
        r == KeyOrder::Less <==> bytes_less(a@, b@),
        r == KeyOrder::Equal <==> a@ == b@,
        r == KeyOrder::Greater <==> bytes_less(b@, a@),
{
    let mut i: usize = 0;
    proof {
        lemma_bytes_less_total(a@, b@);
        lemma_bytes_less_irreflexive(a@);
        assert(a@.skip(0) =~= a@);
        assert(b@.skip(0) =~= b@);
    }
    while i < a.len() && i < b.len()
        invariant
            i <= a.len(),
            i <= b.len(),
            a@.take(i as int) =~= b@.take(i as int),
            bytes_less(a@, b@) == bytes_less(a@.skip(i as int), b@.skip(i as int)),
            bytes_less(b@, a@) == bytes_less(b@.skip(i as int), a@.skip(i as int)),
        decreases a.len() - i,
    {
        if a[i] != b[i] {
            proof {
                assert(a@.skip(i as int)[0] == a@[i as int]);
                assert(b@.skip(i as int)[0] == b@[i as int]);
            }
            if a[i] < b[i] {
                proof {
                    lemma_bytes_less_total(a@, b@);
                }
                return KeyOrder::Less;
            } else {
                proof {
                    lemma_bytes_less_total(a@, b@);
                }
                return KeyOrder::Greater;
            }
        }
        proof {
            assert(a@.skip(i as int).drop_first() =~= a@.skip(i + 1));
            assert(b@.skip(i as int).drop_first() =~= b@.skip(i + 1));
            assert(a@.take(i + 1) =~= a@.take(i as int).push(a@[i as int]));
            assert(b@.take(i + 1) =~= b@.take(i as int).push(b@[i as int]));
        }
        i = i + 1;
    }
    if a.len() == b.len() {
        proof {
            assert(a@ =~= a@.take(i as int));
            assert(b@ =~= b@.take(i as int));
            lemma_bytes_less_irreflexive(a@);
        }
        KeyOrder::Equal
    } else if i == a.len() {
        proof {
            assert(a@.skip(i as int).len() == 0);
            assert(a@ != b@);
        }
        KeyOrder::Less
    } else {
        proof {
            assert(b@.skip(i as int).len() == 0);
            assert(a@.len() != b@.len());
        }
        KeyOrder::Greater
    }
}

/// Whether two strings are equal, compared through their UTF-8 bytes.
pub fn str_equal(a: &str, b: &str) -> (r: bool)
    ensures
        r == (a@ == b@),
{
    let order = compare_bytes(a.as_bytes(), b.as_bytes());
    proof {
        vstd::utf8::encode_utf8_decode_utf8(a@);
        vstd::utf8::encode_utf8_decode_utf8(b@);
    }
    order == KeyOrder::Equal
}

/// Whether `items` holds a string equal to `s`.
pub fn contains_str(items: &Vec<String>, s: &str) -> (r: bool)
    ensures
        r == exists|i: int| 0 <= i < items@.len() && (#[trigger] items@[i])@ == s@,
{
    let mut i: usize = 0;
    while i < items.len()
        invariant
            i <= items@.len(),
            forall|j: int| 0 <= j < i ==> (#[trigger] items@[j])@ != s@,
        decreases items.len() - i,
    {
        if str_equal(items[i].as_str(), s) {
            return true;
        }
        i = i + 1;
    }
    false
}

} // verus!
