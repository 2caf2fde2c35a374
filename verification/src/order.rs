//! Byte-lexicographic ordering of string identifiers.
//!
//! Replica identifiers, replicator keys and string CRDT elements are ordered
//! exactly as Rust orders `str`: lexicographically by their UTF-8 bytes.
use vstd::prelude::*;
use vstd::utf8::*;

verus! {

broadcast use vstd::utf8::encode_utf8_decode_utf8;

/// Three-way comparison result.
#[derive(Clone, Copy, PartialEq, Eq, Debug)]
pub enum KeyOrder {
    /// The left operand sorts first.
    Less,
    /// Both operands are the same identifier.
    Equal,
    /// The left operand sorts last.
    Greater,
}

/// The first `k` bytes of `a` and `b` agree.
pub open spec fn prefix_eq(a: Seq<u8>, b: Seq<u8>, k: int) -> bool {
    forall|i: int| 0 <= i < k ==> a[i] == b[i]
}

/// `a` sorts strictly before `b`, and the first difference is at position `k`.
pub open spec fn lt_at(a: Seq<u8>, b: Seq<u8>, k: int) -> bool {
    &&& 0 <= k <= a.len()
    &&& k <= b.len()
    &&& prefix_eq(a, b, k)
    &&& ((k == a.len() && k < b.len()) || (k < a.len() && k < b.len() && a[k] < b[k]))
}

/// Strict lexicographic order on byte strings.
pub open spec fn bytes_lt(a: Seq<u8>, b: Seq<u8>) -> bool {
    exists|k: int| #[trigger] lt_at(a, b, k)
}

/// Strict order on identifiers: the order of their UTF-8 encodings.
pub open spec fn key_lt(a: Seq<char>, b: Seq<char>) -> bool {
    bytes_lt(encode_utf8(a), encode_utf8(b))
}

/// Non-strict order on identifiers.
pub open spec fn key_le(a: Seq<char>, b: Seq<char>) -> bool {
    a == b || key_lt(a, b)
}

pub proof fn lemma_bytes_lt_irreflexive(a: Seq<u8>)
    ensures
        !bytes_lt(a, a),
{
    if bytes_lt(a, a) {
        let k = choose|k: int| lt_at(a, a, k);
        assert(lt_at(a, a, k));
    }
}

pub proof fn lemma_bytes_lt_asymmetric(a: Seq<u8>, b: Seq<u8>)
    requires
        bytes_lt(a, b),
    ensures
        !bytes_lt(b, a),
{
    let k = choose|k: int| lt_at(a, b, k);
    if bytes_lt(b, a) {
        let j = choose|j: int| lt_at(b, a, j);
        if j < k {
            assert(a[j] == b[j]);
        } else if k < j {
            assert(a[k] == b[k]);
        }
    }
}

pub proof fn lemma_bytes_lt_transitive(a: Seq<u8>, b: Seq<u8>, c: Seq<u8>)
    requires
        bytes_lt(a, b),
        bytes_lt(b, c),
    ensures
        bytes_lt(a, c),
{
    let k = choose|k: int| lt_at(a, b, k);
    let j = choose|j: int| lt_at(b, c, j);
    if k < j {
        assert(lt_at(a, c, k));
    } else if j < k {
        assert(lt_at(a, c, j));
    } else {
        assert(lt_at(a, c, k));
    }
}

pub proof fn lemma_bytes_lt_total(a: Seq<u8>, b: Seq<u8>)
    requires
        a != b,
    ensures
        bytes_lt(a, b) || bytes_lt(b, a),
{
    let m = if a.len() < b.len() { a.len() as int } else { b.len() as int };
    if prefix_eq(a, b, m) {
        if a.len() == b.len() {
            assert(a =~= b);
        } else if a.len() < b.len() {
            assert(lt_at(a, b, m));
        } else {
            assert(lt_at(b, a, m));
        }
    } else {
        let i = choose|i: int| 0 <= i < m && a[i] != b[i];
        lemma_first_difference(a, b, i);
    }
}

proof fn lemma_first_difference(a: Seq<u8>, b: Seq<u8>, i: int)
    requires
        0 <= i < a.len(),
        i < b.len(),
        a[i] != b[i],
    ensures
        bytes_lt(a, b) || bytes_lt(b, a),
    decreases i,
{
    if prefix_eq(a, b, i) {
        if a[i] < b[i] {
            assert(lt_at(a, b, i));
        } else {
            assert(lt_at(b, a, i));
        }
    } else {
        let j = choose|j: int| 0 <= j < i && a[j] != b[j];
        lemma_first_difference(a, b, j);
    }
}

/// The identifier order is a strict total order.
pub proof fn lemma_key_order(a: Seq<char>, b: Seq<char>, c: Seq<char>)
    ensures
        !key_lt(a, a),
        key_lt(a, b) ==> !key_lt(b, a),
        key_lt(a, b) && key_lt(b, c) ==> key_lt(a, c),
        a != b ==> key_lt(a, b) || key_lt(b, a),
{
    lemma_bytes_lt_irreflexive(encode_utf8(a));
    if key_lt(a, b) {
        lemma_bytes_lt_asymmetric(encode_utf8(a), encode_utf8(b));
    }
    if key_lt(a, b) && key_lt(b, c) {
        lemma_bytes_lt_transitive(encode_utf8(a), encode_utf8(b), encode_utf8(c));
    }
    if a != b {
        assert(decode_utf8(encode_utf8(a)) == a);
        assert(decode_utf8(encode_utf8(b)) == b);
        lemma_bytes_lt_total(encode_utf8(a), encode_utf8(b));
    }
}

/// Ambient form of the total-order facts used by sorted containers.
pub broadcast proof fn lemma_key_lt_facts(a: Seq<char>, b: Seq<char>)
    ensures
        #![trigger key_lt(a, b)]
        !key_lt(a, a),
        key_lt(a, b) ==> !key_lt(b, a),
        a != b ==> key_lt(a, b) || key_lt(b, a),
{
    lemma_key_order(a, b, a);
}

pub broadcast proof fn lemma_key_lt_transitive(a: Seq<char>, b: Seq<char>, c: Seq<char>)
    requires
        #[trigger] key_lt(a, b),
        #[trigger] key_lt(b, c),
    ensures
        key_lt(a, c),
{
    lemma_key_order(a, b, c);
}

/// Compares two byte strings lexicographically.
pub fn compare_bytes(a: &[u8], b: &[u8]) -> (r: KeyOrder)
    ensures
        r == KeyOrder::Less <==> bytes_lt(a@, b@),
        r == KeyOrder::Equal <==> a@ == b@,
        r == KeyOrder::Greater <==> bytes_lt(b@, a@),
{
    let n = if a.len() < b.len() { a.len() } else { b.len() };
    let mut i: usize = 0;
    while i < n
        invariant
            n <= a.len(),
            n <= b.len(),
            n == a.len() || n == b.len(),
            i <= n,
            prefix_eq(a@, b@, i as int),
        decreases n - i,
    {
        if a[i] < b[i] {
            proof {
                assert(lt_at(a@, b@, i as int));
                lemma_bytes_lt_asymmetric(a@, b@);
            }
            return KeyOrder::Less;
        } else if a[i] > b[i] {
            proof {
                assert(lt_at(b@, a@, i as int));
                lemma_bytes_lt_asymmetric(b@, a@);
            }
            return KeyOrder::Greater;
        }
        i = i + 1;
    }
    if a.len() < b.len() {
        proof {
            assert(lt_at(a@, b@, i as int));
            lemma_bytes_lt_asymmetric(a@, b@);
        }
        KeyOrder::Less
    } else if a.len() > b.len() {
        proof {
            assert(lt_at(b@, a@, i as int));
            lemma_bytes_lt_asymmetric(b@, a@);
        }
        KeyOrder::Greater
    } else {
        proof {
            assert(a@ =~= b@);
            lemma_bytes_lt_irreflexive(a@);
        }
        KeyOrder::Equal
    }
}

/// Compares two identifiers in `str` order.
pub fn compare_str(a: &str, b: &str) -> (r: KeyOrder)
    ensures
        r == KeyOrder::Less <==> key_lt(a@, b@),
        r == KeyOrder::Equal <==> a@ == b@,
        r == KeyOrder::Greater <==> key_lt(b@, a@),
{
    let ab = a.as_bytes();
    let bb = b.as_bytes();
    let r = compare_bytes(ab, bb);
    proof {
        assert(decode_utf8(encode_utf8(a@)) == a@);
        assert(decode_utf8(encode_utf8(b@)) == b@);
    }
    r
}

} // verus!
