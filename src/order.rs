//! The order in which model names are listed: the lexicographic order of
//! their UTF-8 bytes, which is the order of Rust's `String`.
use vstd::prelude::*;
use vstd::utf8::*;
use vstd::string::*;

verus! {

/// `a` and `b` agree on their first `k` bytes and `a` is below `b` at `k`,
/// either because `a` ends there or because its byte there is smaller.
pub open spec fn first_below_at(a: Seq<u8>, b: Seq<u8>, k: int) -> bool {
    &&& 0 <= k <= a.len()
    &&& k <= b.len()
    &&& forall|j: int| 0 <= j < k ==> a[j] == b[j]
    &&& ((k == a.len() && k < b.len()) || (k < a.len() && k < b.len() && a[k] < b[k]))
}

/// Strict lexicographic order on byte sequences.
pub open spec fn bytes_before(a: Seq<u8>, b: Seq<u8>) -> bool {
    exists|k: int| first_below_at(a, b, k)
}

/// Strict order on names: the lexicographic order of their UTF-8 encodings.
pub open spec fn name_before(a: Seq<char>, b: Seq<char>) -> bool {
    bytes_before(encode_utf8(a), encode_utf8(b))
}

/// The lexicographic order on byte sequences is transitive.
pub proof fn lemma_bytes_before_transitive(a: Seq<u8>, b: Seq<u8>, c: Seq<u8>)
    requires
        bytes_before(a, b),
        bytes_before(b, c),
    ensures
        bytes_before(a, c),
{
    let k1 = choose|k: int| first_below_at(a, b, k);
    let k2 = choose|k: int| first_below_at(b, c, k);
    if k1 < k2 {
        assert(first_below_at(a, c, k1));
    } else if k2 < k1 {
        assert(first_below_at(a, c, k2));
    } else {
        assert(first_below_at(a, c, k1));
    }
}

/// The lexicographic order on byte sequences is irreflexive and asymmetric.
pub proof fn lemma_bytes_before_asymmetric(a: Seq<u8>, b: Seq<u8>)
    ensures
        bytes_before(a, b) ==> !bytes_before(b, a),
        !bytes_before(a, a),
{
    if bytes_before(a, b) && bytes_before(b, a) {
        let k1 = choose|k: int| first_below_at(a, b, k);
        let k2 = choose|k: int| first_below_at(b, a, k);
        if k1 < k2 {
            assert(a[k1] == b[k1]);
        } else if k2 < k1 {
            assert(a[k2] == b[k2]);
        }
    }
    if bytes_before(a, a) {
        let k = choose|k: int| first_below_at(a, a, k);
    }
}

/// The order on names is transitive.
pub proof fn lemma_name_before_transitive(a: Seq<char>, b: Seq<char>, c: Seq<char>)
    requires
        name_before(a, b),
        name_before(b, c),
    ensures
        name_before(a, c),
{
    lemma_bytes_before_transitive(encode_utf8(a), encode_utf8(b), encode_utf8(c));
}

/// The order on names is irreflexive and asymmetric.
pub proof fn lemma_name_before_asymmetric(a: Seq<char>, b: Seq<char>)
    ensures
        name_before(a, b) ==> !name_before(b, a),
        !name_before(a, a),
{
    lemma_bytes_before_asymmetric(encode_utf8(a), encode_utf8(b));
    lemma_bytes_before_asymmetric(encode_utf8(a), encode_utf8(a));
}

/// Compares two names: negative when `a` comes first, positive when `b` comes
/// first, zero when they are the same name.
pub fn compare_names(a: &str, b: &str) -> (r: i8)
    ensures
        r < 0 <==> name_before(a@, b@),
        r > 0 <==> name_before(b@, a@),
        r == 0 <==> a@ == b@,
{
    let x = a.as_bytes();
    let y = b.as_bytes();
    proof {
        lemma_name_before_asymmetric(a@, b@);
        lemma_name_before_asymmetric(a@, a@);
    }
    let mut i: usize = 0;
    while i < x.len() && i < y.len() && x[i] == y[i]
        invariant
            x@ == encode_utf8(a@),
            y@ == encode_utf8(b@),
            i <= x@.len(),
            i <= y@.len(),
            forall|j: int| 0 <= j < i ==> x@[j] == y@[j],
        decreases x@.len() - i,
    {
        i = i + 1;
    }
    if i < x.len() && i < y.len() {
        if x[i] < y[i] {
            assert(first_below_at(x@, y@, i as int));
            proof {
                if a@ == b@ {
                    lemma_name_before_asymmetric(a@, a@);
                }
            }
            -1
        } else {
            assert(first_below_at(y@, x@, i as int));
            proof {
                if a@ == b@ {
                    lemma_name_before_asymmetric(a@, a@);
                }
            }
            1
        }
    } else if i < y.len() {
        assert(first_below_at(x@, y@, i as int));
        proof {
            if a@ == b@ {
                lemma_name_before_asymmetric(a@, a@);
            }
        }
        -1
    } else if i < x.len() {
        assert(first_below_at(y@, x@, i as int));
        proof {
            if a@ == b@ {
                lemma_name_before_asymmetric(a@, a@);
            }
        }
        1
    } else {
        assert(x@ =~= y@);
        proof {
            encode_utf8_decode_utf8(a@);
            encode_utf8_decode_utf8(b@);
        }
        0
    }
}

} // verus!
