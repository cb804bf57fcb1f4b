//! Name ordering: the lexicographic order that keyed runtime tables keep.
//!
//! Names compare character by character (by Unicode scalar value); a proper
//! prefix sorts first. This is the order of `str`'s `Ord`, since UTF-8 keeps
//! the order of scalar values.
use vstd::prelude::*;
use vstd::string::StrSliceExecFns;

verus! {

/// `a` and `b` agree on their first `n` characters.
pub open spec fn common_prefix(a: Seq<char>, b: Seq<char>, n: int) -> bool {
    &&& 0 <= n <= a.len()
    &&& n <= b.len()
    &&& forall|j: int| 0 <= j < n ==> a[j] == b[j]
}

/// At position `n`, after a common prefix, `a` ends first or has the smaller character.
pub open spec fn differs_below_at(a: Seq<char>, b: Seq<char>, n: int) -> bool {
    &&& common_prefix(a, b, n)
    &&& ((n == a.len() && n < b.len()) || (n < a.len() && n < b.len() && (a[n] as int) < (
    b[n] as int)))
}

/// Strict lexicographic order on names.
pub open spec fn name_lt(a: Seq<char>, b: Seq<char>) -> bool {
    exists|n: int| differs_below_at(a, b, n)
}

/// Result of comparing two names.
#[derive(Debug, Clone, Copy, PartialEq, Eq, Structural)]
pub enum NameOrder {
    Less,
    Equal,
    Greater,
}

/// The order is irreflexive and asymmetric.
pub proof fn name_lt_asymmetric(a: Seq<char>, b: Seq<char>)
    ensures
        name_lt(a, b) ==> !name_lt(b, a) && a != b,
{
    if name_lt(a, b) {
        let i = choose|n: int| differs_below_at(a, b, n);
        if name_lt(b, a) {
            let j = choose|n: int| differs_below_at(b, a, n);
            if i < j {
                assert(b[i] == a[i]);
            } else if j < i {
                assert(a[j] == b[j]);
            }
        }
        if a == b {
            assert(differs_below_at(a, a, i));
        }
    }
}

/// The order is transitive.
pub proof fn name_lt_transitive(a: Seq<char>, b: Seq<char>, c: Seq<char>)
    requires
        name_lt(a, b),
        name_lt(b, c),
    ensures
        name_lt(a, c),
{
    let i = choose|n: int| differs_below_at(a, b, n);
    let j = choose|n: int| differs_below_at(b, c, n);
    if i < j {
        assert(differs_below_at(a, c, i));
    } else if j < i {
        assert(a[j] == b[j]);
        assert(differs_below_at(a, c, j));
    } else {
        assert(differs_below_at(a, c, i));
    }
}

/// Two distinct names are ordered one way or the other.
pub proof fn name_lt_total(a: Seq<char>, b: Seq<char>)
    ensures
        a == b || name_lt(a, b) || name_lt(b, a),
{
    if a != b {
        if forall|j: int| 0 <= j < a.len() && j < b.len() ==> a[j] == b[j] {
            if a.len() == b.len() {
                assert(a =~= b);
            } else if a.len() < b.len() {
                assert(differs_below_at(a, b, a.len() as int));
            } else {
                assert(differs_below_at(b, a, b.len() as int));
            }
        } else {
            let k = choose|j: int| 0 <= j < a.len() && j < b.len() && a[j] != b[j];
            lemma_first_difference(a, b, k);
        }
    }
}

proof fn lemma_first_difference(a: Seq<char>, b: Seq<char>, k: int)
    requires
        0 <= k < a.len(),
        k < b.len(),
        a[k] != b[k],
    ensures
        name_lt(a, b) || name_lt(b, a),
    decreases k,
{
    if forall|j: int| 0 <= j < k ==> a[j] == b[j] {
        if (a[k] as int) < (b[k] as int) {
            assert(differs_below_at(a, b, k));
        } else {
            assert(differs_below_at(b, a, k));
        }
    } else {
        let k2 = choose|j: int| 0 <= j < k && a[j] != b[j];
        lemma_first_difference(a, b, k2);
    }
}

/// Compare two names in lexicographic order.
pub fn compare_names(a: &str, b: &str) -> (o: NameOrder)
    ensures
        (o == NameOrder::Less) <==> name_lt(a@, b@),
        (o == NameOrder::Equal) <==> a@ == b@,
        (o == NameOrder::Greater) <==> name_lt(b@, a@),
{
    let la = a.unicode_len();
    let lb = b.unicode_len();
    let mut i: usize = 0;
    while i < la && i < lb
        invariant
            la == a@.len(),
            lb == b@.len(),
            common_prefix(a@, b@, i as int),
        decreases la - i,
    {
        let ca = a.get_char(i);
        let cb = b.get_char(i);
        if (ca as u32) < (cb as u32) {
            proof {
                assert(differs_below_at(a@, b@, i as int));
                name_lt_asymmetric(a@, b@);
            }
            return NameOrder::Less;
        } else if (cb as u32) < (ca as u32) {
            proof {
                assert(differs_below_at(b@, a@, i as int));
                name_lt_asymmetric(b@, a@);
            }
            return NameOrder::Greater;
        }
        i = i + 1;
    }
    if la == lb {
        proof {
            assert(a@ =~= b@);
            name_lt_asymmetric(a@, b@);
        }
        NameOrder::Equal
    } else if la < lb {
        proof {
            assert(differs_below_at(a@, b@, i as int));
            name_lt_asymmetric(a@, b@);
        }
        NameOrder::Less
    } else {
        proof {
            assert(differs_below_at(b@, a@, i as int));
            name_lt_asymmetric(b@, a@);
        }
        NameOrder::Greater
    }
}

} // verus!
