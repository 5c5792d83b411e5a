//! Ordered `(key, value)` wire-parameter lists produced by the query
//! builders, with a first-match lookup used to state round-trip laws.

use vstd::prelude::*;

verus! {

/// First value stored under the key, searching in order.
pub open spec fn pairs_lookup(pairs: Seq<(Seq<char>, Seq<char>)>, key: Seq<char>) -> Option<
    Seq<char>,
>
    decreases pairs.len(),
{
    if pairs.len() == 0 {
        None
    } else if pairs[0].0 == key {
        Some(pairs[0].1)
    } else {
        pairs_lookup(pairs.drop_first(), key)
    }
}

/// Whether some pair carries the key.
pub open spec fn pairs_has_key(pairs: Seq<(Seq<char>, Seq<char>)>, key: Seq<char>) -> bool {
    exists|i: int| 0 <= i < pairs.len() && (#[trigger] pairs[i]).0 == key
}

/// Looking a key up in a concatenation searches the front first.
pub proof fn lemma_pairs_lookup_append(
    a: Seq<(Seq<char>, Seq<char>)>,
    b: Seq<(Seq<char>, Seq<char>)>,
    key: Seq<char>,
)
    ensures
        pairs_lookup(a + b, key) == if pairs_has_key(a, key) {
            pairs_lookup(a, key)
        } else {
            pairs_lookup(b, key)
        },
    decreases a.len(),
{
    if a.len() == 0 {
        assert(a + b =~= b);
        assert(!pairs_has_key(a, key));
    } else {
        assert((a + b)[0] == a[0]);
        if a[0].0 == key {
            assert(pairs_has_key(a, key));
        } else {
            assert((a + b).drop_first() =~= a.drop_first() + b);
            lemma_pairs_lookup_append(a.drop_first(), b, key);
            assert(pairs_has_key(a, key) == pairs_has_key(a.drop_first(), key)) by {
                if pairs_has_key(a.drop_first(), key) {
                    let i = choose|i: int|
                        0 <= i < a.drop_first().len() && (#[trigger] a.drop_first()[i]).0
                            == key;
                    assert(a[i + 1].0 == key);
                }
                if pairs_has_key(a, key) {
                    let i = choose|i: int| 0 <= i < a.len() && (#[trigger] a[i]).0 == key;
                    assert(i > 0);
                    assert(a.drop_first()[i - 1].0 == key);
                }
            }
        }
    }
}

/// Appends one `(key, value)` pair to a parameter list.
pub fn push_pair(pairs: &mut Vec<(String, String)>, key: &str, value: String)
    ensures
        final(pairs).deep_view() == old(pairs).deep_view().push((key@, value@)),
{
    let ghost before = pairs.deep_view();
    pairs.push((String::from_str(key), value));
    assert(pairs.deep_view() =~= before.push((key@, value@)));
}

} // verus!
