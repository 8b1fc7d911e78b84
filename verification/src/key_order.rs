//! The order in which the storage walks its keys.
//!
//! The storage orders keys byte by byte. For texts that is the order of
//! their characters, a text coming before every longer text it begins.

use vstd::prelude::*;

verus! {

/// `a` and `b` agree on their first `i` characters and `a` then comes first:
/// it ends there, or holds the smaller character.
pub open spec fn parts_at(a: Seq<char>, b: Seq<char>, i: int) -> bool {
    &&& 0 <= i <= a.len()
    &&& i < b.len()
    &&& forall|j: int| 0 <= j < i ==> a[j] == b[j]
    &&& (i == a.len() || a[i] < b[i])
}

/// `a` comes before `b`.
pub open spec fn key_lt(a: Seq<char>, b: Seq<char>) -> bool {
    exists|i: int| parts_at(a, b, i)
}

/// `a` comes before `b` or is `b`.
pub open spec fn key_le(a: Seq<char>, b: Seq<char>) -> bool {
    a == b || key_lt(a, b)
}

/// `key` lies at or after `from` and before `until`, as far as they are given.
pub open spec fn in_range(key: Seq<char>, from: Option<Seq<char>>, until: Option<Seq<char>>) -> bool {
    &&& (from matches Some(low) ==> key_le(low, key))
    &&& (until matches Some(high) ==> key_lt(key, high))
}

/// `keys` holds exactly the members of `all` that lie in the range.
pub open spec fn lists_range(
    keys: Seq<Seq<char>>,
    all: Set<Seq<char>>,
    from: Option<Seq<char>>,
    until: Option<Seq<char>>,
) -> bool {
    forall|key: Seq<char>| #[trigger] keys.contains(key) <==> all.contains(key) && in_range(key, from, until)
}

/// `keys` holds exactly the members of `all`.
pub open spec fn lists_all(keys: Seq<Seq<char>>, all: Set<Seq<char>>) -> bool {
    forall|key: Seq<char>| #[trigger] keys.contains(key) <==> all.contains(key)
}

/// Each key comes before the next.
pub open spec fn is_ascending(keys: Seq<Seq<char>>) -> bool {
    forall|i: int, j: int| 0 <= i < j < keys.len() ==> key_lt(#[trigger] keys[i], #[trigger] keys[j])
}

/// No text comes before itself.
pub proof fn lemma_key_lt_irreflexive(a: Seq<char>)
    ensures
        !key_lt(a, a),
{
    if key_lt(a, a) {
        let i = choose|i: int| parts_at(a, a, i);
        assert(parts_at(a, a, i));
    }
}

/// Of two texts, at most one comes before the other.
pub proof fn lemma_key_lt_asymmetric(a: Seq<char>, b: Seq<char>)
    requires
        key_lt(a, b),
    ensures
        !key_lt(b, a),
        a != b,
{
    let i = choose|i: int| parts_at(a, b, i);
    assert(parts_at(a, b, i));
    if key_lt(b, a) {
        let j = choose|j: int| parts_at(b, a, j);
        assert(parts_at(b, a, j));
        if i < j {
            assert(b[i] == a[i]);
        } else if j < i {
            assert(a[j] == b[j]);
        }
    }
    lemma_key_lt_irreflexive(a);
}

/// Coming before is transitive.
pub proof fn lemma_key_lt_transitive(a: Seq<char>, b: Seq<char>, c: Seq<char>)
    requires
        key_lt(a, b),
        key_lt(b, c),
    ensures
        key_lt(a, c),
{
    let i = choose|i: int| parts_at(a, b, i);
    let j = choose|j: int| parts_at(b, c, j);
    assert(parts_at(a, b, i));
    assert(parts_at(b, c, j));
    if i <= j {
        assert(parts_at(a, c, i));
    } else {
        assert(parts_at(a, c, j));
    }
}

/// Of two different texts, one comes before the other.
pub proof fn lemma_key_order_total(a: Seq<char>, b: Seq<char>)
    ensures
        a == b || key_lt(a, b) || key_lt(b, a),
    decreases a.len(),
{
    if a.len() == 0 {
        if b.len() == 0 {
            assert(a =~= b);
        } else {
            assert(parts_at(a, b, 0));
        }
    } else if b.len() == 0 {
        assert(parts_at(b, a, 0));
    } else if a[0] != b[0] {
        if a[0] < b[0] {
            assert(parts_at(a, b, 0));
        } else {
            assert(parts_at(b, a, 0));
        }
    } else {
        let x = a.skip(1);
        let y = b.skip(1);
        lemma_key_order_total(x, y);
        if x == y {
            assert(a =~= seq![a[0]] + x);
            assert(b =~= seq![b[0]] + y);
        } else if key_lt(x, y) {
            let i = choose|i: int| parts_at(x, y, i);
            assert(parts_at(x, y, i));
            assert forall|j: int| 0 <= j < i + 1 implies a[j] == b[j] by {
                if j > 0 {
                    assert(x[j - 1] == y[j - 1]);
                }
            }
            assert(parts_at(a, b, i + 1));
        } else {
            let i = choose|i: int| parts_at(y, x, i);
            assert(parts_at(y, x, i));
            assert forall|j: int| 0 <= j < i + 1 implies b[j] == a[j] by {
                if j > 0 {
                    assert(y[j - 1] == x[j - 1]);
                }
            }
            assert(parts_at(b, a, i + 1));
        }
    }
}

/// An ascending list holds no key twice.
pub proof fn lemma_ascending_no_duplicates(keys: Seq<Seq<char>>)
    requires
        is_ascending(keys),
    ensures
        keys.no_duplicates(),
{
    assert forall|i: int, j: int| 0 <= i < keys.len() && 0 <= j < keys.len() && i != j implies keys[i]
        != keys[j] by {
        if i < j {
            lemma_key_lt_asymmetric(keys[i], keys[j]);
        } else {
            lemma_key_lt_asymmetric(keys[j], keys[i]);
        }
    }
}

} // verus!
