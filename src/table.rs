use vstd::prelude::*;

verus! {

/// A row of a table that is identified by a guid.
pub trait Keyed {
    spec fn key(&self) -> Seq<char>;
}

/// The last row of `s` whose key is `g`.
pub open spec fn find<T: Keyed>(s: Seq<T>, g: Seq<char>) -> Option<T>
    decreases s.len(),
{
    if s.len() == 0 {
        None
    } else if s.last().key() == g {
        Some(s.last())
    } else {
        find(s.drop_last(), g)
    }
}

/// No two rows of `s` share a key.
pub open spec fn unique_keys<T: Keyed>(s: Seq<T>) -> bool {
    forall|i: int, j: int| 0 <= i < j < s.len() ==> #[trigger] s[i].key() != #[trigger] s[j].key()
}

/// Some row of `s` has the key `g`.
pub open spec fn has_key<T: Keyed>(s: Seq<T>, g: Seq<char>) -> bool {
    exists|i: int| 0 <= i < s.len() && #[trigger] s[i].key() == g
}

pub proof fn lemma_find_push<T: Keyed>(s: Seq<T>, r: T, g: Seq<char>)
    ensures
        find(s.push(r), g) == if r.key() == g {
            Some(r)
        } else {
            find(s, g)
        },
{
    assert(s.push(r).drop_last() =~= s);
}

pub proof fn lemma_find_none<T: Keyed>(s: Seq<T>, g: Seq<char>)
    ensures
        find(s, g).is_none() <==> !has_key(s, g),
    decreases s.len(),
{
    if s.len() > 0 {
        lemma_find_none(s.drop_last(), g);
        if has_key(s, g) && s.last().key() != g {
            let i = choose|i: int| 0 <= i < s.len() && #[trigger] s[i].key() == g;
            assert(s.drop_last()[i].key() == g);
        }
        if has_key(s.drop_last(), g) {
            let i = choose|i: int| 0 <= i < s.len() - 1 && #[trigger] s.drop_last()[i].key() == g;
            assert(s[i].key() == g);
        }
    }
}

pub proof fn lemma_find_some<T: Keyed>(s: Seq<T>, g: Seq<char>)
    ensures
        find(s, g) is Some ==> find(s, g).unwrap().key() == g,
    decreases s.len(),
{
    if s.len() > 0 {
        lemma_find_some(s.drop_last(), g);
    }
}

/// In a table with unique keys, the row at index `i` is the one found by its key.
pub proof fn lemma_find_index<T: Keyed>(s: Seq<T>, i: int)
    requires
        unique_keys(s),
        0 <= i < s.len(),
    ensures
        find(s, s[i].key()) == Some(s[i]),
    decreases s.len(),
{
    if i < s.len() - 1 {
        let d = s.drop_last();
        assert(s[i].key() != s[s.len() - 1].key());
        assert(unique_keys(d)) by {
            assert forall|a: int, b: int| 0 <= a < b < d.len() implies #[trigger] d[a].key()
                != #[trigger] d[b].key() by {
                assert(s[a].key() != s[b].key());
            }
        }
        assert(d[i] == s[i]);
        lemma_find_index(d, i);
    }
}

/// Pushing a row whose key is absent keeps the keys unique.
pub proof fn lemma_push_unique<T: Keyed>(s: Seq<T>, r: T)
    requires
        unique_keys(s),
        find(s, r.key()).is_none(),
    ensures
        unique_keys(s.push(r)),
{
    lemma_find_none(s, r.key());
    let t = s.push(r);
    assert forall|a: int, b: int| 0 <= a < b < t.len() implies #[trigger] t[a].key()
        != #[trigger] t[b].key() by {
        if b == s.len() {
            if t[a].key() == r.key() {
                assert(s[a].key() == r.key());
            }
        } else {
            assert(s[a].key() != s[b].key());
        }
    }
}

/// Replacing the row at `i` by one with the same key changes only what that key finds.
pub proof fn lemma_find_update<T: Keyed>(s: Seq<T>, i: int, r: T, g: Seq<char>)
    requires
        unique_keys(s),
        0 <= i < s.len(),
        r.key() == s[i].key(),
    ensures
        find(s.update(i, r), g) == if g == r.key() {
            Some(r)
        } else {
            find(s, g)
        },
        unique_keys(s.update(i, r)),
    decreases s.len(),
{
    let t = s.update(i, r);
    assert forall|a: int, b: int| 0 <= a < b < t.len() implies #[trigger] t[a].key()
        != #[trigger] t[b].key() by {
        assert(s[a].key() != s[b].key());
    }
    if g == r.key() {
        lemma_find_index(t, i);
    } else if i == s.len() - 1 {
        assert(t.drop_last() =~= s.drop_last());
    } else {
        let d = s.drop_last();
        assert(unique_keys(d)) by {
            assert forall|a: int, b: int| 0 <= a < b < d.len() implies #[trigger] d[a].key()
                != #[trigger] d[b].key() by {
                assert(s[a].key() != s[b].key());
            }
        }
        assert(t.drop_last() =~= d.update(i, r));
        lemma_find_update(d, i, r, g);
    }
}

/// Removing the row at `i` makes its key find nothing and leaves the others as they were.
pub proof fn lemma_find_remove<T: Keyed>(s: Seq<T>, i: int, g: Seq<char>)
    requires
        unique_keys(s),
        0 <= i < s.len(),
    ensures
        find(s.remove(i), g) == if g == s[i].key() {
            None
        } else {
            find(s, g)
        },
        unique_keys(s.remove(i)),
    decreases s.len(),
{
    let t = s.remove(i);
    assert forall|a: int, b: int| 0 <= a < b < t.len() implies #[trigger] t[a].key()
        != #[trigger] t[b].key() by {
        let a2 = if a < i { a } else { a + 1 };
        let b2 = if b < i { b } else { b + 1 };
        assert(t[a] == s[a2] && t[b] == s[b2]);
        assert(s[a2].key() != s[b2].key());
    }
    if g == s[i].key() {
        assert(!has_key(t, g)) by {
            if has_key(t, g) {
                let j = choose|j: int| 0 <= j < t.len() && #[trigger] t[j].key() == g;
                let j2 = if j < i { j } else { j + 1 };
                assert(t[j] == s[j2]);
                assert(s[j2].key() != s[i].key());
            }
        }
        lemma_find_none(t, g);
    } else if i == s.len() - 1 {
        assert(t =~= s.drop_last());
    } else {
        let d = s.drop_last();
        assert(unique_keys(d)) by {
            assert forall|a: int, b: int| 0 <= a < b < d.len() implies #[trigger] d[a].key()
                != #[trigger] d[b].key() by {
                assert(s[a].key() != s[b].key());
            }
        }
        assert(t.drop_last() =~= d.remove(i));
        assert(t.last() == s.last());
        lemma_find_remove(d, i, g);
    }
}

} // verus!
