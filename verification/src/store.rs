//! Association lists with unique keys, viewed as maps and sets.
//!
//! The server's collections are vectors of entries whose keys never repeat;
//! these spec functions give them `Map` and `Set` views, and the lemmas
//! relate pushing and removing entries to `insert` and `remove` on the view.

use vstd::prelude::*;

verus! {

// ---------------------------------------------------------------------
// u64-keyed association lists
// ---------------------------------------------------------------------

pub open spec fn u64_keys_unique<V>(s: Seq<(u64, V)>) -> bool {
    forall|i: int, j: int| 0 <= i < j < s.len() ==> (#[trigger] s[i]).0 != (#[trigger] s[j]).0
}

pub open spec fn u64_map_of<V>(s: Seq<(u64, V)>) -> Map<u64, V> {
    Map::new(
        |k: u64| exists|i: int| 0 <= i < s.len() && (#[trigger] s[i]).0 == k,
        |k: u64| s[choose|i: int| 0 <= i < s.len() && (#[trigger] s[i]).0 == k].1,
    )
}

/// With unique keys, the entry at any index is the map's binding for its key.
pub proof fn lemma_u64_map_entry<V>(s: Seq<(u64, V)>, i: int)
    requires
        u64_keys_unique(s),
        0 <= i < s.len(),
    ensures
        u64_map_of(s).dom().contains(s[i].0),
        u64_map_of(s)[s[i].0] == s[i].1,
{
    let k = s[i].0;
    assert(exists|j: int| 0 <= j < s.len() && (#[trigger] s[j]).0 == k) by {
        assert(0 <= i < s.len() && s[i].0 == k);
    }
    let j = choose|j: int| 0 <= j < s.len() && (#[trigger] s[j]).0 == k;
    if j != i {
        if j < i {
            assert(s[j].0 != s[i].0);
        } else {
            assert(s[i].0 != s[j].0);
        }
        assert(false);
    }
}

/// Appending an entry with a fresh key is `insert` on the map view.
pub proof fn lemma_u64_map_push<V>(s: Seq<(u64, V)>, k: u64, v: V)
    requires
        u64_keys_unique(s),
        !u64_map_of(s).dom().contains(k),
    ensures
        u64_keys_unique(s.push((k, v))),
        u64_map_of(s.push((k, v))) == u64_map_of(s).insert(k, v),
{
    let t = s.push((k, v));
    assert forall|i: int, j: int| 0 <= i < j < t.len() implies (#[trigger] t[i]).0 != (
    #[trigger] t[j]).0 by {
        if j < s.len() {
            assert(s[i].0 != s[j].0);
        } else {
            assert(t[j].0 == k);
            if t[i].0 == k {
                assert(exists|m: int| 0 <= m < s.len() && (#[trigger] s[m]).0 == k) by {
                    assert(0 <= i < s.len() && s[i].0 == k);
                }
            }
        }
    }
    let lhs = u64_map_of(t);
    let rhs = u64_map_of(s).insert(k, v);
    assert forall|k2: u64| lhs.dom().contains(k2) <==> rhs.dom().contains(k2) by {
        if k2 == k {
            assert(0 <= s.len() < t.len() && t[s.len() as int].0 == k);
        } else {
            if exists|i: int| 0 <= i < t.len() && (#[trigger] t[i]).0 == k2 {
                let i = choose|i: int| 0 <= i < t.len() && (#[trigger] t[i]).0 == k2;
                assert(i < s.len() && s[i].0 == k2);
            }
            if exists|i: int| 0 <= i < s.len() && (#[trigger] s[i]).0 == k2 {
                let i = choose|i: int| 0 <= i < s.len() && (#[trigger] s[i]).0 == k2;
                assert(0 <= i < t.len() && t[i].0 == k2);
            }
        }
    }
    assert forall|k2: u64| lhs.dom().contains(k2) implies lhs[k2] == rhs[k2] by {
        if k2 == k {
            lemma_u64_map_entry(t, s.len() as int);
        } else {
            let i = choose|i: int| 0 <= i < t.len() && (#[trigger] t[i]).0 == k2;
            assert(i < s.len() && s[i].0 == k2);
            lemma_u64_map_entry(t, i);
            lemma_u64_map_entry(s, i);
        }
    }
    assert(lhs =~= rhs);
}

/// Removing the entry at an index is `remove` on the map view.
pub proof fn lemma_u64_map_remove<V>(s: Seq<(u64, V)>, i: int)
    requires
        u64_keys_unique(s),
        0 <= i < s.len(),
    ensures
        u64_keys_unique(s.remove(i)),
        u64_map_of(s.remove(i)) == u64_map_of(s).remove(s[i].0),
{
    let t = s.remove(i);
    assert forall|m: int, n: int| 0 <= m < n < t.len() implies (#[trigger] t[m]).0 != (
    #[trigger] t[n]).0 by {
        let m2: int = if m < i { m } else { m + 1 };
        let n2: int = if n < i { n } else { n + 1 };
        assert(t[m] == s[m2] && t[n] == s[n2]);
        assert(s[m2].0 != s[n2].0);
    }
    let lhs = u64_map_of(t);
    let rhs = u64_map_of(s).remove(s[i].0);
    assert forall|k2: u64| lhs.dom().contains(k2) <==> rhs.dom().contains(k2) by {
        if exists|m: int| 0 <= m < t.len() && (#[trigger] t[m]).0 == k2 {
            let m = choose|m: int| 0 <= m < t.len() && (#[trigger] t[m]).0 == k2;
            let m2: int = if m < i { m } else { m + 1 };
            assert(t[m] == s[m2]);
            assert(0 <= m2 < s.len() && s[m2].0 == k2);
            if k2 == s[i].0 {
                if m2 < i {
                    assert(s[m2].0 != s[i].0);
                } else {
                    assert(s[i].0 != s[m2].0);
                }
                assert(false);
            }
        }
        if k2 != s[i].0 && (exists|m: int| 0 <= m < s.len() && (#[trigger] s[m]).0 == k2) {
            let m = choose|m: int| 0 <= m < s.len() && (#[trigger] s[m]).0 == k2;
            let m2: int = if m < i { m } else { m - 1 };
            assert(0 <= m2 < t.len() && t[m2] == s[m] && t[m2].0 == k2);
        }
    }
    assert forall|k2: u64| lhs.dom().contains(k2) implies lhs[k2] == rhs[k2] by {
        let m = choose|m: int| 0 <= m < t.len() && (#[trigger] t[m]).0 == k2;
        lemma_u64_map_entry(t, m);
        let m2: int = if m < i { m } else { m + 1 };
        assert(t[m] == s[m2]);
        lemma_u64_map_entry(s, m2);
    }
    assert(lhs =~= rhs);
}

/// Finds the index of the entry carrying `k`, if any.
pub fn find_u64_key<V>(v: &Vec<(u64, V)>, k: u64) -> (r: Option<usize>)
    ensures
        match r {
            Some(i) => i < v@.len() && v@[i as int].0 == k,
            None => forall|i: int| 0 <= i < v@.len() ==> (#[trigger] v@[i]).0 != k,
        },
{
    let n = v.len();
    let mut i: usize = 0;
    while i < n
        invariant
            0 <= i <= n,
            n == v@.len(),
            forall|j: int| 0 <= j < i ==> (#[trigger] v@[j]).0 != k,
        decreases n - i,
    {
        if v[i].0 == k {
            return Some(i);
        }
        i += 1;
    }
    None
}

/// A fresh key is absent from the map view; a found index witnesses presence.
pub proof fn lemma_u64_map_absent<V>(s: Seq<(u64, V)>, k: u64)
    requires
        forall|i: int| 0 <= i < s.len() ==> (#[trigger] s[i]).0 != k,
    ensures
        !u64_map_of(s).dom().contains(k),
{
}

// ---------------------------------------------------------------------
// String-keyed association lists (keys compared by character content)
// ---------------------------------------------------------------------

pub open spec fn str_keys_unique<V>(s: Seq<(String, V)>) -> bool {
    forall|i: int, j: int| 0 <= i < j < s.len() ==> (#[trigger] s[i]).0@ != (#[trigger] s[j]).0@
}

pub open spec fn str_map_of<V>(s: Seq<(String, V)>) -> Map<Seq<char>, V> {
    Map::new(
        |k: Seq<char>| exists|i: int| 0 <= i < s.len() && (#[trigger] s[i]).0@ == k,
        |k: Seq<char>| s[choose|i: int| 0 <= i < s.len() && (#[trigger] s[i]).0@ == k].1,
    )
}

/// With unique keys, the entry at any index is the map's binding for its key.
pub proof fn lemma_str_map_entry<V>(s: Seq<(String, V)>, i: int)
    requires
        str_keys_unique(s),
        0 <= i < s.len(),
    ensures
        str_map_of(s).dom().contains(s[i].0@),
        str_map_of(s)[s[i].0@] == s[i].1,
{
    let k = s[i].0@;
    assert(exists|j: int| 0 <= j < s.len() && (#[trigger] s[j]).0@ == k) by {
        assert(0 <= i < s.len() && s[i].0@ == k);
    }
    let j = choose|j: int| 0 <= j < s.len() && (#[trigger] s[j]).0@ == k;
    if j != i {
        if j < i {
            assert(s[j].0@ != s[i].0@);
        } else {
            assert(s[i].0@ != s[j].0@);
        }
        assert(false);
    }
}

/// Appending an entry with a fresh key is `insert` on the map view.
pub proof fn lemma_str_map_push<V>(s: Seq<(String, V)>, e: (String, V))
    requires
        str_keys_unique(s),
        !str_map_of(s).dom().contains(e.0@),
    ensures
        str_keys_unique(s.push(e)),
        str_map_of(s.push(e)) == str_map_of(s).insert(e.0@, e.1),
{
    let k = e.0@;
    let t = s.push(e);
    assert forall|i: int, j: int| 0 <= i < j < t.len() implies (#[trigger] t[i]).0@ != (
    #[trigger] t[j]).0@ by {
        if j < s.len() {
            assert(s[i].0@ != s[j].0@);
        } else {
            assert(t[j].0@ == k);
            if t[i].0@ == k {
                assert(exists|m: int| 0 <= m < s.len() && (#[trigger] s[m]).0@ == k) by {
                    assert(0 <= i < s.len() && s[i].0@ == k);
                }
            }
        }
    }
    let lhs = str_map_of(t);
    let rhs = str_map_of(s).insert(k, e.1);
    assert forall|k2: Seq<char>| lhs.dom().contains(k2) <==> rhs.dom().contains(k2) by {
        if k2 == k {
            assert(0 <= s.len() < t.len() && t[s.len() as int].0@ == k);
        } else {
            if exists|i: int| 0 <= i < t.len() && (#[trigger] t[i]).0@ == k2 {
                let i = choose|i: int| 0 <= i < t.len() && (#[trigger] t[i]).0@ == k2;
                assert(i < s.len() && s[i].0@ == k2);
            }
            if exists|i: int| 0 <= i < s.len() && (#[trigger] s[i]).0@ == k2 {
                let i = choose|i: int| 0 <= i < s.len() && (#[trigger] s[i]).0@ == k2;
                assert(0 <= i < t.len() && t[i].0@ == k2);
            }
        }
    }
    assert forall|k2: Seq<char>| lhs.dom().contains(k2) implies lhs[k2] == rhs[k2] by {
        if k2 == k {
            lemma_str_map_entry(t, s.len() as int);
        } else {
            let i = choose|i: int| 0 <= i < t.len() && (#[trigger] t[i]).0@ == k2;
            assert(i < s.len() && s[i].0@ == k2);
            lemma_str_map_entry(t, i);
            lemma_str_map_entry(s, i);
        }
    }
    assert(lhs =~= rhs);
}

/// Removing the entry at an index is `remove` on the map view.
pub proof fn lemma_str_map_remove<V>(s: Seq<(String, V)>, i: int)
    requires
        str_keys_unique(s),
        0 <= i < s.len(),
    ensures
        str_keys_unique(s.remove(i)),
        str_map_of(s.remove(i)) == str_map_of(s).remove(s[i].0@),
{
    let t = s.remove(i);
    assert forall|m: int, n: int| 0 <= m < n < t.len() implies (#[trigger] t[m]).0@ != (
    #[trigger] t[n]).0@ by {
        let m2: int = if m < i { m } else { m + 1 };
        let n2: int = if n < i { n } else { n + 1 };
        assert(t[m] == s[m2] && t[n] == s[n2]);
        assert(s[m2].0@ != s[n2].0@);
    }
    let lhs = str_map_of(t);
    let rhs = str_map_of(s).remove(s[i].0@);
    assert forall|k2: Seq<char>| lhs.dom().contains(k2) <==> rhs.dom().contains(k2) by {
        if exists|m: int| 0 <= m < t.len() && (#[trigger] t[m]).0@ == k2 {
            let m = choose|m: int| 0 <= m < t.len() && (#[trigger] t[m]).0@ == k2;
            let m2: int = if m < i { m } else { m + 1 };
            assert(t[m] == s[m2]);
            assert(0 <= m2 < s.len() && s[m2].0@ == k2);
            if k2 == s[i].0@ {
                if m2 < i {
                    assert(s[m2].0@ != s[i].0@);
                } else {
                    assert(s[i].0@ != s[m2].0@);
                }
                assert(false);
            }
        }
        if k2 != s[i].0@ && (exists|m: int| 0 <= m < s.len() && (#[trigger] s[m]).0@ == k2) {
            let m = choose|m: int| 0 <= m < s.len() && (#[trigger] s[m]).0@ == k2;
            let m2: int = if m < i { m } else { m - 1 };
            assert(0 <= m2 < t.len() && t[m2] == s[m] && t[m2].0@ == k2);
        }
    }
    assert forall|k2: Seq<char>| lhs.dom().contains(k2) implies lhs[k2] == rhs[k2] by {
        let m = choose|m: int| 0 <= m < t.len() && (#[trigger] t[m]).0@ == k2;
        lemma_str_map_entry(t, m);
        let m2: int = if m < i { m } else { m + 1 };
        assert(t[m] == s[m2]);
        lemma_str_map_entry(s, m2);
    }
    assert(lhs =~= rhs);
}

/// Finds the index of the entry whose key has the characters of `k`.
pub fn find_str_key<V>(v: &Vec<(String, V)>, k: &String) -> (r: Option<usize>)
    ensures
        match r {
            Some(i) => i < v@.len() && v@[i as int].0@ == k@,
            None => forall|i: int| 0 <= i < v@.len() ==> (#[trigger] v@[i]).0@ != k@,
        },
{
    let n = v.len();
    let mut i: usize = 0;
    while i < n
        invariant
            0 <= i <= n,
            n == v@.len(),
            forall|j: int| 0 <= j < i ==> (#[trigger] v@[j]).0@ != k@,
        decreases n - i,
    {
        if v[i].0.eq(k) {
            return Some(i);
        }
        i += 1;
    }
    None
}

pub proof fn lemma_str_map_absent<V>(s: Seq<(String, V)>, k: Seq<char>)
    requires
        forall|i: int| 0 <= i < s.len() ==> (#[trigger] s[i]).0@ != k,
    ensures
        !str_map_of(s).dom().contains(k),
{
}

// ---------------------------------------------------------------------
// Sets of strings (elements compared by character content)
// ---------------------------------------------------------------------

pub open spec fn str_elems_unique(s: Seq<String>) -> bool {
    forall|i: int, j: int| 0 <= i < j < s.len() ==> (#[trigger] s[i])@ != (#[trigger] s[j])@
}

pub open spec fn str_set_of(s: Seq<String>) -> Set<Seq<char>> {
    Set::new(|k: Seq<char>| exists|i: int| 0 <= i < s.len() && (#[trigger] s[i])@ == k)
}

/// Appending a fresh element is `insert` on the set view.
pub proof fn lemma_str_set_push(s: Seq<String>, e: String)
    requires
        str_elems_unique(s),
        !str_set_of(s).contains(e@),
    ensures
        str_elems_unique(s.push(e)),
        str_set_of(s.push(e)) == str_set_of(s).insert(e@),
{
    let t = s.push(e);
    assert forall|i: int, j: int| 0 <= i < j < t.len() implies (#[trigger] t[i])@ != (
    #[trigger] t[j])@ by {
        if j < s.len() {
            assert(s[i]@ != s[j]@);
        } else {
            if t[i]@ == e@ {
                assert(exists|m: int| 0 <= m < s.len() && (#[trigger] s[m])@ == e@) by {
                    assert(0 <= i < s.len() && s[i]@ == e@);
                }
            }
        }
    }
    assert forall|k2: Seq<char>|
        str_set_of(t).contains(k2) <==> str_set_of(s).insert(e@).contains(k2) by {
        if k2 == e@ {
            assert(0 <= s.len() < t.len() && t[s.len() as int]@ == e@);
        } else {
            if exists|i: int| 0 <= i < t.len() && (#[trigger] t[i])@ == k2 {
                let i = choose|i: int| 0 <= i < t.len() && (#[trigger] t[i])@ == k2;
                assert(i < s.len() && s[i]@ == k2);
            }
            if exists|i: int| 0 <= i < s.len() && (#[trigger] s[i])@ == k2 {
                let i = choose|i: int| 0 <= i < s.len() && (#[trigger] s[i])@ == k2;
                assert(0 <= i < t.len() && t[i]@ == k2);
            }
        }
    }
    assert(str_set_of(t) =~= str_set_of(s).insert(e@));
}

/// Removing the element at an index is `remove` on the set view.
pub proof fn lemma_str_set_remove(s: Seq<String>, i: int)
    requires
        str_elems_unique(s),
        0 <= i < s.len(),
    ensures
        str_elems_unique(s.remove(i)),
        str_set_of(s.remove(i)) == str_set_of(s).remove(s[i]@),
{
    let t = s.remove(i);
    assert forall|m: int, n: int| 0 <= m < n < t.len() implies (#[trigger] t[m])@ != (
    #[trigger] t[n])@ by {
        let m2: int = if m < i { m } else { m + 1 };
        let n2: int = if n < i { n } else { n + 1 };
        assert(t[m] == s[m2] && t[n] == s[n2]);
        assert(s[m2]@ != s[n2]@);
    }
    assert forall|k2: Seq<char>|
        str_set_of(t).contains(k2) <==> str_set_of(s).remove(s[i]@).contains(k2) by {
        if exists|m: int| 0 <= m < t.len() && (#[trigger] t[m])@ == k2 {
            let m = choose|m: int| 0 <= m < t.len() && (#[trigger] t[m])@ == k2;
            let m2: int = if m < i { m } else { m + 1 };
            assert(t[m] == s[m2]);
            assert(0 <= m2 < s.len() && s[m2]@ == k2);
            if k2 == s[i]@ {
                if m2 < i {
                    assert(s[m2]@ != s[i]@);
                } else {
                    assert(s[i]@ != s[m2]@);
                }
                assert(false);
            }
        }
        if k2 != s[i]@ && (exists|m: int| 0 <= m < s.len() && (#[trigger] s[m])@ == k2) {
            let m = choose|m: int| 0 <= m < s.len() && (#[trigger] s[m])@ == k2;
            let m2: int = if m < i { m } else { m - 1 };
            assert(0 <= m2 < t.len() && t[m2] == s[m] && t[m2]@ == k2);
        }
    }
    assert(str_set_of(t) =~= str_set_of(s).remove(s[i]@));
}

/// Finds the index of the element with the characters of `k`.
pub fn find_str(v: &Vec<String>, k: &String) -> (r: Option<usize>)
    ensures
        match r {
            Some(i) => i < v@.len() && v@[i as int]@ == k@,
            None => forall|i: int| 0 <= i < v@.len() ==> (#[trigger] v@[i])@ != k@,
        },
{
    let n = v.len();
    let mut i: usize = 0;
    while i < n
        invariant
            0 <= i <= n,
            n == v@.len(),
            forall|j: int| 0 <= j < i ==> (#[trigger] v@[j])@ != k@,
        decreases n - i,
    {
        if v[i].eq(k) {
            return Some(i);
        }
        i += 1;
    }
    None
}

pub proof fn lemma_str_set_absent(s: Seq<String>, k: Seq<char>)
    requires
        forall|i: int| 0 <= i < s.len() ==> (#[trigger] s[i])@ != k,
    ensures
        !str_set_of(s).contains(k),
{
}

} // verus!
