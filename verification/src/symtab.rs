//! Association lists keyed by [`Symbol`] or by order id, with
//! map-style reasoning: unique keys, lookup, update, remove, insert.

use vstd::prelude::*;

use crate::market::{Symbol, SymbolV};

verus! {

/// Whether a symbol occurs in a plain symbol list.
pub open spec fn has_sym_in(list: Seq<Symbol>, sym: SymbolV) -> bool {
    exists|i: int| 0 <= i < list.len() && (#[trigger] list[i])@ == sym
}

/// No two entries share a key.
pub open spec fn keys_unique<T>(s: Seq<(Symbol, T)>) -> bool {
    forall|i: int, j: int|
        0 <= i < j < s.len() ==> (#[trigger] s[i].0)@ != (#[trigger] s[j].0)@
}

/// Whether some entry carries this key.
pub open spec fn tab_has<T>(s: Seq<(Symbol, T)>, sym: SymbolV) -> bool {
    exists|i: int| 0 <= i < s.len() && (#[trigger] s[i].0)@ == sym
}

/// Index of the entry carrying this key (meaningful when `tab_has`
/// holds; unique when `keys_unique` holds).
pub open spec fn tab_idx<T>(s: Seq<(Symbol, T)>, sym: SymbolV) -> int {
    choose|i: int| 0 <= i < s.len() && (#[trigger] s[i].0)@ == sym
}

/// The value stored under a key, if any.
pub open spec fn tab_get<T>(s: Seq<(Symbol, T)>, sym: SymbolV) -> Option<T> {
    if tab_has(s, sym) {
        Some(s[tab_idx(s, sym)].1)
    } else {
        None
    }
}

/// In a unique-key table, any index carrying the key is the lookup
/// index.
pub proof fn lemma_tab_at<T>(s: Seq<(Symbol, T)>, sym: SymbolV, i: int)
    requires
        keys_unique(s),
        0 <= i < s.len(),
        s[i].0@ == sym,
    ensures
        tab_has(s, sym),
        tab_idx(s, sym) == i,
        tab_get(s, sym) == Some(s[i].1),
{
    assert(tab_has(s, sym));
    let j = tab_idx(s, sym);
    if i < j {
        assert(s[i].0@ != s[j].0@);
    } else if j < i {
        assert(s[j].0@ != s[i].0@);
    }
}

/// Updating the entry at an index (same key) changes only that key's
/// lookup.
pub proof fn lemma_tab_update<T>(s: Seq<(Symbol, T)>, i: int, e: (Symbol, T))
    requires
        keys_unique(s),
        0 <= i < s.len(),
        e.0@ == s[i].0@,
    ensures
        keys_unique(s.update(i, e)),
        tab_get(s.update(i, e), e.0@) == Some(e.1),
        forall|o: SymbolV| o != e.0@ ==> tab_get(s.update(i, e), o) == tab_get(s, o),
{
    let s2 = s.update(i, e);
    assert forall|a: int, b: int| 0 <= a < b < s2.len() implies (#[trigger] s2[a].0)@ != (
    #[trigger] s2[b].0)@ by {
        assert(s[a].0@ != s[b].0@);
    }
    lemma_tab_at(s2, e.0@, i);
    assert forall|o: SymbolV| o != e.0@ implies tab_get(s2, o) == tab_get(s, o) by {
        if tab_has(s, o) {
            let j = tab_idx(s, o);
            assert(s[j].0@ == o);
            assert(j != i);
            assert(s2[j] == s[j]);
            lemma_tab_at(s2, o, j);
            lemma_tab_at(s, o, j);
        } else {
            assert forall|k: int| 0 <= k < s2.len() implies (#[trigger] s2[k].0)@ != o by {
                if k != i {
                    assert(s2[k] == s[k]);
                    assert(s[k].0@ != o);
                }
            }
        }
    }
}

/// Appending an entry with a new key adds exactly that lookup.
pub proof fn lemma_tab_push<T>(s: Seq<(Symbol, T)>, e: (Symbol, T))
    requires
        keys_unique(s),
        !tab_has(s, e.0@),
    ensures
        keys_unique(s.push(e)),
        tab_get(s.push(e), e.0@) == Some(e.1),
        forall|o: SymbolV| o != e.0@ ==> tab_get(s.push(e), o) == tab_get(s, o),
{
    let s2 = s.push(e);
    assert forall|a: int, b: int| 0 <= a < b < s2.len() implies (#[trigger] s2[a].0)@ != (
    #[trigger] s2[b].0)@ by {
        if b < s.len() {
            assert(s[a].0@ != s[b].0@);
        } else {
            assert(s2[b] == e);
            assert(s2[a] == s[a]);
            assert(s[a].0@ != e.0@);
        }
    }
    lemma_tab_at(s2, e.0@, s.len() as int);
    assert forall|o: SymbolV| o != e.0@ implies tab_get(s2, o) == tab_get(s, o) by {
        if tab_has(s, o) {
            let j = tab_idx(s, o);
            assert(s[j].0@ == o);
            assert(s2[j] == s[j]);
            lemma_tab_at(s2, o, j);
            lemma_tab_at(s, o, j);
        } else {
            assert forall|k: int| 0 <= k < s2.len() implies (#[trigger] s2[k].0)@ != o by {
                if k < s.len() {
                    assert(s2[k] == s[k]);
                    assert(s[k].0@ != o);
                } else {
                    assert(s2[k] == e);
                }
            }
        }
    }
}

/// Find the index holding a symbol's entry.
pub fn tab_find<T>(v: &Vec<(Symbol, T)>, sym: &Symbol) -> (r: Option<usize>)
    ensures
        match r {
            Some(i) => i < v@.len() && v@[i as int].0@ == sym@,
            None => !tab_has(v@, sym@),
        },
{
    let mut i: usize = 0;
    while i < v.len()
        invariant
            i <= v@.len(),
            forall|k: int| 0 <= k < i ==> (#[trigger] v@[k].0)@ != sym@,
        decreases v@.len() - i,
    {
        if v[i].0 == *sym {
            return Some(i);
        }
        i += 1;
    }
    None
}

/// A table with the entry for `sym` replaced (or appended, when
/// absent).
pub open spec fn tab_put<T>(s: Seq<(Symbol, T)>, sym: Symbol, value: T) -> Seq<(Symbol, T)> {
    if tab_has(s, sym@) {
        s.update(tab_idx(s, sym@), (sym, value))
    } else {
        s.push((sym, value))
    }
}

/// Store a value under a symbol, replacing any previous entry.
pub fn tab_insert<T>(v: &mut Vec<(Symbol, T)>, sym: Symbol, value: T)
    requires
        keys_unique(old(v)@),
    ensures
        keys_unique(final(v)@),
        final(v)@ == tab_put(old(v)@, sym, value),
        tab_get(final(v)@, sym@) == Some(value),
        forall|o: SymbolV| o != sym@ ==> tab_get(final(v)@, o) == tab_get(old(v)@, o),
        final(v)@.len() == old(v)@.len() + (if tab_has(old(v)@, sym@) {
            0int
        } else {
            1int
        }),
        forall|i: int|
            0 <= i < final(v)@.len() ==> (#[trigger] final(v)@[i]) == (sym, value)
                || old(v)@.contains(final(v)@[i]),
{
    let ghost s0 = v@;
    match tab_find(v, &sym) {
        Some(i) => {
            proof {
                lemma_tab_at(s0, sym@, i as int);
                lemma_tab_update(s0, i as int, (sym, value));
            }
            v.set(i, (sym, value));
        },
        None => {
            proof {
                lemma_tab_push(s0, (sym, value));
            }
            v.push((sym, value));
        },
    }
}

/// No two entries share an id.
pub open spec fn ids_unique<T>(s: Seq<(u128, T)>) -> bool {
    forall|i: int, j: int| 0 <= i < j < s.len() ==> (#[trigger] s[i].0) != (#[trigger] s[j].0)
}

/// Whether some entry carries this id.
pub open spec fn otab_has<T>(s: Seq<(u128, T)>, id: u128) -> bool {
    exists|i: int| 0 <= i < s.len() && (#[trigger] s[i].0) == id
}

/// Index of the entry carrying this id.
pub open spec fn otab_idx<T>(s: Seq<(u128, T)>, id: u128) -> int {
    choose|i: int| 0 <= i < s.len() && (#[trigger] s[i].0) == id
}

/// The value stored under an id, if any.
pub open spec fn otab_get<T>(s: Seq<(u128, T)>, id: u128) -> Option<T> {
    if otab_has(s, id) {
        Some(s[otab_idx(s, id)].1)
    } else {
        None
    }
}

/// In a unique-id table, any index carrying the id is the lookup
/// index.
pub proof fn lemma_otab_at<T>(s: Seq<(u128, T)>, id: u128, i: int)
    requires
        ids_unique(s),
        0 <= i < s.len(),
        s[i].0 == id,
    ensures
        otab_has(s, id),
        otab_idx(s, id) == i,
        otab_get(s, id) == Some(s[i].1),
{
    assert(otab_has(s, id));
    let j = otab_idx(s, id);
    if i < j {
        assert(s[i].0 != s[j].0);
    } else if j < i {
        assert(s[j].0 != s[i].0);
    }
}

/// Updating the entry at an index (same id) changes only that id's
/// lookup.
pub proof fn lemma_otab_update<T>(s: Seq<(u128, T)>, i: int, e: (u128, T))
    requires
        ids_unique(s),
        0 <= i < s.len(),
        e.0 == s[i].0,
    ensures
        ids_unique(s.update(i, e)),
        otab_get(s.update(i, e), e.0) == Some(e.1),
        forall|o: u128| o != e.0 ==> otab_get(s.update(i, e), o) == otab_get(s, o),
{
    let s2 = s.update(i, e);
    assert forall|a: int, b: int| 0 <= a < b < s2.len() implies (#[trigger] s2[a].0) != (
    #[trigger] s2[b].0) by {
        assert(s[a].0 != s[b].0);
    }
    lemma_otab_at(s2, e.0, i);
    assert forall|o: u128| o != e.0 implies otab_get(s2, o) == otab_get(s, o) by {
        if otab_has(s, o) {
            let j = otab_idx(s, o);
            assert(s[j].0 == o);
            assert(j != i);
            assert(s2[j] == s[j]);
            lemma_otab_at(s2, o, j);
            lemma_otab_at(s, o, j);
        } else {
            assert forall|k: int| 0 <= k < s2.len() implies (#[trigger] s2[k].0) != o by {
                if k != i {
                    assert(s2[k] == s[k]);
                    assert(s[k].0 != o);
                }
            }
        }
    }
}

/// Appending an entry with a new id adds exactly that lookup.
pub proof fn lemma_otab_push<T>(s: Seq<(u128, T)>, e: (u128, T))
    requires
        ids_unique(s),
        !otab_has(s, e.0),
    ensures
        ids_unique(s.push(e)),
        otab_get(s.push(e), e.0) == Some(e.1),
        forall|o: u128| o != e.0 ==> otab_get(s.push(e), o) == otab_get(s, o),
{
    let s2 = s.push(e);
    assert forall|a: int, b: int| 0 <= a < b < s2.len() implies (#[trigger] s2[a].0) != (
    #[trigger] s2[b].0) by {
        if b < s.len() {
            assert(s[a].0 != s[b].0);
        } else {
            assert(s2[b] == e);
            assert(s2[a] == s[a]);
            assert(s[a].0 != e.0);
        }
    }
    lemma_otab_at(s2, e.0, s.len() as int);
    assert forall|o: u128| o != e.0 implies otab_get(s2, o) == otab_get(s, o) by {
        if otab_has(s, o) {
            let j = otab_idx(s, o);
            assert(s[j].0 == o);
            assert(s2[j] == s[j]);
            lemma_otab_at(s2, o, j);
            lemma_otab_at(s, o, j);
        } else {
            assert forall|k: int| 0 <= k < s2.len() implies (#[trigger] s2[k].0) != o by {
                if k < s.len() {
                    assert(s2[k] == s[k]);
                    assert(s[k].0 != o);
                } else {
                    assert(s2[k] == e);
                }
            }
        }
    }
}

/// Find the index holding an id's entry.
pub fn otab_find<T>(v: &Vec<(u128, T)>, id: u128) -> (r: Option<usize>)
    ensures
        match r {
            Some(i) => i < v@.len() && v@[i as int].0 == id,
            None => !otab_has(v@, id),
        },
{
    let mut i: usize = 0;
    while i < v.len()
        invariant
            i <= v@.len(),
            forall|k: int| 0 <= k < i ==> (#[trigger] v@[k].0) != id,
        decreases v@.len() - i,
    {
        if v[i].0 == id {
            return Some(i);
        }
        i += 1;
    }
    None
}

/// A table with the entry for `id` replaced (or appended, when
/// absent).
pub open spec fn otab_put<T>(s: Seq<(u128, T)>, id: u128, value: T) -> Seq<(u128, T)> {
    if otab_has(s, id) {
        s.update(otab_idx(s, id), (id, value))
    } else {
        s.push((id, value))
    }
}

/// What `otab_put` does to lookups: the stored id maps to the new
/// value, every other id is untouched, and uniqueness is preserved.
pub proof fn lemma_otab_put<T>(s: Seq<(u128, T)>, id: u128, value: T)
    requires
        ids_unique(s),
    ensures
        ids_unique(otab_put(s, id, value)),
        otab_get(otab_put(s, id, value), id) == Some(value),
        forall|o: u128| o != id ==> otab_get(otab_put(s, id, value), o) == otab_get(s, o),
{
    if otab_has(s, id) {
        let i = otab_idx(s, id);
        assert(0 <= i < s.len() && s[i].0 == id);
        lemma_otab_update(s, i, (id, value));
    } else {
        lemma_otab_push(s, (id, value));
    }
}

/// Removing an entry from a unique-id table removes exactly that id's
/// binding and leaves every other lookup unchanged.
pub proof fn lemma_otab_remove<T>(s: Seq<(u128, T)>, i: int)
    requires
        ids_unique(s),
        0 <= i < s.len(),
    ensures
        ids_unique(s.remove(i)),
        !otab_has(s.remove(i), s[i].0),
        forall|o: u128| o != s[i].0 ==> otab_get(s.remove(i), o) == otab_get(s, o),
{
    let s2 = s.remove(i);
    assert forall|a: int, b: int|
        0 <= a < b < s2.len() implies (#[trigger] s2[a].0) != (#[trigger] s2[b].0) by {
        let a0 = if a < i {
            a
        } else {
            a + 1
        };
        let b0 = if b < i {
            b
        } else {
            b + 1
        };
        assert(s2[a] == s[a0] && s2[b] == s[b0]);
        assert(s[a0].0 != s[b0].0);
    }
    assert forall|k: int| 0 <= k < s2.len() implies (#[trigger] s2[k].0) != s[i].0 by {
        let k0 = if k < i {
            k
        } else {
            k + 1
        };
        assert(s2[k] == s[k0]);
        assert(s[k0].0 != s[i].0);
    }
    assert forall|o: u128| o != s[i].0 implies otab_get(s2, o) == otab_get(s, o) by {
        if otab_has(s, o) {
            let j = otab_idx(s, o);
            assert(0 <= j < s.len() && s[j].0 == o);
            assert(j != i);
            let j2 = if j < i {
                j
            } else {
                j - 1
            };
            assert(s2[j2] == s[j]);
            lemma_otab_at(s2, o, j2);
            lemma_otab_at(s, o, j);
        } else {
            assert forall|k: int| 0 <= k < s2.len() implies (#[trigger] s2[k].0) != o by {
                let k0 = if k < i {
                    k
                } else {
                    k + 1
                };
                assert(s2[k] == s[k0]);
                assert(s[k0].0 != o);
            }
        }
    }
}

/// Store a value under an id, replacing any previous entry.
pub fn otab_insert<T>(v: &mut Vec<(u128, T)>, id: u128, value: T)
    requires
        ids_unique(old(v)@),
    ensures
        ids_unique(final(v)@),
        final(v)@ == otab_put(old(v)@, id, value),
        otab_get(final(v)@, id) == Some(value),
        forall|o: u128| o != id ==> otab_get(final(v)@, o) == otab_get(old(v)@, o),
        final(v)@.len() == old(v)@.len() + (if otab_has(old(v)@, id) {
            0int
        } else {
            1int
        }),
        forall|i: int|
            0 <= i < final(v)@.len() ==> (#[trigger] final(v)@[i]) == (id, value)
                || old(v)@.contains(final(v)@[i]),
{
    let ghost s0 = v@;
    match otab_find(v, id) {
        Some(i) => {
            proof {
                lemma_otab_at(s0, id, i as int);
                lemma_otab_update(s0, i as int, (id, value));
            }
            v.set(i, (id, value));
        },
        None => {
            proof {
                lemma_otab_push(s0, (id, value));
            }
            v.push((id, value));
        },
    }
}

} // verus!
