//! Values kept by name, as a map from name to value where registering a name
//! again replaces the value kept under it.
use vstd::prelude::*;

verus! {

/// The map that a history of registrations leaves: each name maps to the
/// value of the last registration under it.
pub open spec fn entries_map<V>(h: Seq<(Seq<char>, V)>) -> Map<Seq<char>, V>
    decreases h.len(),
{
    if h.len() == 0 {
        Map::empty()
    } else {
        entries_map(h.drop_last()).insert(h.last().0, h.last().1)
    }
}

/// No name occurs twice.
pub open spec fn unique_names<V>(h: Seq<(Seq<char>, V)>) -> bool {
    forall|i: int, j: int| 0 <= i < j < h.len() ==> #[trigger] h[i].0 != #[trigger] h[j].0
}

/// The names and values of stored entries.
pub open spec fn entries_view<V>(v: Seq<(String, V)>) -> Seq<(Seq<char>, V)> {
    v.map_values(|e: (String, V)| (e.0@, e.1))
}

/// The names that a history registers are exactly those of its map.
pub proof fn lemma_entries_dom<V>(h: Seq<(Seq<char>, V)>, k: Seq<char>)
    ensures
        entries_map(h).dom().contains(k) <==> exists|i: int| 0 <= i < h.len() && #[trigger] h[i].0 == k,
    decreases h.len(),
{
    if h.len() > 0 {
        let p = h.drop_last();
        lemma_entries_dom(p, k);
        if exists|i: int| 0 <= i < p.len() && #[trigger] p[i].0 == k {
            let i = choose|i: int| 0 <= i < p.len() && #[trigger] p[i].0 == k;
            assert(h[i].0 == k);
        }
        if exists|i: int| 0 <= i < h.len() && #[trigger] h[i].0 == k {
            let i = choose|i: int| 0 <= i < h.len() && #[trigger] h[i].0 == k;
            if i < p.len() {
                assert(p[i].0 == k);
            }
        }
    }
}

/// A history's map is finite and the map of a history without repeated
/// names has as many names as the history has entries.
pub proof fn lemma_entries_len<V>(h: Seq<(Seq<char>, V)>)
    ensures
        entries_map(h).dom().finite(),
        unique_names(h) ==> entries_map(h).dom().len() == h.len(),
    decreases h.len(),
{
    if h.len() > 0 {
        let p = h.drop_last();
        lemma_entries_len(p);
        if unique_names(h) {
            assert(unique_names(p)) by {
                assert forall|i: int, j: int| 0 <= i < j < p.len() implies #[trigger] p[i].0
                    != #[trigger] p[j].0 by {
                    assert(h[i].0 != h[j].0);
                }
            }
            lemma_entries_dom(p, h.last().0);
            if entries_map(p).dom().contains(h.last().0) {
                let i = choose|i: int| 0 <= i < p.len() && #[trigger] p[i].0 == h.last().0;
                assert(h[i].0 != h[h.len() - 1].0);
            }
        }
    }
}

/// The map of a history holds, under each registered name, the value of the
/// last registration under that name.
pub proof fn law_last_registration_wins<V>(h: Seq<(Seq<char>, V)>, j: int)
    requires
        0 <= j < h.len(),
        forall|k: int| j < k < h.len() ==> #[trigger] h[k].0 != h[j].0,
    ensures
        entries_map(h).dom().contains(h[j].0),
        entries_map(h)[h[j].0] == h[j].1,
    decreases h.len(),
{
    if j < h.len() - 1 {
        let p = h.drop_last();
        assert forall|k: int| j < k < p.len() implies #[trigger] p[k].0 != p[j].0 by {
            assert(h[k].0 != h[j].0);
        }
        law_last_registration_wins(p, j);
        assert(h.last().0 != h[j].0);
    }
}

/// In a history without repeated names, the value stored with a name is
/// the one its map holds.
pub proof fn lemma_unique_lookup<V>(h: Seq<(Seq<char>, V)>, j: int)
    requires
        0 <= j < h.len(),
        unique_names(h),
    ensures
        entries_map(h).dom().contains(h[j].0),
        entries_map(h)[h[j].0] == h[j].1,
{
    assert forall|k: int| j < k < h.len() implies #[trigger] h[k].0 != h[j].0 by {
        assert(h[j].0 != h[k].0);
    }
    law_last_registration_wins(h, j);
}

/// The position of the entry named `name`, if there is one.
pub fn find_entry<V>(entries: &Vec<(String, V)>, name: &str) -> (r: Option<usize>)
    ensures
        match r {
            Some(i) => i < entries.len() && entries@[i as int].0@ == name@,
            None => forall|i: int| 0 <= i < entries.len() ==> #[trigger] entries@[i].0@ != name@,
        },
{
    let wanted = String::from_str(name);
    let mut i: usize = 0;
    while i < entries.len()
        invariant
            wanted@ == name@,
            i <= entries.len(),
            forall|k: int| 0 <= k < i ==> #[trigger] entries@[k].0@ != name@,
        decreases entries.len() - i,
    {
        if entries[i].0 == wanted {
            return Some(i);
        }
        i = i + 1;
    }
    None
}

/// Looks up the value registered under `name`.
pub fn lookup<'a, V>(entries: &'a Vec<(String, V)>, name: &str) -> (r: Option<&'a V>)
    requires
        unique_names(entries_view(entries@)),
    ensures
        r is Some <==> entries_map(entries_view(entries@)).dom().contains(name@),
        r matches Some(v) ==> *v == entries_map(entries_view(entries@))[name@],
        r is Some <==> exists|i: int| 0 <= i < entries.len() && #[trigger] entries@[i].0@ == name@,
        r matches Some(v) ==> exists|i: int|
            0 <= i < entries.len() && #[trigger] entries@[i].0@ == name@ && entries@[i].1 == *v,
{
    let ghost h = entries_view(entries@);
    proof {
        lemma_entries_dom(h, name@);
    }
    match find_entry(entries, name) {
        Some(i) => {
            proof {
                lemma_unique_lookup(h, i as int);
            }
            assert(entries@[i as int].0@ == name@);
            Some(&entries[i].1)
        },
        None => {
            assert(!(exists|i: int| 0 <= i < h.len() && #[trigger] h[i].0 == name@)) by {
                if exists|i: int| 0 <= i < h.len() && #[trigger] h[i].0 == name@ {
                    let i = choose|i: int| 0 <= i < h.len() && #[trigger] h[i].0 == name@;
                    assert(entries@[i].0@ != name@);
                }
            }
            None
        },
    }
}

/// Registers `value` under `name`, replacing any value registered under it.
pub fn register<V>(entries: &mut Vec<(String, V)>, name: String, value: V)
    requires
        unique_names(entries_view(old(entries)@)),
    ensures
        unique_names(entries_view(final(entries)@)),
        entries_map(entries_view(final(entries)@)) == entries_map(entries_view(old(entries)@)).insert(
            name@,
            value,
        ),
        final(entries).len() == old(entries).len() || final(entries).len() == old(entries).len() + 1,
        exists|i: int|
            0 <= i < final(entries).len() && #[trigger] final(entries)@[i].0@ == name@
                && final(entries)@[i].1 == value,
{
    let ghost h0 = entries_view(entries@);
    let ghost key = name@;
    match find_entry(entries, name.as_str()) {
        Some(i) => {
            entries.set(i, (name, value));
            let ghost h1 = entries_view(entries@);
            assert(entries@[i as int].0@ == key && entries@[i as int].1 == value);
            assert(h1 =~= h0.update(i as int, (key, value)));
            assert(unique_names(h1)) by {
                assert forall|a: int, b: int| 0 <= a < b < h1.len() implies #[trigger] h1[a].0
                    != #[trigger] h1[b].0 by {
                    assert(h0[a].0 != h0[b].0);
                }
            }
            assert(h1[i as int] == (key, value));
            assert(h0[i as int].0 == key);
            assert(entries_map(h1) =~= entries_map(h0).insert(key, value)) by {
                lemma_entries_len(h0);
                lemma_entries_len(h1);
                assert forall|k: Seq<char>| #[trigger]
                    entries_map(h1).dom().contains(k) <==> entries_map(h0).insert(
                        key,
                        value,
                    ).dom().contains(k) by {
                    lemma_entries_dom(h0, k);
                    lemma_entries_dom(h1, k);
                    assert(h1[i as int].0 == key);
                    if exists|j: int| 0 <= j < h0.len() && #[trigger] h0[j].0 == k {
                        let j = choose|j: int| 0 <= j < h0.len() && #[trigger] h0[j].0 == k;
                        if j != i {
                            assert(h1[j].0 == k);
                        }
                    }
                    if exists|j: int| 0 <= j < h1.len() && #[trigger] h1[j].0 == k {
                        let j = choose|j: int| 0 <= j < h1.len() && #[trigger] h1[j].0 == k;
                        if j != i {
                            assert(h0[j].0 == k);
                        }
                    }
                }
                assert forall|k: Seq<char>| #[trigger]
                    entries_map(h1).dom().contains(k) implies entries_map(h1)[k] == entries_map(
                        h0,
                    ).insert(key, value)[k] by {
                    lemma_entries_dom(h1, k);
                    let j = choose|j: int| 0 <= j < h1.len() && #[trigger] h1[j].0 == k;
                    lemma_unique_lookup(h1, j);
                    if j != i {
                        assert(h1[i as int].0 != h1[j].0);
                        assert(h0[j] == h1[j]);
                        lemma_unique_lookup(h0, j);
                    }
                }
            }
        },
        None => {
            entries.push((name, value));
            let ghost h1 = entries_view(entries@);
            assert(entries@[h0.len() as int].0@ == key && entries@[h0.len() as int].1 == value);
            assert(h1 =~= h0.push((key, value)));
            assert(h1.drop_last() =~= h0);
            assert(unique_names(h1)) by {
                assert forall|a: int, b: int| 0 <= a < b < h1.len() implies #[trigger] h1[a].0
                    != #[trigger] h1[b].0 by {
                    if b == h1.len() - 1 {
                        assert(entries@[a].0@ != key);
                    } else {
                        assert(h0[a].0 != h0[b].0);
                    }
                }
            }
        },
    }
}

} // verus!
