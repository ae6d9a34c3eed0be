//! The two-level hierarchy of a show: an ordered mapping from sequence
//! name to the ordered list of its shot names, and the builder that
//! reconstructs it from the flat, dot-delimited rows of a levels query.

use vstd::prelude::*;

verus! {

use crate::text::{split_dots, split_on_dots};

/// Inserting into an ordered association list: an existing key has its
/// value replaced in place, a new key is appended at the end.
pub open spec fn entries_insert(
    es: Seq<(Seq<char>, Seq<Seq<char>>)>,
    key: Seq<char>,
    shots: Seq<Seq<char>>,
) -> Seq<(Seq<char>, Seq<Seq<char>>)>
    decreases es.len(),
{
    if es.len() == 0 {
        seq![(key, shots)]
    } else if es[0].0 == key {
        seq![(key, shots)] + es.skip(1)
    } else {
        seq![es[0]] + entries_insert(es.skip(1), key, shots)
    }
}

/// The value stored under `key`, if any.
pub open spec fn entries_lookup(
    es: Seq<(Seq<char>, Seq<Seq<char>>)>,
    key: Seq<char>,
) -> Option<Seq<Seq<char>>>
    decreases es.len(),
{
    if es.len() == 0 {
        None
    } else if es[0].0 == key {
        Some(es[0].1)
    } else {
        entries_lookup(es.skip(1), key)
    }
}

/// No entry of `es` is keyed by `key`.
pub open spec fn entries_free(es: Seq<(Seq<char>, Seq<Seq<char>>)>, key: Seq<char>) -> bool {
    forall|i: int| 0 <= i < es.len() ==> es[i].0 != key
}

/// Each key appears at most once.
pub open spec fn entries_unique(es: Seq<(Seq<char>, Seq<Seq<char>>)>) -> bool {
    forall|i: int, j: int| 0 <= i < j < es.len() ==> es[i].0 != es[j].0
}

/// When `key` is absent, insertion appends the new entry.
pub proof fn lemma_entries_insert_absent(
    es: Seq<(Seq<char>, Seq<Seq<char>>)>,
    key: Seq<char>,
    shots: Seq<Seq<char>>,
)
    requires
        entries_free(es, key),
    ensures
        entries_insert(es, key, shots) =~= es.push((key, shots)),
    decreases es.len(),
{
    if es.len() > 0 {
        assert forall|i: int| 0 <= i < es.skip(1).len() implies es.skip(1)[i].0 != key by {
            assert(es.skip(1)[i] == es[i + 1]);
        }
        lemma_entries_insert_absent(es.skip(1), key, shots);
    }
}

/// When `key` is held by entry `k` alone, insertion updates that entry.
pub proof fn lemma_entries_insert_present(
    es: Seq<(Seq<char>, Seq<Seq<char>>)>,
    key: Seq<char>,
    shots: Seq<Seq<char>>,
    k: int,
)
    requires
        0 <= k < es.len(),
        es[k].0 == key,
        forall|j: int| 0 <= j < k ==> es[j].0 != key,
    ensures
        entries_insert(es, key, shots) =~= es.update(k, (key, shots)),
    decreases es.len(),
{
    if k == 0 {
    } else {
        assert(es.skip(1)[k - 1] == es[k]);
        assert forall|j: int| 0 <= j < k - 1 implies es.skip(1)[j].0 != key by {
            assert(es.skip(1)[j] == es[j + 1]);
        }
        lemma_entries_insert_present(es.skip(1), key, shots, k - 1);
        assert(es.update(k, (key, shots)).skip(1) =~= es.skip(1).update(k - 1, (key, shots)));
    }
}

/// Insertion keeps keys unique.
pub proof fn lemma_entries_insert_unique(
    es: Seq<(Seq<char>, Seq<Seq<char>>)>,
    key: Seq<char>,
    shots: Seq<Seq<char>>,
)
    requires
        entries_unique(es),
    ensures
        entries_unique(entries_insert(es, key, shots)),
    decreases es.len(),
{
    if es.len() == 0 {
    } else if es[0].0 == key {
        let r = seq![(key, shots)] + es.skip(1);
        assert forall|i: int, j: int| 0 <= i < j < r.len() implies r[i].0 != r[j].0 by {
            if i == 0 {
                assert(r[j] == es[j]);
            } else {
                assert(r[i] == es[i]);
                assert(r[j] == es[j]);
            }
        }
    } else {
        assert forall|i: int, j: int|
            0 <= i < j < es.skip(1).len() implies es.skip(1)[i].0 != es.skip(1)[j].0 by {
            assert(es.skip(1)[i] == es[i + 1]);
            assert(es.skip(1)[j] == es[j + 1]);
        }
        lemma_entries_insert_unique(es.skip(1), key, shots);
        let r = seq![es[0]] + entries_insert(es.skip(1), key, shots);
        let tail = entries_insert(es.skip(1), key, shots);
        lemma_entries_insert_keys(es.skip(1), key, shots);
        assert forall|i: int, j: int| 0 <= i < j < r.len() implies r[i].0 != r[j].0 by {
            if i == 0 {
                assert(tail.contains(tail[j - 1]));
            }
        }
    }
}

/// Every key of the inserted list is either `key` or a key of the old list.
pub proof fn lemma_entries_insert_keys(
    es: Seq<(Seq<char>, Seq<Seq<char>>)>,
    key: Seq<char>,
    shots: Seq<Seq<char>>,
)
    ensures
        forall|e: (Seq<char>, Seq<Seq<char>>)|
            entries_insert(es, key, shots).contains(e) ==> e.0 == key || exists|i: int|
                0 <= i < es.len() && es[i].0 == e.0,
    decreases es.len(),
{
    if es.len() == 0 {
    } else if es[0].0 == key {
        assert forall|e: (Seq<char>, Seq<Seq<char>>)|
            entries_insert(es, key, shots).contains(e) implies e.0 == key || exists|i: int|
                0 <= i < es.len() && es[i].0 == e.0 by {
            let r = seq![(key, shots)] + es.skip(1);
            let k = choose|k: int| 0 <= k < r.len() && r[k] == e;
            if k > 0 {
                assert(es[k] == e);
            }
        }
    } else {
        lemma_entries_insert_keys(es.skip(1), key, shots);
        assert forall|e: (Seq<char>, Seq<Seq<char>>)|
            entries_insert(es, key, shots).contains(e) implies e.0 == key || exists|i: int|
                0 <= i < es.len() && es[i].0 == e.0 by {
            let r = seq![es[0]] + entries_insert(es.skip(1), key, shots);
            let k = choose|k: int| 0 <= k < r.len() && r[k] == e;
            if k > 0 {
                let tail = entries_insert(es.skip(1), key, shots);
                assert(tail.contains(tail[k - 1]));
                if e.0 != key {
                    let i = choose|i: int| 0 <= i < es.skip(1).len() && es.skip(1)[i].0 == e.0;
                    assert(es[i + 1].0 == e.0);
                }
            } else {
                assert(es[0].0 == e.0);
            }
        }
    }
}

/// Insertion behaves as a mapping: the inserted key now holds the new
/// value, and every other key holds what it held before.
pub proof fn lemma_entries_insert_lookup(
    es: Seq<(Seq<char>, Seq<Seq<char>>)>,
    key: Seq<char>,
    shots: Seq<Seq<char>>,
    other: Seq<char>,
)
    ensures
        entries_lookup(entries_insert(es, key, shots), key) == Some(shots),
        other != key ==> entries_lookup(entries_insert(es, key, shots), other) == entries_lookup(
            es,
            other,
        ),
    decreases es.len(),
{
    let r = entries_insert(es, key, shots);
    if es.len() == 0 {
        assert(r == seq![(key, shots)]);
        assert(r[0] == (key, shots));
        assert(r.skip(1) =~= Seq::<(Seq<char>, Seq<Seq<char>>)>::empty());
    } else if es[0].0 == key {
        assert(r == seq![(key, shots)] + es.skip(1));
        assert(r[0] == (key, shots));
        assert(r.skip(1) =~= es.skip(1));
    } else {
        lemma_entries_insert_lookup(es.skip(1), key, shots, other);
        assert(r == seq![es[0]] + entries_insert(es.skip(1), key, shots));
        assert(r[0] == es[0]);
        assert(r.skip(1) =~= entries_insert(es.skip(1), key, shots));
        assert(entries_lookup(r, key) == Some(shots));
        if other != key {
            if es[0].0 == other {
                assert(entries_lookup(r, other) == Some(es[0].1));
                assert(entries_lookup(es, other) == Some(es[0].1));
            } else {
                assert(entries_lookup(r, other) == entries_lookup(r.skip(1), other));
                assert(entries_lookup(es, other) == entries_lookup(es.skip(1), other));
            }
        }
    }
}

/// An ordered mapping from sequence name to the list of its shot names.
#[derive(Debug, PartialEq)]
pub struct LevelMap {
    entries: Vec<(String, Vec<String>)>,
}

impl View for LevelMap {
    type V = Seq<(Seq<char>, Seq<Seq<char>>)>;

    closed spec fn view(&self) -> Seq<(Seq<char>, Seq<Seq<char>>)> {
        self.entries.deep_view()
    }
}

impl LevelMap {
    /// Keys are unique; established by `new` and kept by `insert`.
    pub open spec fn wf(&self) -> bool {
        entries_unique(self@)
    }

    pub fn new() -> (r: LevelMap)
        ensures
            r@ =~= Seq::<(Seq<char>, Seq<Seq<char>>)>::empty(),
            r.wf(),
    {
        let r = LevelMap { entries: Vec::new() };
        proof {
            assert(r@ =~= Seq::<(Seq<char>, Seq<Seq<char>>)>::empty());
        }
        r
    }

    pub fn len(&self) -> (r: usize)
        ensures
            r == self@.len(),
    {
        self.entries.len()
    }

    pub fn is_empty(&self) -> (r: bool)
        ensures
            r == (self@.len() == 0),
    {
        self.entries.len() == 0
    }

    /// Replaces the value under `key` if present, else appends the pair.
    pub fn insert(&mut self, key: String, shots: Vec<String>)
        requires
            old(self).wf(),
        ensures
            final(self).wf(),
            final(self)@ == entries_insert(old(self)@, key@, shots.deep_view()),
    {
        proof {
            lemma_entries_insert_unique(old(self)@, key@, shots.deep_view());
        }
        let ghost pre = self@;
        let mut k: usize = 0;
        let n = self.entries.len();
        while k < n
            invariant
                n == self.entries.len(),
                0 <= k <= n,
                self@ == pre,
                pre == old(self)@,
                entries_unique(pre),
                forall|j: int| 0 <= j < k ==> pre[j].0 != key@,
            decreases n - k,
        {
            if str_eq_pair(&self.entries[k].0, &key) {
                proof {
                    assert(pre[k as int].0 == key@);
                    lemma_entries_insert_present(pre, key@, shots.deep_view(), k as int);
                    lemma_entries_insert_unique(pre, key@, shots.deep_view());
                }
                let ghost evs = self.entries@;
                let _old_entry = self.entries.remove(k);
                self.entries.insert(k, (key, shots));
                proof {
                    let post = self@;
                    let target = pre.update(k as int, (key@, shots.deep_view()));
                    assert forall|j: int| 0 <= j < post.len() implies post[j] == target[j] by {
                        if j != k {
                            assert(self.entries@[j] == evs[j]);
                        } else {
                            assert(self.entries@[j].deep_view() == (key@, shots.deep_view()));
                        }
                    }
                    assert(post =~= target);
                }
                return ;
            }
            k = k + 1;
        }
        proof {
            lemma_entries_insert_absent(pre, key@, shots.deep_view());
        }
        self.entries.push((key, shots));
        proof {
            assert(self@ =~= pre.push((key@, shots.deep_view())));
        }
    }

    /// The sequence names in order: first opened, first listed.
    pub fn sequence_names(&self) -> (r: Vec<String>)
        ensures
            r@.len() == self@.len(),
            forall|i: int| 0 <= i < self@.len() ==> r.deep_view()[i] == self@[i].0,
    {
        let mut names: Vec<String> = Vec::new();
        let mut k: usize = 0;
        let n = self.entries.len();
        while k < n
            invariant
                n == self.entries.len(),
                0 <= k <= n,
                names@.len() == k,
                forall|i: int| 0 <= i < k ==> names.deep_view()[i] == self@[i].0,
            decreases n - k,
        {
            let ghost pre = names.deep_view();
            names.push(self.entries[k].0.clone());
            proof {
                assert forall|i: int| 0 <= i < k + 1 implies names.deep_view()[i] == self@[i].0 by {
                    if i < k {
                        assert(names.deep_view()[i] == pre[i]);
                    }
                }
            }
            k = k + 1;
        }
        names
    }

    /// The shot list recorded under `key`, if any.
    pub fn get(&self, key: &str) -> (r: Option<&Vec<String>>)
        ensures
            match r {
                Some(v) => entries_lookup(self@, key@) == Some(v.deep_view()),
                None => entries_lookup(self@, key@) is None,
            },
    {
        let mut k: usize = 0;
        let n = self.entries.len();
        proof {
            assert(self@.skip(0) =~= self@);
        }
        while k < n
            invariant
                n == self.entries.len(),
                0 <= k <= n,
                entries_lookup(self@, key@) == entries_lookup(self@.skip(k as int), key@),
            decreases n - k,
        {
            proof {
                assert(self@.skip(k as int)[0] == self@[k as int]);
                assert(self@.skip(k as int).skip(1) =~= self@.skip(k as int + 1));
            }
            if str_eq_pair(&self.entries[k].0, key) {
                return Some(&self.entries[k].1);
            }
            k = k + 1;
        }
        proof {
            assert(self@.skip(n as int) =~= Seq::<(Seq<char>, Seq<Seq<char>>)>::empty());
        }
        None
    }
}

/// String comparison for map keys, by view equality.
fn str_eq_pair(a: &String, b: &str) -> (r: bool)
    ensures
        r == (a@ == b@),
{
    crate::text::str_eq(a.as_str(), b)
}

/// The walk of the builder from row `i` on, carrying the currently open
/// sequence `key`, its accumulated `shots`, and the committed entries.
/// `None` marks a row whose segment count is neither two nor three.
pub open spec fn spec_walk(
    rows: Seq<Seq<char>>,
    i: int,
    key: Seq<char>,
    shots: Seq<Seq<char>>,
    acc: Seq<(Seq<char>, Seq<Seq<char>>)>,
) -> Option<Seq<(Seq<char>, Seq<Seq<char>>)>>
    decreases rows.len() - i,
{
    if i < 0 || i >= rows.len() {
        Some(
            if key != Seq::<char>::empty() {
                entries_insert(acc, key, shots)
            } else {
                acc
            },
        )
    } else {
        let segs = split_dots(rows[i]);
        if segs.len() == 2 {
            if key == Seq::<char>::empty() {
                spec_walk(rows, i + 1, segs[1], shots, acc)
            } else {
                spec_walk(rows, i + 1, segs[1], Seq::empty(), entries_insert(acc, key, shots))
            }
        } else if segs.len() == 3 {
            spec_walk(rows, i + 1, key, shots.push(segs[2]), acc)
        } else {
            None
        }
    }
}

/// What the builder produces from the raw rows of a levels query: `None`
/// when the rows are malformed (no rows at all, or a row after the show
/// root whose segment count is neither two nor three).
pub open spec fn spec_build_levels(rows: Seq<Seq<char>>) -> Option<
    Seq<(Seq<char>, Seq<Seq<char>>)>,
> {
    if rows.len() == 0 {
        None
    } else if rows.len() == 1 {
        Some(Seq::empty())
    } else {
        spec_walk(rows, 1, Seq::empty(), Seq::empty(), Seq::empty())
    }
}

/// The ways a list of level rows can violate the query-layer contract.
#[derive(Debug, PartialEq, Eq, Clone, Copy)]
pub enum LevelsError {
    /// The query returned nothing, not even the show root.
    NoRows,
    /// The row at this index splits into fewer than two or more than
    /// three segments.
    MalformedRow { row: usize },
}

/// Rebuilds the sequence/shot hierarchy from the flat rows of a levels
/// query: the first row is the show root and is dropped; a two-segment
/// row opens a sequence (committing the previous one); a three-segment
/// row appends a shot to the open sequence; the final open sequence is
/// committed at the end.
///
/// Shots are assumed to follow their sequence's own row contiguously;
/// rows in any other order are walked all the same and misattribute
/// shots, as documented for the query layer.
pub fn build_level_map(rows: &Vec<String>) -> (r: Result<LevelMap, LevelsError>)
    ensures
        match r {
            Ok(m) => spec_build_levels(rows.deep_view()) == Some(m@) && m.wf(),
            Err(LevelsError::NoRows) => rows@.len() == 0,
            Err(LevelsError::MalformedRow { row }) => {
                &&& spec_build_levels(rows.deep_view()) is None
                &&& 1 <= row < rows@.len()
                &&& split_dots(rows.deep_view()[row as int]).len() != 2
                &&& split_dots(rows.deep_view()[row as int]).len() != 3
            },
        },
        (r is Ok) == (spec_build_levels(rows.deep_view()) is Some),
{
    let ghost rws = rows.deep_view();
    let n = rows.len();
    if n == 0 {
        return Err(LevelsError::NoRows);
    }
    let mut map = LevelMap::new();
    if n == 1 {
        proof {
            assert(map@ =~= Seq::<(Seq<char>, Seq<Seq<char>>)>::empty());
        }
        return Ok(map);
    }
    let mut key = String::new();
    let mut shots: Vec<String> = Vec::new();
    let mut i: usize = 1;
    proof {
        assert(shots.deep_view() =~= Seq::<Seq<char>>::empty());
    }
    while i < n
        invariant
            n == rows@.len(),
            rws == rows.deep_view(),
            n >= 2,
            1 <= i <= n,
            map.wf(),
            spec_build_levels(rws) == spec_walk(rws, i as int, key@, shots.deep_view(), map@),
        decreases n - i,
    {
        let segs = split_on_dots(rows[i].as_str());
        proof {
            assert(rows[i as int]@ == rws[i as int]);
            assert(segs.deep_view() == split_dots(rws[i as int]));
        }
        if segs.len() == 2 {
            let new_key = segs[1].clone();
            proof {
                assert(new_key@ == segs.deep_view()[1]);
            }
            if key.as_str().is_empty() {
                proof {
                    assert(key@ =~= Seq::<char>::empty());
                }
                key = new_key;
            } else {
                proof {
                    assert(key@ != Seq::<char>::empty());
                }
                map.insert(key, shots);
                shots = Vec::new();
                key = new_key;
                proof {
                    assert(shots.deep_view() =~= Seq::<Seq<char>>::empty());
                }
            }
        } else if segs.len() == 3 {
            let shot = segs[2].clone();
            let ghost pre = shots.deep_view();
            proof {
                assert(shot@ == segs.deep_view()[2]);
            }
            shots.push(shot);
            proof {
                assert(shots.deep_view() =~= pre.push(segs.deep_view()[2]));
            }
        } else {
            return Err(LevelsError::MalformedRow { row: i });
        }
        i = i + 1;
    }
    if !key.as_str().is_empty() {
        proof {
            assert(key@ != Seq::<char>::empty());
        }
        map.insert(key, shots);
    } else {
        proof {
            assert(key@ =~= Seq::<char>::empty());
        }
    }
    Ok(map)
}

} // verus!
