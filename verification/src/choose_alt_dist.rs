//! The edit flow behind picking an alternate distribution for a version
//! pin: building the version list for the picker, looking up the id of
//! the chosen version, and coalescing the edit into the change cache.

use vstd::prelude::*;

verus! {

use crate::cache::{Change, PinChangesCache};
use crate::text::str_eq;
use vstd::string::StringExecFns;

/// One row of a distributions query: a version and the id of its
/// distribution record.
#[derive(Debug)]
pub struct DistRow {
    pub version: String,
    pub id: i64,
}

/// The index of the last row whose version is `current`, or zero when no
/// row matches — the picker then defaults to its first entry.
pub open spec fn spec_version_index(rows: Seq<DistRow>, current: Seq<char>) -> int
    decreases rows.len(),
{
    if rows.len() == 0 {
        0
    } else if rows.last().version@ == current {
        rows.len() - 1
    } else {
        spec_version_index(rows.drop_last(), current)
    }
}

/// The id recorded under `version`, the last matching row winning.
pub open spec fn spec_dist_id(rows: Seq<DistRow>, version: Seq<char>) -> Option<i64>
    decreases rows.len(),
{
    if rows.len() == 0 {
        None
    } else if rows.last().version@ == version {
        Some(rows.last().id)
    } else {
        spec_dist_id(rows.drop_last(), version)
    }
}

/// The version list for the picker dialog, and the index it should
/// preselect: the position of the currently pinned version.
pub fn build_version_list_and_map(current_version: &str, results: &Vec<DistRow>) -> (r: (
    Vec<String>,
    usize,
))
    ensures
        r.0@.len() == results@.len(),
        forall|i: int| 0 <= i < results@.len() ==> r.0.deep_view()[i] == results@[i].version@,
        r.1 == spec_version_index(results@, current_version@),
{
    let mut versions: Vec<String> = Vec::new();
    let mut idx: usize = 0;
    let mut k: usize = 0;
    let n = results.len();
    proof {
        assert(results@.take(0) =~= Seq::<DistRow>::empty());
    }
    while k < n
        invariant
            n == results@.len(),
            0 <= k <= n,
            versions@.len() == k,
            forall|i: int| 0 <= i < k ==> versions.deep_view()[i] == results@[i].version@,
            idx == spec_version_index(results@.take(k as int), current_version@),
        decreases n - k,
    {
        let ghost pre = versions.deep_view();
        if str_eq(results[k].version.as_str(), current_version) {
            idx = k;
        }
        versions.push(results[k].version.clone());
        proof {
            assert(results@.take(k as int + 1).drop_last() =~= results@.take(k as int));
            assert(results@.take(k as int + 1).last() == results@[k as int]);
            assert forall|i: int| 0 <= i < k + 1 implies versions.deep_view()[i] == results@[i].version@ by {
                if i < k {
                    assert(versions.deep_view()[i] == pre[i]);
                }
            }
        }
        k = k + 1;
    }
    proof {
        assert(results@.take(n as int) =~= results@);
    }
    (versions, idx)
}

/// Looks up the distribution id of the version the user picked.
pub fn dist_id_for(results: &Vec<DistRow>, version: &str) -> (r: Option<i64>)
    ensures
        r == spec_dist_id(results@, version@),
{
    let mut found: Option<i64> = None;
    let mut k: usize = 0;
    let n = results.len();
    proof {
        assert(results@.take(0) =~= Seq::<DistRow>::empty());
    }
    while k < n
        invariant
            n == results@.len(),
            0 <= k <= n,
            found == spec_dist_id(results@.take(k as int), version@),
        decreases n - k,
    {
        if str_eq(results[k].version.as_str(), version) {
            found = Some(results[k].id);
        }
        proof {
            assert(results@.take(k as int + 1).drop_last() =~= results@.take(k as int));
            assert(results@.take(k as int + 1).last() == results@[k as int]);
        }
        k = k + 1;
    }
    proof {
        assert(results@.take(n as int) =~= results@);
    }
    found
}

/// The full name of a distribution: the package, a dash, the version.
pub fn distribution_name(package: &str, version: &str) -> (r: String)
    ensures
        r@ == package@ + "-"@ + version@,
{
    let mut r = package.to_owned();
    r.append("-");
    r.append(version);
    r
}

/// What the presentation layer must do to its pin-changes table after an
/// edit was coalesced into the cache.
#[derive(Debug, PartialEq, Eq, Structural, Clone, Copy)]
pub enum DistEdit {
    /// The chosen distribution equals the displayed one; nothing to do.
    Skip,
    /// The record already had a pending change: replace the text at
    /// `row` of the pin-changes table.
    UpdateExisting { row: usize },
    /// A first edit: append a new pin-changes row at `row`.
    AppendNew { row: usize },
}

/// Coalesces the user's pick into the change cache: a pick equal to the
/// displayed distribution is skipped; a record already cached keeps its
/// row and original value and has its pending change replaced; a first
/// edit is recorded under the next pin-changes row.
pub fn cache_distribution_edit(
    cache: &mut PinChangesCache,
    pkgcoord_id: i64,
    vpin_id: i64,
    new_dist_id: i64,
    current: &str,
    chosen: &str,
) -> (r: DistEdit)
    requires
        old(cache).wf(),
    ensures
        final(cache).wf(),
        current@ == chosen@ ==> r == DistEdit::Skip && final(cache)@ == old(cache)@,
        current@ != chosen@ && old(cache)@.contains_key(pkgcoord_id as int) ==> {
            &&& (r matches DistEdit::UpdateExisting { row } && row as int == old(
                cache,
            )@[pkgcoord_id as int].0)
            &&& final(cache)@ == old(cache)@.insert(
                pkgcoord_id as int,
                (
                    old(cache)@[pkgcoord_id as int].0,
                    old(cache)@[pkgcoord_id as int].1,
                    Change::ChangeDistribution { vpin_id, new_dist_id },
                ),
            )
        },
        current@ != chosen@ && !old(cache)@.contains_key(pkgcoord_id as int) ==> {
            &&& (r matches DistEdit::AppendNew { row } && row == old(cache)@.len())
            &&& final(cache)@ == old(cache)@.insert(
                pkgcoord_id as int,
                (
                    old(cache)@.len() as int,
                    current@,
                    Change::ChangeDistribution { vpin_id, new_dist_id },
                ),
            )
        },
{
    if str_eq(current, chosen) {
        return DistEdit::Skip;
    }
    let change = Change::ChangeDistribution { vpin_id, new_dist_id };
    if let Some(row) = cache.row_for(pkgcoord_id) {
        cache.update_existing(pkgcoord_id, change);
        DistEdit::UpdateExisting { row }
    } else {
        let row = cache.count();
        cache.record_first_edit(pkgcoord_id, current.to_owned(), row, change);
        DistEdit::AppendNew { row }
    }
}

} // verus!
