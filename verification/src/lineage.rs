//! The lineage of a snapshot: the snapshot itself, its parent, the parent of
//! that one, and so on.

use vstd::prelude::*;

use crate::metadata::TableMetadataView;

verus! {

impl TableMetadataView {
    /// The id of the snapshot that `n` steps from parent to parent lead to
    /// from the snapshot `start`. There is none if the lineage ends before, at
    /// a snapshot without a parent or with a parent that the table lacks, or
    /// if the table lacks `start` itself.
    pub open spec fn lineage(self, start: i64, n: nat) -> Option<i64>
        decreases n,
    {
        if n == 0 {
            if self.snapshots.contains_key(start) {
                Some(start)
            } else {
                None
            }
        } else {
            match self.lineage(start, (n - 1) as nat) {
                Some(id) => match self.snapshots[id].parent_snapshot_id {
                    Some(parent) if self.snapshots.contains_key(parent) => Some(parent),
                    _ => None,
                },
                None => None,
            }
        }
    }

    /// Whether `ancestor` is in the lineage of `of`. A snapshot of the table is
    /// an ancestor of itself.
    pub open spec fn is_ancestor(self, ancestor: i64, of: i64) -> bool {
        exists|n: nat| #[trigger] self.lineage(of, n) == Some(ancestor)
    }

    /// Whether the lineage of `start` ends at a snapshot whose parent
    /// `missing` the table lacks.
    pub open spec fn breaks_at(self, start: i64, missing: i64) -> bool {
        exists|n: nat|
            {
                &&& #[trigger] self.lineage(start, n) matches Some(id)
                &&& self.snapshots[id].parent_snapshot_id == Some(missing)
                &&& !self.snapshots.contains_key(missing)
            }
    }
}

impl TableMetadataView {
    /// Whether no lineage comes back to the snapshot that it starts from.
    pub open spec fn acyclic(self) -> bool {
        forall|id: i64, n: nat| n > 0 ==> #[trigger] self.lineage(id, n) != Some(id)
    }

    /// Whether the tables have snapshots with the same ids and the same
    /// parents.
    pub open spec fn same_history(self, other: TableMetadataView) -> bool {
        &&& self.snapshots.dom() == other.snapshots.dom()
        &&& forall|id: i64| #[trigger]
            self.snapshots.contains_key(id) ==> self.snapshots[id].parent_snapshot_id
                == other.snapshots[id].parent_snapshot_id
    }
}

/// What a lineage holds is in the table.
pub proof fn lemma_lineage_in_table(table: TableMetadataView, start: i64, n: nat)
    ensures
        table.lineage(start, n) matches Some(id) ==> table.snapshots.contains_key(id),
{
}

/// Once a lineage has ended, it stays ended.
pub proof fn lemma_lineage_ended(table: TableMetadataView, start: i64, n: nat, m: nat)
    requires
        n <= m,
        table.lineage(start, n) is None,
    ensures
        table.lineage(start, m) is None,
    decreases m,
{
    if n < m {
        lemma_lineage_ended(table, start, n, (m - 1) as nat);
    }
}

/// The lineage of a snapshot goes on as the lineage of any snapshot in it.
pub proof fn lemma_lineage_continues(table: TableMetadataView, start: i64, n: nat, m: nat)
    requires
        table.lineage(start, n) is Some,
    ensures
        table.lineage(start, n + m) == table.lineage(table.lineage(start, n)->0, m),
    decreases m,
{
    if m > 0 {
        lemma_lineage_continues(table, start, n, (m - 1) as nat);
        assert((n + m - 1) as nat == n + (m - 1) as nat);
    } else {
        lemma_lineage_in_table(table, start, n);
    }
}

/// A lineage that comes back to a snapshot only ever holds what it held
/// before.
pub proof fn lemma_lineage_cycle(
    table: TableMetadataView,
    start: i64,
    i: nat,
    j: nat,
    k: nat,
) -> (r: nat)
    requires
        i < j,
        table.lineage(start, i) is Some,
        table.lineage(start, i) == table.lineage(start, j),
    ensures
        r < j,
        table.lineage(start, r) == table.lineage(start, k),
    decreases k,
{
    if k < j {
        k
    } else {
        let rest = (k - j) as nat;
        lemma_lineage_continues(table, start, j, rest);
        lemma_lineage_continues(table, start, i, rest);
        lemma_lineage_cycle(table, start, i, j, i + rest)
    }
}

/// A lineage with more entries than the table has snapshots holds one of them
/// twice.
proof fn lemma_lineage_repeats(table: TableMetadataView, start: i64) -> (r: (nat, nat))
    requires
        table.snapshots.dom().finite(),
        table.lineage(start, table.snapshots.len()) is Some,
    ensures
        r.0 < r.1 <= table.snapshots.len(),
        table.lineage(start, r.0) is Some,
        table.lineage(start, r.0) == table.lineage(start, r.1),
{
    let count = table.snapshots.len();
    let ids = Seq::new(count + 1, |n: int| table.lineage(start, n as nat)->0);
    assert forall|n: nat| n <= count implies #[trigger] table.lineage(start, n) is Some by {
        if table.lineage(start, n) is None {
            lemma_lineage_ended(table, start, n, count);
        }
    }
    if ids.no_duplicates() {
        ids.unique_seq_to_set();
        assert(ids.to_set().subset_of(table.snapshots.dom())) by {
            assert forall|id: i64| ids.to_set().contains(id) implies table.snapshots.dom().contains(
                id,
            ) by {
                let n = choose|n: int| 0 <= n < ids.len() && ids[n] == id;
                lemma_lineage_in_table(table, start, n as nat);
            }
        }
        vstd::set_lib::lemma_len_subset(ids.to_set(), table.snapshots.dom());
        assert(false);
    }
    let (i, j) = choose|i: int, j: int| 0 <= i < j < ids.len() && ids[i] == ids[j];
    assert(ids[i] == ids[j]);
    (i as nat, j as nat)
}

/// A lineage that goes on past the number of the table's snapshots without
/// coming to `from` never comes to it, and never ends.
pub proof fn lemma_lineage_exhausted(table: TableMetadataView, from: i64, start: i64)
    requires
        table.snapshots.dom().finite(),
        table.lineage(start, table.snapshots.len()) is Some,
        forall|n: nat|
            n <= table.snapshots.len() ==> #[trigger] table.lineage(start, n) != Some(from),
    ensures
        !table.is_ancestor(from, start),
        forall|missing: i64| !table.breaks_at(start, missing),
{
    let (i, j) = lemma_lineage_repeats(table, start);
    assert forall|n: nat| #[trigger] table.lineage(start, n) is Some && table.lineage(start, n)
        != Some(from) by {
        let m = lemma_lineage_cycle(table, start, i, j, n);
        if table.lineage(start, m) is None {
            lemma_lineage_ended(table, start, m, table.snapshots.len());
        }
    }
    assert forall|missing: i64| !table.breaks_at(start, missing) by {
        if table.breaks_at(start, missing) {
            let n = choose|n: nat|
                {
                    &&& #[trigger] table.lineage(start, n) matches Some(id)
                    &&& table.snapshots[id].parent_snapshot_id == Some(missing)
                    &&& !table.snapshots.contains_key(missing)
                };
            assert(table.lineage(start, n + 1) is None);
        }
    }
}

/// A lineage that ends after `n` steps holds nothing but what it came to
/// before, and breaks at most where it ends.
pub proof fn lemma_lineage_complete(table: TableMetadataView, from: i64, start: i64, n: nat)
    requires
        table.lineage(start, n) is Some,
        table.lineage(start, n + 1) is None,
        forall|m: nat| m <= n ==> #[trigger] table.lineage(start, m) != Some(from),
    ensures
        !table.is_ancestor(from, start),
        forall|missing: i64| #[trigger]
            table.breaks_at(start, missing)
                <==> table.snapshots[table.lineage(start, n)->0].parent_snapshot_id == Some(
                missing,
            ),
{
    assert forall|m: nat| m > n implies #[trigger] table.lineage(start, m) is None by {
        lemma_lineage_ended(table, start, n + 1, m);
    }
    assert forall|missing: i64| #[trigger]
        table.breaks_at(start, missing) <==> table.snapshots[table.lineage(
            start,
            n,
        )->0].parent_snapshot_id == Some(missing) by {
        if table.breaks_at(start, missing) {
            let m = choose|m: nat|
                {
                    &&& #[trigger] table.lineage(start, m) matches Some(id)
                    &&& table.snapshots[id].parent_snapshot_id == Some(missing)
                    &&& !table.snapshots.contains_key(missing)
                };
            assert(m <= n);
            assert(table.lineage(start, m + 1) is None);
            if m < n {
                lemma_lineage_ended(table, start, m + 1, n);
            }
        }
    }
}

/// A lineage breaks at one snapshot only.
pub proof fn lemma_breaks_at_one(table: TableMetadataView, start: i64, a: i64, b: i64)
    requires
        table.breaks_at(start, a),
        table.breaks_at(start, b),
    ensures
        a == b,
{
    let n = choose|n: nat|
        {
            &&& #[trigger] table.lineage(start, n) matches Some(id)
            &&& table.snapshots[id].parent_snapshot_id == Some(a)
            &&& !table.snapshots.contains_key(a)
        };
    let m = choose|m: nat|
        {
            &&& #[trigger] table.lineage(start, m) matches Some(id)
            &&& table.snapshots[id].parent_snapshot_id == Some(b)
            &&& !table.snapshots.contains_key(b)
        };
    assert(table.lineage(start, n + 1) is None);
    assert(table.lineage(start, m + 1) is None);
    if n < m {
        lemma_lineage_ended(table, start, n + 1, m);
    }
    if m < n {
        lemma_lineage_ended(table, start, m + 1, n);
    }
}

/// Tables with the same history have the same lineages.
pub proof fn lemma_lineage_of_same_history(
    table: TableMetadataView,
    other: TableMetadataView,
    start: i64,
    n: nat,
)
    requires
        table.same_history(other),
    ensures
        table.lineage(start, n) == other.lineage(start, n),
    decreases n,
{
    assert forall|id: i64| #[trigger]
        table.snapshots.contains_key(id) == other.snapshots.contains_key(id) by {
        assert(table.snapshots.dom().contains(id) == other.snapshots.dom().contains(id));
    }
    if n > 0 {
        lemma_lineage_of_same_history(table, other, start, (n - 1) as nat);
        lemma_lineage_in_table(table, start, (n - 1) as nat);
    }
}

/// Where a lineage breaks, it breaks in every table with the same history.
pub proof fn lemma_breaks_of_same_history(
    table: TableMetadataView,
    other: TableMetadataView,
    start: i64,
    missing: i64,
)
    requires
        table.same_history(other) || other.same_history(table),
        table.breaks_at(start, missing),
    ensures
        other.breaks_at(start, missing),
{
    let n = choose|n: nat|
        {
            &&& #[trigger] table.lineage(start, n) matches Some(id)
            &&& table.snapshots[id].parent_snapshot_id == Some(missing)
            &&& !table.snapshots.contains_key(missing)
        };
    if table.same_history(other) {
        lemma_lineage_of_same_history(table, other, start, n);
    } else {
        lemma_lineage_of_same_history(other, table, start, n);
    }
    lemma_lineage_in_table(table, start, n);
    lemma_lineage_in_table(other, start, n);
    assert(table.snapshots.dom().contains(missing) == other.snapshots.dom().contains(missing));
}

/// An ancestor of an ancestor is an ancestor.
pub proof fn lemma_ancestor_transitive(table: TableMetadataView, a: i64, b: i64, c: i64)
    requires
        table.is_ancestor(a, b),
        table.is_ancestor(b, c),
    ensures
        table.is_ancestor(a, c),
{
    let n = choose|n: nat| #[trigger] table.lineage(c, n) == Some(b);
    let m = choose|m: nat| #[trigger] table.lineage(b, m) == Some(a);
    lemma_lineage_continues(table, c, n, m);
    assert(table.lineage(c, n + m) == Some(a));
}

} // verus!
