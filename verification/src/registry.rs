//! The cluster registry as a mathematical value: what each fingerprint maps
//! to, the order in which the fingerprints were first seen, and the number of
//! insertions; and what one insertion does to it.

use crate::report::{decimal, member_entry};
use vstd::prelude::*;

verus! {

/// One cluster: the id of the first read with its fingerprint, and how many
/// reads had that fingerprint.
pub struct ClusterView {
    pub representative: Seq<char>,
    pub size: nat,
}

/// The state of a deduplication run.
pub struct Registry {
    /// The cluster of each fingerprint seen so far.
    pub clusters: Map<u64, ClusterView>,
    /// The fingerprints in the order in which their clusters were created.
    pub order: Seq<u64>,
    /// The number of insertions.
    pub total: nat,
}

/// The sizes of the clusters named in `order`, added up.
pub open spec fn sizes_sum(clusters: Map<u64, ClusterView>, order: Seq<u64>) -> nat
    decreases order.len(),
{
    if order.len() == 0 {
        0
    } else {
        sizes_sum(clusters, order.drop_last()) + clusters[order.last()].size
    }
}

impl Registry {
    /// The registry before any insertion.
    pub open spec fn empty() -> Registry {
        Registry { clusters: Map::empty(), order: Seq::empty(), total: 0 }
    }

    /// The invariant of the registry: the order lists each fingerprint of the
    /// map once, no cluster is empty, and the insertions are the sizes added
    /// up.
    pub open spec fn wf(self) -> bool {
        &&& self.order.no_duplicates()
        &&& forall|fp: u64| self.clusters.contains_key(fp) <==> self.order.contains(fp)
        &&& forall|fp: u64| self.clusters.contains_key(fp) ==> self.clusters[fp].size >= 1
        &&& self.total == sizes_sum(self.clusters, self.order)
    }

    /// Whether a read with this fingerprint was inserted before.
    pub open spec fn seen(self, fp: u64) -> bool {
        self.clusters.contains_key(fp)
    }

    /// The number of distinct fingerprints.
    pub open spec fn unique(self) -> nat {
        self.order.len()
    }

    /// The number of insertions that found their fingerprint present.
    pub open spec fn duplicates(self) -> int {
        self.total - self.unique()
    }

    /// The registry after one more insertion. A new fingerprint opens a
    /// cluster of size one under the read's id, last in the order; a known
    /// one grows its cluster and keeps its representative.
    pub open spec fn insert(self, fp: u64, id: Seq<char>) -> Registry {
        if self.seen(fp) {
            Registry {
                clusters: self.clusters.insert(
                    fp,
                    ClusterView {
                        representative: self.clusters[fp].representative,
                        size: self.clusters[fp].size + 1,
                    },
                ),
                order: self.order,
                total: self.total + 1,
            }
        } else {
            Registry {
                clusters: self.clusters.insert(fp, ClusterView { representative: id, size: 1 }),
                order: self.order.push(fp),
                total: self.total + 1,
            }
        }
    }

    /// The registry after a series of insertions, each a fingerprint and an
    /// id, in order.
    pub open spec fn insert_all(self, items: Seq<(u64, Seq<char>)>) -> Registry
        decreases items.len(),
    {
        if items.len() == 0 {
            self
        } else {
            self.insert_all(items.drop_last()).insert(items.last().0, items.last().1)
        }
    }

    /// The row that an insertion adds to the membership log: the
    /// representative of the read's cluster, then the read. A first
    /// occurrence represents itself; a duplicate is marked if it was flipped.
    pub open spec fn membership_row(self, fp: u64, id: Seq<char>, was_flipped: bool) -> (
        Seq<char>,
        Seq<char>,
    ) {
        if self.seen(fp) {
            (self.clusters[fp].representative, member_entry(id, was_flipped))
        } else {
            (id, id)
        }
    }

    /// The rows of the size summary below its header: one per cluster in
    /// first-seen order, the representative and the size in decimal.
    pub open spec fn summary(self) -> Seq<(Seq<char>, Seq<char>)> {
        Seq::new(
            self.order.len(),
            |i: int|
                (
                    self.clusters[self.order[i]].representative,
                    decimal(self.clusters[self.order[i]].size),
                ),
        )
    }
}

/// Clusters outside `order` do not count towards its sum.
pub proof fn lemma_sizes_sum_ignores(
    clusters: Map<u64, ClusterView>,
    order: Seq<u64>,
    fp: u64,
    cluster: ClusterView,
)
    requires
        !order.contains(fp),
    ensures
        sizes_sum(clusters.insert(fp, cluster), order) == sizes_sum(clusters, order),
    decreases order.len(),
{
    if order.len() > 0 {
        let front = order.drop_last();
        assert(order.last() == order[order.len() - 1]);
        assert forall|k: int| 0 <= k < front.len() implies front[k] != fp by {
            assert(front[k] == order[k]);
        }
        lemma_sizes_sum_ignores(clusters, front, fp, cluster);
    }
}

/// Growing a cluster that `order` lists once grows the sum by as much.
pub proof fn lemma_sizes_sum_grows(
    clusters: Map<u64, ClusterView>,
    order: Seq<u64>,
    fp: u64,
    cluster: ClusterView,
)
    requires
        order.no_duplicates(),
        order.contains(fp),
        clusters.contains_key(fp),
    ensures
        sizes_sum(clusters.insert(fp, cluster), order) + clusters[fp].size == sizes_sum(
            clusters,
            order,
        ) + cluster.size,
    decreases order.len(),
{
    let front = order.drop_last();
    assert(order.len() > 0);
    assert(forall|k: int| 0 <= k < front.len() ==> front[k] == order[k]);
    if order.last() == fp {
        assert(!front.contains(fp)) by {
            if front.contains(fp) {
                let k = choose|k: int| 0 <= k < front.len() && front[k] == fp;
                assert(order[k] == order[order.len() - 1]);
            }
        }
        lemma_sizes_sum_ignores(clusters, front, fp, cluster);
    } else {
        let k = choose|k: int| 0 <= k < order.len() && order[k] == fp;
        assert(front[k] == fp);
        assert(front.no_duplicates());
        lemma_sizes_sum_grows(clusters, front, fp, cluster);
    }
}

/// A sum of sizes that are all at least one is at least the number of
/// clusters, and at least each of the sizes.
pub proof fn lemma_sizes_sum_bounds(clusters: Map<u64, ClusterView>, order: Seq<u64>)
    requires
        forall|k: int| 0 <= k < order.len() ==> clusters[#[trigger] order[k]].size >= 1,
    ensures
        sizes_sum(clusters, order) >= order.len(),
        forall|k: int| 0 <= k < order.len() ==> sizes_sum(clusters, order) >= clusters[#[trigger] order[k]].size,
    decreases order.len(),
{
    if order.len() > 0 {
        let front = order.drop_last();
        assert(forall|k: int| 0 <= k < front.len() ==> front[k] == order[k]);
        lemma_sizes_sum_bounds(clusters, front);
        assert forall|k: int| 0 <= k < order.len() implies sizes_sum(clusters, order)
            >= clusters[#[trigger] order[k]].size by {
            if k < front.len() {
                assert(front[k] == order[k]);
            }
        }
    }
}

/// An insertion keeps the invariant, counts once, and adds a cluster exactly
/// when the fingerprint is new.
pub proof fn lemma_insert(r: Registry, fp: u64, id: Seq<char>)
    requires
        r.wf(),
    ensures
        r.insert(fp, id).wf(),
        r.insert(fp, id).total == r.total + 1,
        r.insert(fp, id).unique() == r.unique() + (if r.seen(fp) { 0nat } else { 1nat }),
        r.insert(fp, id).seen(fp),
        forall|other: u64| other != fp ==> r.insert(fp, id).seen(other) == r.seen(other),
        forall|other: u64|
            r.seen(other) ==> (#[trigger] r.insert(fp, id).clusters[other]).representative
                == r.clusters[other].representative && r.insert(fp, id).clusters[other].size
                >= r.clusters[other].size,
{
    let after = r.insert(fp, id);
    if r.seen(fp) {
        lemma_sizes_sum_grows(r.clusters, r.order, fp, after.clusters[fp]);
        assert forall|other: u64| after.clusters.contains_key(other) <==> after.order.contains(
            other,
        ) by {}
    } else {
        lemma_sizes_sum_ignores(r.clusters, r.order, fp, after.clusters[fp]);
        assert(after.order.drop_last() =~= r.order);
        assert(after.order.last() == fp);
        assert forall|other: u64| after.clusters.contains_key(other) <==> after.order.contains(
            other,
        ) by {
            if after.order.contains(other) {
                let k = choose|k: int| 0 <= k < after.order.len() && after.order[k] == other;
                if k < r.order.len() {
                    assert(r.order[k] == other);
                }
            }
            if r.order.contains(other) {
                let k = choose|k: int| 0 <= k < r.order.len() && r.order[k] == other;
                assert(after.order[k] == other);
            }
            if other == fp {
                assert(after.order[r.order.len() as int] == fp);
            }
        }
        assert(after.order.no_duplicates()) by {
            assert forall|i: int, j: int|
                0 <= i < after.order.len() && 0 <= j < after.order.len() && i != j implies after.order[i]
                != after.order[j] by {
                if i < r.order.len() {
                    assert(r.order.contains(after.order[i]));
                }
                if j < r.order.len() {
                    assert(r.order.contains(after.order[j]));
                }
            }
        }
    }
}

/// In a well-formed registry there are as many clusters as the order has
/// entries, no more than insertions, and no cluster is larger than the
/// number of insertions.
pub proof fn lemma_counts(r: Registry)
    requires
        r.wf(),
    ensures
        r.clusters.dom() == r.order.to_set(),
        r.clusters.dom().finite(),
        r.clusters.len() == r.unique(),
        r.unique() <= r.total,
        r.duplicates() >= 0,
        forall|fp: u64| r.seen(fp) ==> 1 <= (#[trigger] r.clusters[fp]).size <= r.total,
{
    assert(r.clusters.dom() =~= r.order.to_set());
    r.order.unique_seq_to_set();
    assert forall|k: int| 0 <= k < r.order.len() implies r.clusters[#[trigger] r.order[k]].size
        >= 1 by {
        assert(r.order.contains(r.order[k]));
    }
    lemma_sizes_sum_bounds(r.clusters, r.order);
    assert forall|fp: u64| r.seen(fp) implies 1 <= (#[trigger] r.clusters[fp]).size
        <= r.total by {
        assert(r.order.contains(fp));
        let k = choose|k: int| 0 <= k < r.order.len() && r.order[k] == fp;
        assert(r.clusters[r.order[k]].size <= sizes_sum(r.clusters, r.order));
    }
}

} // verus!
