//! What holds of the engine as a whole: the counters under any series of
//! insertions, that equal runs give equal reports, and how strand symmetry
//! and prefix truncation decide which reads share a cluster.

use crate::clusters::Clusters;
use crate::fingerprint::{fingerprint_single, prefix, read_fingerprint};
use crate::registry::{lemma_counts, lemma_insert, Registry};
use crate::report::rc_marker;
use crate::strand::{
    canonical_pair, canonical_single, lemma_lex_total, lemma_reverse_complement_involution,
    lex_lt, pair_flipped, pair_lt, reverse_complement, single_flipped,
};
use vstd::prelude::*;

verus! {

/// The fingerprints of a series of insertions.
pub open spec fn fingerprints(items: Seq<(u64, Seq<char>)>) -> Seq<u64> {
    Seq::new(items.len(), |i: int| items[i].0)
}

/// After any series of insertions the registry is well formed, every
/// insertion was counted, the total is the unique reads and the duplicates
/// together, and there is one cluster for each distinct fingerprint that the
/// registry has met.
pub proof fn lemma_counters_hold(start: Registry, items: Seq<(u64, Seq<char>)>)
    requires
        start.wf(),
    ensures
        start.insert_all(items).wf(),
        start.insert_all(items).total == start.total + items.len(),
        start.insert_all(items).total == start.insert_all(items).unique() + start.insert_all(
            items,
        ).duplicates(),
        start.insert_all(items).duplicates() >= 0,
        start.insert_all(items).order.to_set() == start.order.to_set().union(
            fingerprints(items).to_set(),
        ),
        start.insert_all(items).unique() == start.order.to_set().union(
            fingerprints(items).to_set(),
        ).len(),
    decreases items.len(),
{
    let after = start.insert_all(items);
    if items.len() == 0 {
        assert(fingerprints(items).to_set() =~= Set::<u64>::empty());
        assert(after.order.to_set() =~= start.order.to_set().union(fingerprints(items).to_set()));
    } else {
        let front = items.drop_last();
        let before = start.insert_all(front);
        let fp = items.last().0;
        lemma_counters_hold(start, front);
        lemma_insert(before, fp, items.last().1);
        assert(after.order.to_set() =~= before.order.to_set().insert(fp)) by {
            if before.seen(fp) {
                assert(before.order.contains(fp));
            } else {
                assert forall|x: u64| after.order.contains(x) <==> (before.order.contains(x) || x
                    == fp) by {
                    if after.order.contains(x) {
                        let k = choose|k: int| 0 <= k < after.order.len() && after.order[k] == x;
                        if k < before.order.len() {
                            assert(before.order[k] == x);
                        }
                    }
                    if before.order.contains(x) {
                        let k = choose|k: int| 0 <= k < before.order.len() && before.order[k] == x;
                        assert(after.order[k] == x);
                    }
                    if x == fp {
                        assert(after.order[before.order.len() as int] == fp);
                    }
                }
            }
        }
        assert(fingerprints(items).to_set() =~= fingerprints(front).to_set().insert(fp)) by {
            assert forall|x: u64| fingerprints(items).contains(x) <==> (fingerprints(
                front,
            ).contains(x) || x == fp) by {
                if fingerprints(items).contains(x) {
                    let k = choose|k: int|
                        0 <= k < fingerprints(items).len() && fingerprints(items)[k] == x;
                    if k < front.len() {
                        assert(fingerprints(front)[k] == x);
                    }
                }
                if fingerprints(front).contains(x) {
                    let k = choose|k: int|
                        0 <= k < fingerprints(front).len() && fingerprints(front)[k] == x;
                    assert(fingerprints(items)[k] == x);
                }
                if x == fp {
                    assert(fingerprints(items)[items.len() - 1] == fp);
                }
            }
        }
        assert(after.order.to_set() =~= start.order.to_set().union(fingerprints(items).to_set()));
    }
    lemma_counts(after);
    after.order.unique_seq_to_set();
}

/// A cluster, once made, keeps its representative whatever is inserted
/// later, and never shrinks.
pub proof fn lemma_representatives_stay(start: Registry, items: Seq<(u64, Seq<char>)>, fp: u64)
    requires
        start.wf(),
        start.seen(fp),
    ensures
        start.insert_all(items).seen(fp),
        start.insert_all(items).clusters[fp].representative == start.clusters[fp].representative,
        start.insert_all(items).clusters[fp].size >= start.clusters[fp].size,
    decreases items.len(),
{
    if items.len() > 0 {
        let before = start.insert_all(items.drop_last());
        lemma_representatives_stay(start, items.drop_last(), fp);
        lemma_counters_hold(start, items.drop_last());
        lemma_insert(before, items.last().0, items.last().1);
    }
}

/// A run from the empty registry ends with as many clusters as there are
/// distinct fingerprints among its insertions.
pub proof fn lemma_unique_is_distinct_fingerprints(items: Seq<(u64, Seq<char>)>)
    ensures
        Registry::empty().insert_all(items).unique() == fingerprints(items).to_set().len(),
        Registry::empty().insert_all(items).total == items.len(),
{
    assert(Registry::empty().order.to_set() =~= Set::<u64>::empty());
    lemma_counters_hold(Registry::empty(), items);
    assert(Set::<u64>::empty().union(fingerprints(items).to_set()) =~= fingerprints(
        items,
    ).to_set());
}

/// Two runs that stand alike, with no failed write behind them, and take the
/// same read end alike: when both insertions succeed they tell the same,
/// leave the same registry, and have the same membership log and the same
/// size summary.
pub proof fn lemma_runs_agree(
    run1_before: &Clusters,
    run1_after: &Clusters,
    result1: Result<bool, csv::Error>,
    run2_before: &Clusters,
    run2_after: &Clusters,
    result2: Result<bool, csv::Error>,
    fp: u64,
    id: Seq<char>,
    was_flipped: bool,
)
    requires
        run1_before@ == run2_before@,
        run1_before.logs_membership() == run2_before.logs_membership(),
        run1_before.log_intact(),
        run2_before.log_intact(),
        run1_before.membership_rows() == run2_before.membership_rows(),
        Clusters::inserted(run1_before, run1_after, fp, id, was_flipped, result1),
        Clusters::inserted(run2_before, run2_after, fp, id, was_flipped, result2),
        result1 is Ok,
        result2 is Ok,
    ensures
        result1 == result2,
        run1_after@ == run2_after@,
        run1_after@.summary() == run2_after@.summary(),
        run1_after.membership_rows() == run2_after.membership_rows(),
{
}

/// With strand symmetry a read and its reverse complement have the same
/// canonical form, hence the same fingerprint under any prefix length.
pub proof fn lemma_strand_symmetry(s: Seq<u8>, limit: Option<usize>)
    ensures
        canonical_single(reverse_complement(s), true) == canonical_single(s, true),
        read_fingerprint(reverse_complement(s), true, limit) == read_fingerprint(s, true, limit),
{
    lemma_reverse_complement_involution(s);
    lemma_lex_total(s, reverse_complement(s));
}

/// Without strand symmetry a read and its reverse complement, inserted as
/// two reads, make two clusters, unless their fingerprints are the same (as
/// for a read that is its own reverse complement).
pub proof fn lemma_strands_apart(s: Seq<u8>, limit: Option<usize>, id1: Seq<char>, id2: Seq<char>)
    requires
        read_fingerprint(s, false, limit) != read_fingerprint(reverse_complement(s), false, limit),
    ensures
        Registry::empty().insert(read_fingerprint(s, false, limit), id1).insert(
            read_fingerprint(reverse_complement(s), false, limit),
            id2,
        ).unique() == 2,
{
    let first = Registry::empty().insert(read_fingerprint(s, false, limit), id1);
    assert(Registry::empty().order.no_duplicates());
    lemma_insert(Registry::empty(), read_fingerprint(s, false, limit), id1);
    lemma_insert(first, read_fingerprint(reverse_complement(s), false, limit), id2);
}

/// With strand symmetry a read and then its reverse complement make one
/// cluster, represented by the first. When the read is smaller than its
/// reverse complement, it is the second that was flipped, and its row in the
/// membership log carries the mark.
pub proof fn lemma_strands_together(
    s: Seq<u8>,
    limit: Option<usize>,
    id1: Seq<char>,
    id2: Seq<char>,
)
    requires
        lex_lt(s, reverse_complement(s)),
    ensures
        ({
            let first = Registry::empty().insert(read_fingerprint(s, true, limit), id1);
            let fp2 = read_fingerprint(reverse_complement(s), true, limit);
            &&& first.insert(fp2, id2).unique() == 1
            &&& first.insert(fp2, id2).clusters[fp2].size == 2
            &&& !single_flipped(s, true)
            &&& single_flipped(reverse_complement(s), true)
            &&& first.membership_row(fp2, id2, single_flipped(reverse_complement(s), true)) == (
                id1,
                id2 + rc_marker(),
            )
        }),
{
    let fp1 = read_fingerprint(s, true, limit);
    let first = Registry::empty().insert(fp1, id1);
    lemma_strand_symmetry(s, limit);
    lemma_reverse_complement_involution(s);
    lemma_lex_total(s, reverse_complement(s));
    assert(Registry::empty().order.no_duplicates());
    lemma_insert(Registry::empty(), fp1, id1);
    lemma_insert(first, fp1, id2);
}

/// Without strand symmetry two reads that agree in what the prefix length
/// keeps of them have the same fingerprint, and make one cluster.
pub proof fn lemma_prefix_collapses(
    s1: Seq<u8>,
    s2: Seq<u8>,
    limit: Option<usize>,
    id1: Seq<char>,
    id2: Seq<char>,
)
    requires
        prefix(s1, limit) == prefix(s2, limit),
    ensures
        read_fingerprint(s1, false, limit) == read_fingerprint(s2, false, limit),
        Registry::empty().insert(read_fingerprint(s1, false, limit), id1).insert(
            read_fingerprint(s2, false, limit),
            id2,
        ).unique() == 1,
{
    let fp = read_fingerprint(s1, false, limit);
    assert(Registry::empty().order.no_duplicates());
    lemma_insert(Registry::empty(), fp, id1);
    lemma_insert(Registry::empty().insert(fp, id1), fp, id2);
}

/// Without a prefix length, or with one that neither read exceeds, the whole
/// read is hashed: two reads make two clusters unless the hashes of their
/// full sequences collide.
pub proof fn lemma_full_length_keeps_apart(
    s1: Seq<u8>,
    s2: Seq<u8>,
    limit: Option<usize>,
    id1: Seq<char>,
    id2: Seq<char>,
)
    requires
        limit is None || (limit->0 >= s1.len() && limit->0 >= s2.len()),
        fingerprint_single(s1, None) != fingerprint_single(s2, None),
    ensures
        prefix(s1, limit) == s1,
        prefix(s2, limit) == s2,
        Registry::empty().insert(read_fingerprint(s1, false, limit), id1).insert(
            read_fingerprint(s2, false, limit),
            id2,
        ).unique() == 2,
{
    assert(prefix(s1, limit) =~= s1);
    assert(prefix(s2, limit) =~= s2);
    assert(prefix(s1, None) =~= s1);
    assert(prefix(s2, None) =~= s2);
    let fp1 = read_fingerprint(s1, false, limit);
    assert(Registry::empty().order.no_duplicates());
    lemma_insert(Registry::empty(), fp1, id1);
    lemma_insert(Registry::empty().insert(fp1, id1), read_fingerprint(s2, false, limit), id2);
}

/// With strand symmetry a pair that is strictly smaller than the pair of its
/// reverse complements, first mates compared before second mates, is
/// canonical as given. Any other pair is canonical flipped, both mates at
/// once.
pub proof fn lemma_pair_tie_break(m1: Seq<u8>, m2: Seq<u8>)
    ensures
        pair_lt((m1, m2), (reverse_complement(m1), reverse_complement(m2))) ==> canonical_pair(
            m1,
            m2,
            true,
        ) == (m1, m2) && !pair_flipped(m1, m2, true),
        !pair_lt((m1, m2), (reverse_complement(m1), reverse_complement(m2))) ==> canonical_pair(
            m1,
            m2,
            true,
        ) == (reverse_complement(m1), reverse_complement(m2)) && pair_flipped(m1, m2, true),
{
}

} // verus!
