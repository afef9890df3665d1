//! The cluster registry: one cluster per fingerprint, in first-seen order,
//! with the running counters, the membership log and the size summary.

use crate::fastx::Record;
use crate::fingerprint::{
    fingerprint, fingerprint_of_pair, mates_fingerprint, read_fingerprint,
};
use crate::paired::PairedRecord;
use crate::registry::{lemma_counts, lemma_insert, ClusterView, Registry};
use crate::report::{decimal_string, mark_member, membership_header, summary_header};
use crate::sink::{write_row, CsvSink};
use crate::strand::{canonicalize, canonicalize_pair, pair_flipped, single_flipped};
use std::collections::HashMap;
use vstd::prelude::*;

verus! {

/// The reads that share one fingerprint.
pub struct Cluster {
    id: String,
    size: u64,
}

impl View for Cluster {
    type V = ClusterView;

    closed spec fn view(&self) -> ClusterView {
        ClusterView { representative: self.id@, size: self.size as nat }
    }
}

/// The state of one deduplication run.
pub struct Clusters<'a> {
    cluster_map: HashMap<u64, Cluster>,
    cluster_order: Vec<u64>,
    cluster_csv_writer: Option<CsvSink<'a>>,
    total_records: u64,
    prefix_length_opt: Option<usize>,
}

impl<'a> View for Clusters<'a> {
    type V = Registry;

    closed spec fn view(&self) -> Registry {
        Registry {
            clusters: Map::new(
                |fp: u64| self.cluster_map@.contains_key(fp),
                |fp: u64| self.cluster_map@[fp]@,
            ),
            order: self.cluster_order@,
            total: self.total_records as nat,
        }
    }
}

impl<'a> Clusters<'a> {
    /// The invariant of the registry holds.
    pub open spec fn wf(&self) -> bool {
        self@.wf()
    }

    /// The prefix length that fingerprints are cut to, if any.
    pub closed spec fn prefix_length(&self) -> Option<usize> {
        self.prefix_length_opt
    }

    /// Whether a membership log was configured.
    pub closed spec fn logs_membership(&self) -> bool {
        self.cluster_csv_writer is Some
    }

    /// The rows that the membership log has accepted, the header first.
    /// Empty without a log.
    pub closed spec fn membership_rows(&self) -> Seq<(Seq<char>, Seq<char>)> {
        match self.cluster_csv_writer {
            Some(sink) => sink.rows(),
            None => Seq::empty(),
        }
    }

    /// Whether no write to the membership log has failed. Holds without a
    /// log.
    pub closed spec fn log_intact(&self) -> bool {
        match self.cluster_csv_writer {
            Some(sink) => sink.intact(),
            None => true,
        }
    }

    /// What one insertion under fingerprint `fp` does. The registry takes
    /// the read whether or not the log could be written. The insertion
    /// succeeds when there is no log; when it succeeds it tells whether the
    /// fingerprint was new, and a log that was intact is still so and has
    /// one more row.
    pub open spec fn inserted(
        before: &Self,
        after: &Self,
        fp: u64,
        id: Seq<char>,
        was_flipped: bool,
        result: Result<bool, csv::Error>,
    ) -> bool {
        &&& after.wf()
        &&& after@ == before@.insert(fp, id)
        &&& after.prefix_length() == before.prefix_length()
        &&& after.logs_membership() == before.logs_membership()
        &&& match result {
            Ok(first) => {
                &&& first == !before@.seen(fp)
                &&& before.log_intact() ==> after.log_intact()
                &&& before.log_intact() ==> after.membership_rows() == if before.logs_membership() {
                    before.membership_rows().push(before@.membership_row(fp, id, was_flipped))
                } else {
                    before.membership_rows()
                }
            },
            Err(_) => before.logs_membership(),
        }
    }

    /// An empty registry. With an output, the membership log is opened on it
    /// and its header written; only that write can fail. The capacity is a
    /// hint for the expected number of clusters.
    pub fn from_writer<T: std::io::Write + 'a>(
        cluster_output_opt: Option<T>,
        prefix_length_opt: Option<usize>,
        capacity: usize,
    ) -> (made: Result<Self, csv::Error>)
        ensures
            match made {
                Ok(clusters) => {
                    &&& clusters.wf()
                    &&& clusters@ == Registry::empty()
                    &&& clusters.log_intact()
                    &&& clusters.prefix_length() == prefix_length_opt
                    &&& clusters.logs_membership() == (cluster_output_opt is Some)
                    &&& clusters.membership_rows() == if cluster_output_opt is Some {
                        seq![membership_header()]
                    } else {
                        Seq::empty()
                    }
                },
                Err(_) => cluster_output_opt is Some,
            },
    {
        let cluster_csv_writer = match cluster_output_opt {
            Some(cluster_output) => {
                let mut sink = CsvSink::from_writer(cluster_output);
                match write_row(&mut sink, "representative read id", "read id") {
                    Ok(_) => Some(sink),
                    Err(error) => {
                        return Err(error);
                    },
                }
            },
            None => None,
        };
        let clusters = Clusters {
            cluster_map: HashMap::with_capacity(capacity),
            cluster_order: Vec::with_capacity(capacity),
            cluster_csv_writer,
            total_records: 0,
            prefix_length_opt,
        };
        proof {
            assert(clusters@.clusters =~= Map::<u64, ClusterView>::empty());
            assert(clusters@.order =~= Seq::<u64>::empty());
        }
        Ok(clusters)
    }

    /// Registers one read under its fingerprint. Every call counts. A new
    /// fingerprint opens a cluster that the read represents; a known one
    /// grows its cluster. With a membership log, the row of the read is
    /// written at once: the representative, then the read, marked when it is
    /// a duplicate found by its reverse complement.
    pub fn insert_record(&mut self, seq_hash: u64, id: String, is_revcomp: bool) -> (r: Result<
        bool,
        csv::Error,
    >)
        requires
            old(self).wf(),
            old(self)@.total < u64::MAX,
        ensures
            Self::inserted(old(self), final(self), seq_hash, id@, is_revcomp, r),
    {
        proof {
            lemma_counts(self@);
            lemma_insert(self@, seq_hash, id@);
        }
        let ghost before = self@;
        self.total_records = self.total_records + 1;
        match self.cluster_map.remove(&seq_hash) {
            Some(cluster) => {
                let written = match &mut self.cluster_csv_writer {
                    Some(sink) => {
                        let member = mark_member(id, is_revcomp);
                        write_row(sink, cluster.id.as_str(), member.as_str())
                    },
                    None => Ok(()),
                };
                let grown = Cluster { id: cluster.id, size: cluster.size + 1 };
                self.cluster_map.insert(seq_hash, grown);
                proof {
                    assert(self@.clusters =~= before.insert(seq_hash, id@).clusters);
                }
                match written {
                    Ok(_) => Ok(false),
                    Err(error) => Err(error),
                }
            },
            None => {
                let written = match &mut self.cluster_csv_writer {
                    Some(sink) => write_row(sink, id.as_str(), id.as_str()),
                    None => Ok(()),
                };
                self.cluster_map.insert(seq_hash, Cluster { id, size: 1 });
                self.cluster_order.push(seq_hash);
                proof {
                    assert(self@.clusters =~= before.insert(seq_hash, id@).clusters);
                }
                match written {
                    Ok(_) => Ok(true),
                    Err(error) => Err(error),
                }
            },
        }
    }

    /// Inserts a single read: its canonical form is fingerprinted, and the
    /// read is registered under its id.
    pub fn insert_single<R: Record>(&mut self, record: &R, use_revcomp: bool) -> (r: Result<
        bool,
        csv::Error,
    >)
        requires
            old(self).wf(),
            old(self)@.total < u64::MAX,
        ensures
            Self::inserted(
                old(self),
                final(self),
                read_fingerprint(record.seq_view(), use_revcomp, old(self).prefix_length()),
                record.id_view(),
                single_flipped(record.seq_view(), use_revcomp),
                r,
            ),
    {
        let (canonical_seq, is_revcomp) = canonicalize(record.seq(), use_revcomp);
        let seq_hash = fingerprint(canonical_seq.as_slice(), self.prefix_length_opt);
        self.insert_record(seq_hash, record.id().to_owned(), is_revcomp)
    }

    /// Inserts a pair of mates: the canonical pair is fingerprinted, and the
    /// pair is registered under its id.
    pub fn insert_pair<R: Record>(&mut self, record: &PairedRecord<R>, use_revcomp: bool) -> (r:
        Result<bool, csv::Error>)
        requires
            old(self).wf(),
            old(self)@.total < u64::MAX,
        ensures
            Self::inserted(
                old(self),
                final(self),
                mates_fingerprint(
                    record.mate1().seq_view(),
                    record.mate2().seq_view(),
                    use_revcomp,
                    old(self).prefix_length(),
                ),
                record.id_view(),
                pair_flipped(record.mate1().seq_view(), record.mate2().seq_view(), use_revcomp),
                r,
            ),
    {
        let (r1_canon, r2_canon, is_revcomp) = canonicalize_pair(
            record.r1().seq(),
            record.r2().seq(),
            use_revcomp,
        );
        let seq_hash = fingerprint_of_pair(
            r1_canon.as_slice(),
            r2_canon.as_slice(),
            self.prefix_length_opt,
        );
        self.insert_record(seq_hash, record.id().to_owned(), is_revcomp)
    }

    /// The number of clusters.
    pub fn unique_records(&self) -> (n: u64)
        requires
            self.wf(),
        ensures
            n == self@.unique(),
    {
        proof {
            lemma_counts(self@);
        }
        self.cluster_order.len() as u64
    }

    /// The number of reads that were not the first of their cluster.
    pub fn duplicate_records(&self) -> (n: u64)
        requires
            self.wf(),
        ensures
            n == self@.duplicates(),
            n == self@.total - self@.unique(),
    {
        proof {
            lemma_counts(self@);
        }
        self.total_records - self.unique_records()
    }

    /// The number of insertions.
    pub fn total_records(&self) -> (n: u64)
        ensures
            n == self@.total,
    {
        self.total_records
    }

    /// Writes the size summary: the header, then one row per cluster in
    /// first-seen order. Stops at the first row that the sink refuses, and
    /// fails only then: the sink is intact afterwards exactly when it was
    /// before and the summary was written. On success a sink that was intact
    /// has taken exactly these rows.
    pub fn write_sizes(&self, csv_writer: &mut CsvSink) -> (r: Result<(), csv::Error>)
        requires
            self.wf(),
        ensures
            final(csv_writer).intact() == (old(csv_writer).intact() && r is Ok),
            r is Ok && old(csv_writer).intact() ==> final(csv_writer).rows() == old(csv_writer).rows().push(
                summary_header(),
            ) + self@.summary(),
    {
        match write_row(csv_writer, "representative read id", "cluster size") {
            Ok(_) => {},
            Err(error) => {
                return Err(error);
            },
        }
        let ghost start = old(csv_writer).rows().push(summary_header());
        let mut i: usize = 0;
        while i < self.cluster_order.len()
            invariant
                self.wf(),
                i <= self.cluster_order@.len(),
                csv_writer.intact() == old(csv_writer).intact(),
                old(csv_writer).intact() ==> csv_writer.rows() == start + self@.summary().subrange(
                    0,
                    i as int,
                ),
            decreases self.cluster_order@.len() - i,
        {
            let cluster_hash = self.cluster_order[i];
            proof {
                assert(self@.order.contains(self@.order[i as int]));
            }
            match self.cluster_map.get(&cluster_hash) {
                Some(cluster) => {
                    let size = decimal_string(cluster.size);
                    match write_row(csv_writer, cluster.id.as_str(), size.as_str()) {
                        Ok(_) => {},
                        Err(error) => {
                            return Err(error);
                        },
                    }
                    proof {
                        let rows = self@.summary();
                        assert(rows.subrange(0, i + 1) =~= rows.subrange(0, i as int).push(
                            rows[i as int],
                        ));
                        if old(csv_writer).intact() {
                            assert(csv_writer.rows() =~= start + rows.subrange(0, i + 1));
                        }
                    }
                },
                None => {
                    assert(false);
                },
            }
            i = i + 1;
        }
        proof {
            let rows = self@.summary();
            assert(rows.subrange(0, rows.len() as int) =~= rows);
        }
        Ok(())
    }
}

} // verus!
