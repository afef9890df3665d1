//! What a run decides outside the registry: whether its inputs can be
//! processed at all, whether a read may reach the registry, whether it is
//! passed on to the output, and how a refusal is worded. Reading the inputs
//! and writing the outputs is the caller's.

use crate::clusters::Clusters;
use crate::fastx::{FastxType, Record};
use crate::fingerprint::{mates_fingerprint, read_fingerprint};
use crate::paired::PairedRecord;
use crate::strand::{pair_flipped, single_flipped};
use vstd::prelude::*;
use vstd::string::StringExecFns;

verus! {

/// Why a run stops.
#[derive(Debug)]
pub enum DedupError {
    /// The first input is neither FASTA nor FASTQ.
    InvalidInput,
    /// The two inputs of a paired run are of different formats.
    MismatchedTypes { r1: FastxType, r2: FastxType },
    /// A read failed its validity check, for the reason given.
    InvalidRecord(String),
    /// The membership log could not be written.
    Membership(csv::Error),
}

/// What is said of an input that is neither FASTA nor FASTQ.
pub open spec fn invalid_input_text() -> Seq<char> {
    "input file is not a valid FASTA or FASTQ file"@
}

/// What is said of two inputs of different formats: both formats by name.
pub open spec fn mismatch_text(r1: FastxType, r2: FastxType) -> Seq<char> {
    "paired inputs have different file types r1: "@ + r1.name() + ", r2: "@ + r2.name()
}

/// Calls the `Display` formatting of [`csv::Error`]. Nothing is claimed of
/// the text.
#[verifier::external_body]
fn csv_error_text(error: &csv::Error) -> (text: String) {
    format!("{}", error)
}

impl DedupError {
    /// The message of an error that the library itself raises.
    pub open spec fn text(self) -> Seq<char>
        recommends
            !(self is Membership),
    {
        match self {
            DedupError::InvalidInput => invalid_input_text(),
            DedupError::MismatchedTypes { r1, r2 } => mismatch_text(r1, r2),
            DedupError::InvalidRecord(reason) => reason@,
            DedupError::Membership(_) => Seq::empty(),
        }
    }

    /// The message for the user. For a failed write of the membership log it
    /// is the writer's own.
    pub fn message(&self) -> (s: String)
        ensures
            !(self is Membership) ==> s@ == self.text(),
    {
        match self {
            DedupError::InvalidInput => "input file is not a valid FASTA or FASTQ file".to_owned(),
            DedupError::MismatchedTypes { r1, r2 } => {
                let mut s = "paired inputs have different file types r1: ".to_owned();
                let first = r1.to_string();
                s.append(first.as_str());
                s.append(", r2: ");
                let second = r2.to_string();
                s.append(second.as_str());
                s
            },
            DedupError::InvalidRecord(reason) => reason.clone(),
            DedupError::Membership(error) => csv_error_text(error),
        }
    }
}

/// Which format a run over these inputs reads, or why it cannot start.
pub open spec fn run_format(r1: FastxType, r2: Option<FastxType>) -> Result<FastxType, DedupError> {
    if r1 == FastxType::Invalid {
        Err(DedupError::InvalidInput)
    } else if r2 is Some && r2->0 != r1 {
        Err(DedupError::MismatchedTypes { r1, r2: r2->0 })
    } else {
        Ok(r1)
    }
}

/// Decides, before any read is processed, whether a run can start: the first
/// input must be FASTA or FASTQ, and the second, if there is one, of the same
/// format.
pub fn check_inputs(r1: FastxType, r2: Option<FastxType>) -> (format: Result<
    FastxType,
    DedupError,
>)
    ensures
        format == run_format(r1, r2),
{
    if r1 == FastxType::Invalid {
        return Err(DedupError::InvalidInput);
    }
    match r2 {
        Some(other) => {
            if other != r1 {
                Err(DedupError::MismatchedTypes { r1, r2: other })
            } else {
                Ok(r1)
            }
        },
        None => Ok(r1),
    }
}

/// The number of clusters to make room for, from the size of the first
/// input: one for every 400 bytes.
pub fn capacity_hint(input_bytes: usize) -> (capacity: usize)
    ensures
        capacity == input_bytes / 400,
{
    input_bytes / 400
}

/// What handing one read to a run does. An invalid read stops the run and
/// leaves the registry and the log as they were. A valid one is inserted;
/// the result tells the caller what to do with the read: `Ok(true)`, write it
/// to the output, once and as it was read; `Ok(false)`, drop it.
pub open spec fn admitted(
    before: &Clusters,
    after: &Clusters,
    defect: Option<Seq<char>>,
    fp: u64,
    id: Seq<char>,
    was_flipped: bool,
    result: Result<bool, DedupError>,
) -> bool {
    match defect {
        Some(reason) => {
            &&& result matches Err(DedupError::InvalidRecord(said))
            &&& said@ == reason
            &&& after.wf()
            &&& after@ == before@
            &&& after.prefix_length() == before.prefix_length()
            &&& after.logs_membership() == before.logs_membership()
            &&& after.log_intact() == before.log_intact()
            &&& after.membership_rows() == before.membership_rows()
        },
        None => match result {
            Ok(first) => Clusters::inserted(before, after, fp, id, was_flipped, Ok(first)),
            Err(DedupError::Membership(error)) => Clusters::inserted(
                before,
                after,
                fp,
                id,
                was_flipped,
                Err(error),
            ),
            Err(_) => false,
        },
    }
}

/// Takes one single read of a run: checks it, and inserts it if it is valid.
/// `Ok(true)` means that the read is the first of its cluster and is to be
/// passed on; `Ok(false)` that it is dropped.
pub fn admit_single<R: Record>(clusters: &mut Clusters, record: &R, use_revcomp: bool) -> (r:
    Result<bool, DedupError>)
    requires
        old(clusters).wf(),
        old(clusters)@.total < u64::MAX,
    ensures
        admitted(
            old(clusters),
            final(clusters),
            record.defect(),
            read_fingerprint(record.seq_view(), use_revcomp, old(clusters).prefix_length()),
            record.id_view(),
            single_flipped(record.seq_view(), use_revcomp),
            r,
        ),
{
    match record.check() {
        Ok(_) => {},
        Err(reason) => {
            return Err(DedupError::InvalidRecord(reason.to_owned()));
        },
    }
    match clusters.insert_single(record, use_revcomp) {
        Ok(first) => Ok(first),
        Err(error) => Err(DedupError::Membership(error)),
    }
}

/// Takes one pair of mates of a run: checks both mates, and inserts the pair
/// if they are valid. `Ok(true)` means that both mates are to be passed on.
pub fn admit_pair<R: Record>(
    clusters: &mut Clusters,
    record: &PairedRecord<R>,
    use_revcomp: bool,
) -> (r: Result<bool, DedupError>)
    requires
        old(clusters).wf(),
        old(clusters)@.total < u64::MAX,
    ensures
        admitted(
            old(clusters),
            final(clusters),
            record.defect(),
            mates_fingerprint(
                record.mate1().seq_view(),
                record.mate2().seq_view(),
                use_revcomp,
                old(clusters).prefix_length(),
            ),
            record.id_view(),
            pair_flipped(record.mate1().seq_view(), record.mate2().seq_view(), use_revcomp),
            r,
        ),
{
    match record.check() {
        Ok(_) => {},
        Err(reason) => {
            return Err(DedupError::InvalidRecord(reason.to_owned()));
        },
    }
    match clusters.insert_pair(record, use_revcomp) {
        Ok(first) => Ok(first),
        Err(error) => Err(DedupError::Membership(error)),
    }
}

} // verus!
