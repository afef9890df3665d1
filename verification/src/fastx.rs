//! Reads as the engine sees them: an id, a sequence, and the verdict of the
//! reader's validity check; and the two input formats.

use vstd::prelude::*;

verus! {

/// A read: an identifier, a sequence of bytes, and a validity check.
pub trait Record {
    /// The identifier.
    spec fn id_view(&self) -> Seq<char>;

    /// The sequence.
    spec fn seq_view(&self) -> Seq<u8>;

    /// Why the read is not valid, if it is not.
    spec fn defect(&self) -> Option<Seq<char>>;

    fn id(&self) -> (id: &str)
        ensures
            id@ == self.id_view(),
    ;

    fn seq(&self) -> (seq: &[u8])
        ensures
            seq@ == self.seq_view(),
    ;

    fn check(&self) -> (verdict: Result<(), &str>)
        ensures
            match verdict {
                Ok(_) => self.defect() is None,
                Err(reason) => self.defect() == Some(reason@),
            },
    ;
}

/// A read held as plain values, with the verdict that its reader reached.
pub struct SeqRecord {
    id: String,
    seq: Vec<u8>,
    defect: Option<String>,
}

impl SeqRecord {
    /// A valid read with this id and sequence.
    pub fn with_attrs(id: &str, seq: &[u8]) -> (record: SeqRecord)
        ensures
            record.id_view() == id@,
            record.seq_view() == seq@,
            record.defect() is None,
    {
        SeqRecord { id: id.to_owned(), seq: vstd::slice::slice_to_vec(seq), defect: None }
    }

    /// A read that its reader found invalid for the given reason.
    pub fn with_defect(id: &str, seq: &[u8], reason: &str) -> (record: SeqRecord)
        ensures
            record.id_view() == id@,
            record.seq_view() == seq@,
            record.defect() == Some(reason@),
    {
        SeqRecord {
            id: id.to_owned(),
            seq: vstd::slice::slice_to_vec(seq),
            defect: Some(reason.to_owned()),
        }
    }
}

impl Record for SeqRecord {
    closed spec fn id_view(&self) -> Seq<char> {
        self.id@
    }

    closed spec fn seq_view(&self) -> Seq<u8> {
        self.seq@
    }

    closed spec fn defect(&self) -> Option<Seq<char>> {
        match self.defect {
            Some(reason) => Some(reason@),
            None => None,
        }
    }

    fn id(&self) -> (id: &str) {
        self.id.as_str()
    }

    fn seq(&self) -> (seq: &[u8]) {
        self.seq.as_slice()
    }

    fn check(&self) -> (verdict: Result<(), &str>) {
        match &self.defect {
            Some(reason) => Err(reason.as_str()),
            None => Ok(()),
        }
    }
}

/// The format of an input file, told by its first byte.
#[derive(Debug, Clone, Copy, PartialEq, Eq, Structural)]
pub enum FastxType {
    Fastq,
    Fasta,
    Invalid,
}

/// The format that a file starting with `first_byte` has: `>` opens FASTA,
/// `@` opens FASTQ, and nothing else is accepted.
pub open spec fn format_of(first_byte: u8) -> FastxType {
    if first_byte == 62 {
        FastxType::Fasta
    } else if first_byte == 64 {
        FastxType::Fastq
    } else {
        FastxType::Invalid
    }
}

/// Tells the format of an input from its first byte.
pub fn fastx_type(first_byte: u8) -> (format: FastxType)
    ensures
        format == format_of(first_byte),
{
    if first_byte == 62 {
        FastxType::Fasta
    } else if first_byte == 64 {
        FastxType::Fastq
    } else {
        FastxType::Invalid
    }
}

impl FastxType {
    /// The name of the format in messages.
    pub open spec fn name(self) -> Seq<char> {
        match self {
            FastxType::Fasta => "fasta"@,
            FastxType::Fastq => "fastq"@,
            FastxType::Invalid => "invalid"@,
        }
    }

    /// The name of the format as a string.
    pub fn to_string(&self) -> (s: String)
        ensures
            s@ == self.name(),
    {
        match self {
            FastxType::Fasta => "fasta".to_owned(),
            FastxType::Fastq => "fastq".to_owned(),
            FastxType::Invalid => "invalid".to_owned(),
        }
    }
}

} // verus!
