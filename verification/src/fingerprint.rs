//! Fingerprints: a canonical form, cut to a prefix, hashed to 64 bits with
//! the fixed-key hasher of the standard library.

use std::collections::hash_map::DefaultHasher;
use std::hash::Hasher;
use crate::strand::{canonical_pair, canonical_single};
use vstd::prelude::*;
use vstd::slice::slice_subrange;
use vstd::std_specs::hash::DefaultHasherAdditionalSpecFns;

verus! {

/// How many leading bytes of a sequence of length `len` are hashed: all of
/// them without a limit, else at most `limit`.
pub open spec fn prefix_len(limit: Option<usize>, len: nat) -> nat {
    match limit {
        Some(n) => if (n as nat) < len { n as nat } else { len },
        None => len,
    }
}

/// The part of a sequence that is hashed.
pub open spec fn prefix(s: Seq<u8>, limit: Option<usize>) -> Seq<u8> {
    s.subrange(0, prefix_len(limit, s.len()) as int)
}

/// What is hashed between the two mates of a pair, so that the place where
/// the first mate ends takes part in the fingerprint.
pub open spec fn mate_separator() -> Seq<u8> {
    seq![0u8, 0u8, 0u8, 0u8]
}

/// The fingerprint of a single canonical sequence: the hash of its prefix.
pub open spec fn fingerprint_single(s: Seq<u8>, limit: Option<usize>) -> u64 {
    DefaultHasher::spec_finish(seq![prefix(s, limit)])
}

/// The fingerprint of a canonical pair: the hash of the first mate's prefix,
/// the separator, and the second mate's prefix, in this order.
pub open spec fn fingerprint_pair(m1: Seq<u8>, m2: Seq<u8>, limit: Option<usize>) -> u64 {
    DefaultHasher::spec_finish(seq![prefix(m1, limit), mate_separator(), prefix(m2, limit)])
}

/// The fingerprint of a single read: that of its canonical form.
pub open spec fn read_fingerprint(seq: Seq<u8>, strand_symmetric: bool, limit: Option<usize>) -> u64 {
    fingerprint_single(canonical_single(seq, strand_symmetric), limit)
}

/// The fingerprint of a pair of mates: that of its canonical form.
pub open spec fn mates_fingerprint(
    m1: Seq<u8>,
    m2: Seq<u8>,
    strand_symmetric: bool,
    limit: Option<usize>,
) -> u64 {
    let canonical = canonical_pair(m1, m2, strand_symmetric);
    fingerprint_pair(canonical.0, canonical.1, limit)
}

/// The leading bytes of `seq` that take part in its fingerprint.
pub fn get_prefix<'a>(seq: &'a [u8], limit: Option<usize>) -> (p: &'a [u8])
    ensures
        p@ == prefix(seq@, limit),
{
    let len = seq.len();
    let keep = match limit {
        Some(n) => if n < len { n } else { len },
        None => len,
    };
    slice_subrange(seq, 0, keep)
}

/// Hashes the prefix of one canonical sequence.
pub fn fingerprint(canonical: &[u8], limit: Option<usize>) -> (fp: u64)
    ensures
        fp == fingerprint_single(canonical@, limit),
{
    let mut hasher = DefaultHasher::new();
    hasher.write(get_prefix(canonical, limit));
    hasher.finish()
}

/// Hashes the prefixes of the two mates of a canonical pair, with the
/// separator between them. Each mate is cut on its own.
pub fn fingerprint_of_pair(canonical1: &[u8], canonical2: &[u8], limit: Option<usize>) -> (fp: u64)
    ensures
        fp == fingerprint_pair(canonical1@, canonical2@, limit),
{
    let separator: [u8; 4] = [0, 0, 0, 0];
    let mut hasher = DefaultHasher::new();
    hasher.write(get_prefix(canonical1, limit));
    hasher.write(separator.as_slice());
    hasher.write(get_prefix(canonical2, limit));
    proof {
        assert(separator@ =~= mate_separator());
        assert(hasher@ =~= seq![
            prefix(canonical1@, limit),
            mate_separator(),
            prefix(canonical2@, limit),
        ]);
    }
    hasher.finish()
}

} // verus!
