//! Strand symmetry: the reverse complement of a sequence, the byte-wise
//! lexicographic order, and the choice of a canonical orientation.

use vstd::prelude::*;

verus! {

/// The complement of one symbol of the IUPAC DNA alphabet. Case is kept, and
/// every byte outside the alphabet is its own complement.
pub open spec fn complement(b: u8) -> u8 {
    match b {
        65 => 84,  // A -> T
        71 => 67,  // G -> C
        67 => 71,  // C -> G
        84 => 65,  // T -> A
        89 => 82,  // Y -> R
        82 => 89,  // R -> Y
        75 => 77,  // K -> M
        77 => 75,  // M -> K
        68 => 72,  // D -> H
        86 => 66,  // V -> B
        72 => 68,  // H -> D
        66 => 86,  // B -> V
        97 => 116,  // a -> t
        103 => 99,  // g -> c
        99 => 103,  // c -> g
        116 => 97,  // t -> a
        121 => 114,  // y -> r
        114 => 121,  // r -> y
        107 => 109,  // k -> m
        109 => 107,  // m -> k
        100 => 104,  // d -> h
        118 => 98,  // v -> b
        104 => 100,  // h -> d
        98 => 118,  // b -> v
        _ => b,
    }
}

/// The reverse complement: the symbols in reverse order, each complemented.
pub open spec fn reverse_complement(s: Seq<u8>) -> Seq<u8> {
    Seq::new(s.len(), |i: int| complement(s[s.len() - 1 - i]))
}

/// Whether `a` comes before `b` byte by byte, looking only at positions from
/// `from` on: the first position where they differ decides, and a sequence
/// that ends first comes first.
pub open spec fn lex_lt_from(a: Seq<u8>, b: Seq<u8>, from: int) -> bool
    decreases a.len() - from,
{
    if from < 0 || from >= b.len() {
        false
    } else if from >= a.len() {
        true
    } else if a[from] != b[from] {
        a[from] < b[from]
    } else {
        lex_lt_from(a, b, from + 1)
    }
}

/// Strict byte-wise lexicographic order.
pub open spec fn lex_lt(a: Seq<u8>, b: Seq<u8>) -> bool {
    lex_lt_from(a, b, 0)
}

/// Strict order on pairs: the first components decide unless they are equal.
pub open spec fn pair_lt(a: (Seq<u8>, Seq<u8>), b: (Seq<u8>, Seq<u8>)) -> bool {
    lex_lt(a.0, b.0) || (a.0 == b.0 && lex_lt(a.1, b.1))
}

/// How two sequences compare.
#[derive(Debug, Clone, Copy, PartialEq, Eq, Structural)]
pub enum Order {
    Less,
    Equal,
    Greater,
}

/// The three-way result of comparing `a` with `b`.
pub open spec fn lex_order(a: Seq<u8>, b: Seq<u8>) -> Order {
    if a == b {
        Order::Equal
    } else if lex_lt(a, b) {
        Order::Less
    } else {
        Order::Greater
    }
}

/// Whether strand symmetry selects the reverse complement of a single read:
/// only when it is strictly smaller than the read itself.
pub open spec fn single_flipped(s: Seq<u8>, strand_symmetric: bool) -> bool {
    strand_symmetric && lex_lt(reverse_complement(s), s)
}

/// The canonical form of a single read.
pub open spec fn canonical_single(s: Seq<u8>, strand_symmetric: bool) -> Seq<u8> {
    if single_flipped(s, strand_symmetric) {
        reverse_complement(s)
    } else {
        s
    }
}

/// Whether strand symmetry selects the reverse-complemented pair: always,
/// unless the pair as given is strictly smaller.
pub open spec fn pair_flipped(m1: Seq<u8>, m2: Seq<u8>, strand_symmetric: bool) -> bool {
    strand_symmetric && !pair_lt((m1, m2), (reverse_complement(m1), reverse_complement(m2)))
}

/// The canonical form of a pair of mates. Both mates flip, or neither.
pub open spec fn canonical_pair(m1: Seq<u8>, m2: Seq<u8>, strand_symmetric: bool) -> (
    Seq<u8>,
    Seq<u8>,
) {
    if pair_flipped(m1, m2, strand_symmetric) {
        (reverse_complement(m1), reverse_complement(m2))
    } else {
        (m1, m2)
    }
}

/// Complementing twice gives the symbol back.
pub proof fn lemma_complement_involution(b: u8)
    ensures
        complement(complement(b)) == b,
{
}

/// Reverse-complementing twice gives the sequence back.
pub proof fn lemma_reverse_complement_involution(s: Seq<u8>)
    ensures
        reverse_complement(reverse_complement(s)) == s,
{
    let r = reverse_complement(s);
    let rr = reverse_complement(r);
    assert forall|i: int| 0 <= i < s.len() implies rr[i] == s[i] by {
        lemma_complement_involution(s[i]);
    }
    assert(rr =~= s);
}

/// Two sequences that agree from `from` on in neither direction of the strict
/// order, and agree before `from`, are equal.
proof fn lemma_lex_trichotomy_from(a: Seq<u8>, b: Seq<u8>, from: int)
    requires
        0 <= from,
        from <= a.len(),
        from <= b.len(),
        forall|j: int| 0 <= j < from ==> a[j] == b[j],
        !lex_lt_from(a, b, from),
        !lex_lt_from(b, a, from),
    ensures
        a == b,
    decreases a.len() - from,
{
    if from >= a.len() || from >= b.len() {
        assert(a =~= b);
    } else {
        lemma_lex_trichotomy_from(a, b, from + 1);
    }
}

/// The strict order never holds both ways.
proof fn lemma_lex_asymmetric_from(a: Seq<u8>, b: Seq<u8>, from: int)
    requires
        0 <= from,
    ensures
        !(lex_lt_from(a, b, from) && lex_lt_from(b, a, from)),
    decreases a.len() - from,
{
    if from < a.len() && from < b.len() && a[from] == b[from] {
        lemma_lex_asymmetric_from(a, b, from + 1);
    }
}

/// The byte-wise order is a strict total order: of `a < b`, `a == b` and
/// `b < a` exactly one holds.
pub proof fn lemma_lex_total(a: Seq<u8>, b: Seq<u8>)
    ensures
        lex_lt(a, b) || a == b || lex_lt(b, a),
        !(lex_lt(a, b) && lex_lt(b, a)),
        !lex_lt(a, a),
{
    lemma_lex_asymmetric_from(a, b, 0);
    lemma_lex_asymmetric_from(a, a, 0);
    if !lex_lt(a, b) && !lex_lt(b, a) {
        lemma_lex_trichotomy_from(a, b, 0);
    }
}

/// Calls [`bio::alphabets::dna::revcomp`] on a byte slice. The result has the
/// symbols of `seq` in reverse order, each replaced by its complement under
/// the crate's IUPAC table; `complement` restates that table.
#[verifier::external_body]
fn revcomp(seq: &[u8]) -> (rc: Vec<u8>)
    ensures
        rc@ == reverse_complement(seq@),
{
    bio::alphabets::dna::revcomp(seq)
}

/// Compares two byte strings lexicographically.
pub fn compare(a: &[u8], b: &[u8]) -> (o: Order)
    ensures
        o == lex_order(a@, b@),
{
    let mut i: usize = 0;
    while i < a.len() && i < b.len()
        invariant
            i <= a@.len(),
            i <= b@.len(),
            forall|j: int| 0 <= j < i ==> a@[j] == b@[j],
            lex_lt(a@, b@) == lex_lt_from(a@, b@, i as int),
            lex_lt(b@, a@) == lex_lt_from(b@, a@, i as int),
        decreases a@.len() - i,
    {
        if a[i] < b[i] {
            proof {
                lemma_lex_total(a@, b@);
            }
            return Order::Less;
        }
        if a[i] > b[i] {
            proof {
                lemma_lex_total(a@, b@);
            }
            return Order::Greater;
        }
        i = i + 1;
    }
    proof {
        lemma_lex_total(a@, b@);
        if a@.len() == b@.len() {
            assert(a@ =~= b@);
        }
    }
    if a.len() < b.len() {
        Order::Less
    } else if a.len() == b.len() {
        Order::Equal
    } else {
        Order::Greater
    }
}

/// The canonical form of a single read and whether it is the reverse
/// complement. Without strand symmetry the read is canonical as it stands.
/// With it, the smaller of the read and its reverse complement is canonical,
/// and a read equal to its reverse complement counts as not flipped.
pub fn canonicalize(seq: &[u8], strand_symmetric: bool) -> (c: (Vec<u8>, bool))
    ensures
        c.0@ == canonical_single(seq@, strand_symmetric),
        c.1 == single_flipped(seq@, strand_symmetric),
{
    if strand_symmetric {
        let rc = revcomp(seq);
        proof {
            lemma_lex_total(rc@, seq@);
        }
        match compare(rc.as_slice(), seq) {
            Order::Less => (rc, true),
            _ => (vstd::slice::slice_to_vec(seq), false),
        }
    } else {
        (vstd::slice::slice_to_vec(seq), false)
    }
}

/// The canonical form of a pair of mates and whether it is the
/// reverse-complemented pair. With strand symmetry the pair as given is
/// canonical exactly when it is strictly smaller than the pair of reverse
/// complements, comparing first mates and then second mates.
pub fn canonicalize_pair(mate1: &[u8], mate2: &[u8], strand_symmetric: bool) -> (c: (
    Vec<u8>,
    Vec<u8>,
    bool,
))
    ensures
        (c.0@, c.1@) == canonical_pair(mate1@, mate2@, strand_symmetric),
        c.2 == pair_flipped(mate1@, mate2@, strand_symmetric),
{
    if strand_symmetric {
        let rc1 = revcomp(mate1);
        let rc2 = revcomp(mate2);
        proof {
            lemma_lex_total(mate1@, rc1@);
            lemma_lex_total(mate2@, rc2@);
        }
        let as_given = match compare(mate1, rc1.as_slice()) {
            Order::Less => true,
            Order::Equal => match compare(mate2, rc2.as_slice()) {
                Order::Less => true,
                _ => false,
            },
            Order::Greater => false,
        };
        if as_given {
            (vstd::slice::slice_to_vec(mate1), vstd::slice::slice_to_vec(mate2), false)
        } else {
            (rc1, rc2, true)
        }
    } else {
        (vstd::slice::slice_to_vec(mate1), vstd::slice::slice_to_vec(mate2), false)
    }
}

} // verus!
