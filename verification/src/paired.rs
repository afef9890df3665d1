//! A synchronized pair of mates.

use crate::fastx::Record;
use vstd::prelude::*;

verus! {

/// Two mates that were read together. The pair goes by the id of its first
/// mate.
pub struct PairedRecord<R: Record> {
    r1: R,
    r2: R,
}

impl<R: Record> PairedRecord<R> {
    /// The first mate.
    pub closed spec fn mate1(&self) -> R {
        self.r1
    }

    /// The second mate.
    pub closed spec fn mate2(&self) -> R {
        self.r2
    }

    /// The id of the pair.
    pub open spec fn id_view(&self) -> Seq<char> {
        self.mate1().id_view()
    }

    /// Why the pair is not valid, if it is not: the defect of the first
    /// mate, else that of the second.
    pub open spec fn defect(&self) -> Option<Seq<char>> {
        if self.mate1().defect() is Some {
            self.mate1().defect()
        } else {
            self.mate2().defect()
        }
    }

    pub fn new(r1: R, r2: R) -> (pair: Self)
        ensures
            pair.mate1() == r1,
            pair.mate2() == r2,
    {
        PairedRecord { r1, r2 }
    }

    pub fn r1(&self) -> (mate: &R)
        ensures
            *mate == self.mate1(),
    {
        &self.r1
    }

    pub fn r2(&self) -> (mate: &R)
        ensures
            *mate == self.mate2(),
    {
        &self.r2
    }

    pub fn id(&self) -> (id: &str)
        ensures
            id@ == self.id_view(),
    {
        self.r1.id()
    }

    /// Checks the first mate, then the second.
    pub fn check(&self) -> (verdict: Result<(), &str>)
        ensures
            match verdict {
                Ok(_) => self.defect() is None,
                Err(reason) => self.defect() == Some(reason@),
            },
    {
        match self.r1.check() {
            Ok(_) => self.r2.check(),
            Err(reason) => Err(reason),
        }
    }
}

} // verus!
