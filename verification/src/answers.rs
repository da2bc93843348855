//! The resolver's answer to one DNS query, as the analyzers consume it.

use vstd::prelude::*;

verus! {

/// One query's answers: the answer texts in resolver order, or the resolver's
/// explicit no-records signal. A hard resolver failure never reaches an
/// analyzer; the caller aborts the whole run instead.
pub enum RawAnswerSet {
    Records(Vec<String>),
    NoRecords,
}

impl RawAnswerSet {
    /// The answer texts carried by this set; the no-records signal carries none.
    pub open spec fn texts(self) -> Seq<Seq<char>> {
        match self {
            RawAnswerSet::Records(v) => v.deep_view(),
            RawAnswerSet::NoRecords => Seq::empty(),
        }
    }
}

} // verus!
