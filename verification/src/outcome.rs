//! The result of a check: success, or one failure with its cause and the
//! subtree it blames.

use crate::element::Element;
use vstd::prelude::*;

verus! {

/// Why a check failed.
#[derive(Debug, PartialEq)]
pub struct PredError<'e> {
    /// The subtree the failure is about, if there is one.
    pub tree: Option<&'e Element>,
    /// A description of the failure.
    pub cause: String,
}

/// Another name for [`PredError`].
pub type ValidationError<'e> = PredError<'e>;

/// Success, or the first failure found.
pub type PredResult<'e> = Result<(), PredError<'e>>;

/// What a failure says: the blamed subtree and the text of the cause.
pub ghost struct Blame {
    pub tree: Option<Element>,
    pub cause: Seq<char>,
}

impl<'e> View for PredError<'e> {
    type V = Blame;

    open spec fn view(&self) -> Blame {
        Blame {
            tree: match self.tree {
                Some(t) => Some(*t),
                None => None,
            },
            cause: self.cause@,
        }
    }
}

/// What a result says: `None` for success, the blame of the failure otherwise.
pub open spec fn outcome(r: PredResult) -> Option<Blame> {
    match r {
        Ok(_) => None,
        Err(e) => Some(e@),
    }
}

} // verus!
