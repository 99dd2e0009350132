//! How a statement ends.

use crate::expressions::expression::ExpressionRes;
use crate::semantics::Flow;
use vstd::prelude::*;

verus! {

/// The result of running a statement: nothing, or the value that a `return`
/// hands to the nearest call.
#[derive(Debug)]
pub enum StatementRes {
    Void,
    Return { res: ExpressionRes },
}

impl View for StatementRes {
    type V = Flow;

    open spec fn view(&self) -> Flow {
        match self {
            StatementRes::Void => Flow::Void,
            StatementRes::Return { res } => Flow::Return(res@),
        }
    }
}

} // verus!
