//! Why a token could not be turned into an instruction node.

use crate::token::{token_text, Token};
use vstd::prelude::*;
use vstd::string::*;

verus! {

/// The reason a token was rejected. Every error names the token it is about; errors
/// about one parameter also give its index among the token's parts.
#[derive(Debug, PartialEq, Eq)]
pub enum ParsingError {
    /// The instruction needs a parameter and has none. `usage` shows how it is written.
    MissingParam { op: String, usage: String },
    /// The instruction has more parameters than it takes.
    ExtraParam { op: String },
    /// The parameter is not written in a form the instruction accepts.
    InvalidParam { op: String, param_idx: usize, reason: String },
    /// The parameter is a constant label that is not defined.
    ConstNotFound { op: String, param_idx: usize },
    /// The parameter's value lies outside `min..=max`.
    OutOfRange { op: String, param_idx: usize, min: u64, max: u64 },
}

/// A parsing error with its texts as character sequences.
pub enum ParsingErrorView {
    MissingParam { op: Seq<char>, usage: Seq<char> },
    ExtraParam { op: Seq<char> },
    InvalidParam { op: Seq<char>, param_idx: int, reason: Seq<char> },
    ConstNotFound { op: Seq<char>, param_idx: int },
    OutOfRange { op: Seq<char>, param_idx: int, min: u64, max: u64 },
}

impl View for ParsingError {
    type V = ParsingErrorView;

    open spec fn view(&self) -> ParsingErrorView {
        match *self {
            ParsingError::MissingParam { op, usage } => ParsingErrorView::MissingParam {
                op: op@,
                usage: usage@,
            },
            ParsingError::ExtraParam { op } => ParsingErrorView::ExtraParam { op: op@ },
            ParsingError::InvalidParam { op, param_idx, reason } => ParsingErrorView::InvalidParam {
                op: op@,
                param_idx: param_idx as int,
                reason: reason@,
            },
            ParsingError::ConstNotFound { op, param_idx } => ParsingErrorView::ConstNotFound {
                op: op@,
                param_idx: param_idx as int,
            },
            ParsingError::OutOfRange { op, param_idx, min, max } => ParsingErrorView::OutOfRange {
                op: op@,
                param_idx: param_idx as int,
                min,
                max,
            },
        }
    }
}

/// A result with its error, if any, taken by its view.
pub open spec fn outcome<T>(r: Result<T, ParsingError>) -> Result<T, ParsingErrorView> {
    match r {
        Ok(value) => Ok(value),
        Err(e) => Err(e@),
    }
}

impl ParsingError {
    /// The instruction `op` lacks a parameter; `usage` shows how it is written.
    pub fn missing_param(op: &Token, usage: &str) -> (e: ParsingError)
        ensures
            e@ == (ParsingErrorView::MissingParam { op: token_text(op@), usage: usage@ }),
    {
        ParsingError::MissingParam { op: op.to_text(), usage: String::from_str(usage) }
    }

    /// The instruction `op` has too many parameters.
    pub fn extra_param(op: &Token) -> (e: ParsingError)
        ensures
            e@ == (ParsingErrorView::ExtraParam { op: token_text(op@) }),
    {
        ParsingError::ExtraParam { op: op.to_text() }
    }

    /// The parameter at `param_idx` of `op` is malformed, for the given reason.
    pub fn invalid_param(op: &Token, param_idx: usize, reason: String) -> (e: ParsingError)
        ensures
            e@ == (ParsingErrorView::InvalidParam {
                op: token_text(op@),
                param_idx: param_idx as int,
                reason: reason@,
            }),
    {
        ParsingError::InvalidParam { op: op.to_text(), param_idx, reason }
    }

    /// The parameter at `param_idx` of `op` names a constant that is not defined.
    pub fn const_not_found(op: &Token, param_idx: usize) -> (e: ParsingError)
        ensures
            e@ == (ParsingErrorView::ConstNotFound {
                op: token_text(op@),
                param_idx: param_idx as int,
            }),
    {
        ParsingError::ConstNotFound { op: op.to_text(), param_idx }
    }

    /// The value of the parameter at `param_idx` of `op` is not within `min..=max`.
    pub fn out_of_range(op: &Token, param_idx: usize, min: u64, max: u64) -> (e: ParsingError)
        ensures
            e@ == (ParsingErrorView::OutOfRange {
                op: token_text(op@),
                param_idx: param_idx as int,
                min,
                max,
            }),
    {
        ParsingError::OutOfRange { op: op.to_text(), param_idx, min, max }
    }
}

} // verus!
