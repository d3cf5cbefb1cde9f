//! The part of the C interface that decides: which code a call across the language
//! boundary reports. Pointers and buffers are the caller's business.

use vstd::prelude::*;
use crate::schema::{ExtractOpt, ExtractOptCompiled};

verus! {

/// What a call across the boundary reports.
#[derive(Clone, Copy, Debug, PartialEq, Eq, Structural)]
pub enum RetCode {
    /// The call did its work.
    Succ,
    /// The call was handed something it could not use: a description that is no text or
    /// no schema, or a schema that does not compile.
    InvalidArgs,
}

/// Compiles the schema that a caller described, if the description could be read as one:
/// `None` stands for a description that was no text or no schema.
///
/// Every failure is reported by the one code `InvalidArgs`, whether the description was
/// unreadable or the schema held a selector or regex that does not compile.
pub fn compile_opt(descp: Option<ExtractOpt>) -> (r: Result<ExtractOptCompiled, RetCode>)
    ensures
        r is Ok <==> descp is Some && descp.unwrap().valid(),
        r matches Ok(compiled) ==> descp.unwrap().compiles_to(compiled),
        r matches Err(code) ==> code == RetCode::InvalidArgs,
{
    match descp {
        Some(opt) => match opt.compile() {
            Ok(compiled) => Ok(compiled),
            Err(_) => Err(RetCode::InvalidArgs),
        },
        None => Err(RetCode::InvalidArgs),
    }
}

} // verus!
