use vstd::prelude::*;

use crate::error::TileDBResult;

verus! {

/// The engine session. Schema objects are created against a context; in
/// this model it carries no state of its own and stands where a live engine
/// connection would.
#[derive(Debug)]
pub struct Context {}

impl Context {
    /// Opens a session; creation always succeeds here.
    pub fn new() -> (r: TileDBResult<Context>)
        ensures
            r is Ok,
    {
        Ok(Context {  })
    }
}

} // verus!
