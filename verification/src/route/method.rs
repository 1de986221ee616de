use vstd::prelude::*;

verus! {

/// The request methods the board answers.
#[derive(Debug, Clone, Copy, PartialEq, Eq, Structural)]
pub enum Method {
    GET,
    POST,
}

} // verus!
