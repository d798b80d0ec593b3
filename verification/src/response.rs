use vstd::prelude::*;

verus! {

/// A collection reply: the rows a listing returns, wrapped the way the wire
/// format wraps them (a `results` array).
pub struct Response<T> {
    pub results: Vec<T>,
}

} // verus!
