//! Binding a whole struct of parameters to a query.

use vstd::prelude::*;

verus! {

/// This trait allows you to bind parameters to a query using a single
/// struct, rather than passing each bind parameter as a function parameter.
///
/// `Self` is the query, `C` the connection it runs on, `P` the struct that
/// holds the parameters and `O` what binding them gives.
pub trait Params<'a, P, O, C> {
    fn params(&'a mut self, client: &'a mut C, params: &'a P) -> O;
}

} // verus!
