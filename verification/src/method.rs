//! The request method of the `http` crate, as this library sees it.
//!
//! The one executable function in this file has no verified body: it calls
//! into `http`, and its contract names what the call returns.

use hyper::Method;
use vstd::prelude::*;
use vstd::string::*;

verus! {

/// `http::Method`, of which nothing is known but what `method_name` names.
#[verifier::external_type_specification]
#[verifier::external_body]
pub struct ExMethod(Method);

/// The name of a method, as the bytes of what `Method::as_str` returns.
pub uninterp spec fn method_name(m: Method) -> Seq<u8>;

/// `Method::as_str`: the name of the method, such as `GET` or `CONNECT`.
#[verifier::external_body]
pub(crate) fn method_text<'a>(m: &'a Method) -> (r: &'a str)
    ensures
        r.spec_bytes() == method_name(*m),
{
    m.as_str()
}

} // verus!
