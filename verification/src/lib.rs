//! Relay of HTTP calls for a desktop front end: how a request is put together
//! from what the front end hands over, how a reply becomes the value or the
//! error that goes back, and which events a streamed reply gives rise to.

use vstd::prelude::*;
use vstd::string::*;

pub mod json;
pub mod request;
pub mod response;
pub mod status;
pub mod stream;
pub mod text;

verus! {

/// The fixed greeting.
pub fn greet() -> (r: String)
    ensures
        r@ == "Hello AJ7!"@,
{
    String::from_str("Hello AJ7!")
}

} // verus!
