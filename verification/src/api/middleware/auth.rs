//! The claims carried by an API token. Token decoding and validation is
//! the embedding layer's; the engine only names the shape.

use vstd::prelude::*;

verus! {

/// Who a validated token speaks for, and until when.
#[derive(Debug, Clone)]
pub struct Claims {
    pub sub: String,
    pub role: String,
    pub exp: usize,
}

} // verus!
