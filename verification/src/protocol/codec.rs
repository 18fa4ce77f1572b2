//! The codec type itself.  Its decoding half lives in [`crate::protocol::decoder`],
//! its encoding half in [`crate::protocol::encoder`].

use vstd::prelude::*;

verus! {

/// Bidirectional codec between the raw byte stream and typed frames.
pub struct LumenCacheCodec;

} // verus!
