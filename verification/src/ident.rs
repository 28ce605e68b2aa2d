//! Fresh identifiers for instructions, responses and event batches.

use vstd::prelude::*;

verus! {

/// A new random identifier.
///
/// Trusted: calls `uuid::Uuid::new_v4` and formats the identifier's simple
/// adapter with `{:?}`. Nothing is claimed of the text: it differs from call
/// to call. `new_v4` stops the process when the system yields no random
/// bytes.
#[verifier::external_body]
pub(crate) fn fresh_identifier() -> (r: String) {
    format!("{:?}", uuid::Uuid::new_v4().to_simple())
}

} // verus!
