//! Identifiers of groups and entries.

use vstd::prelude::*;

verus! {

/// Draws a random identifier with `uuid::Uuid::new_v4` and writes it out with
/// the `to_string` of `Uuid`. Nothing is claimed of the text: it depends on
/// chance.
#[verifier::external_body]
pub(crate) fn fresh_id() -> (id: String) {
    uuid::Uuid::new_v4().to_string()
}

} // verus!
