//! Identifiers of new records.

use vstd::prelude::*;

verus! {

/// `uuid::Uuid::new_v4`, printed in the hyphenated form: a random identifier.
/// Nothing is claimed of it; two calls give two different results.
#[verifier::external_body]
pub(crate) fn fresh_id() -> (id: String) {
    uuid::Uuid::new_v4().to_string()
}

} // verus!
