//! Stable persistent identifiers.
//!
//! Externally meaningful names (chosen by connector and operator authors) are
//! resolved to compact 128-bit identifiers by a one-way hash, so independent
//! restarts and independent workers agree on the identifier for a name
//! without any coordination.

use vstd::prelude::*;

verus! {

/// Compact internal identifier, stable across restarts.
pub type PersistentId = u128;

/// Durable name chosen by a connector or operator author.
pub type ExternalPersistentId = String;

/// The 128-bit digest that `xxhash_rust::xxh3::xxh3_128` assigns to a string's
/// bytes. The digest is a pure function of the characters: naming it lets
/// contracts state that equal names always resolve to equal identifiers.
pub uninterp spec fn xxh3_128_of(s: Seq<char>) -> u128;

/// Relies on `xxhash_rust::xxh3::xxh3_128`: the digest depends on the input
/// bytes alone, so equal strings always hash to the same value.
#[verifier::external_body]
fn xxh3_128_digest(s: &str) -> (r: u128)
    ensures
        r == xxh3_128_of(s@),
{
    xxhash_rust::xxh3::xxh3_128(s.as_bytes())
}

/// Resolves an external name to its persistent identifier.
///
/// Pure: no I/O, no error conditions, any input accepted. The same name
/// yields the same identifier on every call, in every process.
pub fn resolve(external_id: &str) -> (r: PersistentId)
    ensures
        r == xxh3_128_of(external_id@),
{
    xxh3_128_digest(external_id)
}

/// Conversion of a durable external name into its persistent identifier.
pub trait IntoPersistentId {
    /// The identifier this value resolves to.
    spec fn persistent_id_spec(&self) -> PersistentId;

    /// Consumes the value and returns its persistent identifier.
    fn into_persistent_id(self) -> (r: PersistentId)
        ensures
            r == self.persistent_id_spec(),
    ;
}

impl IntoPersistentId for ExternalPersistentId {
    open spec fn persistent_id_spec(&self) -> PersistentId {
        xxh3_128_of(self@)
    }

    fn into_persistent_id(self) -> (r: PersistentId) {
        resolve(self.as_str())
    }
}

} // verus!
