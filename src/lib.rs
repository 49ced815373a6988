//! Checking GRANDPA finality proofs: a justification is accepted only where it is valid
//! (signed by enough weight of known authorities, every vote linked to the finalized
//! block) and optimal (no repeated vote, no header that no vote needs).
pub mod ancestry;
pub mod laws;
pub mod model;
pub mod signature;
pub mod strict;
pub mod types;

pub use signature::verify_justification;
pub use strict::{verify_justification_with_signatures, StrictJustificationVerifier};
pub use types::{
    Commit, Error, GrandpaJustification, Header, IterationFlow, JustificationVerificationContext,
    PrecommitError, SignedPrecommit,
};
