//! Re-keying of encrypted secret files: gathering the authorised public keys,
//! planning their import into a scoped keyring, choosing the target files, and
//! driving the per-file verify/commit cycle with isolated failures.
pub mod batch;
pub mod keyring;
pub mod locator;
pub mod roster;
pub mod setup;
