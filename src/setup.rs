//! The fatal checks that come before any file is handled: the primary
//! credential must decode and the roster must parse. Together they yield
//! everything that is to be imported into the trust store.
use vstd::prelude::*;

use crate::keyring::{decoded_key, import_plan, import_view, primary_artifact, ImportError, ImportJob, KeyImport, TrustStore};
use crate::roster::{collect_public_keys, collected_keys, texts, CollectionError, RosterInput};

verus! {

/// What the keyring manager is to import: the primary credential first, then
/// the plan for every collected key.
pub struct Preparation {
    pub primary: ImportJob,
    pub keys: Vec<KeyImport>,
}

/// A fatal failure before any file is handled.
pub enum SetupError {
    Import(ImportError),
    Collection(CollectionError),
}

/// Checks the primary credential, collects the roster's and the shared
/// service's keys and plans their import. A primary credential that does not
/// decode fails first, whatever the roster holds; then a malformed roster.
pub fn prepare_run(store: &TrustStore, primary: &str, roster: &RosterInput, shared_key: &str) -> (r: Result<Preparation, SetupError>)
    ensures
        decoded_key(primary@) matches Err(e) ==> r matches Err(SetupError::Import(ImportError::PrimaryEncoding(f))) && f == e,
        decoded_key(primary@) is Ok && roster is Malformed ==> r matches Err(SetupError::Collection(_)),
        r is Ok <==> (decoded_key(primary@) is Ok && !(roster is Malformed)),
        r matches Ok(p) ==> {
            &&& decoded_key(primary@) == Ok::<Seq<char>, crate::keyring::KeyDecodeError>(p.primary.armored@)
            &&& p.primary.artifact@ == primary_artifact(store.home@)
            &&& p.keys@.map_values(|k: KeyImport| import_view(k)) == import_plan(collected_keys(*roster, shared_key@), store.home@)
        },
{
    let primary_job = match store.prepare_primary(primary) {
        Ok(job) => job,
        Err(e) => {
            return Err(SetupError::Import(e));
        },
    };
    let keys = match collect_public_keys(roster, shared_key) {
        Ok(keys) => keys,
        Err(e) => {
            return Err(SetupError::Collection(e));
        },
    };
    let plan = store.prepare_key_imports(&keys);
    assert(texts(keys@) == keys@.map_values(|s: String| s@));
    Ok(Preparation { primary: primary_job, keys: plan })
}

} // verus!
