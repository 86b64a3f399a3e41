//! The content-provider boundary: the capability interface an adapter for
//! the managed application implements, and the identity hash derived from a
//! project's root revision.

use vstd::prelude::*;
use vstd::string::StringSliceAdditionalSpecFns;
use sha2::Digest;
use crate::errors::SproutError;
use crate::strutil::{hex_lower_of, to_hex_lower};

verus! {

/// What an adapter for the managed application must answer. Implementations
/// shell out to the application's tooling; each call may block and fail.
///
/// Round-trip contract expected of implementations: `dump_database` must
/// substitute `home_url` with a fixed sentinel in the export;
/// `import_database` loads an export as-is; `postprocess_database` must
/// substitute the sentinel back, yielding an installation whose home URL
/// equals the given URL and is otherwise byte-for-byte the original.
pub trait ProjectFactProvider {
    /// Whether the managed application is installed in the project.
    fn is_wordpress_installed(&self) -> Result<bool, SproutError>;

    /// The installation's home URL.
    fn get_home_url(&self) -> Result<String, SproutError>;

    /// The absolute path of the uploads directory.
    fn get_uploads_dir(&self) -> Result<String, SproutError>;

    /// The project's identity hash; nothing when the project is not under
    /// version control.
    fn generate_unique_hash(&self) -> Result<Option<String>, SproutError>;

    /// Export the database to `output_path`, substituting `home_url` with
    /// the sentinel.
    fn dump_database(&self, output_path: &str, home_url: &str) -> Result<(), SproutError>;

    /// Load a database export as-is, sentinel still present.
    fn import_database(&self, import_path: &str) -> Result<(), SproutError>;

    /// Substitute the sentinel back to `home_url`.
    fn postprocess_database(&self, home_url: &str) -> Result<(), SproutError>;
}

/// The SHA-224 digest, as the outside implementation computes it: a function
/// of the input bytes alone.
pub uninterp spec fn sha224_of(data: Seq<u8>) -> Seq<u8>;

/// Relies on sha2::Sha224::digest: the digest depends on the input bytes
/// alone, and is always 28 bytes long.
#[verifier::external_body]
fn sha224_digest(data: &[u8]) -> (r: Vec<u8>)
    ensures
        r@ == sha224_of(data@),
        r@.len() == 28,
{
    sha2::Sha224::digest(data).to_vec()
}

/// The identity hash of a project: the lowercase hex encoding of the
/// SHA-224 digest of its root revision line. Stable per codebase revision,
/// independent of the environment.
pub fn identity_hash_of_revision(revision: &str) -> (r: String)
    ensures
        r@ == hex_lower_of(sha224_of(revision.spec_bytes())),
{
    let digest = sha224_digest(revision.as_bytes());
    to_hex_lower(&digest)
}

} // verus!
