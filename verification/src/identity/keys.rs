//! Where a node keeps its key.

use vstd::prelude::*;
use vstd::string::StringExecFns;

verus! {

/// Whether `commonware_cryptography` takes bytes as an Ed25519 public
/// key.
pub uninterp spec fn ed25519_public_key(bytes: Seq<u8>) -> bool;

/// Calls `commonware_cryptography::ed25519::PublicKey::try_from` on
/// `bytes` and tells whether it gave a key.
///
/// The contract names the answer, as [`ed25519_public_key`] of the bytes,
/// and states that a key has 32 bytes: the conversion refuses any other
/// length.
#[verifier::external_body]
pub(crate) fn is_public_key(bytes: &[u8]) -> (valid: bool)
    ensures
        valid == ed25519_public_key(bytes@),
        valid ==> bytes@.len() == 32,
{
    commonware_cryptography::ed25519::PublicKey::try_from(bytes).is_ok()
}

/// Why the key could not be kept or read.
#[derive(Debug, Clone)]
pub enum KeyManagementError {
    /// The key's place could not be found, read or written.
    Io(String),
    /// The key file does not hold a key.
    Crypto(String),
}

/// Keeps the path of the node's key file.
#[derive(Debug, Clone)]
pub struct NodeKeyManager {
    key_path: String,
}

/// The path of the key file, given the node's home directory and the
/// user's profile directory, where they are set: the file `node.key` in
/// the home directory, or else in `.romer` under the profile directory.
pub open spec fn key_file(romer_home: Option<String>, user_profile: Option<String>) -> Option<
    Seq<char>,
> {
    match romer_home {
        Some(home) => Some(home@ + "/node.key"@),
        None => match user_profile {
            Some(profile) => Some(profile@ + "/.romer"@ + "/node.key"@),
            None => None,
        },
    }
}

impl NodeKeyManager {
    /// The path of the key file.
    pub closed spec fn path(&self) -> Seq<char> {
        self.key_path@
    }

    /// A manager for the key file under the node's home directory, or
    /// else under the user's profile directory. Without either there is
    /// no place for the key.
    pub fn new(romer_home: Option<String>, user_profile: Option<String>) -> (outcome: Result<
        NodeKeyManager,
        KeyManagementError,
    >)
        ensures
            match outcome {
                Ok(manager) => key_file(romer_home, user_profile) == Some(manager.path()),
                Err(e) => key_file(romer_home, user_profile) is None && (
                e matches KeyManagementError::Io(reason) && reason@
                    == "Could not find user profile directory"@),
            },
    {
        let directory = match romer_home {
            Some(home) => home,
            None => match user_profile {
                Some(profile) => profile.concat("/.romer"),
                None => {
                    return Err(
                        KeyManagementError::Io("Could not find user profile directory".to_owned()),
                    );
                },
            },
        };
        Ok(NodeKeyManager { key_path: directory.concat("/node.key") })
    }

    /// Checks what was read from the key file: an empty file holds no
    /// key.
    pub fn check_existing_key(&self, key_bytes: &[u8]) -> (outcome: Result<(), KeyManagementError>)
        ensures
            match outcome {
                Ok(()) => key_bytes@.len() > 0,
                Err(e) => key_bytes@.len() == 0 && (e matches KeyManagementError::Crypto(reason)
                    && reason@ == "Empty key file"@),
            },
    {
        if key_bytes.len() == 0 {
            return Err(KeyManagementError::Crypto("Empty key file".to_owned()));
        }
        Ok(())
    }

    /// The path of the key file.
    pub fn key_path(&self) -> (path: &String)
        ensures
            path@ == self.path(),
    {
        &self.key_path
    }
}

} // verus!
