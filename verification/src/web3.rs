//! The Web3 API.

use vstd::prelude::*;
use vstd::string::StringExecFns;

use crate::hashing::{keccak256, keccak256_digest};
use crate::primitives::H256;

verus! {

/// The Web3 API.
#[derive(Clone, Copy, Debug, PartialEq, Eq)]
pub struct Web3Client;

impl Web3Client {
    /// A Web3 client.
    pub fn new() -> (r: Web3Client)
        ensures
            r == Web3Client,
    {
        Web3Client
    }

    /// The version string of a client built as package `name` in version
    /// `version` from revision `revision`.
    pub fn client_version(&self, name: &str, version: &str, revision: &str) -> (r: String)
        ensures
            r@ == "oasis/"@ + name@ + "/"@ + version@ + "/"@ + revision@,
    {
        String::from_str("oasis/").concat(name).concat("/").concat(version).concat("/").concat(
            revision,
        )
    }

    /// The Keccak-256 digest of `data`.
    pub fn sha3(&self, data: &[u8]) -> (r: H256)
        ensures
            r@ == keccak256_digest(data@),
    {
        keccak256(data)
    }
}

} // verus!
