use vstd::prelude::*;

verus! {

/// Where the store is and how to sign requests to it.
#[derive(Debug, Clone)]
pub struct S3Config {
    pub endpoint: String,
    pub bucket: String,
    pub region: String,
    pub access_key: Option<String>,
    pub secret_key: Option<String>,
}

impl S3Config {
    /// The static key pair, as views: present only when both halves are.
    pub open spec fn key_pair(&self) -> Option<(Seq<char>, Seq<char>)> {
        match (self.access_key, self.secret_key) {
            (Some(access), Some(secret)) => Some((access@, secret@)),
            _ => None,
        }
    }

    /// The static credentials to sign with, if the configuration carries
    /// both an access key and a secret key; with either missing the driver
    /// falls back to its default provider.
    pub fn static_credentials(&self) -> (pair: Option<(String, String)>)
        ensures
            pair is Some == self.key_pair() is Some,
            pair matches Some((access, secret)) ==> self.key_pair() == Some((access@, secret@)),
    {
        match (&self.access_key, &self.secret_key) {
            (Some(access), Some(secret)) => Some((access.clone(), secret.clone())),
            _ => None,
        }
    }
}

} // verus!
