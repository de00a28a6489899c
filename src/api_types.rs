//! The request and response shapes that clients of the operations share.

use vstd::prelude::*;

verus! {

/// The flags of one domain, as listed.
#[derive(Clone, Debug, PartialEq)]
pub struct ListDomainResponseEntry {
    pub remote_mx: Option<String>,
    pub sender_verify: bool,
    pub grey_listing: bool,
    pub virus_check: bool,
    pub spamcheck_threshold: i32,
}

/// Domains with their flags, each under its name.
#[derive(Clone, Debug)]
pub struct ListDomainResponse {
    pub domains: Vec<(String, ListDomainResponseEntry)>,
}

/// Changes to the flags of the domain called `domain_name`; a field left
/// `None` keeps its value. An empty `remote_mx` clears the relay.
#[derive(Clone, Debug)]
pub struct SetDomainFlagsRequest {
    pub domain_name: String,
    pub owner: Option<String>,
    pub remote_mx: Option<String>,
    pub sender_verify: Option<bool>,
    pub grey_listing: Option<bool>,
    pub virus_check: Option<bool>,
    pub spamcheck_threshold: Option<i32>,
}

impl SetDomainFlagsRequest {
    /// A request that changes nothing of the domain called `domain_name`.
    pub fn for_domain(domain_name: String) -> (r: Self)
        ensures
            r.domain_name == domain_name,
            r.owner is None,
            r.remote_mx is None,
            r.sender_verify is None,
            r.grey_listing is None,
            r.virus_check is None,
            r.spamcheck_threshold is None,
    {
        SetDomainFlagsRequest {
            domain_name,
            owner: None,
            remote_mx: None,
            sender_verify: None,
            grey_listing: None,
            virus_check: None,
            spamcheck_threshold: None,
        }
    }
}

/// One token of a user: its value and label.
#[derive(Clone, Debug)]
pub struct TokenListResponseEntry {
    pub token: String,
    pub label: String,
}

/// The tokens of the requesting user, with the one the request used.
#[derive(Clone, Debug)]
pub struct TokenListResponse {
    pub username: String,
    pub used_token: String,
    pub tokens: Vec<TokenListResponseEntry>,
}

} // verus!
