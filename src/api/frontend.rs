//! The summary of every domain that the mail front end reads.

use vstd::prelude::*;

use crate::expansion::views;
use crate::models::{rules_of, AllowDenyList, MailDomain, MailStore};
use crate::order::{is_sorted, sort_strings};
use crate::state::Configuration;

verus! {

/// What the front end knows of one domain.
pub struct FrontendJsonDomain {
    pub sender_allow_list: Vec<String>,
    pub sender_deny_list: Vec<String>,
    pub sender_verify_enable: bool,
    pub greylisting_enable: bool,
    pub viruscheck_enable: bool,
    pub spamcheck_threshold: i32,
}

/// Every domain, and what the front end knows of each.
pub struct FrontendJson {
    pub version: String,
    pub all_domains: Vec<String>,
    pub per_domain: Vec<(String, FrontendJsonDomain)>,
}

/// The values of sender rules.
pub open spec fn rule_values(v: Seq<AllowDenyList>) -> Seq<Seq<char>> {
    v.map_values(|a: AllowDenyList| a.value@)
}


/// `f` is what the front end knows of domain `d` in `db`: the values of its
/// sender rules, each list in order, and its flags.
pub open spec fn describes(db: crate::models::StoreModel, d: MailDomain, f: FrontendJsonDomain) -> bool {
    &&& is_sorted(views(f.sender_allow_list@))
    &&& views(f.sender_allow_list@).to_multiset() == rule_values(
        db.allow_deny.filter(rules_of(d.id, true)),
    ).to_multiset()
    &&& is_sorted(views(f.sender_deny_list@))
    &&& views(f.sender_deny_list@).to_multiset() == rule_values(
        db.allow_deny.filter(rules_of(d.id, false)),
    ).to_multiset()
    &&& f.sender_verify_enable == d.sender_verify
    &&& f.greylisting_enable == d.grey_listing
    &&& f.viruscheck_enable == d.virus_check
    &&& f.spamcheck_threshold == d.spamcheck_threshold
}

/// The summary of every domain, with the service's version: the domain names
/// in order, and for each domain its flags and sorted sender rules.
pub fn get_json(db: &MailStore, config: &Configuration) -> (r: FrontendJson)
    ensures
        r.version@ == config.version_spec(),
        is_sorted(views(r.all_domains@)),
        views(r.all_domains@).to_multiset() == db@.domains.map_values(
            |d: MailDomain| d.domainname@,
        ).to_multiset(),
        r.per_domain@.len() == db@.domains.len(),
        forall|i: int|
            0 <= i < db@.domains.len() ==> #[trigger] r.per_domain@[i].0@
                == db@.domains[i].domainname@ && describes(db@, db@.domains[i], r.per_domain@[i].1),
{
    let all = MailDomain::get_all(db);
    let mut names: Vec<String> = Vec::new();
    let mut per: Vec<(String, FrontendJsonDomain)> = Vec::new();
    let mut i: usize = 0;
    while i < all.len()
        invariant
            all@ == db@.domains,
            i <= all.len(),
            views(names@) == all@.take(i as int).map_values(|d: MailDomain| d.domainname@),
            per@.len() == i,
            forall|k: int|
                0 <= k < i ==> #[trigger] per@[k].0@ == all@[k].domainname@ && describes(
                    db@,
                    all@[k],
                    per@[k].1,
                ),
        decreases all.len() - i,
    {
        let d = &all[i];
        let ghost was = names@;
        names.push(d.domainname.clone());
        assert(views(names@) =~= views(was).push(all@[i as int].domainname@));
        assert(all@.take(i + 1).map_values(|d: MailDomain| d.domainname@) =~= all@.take(
            i as int,
        ).map_values(|d: MailDomain| d.domainname@).push(all@[i as int].domainname@));
        let allows = AllowDenyList::all_allows(db, d.id);
        let denys = AllowDenyList::all_denys(db, d.id);
        let f = FrontendJsonDomain {
            sender_allow_list: sort_strings(&allows),
            sender_deny_list: sort_strings(&denys),
            sender_verify_enable: d.sender_verify,
            greylisting_enable: d.grey_listing,
            viruscheck_enable: d.virus_check,
            spamcheck_threshold: d.spamcheck_threshold,
        };
        per.push((d.domainname.clone(), f));
        i = i + 1;
    }
    assert(all@.take(all.len() as int) =~= all@);
    FrontendJson {
        version: String::from_str(config.version()),
        all_domains: sort_strings(&names),
        per_domain: per,
    }
}

} // verus!
