//! The kinds of mail entry, and their names in the store.

use vstd::prelude::*;

verus! {

/// What a mail entry does with the mail addressed to it.
#[derive(Debug, Clone, Copy, PartialEq, Eq, Structural)]
pub enum MailEntryKind {
    /// A mailbox that can log in.
    Login,
    /// A mailbox account.
    Account,
    /// Forwarding to the members of its expansion.
    Alias,
    /// Rejection of mail, with a reason.
    Bouncer,
    /// Silent discarding of mail, with a reason.
    Blackhole,
    /// A mailing list, delivering to its members.
    List,
}

/// The name under which the store keeps a kind.
pub open spec fn kind_sql_name(k: MailEntryKind) -> Seq<char> {
    match k {
        MailEntryKind::Login => "login"@,
        MailEntryKind::Account => "account"@,
        MailEntryKind::Alias => "alias"@,
        MailEntryKind::Bouncer => "bouncer"@,
        MailEntryKind::Blackhole => "blackhole"@,
        MailEntryKind::List => "list"@,
    }
}

impl MailEntryKind {
    /// The name under which the store keeps this kind.
    pub fn to_sql(&self) -> (r: &'static str)
        ensures
            r@ == kind_sql_name(*self),
    {
        match self {
            MailEntryKind::Login => "login",
            MailEntryKind::Account => "account",
            MailEntryKind::Alias => "alias",
            MailEntryKind::Bouncer => "bouncer",
            MailEntryKind::Blackhole => "blackhole",
            MailEntryKind::List => "list",
        }
    }

    /// The kind kept under `name`, if any.
    pub fn from_sql(name: &str) -> (r: Option<MailEntryKind>)
        ensures
            match r {
                Some(k) => kind_sql_name(k) == name@,
                None => forall|k: MailEntryKind| kind_sql_name(k) != name@,
            },
    {
        let n = String::from_str(name);
        if n == String::from_str("login") {
            Some(MailEntryKind::Login)
        } else if n == String::from_str("account") {
            Some(MailEntryKind::Account)
        } else if n == String::from_str("alias") {
            Some(MailEntryKind::Alias)
        } else if n == String::from_str("bouncer") {
            Some(MailEntryKind::Bouncer)
        } else if n == String::from_str("blackhole") {
            Some(MailEntryKind::Blackhole)
        } else if n == String::from_str("list") {
            Some(MailEntryKind::List)
        } else {
            assert forall|k: MailEntryKind| kind_sql_name(k) != name@ by {
                match k {
                    MailEntryKind::Login => {},
                    MailEntryKind::Account => {},
                    MailEntryKind::Alias => {},
                    MailEntryKind::Bouncer => {},
                    MailEntryKind::Blackhole => {},
                    MailEntryKind::List => {},
                }
            }
            None
        }
    }
}

} // verus!
