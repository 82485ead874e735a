//! Reading the brokers' replies: the Deriv demo account and OTP socket,
//! the contract type of a side, and the ChelseaAI order acknowledgement.
use vstd::prelude::*;
use crate::json::{Json, jarr, jat, jfield, jget, jstr, opt_string};
use crate::text::{chars_of, has_prefix, same_chars, starts_with_chars};

verus! {

/// Why no demo account could be read from Deriv's account list.
#[derive(Debug, Clone, Copy, PartialEq, Eq, Structural)]
pub enum AccountError {
    /// The reply has no `data` array.
    NoAccounts,
    /// No account is a demo account.
    NoDemo,
    /// The demo account has no string `account_id`.
    MissingId,
}

/// A demo account: typed "demo", or with an id starting "VRTC".
pub open spec fn is_demo(a: Json) -> bool {
    ||| jstr(jfield(a, "account_type"@)) == Some("demo"@)
    ||| (jstr(jfield(a, "account_id"@)) matches Some(id) && has_prefix(id, "VRTC"@))
}

/// The first demo account of `accounts`.
pub open spec fn first_demo(accounts: Seq<Json>) -> Option<Json>
    decreases accounts.len(),
{
    if accounts.len() == 0 {
        None
    } else if is_demo(accounts[0]) {
        Some(accounts[0])
    } else {
        first_demo(accounts.drop_first())
    }
}

/// The id of the first demo account in the `data` of an account list.
pub open spec fn spec_demo_account(body: Json) -> Result<Seq<char>, AccountError> {
    match jarr(jfield(body, "data"@)) {
        None => Err(AccountError::NoAccounts),
        Some(accounts) => match first_demo(accounts) {
            None => Err(AccountError::NoDemo),
            Some(a) => match jstr(jfield(a, "account_id"@)) {
                Some(id) => Ok(id),
                None => Err(AccountError::MissingId),
            },
        },
    }
}

fn is_demo_exec(a: &Json) -> (r: bool)
    ensures
        r == is_demo(*a),
{
    let typed = match a.field_str("account_type") {
        Some(t) => same_chars(&chars_of(t), &chars_of("demo")),
        None => false,
    };
    if typed {
        return true;
    }
    match a.field_str("account_id") {
        Some(id) => starts_with_chars(&chars_of(id), &chars_of("VRTC")),
        None => false,
    }
}

/// Pick the demo account of a Deriv account list.
pub fn demo_account_id(body: &Json) -> (r: Result<String, AccountError>)
    ensures
        match (r, spec_demo_account(*body)) {
            (Ok(id), Ok(s)) => id@ == s,
            (Err(e), Err(f)) => e == f,
            _ => false,
        },
{
    let accounts = match body.field_array("data") {
        Some(a) => a,
        None => return Err(AccountError::NoAccounts),
    };
    assert(accounts@.skip(0) =~= accounts@);
    for i in 0..accounts.len()
        invariant
            jarr(jfield(*body, "data"@)) == Some(accounts@),
            first_demo(accounts@) == first_demo(accounts@.skip(i as int)),
    {
        proof {
            assert(accounts@.skip(i as int).drop_first() =~= accounts@.skip(i + 1));
            assert(accounts@.skip(i as int)[0] == accounts@[i as int]);
        }
        if is_demo_exec(&accounts[i]) {
            return match accounts[i].field_str("account_id") {
                Some(id) => Ok(id.to_owned()),
                None => Err(AccountError::MissingId),
            };
        }
    }
    assert(accounts@.skip(accounts.len() as int).len() == 0);
    Err(AccountError::NoDemo)
}

impl AccountError {
    /// The error's text, as the engine reports it.
    pub fn message(&self) -> (m: String)
        ensures
            *self == AccountError::NoAccounts ==> m@ == "No accounts in response"@,
            *self == AccountError::NoDemo ==> m@ == "No demo account found for this token"@,
            *self == AccountError::MissingId ==> m@ == "account_id missing"@,
    {
        match self {
            AccountError::NoAccounts => "No accounts in response".to_owned(),
            AccountError::NoDemo => "No demo account found for this token".to_owned(),
            AccountError::MissingId => "account_id missing".to_owned(),
        }
    }
}

/// The socket URL of an OTP reply: `data.url`.
pub fn otp_url(body: &Json) -> (r: Option<String>)
    ensures
        opt_string(r) == jstr(jfield(jfield(*body, "data"@), "url"@)),
{
    match body.get("data") {
        Some(d) => match d.field_str("url") {
            Some(u) => Some(u.to_owned()),
            None => None,
        },
        None => None,
    }
}

/// The Deriv contract for a side: CALL for "buy", PUT otherwise.
pub fn contract_type(side: &str) -> (r: &'static str)
    ensures
        r@ == (if side@ == "buy"@ {
            "CALL"@
        } else {
            "PUT"@
        }),
{
    if same_chars(&chars_of(side), &chars_of("buy")) {
        "CALL"
    } else {
        "PUT"
    }
}

/// The id a proposal reply gives: `proposal.id`; None for an error reply
/// or one without it.
pub fn proposal_id(prop: &Json) -> (r: Option<String>)
    ensures
        jget(*prop, "error"@) is Some ==> r is None,
        jget(*prop, "error"@) is None ==> opt_string(r) == jstr(jfield(jfield(*prop, "proposal"@), "id"@)),
{
    if prop.get("error").is_some() {
        return None;
    }
    match prop.get("proposal") {
        Some(p) => match p.field_str("id") {
            Some(id) => Some(id.to_owned()),
            None => None,
        },
        None => None,
    }
}

/// The trade id of a ChelseaAI `place_order` reply: the text of the first
/// content block of the result, or "unknown"; None for an error reply.
pub fn chelsea_trade_id(v: &Json) -> (r: Option<String>)
    ensures
        jget(*v, "error"@) is Some ==> r is None,
        jget(*v, "error"@) is None ==> opt_string(r) == Some(
            match jat(jfield(jfield(*v, "result"@), "content"@), 0) {
                Some(b) => match jstr(jfield(b, "text"@)) {
                    Some(t) => t,
                    None => "unknown"@,
                },
                None => "unknown"@,
            },
        ),
{
    if v.get("error").is_some() {
        return None;
    }
    let text = match v.get("result") {
        Some(res) => match res.get("content") {
            Some(c) => match c.at(0) {
                Some(b) => b.field_str("text"),
                None => None,
            },
            None => None,
        },
        None => None,
    };
    match text {
        Some(t) => Some(t.to_owned()),
        None => Some("unknown".to_owned()),
    }
}

} // verus!
