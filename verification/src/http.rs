//! Calls to the services that Slack and GitHub offer, as plain values.
//!
//! The crate sends nothing. It says what a call is made of, and says what an
//! answer means once the host has it.
use vstd::prelude::*;
use crate::text::push_char;

verus! {

/// The method of a call.
#[derive(Debug, Clone, Copy, PartialEq, Eq, Structural)]
pub enum Method {
    Get,
    Post,
}

/// Whose token a call carries as its bearer token. The host holds the
/// tokens.
#[derive(Debug, Clone, Copy, PartialEq, Eq, Structural)]
pub enum Credential {
    Slack,
    Github,
}

/// A call: where it goes, what it carries in its head and in its query, and
/// the members of the JSON object that is its body. A call without members
/// has no body.
#[derive(Debug, PartialEq, Eq)]
pub struct Request {
    pub method: Method,
    pub url: String,
    pub credential: Credential,
    pub headers: Vec<(String, String)>,
    pub query: Vec<(String, String)>,
    pub json: Vec<(String, String)>,
}

/// A `Request` as plain values.
pub struct RequestView {
    pub method: Method,
    pub url: Seq<char>,
    pub credential: Credential,
    pub headers: Seq<(Seq<char>, Seq<char>)>,
    pub query: Seq<(Seq<char>, Seq<char>)>,
    pub json: Seq<(Seq<char>, Seq<char>)>,
}

/// The pairs of `v` as sequences of characters.
pub open spec fn pairs(v: Seq<(String, String)>) -> Seq<(Seq<char>, Seq<char>)> {
    Seq::new(v.len(), |i: int| (v[i].0@, v[i].1@))
}

impl View for Request {
    type V = RequestView;

    open spec fn view(&self) -> RequestView {
        RequestView {
            method: self.method,
            url: self.url@,
            credential: self.credential,
            headers: pairs(self.headers@),
            query: pairs(self.query@),
            json: pairs(self.json@),
        }
    }
}

/// Appends the pair of `name` and `value` to `list`.
pub fn push_pair(list: &mut Vec<(String, String)>, name: &str, value: &str)
    ensures
        pairs(final(list)@) == pairs(old(list)@).push((name@, value@)),
{
    list.push((name.to_string(), value.to_string()));
}

/// What came back from a call: nothing, where the service could not be
/// reached, or an answer with its status and its body, `None` where the body
/// could not be read as what was asked for.
#[derive(Debug, PartialEq, Eq)]
pub enum Reply<T> {
    Unreachable,
    Answered { status: u16, body: Option<T> },
}

/// Why a reply holds nothing to go on with.
#[derive(Debug, Clone, Copy, PartialEq, Eq, Structural)]
pub enum Failure {
    /// The service could not be reached, or refused.
    Refused,
    /// The service answered well, and the body could not be read.
    Unreadable,
}

/// Whether `status` says that a call went well: 200 to 299.
pub open spec fn is_success(status: u16) -> bool {
    200 <= status < 300
}

/// Whether `status` says that a call went well.
pub fn success(status: u16) -> (yes: bool)
    ensures
        yes == is_success(status),
{
    200 <= status && status < 300
}

/// The body of a reply that went well, else why there is none: a reply
/// that is missing or has a status outside 200 to 299 was refused, whatever
/// its body; one with such a status and no readable body is unreadable.
pub fn body_of<T>(reply: Reply<T>) -> (body: Result<T, Failure>)
    ensures
        body == match reply {
            Reply::Unreachable => Err::<T, Failure>(Failure::Refused),
            Reply::Answered { status, body } => if !is_success(status) {
                Err(Failure::Refused)
            } else {
                match body {
                    Some(b) => Ok(b),
                    None => Err(Failure::Unreadable),
                }
            },
        },
{
    match reply {
        Reply::Unreachable => Err(Failure::Refused),
        Reply::Answered { status, body } => {
            if !success(status) {
                Err(Failure::Refused)
            } else {
                match body {
                    Some(b) => Ok(b),
                    None => Err(Failure::Unreadable),
                }
            }
        },
    }
}

/// The digit for `d`, which is less than ten.
pub open spec fn digit(d: nat) -> char {
    (48 + d) as char
}

/// `n` in decimal digits, without leading zeros.
pub open spec fn decimal(n: nat) -> Seq<char>
    decreases n,
{
    if n < 10 {
        seq![digit(n)]
    } else {
        decimal(n / 10).push(digit(n % 10))
    }
}

/// Writes `n` in decimal digits.
pub fn to_decimal(n: u32) -> (out: String)
    ensures
        out@ == decimal(n as nat),
{
    let mut digits: Vec<char> = Vec::new();
    let mut rest: u32 = n;
    while rest >= 10
        invariant
            decimal(n as nat) == decimal(rest as nat) + digits@.reverse(),
        decreases rest,
    {
        let d: u8 = (rest % 10) as u8;
        let c: char = (48u8 + d) as char;
        proof {
            let before = digits@;
            let after = before.push(c);
            assert(after.reverse() == seq![c] + before.reverse());
            assert(decimal(rest as nat) == decimal((rest / 10) as nat).push(c));
            assert(decimal((rest / 10) as nat).push(c) + before.reverse() == decimal(
                (rest / 10) as nat,
            ) + after.reverse());
        }
        digits.push(c);
        rest = rest / 10;
    }
    let mut out = String::new();
    push_char(&mut out, (48u8 + (rest as u8)) as char);
    let mut i: usize = digits.len();
    while i > 0
        invariant
            i <= digits.len(),
            out@ == decimal(rest as nat) + digits@.reverse().take(digits.len() - i),
        decreases i,
    {
        i -= 1;
        push_char(&mut out, digits[i]);
        assert(digits@.reverse().take(digits.len() - i) == digits@.reverse().take(
            digits.len() - i - 1,
        ).push(digits@[i as int]));
    }
    out
}

} // verus!
