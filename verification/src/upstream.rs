//! Requests to the servers behind the gateway.

use crate::pattern::opt_text;
use crate::text::{begins_with, chars_of, starts_with, string_of};
use vstd::prelude::*;
use vstd::string::*;

verus! {

/// `s` without the slashes that it ends with.
pub open spec fn without_slashes(s: Seq<char>) -> Seq<char>
    decreases s.len(),
{
    if s.len() > 0 && s.last() == '/' {
        without_slashes(s.drop_last())
    } else {
        s
    }
}

/// The address of `path` on the server at `base`.
pub fn endpoint_url(base: &str, path: &str) -> (r: String)
    ensures
        r@ == without_slashes(base@) + path@,
{
    let x = chars_of(base);
    let mut n: usize = x.len();
    assert(x@.take(n as int) =~= x@);
    while n > 0 && x[n - 1] == '/'
        invariant
            x@ == base@,
            n <= x@.len(),
            without_slashes(x@.take(n as int)) == without_slashes(base@),
        decreases n,
    {
        assert(x@.take(n as int).drop_last() =~= x@.take(n - 1));
        n = n - 1;
    }
    let mut r = string_of(&x, 0, n);
    r.append(path);
    r
}

/// A key as the value of an authorization header.
pub open spec fn bearer(key: Seq<char>) -> Seq<char> {
    if begins_with(key, "Bearer "@) {
        key
    } else {
        "Bearer "@ + key
    }
}

/// A key as the value of an authorization header.
pub fn bearer_value(key: &str) -> (r: String)
    ensures
        r@ == bearer(key@),
{
    if starts_with(key, "Bearer ") {
        key.to_owned()
    } else {
        let mut r = "Bearer ".to_owned();
        r.append(key);
        r
    }
}

/// The value of the authorization header of a request: the server's own key, or
/// else what the client sent.
pub open spec fn authorization_of(key: Option<Seq<char>>, sent: Option<Seq<char>>) -> Option<
    Seq<char>,
> {
    match key {
        Some(k) if k.len() > 0 => Some(bearer(k)),
        _ => sent,
    }
}

/// The value of the authorization header of a request: the server's own key,
/// unless it is missing or empty; else what the client sent.
pub fn authorization(api_key: &Option<String>, sent: &Option<String>) -> (r: Option<String>)
    ensures
        opt_text(r) == authorization_of(opt_text(*api_key), opt_text(*sent)),
{
    if let Some(k) = api_key {
        if !k.as_str().is_empty() {
            return Some(bearer_value(k.as_str()));
        }
    }
    match sent {
        Some(s) => Some(s.clone()),
        None => None,
    }
}

/// The value of the authorization header of a request that uses the server's own
/// key even where it is empty.
pub fn authorization_by_key(api_key: &Option<String>, sent: &Option<String>) -> (r: Option<String>)
    ensures
        opt_text(r) == match *api_key {
            Some(k) => Some(bearer(k@)),
            None => opt_text(*sent),
        },
{
    match api_key {
        Some(k) => Some(bearer_value(k.as_str())),
        None => match sent {
            Some(s) => Some(s.clone()),
            None => None,
        },
    }
}

/// The value of the authorization header of a request that uses the server's own
/// key as it is, unless it is missing or empty; else what the client sent.
pub fn authorization_as_is(api_key: &Option<String>, sent: &Option<String>) -> (r: Option<String>)
    ensures
        r == match *api_key {
            Some(k) if k@.len() > 0 => *api_key,
            _ => *sent,
        },
{
    if let Some(k) = api_key {
        if !k.as_str().is_empty() {
            return Some(k.clone());
        }
    }
    match sent {
        Some(s) => Some(s.clone()),
        None => None,
    }
}

} // verus!
