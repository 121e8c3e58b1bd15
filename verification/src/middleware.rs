//! Request-context plumbing that can be computed rather than transported:
//! the per-request context record, the client-identity cookie, and the
//! search for that cookie in a Cookie header.

use vstd::prelude::*;

use crate::text_grid::chars_of;
use crate::text_grid::split_at;
use crate::text_grid::trim;
use crate::text_grid::trim_chars;
use vstd::string::StringExecFns;

verus! {

/// Context captured for each request so downstream handlers can enrich
/// logs.
#[derive(Clone, Debug)]
pub struct RequestContext {
    pub request_id: String,
    pub client_id: String,
    pub path: String,
    pub user_agent: String,
    pub referer: String,
    pub ip: String,
}

/// The name of the client-identity cookie, followed by `=`.
pub open spec fn client_cookie_prefix() -> Seq<char> {
    "portfolio_client_id="@
}

/// The Set-Cookie value that pins a client identifier for a year.
pub fn build_client_cookie(client_id: &str) -> (cookie: String)
    ensures
        cookie@ == client_cookie_prefix() + client_id@
            + "; Path=/; Max-Age=31536000; SameSite=Lax"@,
{
    let mut cookie = String::from_str("portfolio_client_id=");
    cookie.append(client_id);
    cookie.append("; Path=/; Max-Age=31536000; SameSite=Lax");
    cookie
}

/// Whether the trimmed cookie entry names the client cookie.
pub open spec fn has_cookie_prefix(t: Seq<char>) -> bool {
    t.len() >= client_cookie_prefix().len() && t.take(client_cookie_prefix().len() as int)
        == client_cookie_prefix()
}

/// The value of the first client-cookie entry among the parts, if any:
/// each part is trimmed, and a match is what follows the prefix.
pub open spec fn first_client_cookie(parts: Seq<Seq<char>>) -> Option<Seq<char>>
    decreases parts.len(),
{
    if parts.len() == 0 {
        Option::None
    } else {
        let t = trim(parts.first());
        if has_cookie_prefix(t) {
            Option::Some(t.skip(client_cookie_prefix().len() as int))
        } else {
            first_client_cookie(parts.drop_first())
        }
    }
}

/// Whether the trimmed entry starts with the client cookie's name.
#[verifier::loop_isolation(false)]
fn starts_with_cookie_name(t: &Vec<char>) -> (b: bool)
    ensures
        b == has_cookie_prefix(t@),
{
    let name = "portfolio_client_id=";
    proof {
        reveal_strlit("portfolio_client_id=");
    }
    let plen = name.unicode_len();
    if t.len() < plen {
        return false;
    }
    let mut j: usize = 0;
    while j < plen
        invariant
            j <= plen,
            forall|k: int| 0 <= k < j ==> t@[k] == client_cookie_prefix()[k],
        decreases plen - j,
    {
        let c = t[j];
        if c != name.get_char(j) {
            proof {
                assert(t@[j as int] != client_cookie_prefix()[j as int]);
                if has_cookie_prefix(t@) {
                    assert(t@.take(client_cookie_prefix().len() as int)[j as int]
                        == client_cookie_prefix()[j as int]);
                }
            }
            return false;
        }
        j = j + 1;
    }
    proof {
        assert(t@.take(plen as int) =~= client_cookie_prefix());
    }
    true
}

/// Relies on String's FromIterator over chars: the collected string holds
/// exactly the given characters.
#[verifier::external_body]
fn string_from_chars(chars: &Vec<char>) -> (s: String)
    ensures
        s@ == chars@,
{
    chars.iter().collect()
}

/// Searches a Cookie header for the client-identity cookie: the header is
/// split at `;`, each entry trimmed, and the value of the first entry
/// naming the cookie is returned.
#[verifier::loop_isolation(false)]
pub fn find_client_cookie(cookies: &str) -> (r: Option<String>)
    ensures
        match r {
            Some(v) => first_client_cookie(split_at(cookies@, ';')) == Option::Some(v@),
            None => first_client_cookie(split_at(cookies@, ';')) is None,
        },
{
    let chars = chars_of(cookies);
    let parts = crate::text_grid::split_chars_at(&chars, ';');
    let ghost all = split_at(cookies@, ';');
    let count = parts.len();
    let mut k: usize = 0;
    proof {
        assert(all.skip(0) =~= all);
    }
    while k < count
        invariant
            k <= count,
            first_client_cookie(all.skip(k as int)) == first_client_cookie(all),
        decreases count - k,
    {
        proof {
            assert(all.skip(k as int).drop_first() =~= all.skip(k + 1));
            assert(all.skip(k as int).first() == all[k as int]);
            assert(parts.deep_view()[k as int] =~= parts@[k as int]@);
        }
        let entry = parts[k].clone();
        proof {
            assert(entry@ =~= parts@[k as int]@);
        }
        let trimmed = trim_chars(entry);
        if starts_with_cookie_name(&trimmed) {
            let mut value: Vec<char> = Vec::new();
            let tlen = trimmed.len();
            let mut j: usize = 20;
            proof {
                reveal_strlit("portfolio_client_id=");
            }
            while j < tlen
                invariant
                    20 <= j <= tlen,
                    tlen == trimmed@.len(),
                    tlen >= 20,
                    value@ == trimmed@.subrange(20, j as int),
                decreases tlen - j,
            {
                let c = trimmed[j];
                value.push(c);
                proof {
                    assert(value@ =~= trimmed@.subrange(20, j + 1));
                }
                j = j + 1;
            }
            proof {
                assert(trimmed@.subrange(20, tlen as int) =~= trimmed@.skip(
                    client_cookie_prefix().len() as int,
                ));
            }
            let found = string_from_chars(&value);
            return Some(found);
        }
        k = k + 1;
    }
    proof {
        assert(all.skip(count as int) =~= Seq::<Seq<char>>::empty());
    }
    None
}

} // verus!
