//! Reading what a request says of itself: the token it presents, whether it
//! comes from another origin, and the names it lists in a header.
use vstd::prelude::*;
use crate::entries::has_text;
use crate::gate::filters::{listed_is_held, CorsRequest};
use crate::models::object::{opt_text, texts};
use crate::text::{chars_of, has_prefix, lower_char, same_text, starts_with, text_of};

verus! {

/// The token that an `Authorization` header presents: what follows
/// `Bearer ` where the header starts so.
pub open spec fn bearer_of(header: Seq<char>) -> Option<Seq<char>> {
    if has_prefix(header, "Bearer "@) {
        Some(header.skip(7))
    } else {
        None
    }
}

/// The token that a request presents, if it presents one.
pub fn presented_token(authorization: &Option<String>) -> (r: Option<String>)
    ensures
        opt_text(r) == match *authorization {
            Some(h) => bearer_of(h@),
            None => None,
        },
{
    let h = match authorization {
        Some(h) => h,
        None => {
            return None;
        },
    };
    proof {
        reveal_strlit("Bearer ");
    }
    if !starts_with(h.as_str(), "Bearer ") {
        return None;
    }
    let all = chars_of(h.as_str());
    let mut rest: Vec<char> = Vec::new();
    let mut i: usize = 7;
    while i < all.len()
        invariant
            7 <= i <= all.len(),
            rest@ == all@.subrange(7, i as int),
        decreases all.len() - i,
    {
        rest.push(all[i]);
        i += 1;
        assert(rest@ =~= all@.subrange(7, i as int));
    }
    assert(all@.subrange(7, all.len() as int) =~= all@.skip(7));
    Some(text_of(&rest))
}

/// A presented token is valid when it is one of the tokens that were
/// issued.
pub open spec fn token_valid(presented: Option<String>, tokens: Seq<String>) -> bool {
    presented is Some && texts(tokens).contains(presented->0@)
}

/// Whether a request presents a valid token.
pub fn token_is_valid(presented: &Option<String>, tokens: &Vec<String>) -> (r: bool)
    ensures
        r == token_valid(*presented, tokens@),
{
    match presented {
        Some(t) => {
            proof {
                listed_is_held(tokens@, t@);
            }
            has_text(tokens, t)
        },
        None => false,
    }
}

/// An origin is the server's own when it is the host that the request
/// names, under `http` or `https`.
pub open spec fn same_origin(origin: Seq<char>, host: Seq<char>) -> bool {
    origin == "http://"@ + host || origin == "https://"@ + host
}

/// Whether an origin is the server's own.
pub fn is_same_origin(origin: &str, host: &str) -> (r: bool)
    ensures
        r == same_origin(origin@, host@),
{
    let mut plain = "http://".to_owned();
    plain.append(host);
    let mut secure = "https://".to_owned();
    secure.append(host);
    same_text(origin, plain.as_str()) || same_text(origin, secure.as_str())
}

/// What a request says of its origin, from its headers: nothing where it
/// names no origin or names the server's own; a pre-flight where it is one
/// and asks for a method; else an actual cross-origin request.
pub open spec fn cors_request_of(
    origin: Option<String>,
    host: Option<String>,
    preflight: bool,
    method: Option<String>,
    headers: Vec<String>,
) -> CorsRequest {
    if origin is None || (host is Some && same_origin(origin->0@, host->0@)) {
        CorsRequest::NoOrigin
    } else if preflight && method is Some {
        CorsRequest::Preflight { origin: origin->0, method: method->0, headers }
    } else {
        CorsRequest::Actual { origin: origin->0 }
    }
}

/// Reads from the headers of a request what it says of its origin.
pub fn classify_origin(
    origin: Option<String>,
    host: Option<String>,
    preflight: bool,
    method: Option<String>,
    headers: Vec<String>,
) -> (r: CorsRequest)
    ensures
        r == cors_request_of(origin, host, preflight, method, headers),
{
    let origin = match origin {
        Some(o) => o,
        None => {
            return CorsRequest::NoOrigin;
        },
    };
    match &host {
        Some(h) => {
            if is_same_origin(origin.as_str(), h.as_str()) {
                return CorsRequest::NoOrigin;
            }
        },
        None => {},
    }
    match method {
        Some(m) => {
            if preflight {
                CorsRequest::Preflight { origin, method: m, headers }
            } else {
                CorsRequest::Actual { origin }
            }
        },
        None => CorsRequest::Actual { origin },
    }
}

/// The items of a list read so far, and the item being read. A comma ends
/// an item, and an empty item is dropped. Where header names are listed,
/// blanks and tabs are passed over and letters are put in lower case.
pub open spec fn scanned(s: Seq<char>, names: bool) -> (Seq<Seq<char>>, Seq<char>)
    decreases s.len(),
{
    if s.len() == 0 {
        (Seq::empty(), Seq::empty())
    } else {
        let (done, cur) = scanned(s.drop_last(), names);
        let c = s.last();
        if c == ',' {
            (
                if cur.len() > 0 {
                    done.push(cur)
                } else {
                    done
                },
                Seq::empty(),
            )
        } else if names && (c == ' ' || c == '\t') {
            (done, cur)
        } else if names {
            (done, cur.push(lower_char(c)))
        } else {
            (done, cur.push(c))
        }
    }
}

/// The items of a comma-separated list, in order, without the empty ones.
pub open spec fn list_items(s: Seq<char>, names: bool) -> Seq<Seq<char>> {
    let (done, cur) = scanned(s, names);
    if cur.len() > 0 {
        done.push(cur)
    } else {
        done
    }
}

/// An ASCII letter in lower case; any other character as it is.
fn lower(c: char) -> (r: char)
    ensures
        r == lower_char(c),
{
    if c >= 'A' && c <= 'Z' {
        ((c as u8) + 32u8) as char
    } else {
        c
    }
}

/// Splits a comma-separated list into its items. With `names` set the list
/// is one of header names: blanks and tabs are passed over and letters are
/// put in lower case.
pub fn split_list(s: &str, names: bool) -> (r: Vec<String>)
    ensures
        texts(r@) == list_items(s@, names),
{
    let all = chars_of(s);
    let mut done: Vec<String> = Vec::new();
    let mut cur: Vec<char> = Vec::new();
    let mut i: usize = 0;
    assert(all@.take(0) =~= Seq::<char>::empty());
    assert(texts(done@) =~= Seq::<Seq<char>>::empty());
    while i < all.len()
        invariant
            i <= all.len(),
            all@ == s@,
            (texts(done@), cur@) == scanned(all@.take(i as int), names),
        decreases all.len() - i,
    {
        let c = all[i];
        let ghost before = texts(done@);
        proof {
            assert(all@.take(i + 1).drop_last() =~= all@.take(i as int));
            assert(all@.take(i + 1).last() == c);
        }
        if c == ',' {
            if cur.len() > 0 {
                done.push(text_of(&cur));
                assert(texts(done@) =~= before.push(cur@));
            }
            cur = Vec::new();
        } else if names && (c == ' ' || c == '\t') {
        } else if names {
            cur.push(lower(c));
        } else {
            cur.push(c);
        }
        i += 1;
    }
    assert(all@.take(all.len() as int) =~= all@);
    if cur.len() > 0 {
        let ghost before = texts(done@);
        done.push(text_of(&cur));
        assert(texts(done@) =~= before.push(cur@));
    }
    done
}

} // verus!
