//! Bearer authorization of `/api/*` routes. The event stream also takes the token as a
//! `token` query parameter (an `EventSource` cannot send headers), and a request marked by
//! the sidecar header reports the sidecar's boot callback.

use vstd::prelude::*;
use vstd::string::*;
use crate::error::{ErrorCode, ErrorEnvelope};
use crate::text::{
    chars_eq_range, chars_of, find_char_between, first_index, lemma_first_index,
    lemma_first_index_bounds, str_eq,
};

verus! {

broadcast use vstd::string::group_string_axioms;

/// The header by which the sidecar marks its boot callback.
pub const SIDECAR_HEADER: &'static str = "x-jotline-sidecar";

/// The path of the event stream.
pub const STREAM_PATH: &'static str = "/api/stream";

/// The value of a `key=value` pair whose key (the text before the first `=`) is `token`.
pub open spec fn token_pair_value(pair: Seq<char>) -> Option<Seq<char>> {
    let e = first_index(pair, '=');
    if e >= pair.len() {
        None
    } else if pair.subrange(0, e) == "token"@ {
        Some(pair.subrange(e + 1, pair.len() as int))
    } else {
        None
    }
}

/// The `token` value of a query string: the pairs are the `&`-separated pieces, and the first
/// pair with key `token` gives its value (taken as it is, without decoding).
pub open spec fn query_token_of(q: Seq<char>) -> Option<Seq<char>>
    decreases q.len(),
{
    let b = first_index(q, '&');
    proof {
        lemma_first_index_bounds(q, '&');
    }
    match token_pair_value(q.subrange(0, b)) {
        Some(v) => Some(v),
        None => if b >= q.len() {
            None
        } else {
            query_token_of(q.subrange(b + 1, q.len() as int))
        },
    }
}

/// Whether a request is let through: its `Authorization` header is `Bearer <token>`, or it is
/// the event stream with `token=<token>` in its query.
pub open spec fn authorized(
    token: Seq<char>,
    authorization: Option<Seq<char>>,
    path: Seq<char>,
    query: Option<Seq<char>>,
) -> bool {
    ||| authorization == Some("Bearer "@ + token)
    ||| path == STREAM_PATH@ && (query matches Some(q) && query_token_of(q) == Some(token))
}

/// The `token` parameter of a query string.
pub fn query_token(query: &str) -> (r: Option<&str>)
    ensures
        match r {
            Some(t) => query_token_of(query@) == Some(t@),
            None => query_token_of(query@) is None,
        },
{
    let v = chars_of(query);
    let key = chars_of("token");
    let mut start: usize = 0;
    assert(v@.subrange(0, v@.len() as int) =~= v@);
    while start <= v.len()
        invariant
            start <= v.len(),
            v@ == query@,
            key@ == "token"@,
            start <= v.len() ==> query_token_of(query@) == query_token_of(
                v@.subrange(start as int, v@.len() as int),
            ),
        decreases v.len() + 1 - start,
    {
        let ghost q = v@.subrange(start as int, v@.len() as int);
        let b = find_char_between(&v, '&', start, v.len());
        let e = find_char_between(&v, '=', start, b);
        proof {
            lemma_first_index_bounds(q, '&');
            let pair = q.subrange(0, b - start);
            assert(pair =~= v@.subrange(start as int, b as int));
        }
        if e < b && chars_eq_range(&v, start, e, &key) {
            let t = query.substring_char(e + 1, b);
            proof {
                let pair = v@.subrange(start as int, b as int);
                assert(pair.subrange(0, e - start) =~= v@.subrange(start as int, e as int));
                assert(pair.subrange(e - start + 1, pair.len() as int) =~= v@.subrange(e + 1, b as int));
            }
            return Some(t);
        }
        proof {
            let pair = v@.subrange(start as int, b as int);
            if e < b {
                assert(pair.subrange(0, e - start) =~= v@.subrange(start as int, e as int));
            }
        }
        if b >= v.len() {
            return None;
        }
        proof {
            assert(q.subrange(b - start + 1, q.len() as int) =~= v@.subrange(b + 1, v@.len() as int));
        }
        start = b + 1;
    }
    None
}

/// Whether a request is let through (see [`authorized`]).
pub fn authorize(token: &str, authorization: Option<&str>, path: &str, query: Option<&str>) -> (r: bool)
    ensures
        r == authorized(
            token@,
            match authorization {
                Some(a) => Some(a@),
                None => None,
            },
            path@,
            match query {
                Some(q) => Some(q@),
                None => None,
            },
        ),
{
    let mut expected = "Bearer ".to_owned();
    expected.append(token);
    let header_ok = match authorization {
        Some(a) => str_eq(a, expected.as_str()),
        None => false,
    };
    let query_ok = str_eq(path, STREAM_PATH) && match query {
        Some(q) => match query_token(q) {
            Some(t) => str_eq(t, token),
            None => false,
        },
        None => false,
    };
    header_ok || query_ok
}

/// Whether the sidecar header reports the boot callback (its value is `boot`).
pub fn is_sidecar_boot(header: Option<&str>) -> (r: bool)
    ensures
        r == (match header {
            Some(h) => h@ == "boot"@,
            None => false,
        }),
{
    match header {
        Some(h) => str_eq(h, "boot"),
        None => false,
    }
}

/// Records a boot callback on the set-once boot flag: the flag is set, and watchers are told
/// only the first time (when it was not set yet). Returns the new flag and whether to tell.
pub fn record_boot(fired: bool) -> (r: (bool, bool))
    ensures
        r.0,
        r.1 == !fired,
{
    if fired {
        (true, false)
    } else {
        (true, true)
    }
}

/// The message of a refused request.
pub open spec fn unauthorized_text() -> Seq<char> {
    "未携带或错误的 Bearer token（dev 模式固定 dev-token）"@
}

/// The envelope of a refused request (401).
pub fn unauthorized_envelope() -> (e: ErrorEnvelope)
    ensures
        e.code == ErrorCode::Unauthorized,
        e.message@ == unauthorized_text(),
        e.detail is None,
{
    ErrorEnvelope::new(ErrorCode::Unauthorized, "未携带或错误的 Bearer token（dev 模式固定 dev-token）")
}

/// The two ways to present the token are equivalent on the event stream: `Bearer <token>`
/// in the header, or `token=<token>` as the query (a token without `&`); elsewhere only the
/// header counts.
pub proof fn law_stream_token_equivalence(token: Seq<char>, path: Seq<char>)
    requires
        !token.contains('&'),
    ensures
        authorized(token, Some("Bearer "@ + token), path, None),
        query_token_of("token="@ + token) == Some(token),
        authorized(token, None, STREAM_PATH@, Some("token="@ + token)),
        path != STREAM_PATH@ ==> !authorized(token, None, path, Some("token="@ + token)),
{
    reveal_strlit("token=");
    reveal_strlit("token");
    let q = "token="@ + token;
    assert forall|j: int| 0 <= j < q.len() implies q[j] != '&' by {
        if j >= 6 {
            assert(q[j] == token[j - 6]);
        }
    }
    lemma_first_index(q, '&', q.len() as int);
    assert(q.subrange(0, q.len() as int) =~= q);
    assert forall|j: int| 0 <= j < 5 implies q[j] != '=' by {}
    lemma_first_index(q, '=', 5);
    assert(q.subrange(0, 5) =~= "token"@);
    assert(q.subrange(6, q.len() as int) =~= token);
}

} // verus!
