//! Admission rules for an upgrade request: the path policy, the bearer token
//! carried in `Sec-WebSocket-Protocol`, and the destination allow-list.

use vstd::prelude::*;
use crate::text::{endpoint, endpoint_text};

verus! {

/// The sub-protocol value that carries the bearer token starts with this text.
pub const JWT_HEADER_PREFIX: &'static str = "authorization.bearer.";

/// The literal last path segment every upgrade path must end with.
pub const EVENTS_SUFFIX: &'static str = "/events";

/// The texts held by a list of strings.
pub open spec fn texts(v: Seq<String>) -> Seq<Seq<char>> {
    v.map_values(|s: String| s@)
}

/// The texts of an optional list of strings.
pub open spec fn opt_texts(o: Option<Vec<String>>) -> Option<Seq<Seq<char>>> {
    match o {
        Some(v) => Some(texts(v@)),
        None => None,
    }
}

/// The text of an optional header value.
pub open spec fn opt_text(o: Option<&str>) -> Option<Seq<char>> {
    match o {
        Some(h) => Some(h@),
        None => None,
    }
}

pub open spec fn ends_with(s: Seq<char>, suffix: Seq<char>) -> bool {
    suffix.len() <= s.len() && s.subrange(s.len() - suffix.len(), s.len() as int) == suffix
}

/// The first path segment (after the leading `/`) starts with `p`.
pub open spec fn segment_starts_with(path: Seq<char>, p: Seq<char>) -> bool {
    p.len() + 1 <= path.len() && path.subrange(1, (p.len() + 1) as int) == p
}

/// A `/` stands right after `/` + `p`.
pub open spec fn slash_after(path: Seq<char>, p: Seq<char>) -> bool {
    p.len() + 1 < path.len() && path[(p.len() + 1) as int] == '/'
}

/// `/` + `p` + `/` starts the path.
pub open spec fn prefix_admits(path: Seq<char>, p: Seq<char>) -> bool {
    &&& 1 <= path.len()
    &&& path[0] == '/'
    &&& segment_starts_with(path, p)
    &&& slash_after(path, p)
}

/// The prefix policy: the path starts with `/` + `p` + `/` for some listed `p`.
pub open spec fn prefix_rule(path: Seq<char>, prefixes: Seq<Seq<char>>) -> bool {
    exists|i: int| 0 <= i < prefixes.len() && prefix_admits(path, #[trigger] prefixes[i])
}

/// Whether an upgrade path is admitted under an optional prefix allow-list.
pub open spec fn path_allowed(path: Seq<char>, prefixes: Option<Seq<Seq<char>>>) -> bool {
    &&& ends_with(path, EVENTS_SUFFIX@)
    &&& match prefixes {
        None => true,
        Some(ps) => prefix_rule(path, ps),
    }
}

/// A path without the `/events` suffix is refused whatever the prefix policy;
/// and with the suffix in place the prefix policy alone decides, so appending
/// the suffix never gets a path past a prefix rule it fails.
pub proof fn lemma_events_suffix_does_not_bypass_prefixes(
    path: Seq<char>,
    prefixes: Option<Seq<Seq<char>>>,
)
    ensures
        !ends_with(path, EVENTS_SUFFIX@) ==> !path_allowed(path, prefixes),
        path_allowed(path + EVENTS_SUFFIX@, prefixes) == match prefixes {
            None => true,
            Some(ps) => prefix_rule(path + EVENTS_SUFFIX@, ps),
        },
{
    reveal_strlit("/events");
    let q = path + EVENTS_SUFFIX@;
    assert(q.subrange(q.len() - EVENTS_SUFFIX@.len(), q.len() as int) =~= EVENTS_SUFFIX@);
}

pub open spec fn is_blank(c: char) -> bool {
    c == ' ' || c == '\t'
}

/// The index of the first `,` in `h`, or its length when there is none.
pub open spec fn comma_index(h: Seq<char>) -> nat
    decreases h.len(),
{
    if h.len() == 0 || h[0] == ',' {
        0
    } else {
        1 + comma_index(h.drop_first())
    }
}

/// How many blanks `s` starts with.
pub open spec fn leading_blanks(s: Seq<char>) -> nat
    decreases s.len(),
{
    if s.len() == 0 || !is_blank(s[0]) {
        0
    } else {
        1 + leading_blanks(s.drop_first())
    }
}

/// How many blanks `s` ends with.
pub open spec fn trailing_blanks(s: Seq<char>) -> nat
    decreases s.len(),
{
    if s.len() == 0 || !is_blank(s.last()) {
        0
    } else {
        1 + trailing_blanks(s.drop_last())
    }
}

/// `s` without its leading and trailing blanks.
pub open spec fn trim_blanks(s: Seq<char>) -> Seq<char> {
    let t = s.subrange(leading_blanks(s) as int, s.len() as int);
    t.subrange(0, t.len() - trailing_blanks(t))
}

pub open spec fn starts_with(s: Seq<char>, prefix: Seq<char>) -> bool {
    prefix.len() <= s.len() && s.subrange(0, prefix.len() as int) == prefix
}

/// The token of one sub-value: what follows the token prefix, when the
/// sub-value, trimmed of blanks, starts with it.
pub open spec fn sub_value_token(v: Seq<char>) -> Option<Seq<char>> {
    let t = trim_blanks(v);
    if starts_with(t, JWT_HEADER_PREFIX@) {
        Some(t.subrange(JWT_HEADER_PREFIX@.len() as int, t.len() as int))
    } else {
        None
    }
}

/// The token of the first `,`-separated sub-value of `h` that starts with
/// the token prefix.
pub open spec fn header_token(h: Seq<char>) -> Option<Seq<char>>
    decreases h.len(),
{
    let c = comma_index(h);
    match sub_value_token(h.subrange(0, c as int)) {
        Some(t) => Some(t),
        None => if c < h.len() {
            header_token(h.subrange((c + 1) as int, h.len() as int))
        } else {
            None
        },
    }
}

/// The bearer token of a `Sec-WebSocket-Protocol` header, or an empty token
/// when the header is absent or no sub-value starts with the token prefix.
pub open spec fn token_of(header: Option<Seq<char>>) -> Seq<char> {
    match header {
        Some(h) => match header_token(h) {
            Some(t) => t,
            None => Seq::empty(),
        },
        None => Seq::empty(),
    }
}

proof fn lemma_comma_index(h: Seq<char>)
    ensures
        comma_index(h) <= h.len(),
        forall|j: int| 0 <= j < comma_index(h) ==> h[j] != ',',
        comma_index(h) < h.len() ==> h[comma_index(h) as int] == ',',
    decreases h.len(),
{
    if h.len() > 0 && h[0] != ',' {
        lemma_comma_index(h.drop_first());
        assert forall|j: int| 0 <= j < comma_index(h) implies h[j] != ',' by {
            if j > 0 {
                assert(h[j] == h.drop_first()[j - 1]);
            }
        }
    }
}

proof fn lemma_leading_blanks(s: Seq<char>)
    ensures
        leading_blanks(s) <= s.len(),
        forall|j: int| 0 <= j < leading_blanks(s) ==> is_blank(s[j]),
        leading_blanks(s) < s.len() ==> !is_blank(s[leading_blanks(s) as int]),
    decreases s.len(),
{
    if s.len() > 0 && is_blank(s[0]) {
        lemma_leading_blanks(s.drop_first());
        assert forall|j: int| 0 <= j < leading_blanks(s) implies is_blank(s[j]) by {
            if j > 0 {
                assert(s[j] == s.drop_first()[j - 1]);
            }
        }
    }
}

proof fn lemma_trailing_blanks(s: Seq<char>)
    ensures
        trailing_blanks(s) <= s.len(),
        forall|j: int| s.len() - trailing_blanks(s) <= j < s.len() ==> is_blank(s[j]),
        trailing_blanks(s) < s.len() ==> !is_blank(s[s.len() - 1 - trailing_blanks(s)]),
    decreases s.len(),
{
    if s.len() > 0 && is_blank(s.last()) {
        lemma_trailing_blanks(s.drop_last());
        assert forall|j: int| s.len() - trailing_blanks(s) <= j < s.len() implies is_blank(
            s[j],
        ) by {
            if j < s.len() - 1 {
                assert(s[j] == s.drop_last()[j]);
            }
        }
    }
}

/// Whether a destination is admitted under an optional allow-list: when the
/// list is set, `host:port` must equal one of its entries exactly.
pub open spec fn destination_allowed(
    host: Seq<char>,
    port: u16,
    allowed: Option<Seq<Seq<char>>>,
) -> bool {
    match allowed {
        None => true,
        Some(ds) => ds.contains(endpoint_text(host, port)),
    }
}

fn ends_with_exec(s: &str, suffix: &str) -> (r: bool)
    ensures
        r == ends_with(s@, suffix@),
{
    let n = s.unicode_len();
    let m = suffix.unicode_len();
    if m > n {
        return false;
    }
    let base = n - m;
    let mut k: usize = 0;
    while k < m
        invariant
            n == s@.len(),
            m == suffix@.len(),
            m <= n,
            base == n - m,
            k <= m,
            forall|j: int| 0 <= j < k ==> s@[base + j] == suffix@[j],
        decreases m - k,
    {
        if s.get_char(base + k) != suffix.get_char(k) {
            proof {
                assert(s@.subrange(base as int, n as int)[k as int] != suffix@[k as int]);
            }
            return false;
        }
        k = k + 1;
    }
    assert(s@.subrange(base as int, n as int) =~= suffix@);
    true
}

fn segment_starts_with_exec(path: &str, p: &str) -> (r: bool)
    ensures
        r == segment_starts_with(path@, p@),
{
    let n = path.unicode_len();
    let m = p.unicode_len();
    if m >= n {
        return false;
    }
    let mut k: usize = 0;
    while k < m
        invariant
            n == path@.len(),
            m == p@.len(),
            m < n,
            k <= m,
            forall|j: int| 0 <= j < k ==> path@[1 + j] == p@[j],
        decreases m - k,
    {
        if path.get_char(k + 1) != p.get_char(k) {
            proof {
                assert(path@.subrange(1, m + 1)[k as int] != p@[k as int]);
            }
            return false;
        }
        k = k + 1;
    }
    assert(path@.subrange(1, m + 1) =~= p@);
    true
}

/// Checks the upgrade path: it ends with `/events` and, when a prefix
/// allow-list is set, starts with `/` + `p` + `/` for one of the listed `p`.
pub fn validate_url(path: &str, path_restriction_prefix: &Option<Vec<String>>) -> (r: bool)
    ensures
        r == path_allowed(path@, opt_texts(*path_restriction_prefix)),
{
    proof {
        reveal_strlit("/events");
    }
    if !ends_with_exec(path, EVENTS_SUFFIX) {
        return false;
    }
    match path_restriction_prefix {
        None => true,
        Some(prefixes) => {
            let ghost ps = texts(prefixes@);
            let n = path.unicode_len();
            if n < 1 || path.get_char(0) != '/' {
                return false;
            }
            let mut i: usize = 0;
            while i < prefixes.len()
                invariant
                    ps == texts(prefixes@),
                    ps.len() == prefixes@.len(),
                    opt_texts(*path_restriction_prefix) == Some(ps),
                    ends_with(path@, EVENTS_SUFFIX@),
                    n == path@.len(),
                    1 <= n,
                    path@[0] == '/',
                    i <= prefixes@.len(),
                    forall|j: int| 0 <= j < i ==> !prefix_admits(path@, #[trigger] ps[j]),
                decreases prefixes@.len() - i,
            {
                let p = prefixes[i].as_str();
                proof {
                    assert(ps[i as int] == p@);
                }
                if segment_starts_with_exec(path, p) {
                    let m = p.unicode_len();
                    if m + 1 < n && path.get_char(m + 1) == '/' {
                        return true;
                    }
                }
                i = i + 1;
            }
            false
        },
    }
}

fn starts_with_exec(s: &str, prefix: &str) -> (r: bool)
    ensures
        r == starts_with(s@, prefix@),
{
    let n = s.unicode_len();
    let m = prefix.unicode_len();
    if m > n {
        return false;
    }
    let mut k: usize = 0;
    while k < m
        invariant
            n == s@.len(),
            m == prefix@.len(),
            m <= n,
            k <= m,
            forall|j: int| 0 <= j < k ==> s@[j] == prefix@[j],
        decreases m - k,
    {
        if s.get_char(k) != prefix.get_char(k) {
            proof {
                assert(s@.subrange(0, m as int)[k as int] != prefix@[k as int]);
            }
            return false;
        }
        k = k + 1;
    }
    assert(s@.subrange(0, m as int) =~= prefix@);
    true
}

fn comma_index_exec(h: &str) -> (r: usize)
    ensures
        r == comma_index(h@),
{
    proof {
        lemma_comma_index(h@);
    }
    let n = h.unicode_len();
    let mut i: usize = 0;
    while i < n && h.get_char(i) != ','
        invariant
            n == h@.len(),
            i <= n,
            i <= comma_index(h@),
            comma_index(h@) <= n,
            comma_index(h@) < n ==> h@[comma_index(h@) as int] == ',',
        decreases n - i,
    {
        i = i + 1;
    }
    i
}

fn leading_blanks_exec(s: &str) -> (r: usize)
    ensures
        r == leading_blanks(s@),
{
    proof {
        lemma_leading_blanks(s@);
    }
    let n = s.unicode_len();
    let mut i: usize = 0;
    while i < n && (s.get_char(i) == ' ' || s.get_char(i) == '\t')
        invariant
            n == s@.len(),
            i <= n,
            i <= leading_blanks(s@),
            leading_blanks(s@) <= n,
            leading_blanks(s@) < n ==> !is_blank(s@[leading_blanks(s@) as int]),
        decreases n - i,
    {
        i = i + 1;
    }
    i
}

fn trailing_blanks_exec(s: &str) -> (r: usize)
    ensures
        r == trailing_blanks(s@),
{
    proof {
        lemma_trailing_blanks(s@);
    }
    let n = s.unicode_len();
    let mut i: usize = 0;
    while i < n && (s.get_char(n - 1 - i) == ' ' || s.get_char(n - 1 - i) == '\t')
        invariant
            n == s@.len(),
            i <= n,
            i <= trailing_blanks(s@),
            trailing_blanks(s@) <= n,
            trailing_blanks(s@) < n ==> !is_blank(s@[n - 1 - trailing_blanks(s@)]),
        decreases n - i,
    {
        i = i + 1;
    }
    i
}

fn sub_value_token_exec(v: &str) -> (r: Option<String>)
    ensures
        match r {
            Some(t) => sub_value_token(v@) == Some(t@),
            None => sub_value_token(v@) is None,
        },
{
    let n = v.unicode_len();
    let a = leading_blanks_exec(v);
    proof {
        lemma_leading_blanks(v@);
    }
    let s = v.substring_char(a, n);
    let m = s.unicode_len();
    let b = trailing_blanks_exec(s);
    proof {
        lemma_trailing_blanks(s@);
    }
    let t = s.substring_char(0, m - b);
    assert(t@ == trim_blanks(v@));
    if starts_with_exec(t, JWT_HEADER_PREFIX) {
        let k = t.unicode_len();
        proof {
            reveal_strlit("authorization.bearer.");
        }
        Some(String::from_str(t.substring_char(21, k)))
    } else {
        None
    }
}

fn header_token_exec(h: &str) -> (r: Option<String>)
    ensures
        match r {
            Some(t) => header_token(h@) == Some(t@),
            None => header_token(h@) is None,
        },
    decreases h@.len(),
{
    let n = h.unicode_len();
    let c = comma_index_exec(h);
    proof {
        lemma_comma_index(h@);
    }
    match sub_value_token_exec(h.substring_char(0, c)) {
        Some(t) => Some(t),
        None => if c < n {
            header_token_exec(h.substring_char(c + 1, n))
        } else {
            None
        },
    }
}

/// Extracts the bearer token from the `Sec-WebSocket-Protocol` header value:
/// of the `,`-separated sub-values, trimmed of blanks, the first that starts
/// with the token prefix gives what follows the prefix. The token is empty
/// when the header is absent or no sub-value starts with the prefix.
pub fn extract_tunnel_info(header: Option<&str>) -> (r: String)
    ensures
        r@ == token_of(opt_text(header)),
{
    match header {
        None => String::new(),
        Some(h) => match header_token_exec(h) {
            Some(t) => t,
            None => String::new(),
        },
    }
}


/// Checks the destination allow-list: when set, `host:port` must equal one of
/// its entries exactly.
pub fn validate_destination(
    host: &str,
    port: u16,
    destination_restriction: &Option<Vec<String>>,
) -> (r: bool)
    ensures
        r == destination_allowed(
            host@,
            port,
            opt_texts(*destination_restriction),
        ),
{
    match destination_restriction {
        None => true,
        Some(allowed) => {
            let requested = endpoint(host, port);
            let ghost ds = texts(allowed@);
            let mut i: usize = 0;
            while i < allowed.len()
                invariant
                    ds == texts(allowed@),
                    opt_texts(*destination_restriction) == Some(ds),
                    requested@ == endpoint_text(host@, port),
                    i <= allowed@.len(),
                    ds.len() == allowed@.len(),
                    forall|j: int| 0 <= j < i ==> ds[j] != requested@,
                decreases allowed@.len() - i,
            {
                proof {
                    assert(ds[i as int] == allowed@[i as int]@);
                }
                if allowed[i] == requested {
                    return true;
                }
                i = i + 1;
            }
            false
        },
    }
}

} // verus!
