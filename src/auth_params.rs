//! Values that the login flow reads out of redirect URLs and state strings.

use vstd::prelude::*;

verus! {

/// Origin against which a redirect path is resolved.
pub const LOCAL_ORIGIN: &'static str = "http://localhost:9993";

/// The query pairs, percent-decoded and in order, of the URL `s`; `None` when
/// `s` is not a valid absolute URL.
pub uninterp spec fn url_query_pairs(s: Seq<char>) -> Option<Seq<(Seq<char>, Seq<char>)>>;

pub open spec fn pairs_view(v: Seq<(String, String)>) -> Seq<(Seq<char>, Seq<char>)> {
    v.map_values(|p: (String, String)| (p.0@, p.1@))
}

/// Relies on `url::Url::parse` and `Url::query_pairs`: whether a string
/// parses as a URL, and the decoded key/value pairs of its query, depend on
/// the string alone.
#[verifier::external_body]
fn query_pairs_of(url: &str) -> (r: Option<Vec<(String, String)>>)
    ensures
        match r {
            Some(v) => url_query_pairs(url@) == Some(pairs_view(v@)),
            None => url_query_pairs(url@) is None,
        },
{
    url::Url::parse(url).ok().map(
        |u| u.query_pairs().map(|(k, v)| (k.into_owned(), v.into_owned())).collect(),
    )
}

/// The value of the first pair whose key is `key`.
pub open spec fn first_value(pairs: Seq<(Seq<char>, Seq<char>)>, key: Seq<char>) -> Option<
    Seq<char>,
>
    decreases pairs.len(),
{
    if pairs.len() == 0 {
        None
    } else if pairs[0].0 == key {
        Some(pairs[0].1)
    } else {
        first_value(pairs.drop_first(), key)
    }
}

pub open spec fn opt_view(o: Option<String>) -> Option<Seq<char>> {
    match o {
        Some(s) => Some(s@),
        None => None,
    }
}

proof fn lemma_first_value_skip(pairs: Seq<(Seq<char>, Seq<char>)>, key: Seq<char>, i: int)
    requires
        0 <= i < pairs.len(),
        pairs[i].0 != key,
    ensures
        first_value(pairs.subrange(i, pairs.len() as int), key) == first_value(
            pairs.subrange(i + 1, pairs.len() as int),
            key,
        ),
{
    assert(pairs.subrange(i, pairs.len() as int).drop_first() =~= pairs.subrange(
        i + 1,
        pairs.len() as int,
    ));
}

/// The value of the first query pair named `key`.
pub fn find_param(pairs: &Vec<(String, String)>, key: &str) -> (r: Option<String>)
    ensures
        opt_view(r) == first_value(pairs_view(pairs@), key@),
{
    let wanted = key.to_owned();
    let ghost ps = pairs_view(pairs@);
    let mut i: usize = 0;
    assert(ps.subrange(0, ps.len() as int) =~= ps);
    while i < pairs.len()
        invariant
            i <= pairs@.len(),
            ps == pairs_view(pairs@),
            wanted@ == key@,
            first_value(ps.subrange(i as int, ps.len() as int), key@) == first_value(ps, key@),
        decreases pairs@.len() - i,
    {
        if pairs[i].0 == wanted {
            return Some(pairs[i].1.clone());
        }
        proof {
            lemma_first_value_skip(ps, key@, i as int);
        }
        i = i + 1;
    }
    None
}

/// The value of query parameter `param` in the redirect `path`, resolved
/// against the local origin; `None` when the result is not a valid URL or has
/// no such parameter.
pub fn zeroidc_get_url_param_value(param: &str, path: &str) -> (r: Option<String>)
    ensures
        opt_view(r) == match url_query_pairs(LOCAL_ORIGIN@ + path@) {
            Some(ps) => first_value(ps, param@),
            None => None,
        },
{
    let url = LOCAL_ORIGIN.to_owned().concat(path);
    match query_pairs_of(url.as_str()) {
        Some(pairs) => find_param(&pairs, param),
        None => None,
    }
}

/// The network identifier carried by a login state: the text after its
/// underscore, when the state holds exactly one.
pub open spec fn state_network_id(s: Seq<char>) -> Option<Seq<char>> {
    if exists|p: int|
        0 <= p < s.len() && s[p] == '_' && forall|q: int|
            0 <= q < s.len() && q != p ==> s[q] != '_' {
        let p = choose|p: int|
            0 <= p < s.len() && s[p] == '_' && forall|q: int|
                0 <= q < s.len() && q != p ==> s[q] != '_';
        Some(s.subrange(p + 1, s.len() as int))
    } else {
        None
    }
}

/// The network identifier in a login state `<nonce>_<network id>`.
pub fn zeroidc_network_id_from_state(state: &str) -> (r: Option<String>)
    ensures
        opt_view(r) == state_network_id(state@),
{
    let n = state.unicode_len();
    let mut first: Option<usize> = None;
    let mut i: usize = 0;
    while i < n
        invariant
            n == state@.len(),
            i <= n,
            match first {
                None => forall|q: int| 0 <= q < i ==> state@[q] != '_',
                Some(p) => p < i && state@[p as int] == '_' && forall|q: int|
                    0 <= q < i && q != p ==> state@[q] != '_',
            },
        decreases n - i,
    {
        if state.get_char(i) == '_' {
            match first {
                Some(p) => {
                    assert(!(exists|p: int|
                        0 <= p < state@.len() && state@[p] == '_' && forall|q: int|
                            0 <= q < state@.len() && q != p ==> state@[q] != '_')) by {
                        assert forall|x: int|
                            0 <= x < state@.len() && state@[x] == '_' implies !(forall|q: int|
                            0 <= q < state@.len() && q != x ==> state@[q] != '_') by {
                            if x == p {
                                assert(state@[i as int] == '_');
                            } else {
                                assert(state@[p as int] == '_');
                            }
                        }
                    }
                    return None;
                },
                None => {
                    first = Some(i);
                },
            }
        }
        i = i + 1;
    }
    match first {
        Some(p) => {
            let ghost s = state@;
            assert(0 <= p < s.len() && s[p as int] == '_' && forall|q: int|
                0 <= q < s.len() && q != p ==> s[q] != '_');
            let ghost c = choose|c: int|
                0 <= c < s.len() && s[c] == '_' && forall|q: int| 0 <= q < s.len() && q != c ==> s[q] != '_';
            assert(c == p);
            Some(state.substring_char(p + 1, n).to_owned())
        },
        None => None,
    }
}

} // verus!
