//! Longest-prefix endpoint resolution: rewriting an inbound request path
//! into a backend object key.

use vstd::prelude::*;
use vstd::string::StrSliceExecFns;
use vstd::string::StringExecFns;

use crate::config::Endpoint;
use crate::config::Endpoints;
use crate::config::sorted_by_prefix_len_desc;
use crate::strutil::str_starts_with;

verus! {

/// `s` without its trailing '/' characters.
pub open spec fn spec_trim_end_slashes(s: Seq<char>) -> Seq<char>
    decreases s.len(),
{
    if s.len() > 0 && s.last() == '/' {
        spec_trim_end_slashes(s.drop_last())
    } else {
        s
    }
}

/// `s` without its leading '/' characters.
pub open spec fn spec_trim_start_slashes(s: Seq<char>) -> Seq<char>
    decreases s.len(),
{
    if s.len() > 0 && s[0] == '/' {
        spec_trim_start_slashes(s.skip(1))
    } else {
        s
    }
}

/// The backend key built from an endpoint's backend prefix and the part of
/// the request path left after the matched public prefix: the prefix with
/// trailing slashes trimmed, one '/', and the remainder with leading
/// slashes trimmed.
pub open spec fn bucket_key(bucket_path: Seq<char>, sub_path: Seq<char>) -> Seq<char> {
    spec_trim_end_slashes(bucket_path) + seq!['/'] + spec_trim_start_slashes(sub_path)
}

/// An endpoint matches a request path when its public prefix is a literal
/// prefix of the path.
pub open spec fn endpoint_matches(ep: Endpoint, path: Seq<char>) -> bool {
    ep.path@.is_prefix_of(path)
}

/// What resolution returns: the backend key built from the first matching
/// endpoint in table order, or nothing when no endpoint matches.
pub open spec fn resolve_spec(eps: Seq<Endpoint>, path: Seq<char>) -> Option<Seq<char>>
    decreases eps.len(),
{
    if eps.len() == 0 {
        None
    } else if endpoint_matches(eps[0], path) {
        Some(bucket_key(eps[0].bucket_path@, path.skip(eps[0].path@.len() as int)))
    } else {
        resolve_spec(eps.skip(1), path)
    }
}

/// Index of the first endpoint in table order that matches the path
/// (meaningful only when some endpoint matches).
pub open spec fn first_match_index(eps: Seq<Endpoint>, path: Seq<char>) -> int
    decreases eps.len(),
{
    if eps.len() == 0 {
        0
    } else if endpoint_matches(eps[0], path) {
        0
    } else {
        1 + first_match_index(eps.skip(1), path)
    }
}

/// When some endpoint matches, resolution goes through the first match in
/// table order, and through nothing before it.
pub proof fn lemma_resolve_at_first_match(eps: Seq<Endpoint>, path: Seq<char>)
    requires
        exists|k: int| 0 <= k < eps.len() && endpoint_matches(#[trigger] eps[k], path),
    ensures
        ({
            let f = first_match_index(eps, path);
            &&& 0 <= f < eps.len()
            &&& endpoint_matches(eps[f], path)
            &&& forall|k: int| 0 <= k < f ==> !endpoint_matches(#[trigger] eps[k], path)
            &&& resolve_spec(eps, path) == Some(
                bucket_key(eps[f].bucket_path@, path.skip(eps[f].path@.len() as int)),
            )
        }),
    decreases eps.len(),
{
    let k = choose|k: int| 0 <= k < eps.len() && endpoint_matches(#[trigger] eps[k], path);
    if endpoint_matches(eps[0], path) {
    } else {
        assert(k >= 1);
        assert(endpoint_matches(eps.skip(1)[k - 1], path)) by {
            assert(eps.skip(1)[k - 1] == eps[k]);
        }
        lemma_resolve_at_first_match(eps.skip(1), path);
        let f1 = first_match_index(eps.skip(1), path);
        let f = first_match_index(eps, path);
        assert(f == 1 + f1);
        assert(eps.skip(1)[f1] == eps[f1 + 1]);
        assert forall|k2: int| 0 <= k2 < f implies !endpoint_matches(#[trigger] eps[k2], path) by {
            if k2 >= 1 {
                assert(eps.skip(1)[k2 - 1] == eps[k2]);
            }
        }
    }
}

/// Law: in a table sorted by descending prefix length, when two endpoints
/// both match a path and one prefix is strictly longer, resolution never
/// goes through the shorter one: the selected endpoint's prefix is at least
/// as long as that of every matching endpoint.
pub proof fn lemma_longest_prefix_wins(eps: Seq<Endpoint>, path: Seq<char>, i: int, j: int)
    requires
        sorted_by_prefix_len_desc(eps),
        0 <= i < eps.len(),
        0 <= j < eps.len(),
        endpoint_matches(eps[i], path),
        endpoint_matches(eps[j], path),
        eps[i].path@.len() > eps[j].path@.len(),
    ensures
        ({
            let f = first_match_index(eps, path);
            &&& 0 <= f < eps.len()
            &&& f != j
            &&& endpoint_matches(eps[f], path)
            &&& eps[f].path@.len() >= eps[i].path@.len()
            &&& resolve_spec(eps, path) == Some(
                bucket_key(eps[f].bucket_path@, path.skip(eps[f].path@.len() as int)),
            )
        }),
{
    lemma_resolve_at_first_match(eps, path);
    let f = first_match_index(eps, path);
    assert(f <= i);
    assert(eps[f].path@.len() >= eps[i].path@.len());
}

/// `s` with trailing '/' characters removed.
fn trim_end_slashes(s: &str) -> (r: &str)
    ensures
        r@ == spec_trim_end_slashes(s@),
{
    let n = s.unicode_len();
    let mut i = n;
    proof {
        assert(s@.subrange(0, n as int) =~= s@);
    }
    while i > 0 && s.get_char(i - 1) == '/'
        invariant
            i <= n,
            n == s@.len(),
            spec_trim_end_slashes(s@) == spec_trim_end_slashes(s@.subrange(0, i as int)),
        decreases i,
    {
        proof {
            let t = s@.subrange(0, i as int);
            assert(t.last() == s@[i - 1]);
            assert(t.drop_last() =~= s@.subrange(0, i - 1));
        }
        i -= 1;
    }
    let r = s.substring_char(0, i);
    proof {
        let t = s@.subrange(0, i as int);
        if i > 0 {
            assert(t.last() == s@[i - 1]);
        }
        assert(spec_trim_end_slashes(t) == t);
    }
    r
}

/// `s` with leading '/' characters removed.
fn trim_start_slashes(s: &str) -> (r: &str)
    ensures
        r@ == spec_trim_start_slashes(s@),
{
    let n = s.unicode_len();
    let mut i: usize = 0;
    proof {
        assert(s@.skip(0) =~= s@);
    }
    while i < n && s.get_char(i) == '/'
        invariant
            i <= n,
            n == s@.len(),
            spec_trim_start_slashes(s@) == spec_trim_start_slashes(s@.skip(i as int)),
        decreases n - i,
    {
        proof {
            let t = s@.skip(i as int);
            assert(t[0] == s@[i as int]);
            assert(t.skip(1) =~= s@.skip(i + 1));
        }
        i += 1;
    }
    let r = s.substring_char(i, n);
    proof {
        let t = s@.skip(i as int);
        if i < n {
            assert(t[0] == s@[i as int]);
        }
        assert(spec_trim_start_slashes(t) == t);
        assert(r@ =~= t);
    }
    r
}

/// Rewrites a request path into the backend object key, through the first
/// endpoint in table order whose public prefix is a prefix of the path:
/// the endpoint's backend prefix (trailing slashes trimmed), one '/', and
/// the rest of the request path (leading slashes trimmed). Yields nothing
/// when no endpoint matches.
pub fn get_bucket_path(request_path: &str, endpoints: &Endpoints) -> (r: Option<String>)
    ensures
        r.deep_view() == resolve_spec(endpoints@, request_path@),
{
    let n = endpoints.0.len();
    let mut i: usize = 0;
    proof {
        assert(endpoints@.skip(0) =~= endpoints@);
    }
    while i < n
        invariant
            i <= n,
            n == endpoints@.len(),
            resolve_spec(endpoints@, request_path@) == resolve_spec(
                endpoints@.skip(i as int),
                request_path@,
            ),
        decreases n - i,
    {
        let ep = &endpoints.0[i];
        proof {
            assert(endpoints@.skip(i as int)[0] == endpoints@[i as int]);
        }
        if str_starts_with(request_path, ep.path.as_str()) {
            let plen = ep.path.as_str().unicode_len();
            let slen = request_path.unicode_len();
            let sub = request_path.substring_char(plen, slen);
            let mut out: String = trim_end_slashes(ep.bucket_path.as_str()).to_owned();
            out.append("/");
            let sub_trimmed = trim_start_slashes(sub);
            out.append(sub_trimmed);
            proof {
                reveal_strlit("/");
                assert("/"@ =~= seq!['/']);
                assert(sub@ =~= request_path@.skip(plen as int));
                assert(out@ == bucket_key(ep.bucket_path@, request_path@.skip(plen as int)));
            }
            return Some(out);
        }
        proof {
            assert(endpoints@.skip(i as int).skip(1) =~= endpoints@.skip(i as int + 1));
        }
        i += 1;
    }
    proof {
        assert(endpoints@.skip(n as int).len() == 0);
    }
    None
}

} // verus!
