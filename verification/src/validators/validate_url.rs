//! Recognition of URLs and of their top-level domain.

use vstd::prelude::*;
use crate::text::{chars_of, char_is_digit, char_is_letter, is_digit, is_letter, range_is_str};

verus! {

/// A character of a scheme: a letter or a digit.
pub open spec fn is_scheme_char(c: char) -> bool {
    is_letter(c) || is_digit(c)
}

/// A character of the host: a letter, a digit, a hyphen or a dot.
pub open spec fn is_host_char(c: char) -> bool {
    is_letter(c) || is_digit(c) || c == '-' || c == '.'
}

/// A character inside the top-level domain: a letter, a digit or a dot.
pub open spec fn is_tld_char(c: char) -> bool {
    is_letter(c) || is_digit(c) || c == '.'
}

/// A scheme: one or more letters or digits, then `://`.
pub open spec fn is_scheme(t: Seq<char>) -> bool {
    &&& t.len() >= 4
    &&& forall|i: int| 0 <= i < t.len() - 3 ==> is_scheme_char(#[trigger] t[i])
    &&& t[t.len() - 3] == ':'
    &&& t[t.len() - 2] == '/'
    &&& t[t.len() - 1] == '/'
}

/// A host: one or more host characters. Dots may repeat.
pub open spec fn is_host(t: Seq<char>) -> bool {
    &&& t.len() >= 1
    &&& forall|i: int| 0 <= i < t.len() ==> is_host_char(#[trigger] t[i])
}

/// A top-level domain: a dot, one or more letters, digits or dots, and a
/// letter at the end.
pub open spec fn is_tld(t: Seq<char>) -> bool {
    &&& t.len() >= 3
    &&& t[0] == '.'
    &&& forall|i: int| 1 <= i < t.len() - 1 ==> is_tld_char(#[trigger] t[i])
    &&& is_letter(t[t.len() - 1])
}

/// What may follow the top-level domain: nothing, or a path or fragment
/// that starts with `/` or `#` and goes on with any characters.
pub open spec fn is_trailer(t: Seq<char>) -> bool {
    t.len() == 0 || t[0] == '/' || t[0] == '#'
}

/// `s` is a URL whose scheme ends at `a` (0 where it has none), whose host
/// ends at `k` and whose top-level domain ends at `e`.
pub open spec fn url_splits_at(s: Seq<char>, a: int, k: int, e: int) -> bool {
    &&& 0 <= a <= k <= e <= s.len()
    &&& a == 0 || is_scheme(s.subrange(0, a))
    &&& is_host(s.subrange(a, k))
    &&& is_tld(s.subrange(k, e))
    &&& is_trailer(s.subrange(e, s.len() as int))
}

/// `s` matches the URL grammar from its first character to its last.
pub open spec fn is_url(s: Seq<char>) -> bool {
    exists|a: int, k: int, e: int| url_splits_at(s, a, k, e)
}

/// `s` is a URL whose top-level domain is `s[k..e]`, and no other reading of
/// `s` as a URL has a longer host: the host takes all it can.
pub open spec fn is_greedy_split(s: Seq<char>, k: int, e: int) -> bool {
    &&& exists|a: int| url_splits_at(s, a, k, e)
    &&& forall|a2: int, k2: int, e2: int| #[trigger] url_splits_at(s, a2, k2, e2) ==> k2 <= k
}

/// `t` is the top-level domain of the URL `s`, leading dot included.
pub open spec fn is_captured_tld(s: Seq<char>, t: Seq<char>) -> bool {
    exists|k: int, e: int| is_greedy_split(s, k, e) && t == s.subrange(k, e)
}

/// Where the scheme ends, given that `p` is the first place that holds no
/// scheme character.
pub open spec fn scheme_end_after(s: Seq<char>, p: int) -> int {
    if p >= 1 && p + 3 <= s.len() && s[p] == ':' && s[p + 1] == '/' && s[p + 2] == '/' {
        p + 3
    } else {
        0
    }
}

/// Every reading of `s` as a URL puts the end of the scheme and the end of
/// the top-level domain at the same two places.
proof fn lemma_split_frame(s: Seq<char>, p: int, e: int, a2: int, k2: int, e2: int)
    requires
        0 <= p <= s.len(),
        forall|i: int| 0 <= i < p ==> is_scheme_char(#[trigger] s[i]),
        p < s.len() ==> !is_scheme_char(s[p]),
        scheme_end_after(s, p) <= e <= s.len(),
        forall|i: int| scheme_end_after(s, p) <= i < e ==> #[trigger] s[i] != '/' && s[i] != '#',
        e < s.len() ==> s[e] == '/' || s[e] == '#',
        url_splits_at(s, a2, k2, e2),
    ensures
        a2 == scheme_end_after(s, p),
        e2 == e,
{
    let a = scheme_end_after(s, p);
    lemma_domain_chars(s, a2, k2, e2);
    if a2 > 0 {
        let scheme = s.subrange(0, a2);
        assert(scheme[a2 - 3] == s[a2 - 3]);
        assert(scheme[a2 - 2] == s[a2 - 2]);
        assert(scheme[a2 - 1] == s[a2 - 1]);
        assert forall|i: int| 0 <= i < a2 - 3 implies is_scheme_char(#[trigger] s[i]) by {
            assert(s[i] == scheme[i]);
        }
        if p < a2 - 3 {
            assert(is_scheme_char(s[p]));
        } else if p > a2 - 3 {
            assert(is_scheme_char(s[a2 - 3]));
        }
    } else if a > 0 {
        // The colon at `p` can be neither in the host nor in the top-level
        // domain, and no path or fragment starts before it.
        if e2 > p {
            assert(is_host_char(s[p]));
        } else if e2 < p {
            assert(is_scheme_char(s[e2]));
        }
    }
    if e < e2 {
        assert(is_host_char(s[e]));
    }
}

/// Finds the top-level domain of `chars`, read as a URL.
///
/// Gives the places where it starts and ends, or `None` where `chars` is no
/// URL. Of several ways to part host and top-level domain it gives the one
/// with the longest host.
pub fn locate_tld(chars: &Vec<char>) -> (r: Option<(usize, usize)>)
    ensures
        match r {
            Some((k, e)) => is_greedy_split(chars@, k as int, e as int),
            None => !is_url(chars@),
        },
{
    let ghost s = chars@;
    let n: usize = chars.len();
    // The scheme, if there is one.
    let mut p: usize = 0;
    while p < n && (char_is_letter(chars[p]) || char_is_digit(chars[p]))
        invariant
            p <= n,
            n == chars.len(),
            forall|i: int| 0 <= i < p ==> is_scheme_char(#[trigger] chars@[i]),
        decreases n - p,
    {
        p += 1;
    }
    let a: usize = if p >= 1 && n - p >= 3 && chars[p] == ':' && chars[p + 1] == '/' && chars[p
        + 2] == '/' {
        p + 3
    } else {
        0
    };
    assert(a == scheme_end_after(s, p as int));
    // Host and top-level domain end where a path or a fragment starts.
    let mut e: usize = a;
    while e < n && chars[e] != '/' && chars[e] != '#'
        invariant
            a <= e <= n,
            n == chars.len(),
            forall|i: int| a <= i < e ==> #[trigger] chars@[i] != '/' && chars@[i] != '#',
        decreases n - e,
    {
        e += 1;
    }
    assert forall|a2: int, k2: int, e2: int| #[trigger]
        url_splits_at(s, a2, k2, e2) implies a2 == a && e2 == e by {
        lemma_split_frame(s, p as int, e as int, a2, k2, e2);
    }
    if e - a < 4 || !char_is_letter(chars[e - 1]) {
        assert forall|a2: int, k2: int, e2: int| !#[trigger] url_splits_at(s, a2, k2, e2) by {
            if url_splits_at(s, a2, k2, e2) {
                let tld = s.subrange(k2, e2);
                assert(s.subrange(a2, k2).len() >= 1);
                assert(tld[tld.len() - 1] == s[e2 - 1]);
            }
        }
        return None;
    }
    // The top-level domain starts at the last dot that leaves it three
    // characters; no hyphen may follow that dot.
    let mut k: usize = e - 2;
    loop
        invariant_except_break
            forall|i: int| k <= i <= e - 3 ==> #[trigger] s[i] != '.',
        invariant
            a < k <= e - 2,
            e <= n,
            n == chars.len(),
            s == chars@,
            forall|i: int| k < i < e - 1 ==> is_tld_char(#[trigger] s[i]),
            forall|a2: int, k2: int, e2: int| #[trigger]
                url_splits_at(s, a2, k2, e2) ==> a2 == a && e2 == e,
        ensures
            a < k <= e - 3,
            s[k as int] == '.',
            forall|i: int| k < i < e - 1 ==> is_tld_char(#[trigger] s[i]),
            forall|i: int| k < i <= e - 3 ==> #[trigger] s[i] != '.',
        decreases k,
    {
        let c = chars[k];
        if !(char_is_letter(c) || char_is_digit(c) || c == '.') || k - 1 == a {
            assert forall|a2: int, k2: int, e2: int| !#[trigger] url_splits_at(s, a2, k2, e2) by {
                if url_splits_at(s, a2, k2, e2) {
                    let host = s.subrange(a2, k2);
                    let tld = s.subrange(k2, e2);
                    assert(host.len() >= 1);
                    assert(tld[0] == s[k2]);
                    assert(k2 < k);
                    assert(tld[k - k2] == s[k as int]);
                }
            }
            return None;
        }
        k -= 1;
        if chars[k] == '.' {
            break;
        }
    }
    let mut i: usize = a;
    while i < k
        invariant
            a <= i <= k,
            a < k <= e - 3,
            e <= n,
            n == chars.len(),
            s == chars@,
            s[k as int] == '.',
            forall|j: int| a <= j < i ==> is_host_char(#[trigger] s[j]),
            forall|j: int| k < j < e - 1 ==> is_tld_char(#[trigger] s[j]),
            forall|j: int| k < j <= e - 3 ==> #[trigger] s[j] != '.',
            forall|a2: int, k2: int, e2: int| #[trigger]
                url_splits_at(s, a2, k2, e2) ==> a2 == a && e2 == e,
        decreases k - i,
    {
        let c = chars[i];
        if !(char_is_letter(c) || char_is_digit(c) || c == '-' || c == '.') {
            assert forall|a2: int, k2: int, e2: int| !#[trigger] url_splits_at(s, a2, k2, e2) by {
                if url_splits_at(s, a2, k2, e2) {
                    let host = s.subrange(a2, k2);
                    let tld = s.subrange(k2, e2);
                    assert(tld[0] == s[k2]);
                    assert(k2 <= k);
                    if i < k2 {
                        assert(host[i - a2] == s[i as int]);
                    } else {
                        assert(tld[i - k2] == s[i as int]);
                    }
                }
            }
            return None;
        }
        i += 1;
    }
    proof {
        let host = s.subrange(a as int, k as int);
        let tld = s.subrange(k as int, e as int);
        let trailer = s.subrange(e as int, n as int);
        assert(is_host(host));
        assert(is_tld(tld));
        assert(is_trailer(trailer));
        if a > 0 {
            assert(is_scheme(s.subrange(0, a as int)));
        }
        assert(url_splits_at(s, a as int, k as int, e as int));
        assert forall|a2: int, k2: int, e2: int| #[trigger]
            url_splits_at(s, a2, k2, e2) implies k2 <= k by {
            let tld2 = s.subrange(k2, e2);
            assert(tld2[0] == s[k2]);
        }
    }
    Some((k, e))
}

/// `t` is one of the entries of `whitelist`.
pub open spec fn is_whitelisted(whitelist: Seq<String>, t: Seq<char>) -> bool {
    exists|i: int| 0 <= i < whitelist.len() && (#[trigger] whitelist[i])@ == t
}

/// `s` is a URL, and its top-level domain is an entry of `whitelist` unless
/// `whitelist` is empty.
pub open spec fn url_accepted(s: Seq<char>, whitelist: Seq<String>) -> bool {
    &&& is_url(s)
    &&& whitelist.len() == 0 || exists|t: Seq<char>| #[trigger]
        is_captured_tld(s, t) && is_whitelisted(whitelist, t)
}

/// Two readings of one text as a URL end the scheme at the same place and
/// end the top-level domain at the same place.
pub proof fn lemma_splits_agree(
    s: Seq<char>,
    a1: int,
    k1: int,
    e1: int,
    a2: int,
    k2: int,
    e2: int,
)
    requires
        url_splits_at(s, a1, k1, e1),
        url_splits_at(s, a2, k2, e2),
    ensures
        a1 == a2,
        e1 == e2,
{
    lemma_scheme_agrees(s, a1, k1, e1, a2, k2, e2);
    lemma_scheme_agrees(s, a2, k2, e2, a1, k1, e1);
    lemma_domain_end_agrees(s, a1, k1, e1, k2, e2);
    lemma_domain_end_agrees(s, a1, k2, e2, k1, e1);
}

/// Between the end of the scheme and the end of the top-level domain every
/// character is a host character.
proof fn lemma_domain_chars(s: Seq<char>, a: int, k: int, e: int)
    requires
        url_splits_at(s, a, k, e),
    ensures
        a < k,
        k + 3 <= e,
        is_letter(s[e - 1]),
        forall|i: int| a <= i < e ==> is_host_char(#[trigger] s[i]),
        e < s.len() ==> s[e] == '/' || s[e] == '#',
{
    let host = s.subrange(a, k);
    let tld = s.subrange(k, e);
    assert(tld[tld.len() - 1] == s[e - 1]);
    assert forall|i: int| a <= i < e implies is_host_char(#[trigger] s[i]) by {
        if i < k {
            assert(s[i] == host[i - a]);
        } else {
            assert(s[i] == tld[i - k]);
        }
    }
    if e < s.len() {
        assert(s.subrange(e, s.len() as int)[0] == s[e]);
    }
}

/// A reading with a scheme excludes one with a shorter scheme or none.
proof fn lemma_scheme_agrees(
    s: Seq<char>,
    a1: int,
    k1: int,
    e1: int,
    a2: int,
    k2: int,
    e2: int,
)
    requires
        url_splits_at(s, a1, k1, e1),
        url_splits_at(s, a2, k2, e2),
    ensures
        a1 >= a2,
{
    if a1 < a2 {
        let scheme = s.subrange(0, a2);
        assert(scheme[a2 - 3] == s[a2 - 3]);
        assert forall|i: int| 0 <= i < a2 - 3 implies is_scheme_char(#[trigger] s[i]) by {
            assert(s[i] == scheme[i]);
        }
        lemma_domain_chars(s, a1, k1, e1);
        if a1 > 0 {
            let first = s.subrange(0, a1);
            assert(first[a1 - 3] == s[a1 - 3]);
            assert(is_scheme_char(s[a1 - 3]));
        } else {
            if e1 > a2 - 3 {
                assert(is_host_char(s[a2 - 3]));
            } else if e1 < a2 - 3 {
                assert(is_scheme_char(s[e1]));
            }
        }
    }
}

/// Two readings with the same scheme end the top-level domain no later than
/// each other.
proof fn lemma_domain_end_agrees(s: Seq<char>, a: int, k1: int, e1: int, k2: int, e2: int)
    requires
        url_splits_at(s, a, k1, e1),
        url_splits_at(s, a, k2, e2),
    ensures
        e1 >= e2,
{
    lemma_domain_chars(s, a, k1, e1);
    lemma_domain_chars(s, a, k2, e2);
    if e1 < e2 {
        assert(is_host_char(s[e1]));
    }
}

/// A URL has one top-level domain only.
pub proof fn lemma_captured_tld_unique(s: Seq<char>, t1: Seq<char>, t2: Seq<char>)
    requires
        is_captured_tld(s, t1),
        is_captured_tld(s, t2),
    ensures
        t1 == t2,
{
    let (k1, e1) = choose|k: int, e: int| is_greedy_split(s, k, e) && t1 == s.subrange(k, e);
    let (k2, e2) = choose|k: int, e: int| is_greedy_split(s, k, e) && t2 == s.subrange(k, e);
    let a1 = choose|a: int| url_splits_at(s, a, k1, e1);
    let a2 = choose|a: int| url_splits_at(s, a, k2, e2);
    lemma_splits_agree(s, a1, k1, e1, a2, k2, e2);
}

/// The top-level domain of a URL is the shortest there is: nothing that
/// starts later inside it is a top-level domain too.
pub proof fn lemma_captured_tld_is_shortest(s: Seq<char>, t: Seq<char>, i: int)
    requires
        is_captured_tld(s, t),
        0 < i < t.len(),
    ensures
        !is_tld(t.subrange(i, t.len() as int)),
{
    let (k, e) = choose|k: int, e: int| is_greedy_split(s, k, e) && t == s.subrange(k, e);
    let a = choose|a: int| url_splits_at(s, a, k, e);
    lemma_domain_chars(s, a, k, e);
    if is_tld(t.subrange(i, t.len() as int)) {
        assert(t.subrange(i, t.len() as int) =~= s.subrange(k + i, e));
        assert(is_host(s.subrange(a, k + i)));
        assert(url_splits_at(s, a, k + i, e));
    }
}

/// A whitelist entry that holds a top-level domain after its first
/// character, as `.pt.br` holds `.br`, is the top-level domain of no URL.
pub proof fn lemma_entry_of_two_domains_never_matches(s: Seq<char>, entry: Seq<char>, i: int)
    requires
        0 < i < entry.len(),
        is_tld(entry.subrange(i, entry.len() as int)),
    ensures
        !is_captured_tld(s, entry),
{
    if is_captured_tld(s, entry) {
        lemma_captured_tld_is_shortest(s, entry, i);
    }
}

/// Tells whether `url` is a URL whose top-level domain is allowed.
///
/// The whole of `url` must match: an optional scheme of letters and digits
/// followed by `://`, a host of letters, digits, hyphens and dots, a
/// top-level domain, and an optional path or fragment. The host takes all it
/// can, so the top-level domain is the shortest ending that can be one.
///
/// With an empty `tld_whitelist` every URL is accepted. Otherwise the
/// top-level domain, with its leading dot, must equal one of the entries; an
/// entry of two labels such as `.pt.br` therefore allows nothing that ends
/// in `.br` after a host label `pt`.
pub fn validate_url(url: &String, tld_whitelist: &[String]) -> (r: bool)
    ensures
        r == url_accepted(url@, tld_whitelist@),
{
    let chars = chars_of(url.as_str());
    let ghost s = chars@;
    match locate_tld(&chars) {
        None => false,
        Some((k, e)) => {
            let ghost t = s.subrange(k as int, e as int);
            proof {
                let a = choose|a: int| url_splits_at(s, a, k as int, e as int);
                assert(url_splits_at(s, a, k as int, e as int));
                assert(is_captured_tld(s, t));
            }
            if tld_whitelist.len() == 0 {
                return true;
            }
            let mut i: usize = 0;
            while i < tld_whitelist.len()
                invariant
                    i <= tld_whitelist.len(),
                    k <= e <= chars.len(),
                    s == chars@,
                    t == s.subrange(k as int, e as int),
                    s == url@,
                    is_url(s),
                    is_captured_tld(s, t),
                    forall|j: int| 0 <= j < i ==> (#[trigger] tld_whitelist@[j])@ != t,
                decreases tld_whitelist.len() - i,
            {
                if range_is_str(&chars, k, e, tld_whitelist[i].as_str()) {
                    assert(is_whitelisted(tld_whitelist@, t));
                    return true;
                }
                i += 1;
            }
            proof {
                assert(!is_whitelisted(tld_whitelist@, t));
                assert forall|t2: Seq<char>| #[trigger] is_captured_tld(s, t2) implies !is_whitelisted(
                    tld_whitelist@,
                    t2,
                ) by {
                    lemma_captured_tld_unique(s, t, t2);
                }
            }
            false
        },
    }
}

} // verus!
