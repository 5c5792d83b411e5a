//! Request-URL construction: base, endpoint path, and the percent-encoded
//! ordered query parameters.

use vstd::prelude::*;
use vstd::utf8::is_ascii_chars;

use crate::text::push_char;

verus! {

/// The characters percent encoding leaves as they are.
pub open spec fn unreserved_char(c: char) -> bool {
    ('0' <= c && c <= '9') || ('A' <= c && c <= 'Z') || ('a' <= c && c <= 'z') || c == '-'
        || c == '.' || c == '_' || c == '~'
}

/// The upper-case hex digit of a value below sixteen.
pub open spec fn hex_digit_char(d: nat) -> char {
    if d < 10 {
        ((d + 48) as u8) as char
    } else {
        ((d + 55) as u8) as char
    }
}

/// The encoding of one ASCII character: itself when unreserved, else a
/// percent escape with two upper-case hex digits.
pub open spec fn enc_char(c: char) -> Seq<char> {
    if unreserved_char(c) {
        seq![c]
    } else {
        seq!['%', hex_digit_char((c as u8) as nat / 16), hex_digit_char((c as u8) as nat % 16)]
    }
}

/// Percent encoding of an ASCII character sequence.
pub open spec fn percent_encoded(s: Seq<char>) -> Seq<char>
    decreases s.len(),
{
    if s.len() == 0 {
        Seq::empty()
    } else {
        percent_encoded(s.drop_last()) + enc_char(s[s.len() - 1])
    }
}

/// Percent-encodes one query component.
///
/// Relies on `urlencoding::encode`: every byte outside `0-9A-Za-z-._~`
/// becomes a `%` escape with two upper-case hex digits; for ASCII input the
/// bytes are the characters.
#[verifier::external_body]
fn encode_component(s: &str) -> (r: String)
    ensures
        is_ascii_chars(s@) ==> r@ == percent_encoded(s@),
{
    urlencoding::encode(s).into_owned()
}

/// The base with trailing slashes removed, as the URL builder uses it.
pub open spec fn trim_trailing_slashes(s: Seq<char>) -> Seq<char>
    decreases s.len(),
{
    if s.len() > 0 && s[s.len() - 1] == '/' {
        trim_trailing_slashes(s.drop_last())
    } else {
        s
    }
}

/// One `key=value` query fragment, both sides percent-encoded.
pub open spec fn pair_fragment(p: (Seq<char>, Seq<char>)) -> Seq<char> {
    percent_encoded(p.0) + seq!['='] + percent_encoded(p.1)
}

/// The query string: the pair fragments joined with `&`.
pub open spec fn query_string(pairs: Seq<(Seq<char>, Seq<char>)>) -> Seq<char>
    decreases pairs.len(),
{
    if pairs.len() == 0 {
        Seq::empty()
    } else if pairs.len() == 1 {
        pair_fragment(pairs[0])
    } else {
        query_string(pairs.drop_last()) + seq!['&'] + pair_fragment(pairs[pairs.len() - 1])
    }
}

/// The full request URL: the base with trailing slashes removed, the
/// endpoint path, and, when there are parameters, `?` and the query string.
pub open spec fn spec_build_url(
    base: Seq<char>,
    endpoint: Seq<char>,
    pairs: Seq<(Seq<char>, Seq<char>)>,
) -> Seq<char> {
    let head = trim_trailing_slashes(base) + endpoint;
    if pairs.len() == 0 {
        head
    } else {
        head + seq!['?'] + query_string(pairs)
    }
}

/// Whether every key and value of the pair list is ASCII, as the validated
/// wire parameters are.
pub open spec fn pairs_ascii(pairs: Seq<(Seq<char>, Seq<char>)>) -> bool {
    forall|i: int|
        0 <= i < pairs.len() ==> is_ascii_chars((#[trigger] pairs[i]).0) && is_ascii_chars(
            pairs[i].1,
        )
}

/// The base with trailing slashes removed.
fn trim_base(base: &str) -> (r: String)
    ensures
        r@ == trim_trailing_slashes(base@),
{
    let n = base.unicode_len();
    let mut hi: usize = n;
    assert(base@.take(n as int) =~= base@);
    while hi > 0 && base.get_char(hi - 1) == '/'
        invariant
            n == base@.len(),
            hi <= n,
            trim_trailing_slashes(base@) == trim_trailing_slashes(base@.take(hi as int)),
        decreases hi,
    {
        proof {
            assert(base@.take(hi as int)[hi - 1] == base@[hi - 1]);
            assert(base@.take(hi as int).drop_last() =~= base@.take(hi - 1));
        }
        hi = hi - 1;
    }
    assert(trim_trailing_slashes(base@) == base@.take(hi as int)) by {
        assert(base@.take(hi as int).len() == 0 || base@.take(hi as int)[hi - 1] != '/');
    }
    let out = base.substring_char(0, hi);
    assert(out@ =~= base@.take(hi as int));
    out.to_owned()
}

/// Builds the request URL from the base, the endpoint path and the ordered
/// wire parameters; for ASCII parameters (the only ones validation lets
/// through) the result is exactly [`spec_build_url`].
pub fn build_url(base: &str, endpoint: &str, pairs: &Vec<(String, String)>) -> (r: String)
    ensures
        pairs_ascii(pairs.deep_view()) ==> r@ == spec_build_url(
            base@,
            endpoint@,
            pairs.deep_view(),
        ),
{
    let ghost ps = pairs.deep_view();
    let mut url = trim_base(base);
    url.append(endpoint);
    if pairs.len() == 0 {
        return url;
    }
    push_char(&mut url, '?');
    let ghost head = url@;
    let n = pairs.len();
    for i in 0..n
        invariant
            n == pairs.len(),
            n > 0,
            ps == pairs.deep_view(),
            i == 0 ==> url@ == head,
            (pairs_ascii(ps) && i > 0) ==> url@ == head + query_string(ps.take(i as int)),
    {
        proof {
            assert(ps.take(i + 1).drop_last() =~= ps.take(i as int));
            assert(ps.take(i + 1)[i as int] == ps[i as int]);
        }
        if i > 0 {
            push_char(&mut url, '&');
        }
        let key = encode_component(pairs[i].0.as_str());
        url.append(key.as_str());
        push_char(&mut url, '=');
        let value = encode_component(pairs[i].1.as_str());
        url.append(value.as_str());
        proof {
            if pairs_ascii(ps) {
                assert(is_ascii_chars(ps[i as int].0));
                assert(is_ascii_chars(ps[i as int].1));
                if i == 0 {
                    assert(url@ =~= head + query_string(ps.take(1)));
                } else {
                    assert(url@ =~= head + query_string(ps.take(i + 1)));
                }
            }
        }
    }
    proof {
        if pairs_ascii(ps) {
            assert(ps.take(n as int) =~= ps);
            assert(url@ =~= spec_build_url(base@, endpoint@, ps));
        }
    }
    url
}

} // verus!
