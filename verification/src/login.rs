//! One-time login handling: pulling the auth parameter out of a
//! telegram-style deep link, percent-decoding it, and combining it with the
//! invite code into the base64 token the auth endpoint is given.
//!
//! A link is parseable when it carries a fragment (`#...`) whose first
//! `&`-separated segment contains a `=`; the auth value is the piece of that
//! segment between the first `=` and the next `=` or the segment's end.

use vstd::prelude::*;
use base64::Engine;

verus! {

/// The position of the first occurrence of `c` in `s` at or after `i`.
pub open spec fn find_from(s: Seq<char>, c: char, i: int) -> Option<int>
    decreases s.len() - i,
{
    if i < 0 || i >= s.len() {
        None
    } else if s[i] == c {
        Some(i)
    } else {
        find_from(s, c, i + 1)
    }
}

/// `find_from` only answers positions inside the string, at or after the
/// start of the search, and they hold the character sought.
pub proof fn lemma_find_from_bounds(s: Seq<char>, c: char, i: int)
    requires
        0 <= i <= s.len(),
    ensures
        find_from(s, c, i) matches Some(k) ==> i <= k < s.len() && s[k] == c,
    decreases s.len() - i,
{
    if i < s.len() && s[i] != c {
        lemma_find_from_bounds(s, c, i + 1);
    }
}

/// The auth value of a deep link: `None` when the link has no parseable
/// fragment.
pub open spec fn spec_auth_param(link: Seq<char>) -> Option<Seq<char>> {
    match find_from(link, '#', 0) {
        None => None,
        Some(h) => {
            let frag = link.skip(h + 1);
            let seg = match find_from(frag, '&', 0) {
                None => frag,
                Some(a) => frag.take(a),
            };
            match find_from(seg, '=', 0) {
                None => None,
                Some(e) => {
                    let after = seg.skip(e + 1);
                    Some(
                        match find_from(after, '=', 0) {
                            None => after,
                            Some(e2) => after.take(e2),
                        },
                    )
                },
            }
        },
    }
}

/// An auth value is a piece of the link, so never longer than it.
pub proof fn lemma_auth_param_len(link: Seq<char>)
    ensures
        spec_auth_param(link) matches Some(v) ==> v.len() <= link.len(),
{
    lemma_find_from_bounds(link, '#', 0);
    match find_from(link, '#', 0) {
        None => {},
        Some(h) => {
            let frag = link.skip(h + 1);
            lemma_find_from_bounds(frag, '&', 0);
            let seg = match find_from(frag, '&', 0) {
                None => frag,
                Some(a) => frag.take(a),
            };
            lemma_find_from_bounds(seg, '=', 0);
            match find_from(seg, '=', 0) {
                None => {},
                Some(e) => {
                    let after = seg.skip(e + 1);
                    lemma_find_from_bounds(after, '=', 0);
                },
            }
        },
    }
}

/// Finds the first occurrence of `c` in `s` at or after `from`.
pub fn find_char(s: &str, c: char, from: usize) -> (r: Option<usize>)
    requires
        from <= s@.len(),
    ensures
        r matches Some(k) ==> from <= k < s@.len() && find_from(s@, c, from as int) == Some(
            k as int,
        ),
        r is None ==> find_from(s@, c, from as int) is None,
{
    let n = s.unicode_len();
    let mut i = from;
    while i < n
        invariant
            from <= i <= n,
            n == s@.len(),
            find_from(s@, c, from as int) == find_from(s@, c, i as int),
        decreases n - i,
    {
        if s.get_char(i) == c {
            return Some(i);
        }
        i = i + 1;
    }
    None
}

/// Pulls the auth value out of a deep link, exactly when the link has a
/// parseable fragment.
pub fn extract_auth_param(link: &str) -> (r: Option<String>)
    ensures
        (r is Some) == (spec_auth_param(link@) is Some),
        r matches Some(v) ==> spec_auth_param(link@) == Some(v@),
{
    let n = link.unicode_len();
    match find_char(link, '#', 0) {
        None => None,
        Some(h) => {
            let frag = link.substring_char(h + 1, n);
            proof {
                assert(frag@ =~= link@.skip(h + 1));
            }
            let frag_len = frag.unicode_len();
            let seg = match find_char(frag, '&', 0) {
                None => frag,
                Some(a) => frag.substring_char(0, a),
            };
            proof {
                match find_from(frag@, '&', 0) {
                    None => {},
                    Some(a) => {
                        assert(seg@ =~= frag@.take(a));
                    },
                }
            }
            let seg_len = seg.unicode_len();
            match find_char(seg, '=', 0) {
                None => None,
                Some(e) => {
                    let after = seg.substring_char(e + 1, seg_len);
                    proof {
                        assert(after@ =~= seg@.skip(e + 1));
                    }
                    let after_len = after.unicode_len();
                    let val = match find_char(after, '=', 0) {
                        None => after,
                        Some(e2) => after.substring_char(0, e2),
                    };
                    proof {
                        match find_from(after@, '=', 0) {
                            None => {},
                            Some(e2) => {
                                assert(val@ =~= after@.take(e2));
                            },
                        }
                    }
                    Some(val.to_owned())
                },
            }
        },
    }
}

/// What `urlencoding::decode` returns on a given string.
pub uninterp spec fn percent_decoded(s: Seq<char>) -> Seq<char>;

/// Relies on urlencoding's `decode`: percent-decoding of a UTF-8 string, a
/// pure function of the input. Its source returns the input unchanged when
/// no `%` occurs in it, never writes more bytes than it reads (every `%XX`
/// shrinks), and fails only when the decoded bytes are not valid UTF-8; a
/// UTF-8 character is one to four bytes, which gives the length bound over
/// characters.
#[verifier::external_body]
fn url_decode(s: &str) -> (r: Option<String>)
    ensures
        r is Some ==> r->0@ == percent_decoded(s@),
        r is Some ==> r->0@.len() <= 4 * s@.len(),
        !s@.contains('%') ==> r is Some && r->0@ == s@,
{
    match urlencoding::decode(s) {
        Ok(c) => Some(c.into_owned()),
        Err(_) => None,
    }
}

/// What base64's `STANDARD` engine returns on a given string's bytes.
pub uninterp spec fn base64_of(s: Seq<char>) -> Seq<char>;

/// Relies on base64's `STANDARD` engine (the RFC 4648 alphabet, with
/// padding): a pure function of the input bytes; the empty input encodes to
/// the empty string. Encoding can only panic when the output length
/// overflows `usize`; the precondition keeps the input far inside that.
#[verifier::external_body]
fn base64_encode(s: &str) -> (r: String)
    requires
        s@.len() <= 0x1000_0000,
    ensures
        r@ == base64_of(s@),
        s@.len() == 0 ==> r@.len() == 0,
{
    base64::engine::general_purpose::STANDARD.encode(s)
}

/// What the auth endpoint is handed for a given auth value and invite code:
/// the decoded value, `&invite_code=`, and the code, base64-encoded.
pub open spec fn spec_login_token(param: Seq<char>, invite_code: Seq<char>) -> Seq<char> {
    base64_of(percent_decoded(param) + "&invite_code="@ + invite_code)
}

/// Builds the login token from a deep link and an invite code. Fails when
/// the link has no parseable fragment (and when the auth value does not
/// decode); a link whose auth value carries no percent-escape always
/// succeeds.
pub fn build_login_token(link: &str, invite_code: &str) -> (r: Option<String>)
    requires
        link@.len() <= 0x10_0000,
        invite_code@.len() <= 0x1_0000,
    ensures
        spec_auth_param(link@) is None ==> r is None,
        r matches Some(t) ==> (spec_auth_param(link@) matches Some(v) && t@ == spec_login_token(
            v,
            invite_code@,
        )),
        (spec_auth_param(link@) matches Some(v) && !v.contains('%')) ==> r is Some,
{
    match extract_auth_param(link) {
        None => None,
        Some(param) => {
            proof {
                lemma_auth_param_len(link@);
            }
            match url_decode(param.as_str()) {
                None => None,
                Some(decoded) => {
                    let mut blob = decoded;
                    blob.append("&invite_code=");
                    blob.append(invite_code);
                    proof {
                        reveal_strlit("&invite_code=");
                    }
                    let token = base64_encode(blob.as_str());
                    Some(token)
                },
            }
        },
    }
}

} // verus!
