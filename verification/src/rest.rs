//! The REST worker's pure part: endpoint URL construction.
//!
//! Requests go to a fixed base URL; an endpoint is the base joined
//! with a suffix, with a trailing slash stripped from the base and a
//! leading slash stripped from the suffix, so exactly one slash
//! separates them.  The HTTP client issuing the requests lives
//! outside; it hands back plain values that the task-event builders
//! of the facade turn into events.

use vstd::prelude::*;

verus! {

/// The HTTPS base of the captcha / signup / login endpoints.
pub fn api_base_url() -> (r: &'static str)
    ensures
        r@ == "https://127.0.0.1:8443/api/v1"@,
{
    "https://127.0.0.1:8443/api/v1"
}

pub fn captcha_suffix() -> (r: &'static str)
    ensures
        r@ == "captcha"@,
{
    "captcha"
}

pub fn signup_suffix() -> (r: &'static str)
    ensures
        r@ == "signup"@,
{
    "signup"
}

pub fn login_suffix() -> (r: &'static str)
    ensures
        r@ == "login"@,
{
    "login"
}

/// The WSS URL of the chat endpoint.
pub fn ws_chat_url() -> (r: &'static str)
    ensures
        r@ == "wss://127.0.0.1:8443/api/v1/chat"@,
{
    "wss://127.0.0.1:8443/api/v1/chat"
}

/// `s` without its trailing `/` characters.
pub open spec fn strip_trailing_slashes(s: Seq<char>) -> Seq<char>
    decreases s.len(),
{
    if s.len() > 0 && s.last() == '/' {
        strip_trailing_slashes(s.drop_last())
    } else {
        s
    }
}

/// `s` without its leading `/` characters.
pub open spec fn strip_leading_slashes(s: Seq<char>) -> Seq<char>
    decreases s.len(),
{
    if s.len() > 0 && s.first() == '/' {
        strip_leading_slashes(s.skip(1))
    } else {
        s
    }
}

/// The URL of an endpoint: base and suffix joined by exactly one
/// slash.
pub open spec fn joined_url(base: Seq<char>, suffix: Seq<char>) -> Seq<char> {
    strip_trailing_slashes(base) + seq!['/'] + strip_leading_slashes(suffix)
}

/// Join a base URL and a suffix with exactly one slash between them.
pub fn join_url(base: &str, suffix: &str) -> (r: String)
    ensures
        r@ == joined_url(base@, suffix@),
{
    let blen = base.unicode_len();
    let mut bend: usize = blen;
    proof {
        assert(base@.take(blen as int) =~= base@);
    }
    while bend > 0 && base.get_char(bend - 1) == '/'
        invariant
            bend <= blen,
            blen == base@.len(),
            strip_trailing_slashes(base@) == strip_trailing_slashes(base@.take(bend as int)),
        decreases bend,
    {
        proof {
            assert(base@.take(bend as int).drop_last() =~= base@.take(bend - 1));
        }
        bend = bend - 1;
    }
    proof {
        assert(strip_trailing_slashes(base@.take(bend as int)) == base@.take(bend as int));
    }
    let slen = suffix.unicode_len();
    let mut sstart: usize = 0;
    proof {
        assert(suffix@.skip(0) =~= suffix@);
    }
    while sstart < slen && suffix.get_char(sstart) == '/'
        invariant
            sstart <= slen,
            slen == suffix@.len(),
            strip_leading_slashes(suffix@) == strip_leading_slashes(
                suffix@.skip(sstart as int),
            ),
        decreases slen - sstart,
    {
        proof {
            assert(suffix@.skip(sstart as int).skip(1) =~= suffix@.skip(sstart + 1));
            assert(suffix@.skip(sstart as int).first() == suffix@[sstart as int]);
        }
        sstart = sstart + 1;
    }
    proof {
        if sstart < slen {
            assert(suffix@.skip(sstart as int).first() == suffix@[sstart as int]);
        }
        assert(strip_leading_slashes(suffix@.skip(sstart as int)) == suffix@.skip(sstart as int));
    }
    let mut r = String::new();
    r.append(base.substring_char(0, bend));
    r.append("/");
    r.append(suffix.substring_char(sstart, slen));
    proof {
        reveal_strlit("/");
        assert("/"@ =~= seq!['/']);
        assert(base@.subrange(0, bend as int) =~= base@.take(bend as int));
        assert(suffix@.subrange(sstart as int, slen as int) =~= suffix@.skip(sstart as int));
    }
    r
}

/// The endpoint URL for one of the REST suffixes, against the fixed
/// base.
pub fn endpoint_url(suffix: &str) -> (r: String)
    ensures
        r@ == joined_url("https://127.0.0.1:8443/api/v1"@, suffix@),
{
    join_url(api_base_url(), suffix)
}

} // verus!
