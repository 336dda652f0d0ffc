//! Rules of the desktop shell: how the embedded server is reached, which
//! navigations stay inside the app window, and the YouTube embed page.

use crate::text::{chars_eq, chars_of, decimal, decimal_chars, seq_starts_with, starts_with, string_from_chars};
use vstd::prelude::*;
use vstd::string::{StringExecFns, StringSliceAdditionalSpecFns};

verus! {

/// How the frontend reaches the embedded backend.
#[derive(Clone, Debug)]
pub struct ServerInfo {
    pub base_url: String,
    pub api_key: String,
}

/// Query of the YouTube embed page.
#[derive(Clone, Debug)]
pub struct YoutubeEmbedQuery {
    pub v: String,
}

fn str_is(s: &str, lit: &str) -> (b: bool)
    ensures
        b == (s@ == lit@),
{
    chars_eq(chars_of(s).as_slice(), chars_of(lit).as_slice())
}

fn opt_str_is(s: Option<&str>, lit: &str) -> (b: bool)
    ensures
        b == (s matches Some(x) && x@ == lit@),
{
    match s {
        Some(x) => str_is(x, lit),
        None => false,
    }
}

#[verifier::external_type_specification]
#[verifier::external_body]
pub struct ExStdRng(rand::rngs::StdRng);

/// Calls `rand::SeedableRng::try_from_os_rng` for `rand::rngs::StdRng`: a
/// ChaCha generator seeded from the operating system's source; `None` when
/// that source fails. Nothing is stated of the seed.
#[verifier::external_body]
fn os_seeded_rng() -> (r: Option<rand::rngs::StdRng>) {
    <rand::rngs::StdRng as rand::SeedableRng>::try_from_os_rng().ok()
}

/// An ASCII letter or digit, as a byte.
pub open spec fn alphanumeric_byte(b: u8) -> bool {
    (48 <= b <= 57) || (65 <= b <= 90) || (97 <= b <= 122)
}

/// Draws one byte from `rand::distr::Alphanumeric` with `rand::Rng::sample`,
/// which picks among `A`-`Z`, `a`-`z` and `0`-`9`; which one is chance.
#[verifier::external_body]
fn sample_alphanumeric(rng: &mut rand::rngs::StdRng) -> (b: u8)
    ensures
        alphanumeric_byte(b),
{
    rand::Rng::sample(rng, rand::distr::Alphanumeric)
}

/// A character of an api key: an ASCII letter or digit.
pub open spec fn api_key_char(c: char) -> bool {
    ('0' <= c <= '9') || ('A' <= c <= 'Z') || ('a' <= c <= 'z')
}

/// Bytes read as characters, one for one.
pub open spec fn spelled(d: Seq<u8>) -> Seq<char> {
    d.map_values(|b: u8| b as char)
}

/// The key spelled by drawn bytes, one character per byte.
pub fn key_from_draws(draws: &[u8]) -> (s: String)
    ensures
        s@ == spelled(draws@),
{
    let mut v: Vec<char> = Vec::new();
    let mut i: usize = 0;
    while i < draws.len()
        invariant
            i <= draws@.len(),
            v@ == draws@.take(i as int).map_values(|b: u8| b as char),
        decreases draws@.len() - i,
    {
        v.push(draws[i] as char);
        i = i + 1;
        proof {
            assert(v@ =~= draws@.take(i as int).map_values(|b: u8| b as char));
        }
    }
    proof {
        assert(draws@.take(draws@.len() as int) =~= draws@);
    }
    string_from_chars(v.as_slice())
}

/// A fresh per-launch api key: 32 bytes drawn from rand's `Alphanumeric`
/// distribution, spelled as characters; `None` when the operating system's
/// random source fails.
pub fn generate_api_key() -> (r: Option<String>)
    ensures
        r matches Some(k) ==> exists|d: Seq<u8>|
            d.len() == 32 && (forall|i: int| 0 <= i < 32 ==> alphanumeric_byte(#[trigger] d[i])) && k@
                == #[trigger] spelled(d),
        r matches Some(k) ==> k@.len() == 32 && forall|i: int| 0 <= i < 32 ==> api_key_char(#[trigger] k@[i]),
{
    let mut rng = match os_seeded_rng() {
        Some(g) => g,
        None => return None,
    };
    let mut draws: Vec<u8> = Vec::new();
    let mut i: usize = 0;
    while i < 32
        invariant
            i <= 32,
            draws@.len() == i,
            forall|k: int| 0 <= k < i ==> alphanumeric_byte(#[trigger] draws@[k]),
        decreases 32 - i,
    {
        let b = sample_alphanumeric(&mut rng);
        draws.push(b);
        i = i + 1;
    }
    let key = key_from_draws(draws.as_slice());
    proof {
        assert forall|i: int| 0 <= i < 32 implies api_key_char(#[trigger] key@[i]) by {
            assert(key@[i] == draws@[i] as char);
            assert(alphanumeric_byte(draws@[i]));
        }
        assert(key@ == spelled(draws@));
    }
    Some(key)
}

/// The embedded server's address for a port on the loopback interface.
pub fn base_url(port: u16) -> (s: String)
    ensures
        s@ == "http://127.0.0.1:"@ + decimal(port as int),
{
    let mut s = String::from_str("http://127.0.0.1:");
    let d = string_from_chars(decimal_chars(port as i64).as_slice());
    s.append(d.as_str());
    s
}

/// Navigations that stay inside the app window: the app's own pages, the
/// embedded server, YouTube's embed player (which the embed page nests),
/// and in debug builds the development server. Everything else opens in
/// the system browser.
pub open spec fn is_internal_spec(scheme: Seq<char>, host: Option<Seq<char>>, path: Seq<char>, debug: bool) -> bool {
    ||| scheme == "tauri"@
    ||| host == Some("tauri.localhost"@)
    ||| host == Some("127.0.0.1"@)
    ||| host == Some("www.youtube.com"@) && seq_starts_with(path, "/embed/"@)
    ||| debug && host == Some("localhost"@)
}

/// Whether a navigation to a URL with these parts stays in the app.
pub fn is_internal_navigation(scheme: &str, host: Option<&str>, path: &str, debug: bool) -> (b: bool)
    ensures
        b == is_internal_spec(
            scheme@,
            match host {
                Some(h) => Some(h@),
                None => None,
            },
            path@,
            debug,
        ),
{
    if str_is(scheme, "tauri") || opt_str_is(host, "tauri.localhost") || opt_str_is(host, "127.0.0.1") {
        return true;
    }
    if opt_str_is(host, "www.youtube.com") && starts_with(chars_of(path).as_slice(), chars_of("/embed/").as_slice()) {
        return true;
    }
    debug && opt_str_is(host, "localhost")
}

pub open spec fn id_char(c: char) -> bool {
    ('0' <= c <= '9') || ('a' <= c <= 'z') || ('A' <= c <= 'Z') || c == '_' || c == '-'
}

/// A YouTube video id: 11 bytes, each an ASCII letter, digit, `_` or `-`.
pub open spec fn valid_video_id_spec(s: &str) -> bool {
    s@.len() == 11 && forall|i: int| 0 <= i < s@.len() ==> id_char(#[trigger] s@[i])
}

pub fn validate_video_id(video_id: &str) -> (b: bool)
    ensures
        b == valid_video_id_spec(video_id),
{
    let c = chars_of(video_id);
    if c.len() != 11 {
        return false;
    }
    let mut i: usize = 0;
    while i < c.len()
        invariant
            i <= c@.len(),
            c@ == video_id@,
            forall|k: int| 0 <= k < i ==> id_char(#[trigger] c@[k]),
        decreases c@.len() - i,
    {
        let ch = c[i];
        if !(('0' <= ch && ch <= '9') || ('a' <= ch && ch <= 'z') || ('A' <= ch && ch <= 'Z') || ch == '_'
            || ch == '-') {
            return false;
        }
        i = i + 1;
    }
    true
}

pub open spec fn embed_head() -> Seq<char> {
    "<!DOCTYPE html>\n<html>\n<head>\n<meta charset=\"utf-8\">\n<style>\n  * { margin: 0; padding: 0; box-sizing: border-box; }\n  html, body { width: 100%; height: 100%; overflow: hidden; background: #000; }\n  iframe { width: 100%; height: 100%; border: none; }\n</style>\n</head>\n<body>\n<iframe\n  src=\"https://www.youtube.com/embed/"@
}

pub open spec fn embed_tail() -> Seq<char> {
    "\"\n  allow=\"accelerometer; autoplay; clipboard-write; encrypted-media; gyroscope; picture-in-picture; web-share\"\n  allowfullscreen>\n</iframe>\n</body>\n</html>"@
}

/// YouTube's embed player rejects the webview's own origin, so the app
/// serves this page from its local server and the player loads inside it.
/// An invalid id gets no page.
pub fn youtube_embed_html(video_id: &str) -> (r: Option<String>)
    ensures
        valid_video_id_spec(video_id) ==> (r matches Some(s) && s@ == embed_head() + video_id@ + embed_tail()),
        !valid_video_id_spec(video_id) ==> r is None,
{
    if !validate_video_id(video_id) {
        return None;
    }
    let mut s = String::from_str("<!DOCTYPE html>\n<html>\n<head>\n<meta charset=\"utf-8\">\n<style>\n  * { margin: 0; padding: 0; box-sizing: border-box; }\n  html, body { width: 100%; height: 100%; overflow: hidden; background: #000; }\n  iframe { width: 100%; height: 100%; border: none; }\n</style>\n</head>\n<body>\n<iframe\n  src=\"https://www.youtube.com/embed/");
    s.append(video_id);
    s.append("\"\n  allow=\"accelerometer; autoplay; clipboard-write; encrypted-media; gyroscope; picture-in-picture; web-share\"\n  allowfullscreen>\n</iframe>\n</body>\n</html>");
    Some(s)
}

} // verus!
