use crate::events::VisioError;
use vstd::prelude::*;
use vstd::string::*;

verus! {

/// The pattern of a room slug: three, four and three lowercase letters
/// joined by dashes.
pub const ROOM_SLUG_PATTERN: &'static str = "^[a-z]{3}-[a-z]{4}-[a-z]{3}$";

/// Whether `c` has the Unicode property White_Space, by which `str::trim`
/// defines whitespace.
pub open spec fn is_white_space(c: char) -> bool {
    ||| '\u{9}' <= c && c <= '\u{d}'
    ||| c == ' ' || c == '\u{85}' || c == '\u{a0}' || c == '\u{1680}'
    ||| '\u{2000}' <= c && c <= '\u{200a}'
    ||| c == '\u{2028}' || c == '\u{2029}' || c == '\u{202f}' || c == '\u{205f}' || c == '\u{3000}'
}

/// `s` without its leading whitespace.
pub open spec fn trim_start_of(s: Seq<char>) -> Seq<char>
    decreases s.len(),
{
    if s.len() > 0 && is_white_space(s[0]) {
        trim_start_of(s.drop_first())
    } else {
        s
    }
}

/// `s` without its trailing whitespace.
pub open spec fn trim_end_of(s: Seq<char>) -> Seq<char>
    decreases s.len(),
{
    if s.len() > 0 && is_white_space(s.last()) {
        trim_end_of(s.drop_last())
    } else {
        s
    }
}

/// `s` without leading and trailing whitespace.
pub open spec fn trimmed(s: Seq<char>) -> Seq<char> {
    trim_end_of(trim_start_of(s))
}

/// The percent-encoding of `s`: every byte of its UTF-8 encoding but ASCII
/// letters, digits and `-`, `.`, `_`, `~` written as `%XX`.
pub uninterp spec fn url_encoded(s: Seq<char>) -> Seq<char>;

fn white_space(c: char) -> (r: bool)
    ensures
        r == is_white_space(c),
{
    ('\u{9}' <= c && c <= '\u{d}') || c == ' ' || c == '\u{85}' || c == '\u{a0}' || c == '\u{1680}'
        || ('\u{2000}' <= c && c <= '\u{200a}') || c == '\u{2028}' || c == '\u{2029}' || c == '\u{202f}'
        || c == '\u{205f}' || c == '\u{3000}'
}

/// `s` without leading and trailing whitespace, as `str::trim` gives it.
pub fn trim_text(s: &str) -> (r: &str)
    ensures
        r@ == trimmed(s@),
{
    let n = s.unicode_len();
    let mut i: usize = 0;
    proof {
        assert(s@.skip(0) =~= s@);
    }
    while i < n && white_space(s.get_char(i))
        invariant
            n == s@.len(),
            i <= n,
            trim_start_of(s@) == trim_start_of(s@.skip(i as int)),
        decreases n - i,
    {
        proof {
            assert(s@.skip(i as int).drop_first() =~= s@.skip(i + 1));
        }
        i = i + 1;
    }
    let mut j: usize = n;
    proof {
        assert(trim_start_of(s@) == s@.skip(i as int));
        assert(s@.subrange(i as int, n as int) =~= s@.skip(i as int));
    }
    while j > i && white_space(s.get_char(j - 1))
        invariant
            n == s@.len(),
            i <= j <= n,
            trimmed(s@) == trim_end_of(s@.subrange(i as int, j as int)),
        decreases j,
    {
        proof {
            assert(s@.subrange(i as int, j as int).drop_last() =~= s@.subrange(i as int, j - 1));
        }
        j = j - 1;
    }
    s.substring_char(i, j)
}

/// Relies on `urlencoding::encode`: the result depends on the text alone.
#[verifier::external_body]
fn url_encode(s: &str) -> (r: String)
    ensures
        r@ == url_encoded(s@),
{
    urlencoding::encode(s).into_owned()
}

pub open spec fn is_lower_ascii(c: char) -> bool {
    'a' <= c && c <= 'z'
}

/// Whether `s` is a room slug: `xxx-xxxx-xxx` in lowercase ASCII letters.
pub open spec fn is_room_slug(s: Seq<char>) -> bool {
    &&& s.len() == 12
    &&& s[3] == '-' && s[8] == '-'
    &&& forall|i: int| 0 <= i < 12 && i != 3 && i != 8 ==> is_lower_ascii(#[trigger] s[i])
}

/// Relies on `regex::Regex::new` and `Regex::is_match`: the room-slug
/// pattern, anchored at both ends, matches exactly the room slugs.
#[verifier::external_body]
fn slug_pattern_matches(pattern: &str, s: &str) -> (r: bool)
    requires
        pattern@ == ROOM_SLUG_PATTERN@,
    ensures
        r == is_room_slug(s@),
{
    regex::Regex::new(pattern).map(|re| re.is_match(s)).unwrap_or(false)
}

/// `s` with every trailing `/` removed.
pub open spec fn strip_trailing_slashes(s: Seq<char>) -> Seq<char>
    decreases s.len(),
{
    if s.len() > 0 && s.last() == '/' {
        strip_trailing_slashes(s.drop_last())
    } else {
        s
    }
}

/// `s` with each occurrence of `from`, scanning left to right without
/// overlap, replaced by `to`.
pub open spec fn replaced(s: Seq<char>, from: Seq<char>, to: Seq<char>) -> Seq<char>
    decreases s.len(),
{
    if s.len() == 0 || from.len() == 0 {
        s
    } else if from.len() <= s.len() && s.take(from.len() as int) == from {
        to + replaced(s.skip(from.len() as int), from, to)
    } else {
        seq![s[0]] + replaced(s.skip(1), from, to)
    }
}

/// The index of the first `c` in `s`, if any.
pub open spec fn first_index_of(s: Seq<char>, c: char) -> Option<int> {
    if exists|i: int| 0 <= i < s.len() && s[i] == c {
        Some(choose|i: int| 0 <= i < s.len() && s[i] == c && forall|k: int| 0 <= k < i ==> s[k] != c)
    } else {
        None
    }
}

/// A meeting address reduced to `instance/slug`: trimmed, trailing slashes
/// and `https://` / `http://` removed.
pub open spec fn bare_meet_url(url: Seq<char>) -> Seq<char> {
    replaced(replaced(strip_trailing_slashes(trimmed(url)), "https://"@, ""@), "http://"@, ""@)
}

/// The instance and room of a meeting address: the parts of its bare form
/// before and after the first `/`, both nonempty.
pub open spec fn meet_url_parts(url: Seq<char>) -> Option<(Seq<char>, Seq<char>)> {
    let u = bare_meet_url(url);
    match first_index_of(u, '/') {
        Some(i) => if i > 0 && i + 1 < u.len() {
            Some((u.take(i), u.skip(i + 1)))
        } else {
            None
        },
        None => None,
    }
}

/// The candidate slug of user input: the trimmed input without trailing
/// slashes, or its part after the last `/` when it holds one.
pub open spec fn slug_candidate(input: Seq<char>) -> Seq<char> {
    let s = strip_trailing_slashes(trimmed(input));
    if exists|i: int| 0 <= i < s.len() && s[i] == '/' {
        let j = choose|j: int| 0 <= j < s.len() && s[j] == '/' && forall|k: int| j < k < s.len() ==> s[k] != '/';
        s.skip(j + 1)
    } else {
        s
    }
}

/// The connection details that the meeting API hands out.
#[derive(Debug, Clone)]
pub struct TokenInfo {
    /// WebSocket address of the media server.
    pub livekit_url: String,
    /// Access token.
    pub token: String,
}

/// The meeting API's address for a token to join room `slug` on `instance`,
/// with the display name `username` when one is given.
pub open spec fn meet_api_url_text(instance: Seq<char>, slug: Seq<char>, username: Option<Seq<char>>) -> Seq<char> {
    "https://"@ + instance + "/api/v1.0/rooms/"@ + slug + "/"@ + match username {
        Some(n) => "?username="@ + url_encoded(n),
        None => ""@,
    }
}

/// The WebSocket form of a media-server address: `https://` becomes
/// `wss://`, then `http://` becomes `ws://`.
pub open spec fn websocket_url_text(url: Seq<char>) -> Seq<char> {
    replaced(replaced(url, "https://"@, "wss://"@), "http://"@, "ws://"@)
}

/// Whether `u` is the token request address for the meeting address `url`.
pub open spec fn token_request_text(u: Seq<char>, url: Seq<char>, username: Option<&str>) -> bool {
    match meet_url_parts(url) {
        Some((instance, room)) => u == meet_api_url_text(instance, room, match username {
            Some(n) => Some(n@),
            None => None::<Seq<char>>,
        }),
        None => false,
    }
}

/// Reading meeting addresses and building the meeting API's requests.
pub struct AuthService;

fn first_slash(s: &str) -> (r: Option<usize>)
    ensures
        r is None <==> first_index_of(s@, '/') is None,
        r matches Some(i) ==> i < s@.len() && first_index_of(s@, '/') == Some(i as int),
{
    let n = s.unicode_len();
    let mut i: usize = 0;
    while i < n
        invariant
            n == s@.len(),
            i <= n,
            forall|k: int| 0 <= k < i ==> s@[k] != '/',
        decreases n - i,
    {
        if s.get_char(i) == '/' {
            proof {
                let j = choose|j: int| 0 <= j < s@.len() && s@[j] == '/' && forall|k: int| 0 <= k < j ==> s@[k] != '/';
                if j < i {
                    assert(s@[j] != '/');
                } else if j > i {
                    assert(s@[i as int] != '/');
                }
            }
            return Some(i);
        }
        i = i + 1;
    }
    None
}

fn last_slash(s: &str) -> (r: Option<usize>)
    ensures
        r is None <==> !(exists|i: int| 0 <= i < s@.len() && s@[i] == '/'),
        r matches Some(j) ==> j < s@.len() && s@[j as int] == '/' && forall|k: int| j < k < s@.len() ==> s@[k] != '/',
{
    let n = s.unicode_len();
    let mut i: usize = n;
    while i > 0
        invariant
            n == s@.len(),
            i <= n,
            forall|k: int| i <= k < n ==> s@[k] != '/',
        decreases i,
    {
        if s.get_char(i - 1) == '/' {
            return Some(i - 1);
        }
        i = i - 1;
    }
    None
}

/// `a`, then `b`, then `c`.
fn join3(a: &str, b: &str, c: &str) -> (r: String)
    ensures
        r@ == a@ + b@ + c@,
{
    let mut r = String::from_str(a);
    r.append(b);
    r.append(c);
    r
}

impl AuthService {
    /// Splits a meeting address (`https://meet.example.com/room`, or the
    /// same without scheme) into its instance and its room.
    pub fn parse_meet_url(url: &str) -> (r: Result<(String, String), VisioError>)
        ensures
            r is Err <==> meet_url_parts(url@) is None,
            r matches Err(e) ==> e is InvalidUrl,
            r matches Ok((instance, room)) ==> meet_url_parts(url@) == Some((instance@, room@)),
    {
        let t = strip_slashes(trim_text(url));
        let u1 = replace_all(t, "https://", "");
        let u = replace_all(u1.as_str(), "http://", "");
        let n = u.as_str().unicode_len();
        match first_slash(u.as_str()) {
            Some(i) => {
                if i > 0 && i + 1 < n {
                    let instance = String::from_str(u.as_str().substring_char(0, i));
                    let room = String::from_str(u.as_str().substring_char(i + 1, n));
                    proof {
                        assert(u@.skip(i + 1) =~= u@.subrange(i + 1, n as int));
                        assert(u@.take(i as int) =~= u@.subrange(0, i as int));
                    }
                    Ok((instance, room))
                } else {
                    Err(VisioError::InvalidUrl(join3("expected 'instance/room-slug', got '", u.as_str(), "'")))
                }
            },
            None => Err(VisioError::InvalidUrl(join3("expected 'instance/room-slug', got '", u.as_str(), "'"))),
        }
    }

    /// Reads a room slug from user input, a full meeting address or the bare
    /// slug, and checks its shape (`abc-defg-hij`).
    pub fn extract_slug(input: &str) -> (r: Result<String, VisioError>)
        ensures
            r is Ok <==> is_room_slug(slug_candidate(input@)),
            r matches Ok(s) ==> s@ == slug_candidate(input@),
            r matches Err(e) ==> e is InvalidUrl,
    {
        let s = strip_slashes(trim_text(input));
        let n = s.unicode_len();
        let candidate = match last_slash(s) {
            Some(j) => {
                proof {
                    let k = choose|k: int| 0 <= k < s@.len() && s@[k] == '/' && forall|m: int| k < m < s@.len() ==> s@[m] != '/';
                    if k < j {
                        assert(s@[j as int] != '/');
                    } else if k > j {
                        assert(s@[k] != '/');
                    }
                    assert(s@.skip(j + 1) =~= s@.subrange(j + 1, n as int));
                }
                s.substring_char(j + 1, n)
            },
            None => {
                proof {
                    assert(s@.subrange(0, n as int) =~= s@);
                }
                s.substring_char(0, n)
            },
        };
        if slug_pattern_matches(ROOM_SLUG_PATTERN, candidate) {
            Ok(String::from_str(candidate))
        } else {
            Err(VisioError::InvalidUrl(join3("invalid room slug format: '", candidate, "'")))
        }
    }

    /// The meeting API's address for a token to join room `slug` on
    /// `instance`, with the percent-encoded `username` when one is given.
    pub fn meet_api_url(instance: &str, slug: &str, username: Option<&str>) -> (r: String)
        ensures
            r@ == meet_api_url_text(instance@, slug@, match username {
                Some(n) => Some(n@),
                None => None::<Seq<char>>,
            }),
    {
        let mut r = join3("https://", instance, "/api/v1.0/rooms/");
        r.append(slug);
        r.append("/");
        match username {
            Some(name) => {
                let encoded = url_encode(name);
                r.append("?username=");
                r.append(encoded.as_str());
                proof {
                    assert(r@ =~= meet_api_url_text(instance@, slug@, Some(name@)));
                }
            },
            None => {
                proof {
                    reveal_strlit("");
                    assert(r@ =~= meet_api_url_text(instance@, slug@, None));
                }
            },
        }
        r
    }

    /// The address to ask for a token, from a meeting address and an
    /// optional display name: the first step of joining a meeting.
    pub fn token_request_url(meet_url: &str, username: Option<&str>) -> (r: Result<String, VisioError>)
        ensures
            r is Err <==> meet_url_parts(meet_url@) is None,
            r matches Err(e) ==> e is InvalidUrl,
            r matches Ok(u) ==> token_request_text(u@, meet_url@, username),
    {
        match Self::parse_meet_url(meet_url) {
            Ok((instance, room)) => Ok(Self::meet_api_url(instance.as_str(), room.as_str(), username)),
            Err(e) => Err(e),
        }
    }

    /// The connection details from the meeting API's answer: the
    /// media-server address in its WebSocket form, and the token.
    pub fn token_info(livekit_url: &str, token: String) -> (r: TokenInfo)
        ensures
            r.livekit_url@ == websocket_url_text(livekit_url@),
            r.token == token,
    {
        let secure = replace_all(livekit_url, "https://", "wss://");
        let url = replace_all(secure.as_str(), "http://", "ws://");
        TokenInfo { livekit_url: url, token }
    }
}

fn strip_slashes(s: &str) -> (r: &str)
    ensures
        r@ == strip_trailing_slashes(s@),
{
    let mut n: usize = s.unicode_len();
    proof {
        assert(s@.take(n as int) =~= s@);
    }
    while n > 0 && s.get_char(n - 1) == '/'
        invariant
            n <= s@.len(),
            strip_trailing_slashes(s@) == strip_trailing_slashes(s@.take(n as int)),
        decreases n,
    {
        proof {
            assert(s@.take(n as int).drop_last() =~= s@.take(n - 1));
        }
        n = n - 1;
    }
    s.substring_char(0, n)
}

fn starts_at(s: &str, i: usize, pat: &str) -> (r: bool)
    requires
        i <= s@.len(),
    ensures
        r == (pat@.len() <= s@.len() - i && s@.skip(i as int).take(pat@.len() as int) == pat@),
{
    let n = s.unicode_len();
    let m = pat.unicode_len();
    if m > n - i {
        return false;
    }
    let mut k: usize = 0;
    while k < m
        invariant
            m == pat@.len(),
            n == s@.len(),
            i + m <= n,
            k <= m,
            forall|j: int| 0 <= j < k ==> s@[i + j] == pat@[j],
        decreases m - k,
    {
        if s.get_char(i + k) != pat.get_char(k) {
            proof {
                assert(s@.skip(i as int).take(m as int)[k as int] != pat@[k as int]);
            }
            return false;
        }
        k = k + 1;
    }
    proof {
        assert(s@.skip(i as int).take(m as int) =~= pat@);
    }
    true
}

/// `s` with each occurrence of `from` replaced by `to`.
pub fn replace_all(s: &str, from: &str, to: &str) -> (r: String)
    ensures
        r@ == replaced(s@, from@, to@),
{
    let n = s.unicode_len();
    if from.unicode_len() == 0 {
        return String::from_str(s);
    }
    let mut out = String::new();
    let mut i: usize = 0;
    proof {
        assert(s@.skip(0) =~= s@);
    }
    while i < n
        invariant
            n == s@.len(),
            i <= n,
            from@.len() > 0,
            out@ + replaced(s@.skip(i as int), from@, to@) == replaced(s@, from@, to@),
        decreases n - i,
    {
        let ghost rest = s@.skip(i as int);
        if starts_at(s, i, from) {
            out.append(to);
            proof {
                assert(rest.skip(from@.len() as int) =~= s@.skip(i + from@.len()));
            }
            i = i + from.unicode_len();
        } else {
            out.append(s.substring_char(i, i + 1));
            proof {
                assert(rest.skip(1) =~= s@.skip(i + 1));
                assert(s@.subrange(i as int, i + 1) =~= seq![rest[0]]);
            }
            i = i + 1;
        }
        proof {
            assert(out@ + replaced(s@.skip(i as int), from@, to@) =~= replaced(s@, from@, to@));
        }
    }
    proof {
        assert(out@ =~= replaced(s@, from@, to@));
    }
    out
}

} // verus!
