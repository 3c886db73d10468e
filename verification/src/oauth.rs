//! The browser side of the OAuth login: the authorization URL with its PKCE
//! challenge, and the local callback request that carries the code back.
use vstd::prelude::*;
use crate::error::{AppError, AppErrorV, app_error, random_error, random_unavailable};
use crate::number::{find2, find_in, lemma_find2_bound};
use crate::protocol::{AUTHORIZE_URL, CLIENT_ID, REDIRECT_URI};
use crate::text::{chars_of, concat2, copy_string, opt_view, owned, str_eq, string_of};
use vstd::string::StrSliceExecFns;

verus! {

/// The URL reader: the path and the decoded query pairs of a URL text, if
/// it is a valid URL.
pub uninterp spec fn url_parts(text: Seq<char>) -> Option<(Seq<char>, Seq<(Seq<char>, Seq<char>)>)>;

pub open spec fn pairs_view(q: Seq<(String, String)>) -> Seq<(Seq<char>, Seq<char>)> {
    q.map_values(|p: (String, String)| (p.0@, p.1@))
}

/// Reads a URL with `url::Url::parse`, giving its `path()` and its
/// `query_pairs()` (percent-decoded). Claims that the result is the reader's
/// result for the text.
#[verifier::external_body]
pub(crate) fn parse_url(text: &str) -> (r: Option<(String, Vec<(String, String)>)>)
    ensures
        match r {
            Some((p, q)) => url_parts(text@) == Some((p@, pairs_view(q@))),
            None => url_parts(text@) is None,
        },
{
    url::Url::parse(text).ok().map(|u| (u.path().to_string(), u.query_pairs().map(|(k, v)| (k.into_owned(), v.into_owned())).collect()))
}

/// The values of the query pairs with the given name, in order.
pub open spec fn values_of(pairs: Seq<(Seq<char>, Seq<char>)>, key: Seq<char>) -> Seq<Seq<char>>
    decreases pairs.len(),
{
    if pairs.len() == 0 {
        Seq::empty()
    } else {
        let rest = values_of(pairs.drop_last(), key);
        if pairs.last().0 == key {
            rest.push(pairs.last().1)
        } else {
            rest
        }
    }
}

fn values(pairs: &Vec<(String, String)>, key: &str) -> (r: Vec<String>)
    ensures
        r@.map_values(|s: String| s@) == values_of(pairs_view(pairs@), key@),
{
    let mut out: Vec<String> = Vec::new();
    let mut i: usize = 0;
    while i < pairs.len()
        invariant
            i <= pairs@.len(),
            out@.map_values(|s: String| s@) == values_of(pairs_view(pairs@).subrange(0, i as int), key@),
        decreases pairs.len() - i,
    {
        let ghost pv = pairs_view(pairs@);
        proof {
            assert(pv.subrange(0, i + 1).drop_last() =~= pv.subrange(0, i as int));
            assert(pv.subrange(0, i + 1).last() == (pairs@[i as int].0@, pairs@[i as int].1@));
        }
        if str_eq(pairs[i].0.as_str(), key) {
            let ghost before = out@;
            out.push(copy_string(&pairs[i].1));
            assert(out@.map_values(|s: String| s@) =~= before.map_values(|s: String| s@).push(pairs@[i as int].1@));
        }
        i += 1;
    }
    assert(pairs_view(pairs@).subrange(0, pairs@.len() as int) =~= pairs_view(pairs@));
    out
}

pub open spec fn callback_error(message: Seq<char>) -> AppErrorV {
    app_error("OAUTH_CALLBACK"@, message)
}

pub open spec fn state_error() -> AppErrorV {
    app_error("OAUTH_STATE"@, "OAuth state 不匹配"@)
}

pub open spec fn denied_error() -> AppErrorV {
    app_error("OAUTH_DENIED"@, "OAuth 登录被拒绝或取消"@)
}

/// The authorization code of a callback URL read as its path and query
/// pairs (nothing when it is no URL), checked against the expected state:
/// one matching `state`, no `error`, exactly one non-empty `code`.
pub open spec fn spec_callback_parts(
    parts: Option<(Seq<char>, Seq<(Seq<char>, Seq<char>)>)>,
    state: Seq<char>,
) -> Result<Seq<char>, AppErrorV> {
    match parts {
        None => Err(callback_error("无效回调"@)),
        Some((path, pairs)) => if path != "/auth/callback"@ {
            Err(callback_error("回调路径不匹配"@))
        } else if values_of(pairs, "state"@) != seq![state] {
            Err(state_error())
        } else if values_of(pairs, "error"@).len() > 0 {
            Err(denied_error())
        } else {
            let code = values_of(pairs, "code"@);
            if code.len() != 1 || code[0].len() == 0 {
                Err(callback_error("回调缺少唯一 authorization code"@))
            } else {
                Ok(code[0])
            }
        },
    }
}

/// The authorization code of a callback request target, checked against the
/// expected state.
pub open spec fn spec_callback(target: Seq<char>, state: Seq<char>) -> Result<Seq<char>, AppErrorV> {
    spec_callback_parts(url_parts("http://localhost"@ + target), state)
}

/// A callback is accepted only on the callback path, carrying the expected
/// state exactly once, no error, and exactly one code, the one returned.
pub proof fn law_callback_needs_single_matching_state(target: Seq<char>, state: Seq<char>)
    requires
        spec_callback(target, state) is Ok,
    ensures
        ({
            let (path, pairs) = url_parts("http://localhost"@ + target).unwrap();
            &&& path == "/auth/callback"@
            &&& values_of(pairs, "state"@) == seq![state]
            &&& values_of(pairs, "error"@).len() == 0
            &&& values_of(pairs, "code"@) == seq![spec_callback(target, state)->Ok_0]
        }),
{
    let (path, pairs) = url_parts("http://localhost"@ + target).unwrap();
    let code = values_of(pairs, "code"@);
    assert(code =~= seq![code[0]]);
}

pub open spec fn text_result(r: Result<String, AppError>) -> Result<Seq<char>, AppErrorV> {
    match r {
        Ok(s) => Ok(s@),
        Err(e) => Err(e@),
    }
}

pub open spec fn parts_view(parts: Option<(String, Vec<(String, String)>)>) -> Option<
    (Seq<char>, Seq<(Seq<char>, Seq<char>)>),
> {
    match parts {
        Some((p, q)) => Some((p@, pairs_view(q@))),
        None => None,
    }
}

/// The authorization code of a callback URL given as its path and query
/// pairs, nothing where it is no URL.
pub fn callback_result(parts: Option<(String, Vec<(String, String)>)>, state: &str) -> (r: Result<String, AppError>)
    ensures
        text_result(r) == spec_callback_parts(parts_view(parts), state@),
{
    let (path, pairs) = match parts {
        Some(p) => p,
        None => {
            return Err(AppError::new("OAUTH_CALLBACK", "无效回调"));
        },
    };
    if !str_eq(path.as_str(), "/auth/callback") {
        return Err(AppError::new("OAUTH_CALLBACK", "回调路径不匹配"));
    }
    let states = values(&pairs, "state");
    let state_ok = states.len() == 1 && str_eq(states[0].as_str(), state);
    proof {
        let sv = states@.map_values(|s: String| s@);
        if states.len() == 1 {
            assert(sv[0] == states@[0]@);
            if state_ok {
                assert(sv =~= seq![state@]);
            }
        }
    }
    if !state_ok {
        proof {
            let sv = states@.map_values(|s: String| s@);
            let one = seq![state@];
            assert(one.len() == 1 && one[0] == state@);
            if states.len() == 1 {
                assert(sv[0] == states@[0]@);
            }
            assert(sv != one);
        }
        return Err(AppError::new("OAUTH_STATE", "OAuth state 不匹配"));
    }
    let errors = values(&pairs, "error");
    if errors.len() > 0 {
        return Err(AppError::new("OAUTH_DENIED", "OAuth 登录被拒绝或取消"));
    }
    let codes = values(&pairs, "code");
    proof {
        if codes.len() > 0 {
            assert(codes@.map_values(|s: String| s@)[0] == codes@[0]@);
        }
    }
    if codes.len() != 1 || codes[0].as_str().unicode_len() == 0 {
        return Err(AppError::new("OAUTH_CALLBACK", "回调缺少唯一 authorization code"));
    }
    Ok(copy_string(&codes[0]))
}

/// The authorization code of a callback request target.
pub fn parse(target: &str, state: &str) -> (r: Result<String, AppError>)
    ensures
        text_result(r) == spec_callback(target@, state@),
{
    let url = concat2("http://localhost", target);
    callback_result(parse_url(url.as_str()), state)
}

/// Rust's `char::is_whitespace`: the Unicode `White_Space` property.
pub open spec fn is_ws(c: char) -> bool {
    ('\u{9}' <= c && c <= '\u{d}') || c == ' ' || c == '\u{85}' || c == '\u{a0}' || c == '\u{1680}' || ('\u{2000}' <= c
        && c <= '\u{200a}') || c == '\u{2028}' || c == '\u{2029}' || c == '\u{202f}' || c == '\u{205f}' || c == '\u{3000}'
}

pub fn whitespace(c: char) -> (r: bool)
    ensures
        r == is_ws(c),
{
    ('\u{9}' <= c && c <= '\u{d}') || c == ' ' || c == '\u{85}' || c == '\u{a0}' || c == '\u{1680}' || ('\u{2000}' <= c
        && c <= '\u{200a}') || c == '\u{2028}' || c == '\u{2029}' || c == '\u{202f}' || c == '\u{205f}' || c == '\u{3000}'
}

/// The first line of a text, as `str::lines` yields it (`\r\n` or `\n`
/// endings; nothing for an empty text).
pub open spec fn first_line(t: Seq<char>) -> Seq<char> {
    let i = find2(t, '\n', '\n') as int;
    if i < t.len() {
        let l = t.subrange(0, i);
        if l.len() > 0 && l.last() == '\r' {
            l.drop_last()
        } else {
            l
        }
    } else {
        t
    }
}

/// The number of leading whitespace characters.
pub open spec fn ws_prefix(s: Seq<char>) -> nat
    decreases s.len(),
{
    if s.len() > 0 && is_ws(s[0]) {
        1 + ws_prefix(s.drop_first())
    } else {
        0
    }
}

/// The number of leading non-whitespace characters.
pub open spec fn word_len(s: Seq<char>) -> nat
    decreases s.len(),
{
    if s.len() > 0 && !is_ws(s[0]) {
        1 + word_len(s.drop_first())
    } else {
        0
    }
}

/// The first whitespace-separated word and what follows it, as
/// `str::split_whitespace` yields them.
pub open spec fn next_word(s: Seq<char>) -> Option<(Seq<char>, Seq<char>)> {
    let t = s.subrange(ws_prefix(s) as int, s.len() as int);
    if t.len() == 0 {
        None
    } else {
        Some((t.subrange(0, word_len(t) as int), t.subrange(word_len(t) as int, t.len() as int)))
    }
}

proof fn lemma_ws_prefix(s: Seq<char>)
    ensures
        ws_prefix(s) <= s.len(),
        forall|i: int| 0 <= i < ws_prefix(s) ==> is_ws(s[i]),
        ws_prefix(s) < s.len() ==> !is_ws(s[ws_prefix(s) as int]),
    decreases s.len(),
{
    if s.len() > 0 && is_ws(s[0]) {
        lemma_ws_prefix(s.drop_first());
        assert forall|i: int| 0 <= i < ws_prefix(s) implies is_ws(s[i]) by {
            if i > 0 {
                assert(s[i] == s.drop_first()[i - 1]);
            }
        }
        if ws_prefix(s) < s.len() {
            assert(s[ws_prefix(s) as int] == s.drop_first()[ws_prefix(s.drop_first()) as int]);
        }
    }
}

proof fn lemma_word_len(s: Seq<char>)
    ensures
        word_len(s) <= s.len(),
        forall|i: int| 0 <= i < word_len(s) ==> !is_ws(s[i]),
        word_len(s) < s.len() ==> is_ws(s[word_len(s) as int]),
    decreases s.len(),
{
    if s.len() > 0 && !is_ws(s[0]) {
        lemma_word_len(s.drop_first());
        assert forall|i: int| 0 <= i < word_len(s) implies !is_ws(s[i]) by {
            if i > 0 {
                assert(s[i] == s.drop_first()[i - 1]);
            }
        }
        if word_len(s) < s.len() {
            assert(s[word_len(s) as int] == s.drop_first()[word_len(s.drop_first()) as int]);
        }
    }
}

/// Scans `cs[from..to]` for its first word: returns the word's bounds, or
/// `None` when only whitespace is left.
fn scan_word(cs: &Vec<char>, from: usize, to: usize) -> (r: Option<(usize, usize)>)
    requires
        from <= to <= cs@.len(),
    ensures
        match r {
            Some((a, b)) => from <= a < b <= to && next_word(cs@.subrange(from as int, to as int)) == Some(
                (cs@.subrange(a as int, b as int), cs@.subrange(b as int, to as int)),
            ),
            None => next_word(cs@.subrange(from as int, to as int)) is None,
        },
{
    let ghost s = cs@.subrange(from as int, to as int);
    proof {
        lemma_ws_prefix(s);
    }
    let mut a = from;
    while a < to && whitespace(cs[a])
        invariant
            from <= a <= to <= cs@.len(),
            s == cs@.subrange(from as int, to as int),
            a - from <= ws_prefix(s),
            ws_prefix(s) <= s.len(),
            forall|i: int| 0 <= i < ws_prefix(s) ==> is_ws(s[i]),
            ws_prefix(s) < s.len() ==> !is_ws(s[ws_prefix(s) as int]),
        decreases to - a,
    {
        assert(s[a - from] == cs@[a as int]);
        a += 1;
    }
    proof {
        if a < to {
            assert(s[a - from] == cs@[a as int]);
        }
        assert(a - from == ws_prefix(s));
    }
    let ghost t = s.subrange(ws_prefix(s) as int, s.len() as int);
    proof {
        assert(t =~= cs@.subrange(a as int, to as int));
    }
    if a == to {
        return None;
    }
    proof {
        lemma_word_len(t);
    }
    let mut b = a;
    while b < to && !whitespace(cs[b])
        invariant
            a <= b <= to <= cs@.len(),
            t == cs@.subrange(a as int, to as int),
            b - a <= word_len(t),
            word_len(t) <= t.len(),
            forall|i: int| 0 <= i < word_len(t) ==> !is_ws(t[i]),
            word_len(t) < t.len() ==> is_ws(t[word_len(t) as int]),
        decreases to - b,
    {
        assert(t[b - a] == cs@[b as int]);
        b += 1;
    }
    proof {
        if b < to {
            assert(t[b - a] == cs@[b as int]);
        }
        assert(b - a == word_len(t));
        assert(t[0] == cs@[a as int]);
        assert(t.subrange(0, word_len(t) as int) =~= cs@.subrange(a as int, b as int));
        assert(t.subrange(word_len(t) as int, t.len() as int) =~= cs@.subrange(b as int, to as int));
    }
    Some((a, b))
}

/// The largest callback request accepted, in bytes.
pub open spec fn max_request() -> int {
    8192
}

/// The lossy UTF-8 reader: the text of a byte string, with each invalid
/// sequence replaced.
pub uninterp spec fn utf8_lossy(bytes: Seq<u8>) -> Seq<char>;

/// Reads bytes as text with `String::from_utf8_lossy`. Claims that the text
/// is the reader's text for the bytes.
#[verifier::external_body]
pub(crate) fn text_of_bytes(bytes: &[u8]) -> (r: String)
    ensures
        r@ == utf8_lossy(bytes@),
{
    String::from_utf8_lossy(bytes).into_owned()
}

/// The target of a request's first line when it is a `GET` (an empty
/// target when the line has no second word); nothing for any other request.
pub open spec fn spec_request_target(text: Seq<char>) -> Option<Seq<char>> {
    match next_word(first_line(text)) {
        Some((w, rest)) => if w == "GET"@ {
            match next_word(rest) {
                Some((target, _)) => Some(target),
                None => Some(Seq::empty()),
            }
        } else {
            None
        },
        None => None,
    }
}

/// The outcome of one callback request: too large, not a `GET`, or the
/// result of its target.
pub open spec fn spec_request(bytes: Seq<u8>, state: Seq<char>) -> Result<Seq<char>, AppErrorV> {
    if bytes.len() > max_request() {
        Err(callback_error("回调请求超时或过大"@))
    } else {
        match spec_request_target(utf8_lossy(bytes)) {
            Some(target) => spec_callback(target, state),
            None => Err(callback_error("无效 HTTP 请求"@)),
        }
    }
}

fn sub_string(cs: &Vec<char>, a: usize, b: usize) -> (r: String)
    requires
        a <= b <= cs@.len(),
    ensures
        r@ == cs@.subrange(a as int, b as int),
{
    let mut v: Vec<char> = Vec::new();
    let mut i = a;
    while i < b
        invariant
            a <= i <= b <= cs@.len(),
            v@ == cs@.subrange(a as int, i as int),
        decreases b - i,
    {
        v.push(cs[i]);
        i += 1;
        assert(v@ =~= cs@.subrange(a as int, i as int));
    }
    string_of(v.as_slice())
}

/// The end of the first line of a text held as characters.
fn first_line_end(cs: &Vec<char>) -> (end: usize)
    ensures
        end <= cs@.len(),
        first_line(cs@) == cs@.subrange(0, end as int),
{
    let len = cs.len();
    let nl = find_in(cs, 0, len, '\n', '\n');
    proof {
        assert(cs@.subrange(0, len as int) =~= cs@);
    }
    let end = if nl < len && nl > 0 && cs[nl - 1] == '\r' {
        nl - 1
    } else {
        nl
    };
    proof {
        let line = first_line(cs@);
        if nl < len {
            let l = cs@.subrange(0, nl as int);
            if l.len() > 0 {
                assert(l.last() == cs@[nl - 1]);
            }
            assert(line =~= cs@.subrange(0, end as int));
        } else {
            assert(line =~= cs@.subrange(0, end as int));
        }
    }
    end
}

/// The target of a request line held in `cs[0..end]`, when it is a `GET`.
fn get_target(cs: &Vec<char>, end: usize) -> (r: Option<String>)
    requires
        end <= cs@.len(),
    ensures
        ({
            let line = cs@.subrange(0, end as int);
            match next_word(line) {
                Some((w, rest)) => if w == "GET"@ {
                    r matches Some(t) && t@ == match next_word(rest) {
                        Some((target, _)) => target,
                        None => Seq::empty(),
                    }
                } else {
                    r is None
                },
                None => r is None,
            }
        }),
{
    let (a, b) = match scan_word(cs, 0, end) {
        Some(w) => w,
        None => {
            return None;
        },
    };
    let word = sub_string(cs, a, b);
    if !str_eq(word.as_str(), "GET") {
        return None;
    }
    match scan_word(cs, b, end) {
        Some((c, d)) => Some(sub_string(cs, c, d)),
        None => {
            let e = String::new();
            Some(e)
        },
    }
}

/// The target of a request given as text, when its first line is a `GET`.
pub fn request_target(text: &str) -> (r: Option<String>)
    ensures
        opt_view(r) == spec_request_target(text@),
{
    let cs = chars_of(text);
    let end = first_line_end(&cs);
    get_target(&cs, end)
}

/// Handles the bytes of one callback request.
pub fn handle_request(bytes: &[u8], state: &str) -> (r: Result<String, AppError>)
    ensures
        text_result(r) == spec_request(bytes@, state@),
{
    if bytes.len() > 8192 {
        return Err(AppError::new("OAUTH_CALLBACK", "回调请求超时或过大"));
    }
    let text = text_of_bytes(bytes);
    match request_target(text.as_str()) {
        Some(target) => parse(target.as_str(), state),
        None => Err(AppError::new("OAUTH_CALLBACK", "无效 HTTP 请求")),
    }
}

/// Whether waiting for callbacks ends with this outcome: a code, or a
/// denial; any other failure waits for the next request.
pub open spec fn spec_finishes(r: Result<Seq<char>, AppErrorV>) -> bool {
    match r {
        Ok(_) => true,
        Err(e) => e.code == "OAUTH_DENIED"@,
    }
}

pub fn finishes(r: &Result<String, AppError>) -> (b: bool)
    ensures
        b == spec_finishes(text_result(*r)),
{
    match r {
        Ok(_) => true,
        Err(e) => str_eq(e.code.as_str(), "OAUTH_DENIED"),
    }
}

/// Whether a callback request has been read far enough: the end of its
/// header, or more bytes than accepted.
pub open spec fn spec_request_complete(bytes: Seq<u8>) -> bool {
    bytes.len() > max_request() || exists|i: int|
        0 <= i && i + 4 <= bytes.len() && #[trigger] bytes[i] == 13u8 && bytes[i + 1] == 10u8 && bytes[i + 2] == 13u8
            && bytes[i + 3] == 10u8
}

pub fn request_complete(bytes: &[u8]) -> (r: bool)
    ensures
        r == spec_request_complete(bytes@),
{
    if bytes.len() > 8192 {
        return true;
    }
    let mut i: usize = 0;
    while i < bytes.len() && bytes.len() - i >= 4
        invariant
            bytes@.len() <= 8192,
            i <= bytes@.len(),
            forall|k: int|
                0 <= k < i && k + 4 <= bytes@.len() ==> !(#[trigger] bytes@[k] == 13u8 && bytes@[k + 1] == 10u8
                    && bytes@[k + 2] == 13u8 && bytes@[k + 3] == 10u8),
        decreases bytes.len() - i,
    {
        if bytes[i] == 13 && bytes[i + 1] == 10 && bytes[i + 2] == 13 && bytes[i + 3] == 10 {
            return true;
        }
        i += 1;
    }
    false
}

/// The status line of the answer to a callback request.
pub fn response_status(succeeded: bool) -> (r: &'static str)
    ensures
        r@ == if succeeded {
            "200 OK"@
        } else {
            "400 Bad Request"@
        },
{
    if succeeded {
        "200 OK"
    } else {
        "400 Bad Request"
    }
}

/// SHA-256 of the UTF-8 encoding of a text.
pub uninterp spec fn sha256_text(text: Seq<char>) -> Seq<u8>;

/// Hashes a text with `sha2::Sha256::digest` over its UTF-8 bytes. Claims
/// that the result is the digest of the text, 32 bytes long.
#[verifier::external_body]
pub(crate) fn sha256(text: &str) -> (r: Vec<u8>)
    ensures
        r@ == sha256_text(text@),
        r@.len() == 32,
{
    <sha2::Sha256 as sha2::Digest>::digest(text.as_bytes()).to_vec()
}

/// The unpadded URL-safe base64 encoder.
pub uninterp spec fn base64url_encode(bytes: Seq<u8>) -> Seq<char>;

/// Encodes bytes with `URL_SAFE_NO_PAD.encode`. Claims that the text is the
/// encoder's text for the bytes.
#[verifier::external_body]
pub(crate) fn base64url(bytes: &[u8]) -> (r: String)
    ensures
        r@ == base64url_encode(bytes@),
{
    base64::Engine::encode(&base64::engine::general_purpose::URL_SAFE_NO_PAD, bytes)
}

/// `n` bytes from the operating system's random source, by
/// `rand::RngCore::try_fill_bytes` on `rand::rngs::OsRng`; nothing when that
/// source fails. Only the number of bytes is claimed.
#[verifier::external_body]
pub(crate) fn random_bytes(n: usize) -> (r: Option<Vec<u8>>)
    requires
        n <= 1024,
    ensures
        match r {
            Some(b) => b@.len() == n,
            None => true,
        },
{
    let mut b = vec![0u8; n];
    rand::RngCore::try_fill_bytes(&mut rand::rngs::OsRng, &mut b).ok().map(|_| b)
}

/// A fresh random value for the PKCE verifier and the OAuth state: 256
/// random bits in unpadded URL-safe base64; the random source's error when
/// the operating system cannot supply them.
pub fn random() -> (r: Result<String, AppError>)
    ensures
        match r {
            Ok(s) => exists|b: Seq<u8>| b.len() == 32 && s@ == #[trigger] base64url_encode(b),
            Err(e) => e@ == random_error(),
        },
{
    match random_bytes(32) {
        Some(b) => Ok(base64url(b.as_slice())),
        None => Err(random_unavailable()),
    }
}

/// The PKCE S256 challenge of a verifier.
pub fn pkce_challenge(verifier: &str) -> (r: String)
    ensures
        r@ == base64url_encode(sha256_text(verifier@)),
{
    let digest = sha256(verifier);
    base64url(digest.as_slice())
}

/// The URL writer: a base URL with query pairs appended, form-encoded.
pub uninterp spec fn url_with_query(base: Seq<char>, pairs: Seq<(Seq<char>, Seq<char>)>) -> Option<Seq<char>>;

/// Appends query pairs to a URL with `url::Url::parse` and
/// `query_pairs_mut().extend_pairs`. Claims that the text is the writer's
/// text, nothing when the base is not a URL.
#[verifier::external_body]
pub(crate) fn append_query(base: &str, pairs: &Vec<(String, String)>) -> (r: Option<String>)
    ensures
        match r {
            Some(u) => url_with_query(base@, pairs_view(pairs@)) == Some(u@),
            None => url_with_query(base@, pairs_view(pairs@)) is None,
        },
{
    url::Url::parse(base).ok().map(|mut u| {
        u.query_pairs_mut().extend_pairs(pairs.iter().map(|(k, v)| (k.as_str(), v.as_str())));
        u.to_string()
    })
}

/// The query of the authorization request.
pub open spec fn authorize_pairs(challenge: Seq<char>, state: Seq<char>) -> Seq<(Seq<char>, Seq<char>)> {
    seq![
        ("response_type"@, "code"@),
        ("client_id"@, CLIENT_ID@),
        ("redirect_uri"@, REDIRECT_URI@),
        ("scope"@, "openid profile email offline_access"@),
        ("code_challenge"@, challenge),
        ("code_challenge_method"@, "S256"@),
        ("state"@, state),
        ("id_token_add_organizations"@, "true"@),
        ("codex_cli_simplified_flow"@, "true"@),
        ("originator"@, "codex_cli_rs"@),
        ("prompt"@, "login"@),
    ]
}

pub open spec fn config_error() -> AppErrorV {
    app_error("OAUTH_CONFIG"@, "OAuth URL 无效"@)
}

fn push_pair(v: &mut Vec<(String, String)>, k: &str, val: &str)
    ensures
        final(v)@.len() == old(v)@.len() + 1,
        pairs_view(final(v)@) == pairs_view(old(v)@).push((k@, val@)),
{
    v.push((owned(k), owned(val)));
    assert(pairs_view(v@) =~= pairs_view(old(v)@).push((k@, val@)));
}

/// The URL that starts the authorization in the browser.
pub fn authorize_url(challenge: &str, state: &str) -> (r: Result<String, AppError>)
    ensures
        text_result(r) == match url_with_query(AUTHORIZE_URL@, authorize_pairs(challenge@, state@)) {
            Some(u) => Ok(u),
            None => Err(config_error()),
        },
{
    let mut q: Vec<(String, String)> = Vec::new();
    push_pair(&mut q, "response_type", "code");
    push_pair(&mut q, "client_id", CLIENT_ID);
    push_pair(&mut q, "redirect_uri", REDIRECT_URI);
    push_pair(&mut q, "scope", "openid profile email offline_access");
    push_pair(&mut q, "code_challenge", challenge);
    push_pair(&mut q, "code_challenge_method", "S256");
    push_pair(&mut q, "state", state);
    push_pair(&mut q, "id_token_add_organizations", "true");
    push_pair(&mut q, "codex_cli_simplified_flow", "true");
    push_pair(&mut q, "originator", "codex_cli_rs");
    push_pair(&mut q, "prompt", "login");
    assert(pairs_view(q@) =~= authorize_pairs(challenge@, state@));
    match append_query(AUTHORIZE_URL, &q) {
        Some(u) => Ok(u),
        None => Err(AppError::new("OAUTH_CONFIG", "OAuth URL 无效")),
    }
}

} // verus!
