//! `vise login`: obtain an API token from a vise cloud server via a browser
//! handoff, and store it in `~/.vise/.env` as `VISE_API_TOKEN` (alongside
//! `VISE_URL` for the server it came from) — after which the existing URL and
//! bearer plumbing in every other command just works.
//!
//! The flow mirrors the classic loopback OAuth dance, minus OAuth:
//!
//! 1. Check that `<server>/platform/cli/authorize` exists at all, so a
//!    self-hosted (OSS) server fails fast instead of opening a 404 page.
//! 2. Bind an ephemeral listener on 127.0.0.1 and generate a `state` nonce.
//! 3. Open the browser at `<server>/platform/cli/authorize?port=…&state=…`;
//!    the dashboard asks the signed-in user to confirm.
//! 4. On confirm the server redirects the browser to
//!    `http://127.0.0.1:<port>/callback?code=…&state=…`; the listener
//!    answers requests until that one arrives, checks the state, and keeps
//!    the one-time code.
//! 5. `POST <server>/platform/cli/exchange {code}` returns the `vk_` secret
//!    exactly once; it is written to `~/.vise/.env`.
//!
//! `--paste` (or a machine where no browser opens) falls back to creating a
//! key by hand in the dashboard and pasting it.

use vstd::prelude::*;
use vstd::string::*;
use vstd::utf8::*;

use crate::decimal::{decimal, to_decimal};
use crate::host::{
    assignment, env_of, join_path, parse_env, path_joined, read_assignment, token_choice, unquoted,
    url_choice, EnvVars, Paths,
};
use crate::text::{
    after_prefix, all_white, chars_of, cutting_at_the_first, fields, find_char, first_index,
    has_prefix, is_white, lemma_concat_assoc, lemma_concat_empty, lemma_fields_first,
    lemma_fields_one, lemma_first_index, lemma_first_index_is, lemma_lines_hold,
    lemma_lines_of_terminated, lemma_lines_single, lemma_split_pair, lemma_trimmed_is_part,
    lemma_trimmed_without_cr, lemma_without_trailing, lemma_word_len, lines_of, lowered,
    prefixes_come_off, push_chars, read_utf8, same_chars, same_text, single_lines, slice_views,
    split_lines, split_on, split_once, split_pair, split_word, starts, strip_prefix, strip_trailing,
    terminated, text_of, to_lower, trim, trim_start, trimmed, trimmed_start,
    trimming_finds_the_text, utf8_text, without_cr, without_trailing, word_len,
};

verus! {

/// How long the listener waits for the browser round-trip, in seconds. Matches
/// the server-side five-minute code expiry.
pub const CALLBACK_TIMEOUT_SECS: u64 = 300;

/// Bound on each direct HTTP call to the server (preflight and exchange), in
/// seconds, so an unreachable host fails with a message instead of hanging.
pub const HTTP_TIMEOUT_SECS: u64 = 30;

/// How long one loopback connection may take to send its request line, in
/// seconds. Browsers open speculative connections they never write to; without
/// this bound one of those, accepted first, would stall the login until the
/// whole wait times out.
pub const REQUEST_TIMEOUT_SECS: u64 = 5;

// --- percent coding -----------------------------------------------------------

/// A byte that stands for itself in a query value.
pub open spec fn is_unreserved(b: u8) -> bool {
    ||| 0x41 <= b <= 0x5a
    ||| 0x61 <= b <= 0x7a
    ||| 0x30 <= b <= 0x39
    ||| b == 0x2d
    ||| b == 0x5f
    ||| b == 0x2e
    ||| b == 0x7e
}

/// The hexadecimal digit, in upper case, that stands for `n`.
pub open spec fn hex_char(n: u8) -> char {
    if n < 10 {
        ((48 + n) as u8) as char
    } else {
        ((55 + n) as u8) as char
    }
}

/// One byte of a query value as it is written.
pub open spec fn escaped_byte(b: u8) -> Seq<char> {
    if is_unreserved(b) {
        seq![b as char]
    } else {
        seq!['%', hex_char(b / 16), hex_char(b % 16)]
    }
}

/// The bytes of a query value as they are written.
pub open spec fn escaped_bytes(bytes: Seq<u8>) -> Seq<char>
    decreases bytes.len(),
{
    if bytes.len() == 0 {
        Seq::empty()
    } else {
        escaped_byte(bytes[0]) + escaped_bytes(bytes.skip(1))
    }
}

/// A query value as it is written.
pub open spec fn escaped(value: Seq<char>) -> Seq<char> {
    escaped_bytes(encode_utf8(value))
}

fn hex_digit(n: u8) -> (r: char)
    requires
        n < 16,
    ensures
        r == hex_char(n),
{
    if n < 10 {
        (48 + n) as char
    } else {
        (55 + n) as char
    }
}

fn unreserved(b: u8) -> (r: bool)
    ensures
        r == is_unreserved(b),
{
    (0x41 <= b && b <= 0x5a) || (0x61 <= b && b <= 0x7a) || (0x30 <= b && b <= 0x39) || b == 0x2d
        || b == 0x5f || b == 0x2e || b == 0x7e
}

/// Minimal percent-encoding for query values: everything but unreserved
/// characters is escaped.
pub fn percent_encode(value: &str) -> (encoded: String)
    ensures
        encoded@ == escaped(value@),
{
    let bytes: &[u8] = value.as_bytes();
    let mut encoded = String::new();
    let mut i: usize = 0;
    proof {
        assert(bytes@.skip(0) =~= bytes@);
        assert(encoded@ + escaped_bytes(bytes@.skip(0)) =~= escaped_bytes(bytes@));
    }
    while i < bytes.len()
        invariant
            i <= bytes@.len(),
            encoded@ + escaped_bytes(bytes@.skip(i as int)) == escaped_bytes(bytes@),
        decreases bytes@.len() - i,
    {
        let b: u8 = bytes[i];
        let ghost before = encoded@;
        let ghost rest = bytes@.skip(i as int);
        if unreserved(b) {
            encoded.push(b as char);
        } else {
            encoded.push('%');
            encoded.push(hex_digit(b / 16));
            encoded.push(hex_digit(b % 16));
        }
        proof {
            assert(rest.skip(1) =~= bytes@.skip(i + 1));
            assert(encoded@ =~= before + escaped_byte(b));
            lemma_concat_assoc(before, escaped_byte(b), escaped_bytes(rest.skip(1)));
        }
        i += 1;
    }
    proof {
        assert(bytes@.skip(i as int) =~= Seq::<u8>::empty());
        lemma_concat_empty(encoded@);
    }
    encoded
}

/// The number that a hexadecimal digit stands for.
pub open spec fn hex_value(b: u8) -> Option<u8> {
    if 0x30 <= b <= 0x39 {
        Some((b - 0x30) as u8)
    } else if 0x41 <= b <= 0x46 {
        Some((b - 0x37) as u8)
    } else if 0x61 <= b <= 0x66 {
        Some((b - 0x57) as u8)
    } else {
        None
    }
}

/// The bytes that a written query value stands for: `%XX` is the byte `XX`,
/// `+` is a blank, and every other byte, a `%` without two hexadecimal digits
/// among them, is itself.
pub open spec fn unescaped_bytes(bytes: Seq<u8>) -> Seq<u8>
    decreases bytes.len(),
{
    if bytes.len() == 0 {
        Seq::empty()
    } else if bytes[0] == 0x25 && bytes.len() > 2 && hex_value(bytes[1]) is Some && hex_value(
        bytes[2],
    ) is Some {
        seq![(16 * hex_value(bytes[1])->0 + hex_value(bytes[2])->0) as u8] + unescaped_bytes(
            bytes.skip(3),
        )
    } else if bytes[0] == 0x2b {
        seq![0x20u8] + unescaped_bytes(bytes.skip(1))
    } else {
        seq![bytes[0]] + unescaped_bytes(bytes.skip(1))
    }
}

/// What a written query value stands for; bytes that are not UTF-8 are
/// replaced.
pub open spec fn unescaped(value: Seq<char>) -> Seq<char> {
    utf8_text(unescaped_bytes(encode_utf8(value)))
}

fn hex_digit_value(b: u8) -> (r: Option<u8>)
    ensures
        r == hex_value(b),
        r matches Some(n) ==> n < 16,
{
    if 0x30 <= b && b <= 0x39 {
        Some(b - 0x30)
    } else if 0x41 <= b && b <= 0x46 {
        Some(b - 0x37)
    } else if 0x61 <= b && b <= 0x66 {
        Some(b - 0x57)
    } else {
        None
    }
}

/// Decode `%XX` escapes and `+` (form-encoded spaces) in a query value.
/// Works byte-by-byte: the input arrives on the loopback listener, so nothing
/// here may assume UTF-8 char boundaries.
pub fn percent_decode(value: &str) -> (r: String)
    ensures
        r@ == unescaped(value@),
{
    let bytes: &[u8] = value.as_bytes();
    let mut decoded: Vec<u8> = Vec::new();
    let mut i: usize = 0;
    proof {
        assert(bytes@.skip(0) =~= bytes@);
        assert(decoded@ + unescaped_bytes(bytes@) =~= unescaped_bytes(bytes@));
    }
    while i < bytes.len()
        invariant
            i <= bytes@.len(),
            decoded@ + unescaped_bytes(bytes@.skip(i as int)) == unescaped_bytes(bytes@),
        decreases bytes@.len() - i,
    {
        let ghost before = decoded@;
        let ghost rest = bytes@.skip(i as int);
        let b: u8 = bytes[i];
        let pair: Option<(u8, u8)> = if b == 0x25 && bytes.len() - i > 2 {
            match (hex_digit_value(bytes[i + 1]), hex_digit_value(bytes[i + 2])) {
                (Some(high), Some(low)) => Some((high, low)),
                _ => None,
            }
        } else {
            None
        };
        match pair {
            Some((high, low)) => {
                decoded.push(16 * high + low);
                proof {
                    assert(rest.skip(3) =~= bytes@.skip(i + 3));
                    assert(rest[1] == bytes@[i + 1] && rest[2] == bytes@[i + 2]);
                    assert(decoded@ + unescaped_bytes(rest.skip(3)) =~= before + (seq![
                        (16 * high + low) as u8,
                    ] + unescaped_bytes(rest.skip(3))));
                }
                i += 3;
            },
            None => {
                let out: u8 = if b == 0x2b {
                    0x20
                } else {
                    b
                };
                decoded.push(out);
                proof {
                    assert(rest.skip(1) =~= bytes@.skip(i + 1));
                    if rest.len() > 2 {
                        assert(rest[1] == bytes@[i + 1] && rest[2] == bytes@[i + 2]);
                    }
                    assert(decoded@ + unescaped_bytes(rest.skip(1)) =~= before + (seq![out]
                        + unescaped_bytes(rest.skip(1))));
                }
                i += 1;
            },
        }
    }
    proof {
        assert(bytes@.skip(i as int) =~= Seq::<u8>::empty());
        assert(decoded@ + Seq::<u8>::empty() =~= decoded@);
    }
    read_utf8(&decoded)
}

/// The characters a query value is written with: unreserved ones and `%`.
pub open spec fn is_escape_char(c: char) -> bool {
    '\0' <= c <= '\u{7f}' && (c == '%' || is_unreserved(c as u8))
}

proof fn lemma_escaped_chars(bytes: Seq<u8>)
    ensures
        forall|i: int|
            0 <= i < escaped_bytes(bytes).len() ==> is_escape_char(
                #[trigger] escaped_bytes(bytes)[i],
            ),
    decreases bytes.len(),
{
    if bytes.len() > 0 {
        let head = escaped_byte(bytes[0]);
        lemma_escaped_chars(bytes.skip(1));
        let rest = escaped_bytes(bytes.skip(1));
        assert forall|i: int| 0 <= i < escaped_bytes(bytes).len() implies is_escape_char(
            #[trigger] escaped_bytes(bytes)[i],
        ) by {
            if i < head.len() {
                assert(escaped_bytes(bytes)[i] == head[i]);
            } else {
                assert(escaped_bytes(bytes)[i] == rest[i - head.len()]);
            }
        }
    }
}

/// The bytes of ASCII text.
spec fn ascii_bytes(s: Seq<char>) -> Seq<u8> {
    s.map_values(|c: char| c as u8)
}

proof fn lemma_unescape_escaped(bytes: Seq<u8>)
    ensures
        unescaped_bytes(ascii_bytes(escaped_bytes(bytes))) =~= bytes,
    decreases bytes.len(),
{
    let written = ascii_bytes(escaped_bytes(bytes));
    if bytes.len() > 0 {
        let b = bytes[0];
        let head = escaped_byte(b);
        let rest = escaped_bytes(bytes.skip(1));
        lemma_unescape_escaped(bytes.skip(1));
        assert(written.skip(head.len() as int) =~= ascii_bytes(rest));
        assert(written[0] == head[0] as u8);
        if !is_unreserved(b) {
            assert(written[1] == head[1] as u8);
            assert(written[2] == head[2] as u8);
            assert(b / 16 < 16 && b % 16 < 16 && 16 * (b / 16) + b % 16 == b);
        }
        assert(bytes =~= seq![b] + bytes.skip(1));
    }
}

/// Decoding an encoded query value gives the value back, whatever it is.
pub proof fn percent_coding_round_trip(value: Seq<char>)
    ensures
        unescaped(escaped(value)) == value,
{
    let bytes = encode_utf8(value);
    lemma_escaped_chars(bytes);
    let written = escaped_bytes(bytes);
    assert(is_ascii_chars(written)) by {
        assert forall|i: int| 0 <= i < written.len() implies '\0' <= #[trigger] written[i]
            <= '\u{7f}' by {
            assert(is_escape_char(written[i]));
        }
    }
    is_ascii_chars_encode_utf8(written);
    assert(encode_utf8(written) =~= ascii_bytes(written));
    lemma_unescape_escaped(bytes);
    encode_utf8_valid_utf8(value);
    encode_utf8_decode_utf8(value);
}

// --- the callback -----------------------------------------------------------

/// What one loopback request turned out to be.
#[derive(Debug, PartialEq, Eq)]
pub enum Callback {
    /// `/callback` with the expected state and a one-time code: done.
    Code(String),
    /// `/callback` with the expected state but no code: the handoff itself
    /// is broken, so waiting for another request cannot help.
    Broken,
    /// Anything else — wrong path, wrong or missing state. Not our redirect.
    Stray,
}

/// A callback as a mathematical value.
pub enum CallbackView {
    Code(Seq<char>),
    Broken,
    Stray,
}

impl View for Callback {
    type V = CallbackView;

    open spec fn view(&self) -> CallbackView {
        match self {
            Callback::Code(code) => CallbackView::Code(code@),
            Callback::Broken => CallbackView::Broken,
            Callback::Stray => CallbackView::Stray,
        }
    }
}

/// The second word of a line, when it has one.
pub open spec fn second_word(line: Seq<char>) -> Option<Seq<char>> {
    let first = trimmed_start(line);
    let rest = trimmed_start(first.skip(word_len(first)));
    if rest.len() > 0 {
        Some(rest.take(word_len(rest)))
    } else {
        None
    }
}

/// The value of the last query parameter called `name`.
pub open spec fn parameter(pairs: Seq<Seq<char>>, name: Seq<char>) -> Option<Seq<char>>
    decreases pairs.len(),
{
    if pairs.len() == 0 {
        None
    } else {
        match split_pair(pairs.last(), '=') {
            Some((key, value)) => if key == name {
                Some(unescaped(value))
            } else {
                parameter(pairs.drop_last(), name)
            },
            None => parameter(pairs.drop_last(), name),
        }
    }
}

/// The path and the query of a request's target.
pub open spec fn path_and_query(target: Seq<char>) -> (Seq<char>, Seq<char>) {
    match split_pair(target, '?') {
        Some((path, query)) => (path, query),
        None => (target, Seq::empty()),
    }
}

/// What the query parameters of a callback come to.
pub open spec fn callback_for(
    code: Option<Seq<char>>,
    state: Option<Seq<char>>,
    expected_state: Seq<char>,
) -> CallbackView {
    if state != Some(expected_state) {
        CallbackView::Stray
    } else {
        match code {
            Some(c) => if c.len() > 0 {
                CallbackView::Code(c)
            } else {
                CallbackView::Broken
            },
            None => CallbackView::Broken,
        }
    }
}

/// What a request line turns out to be.
pub open spec fn classified(line: Seq<char>, expected_state: Seq<char>) -> CallbackView {
    match second_word(line) {
        Some(target) => {
            let (path, query) = path_and_query(target);
            if path == "/callback"@ {
                let pairs = fields(query, '&');
                callback_for(
                    parameter(pairs, "code"@),
                    parameter(pairs, "state"@),
                    expected_state,
                )
            } else {
                CallbackView::Stray
            }
        },
        None => CallbackView::Stray,
    }
}

fn find_second_word<'a>(line: &'a [char]) -> (r: Option<&'a [char]>)
    ensures
        match r {
            Some(w) => second_word(line@) == Some(w@),
            None => second_word(line@) is None,
        },
{
    let (_, rest) = split_word(trim_start(line));
    let rest: &'a [char] = trim_start(rest);
    if rest.len() > 0 {
        Some(split_word(rest).0)
    } else {
        None
    }
}

fn find_parameter(pairs: &Vec<&[char]>, name: &str) -> (r: Option<String>)
    ensures
        match r {
            Some(v) => parameter(slice_views(pairs@), name@) == Some(v@),
            None => parameter(slice_views(pairs@), name@) is None,
        },
{
    let wanted: Vec<char> = chars_of(name);
    let ghost views = slice_views(pairs@);
    let mut i: usize = pairs.len();
    assert(views.take(i as int) =~= views);
    while i > 0
        invariant
            i <= pairs@.len(),
            wanted@ == name@,
            views == slice_views(pairs@),
            parameter(views.take(i as int), name@) == parameter(views, name@),
        decreases i,
    {
        proof {
            assert(views.take(i as int).drop_last() =~= views.take(i - 1));
            assert(views.take(i as int).last() == pairs@[i - 1]@);
        }
        match split_once(pairs[i - 1], '=') {
            Some((key, value)) => {
                if same_chars(key, &wanted) {
                    return Some(percent_decode(text_of(value).as_str()));
                }
            },
            None => {},
        }
        i -= 1;
    }
    assert(views.take(0) =~= Seq::empty());
    None
}

/// Classify `GET /callback?code=…&state=… HTTP/1.1`, insisting the state
/// matches the one this process generated.
pub fn parse_callback(request_line: &str, expected_state: &str) -> (r: Callback)
    ensures
        r@ == classified(request_line@, expected_state@),
{
    let line: Vec<char> = chars_of(request_line);
    let target: &[char] = match find_second_word(&line) {
        Some(target) => target,
        None => return Callback::Stray,
    };
    let empty: Vec<char> = Vec::new();
    let (path, query): (&[char], &[char]) = match split_once(target, '?') {
        Some((path, query)) => (path, query),
        None => (target, &empty),
    };
    proof {
        assert(empty@ =~= Seq::<char>::empty());
    }
    if !same_chars(path, &chars_of("/callback")) {
        return Callback::Stray;
    }
    let pairs: Vec<&[char]> = split_on(query, '&');
    let code: Option<String> = find_parameter(&pairs, "code");
    let state: Option<String> = find_parameter(&pairs, "state");
    match state {
        Some(state) => {
            if !same_text(state.as_str(), expected_state) {
                return Callback::Stray;
            }
        },
        None => return Callback::Stray,
    }
    match code {
        Some(code) => if code.as_str().is_empty() {
            Callback::Broken
        } else {
            Callback::Code(code)
        },
        None => Callback::Broken,
    }
}

/// A request is taken for the browser's redirect only when its target is
/// `/callback` with the expected state: otherwise it is stray, whatever code
/// it carries.
pub proof fn wrong_state_is_stray(line: Seq<char>, expected_state: Seq<char>)
    ensures
        classified(line, expected_state) !is Stray ==> {
            &&& second_word(line) is Some
            &&& path_and_query(second_word(line)->0).0 == "/callback"@
            &&& parameter(fields(path_and_query(second_word(line)->0).1, '&'), "state"@) == Some(
                expected_state,
            )
        },
{
}

/// The target that the server sends the browser back to.
pub open spec fn callback_target(code: Seq<char>, state: Seq<char>) -> Seq<char> {
    "/callback"@ + seq!['?'] + ("code"@ + seq!['='] + escaped(code) + seq!['&'] + ("state"@ + seq![
        '=',
    ] + escaped(state)))
}

proof fn lemma_not_escaped(value: Seq<char>, c: char)
    requires
        !is_escape_char(c),
    ensures
        !escaped(value).contains(c),
{
    lemma_escaped_chars(encode_utf8(value));
    if escaped(value).contains(c) {
        let i = choose|i: int| 0 <= i < escaped(value).len() && escaped(value)[i] == c;
        assert(is_escape_char(escaped(value)[i]));
    }
}

proof fn lemma_no_white(a: Seq<char>, b: Seq<char>)
    requires
        forall|i: int| 0 <= i < a.len() ==> !is_white(#[trigger] a[i]),
        forall|i: int| 0 <= i < b.len() ==> !is_white(#[trigger] b[i]),
    ensures
        forall|i: int| 0 <= i < (a + b).len() ==> !is_white(#[trigger] (a + b)[i]),
{
    assert forall|i: int| 0 <= i < (a + b).len() implies !is_white(#[trigger] (a + b)[i]) by {
        if i < a.len() {
            assert((a + b)[i] == a[i]);
        } else {
            assert((a + b)[i] == b[i - a.len()]);
        }
    }
}

proof fn lemma_escaped_no_white(value: Seq<char>)
    ensures
        forall|i: int| 0 <= i < escaped(value).len() ==> !is_white(#[trigger] escaped(value)[i]),
{
    lemma_escaped_chars(encode_utf8(value));
    assert forall|i: int| 0 <= i < escaped(value).len() implies !is_white(
        #[trigger] escaped(value)[i],
    ) by {
        assert(is_escape_char(escaped(value)[i]));
    }
}

proof fn lemma_target_no_white(code: Seq<char>, state: Seq<char>)
    ensures
        forall|i: int|
            0 <= i < callback_target(code, state).len() ==> !is_white(
                #[trigger] callback_target(code, state)[i],
            ),
{
    reveal_strlit("/callback");
    reveal_strlit("code");
    reveal_strlit("state");
    lemma_escaped_no_white(code);
    lemma_escaped_no_white(state);
    let state_part = "state"@ + seq!['='] + escaped(state);
    lemma_no_white("state"@, seq!['=']);
    lemma_no_white("state"@ + seq!['='], escaped(state));
    lemma_no_white("code"@, seq!['=']);
    lemma_no_white("code"@ + seq!['='], escaped(code));
    lemma_no_white("code"@ + seq!['='] + escaped(code), seq!['&']);
    lemma_no_white("code"@ + seq!['='] + escaped(code) + seq!['&'], state_part);
    lemma_no_white("/callback"@, seq!['?']);
    lemma_no_white(
        "/callback"@ + seq!['?'],
        "code"@ + seq!['='] + escaped(code) + seq!['&'] + state_part,
    );
}

proof fn lemma_second_word(a: Seq<char>, b: Seq<char>, rest: Seq<char>)
    requires
        a.len() > 0,
        b.len() > 0,
        forall|i: int| 0 <= i < a.len() ==> !is_white(#[trigger] a[i]),
        forall|i: int| 0 <= i < b.len() ==> !is_white(#[trigger] b[i]),
    ensures
        second_word(a + seq![' '] + b + seq![' '] + rest) == Some(b),
{
    let line = a + seq![' '] + b + seq![' '] + rest;
    assert(line[0] == a[0]);
    assert(!is_white(a[0]));
    assert(trimmed_start(line) == line);
    assert forall|i: int| 0 <= i < a.len() implies !is_white(#[trigger] line[i]) by {
        assert(line[i] == a[i]);
    }
    lemma_word_len(line, a.len() as int);
    let after = line.skip(a.len() as int);
    let tail = b + seq![' '] + rest;
    assert(after[0] == ' ');
    assert(after.skip(1) =~= tail);
    assert(tail[0] == b[0]);
    assert(!is_white(b[0]));
    assert(trimmed_start(tail) == tail);
    assert(trimmed_start(after) == tail);
    assert forall|i: int| 0 <= i < b.len() implies !is_white(#[trigger] tail[i]) by {
        assert(tail[i] == b[i]);
    }
    lemma_word_len(tail, b.len() as int);
    assert(tail.take(b.len() as int) =~= b);
}

proof fn lemma_split_parameter(name: Seq<char>, value: Seq<char>)
    requires
        !name.contains('='),
    ensures
        split_pair(name + seq!['='] + escaped(value), '=') == Some((name, escaped(value))),
        unescaped(escaped(value)) == value,
{
    lemma_split_pair(name, '=', escaped(value));
    percent_coding_round_trip(value);
}

/// What a redirect with any code and state comes to is decided by the two.
#[verifier::spinoff_prover]
#[verifier::rlimit(40)]
proof fn lemma_redirect(
    method: Seq<char>,
    code: Seq<char>,
    state: Seq<char>,
    version: Seq<char>,
    expected: Seq<char>,
)
    requires
        method.len() > 0,
        forall|i: int| 0 <= i < method.len() ==> !is_white(#[trigger] method[i]),
    ensures
        classified(
            method + seq![' '] + callback_target(code, state) + seq![' '] + version,
            expected,
        ) == callback_for(Some(code), Some(state), expected),
{
    reveal_strlit("/callback");
    reveal_strlit("code");
    reveal_strlit("state");
    let target = callback_target(code, state);
    lemma_target_no_white(code, state);
    lemma_second_word(method, target, version);

    let code_part = "code"@ + seq!['='] + escaped(code);
    let state_part = "state"@ + seq!['='] + escaped(state);
    let query = code_part + seq!['&'] + state_part;
    assert(!"/callback"@.contains('?'));
    lemma_split_pair("/callback"@, '?', query);

    lemma_not_escaped(code, '&');
    lemma_not_escaped(state, '&');
    assert(!code_part.contains('&')) by {
        if code_part.contains('&') {
            let i = choose|i: int| 0 <= i < code_part.len() && code_part[i] == '&';
            if i >= 5 {
                assert(escaped(code)[i - 5] == '&');
            }
        }
    }
    assert(!state_part.contains('&')) by {
        if state_part.contains('&') {
            let i = choose|i: int| 0 <= i < state_part.len() && state_part[i] == '&';
            if i >= 6 {
                assert(escaped(state)[i - 6] == '&');
            }
        }
    }
    lemma_fields_first(code_part, '&', state_part);
    lemma_fields_one(state_part, '&');
    let pairs = fields(query, '&');
    assert(pairs =~= seq![code_part, state_part]);

    assert(!"code"@.contains('='));
    assert(!"state"@.contains('='));
    lemma_split_parameter("code"@, code);
    lemma_split_parameter("state"@, state);
    assert("code"@.len() != "state"@.len());
    assert(pairs.drop_last() =~= seq![code_part]);
    assert(pairs.drop_last().last() == code_part);
    assert(parameter(pairs, "state"@) == Some(state));
    assert(parameter(pairs.drop_last(), "code"@) == Some(code));
    assert(parameter(pairs, "code"@) == Some(code));
}

/// The browser's redirect delivers the code: a request for `/callback` with
/// any code that is not empty and the expected state, both percent-encoded, is
/// taken for exactly that code.
pub proof fn callback_delivers_the_code(
    method: Seq<char>,
    code: Seq<char>,
    state: Seq<char>,
    version: Seq<char>,
)
    requires
        method.len() > 0,
        forall|i: int| 0 <= i < method.len() ==> !is_white(#[trigger] method[i]),
        code.len() > 0,
    ensures
        classified(
            method + seq![' '] + callback_target(code, state) + seq![' '] + version,
            state,
        ) == CallbackView::Code(code),
{
    lemma_redirect(method, code, state, version, state);
}

// --- the token -----------------------------------------------------------

/// A visible ASCII character.
pub open spec fn is_graphic(c: char) -> bool {
    '!' <= c <= '~'
}

/// Why a text is no usable API key.
#[derive(Debug, Clone, Copy, PartialEq, Eq, Structural)]
pub enum TokenError {
    /// It does not begin like one.
    NotAKey,
    /// It could not be stored on a line of `.env`.
    Unstorable,
}

impl TokenError {
    /// What is said about it.
    pub fn message(&self) -> (r: &'static str)
        ensures
            r@ == match *self {
                TokenError::NotAKey =>
                    "that does not look like a vise API key (expected vk_...)"@,
                TokenError::Unstorable =>
                    "the API key contains characters that cannot be stored in .env"@,
            },
    {
        match self {
            TokenError::NotAKey => "that does not look like a vise API key (expected vk_...)",
            TokenError::Unstorable =>
                "the API key contains characters that cannot be stored in .env",
        }
    }
}

/// The key in a text, or why there is none.
pub open spec fn token_in(raw: Seq<char>) -> Result<Seq<char>, TokenError> {
    let token = trimmed(raw);
    if !starts(token, "vk_"@) {
        Err(TokenError::NotAKey)
    } else if (exists|i: int| 0 <= i < token.len() && !is_graphic(#[trigger] token[i]))
        || token.last() == '"' || token.last() == '\'' {
        Err(TokenError::Unstorable)
    } else {
        Ok(token)
    }
}

/// Accept a `vk_` key and reject anything that is not one, or that could not
/// be stored on a single `.env` line: whitespace or control characters
/// inside it, or quotes around it that `parse_env` would strip. Applies to
/// a pasted key and to the exchange response alike.
pub fn check_token(raw: &str) -> (r: Result<&str, TokenError>)
    ensures
        match r {
            Ok(t) => token_in(raw@) == Ok::<Seq<char>, TokenError>(t@),
            Err(e) => token_in(raw@) == Err::<Seq<char>, TokenError>(e),
        },
{
    let chars: Vec<char> = chars_of(raw);
    let body: &[char] = trim_start(&chars);
    let token: &[char] = trim(&chars);
    proof {
        lemma_trimmed_is_part(raw@);
        reveal_strlit("vk_");
    }
    match strip_prefix(token, &chars_of("vk_")) {
        Some(_) => {},
        None => return Err(TokenError::NotAKey),
    }
    for i in 0..token.len()
        invariant
            token@ == trimmed(raw@),
            starts(token@, "vk_"@),
            forall|j: int| 0 <= j < i ==> is_graphic(#[trigger] token@[j]),
    {
        if !('!' <= token[i] && token[i] <= '~') {
            assert(!is_graphic(token@[i as int]));
            return Err(TokenError::Unstorable);
        }
    }
    let last: char = token[token.len() - 1];
    if last == '"' || last == '\'' {
        return Err(TokenError::Unstorable);
    }
    let start: usize = chars.len() - body.len();
    Ok(raw.substring_char(start, start + token.len()))
}

// --- the addresses -----------------------------------------------------------

/// The browser entry point for the handoff.
pub open spec fn authorize_address(
    url: Seq<char>,
    port: u16,
    state: Seq<char>,
    hostname: Option<Seq<char>>,
) -> Seq<char> {
    url + "/platform/cli/authorize?port="@ + decimal(port as nat) + "&state="@ + escaped(state)
        + match hostname {
        Some(name) => "&hostname="@ + escaped(name),
        None => Seq::empty(),
    }
}

/// The browser entry point for the handoff.
pub fn authorize_url(url: &str, port: u16, state: &str, hostname: Option<&str>) -> (r: String)
    ensures
        r@ == authorize_address(
            url@,
            port,
            state@,
            match hostname {
                Some(name) => Some(name@),
                None => None,
            },
        ),
{
    broadcast use {lemma_concat_assoc, lemma_concat_empty};

    let mut authorize = url.to_owned();
    authorize.append("/platform/cli/authorize?port=");
    push_chars(&mut authorize, &to_decimal(port as u64));
    authorize.append("&state=");
    authorize.append(percent_encode(state).as_str());
    match hostname {
        Some(name) => {
            authorize.append("&hostname=");
            authorize.append(percent_encode(name).as_str());
        },
        None => {},
    }
    authorize
}

/// The smaller of two numbers.
pub open spec fn smaller(a: int, b: int) -> int {
    if a < b {
        a
    } else {
        b
    }
}

/// The host and port of what follows a URL's scheme.
pub open spec fn authority_of(rest: Seq<char>) -> Seq<char> {
    rest.take(
        smaller(
            first_index(rest, '/'),
            smaller(first_index(rest, '?'), first_index(rest, '#')),
        ),
    )
}

/// What stands behind the last `c` of a text: all of it when there is none.
pub open spec fn behind_last(s: Seq<char>, c: char) -> Seq<char>
    decreases s.len(),
{
    if s.len() == 0 || s.last() == c {
        Seq::empty()
    } else {
        behind_last(s.drop_last(), c).push(s.last())
    }
}

/// The host of an authority: user information stands before its last `@`, and
/// a port sits behind the brackets of an IPv6 address.
pub open spec fn host_of(authority: Seq<char>) -> Seq<char> {
    let host_and_port = behind_last(authority, '@');
    match after_prefix(host_and_port, "["@) {
        Some(v6) => v6.take(first_index(v6, ']')),
        None => host_and_port.take(first_index(host_and_port, ':')),
    }
}

/// The host is the local machine.
pub open spec fn is_local(host: Seq<char>) -> bool {
    lowered(host) == "localhost"@ || host == "127.0.0.1"@ || host == "::1"@
}

/// `url` is plain http to a host other than the local machine.
pub open spec fn plaintext_remote(url: Seq<char>) -> bool {
    match after_prefix(url, "http://"@) {
        Some(rest) => !is_local(host_of(authority_of(rest))),
        None => false,
    }
}

/// The part of `s` before position `end`.
fn before<'a>(s: &'a [char], end: usize) -> (r: &'a [char])
    requires
        end <= s@.len(),
    ensures
        r@ == s@.take(end as int),
{
    assert(s@.subrange(0, end as int) =~= s@.take(end as int));
    &s[0..end]
}

/// The part of `s` behind its last `c`.
fn after_last<'a>(s: &'a [char], c: char) -> (r: &'a [char])
    ensures
        r@ == behind_last(s@, c),
{
    let mut i: usize = s.len();
    assert(s@.take(i as int) =~= s@);
    assert(behind_last(s@, c) + s@.skip(i as int) =~= behind_last(s@, c));
    while i > 0 && s[i - 1] != c
        invariant
            i <= s@.len(),
            behind_last(s@.take(i as int), c) + s@.skip(i as int) == behind_last(s@, c),
        decreases i,
    {
        proof {
            let front = s@.take(i as int);
            assert(front.drop_last() =~= s@.take(i - 1));
            assert(front.last() == s@[i - 1]);
            assert(behind_last(front, c) + s@.skip(i as int) =~= behind_last(s@.take(i - 1), c)
                + s@.skip(i - 1));
        }
        i -= 1;
    }
    proof {
        assert(i > 0 ==> s@.take(i as int).last() == c);
        assert(behind_last(s@.take(i as int), c) =~= Seq::empty());
        assert(s@.subrange(i as int, s@.len() as int) =~= behind_last(s@, c));
    }
    &s[i..s.len()]
}

/// True when `url` is plain http to a host other than the local machine —
/// i.e. the exchanged key would cross the network unencrypted.
pub fn is_plaintext_remote(url: &str) -> (r: bool)
    ensures
        r == plaintext_remote(url@),
{
    let chars: Vec<char> = chars_of(url);
    let rest: &[char] = match strip_prefix(&chars, &chars_of("http://")) {
        Some(rest) => rest,
        None => return false,
    };
    let mut end: usize = find_char(rest, '#');
    let question: usize = find_char(rest, '?');
    if question < end {
        end = question;
    }
    let slash: usize = find_char(rest, '/');
    if slash < end {
        end = slash;
    }
    let host_and_port: &[char] = after_last(before(rest, end), '@');
    let host: &[char] = match strip_prefix(host_and_port, &chars_of("[")) {
        Some(v6) => before(v6, find_char(v6, ']')),
        None => before(host_and_port, find_char(host_and_port, ':')),
    };
    !(same_chars(&to_lower(host), &chars_of("localhost")) || same_chars(
        host,
        &chars_of("127.0.0.1"),
    ) || same_chars(host, &chars_of("::1")))
}

// --- the listener -----------------------------------------------------------

/// `s` holds `p` at position `i`.
pub open spec fn occurs_at(s: Seq<u8>, p: Seq<u8>, i: int) -> bool {
    0 <= i && i + p.len() <= s.len() && s.subrange(i, i + p.len()) == p
}

/// The four bytes that end a request's head.
pub open spec fn head_end() -> Seq<u8> {
    seq![13u8, 10, 13, 10]
}

/// The head of a request is complete.
pub open spec fn head_complete(buffer: Seq<u8>) -> bool {
    exists|i: int| #[trigger] occurs_at(buffer, head_end(), i)
}

/// A request's head may be this long, in bytes.
pub const MAX_HEAD: usize = 16384;

/// What to do about a request that was read in part.
#[derive(Debug, Clone, Copy, PartialEq, Eq, Structural)]
pub enum HeadStep {
    /// The head is complete.
    Complete,
    /// The head is oversized; give up on the connection.
    Oversized,
    /// Read on.
    ReadOn,
}

/// Goes on with a request of which `buffer` was read.
pub fn head_step(buffer: &[u8]) -> (r: HeadStep)
    ensures
        r == if head_complete(buffer@) {
            HeadStep::Complete
        } else if buffer@.len() > MAX_HEAD {
            HeadStep::Oversized
        } else {
            HeadStep::ReadOn
        },
{
    let mut i: usize = 0;
    while i < buffer.len()
        invariant
            i <= buffer@.len(),
            forall|j: int| 0 <= j < i ==> !(#[trigger] occurs_at(buffer@, head_end(), j)),
        decreases buffer@.len() - i,
    {
        if buffer.len() - i >= 4 && buffer[i] == 13 && buffer[i + 1] == 10 && buffer[i + 2] == 13
            && buffer[i + 3] == 10 {
            assert(buffer@.subrange(i as int, i + 4) =~= head_end());
            assert(occurs_at(buffer@, head_end(), i as int));
            return HeadStep::Complete;
        }
        proof {
            if occurs_at(buffer@, head_end(), i as int) {
                let part = buffer@.subrange(i as int, i + 4);
                assert(part[0] == 13 && part[1] == 10 && part[2] == 13 && part[3] == 10);
            }
        }
        i += 1;
    }
    if buffer.len() > MAX_HEAD {
        HeadStep::Oversized
    } else {
        HeadStep::ReadOn
    }
}

/// The first line of a request, when there is one.
pub open spec fn first_line(buffer: Seq<u8>) -> Option<Seq<char>> {
    let lines = lines_of(utf8_text(buffer));
    if lines.len() > 0 {
        Some(lines[0])
    } else {
        None
    }
}

/// The first line of a request, when there is one.
pub fn request_line(buffer: &[u8]) -> (r: Option<String>)
    ensures
        match r {
            Some(line) => first_line(buffer@) == Some(line@),
            None => first_line(buffer@) is None,
        },
{
    let text: String = read_utf8(buffer);
    let chars: Vec<char> = chars_of(text.as_str());
    let lines: Vec<&[char]> = split_lines(&chars);
    if lines.len() > 0 {
        assert(slice_views(lines@)[0] == lines@[0]@);
        Some(text_of(lines[0]))
    } else {
        assert(slice_views(lines@).len() == 0);
        None
    }
}

/// The page that a loopback request is answered with.
pub open spec fn page(message: Seq<char>) -> Seq<char> {
    "<!doctype html><meta charset=\"utf-8\"><title>vise</title><body style=\"font-family:system-ui;margin:20vh auto;max-width:28rem;text-align:center\"><p>"@
        + message + "</p></body>"@
}

/// The response to a loopback request.
pub open spec fn response(status: Seq<char>, message: Seq<char>) -> Seq<char> {
    "HTTP/1.1 "@ + status
        + "\r\nContent-Type: text/html; charset=utf-8\r\nContent-Length: "@ + decimal(
        encode_utf8(page(message)).len(),
    ) + "\r\nConnection: close\r\n\r\n"@ + page(message)
}

/// The response to a loopback request: a minimal page, after which the
/// connection closes.
pub fn respond(status: &str, message: &str) -> (r: String)
    ensures
        r@ == response(status@, message@),
{
    broadcast use lemma_concat_assoc;

    let mut body =
        "<!doctype html><meta charset=\"utf-8\"><title>vise</title><body style=\"font-family:system-ui;margin:20vh auto;max-width:28rem;text-align:center\"><p>".to_owned();
    body.append(message);
    body.append("</p></body>");
    let length: usize = body.as_str().as_bytes().len();
    let mut out = "HTTP/1.1 ".to_owned();
    out.append(status);
    out.append("\r\nContent-Type: text/html; charset=utf-8\r\nContent-Length: ");
    push_chars(&mut out, &to_decimal(length as u64));
    out.append("\r\nConnection: close\r\n\r\n");
    out.append(body.as_str());
    out
}

/// What the listener does about one connection.
#[derive(Debug)]
pub enum ListenStep {
    /// Hung up early, went quiet, or flooded us: not the browser. Accept the
    /// next connection.
    Ignore,
    /// Answer, and accept the next connection.
    Answer(String),
    /// Answer; this is the code.
    Done { answer: String, code: String },
    /// Answer; the login failed.
    Fail { answer: String, error: String },
}

/// Serves one connection of the loopback listener, given its request line.
/// Stray connections — port scans, speculative connects, favicon fetches,
/// redirects with the wrong state — get a 404 and the listener keeps waiting.
pub fn serve_callback(request_line: Option<&str>, expected_state: &str) -> (r: ListenStep)
    ensures
        match request_line {
            None => r is Ignore,
            Some(line) => match classified(line@, expected_state@) {
                CallbackView::Code(c) => r matches ListenStep::Done { answer, code } && code@ == c
                    && answer@ == response(
                    "200 OK"@,
                    "vise login complete - you can close this tab and return to your terminal."@,
                ),
                CallbackView::Broken => r matches ListenStep::Fail { answer, error } && error@
                    == "the login callback carried no code"@ && answer@ == response(
                    "400 Bad Request"@,
                    "vise login failed - return to your terminal."@,
                ),
                CallbackView::Stray => r matches ListenStep::Answer(answer) && answer@ == response(
                    "404 Not Found"@,
                    "not found"@,
                ),
            },
        },
{
    match request_line {
        None => ListenStep::Ignore,
        Some(line) => match parse_callback(line, expected_state) {
            Callback::Code(code) => ListenStep::Done {
                answer: respond(
                    "200 OK",
                    "vise login complete - you can close this tab and return to your terminal.",
                ),
                code,
            },
            Callback::Broken => ListenStep::Fail {
                answer: respond("400 Bad Request", "vise login failed - return to your terminal."),
                error: "the login callback carried no code".to_owned(),
            },
            Callback::Stray => ListenStep::Answer(respond("404 Not Found", "not found")),
        },
    }
}

// --- the saved credentials -----------------------------------------------------------

/// What stands before the assignment on a line, and the assignment itself.
pub open spec fn export_split(line: Seq<char>) -> (Seq<char>, Seq<char>) {
    let t = trimmed_start(line);
    match after_prefix(t, "export "@) {
        Some(rest) => ("export "@, trimmed_start(rest)),
        None => (Seq::empty(), t),
    }
}

/// The line is `key=…`, possibly behind `export `.
pub open spec fn assigns(line: Seq<char>, key: Seq<char>) -> bool {
    starts(export_split(line).1, key + "="@)
}

/// The line sets `key`: it is `key=…`, or `parse_env` reads it so (with blanks
/// around the `=`, say).
pub open spec fn sets(line: Seq<char>, key: Seq<char>) -> bool {
    assigns(line, key) || (assignment(line) matches Some((k, _)) && k == key)
}

/// Position of the first line that sets `key`, or the number of lines.
pub open spec fn first_setting(lines: Seq<Seq<char>>, key: Seq<char>) -> int
    decreases lines.len(),
{
    if lines.len() == 0 || sets(lines[0], key) {
        0
    } else {
        1 + first_setting(lines.skip(1), key)
    }
}

/// The lines that do not set `key`.
pub open spec fn not_setting(lines: Seq<Seq<char>>, key: Seq<char>) -> Seq<Seq<char>> {
    lines.filter(|line: Seq<char>| !sets(line, key))
}

/// The lines with the first one that sets `key` replaced and every later one
/// dropped, or with a line appended.
pub open spec fn upserted_lines(
    lines: Seq<Seq<char>>,
    key: Seq<char>,
    value: Seq<char>,
) -> Seq<Seq<char>> {
    let i = first_setting(lines, key);
    if 0 <= i < lines.len() {
        lines.take(i).push(export_split(lines[i]).0 + key + "="@ + value) + not_setting(
            lines.skip(i + 1),
            key,
        )
    } else {
        lines.push(key + "="@ + value)
    }
}

/// The contents with the line for `key` replaced, or one appended.
pub open spec fn upserted(contents: Seq<char>, key: Seq<char>, value: Seq<char>) -> Seq<char> {
    terminated(upserted_lines(lines_of(contents), key, value))
}

proof fn lemma_first_setting(lines: Seq<Seq<char>>, key: Seq<char>)
    ensures
        0 <= first_setting(lines, key) <= lines.len(),
        first_setting(lines, key) < lines.len() ==> sets(lines[first_setting(lines, key)], key),
        forall|j: int| 0 <= j < first_setting(lines, key) ==> !sets(#[trigger] lines[j], key),
    decreases lines.len(),
{
    if lines.len() > 0 && !sets(lines[0], key) {
        let rest = lines.skip(1);
        lemma_first_setting(rest, key);
        assert forall|j: int| 0 <= j < first_setting(lines, key) implies !sets(
            #[trigger] lines[j],
            key,
        ) by {
            if j > 0 {
                assert(rest[j - 1] == lines[j]);
            }
        }
    }
}

/// One line more sets `key` or is one more that does not.
proof fn lemma_not_setting_push(lines: Seq<Seq<char>>, line: Seq<char>, key: Seq<char>)
    ensures
        not_setting(lines.push(line), key) == if sets(line, key) {
            not_setting(lines, key)
        } else {
            not_setting(lines, key).push(line)
        },
{
    reveal(Seq::filter);
    assert(lines.push(line).drop_last() =~= lines);
}

/// What a line that sets the wanted key has before its assignment: `Some(true)`
/// for `export `, `Some(false)` for nothing.
fn read_sets(line: &[char], key: &[char], wanted: &[char], export: &[char]) -> (r: Option<bool>)
    requires
        export@ == "export "@,
        wanted@ == key@ + "="@,
    ensures
        match r {
            Some(exported) => sets(line@, key@) && export_split(line@).0 == if exported {
                "export "@
            } else {
                Seq::empty()
            },
            None => !sets(line@, key@),
        },
{
    let t: &[char] = trim_start(line);
    let (exported, body): (bool, &[char]) = match strip_prefix(t, export) {
        Some(rest) => (true, trim_start(rest)),
        None => (false, t),
    };
    if has_prefix(body, wanted) {
        return Some(exported);
    }
    match read_assignment(line) {
        Some((found, _)) => if same_chars(found, key) {
            Some(exported)
        } else {
            None
        },
        None => None,
    }
}

/// Replace the line that sets `key` in `contents` (or append one), leaving
/// everything else — ordering, comments, unrelated keys — untouched. An
/// `export key=` line (which `parse_env` also accepts) is replaced too, keeping
/// its `export`, and later lines that set the key again are dropped, so a
/// rotated key never lingers on disk behind a new one.
pub fn upsert_env_line(contents: &str, key: &str, value: &str) -> (result: String)
    ensures
        result@ == upserted(contents@, key@, value@),
{
    let chars: Vec<char> = chars_of(contents);
    let lines: Vec<&[char]> = split_lines(&chars);
    let export: Vec<char> = chars_of("export ");
    let mut key_text = key.to_owned();
    key_text.append("=");
    let wanted: Vec<char> = chars_of(key_text.as_str());
    let key_chars: Vec<char> = chars_of(key);

    let ghost views = lines_of(contents@);
    let ghost at = first_setting(views, key@);
    let ghost written = export_split(views[at]).0 + key@ + "="@ + value@;
    let ghost mut done: Seq<Seq<char>> = Seq::empty();
    proof {
        lemma_first_setting(views, key@);
        assert(views.take(0) =~= done);
    }
    let mut result = String::new();
    let mut replaced: bool = false;
    for i in 0..lines.len()
        invariant
            slice_views(lines@) == views,
            export@ == "export "@,
            wanted@ == key@ + "="@,
            key_chars@ == key@,
            at == first_setting(views, key@),
            0 <= at <= views.len(),
            at < views.len() ==> sets(views[at], key@),
            forall|j: int| 0 <= j < at ==> !sets(#[trigger] views[j], key@),
            written == export_split(views[at]).0 + key@ + "="@ + value@,
            replaced == (at < i),
            done == if replaced {
                views.take(at).push(written) + not_setting(views.subrange(at + 1, i as int), key@)
            } else {
                views.take(i as int)
            },
            result@ == terminated(done),
    {
        let ghost line = views[i as int];
        let ghost before = result@;
        let ghost so_far = done;
        assert(line == lines@[i as int]@);
        let found: Option<bool> = read_sets(lines[i], &key_chars, &wanted, &export);
        match found {
            Some(exported) => if !replaced {
                assert(at == i);
                if exported {
                    result.append("export ");
                }
                result.append(key);
                result.append("=");
                result.append(value);
                result.append("\n");
                replaced = true;
                proof {
                    done = so_far.push(written);
                    assert(done.drop_last() =~= so_far);
                    assert(result@ =~= before + written + "\n"@);
                    let none = views.subrange(at + 1, i + 1);
                    assert(none =~= Seq::empty());
                    reveal(Seq::filter);
                    assert(done =~= views.take(at).push(written) + not_setting(none, key@));
                }
            } else {
                proof {
                    let tail = views.subrange(at + 1, i as int);
                    assert(views.subrange(at + 1, i + 1) =~= tail.push(line));
                    lemma_not_setting_push(tail, line, key@);
                }
            },
            None => {
                push_chars(&mut result, lines[i]);
                result.append("\n");
                proof {
                    done = so_far.push(line);
                    assert(done.drop_last() =~= so_far);
                    assert(result@ =~= before + line + "\n"@);
                    if replaced {
                        let tail = views.subrange(at + 1, i as int);
                        assert(views.subrange(at + 1, i + 1) =~= tail.push(line));
                        lemma_not_setting_push(tail, line, key@);
                        assert(done =~= views.take(at).push(written) + not_setting(
                            tail.push(line),
                            key@,
                        ));
                    } else {
                        assert(done =~= views.take(i + 1));
                    }
                }
            },
        }
    }
    if !replaced {
        let ghost before = result@;
        let ghost last = key@ + "="@ + value@;
        result.append(key);
        result.append("=");
        result.append(value);
        result.append("\n");
        proof {
            assert(done =~= views);
            assert(views.push(last).drop_last() =~= views);
            assert(result@ =~= before + last + "\n"@);
        }
    } else {
        assert(views.subrange(at + 1, views.len() as int) =~= views.skip(at + 1));
    }
    result
}

/// The contents of `~/.vise/.env` after a login.
pub open spec fn saved(existing: Seq<char>, url: Seq<char>, token: Seq<char>) -> Seq<char> {
    upserted(upserted(existing, "VISE_URL"@, url), "VISE_API_TOKEN"@, token)
}

/// The contents of `~/.vise/.env` after a login, given those before (`None`
/// when there is no such file): `VISE_URL=<url>` and `VISE_API_TOKEN=<token>`
/// upserted, every other line (comments included) preserved verbatim. The URL
/// goes with the token because the key only works against the server that
/// issued it.
pub fn save_credentials(existing: Option<&str>, url: &str, token: &str) -> (r: String)
    ensures
        r@ == saved(
            match existing {
                Some(text) => text@,
                None => Seq::empty(),
            },
            url@,
            token@,
        ),
{
    let first: String = match existing {
        Some(text) => upsert_env_line(text, "VISE_URL", url),
        None => {
            proof {
                reveal_strlit("");
                assert(""@ =~= Seq::<char>::empty());
            }
            upsert_env_line("", "VISE_URL", url)
        },
    };
    upsert_env_line(first.as_str(), "VISE_API_TOKEN", token)
}

/// The file that the new contents are written to before it replaces
/// `~/.vise/.env`. The name is the process's own, so two concurrent logins
/// cannot clobber each other's file.
pub fn temp_env_file(paths: &Paths, pid: u32) -> (r: String)
    ensures
        r@ == path_joined(paths@, ".env."@ + decimal(pid as nat) + ".tmp"@),
{
    let mut name = ".env.".to_owned();
    push_chars(&mut name, &to_decimal(pid as u64));
    name.append(".tmp");
    join_path(paths.root(), name.as_str())
}

/// A key that can stand on a line of `.env`: no white space, no `=`, no
/// comment.
pub open spec fn plain_key(key: Seq<char>) -> bool {
    &&& key.len() > 0
    &&& key[0] != '#'
    &&& !key.contains('=')
    &&& forall|i: int| 0 <= i < key.len() ==> !is_white(#[trigger] key[i])
}

/// A value that `.env` gives back as it was written: on one line, with no
/// white space and no matching quotes around it.
pub open spec fn plain_value(value: Seq<char>) -> bool {
    &&& unquoted(value) == value
    &&& trimmed(value) == value
    &&& !value.contains('\n')
}

/// Text that trimming leaves alone has no white space at its ends.
proof fn lemma_trimmed_ends(s: Seq<char>)
    requires
        trimmed(s) == s,
        s.len() > 0,
    ensures
        !is_white(s[0]),
        !is_white(s.last()),
{
    let t = trimmed_start(s);
    crate::text::lemma_trimmed_start_is_suffix(s);
    crate::text::lemma_trimmed_end_is_prefix(t);
    if is_white(s[0]) {
        crate::text::lemma_trimmed_start_is_suffix(s.skip(1));
    }
    if is_white(s.last()) {
        assert(t == s);
        crate::text::lemma_trimmed_end_is_prefix(s.drop_last());
    }
}

/// A plain key is its own trimming.
proof fn lemma_key_trimmed(key: Seq<char>)
    requires
        plain_key(key),
    ensures
        trimmed(key) == key,
{
    assert(!is_white(key[0]));
    assert(!is_white(key[key.len() - 1]));
}

/// What is written for a key and a value, without `export `.
proof fn lemma_line_plain(key: Seq<char>, value: Seq<char>)
    requires
        plain_key(key),
        plain_value(value),
    ensures
        ({
            let line = key + "="@ + value;
            &&& trimmed(line) == line
            &&& trimmed_start(line) == line
            &&& !is_white(line.last())
            &&& !starts(line, "export "@)
            &&& line[0] == key[0]
            &&& !line.contains('\n')
            &&& split_pair(line, '=') == Some((key, value))
        }),
{
    reveal_strlit("=");
    reveal_strlit("export ");
    let line = key + "="@ + value;
    assert(!is_white(key[0]));
    if value.len() > 0 {
        lemma_trimmed_ends(value);
        assert(line.last() == value.last());
    } else {
        assert(line.last() == '=');
    }
    assert(line[key.len() as int] == '=');
    if starts(line, "export "@) {
        assert(line.take(7)[6] == line[6]);
        if key.len() > 6 {
            assert(line[6] == key[6]);
        } else {
            assert(line.take(7)[key.len() as int] == line[key.len() as int]);
        }
    }
    if line.contains('\n') {
        let i = choose|i: int| 0 <= i < line.len() && line[i] == '\n';
        if i < key.len() {
            assert(is_white(key[i]));
        } else if i > key.len() {
            assert(value[i - key.len() - 1] == '\n');
        }
    }
    assert("="@ =~= seq!['=']);
    lemma_split_pair(key, '=', value);
}

/// A written line assigns what it was written for.
proof fn lemma_written_line(prefix: Seq<char>, key: Seq<char>, value: Seq<char>)
    requires
        plain_key(key),
        plain_value(value),
        prefix == Seq::<char>::empty() || prefix == "export "@,
    ensures
        assignment(prefix + key + "="@ + value) == Some((key, value)),
        !(prefix + key + "="@ + value).contains('\n'),
{
    reveal_strlit("=");
    reveal_strlit("export ");
    lemma_line_plain(key, value);
    lemma_key_trimmed(key);
    let line = key + "="@ + value;
    let whole = prefix + key + "="@ + value;
    assert(whole =~= prefix + line);
    if prefix.len() == 0 {
        assert(whole =~= line);
    } else {
        assert(whole[0] == 'e');
        assert(whole.last() == line.last());
        assert(trimmed(whole) == whole);
        assert(whole.take(7) =~= "export "@);
        assert(whole.skip(7) =~= line);
    }
    if whole.contains('\n') {
        let i = choose|i: int| 0 <= i < whole.len() && whole[i] == '\n';
        if i >= prefix.len() {
            assert(line[i - prefix.len()] == '\n');
        }
    }
}

/// A line that assigns a plain key sets that key.
proof fn lemma_assigns_sets(line: Seq<char>, key: Seq<char>)
    requires
        plain_key(key),
        assigns(line, key),
    ensures
        assignment(line) is Some,
        (assignment(line)->0).0 == key,
{
    reveal_strlit("=");
    reveal_strlit("export ");
    let t = trimmed_start(line);
    let p = key + "="@;
    let (prefix, body) = export_split(line);
    assert(body.take(p.len() as int) == p);
    assert(p.take(key.len() as int) =~= key);
    assert(body[0] == body.take(p.len() as int)[0]);
    assert(body[key.len() as int] == body.take(p.len() as int)[key.len() as int]);
    crate::text::lemma_trimmed_start_is_suffix(line);
    crate::text::lemma_trimmed_end_is_prefix(t);
    assert(!is_white(key[0]));
    // The trimmed line keeps everything up to the `=`.
    let whole = trimmed(line);
    if starts(t, "export "@) {
        let rest = t.skip(7);
        crate::text::lemma_trimmed_start_is_suffix(rest);
        lemma_end_keeps(t, 7 + (rest.len() - body.len()) + key.len());
        assert(whole =~= t.take(whole.len() as int));
        assert(whole.take(7) =~= t.take(7));
        let inner = whole.skip(7);
        // Trimming the rest on both sides is trimming its start, then its end.
        assert(inner =~= rest.take(inner.len() as int));
        lemma_start_of_prefix(rest, inner.len() as int);
        let inner_body = trimmed_start(inner);
        assert(inner_body =~= body.take(inner_body.len() as int));
        lemma_end_keeps(inner_body, key.len() as int);
        let b = trimmed(inner);
        crate::text::lemma_trimmed_end_is_prefix(inner_body);
        assert(b =~= body.take(b.len() as int));
        assert(b.take(key.len() as int) =~= p.take(key.len() as int));
        lemma_split_at_key(b, key);
    } else {
        lemma_end_keeps(t, key.len() as int);
        assert(whole =~= t.take(whole.len() as int));
        assert(!starts(whole, "export "@)) by {
            if starts(whole, "export "@) {
                assert(t.take(7) =~= whole.take(7));
            }
        }
        assert(whole.take(key.len() as int) =~= p.take(key.len() as int));
        assert(whole[0] == whole.take(key.len() as int)[0]);
        lemma_split_at_key(whole, key);
    }
    lemma_key_trimmed(key);
}

/// A character that is not white space survives trimming the end.
proof fn lemma_end_keeps(s: Seq<char>, i: int)
    requires
        0 <= i < s.len(),
        !is_white(s[i]),
    ensures
        crate::text::trimmed_end(s).len() > i,
    decreases s.len(),
{
    if is_white(s.last()) {
        lemma_end_keeps(s.drop_last(), i);
    }
}

/// Trimming the start of a prefix that holds more than white space.
proof fn lemma_start_of_prefix(s: Seq<char>, n: int)
    requires
        s.len() - trimmed_start(s).len() < n <= s.len(),
    ensures
        trimmed_start(s.take(n)) == trimmed_start(s).take(n - (s.len() - trimmed_start(s).len())),
    decreases s.len(),
{
    if s.len() > 0 && is_white(s[0]) {
        crate::text::lemma_trimmed_start_is_suffix(s.skip(1));
        assert(s.take(n)[0] == s[0]);
        assert(s.take(n).skip(1) =~= s.skip(1).take(n - 1));
        if n - 1 > s.skip(1).len() - trimmed_start(s.skip(1)).len() {
            lemma_start_of_prefix(s.skip(1), n - 1);
        }
    } else {
        if n > 0 {
            assert(s.take(n)[0] == s[0]);
        }
    }
}

proof fn lemma_split_at_key(b: Seq<char>, key: Seq<char>)
    requires
        plain_key(key),
        b.len() > key.len(),
        b.take(key.len() as int) == key,
        b[key.len() as int] == '=',
    ensures
        split_pair(b, '=') is Some,
        (split_pair(b, '=')->0).0 == key,
{
    lemma_split_pair(key, '=', b.skip(key.len() as int + 1));
    assert(b =~= key + seq!['='] + b.skip(key.len() as int + 1));
}

/// A line sets a plain key exactly when `parse_env` reads it so.
proof fn lemma_sets_is(line: Seq<char>, key: Seq<char>)
    requires
        plain_key(key),
    ensures
        sets(line, key) <==> (assignment(line) matches Some((k, _)) && k == key),
{
    if assigns(line, key) {
        lemma_assigns_sets(line, key);
    }
}

/// The variables after a replaced line, with lines behind it.
proof fn lemma_env_replaced(
    front: Seq<Seq<char>>,
    line: Seq<char>,
    written: Seq<char>,
    tail: Seq<Seq<char>>,
    key: Seq<char>,
    value: Seq<char>,
)
    requires
        plain_key(key),
        sets(line, key),
        assignment(written) == Some((key, value)),
    ensures
        env_of(front.push(written) + not_setting(tail, key)) =~= env_of(
            front.push(line) + tail,
        ).insert(key, value),
    decreases tail.len(),
{
    reveal(Seq::filter);
    let after = front.push(written) + not_setting(tail, key);
    let before = front.push(line) + tail;
    if tail.len() == 0 {
        lemma_sets_is(line, key);
        assert(after =~= front.push(written));
        assert(before =~= front.push(line));
        assert(front.push(written).drop_last() =~= front);
        assert(front.push(line).drop_last() =~= front);
    } else {
        let less = tail.drop_last();
        let last = tail.last();
        lemma_env_replaced(front, line, written, less, key, value);
        lemma_sets_is(last, key);
        assert(tail =~= less.push(last));
        lemma_not_setting_push(less, last, key);
        assert(before.drop_last() =~= front.push(line) + less);
        if !sets(last, key) {
            assert(after.drop_last() =~= front.push(written) + not_setting(less, key));
        }
    }
}

/// The variables after a replaced or appended line.
proof fn lemma_env_upserted(lines: Seq<Seq<char>>, key: Seq<char>, value: Seq<char>)
    requires
        plain_key(key),
        plain_value(value),
    ensures
        env_of(upserted_lines(lines, key, value)) =~= env_of(lines).insert(key, value),
{
    lemma_first_setting(lines, key);
    let at = first_setting(lines, key);
    let after = upserted_lines(lines, key, value);
    if at < lines.len() {
        let written = export_split(lines[at]).0 + key + "="@ + value;
        lemma_written_line(export_split(lines[at]).0, key, value);
        lemma_env_replaced(
            lines.take(at),
            lines[at],
            written,
            lines.skip(at + 1),
            key,
            value,
        );
        assert(lines.take(at).push(lines[at]) + lines.skip(at + 1) =~= lines);
    } else {
        lemma_written_line(Seq::empty(), key, value);
        assert(Seq::<char>::empty() + key =~= key);
        assert(after.drop_last() =~= lines);
    }
}

/// Carriage returns at the ends of lines set nothing.
proof fn lemma_env_without_cr(lines: Seq<Seq<char>>)
    ensures
        env_of(lines.map_values(|l: Seq<char>| without_cr(l))) == env_of(lines),
    decreases lines.len(),
{
    let mapped = lines.map_values(|l: Seq<char>| without_cr(l));
    if lines.len() > 0 {
        lemma_env_without_cr(lines.drop_last());
        assert(mapped.drop_last() =~= lines.drop_last().map_values(
            |l: Seq<char>| without_cr(l),
        ));
        lemma_trimmed_without_cr(lines.last());
    }
}

/// Upserting a line sets its key and nothing else: what `parse_env` reads from
/// the new contents is what it read from the old ones, with the value set.
pub proof fn upsert_sets_the_key(contents: Seq<char>, key: Seq<char>, value: Seq<char>)
    requires
        plain_key(key),
        plain_value(value),
    ensures
        env_of(lines_of(upserted(contents, key, value))) == env_of(lines_of(contents)).insert(
            key,
            value,
        ),
{
    let lines = lines_of(contents);
    lemma_env_upserted(lines, key, value);
    lemma_upserted_single(contents, key, value);
    lemma_lines_of_terminated(upserted_lines(lines, key, value));
    lemma_env_without_cr(upserted_lines(lines, key, value));
}

/// The lines that do not set a key are some of the lines.
proof fn lemma_not_setting_are(lines: Seq<Seq<char>>, key: Seq<char>)
    ensures
        forall|i: int|
            0 <= i < not_setting(lines, key).len() ==> !sets(
                #[trigger] not_setting(lines, key)[i],
                key,
            ) && lines.contains(not_setting(lines, key)[i]),
    decreases lines.len(),
{
    reveal(Seq::filter);
    let kept = not_setting(lines, key);
    if lines.len() > 0 {
        let front = lines.drop_last();
        lemma_not_setting_are(front, key);
        let less = not_setting(front, key);
        assert forall|i: int| 0 <= i < kept.len() implies !sets(#[trigger] kept[i], key)
            && lines.contains(kept[i]) by {
            if i < less.len() {
                assert(kept[i] == less[i]);
                let j = choose|j: int| 0 <= j < front.len() && front[j] == less[i];
                assert(lines[j] == kept[i]);
            } else {
                assert(lines[lines.len() - 1] == kept[i]);
            }
        }
    }
}

proof fn lemma_upserted_single(contents: Seq<char>, key: Seq<char>, value: Seq<char>)
    requires
        plain_key(key),
        plain_value(value),
    ensures
        single_lines(upserted_lines(lines_of(contents), key, value)),
{
    let lines = lines_of(contents);
    let after = upserted_lines(lines, key, value);
    lemma_lines_single(contents);
    lemma_first_setting(lines, key);
    let at = first_setting(lines, key);
    if at < lines.len() {
        lemma_written_line(export_split(lines[at]).0, key, value);
        let kept = not_setting(lines.skip(at + 1), key);
        lemma_not_setting_are(lines.skip(at + 1), key);
        assert forall|i: int| 0 <= i < after.len() implies !(#[trigger] after[i]).contains(
            '\n',
        ) by {
            if i < at {
                assert(after[i] == lines[i]);
            } else if i > at {
                assert(after[i] == kept[i - at - 1]);
                let rest = lines.skip(at + 1);
                let j = choose|j: int| 0 <= j < rest.len() && rest[j] == kept[i - at - 1];
                assert(lines[at + 1 + j] == after[i]);
            }
        }
    } else {
        lemma_written_line(Seq::empty(), key, value);
        assert(Seq::<char>::empty() + key =~= key);
        assert forall|i: int| 0 <= i < after.len() implies !(#[trigger] after[i]).contains(
            '\n',
        ) by {
            if i < lines.len() {
                assert(after[i] == lines[i]);
            }
        }
    }
}

/// Lines none of which sets a key are all lines that do not.
proof fn lemma_not_setting_all(
    front: Seq<Seq<char>>,
    tail: Seq<Seq<char>>,
    key: Seq<char>,
)
    requires
        forall|i: int| 0 <= i < front.len() ==> !sets(#[trigger] front[i], key),
    ensures
        not_setting(front + tail, key) == front + not_setting(tail, key),
    decreases front.len() + tail.len(),
{
    reveal(Seq::filter);
    if tail.len() > 0 {
        lemma_not_setting_all(front, tail.drop_last(), key);
        assert((front + tail).drop_last() =~= front + tail.drop_last());
        assert(not_setting(front + tail, key) =~= front + not_setting(tail, key));
    } else if front.len() > 0 {
        let less = front.drop_last();
        assert forall|i: int| 0 <= i < less.len() implies !sets(#[trigger] less[i], key) by {
            assert(less[i] == front[i]);
        }
        lemma_not_setting_all(less, tail, key);
        assert(front + tail =~= front);
        assert(less + tail =~= less);
        assert(!sets(front[front.len() - 1], key));
        assert(not_setting(front, key) =~= front);
    } else {
        assert(front + tail =~= Seq::<Seq<char>>::empty());
    }
}

/// Every line that does not set the key is preserved, in its order, and so is
/// everything before the replaced line: besides these there is the written
/// line and nothing else.
pub proof fn upsert_preserves_the_rest(contents: Seq<char>, key: Seq<char>, value: Seq<char>)
    ensures
        ({
            let lines = lines_of(contents);
            let after = upserted_lines(lines, key, value);
            let at = first_setting(lines, key);
            &&& 0 <= at < after.len()
            &&& after.take(at) == lines.take(at)
            &&& after.remove(at) == not_setting(lines, key)
        }),
{
    let lines = lines_of(contents);
    let after = upserted_lines(lines, key, value);
    lemma_first_setting(lines, key);
    let at = first_setting(lines, key);
    let front = lines.take(at);
    assert forall|i: int| 0 <= i < front.len() implies !sets(#[trigger] front[i], key) by {
        assert(front[i] == lines[i]);
    }
    if at < lines.len() {
        let tail = lines.skip(at + 1);
        let rest = lines.skip(at);
        lemma_not_setting_all(front, rest, key);
        assert(front + rest =~= lines);
        assert(rest =~= seq![lines[at]] + tail);
        lemma_not_setting_first(lines[at], tail, key);
        assert(after.remove(at) =~= front + not_setting(tail, key));
    } else {
        lemma_not_setting_all(front, Seq::empty(), key);
        reveal(Seq::filter);
        assert(front + Seq::<Seq<char>>::empty() =~= lines);
        assert(after.remove(at) =~= lines);
        assert(not_setting(Seq::<Seq<char>>::empty(), key) =~= Seq::<Seq<char>>::empty());
        assert(front + Seq::<Seq<char>>::empty() =~= lines);
    }
}

/// A line that sets the key is left out.
proof fn lemma_not_setting_first(line: Seq<char>, tail: Seq<Seq<char>>, key: Seq<char>)
    requires
        sets(line, key),
    ensures
        not_setting(seq![line] + tail, key) == not_setting(tail, key),
    decreases tail.len(),
{
    reveal(Seq::filter);
    let all = seq![line] + tail;
    if tail.len() == 0 {
        let none = Seq::<Seq<char>>::empty();
        lemma_not_setting_push(none, line, key);
        assert(all =~= none.push(line));
        assert(tail =~= none);
    } else {
        lemma_not_setting_first(line, tail.drop_last(), key);
        assert(all.drop_last() =~= seq![line] + tail.drop_last());
    }
}

proof fn lemma_starts_push(s: Seq<char>, c: char, p: Seq<char>)
    requires
        !p.contains(c),
    ensures
        starts(s.push(c), p) == starts(s, p),
{
    if p.len() <= s.len() {
        assert(s.push(c).take(p.len() as int) =~= s.take(p.len() as int));
    } else if starts(s.push(c), p) {
        assert(p =~= s.push(c));
        assert(p[s.len() as int] == c);
    }
}

/// A carriage return at the end of a line does not matter to what it assigns.
proof fn lemma_assigns_without_cr(line: Seq<char>, key: Seq<char>)
    requires
        plain_key(key),
    ensures
        assigns(without_cr(line), key) == assigns(line, key),
{
    if line.len() > 0 && line.last() == '\r' {
        let m = line.drop_last();
        let p = key + "="@;
        reveal_strlit("=");
        reveal_strlit("export ");
        assert(m.push('\r') =~= line);
        assert(!p.contains('\r')) by {
            if p.contains('\r') {
                let i = choose|i: int| 0 <= i < p.len() && p[i] == '\r';
                if i < key.len() {
                    assert(!is_white(key[i]));
                }
            }
        }
        crate::text::lemma_trimmed_start_push(m, '\r');
        let t = trimmed_start(m);
        if t.len() > 0 {
            lemma_starts_push(t, '\r', "export "@);
            lemma_starts_push(t, '\r', p);
            if starts(t, "export "@) {
                let rest = t.skip(7);
                assert(t.push('\r').skip(7) =~= rest.push('\r'));
                crate::text::lemma_trimmed_start_push(rest, '\r');
                lemma_starts_push(trimmed_start(rest), '\r', p);
            }
        }
    }
}

/// A rotated key never lingers: after an upsert no line but the written one
/// sets the key.
pub proof fn upsert_leaves_one_line(
    contents: Seq<char>,
    key: Seq<char>,
    value: Seq<char>,
    i: int,
)
    requires
        plain_key(key),
        plain_value(value),
        0 <= i < lines_of(upserted(contents, key, value)).len(),
    ensures
        sets(lines_of(upserted(contents, key, value))[i], key) <==> i == first_setting(
            lines_of(contents),
            key,
        ),
{
    let lines = lines_of(contents);
    let middle = upserted_lines(lines, key, value);
    let at = first_setting(lines, key);
    lemma_upserted_single(contents, key, value);
    lemma_lines_of_terminated(middle);
    lemma_trimmed_without_cr(middle[i]);
    lemma_assigns_without_cr(middle[i], key);
    lemma_first_setting(lines, key);
    if at < lines.len() {
        lemma_written_line(export_split(lines[at]).0, key, value);
        let tail = lines.skip(at + 1);
        lemma_not_setting_are(tail, key);
        if i < at {
            assert(middle[i] == lines[i]);
        } else if i > at {
            assert(middle[i] == not_setting(tail, key)[i - at - 1]);
        }
    } else {
        lemma_written_line(Seq::empty(), key, value);
        assert(Seq::<char>::empty() + key =~= key);
        if i < at {
            assert(middle[i] == lines[i]);
        }
    }
}

/// A key whose line is found again: it is one line that does not begin with
/// white space nor with `export `.
pub open spec fn findable_key(key: Seq<char>) -> bool {
    &&& key.len() > 0 ==> !is_white(key[0])
    &&& !starts(key, "export "@)
    &&& !key.contains('\n')
}

/// A line as it is written for a key sets that key, behind the same prefix,
/// when it is read back.
proof fn lemma_written_is_found(prefix: Seq<char>, key: Seq<char>, value: Seq<char>)
    requires
        findable_key(key),
        prefix == Seq::<char>::empty() || prefix == "export "@,
        !value.contains('\n'),
    ensures
        ({
            let line = prefix + key + "="@ + value;
            &&& !line.contains('\n')
            &&& sets(without_cr(line), key)
            &&& export_split(without_cr(line)).0 == prefix
        }),
{
    reveal_strlit("=");
    reveal_strlit("export ");
    let line = prefix + key + "="@ + value;
    let wanted = key + "="@;
    let read = without_cr(line);
    let n = prefix.len() as int;
    if line.contains('\n') {
        let i = choose|i: int| 0 <= i < line.len() && line[i] == '\n';
        if n <= i < n + key.len() {
            assert(key[i - n] == '\n');
        } else if i > n + key.len() {
            assert(value[i - n - key.len() - 1] == '\n');
        }
    }
    // What is left is at least the prefix and `key=`.
    assert(line[n + key.len()] == '=');
    assert(read.len() >= n + wanted.len());
    assert(read.take(n) =~= prefix);
    let body = read.skip(n);
    assert(body.take(wanted.len() as int) =~= wanted);
    assert(starts(body, wanted));
    assert(!is_white(body[0])) by {
        assert(body[0] == wanted[0]);
    }
    lemma_starts_itself(body);
    if n == 0 {
        assert(read =~= body);
        if starts(read, "export "@) {
            assert(read.take(7) == "export "@);
            if key.len() < 7 {
                assert(read.take(7)[key.len() as int] == '=');
            } else {
                assert(key.take(7) =~= read.take(7));
            }
        }
    } else {
        assert(read[0] == 'e');
        lemma_starts_itself(read);
        assert(starts(read, "export "@));
    }
}

/// Text that begins with something visible has nothing to trim there.
proof fn lemma_starts_itself(s: Seq<char>)
    requires
        s.len() > 0,
        !is_white(s[0]),
    ensures
        trimmed_start(s) == s,
{
}

proof fn lemma_first_setting_is(lines: Seq<Seq<char>>, key: Seq<char>, at: int)
    requires
        0 <= at < lines.len(),
        sets(lines[at], key),
        forall|j: int| 0 <= j < at ==> !sets(#[trigger] lines[j], key),
    ensures
        first_setting(lines, key) == at,
{
    lemma_first_setting(lines, key);
}

/// The lines beside those that set `key` are read back as they were written: a
/// line that keeps a carriage return at its end would lose it.
pub open spec fn rest_reads_back(contents: Seq<char>, key: Seq<char>) -> bool {
    forall|i: int|
        0 <= i < not_setting(lines_of(contents), key).len() ==> without_cr(
            #[trigger] not_setting(lines_of(contents), key)[i],
        ) == not_setting(lines_of(contents), key)[i]
}

/// Contents without carriage returns are read back as they were written.
pub proof fn plain_contents_read_back(contents: Seq<char>, key: Seq<char>)
    requires
        !contents.contains('\r'),
    ensures
        rest_reads_back(contents, key),
{
    let lines = lines_of(contents);
    let kept = not_setting(lines, key);
    lemma_lines_hold(contents, '\r');
    lemma_not_setting_are(lines, key);
    assert forall|i: int| 0 <= i < kept.len() implies without_cr(#[trigger] kept[i])
        == kept[i] by {
        let j = choose|j: int| 0 <= j < lines.len() && lines[j] == kept[i];
        assert(!lines[j].contains('\r'));
        if kept[i].len() > 0 {
            assert(lines[j][kept[i].len() - 1] != '\r');
        }
    }
}

/// The last of two upserts of one key wins: what the first one wrote leaves no
/// trace.
pub proof fn last_upsert_wins(
    contents: Seq<char>,
    key: Seq<char>,
    first: Seq<char>,
    second: Seq<char>,
)
    requires
        findable_key(key),
        !first.contains('\n'),
        rest_reads_back(contents, key),
    ensures
        upserted(upserted(contents, key, first), key, second) == upserted(contents, key, second),
{
    reveal(Seq::filter);
    let lines = lines_of(contents);
    let kept = not_setting(lines, key);
    let at = first_setting(lines, key);
    let middle = upserted_lines(lines, key, first);
    let prefix = if at < lines.len() {
        export_split(lines[at]).0
    } else {
        Seq::empty()
    };
    let written = prefix + key + "="@ + first;
    lemma_first_setting(lines, key);
    lemma_lines_single(contents);
    upsert_preserves_the_rest(contents, key, first);
    lemma_written_is_found(prefix, key, first);
    lemma_not_setting_are(lines, key);
    assert(Seq::<char>::empty() + key =~= key);
    assert(middle[at] == written);
    assert forall|i: int| 0 <= i < middle.len() && i != at implies !sets(#[trigger] middle[i], key)
        && without_cr(middle[i]) == middle[i] && !middle[i].contains('\n') by {
        let k = if i < at {
            i
        } else {
            i - 1
        };
        assert(middle.remove(at)[k] == middle[i]);
        assert(kept[k] == middle[i]);
        let j = choose|j: int| 0 <= j < lines.len() && lines[j] == kept[k];
        assert(!lines[j].contains('\n'));
    }
    lemma_lines_of_terminated(middle);
    let read = lines_of(upserted(contents, key, first));
    assert(read == middle.map_values(|l: Seq<char>| without_cr(l)));
    assert forall|j: int| 0 <= j < at implies !sets(#[trigger] read[j], key) by {
        assert(read[j] == without_cr(middle[j]));
    }
    assert(read[at] == without_cr(written));
    lemma_first_setting_is(read, key, at);
    let tail = read.skip(at + 1);
    assert forall|i: int| 0 <= i < tail.len() implies !sets(#[trigger] tail[i], key) by {
        assert(tail[i] == without_cr(middle[at + 1 + i]));
    }
    lemma_not_setting_all(tail, Seq::empty(), key);
    assert(tail + Seq::<Seq<char>>::empty() =~= tail);
    assert(not_setting(Seq::<Seq<char>>::empty(), key) =~= Seq::<Seq<char>>::empty());
    assert(not_setting(tail, key) =~= tail);
    let end = upserted_lines(lines, key, second);
    upsert_preserves_the_rest(contents, key, second);
    assert forall|i: int| at < i < end.len() implies #[trigger] end[i] == middle[i] by {
        assert(end.remove(at)[i - 1] == end[i]);
        assert(middle.remove(at)[i - 1] == middle[i]);
    }
    assert(end.len() == middle.len()) by {
        assert(end.remove(at).len() == middle.remove(at).len());
    }
    assert(upserted_lines(read, key, second) =~= end) by {
        assert forall|i: int| 0 <= i < end.len() implies upserted_lines(read, key, second)[i]
            == end[i] by {
            if i < at {
                assert(read[i] == without_cr(middle[i]));
                assert(middle.take(at)[i] == end.take(at)[i]);
            } else if i > at {
                assert(tail[i - at - 1] == without_cr(middle[i]));
            }
        }
    }
}

/// Contents that were upserted end with a newline.
pub proof fn upserted_contents_end_their_last_line(
    contents: Seq<char>,
    key: Seq<char>,
    value: Seq<char>,
)
    ensures
        upserted(contents, key, value).len() > 0,
        upserted(contents, key, value).last() == '\n',
{
    reveal_strlit("\n");
    upsert_preserves_the_rest(contents, key, value);
}

proof fn lemma_key_names()
    ensures
        plain_key("VISE_URL"@),
        plain_key("VISE_API_TOKEN"@),
{
    reveal_strlit("VISE_URL");
    reveal_strlit("VISE_API_TOKEN");
}

proof fn lemma_token_plain(raw: Seq<char>, token: Seq<char>)
    requires
        token_in(raw) == Ok::<Seq<char>, TokenError>(token),
    ensures
        plain_value(token),
        token.len() > 0,
        trimmed(token) == token,
{
    reveal_strlit("vk_");
    assert(token[0] == token.take(3)[0]);
    assert(is_graphic(token[0]));
    assert(is_graphic(token[token.len() - 1]));
    if token.contains('\n') {
        let i = choose|i: int| 0 <= i < token.len() && token[i] == '\n';
        assert(is_graphic(token[i]));
    }
}

/// After a login every command finds the server and the key: what is read
/// from the saved file gives the URL and the accepted token, and every other
/// variable keeps its value.
pub proof fn login_round_trip(
    existing: Seq<char>,
    url: Seq<char>,
    raw: Seq<char>,
    token: Seq<char>,
)
    requires
        token_in(raw) == Ok::<Seq<char>, TokenError>(token),
        plain_value(url),
        url.len() > 0,
    ensures
        ({
            let env = env_of(lines_of(saved(existing, url, token)));
            &&& env == env_of(lines_of(existing)).insert("VISE_URL"@, url).insert(
                "VISE_API_TOKEN"@,
                token,
            )
            &&& url_choice(None, env) == url
            &&& token_choice(None, env) == Some(token)
        }),
{
    lemma_key_names();
    lemma_token_plain(raw, token);
    reveal_strlit("VISE_URL");
    reveal_strlit("VISE_API_TOKEN");
    assert("VISE_URL"@.len() != "VISE_API_TOKEN"@.len());
    upsert_sets_the_key(existing, "VISE_URL"@, url);
    upsert_sets_the_key(upserted(existing, "VISE_URL"@, url), "VISE_API_TOKEN"@, token);
}

// --- what the user is told -----------------------------------------------------------

/// The server's address without the slashes at its end.
pub fn base_url(url: &str) -> (r: String)
    ensures
        r@ == without_trailing(url@, '/'),
{
    text_of(strip_trailing(&chars_of(url), '/'))
}

/// The error for a server that answers 404 on the `/platform/cli/*` routes.
pub open spec fn no_platform(url: Seq<char>, route: Seq<char>) -> Seq<char> {
    url + " has no "@ + route
        + " endpoint — this looks like a self-hosted (OSS) server, which has no browser login. Set VISE_API_TOKEN in ~/.vise/.env to the server's token instead."@
}

/// The error for a server that answers 404 on the `/platform/cli/*` routes:
/// a self-hosted OSS server, which has no browser login at all.
pub fn no_platform_error(url: &str, route: &str) -> (r: String)
    ensures
        r@ == no_platform(url@, route@),
{
    let mut out = url.to_owned();
    out.append(" has no ");
    out.append(route);
    out.append(
        " endpoint — this looks like a self-hosted (OSS) server, which has no browser login. Set VISE_API_TOKEN in ~/.vise/.env to the server's token instead.",
    );
    out
}

/// Judges the answer to a request for the authorize page. Only a 404 means
/// "no browser login"; anything else (a sign-in redirect, a 401, the page
/// itself) means the route exists and the dashboard will take it from here.
pub fn check_platform(url: &str, status: u16) -> (r: Result<(), String>)
    ensures
        match r {
            Ok(_) => status != 404,
            Err(e) => status == 404 && e@ == no_platform(url@, "/platform/cli/authorize"@),
        },
{
    if status == 404 {
        Err(no_platform_error(url, "/platform/cli/authorize"))
    } else {
        Ok(())
    }
}

/// Judges the answer to the exchange of a one-time code: `status_text` is the
/// status as it is printed, `body` what came with it.
pub fn check_exchange(url: &str, status: u16, status_text: &str, body: &str) -> (r: Result<
    (),
    String,
>)
    ensures
        match r {
            Ok(_) => 200 <= status < 300,
            Err(e) => !(200 <= status < 300) && e@ == if status == 404 {
                no_platform(url@, "/platform/cli/exchange"@)
            } else {
                "login exchange failed: "@ + status_text@ + " "@ + body@
            },
        },
{
    if status == 404 {
        Err(no_platform_error(url, "/platform/cli/exchange"))
    } else if 200 <= status && status < 300 {
        Ok(())
    } else {
        let mut out = "login exchange failed: ".to_owned();
        out.append(status_text);
        out.append(" ");
        out.append(body);
        Err(out)
    }
}

/// The warning about a server that the key would reach unencrypted.
pub fn plaintext_warning(url: &str) -> (r: Option<String>)
    ensures
        match r {
            Some(w) => plaintext_remote(url@) && w@ == "Warning: "@ + url@
                + " uses plain http on a non-local host; the API key will travel over the network unencrypted.\n"@,
            None => !plaintext_remote(url@),
        },
{
    if is_plaintext_remote(url) {
        let mut out = "Warning: ".to_owned();
        out.append(url);
        out.append(
            " uses plain http on a non-local host; the API key will travel over the network unencrypted.\n",
        );
        Some(out)
    } else {
        None
    }
}

/// The machine's name in the output of `hostname`, when it gives one.
pub fn hostname_in(output: &[u8]) -> (r: Option<String>)
    ensures
        match r {
            Some(name) => name@ == trimmed(utf8_text(output@)) && name@.len() > 0,
            None => trimmed(utf8_text(output@)).len() == 0,
        },
{
    let text: String = read_utf8(output);
    let chars: Vec<char> = chars_of(text.as_str());
    let name: &[char] = trim(&chars);
    if name.len() > 0 {
        Some(text_of(name))
    } else {
        None
    }
}

/// What is said on success.
pub fn logged_in(url: &str, workspace: Option<&str>) -> (r: String)
    ensures
        r@ == "Logged in to "@ + url@ + match workspace {
            Some(name) => " (workspace: "@ + name@ + ")\n"@,
            None => "\n"@,
        },
{
    broadcast use lemma_concat_assoc;

    let mut out = "Logged in to ".to_owned();
    out.append(url);
    match workspace {
        Some(name) => {
            out.append(" (workspace: ");
            out.append(name);
            out.append(")\n");
        },
        None => out.append("\n"),
    }
    out
}

/// The warning about a variable of the shell that overrides a saved value.
pub open spec fn override_warning(
    name: Seq<char>,
    exported: Seq<char>,
    saved_value: Seq<char>,
) -> Seq<char> {
    if exported.len() > 0 && without_trailing(trimmed(exported), '/') != saved_value {
        "Warning: "@ + name
            + " is set in your environment and overrides the saved value; unset it to use the one from the file.\n"@
    } else {
        Seq::empty()
    }
}

fn push_override(out: &mut String, name: &str, exported: &str, saved_value: &str)
    ensures
        final(out)@ == old(out)@ + override_warning(name@, exported@, saved_value@),
{
    broadcast use {lemma_concat_assoc, lemma_concat_empty};

    let chars: Vec<char> = chars_of(exported);
    let value: &[char] = strip_trailing(trim(&chars), '/');
    if chars.len() > 0 && !same_chars(value, &chars_of(saved_value)) {
        out.append("Warning: ");
        out.append(name);
        out.append(
            " is set in your environment and overrides the saved value; unset it to use the one from the file.\n",
        );
    }
}

/// Tell the user where the credentials went, and warn when the shell
/// environment would silently override them: `VISE_URL` / `VISE_API_TOKEN`
/// exported in the shell take precedence over `~/.vise/.env` in every
/// command, so a stale export would make the login look like it did nothing.
/// A variable that is not exported is given as the empty text.
pub fn report_saved(
    paths: &Paths,
    url: &str,
    token: &str,
    exported_url: &str,
    exported_token: &str,
) -> (r: String)
    ensures
        r@ == "Saved VISE_URL and VISE_API_TOKEN to "@ + path_joined(paths@, ".env"@) + ".\n"@
            + override_warning("VISE_URL"@, exported_url@, url@) + override_warning(
            "VISE_API_TOKEN"@,
            exported_token@,
            token@,
        ),
{
    let mut out = "Saved VISE_URL and VISE_API_TOKEN to ".to_owned();
    out.append(paths.env_file().as_str());
    out.append(".\n");
    push_override(&mut out, "VISE_URL", exported_url, url);
    push_override(&mut out, "VISE_API_TOKEN", exported_token, token);
    out
}

// --- what callers see -----------------------------------------------------------

/// How a byte is written in a query: letters, digits and four marks stand for
/// themselves, and any other is a `%` and two digits, in upper case.
pub open spec fn written_byte(b: u8) -> Seq<char> {
    let c = b as char;
    let digits = "0123456789ABCDEF"@;
    if 'A' <= c <= 'Z' || 'a' <= c <= 'z' || '0' <= c <= '9' || c == '-' || c == '_' || c == '.'
        || c == '~' {
        seq![c]
    } else {
        seq!['%', digits[(b / 16) as int], digits[(b % 16) as int]]
    }
}

proof fn lemma_escaped_concat(a: Seq<u8>, b: Seq<u8>)
    ensures
        escaped_bytes(a + b) == escaped_bytes(a) + escaped_bytes(b),
    decreases a.len(),
{
    if a.len() == 0 {
        assert(a + b =~= b);
        assert(escaped_bytes(a) + escaped_bytes(b) =~= escaped_bytes(b));
    } else {
        lemma_escaped_concat(a.skip(1), b);
        assert((a + b).skip(1) =~= a.skip(1) + b);
        lemma_concat_assoc(escaped_byte(a[0]), escaped_bytes(a.skip(1)), escaped_bytes(b));
    }
}

/// A value is written byte by byte, each in its place.
pub proof fn values_are_written_byte_by_byte(
    value: &str,
    encoded: String,
    before: Seq<u8>,
    b: u8,
    after: Seq<u8>,
)
    requires
        call_ensures(percent_encode, (value,), encoded),
    ensures
        encoded@ == escaped_bytes(encode_utf8(value@)),
        escaped_bytes(before + seq![b] + after) == escaped_bytes(before) + written_byte(b)
            + escaped_bytes(after),
        escaped_bytes(Seq::<u8>::empty()).len() == 0,
{
    reveal_strlit("0123456789ABCDEF");
    lemma_escaped_concat(before + seq![b], after);
    lemma_escaped_concat(before, seq![b]);
    assert(seq![b].skip(1) =~= Seq::<u8>::empty());
    assert(escaped_bytes(Seq::<u8>::empty()) =~= Seq::<char>::empty());
    assert(seq![b][0] == b);
    lemma_concat_empty(escaped_byte(b));
    assert(escaped_bytes(seq![b]) == escaped_byte(b));
    assert(escaped_byte(b) =~= written_byte(b));
}

/// The byte of a hexadecimal digit, in upper or lower case.
pub open spec fn digit_byte(n: int, upper: bool) -> u8 {
    if upper {
        "0123456789ABCDEF"@[n] as u8
    } else {
        "0123456789abcdef"@[n] as u8
    }
}

/// A byte that is a hexadecimal digit.
pub open spec fn is_digit_byte(b: u8) -> bool {
    let c = b as char;
    '0' <= c <= '9' || 'A' <= c <= 'F' || 'a' <= c <= 'f'
}

/// A value is read byte by byte: an escape is its byte, a `+` a blank, and
/// everything else itself, a `%` without its two digits included.
#[verifier::spinoff_prover]
#[verifier::rlimit(40)]
pub proof fn values_are_read_byte_by_byte(
    value: &str,
    decoded: String,
    high: int,
    low: int,
    upper: (bool, bool),
    b: u8,
    rest: Seq<u8>,
)
    requires
        call_ensures(percent_decode, (value,), decoded),
        0 <= high < 16,
        0 <= low < 16,
    ensures
        decoded@ == utf8_text(unescaped_bytes(encode_utf8(value@))),
        unescaped_bytes(
            seq![0x25u8, digit_byte(high, upper.0), digit_byte(low, upper.1)] + rest,
        ) == seq![(16 * high + low) as u8] + unescaped_bytes(rest),
        unescaped_bytes(seq![0x2bu8] + rest) == seq![0x20u8] + unescaped_bytes(rest),
        b != 0x25 && b != 0x2b ==> unescaped_bytes(seq![b] + rest) == seq![b] + unescaped_bytes(
            rest,
        ),
        rest.len() < 2 || !is_digit_byte(rest[0]) || !is_digit_byte(rest[1]) ==> unescaped_bytes(
            seq![0x25u8] + rest,
        ) == seq![0x25u8] + unescaped_bytes(rest),
        unescaped_bytes(Seq::<u8>::empty()).len() == 0,
{
    reveal_strlit("0123456789ABCDEF");
    reveal_strlit("0123456789abcdef");
    let x = digit_byte(high, upper.0);
    let y = digit_byte(low, upper.1);
    assert(hex_value(x) == Some(high as u8));
    assert(hex_value(y) == Some(low as u8));
    let escape = seq![0x25u8, x, y] + rest;
    assert(escape[0] == 0x25 && escape[1] == x && escape[2] == y);
    assert(escape.skip(3) =~= rest);
    assert((seq![0x2bu8] + rest).skip(1) =~= rest);
    assert((seq![b] + rest).skip(1) =~= rest);
    let percent = seq![0x25u8] + rest;
    assert(percent.skip(1) =~= rest);
    if rest.len() >= 2 {
        assert(percent[1] == rest[0] && percent[2] == rest[1]);
    }
}

/// Whatever value is encoded, decoding gives it back.
pub proof fn decoding_undoes_encoding(
    value: &str,
    encoded: String,
    written: &str,
    decoded: String,
)
    requires
        call_ensures(percent_encode, (value,), encoded),
        written@ == encoded@,
        call_ensures(percent_decode, (written,), decoded),
    ensures
        decoded@ == value@,
{
    percent_coding_round_trip(value@);
}

/// A redirect to the callback is taken for its code when it carries the
/// expected state, for a broken one when its code is empty, and for a stray
/// request when it carries another state.
pub proof fn redirects_are_told_apart(
    line: &str,
    expected: &str,
    r: Callback,
    method: Seq<char>,
    code: Seq<char>,
    state: Seq<char>,
    version: Seq<char>,
)
    requires
        call_ensures(parse_callback, (line, expected), r),
        method.len() > 0,
        forall|i: int| 0 <= i < method.len() ==> !is_white(#[trigger] method[i]),
        line@ == method + seq![' '] + callback_target(code, state) + seq![' '] + version,
    ensures
        state != expected@ ==> r is Stray,
        state == expected@ && code.len() == 0 ==> r is Broken,
        state == expected@ && code.len() > 0 ==> (r matches Callback::Code(c) && c@ == code),
{
    lemma_redirect(method, code, state, version, expected@);
}

/// A request for anything but the callback is stray, whatever it carries, and
/// so is one without a target.
pub proof fn other_requests_are_stray(
    line: &str,
    expected: &str,
    r: Callback,
    method: Seq<char>,
    target: Seq<char>,
    version: Seq<char>,
)
    requires
        call_ensures(parse_callback, (line, expected), r),
        method.len() > 0,
        forall|i: int| 0 <= i < method.len() ==> !is_white(#[trigger] method[i]),
        target.len() > 0,
        forall|i: int| 0 <= i < target.len() ==> !is_white(#[trigger] target[i]),
    ensures
        line@ == method + seq![' '] + target + seq![' '] + version ==> {
            &&& target != "/callback"@ && !starts(target, "/callback?"@) ==> r is Stray
            &&& target == "/callback"@ ==> r is Stray
        },
        line@ == method ==> r is Stray,
{
    reveal_strlit("/callback");
    reveal_strlit("/callback?");
    if line@ == method + seq![' '] + target + seq![' '] + version {
        lemma_second_word(method, target, version);
        cutting_at_the_first(target, '?');
        if let Some((path, query)) = split_pair(target, '?') {
            if path == "/callback"@ {
                assert(target.take(10) =~= "/callback?"@);
            }
        }
        if target == "/callback"@ {
            assert(!target.contains('?'));
            if let Some((path, query)) = split_pair(target, '?') {
                assert(target[path.len() as int] == '?');
            }
            let none = Seq::<char>::empty();
            lemma_fields_one(none, '&');
            let pairs = fields(none, '&');
            lemma_split_nothing();
            assert(pairs =~= seq![none]);
            assert(pairs.last() == none);
            assert(parameter(pairs.drop_last(), "state"@) is None);
            assert(parameter(pairs, "state"@) is None);
        }
    }
    if line@ == method {
        assert(!is_white(method[0]));
        lemma_word_len(method, method.len() as int);
        assert(method.skip(method.len() as int) =~= Seq::<char>::empty());
    }
}

proof fn lemma_split_nothing()
    ensures
        split_pair(Seq::<char>::empty(), '=') is None,
{
}

/// Of two parameters with one name the last counts, and parameters with other
/// names do not.
pub proof fn the_last_parameter_counts(
    pairs: Seq<Seq<char>>,
    name: Seq<char>,
    key: Seq<char>,
    value: Seq<char>,
)
    requires
        !key.contains('='),
    ensures
        parameter(pairs.push(key + seq!['='] + value), name) == if key == name {
            Some(unescaped(value))
        } else {
            parameter(pairs, name)
        },
{
    lemma_split_pair(key, '=', value);
    assert(pairs.push(key + seq!['='] + value).drop_last() =~= pairs);
}

/// A key is accepted, without the white space around it, when it begins with
/// `vk_`, is all visible ASCII and does not end with a quote.
pub proof fn keys_are_accepted_as_pasted(
    raw: &str,
    r: Result<&str, TokenError>,
    a: Seq<char>,
    key: Seq<char>,
    b: Seq<char>,
)
    requires
        call_ensures(check_token, (raw,), r),
        raw@ == a + key + b,
        all_white(a),
        all_white(b),
        key.len() > 0,
        !is_white(key[0]),
        !is_white(key.last()),
    ensures
        !starts(key, "vk_"@) ==> (r matches Err(e) && e is NotAKey),
        starts(key, "vk_"@) ==> ({
            let storable = (forall|i: int|
                0 <= i < key.len() ==> '!' <= #[trigger] key[i] && key[i] <= '~') && key.last()
                != '"' && key.last() != '\'';
            &&& storable ==> (r matches Ok(t) && t@ == key)
            &&& !storable ==> (r matches Err(e) && e is Unstorable)
        }),
{
    trimming_finds_the_text(a, key, b);
    if exists|i: int| 0 <= i < key.len() && !is_graphic(#[trigger] key[i]) {
        let i = choose|i: int| 0 <= i < key.len() && !is_graphic(#[trigger] key[i]);
        assert(!('!' <= key[i] && key[i] <= '~'));
    } else {
        assert forall|i: int| 0 <= i < key.len() implies '!' <= #[trigger] key[i] && key[i]
            <= '~' by {
            assert(is_graphic(key[i]));
        }
    }
}

/// The browser is sent to the server's page with the port, the state and, when
/// it is known, the machine's name, the last two encoded.
pub proof fn browsers_are_sent_with_port_and_state(
    url: &str,
    port: u16,
    state: &str,
    written_state: String,
    name: &str,
    written_name: String,
    plain: String,
    named: String,
)
    requires
        call_ensures(percent_encode, (state,), written_state),
        call_ensures(percent_encode, (name,), written_name),
        call_ensures(authorize_url, (url, port, state, None::<&str>), plain),
        call_ensures(authorize_url, (url, port, state, Some(name)), named),
    ensures
        plain@ == url@ + "/platform/cli/authorize?port="@ + decimal(port as nat) + "&state="@
            + written_state@,
        named@ == plain@ + "&hostname="@ + written_name@,
{
    let text = url@ + "/platform/cli/authorize?port="@ + decimal(port as nat) + "&state="@
        + written_state@;
    lemma_concat_empty(text);
    lemma_concat_assoc(text, "&hostname="@, written_name@);
}

proof fn lemma_behind_last(front: Seq<char>, back: Seq<char>, c: char)
    requires
        front.len() == 0 || front.last() == c,
        !back.contains(c),
    ensures
        behind_last(front + back, c) == back,
    decreases back.len(),
{
    let s = front + back;
    if back.len() == 0 {
        assert(s =~= front);
        assert(back =~= Seq::<char>::empty());
    } else {
        assert(s.last() == back[back.len() - 1]);
        assert(s.drop_last() =~= front + back.drop_last());
        assert(!back.drop_last().contains(c)) by {
            if back.drop_last().contains(c) {
                let i = choose|i: int|
                    0 <= i < back.drop_last().len() && back.drop_last()[i] == c;
                assert(back[i] == c);
            }
        }
        lemma_behind_last(front, back.drop_last(), c);
        assert(back.drop_last().push(back.last()) =~= back);
    }
}

/// A stretch of a URL that ends its authority: nothing, or a path, a query or
/// a fragment.
pub open spec fn ends_authority(tail: Seq<char>) -> bool {
    tail.len() == 0 || tail[0] == '/' || tail[0] == '?' || tail[0] == '#'
}

/// Text that can stand within an authority.
pub open spec fn within_authority(s: Seq<char>) -> bool {
    !s.contains('/') && !s.contains('?') && !s.contains('#')
}

proof fn lemma_authority(authority: Seq<char>, tail: Seq<char>)
    requires
        within_authority(authority),
        ends_authority(tail),
    ensures
        authority_of(authority + tail) == authority,
{
    let rest = authority + tail;
    let n = authority.len() as int;
    lemma_first_index(rest, '/');
    lemma_first_index(rest, '?');
    lemma_first_index(rest, '#');
    let end = smaller(
        first_index(rest, '/'),
        smaller(first_index(rest, '?'), first_index(rest, '#')),
    );
    if end < n {
        assert(rest[end] == authority[end]);
        assert(authority.contains(authority[end]));
    }
    if end > n {
        assert(rest[n] == tail[0]);
    }
    assert(rest.take(n) =~= authority);
}

proof fn lemma_up_to(s: Seq<char>, tail: Seq<char>, c: char)
    requires
        !s.contains(c),
        tail.len() == 0 || tail[0] == c,
    ensures
        (s + tail).take(first_index(s + tail, c)) == s,
{
    let whole = s + tail;
    let n = s.len() as int;
    assert forall|j: int| 0 <= j < n implies #[trigger] whole[j] != c by {
        assert(whole[j] == s[j]);
    }
    lemma_first_index_is(whole, c, n);
    assert(whole.take(n) =~= s);
}

/// A URL is plain http to another machine when it begins with `http://` and
/// its host, apart from user information, port and path, is neither
/// `localhost` in any case nor a loopback address.
#[verifier::spinoff_prover]
#[verifier::rlimit(40)]
pub proof fn plain_http_to_others_is_told(
    url: &str,
    r: bool,
    user: Seq<char>,
    host: Seq<char>,
    port: Seq<char>,
    tail: Seq<char>,
)
    requires
        call_ensures(is_plaintext_remote, (url,), r),
        user.len() == 0 || user.last() == '@',
        within_authority(user),
        within_authority(host),
        within_authority(port),
        !host.contains('@') && !host.contains(':') && !host.contains('[') && !host.contains(']'),
        !port.contains('@'),
        port.len() == 0 || port[0] == ':',
        ends_authority(tail),
    ensures
        !starts(url@, "http://"@) ==> !r,
        url@ == "http://"@ + (user + (host + port) + tail) ==> (r <==> !(lowered(host)
            == "localhost"@ || host == "127.0.0.1"@)),
{
    reveal_strlit("[");
    reveal_strlit("::1");
    if url@ == "http://"@ + (user + (host + port) + tail) {
        let hp = host + port;
        prefixes_come_off(url@, "http://"@, user + hp + tail);
        lemma_within(host, port);
        lemma_within(user, hp);
        lemma_authority(user + hp, tail);
        lemma_not_in(host, port, '@');
        lemma_behind_last(user, hp, '@');
        assert(!starts(hp, "["@)) by {
            if starts(hp, "["@) {
                assert(hp.take(1)[0] == '[');
                if host.len() > 0 {
                    assert(hp[0] == host[0]);
                    assert(host.contains('['));
                }
            }
        }
        lemma_up_to(host, port, ':');
        assert(host != "::1"@) by {
            if host == "::1"@ {
                assert(host[0] == ':');
            }
        }
    }
}

/// The same holds of an address in brackets, where the loopback address of the
/// newer protocol is this machine too.
#[verifier::spinoff_prover]
#[verifier::rlimit(40)]
pub proof fn bracketed_addresses_are_told(
    url: &str,
    r: bool,
    user: Seq<char>,
    address: Seq<char>,
    port: Seq<char>,
    tail: Seq<char>,
)
    requires
        call_ensures(is_plaintext_remote, (url,), r),
        user.len() == 0 || user.last() == '@',
        within_authority(user),
        within_authority(address),
        within_authority(port),
        !address.contains('@') && !address.contains(']'),
        !port.contains('@'),
        ends_authority(tail),
        url@ == "http://"@ + (user + (seq!['['] + address + seq![']'] + port) + tail),
    ensures
        r <==> !(address == "::1"@ || lowered(address) == "localhost"@ || address == "127.0.0.1"@),
{
    reveal_strlit("[");
    let hp = seq!['['] + address + seq![']'] + port;
    let inner = address + (seq![']'] + port);
    prefixes_come_off(url@, "http://"@, user + hp + tail);
    lemma_within(seq!['['], address);
    lemma_within(seq!['['] + address, seq![']']);
    lemma_within(seq!['['] + address + seq![']'], port);
    lemma_within(user, hp);
    lemma_authority(user + hp, tail);
    lemma_not_in(seq!['['], address, '@');
    lemma_not_in(seq!['['] + address, seq![']'], '@');
    lemma_not_in(seq!['['] + address + seq![']'], port, '@');
    lemma_behind_last(user, hp, '@');
    assert("["@ =~= seq!['[']);
    assert(hp =~= "["@ + inner);
    prefixes_come_off(hp, "["@, inner);
    lemma_up_to(address, seq![']'] + port, ']');
}

proof fn lemma_within(a: Seq<char>, b: Seq<char>)
    requires
        within_authority(a),
        within_authority(b),
    ensures
        within_authority(a + b),
{
    lemma_not_in(a, b, '/');
    lemma_not_in(a, b, '?');
    lemma_not_in(a, b, '#');
}

proof fn lemma_not_in(a: Seq<char>, b: Seq<char>, c: char)
    requires
        !a.contains(c),
        !b.contains(c),
    ensures
        !(a + b).contains(c),
{
    if (a + b).contains(c) {
        let i = choose|i: int| 0 <= i < (a + b).len() && (a + b)[i] == c;
        if i < a.len() {
            assert(a[i] == c);
        } else {
            assert(b[i - a.len()] == c);
        }
    }
}

/// A request's head is complete once two line ends follow one another anywhere
/// in it; a longer one than sixteen kibibytes without them is given up.
pub proof fn heads_end_with_a_blank_line(buffer: &[u8], r: HeadStep, i: int)
    requires
        call_ensures(head_step, (buffer,), r),
    ensures
        0 <= i && i + 4 <= buffer@.len() && buffer@[i] == 13 && buffer@[i + 1] == 10 && buffer@[i
            + 2] == 13 && buffer@[i + 3] == 10 ==> r is Complete,
        r is Complete ==> exists|j: int|
            0 <= j && j + 4 <= buffer@.len() && #[trigger] buffer@[j] == 13 && buffer@[j + 1] == 10
                && buffer@[j + 2] == 13 && buffer@[j + 3] == 10,
        r is Oversized ==> buffer@.len() > 16384,
        r is ReadOn ==> buffer@.len() <= 16384,
{
    if 0 <= i && i + 4 <= buffer@.len() && buffer@[i] == 13 && buffer@[i + 1] == 10 && buffer@[i
        + 2] == 13 && buffer@[i + 3] == 10 {
        assert(buffer@.subrange(i, i + 4) =~= head_end());
        assert(occurs_at(buffer@, head_end(), i));
    }
    if head_complete(buffer@) {
        let j = choose|j: int| #[trigger] occurs_at(buffer@, head_end(), j);
        let part = buffer@.subrange(j, j + 4);
        assert(part[0] == buffer@[j] && part[1] == buffer@[j + 1] && part[2] == buffer@[j + 2]
            && part[3] == buffer@[j + 3]);
        assert(part[0] == 13 && part[1] == 10 && part[2] == 13 && part[3] == 10);
    }
}

/// The request line is the first line of what was read.
pub proof fn the_first_line_is_the_request(buffer: &[u8], r: Option<String>)
    requires
        call_ensures(request_line, (buffer,), r),
    ensures
        r is Some <==> lines_of(utf8_text(buffer@)).len() > 0,
        r matches Some(line) ==> line@ == lines_of(utf8_text(buffer@))[0],
{
}

/// A browser is answered with a page that says the message, of the length that
/// is announced, and the connection closes.
pub proof fn answers_announce_their_length(status: &str, message: &str, r: String)
    requires
        call_ensures(respond, (status, message), r),
    ensures
        ({
            let body =
                "<!doctype html><meta charset=\"utf-8\"><title>vise</title><body style=\"font-family:system-ui;margin:20vh auto;max-width:28rem;text-align:center\"><p>"@
                + message@ + "</p></body>"@;
            r@ == "HTTP/1.1 "@ + status@
                + "\r\nContent-Type: text/html; charset=utf-8\r\nContent-Length: "@ + decimal(
                encode_utf8(body).len(),
            ) + "\r\nConnection: close\r\n\r\n"@ + body
        }),
{
}

/// The listener answers by what a request turned out to be: the code ends the
/// wait with a 200, a broken redirect fails the login with a 400, and a stray
/// request gets a 404 and changes nothing, as a silent one does.
pub proof fn requests_are_served_as_what_they_are(
    line: &str,
    expected: &str,
    kind: Callback,
    r: ListenStep,
    silent: ListenStep,
    done: String,
    broken: String,
    stray: String,
)
    requires
        call_ensures(parse_callback, (line, expected), kind),
        call_ensures(serve_callback, (Some(line), expected), r),
        call_ensures(serve_callback, (None::<&str>, expected), silent),
        call_ensures(
            respond,
            (
                "200 OK",
                "vise login complete - you can close this tab and return to your terminal.",
            ),
            done,
        ),
        call_ensures(
            respond,
            ("400 Bad Request", "vise login failed - return to your terminal."),
            broken,
        ),
        call_ensures(respond, ("404 Not Found", "not found"), stray),
    ensures
        silent is Ignore,
        match kind {
            Callback::Code(c) => r matches ListenStep::Done { answer, code } && code@ == c@
                && answer@ == done@,
            Callback::Broken => r matches ListenStep::Fail { answer, error } && answer@ == broken@
                && error@ == "the login callback carried no code"@,
            Callback::Stray => r matches ListenStep::Answer(answer) && answer@ == stray@,
        },
{
}

/// Upserting a line leaves a file from which its key reads as the value and
/// every other key as before.
pub proof fn upserted_files_read_back(
    contents: &str,
    key: &str,
    value: &str,
    result: String,
    before: EnvVars,
    written: &str,
    after: EnvVars,
    other: &str,
    had: Option<&str>,
    has: Option<&str>,
)
    requires
        plain_key(key@),
        plain_value(value@),
        call_ensures(upsert_env_line, (contents, key, value), result),
        call_ensures(parse_env, (contents,), before),
        written@ == result@,
        call_ensures(parse_env, (written,), after),
        call_ensures(EnvVars::get, (&before, other), had),
        call_ensures(EnvVars::get, (&after, other), has),
    ensures
        other@ == key@ ==> (has matches Some(v) && v@ == value@),
        other@ != key@ ==> (has is Some <==> had is Some),
        other@ != key@ ==> (has matches Some(v) ==> v@ == had->0@),
{
    upsert_sets_the_key(contents@, key@, value@);
}

/// Upserting a line puts it where the key was first set, with its `export `
/// when it had one, and takes out every later line that sets the key; a key
/// that no line sets comes last. All other lines stay as they are.
#[verifier::spinoff_prover]
#[verifier::rlimit(40)]
pub proof fn upserts_replace_the_first_setting(
    contents: &str,
    key: &str,
    value: &str,
    result: String,
    at: int,
)
    requires
        plain_key(key@),
        call_ensures(upsert_env_line, (contents, key, value), result),
        ({
            let lines = lines_of(contents@);
            &&& 0 <= at <= lines.len()
            &&& at < lines.len() ==> reads_as(lines[at], key@)
            &&& forall|j: int| 0 <= j < at ==> !reads_as(#[trigger] lines[j], key@)
        }),
    ensures
        ({
            let lines = lines_of(contents@);
            result@ == if at < lines.len() {
                terminated(
                    lines.take(at).push(
                        (if starts(trimmed_start(lines[at]), "export "@) {
                            "export "@
                        } else {
                            Seq::empty()
                        }) + key@ + "="@ + value@,
                    ) + lines.skip(at + 1).filter(|line: Seq<char>| !reads_as(line, key@)),
                )
            } else {
                terminated(lines.push(key@ + "="@ + value@))
            }
        }),
{
    let lines = lines_of(contents@);
    lemma_first_setting(lines, key@);
    let first = first_setting(lines, key@);
    assert(first == at) by {
        if first < at {
            lemma_sets_is(lines[first], key@);
        }
        if at < first {
            lemma_sets_is(lines[at], key@);
        }
    }
    let a = |line: Seq<char>| !reads_as(line, key@);
    let b = |line: Seq<char>| !sets(line, key@);
    assert forall|line: Seq<char>| #[trigger] a(line) == b(line) by {
        lemma_sets_is(line, key@);
    }
    assert(a =~= b);
}

/// The file reader takes the line as setting the key.
pub open spec fn reads_as(line: Seq<char>, key: Seq<char>) -> bool {
    assignment(line) matches Some((k, _)) && k == key
}

/// A login saves the server's address and the key, one after the other, into
/// the file that is there or into a new one.
pub proof fn logins_save_server_and_key(
    existing: Option<&str>,
    url: &str,
    token: &str,
    r: String,
    contents: &str,
    first: String,
    middle: &str,
    second: String,
)
    requires
        call_ensures(save_credentials, (existing, url, token), r),
        contents@ == (match existing {
            Some(text) => text@,
            None => Seq::empty(),
        }),
        call_ensures(upsert_env_line, (contents, "VISE_URL", url), first),
        middle@ == first@,
        call_ensures(upsert_env_line, (middle, "VISE_API_TOKEN", token), second),
    ensures
        r@ == second@,
{
}

/// The new file is written beside the old one, under a name of the process's
/// own.
pub proof fn new_files_are_written_beside(
    paths: &Paths,
    pid: u32,
    r: String,
)
    requires
        call_ensures(temp_env_file, (paths, pid), r),
        paths@.len() > 0,
    ensures
        r@ == (if paths@.last() == '/' {
            paths@
        } else {
            paths@ + "/"@
        }) + (".env."@ + decimal(pid as nat) + ".tmp"@),
{
}

/// A server's address is used without the slashes at its end, and with
/// everything before them.
pub proof fn addresses_lose_their_last_slashes(url: &str, r: String)
    requires
        call_ensures(base_url, (url,), r),
    ensures
        r@.len() <= url@.len(),
        r@ == url@.take(r@.len() as int),
        r@.len() > 0 ==> r@.last() != '/',
        forall|i: int| r@.len() <= i < url@.len() ==> #[trigger] url@[i] == '/',
{
    lemma_without_trailing(url@, '/');
}

/// A 404 of the server says that it has no browser login. Its page may answer
/// anything else; the exchange must answer with a 2xx.
pub proof fn servers_are_judged_by_their_status(
    url: &str,
    status: u16,
    text: &str,
    body: &str,
    page: Result<(), String>,
    exchange: Result<(), String>,
)
    requires
        call_ensures(check_platform, (url, status), page),
        call_ensures(check_exchange, (url, status, text, body), exchange),
    ensures
        status == 404 ==> (page matches Err(e) && e@ == url@ + " has no "@
            + "/platform/cli/authorize"@
            + " endpoint — this looks like a self-hosted (OSS) server, which has no browser login. Set VISE_API_TOKEN in ~/.vise/.env to the server's token instead."@),
        status == 404 ==> (exchange matches Err(e) && e@ == url@ + " has no "@
            + "/platform/cli/exchange"@
            + " endpoint — this looks like a self-hosted (OSS) server, which has no browser login. Set VISE_API_TOKEN in ~/.vise/.env to the server's token instead."@),
        status != 404 ==> page is Ok,
        200 <= status <= 299 ==> exchange is Ok,
        status != 404 && (status < 200 || status > 299) ==> (exchange matches Err(e) && e@
            == "login exchange failed: "@ + text@ + " "@ + body@),
{
}

/// What the user is told: a warning exactly when the key would travel
/// unencrypted, the server and workspace on success, the machine's name as the
/// system gives it.
pub proof fn users_are_told(
    url: &str,
    unencrypted: bool,
    warning: Option<String>,
    workspace: &str,
    named: String,
    unnamed: String,
    output: &[u8],
    hostname: Option<String>,
)
    requires
        call_ensures(is_plaintext_remote, (url,), unencrypted),
        call_ensures(plaintext_warning, (url,), warning),
        call_ensures(logged_in, (url, Some(workspace)), named),
        call_ensures(logged_in, (url, None::<&str>), unnamed),
        call_ensures(hostname_in, (output,), hostname),
    ensures
        warning is Some <==> unencrypted,
        warning matches Some(w) ==> w@ == "Warning: "@ + url@
            + " uses plain http on a non-local host; the API key will travel over the network unencrypted.\n"@,
        named@ == "Logged in to "@ + url@ + (" (workspace: "@ + workspace@ + ")\n"@),
        unnamed@ == "Logged in to "@ + url@ + "\n"@,
        hostname is Some <==> trimmed(utf8_text(output@)).len() > 0,
        hostname matches Some(name) ==> name@ == trimmed(utf8_text(output@)),
{
}

/// The user is told where the credentials went, and is warned of each variable
/// of the shell that is not empty and says otherwise, white space around it and
/// slashes at its end aside.
#[verifier::spinoff_prover]
#[verifier::rlimit(40)]
pub proof fn overriding_variables_are_warned_of(
    paths: &Paths,
    env_file: String,
    url: &str,
    token: &str,
    exported_url: &str,
    exported_token: &str,
    r: String,
)
    requires
        call_ensures(Paths::env_file, (paths,), env_file),
        call_ensures(report_saved, (paths, url, token, exported_url, exported_token), r),
    ensures
        ({
            let url_differs = exported_url@.len() > 0 && without_trailing(
                trimmed(exported_url@),
                '/',
            ) != url@;
            let token_differs = exported_token@.len() > 0 && without_trailing(
                trimmed(exported_token@),
                '/',
            ) != token@;
            let rest =
                " is set in your environment and overrides the saved value; unset it to use the one from the file.\n"@;
            r@ == "Saved VISE_URL and VISE_API_TOKEN to "@ + env_file@ + ".\n"@ + (if url_differs {
                "Warning: "@ + "VISE_URL"@ + rest
            } else {
                Seq::empty()
            }) + (if token_differs {
                "Warning: "@ + "VISE_API_TOKEN"@ + rest
            } else {
                Seq::empty()
            })
        }),
{
}

/// What is said of a key that is not accepted.
pub proof fn refused_keys_are_explained(error: &TokenError, r: &'static str)
    requires
        call_ensures(TokenError::message, (error,), r),
    ensures
        *error is NotAKey ==> r@ == "that does not look like a vise API key (expected vk_...)"@,
        *error is Unstorable ==> r@
            == "the API key contains characters that cannot be stored in .env"@,
{
}

/// A browser has five minutes, a call to the server half a minute, and a
/// connection five seconds.
pub proof fn logins_are_waited_for()
    ensures
        CALLBACK_TIMEOUT_SECS == 5 * 60,
        2 * HTTP_TIMEOUT_SECS == 60,
        REQUEST_TIMEOUT_SECS == 5,
{
}

} // verus!
