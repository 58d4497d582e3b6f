//! Provider responses: parsing receipt-bearing chat responses
//! (`multipart/mixed` with a JSON part and a binary `VIRC` receipt part),
//! degraded `Warning: 199` responses, and the classification of endpoint and
//! transport failures.

use vstd::prelude::*;
use vstd::slice::{slice_subrange, slice_to_vec};
use vstd::utf8::{decode_utf8, encode_utf8, valid_utf8};

use crate::audit_binding::{AuditChallenge, AuditChallengeView};
use crate::errors::{NetworkErrorKind, ViError, ViErrorView};
use crate::text::{
    chars_eq_ignore_case, chars_lower_starts_with, chars_to_string, eq_ignore_case,
    find_char, find_char_index, lower, split_once, starts_with, str_chars, strip_char,
    strip_char_chars, trim, trim_chars, trim_start, utf8_str,
};

verus! {

/// Environment variable containing the provider bearer token.
pub const API_KEY_ENV: &'static str = "VI_API_KEY";

/// Trace header propagated to provider chat and audit calls.
pub const TRACE_HEADER: &'static str = "X-Verifiable-Intelligence-Trace";

/// Receipt opt-in header.
pub const RECEIPT_HEADER: &'static str = "X-Verifiable-Receipt";

/// Provider chat-completions path.
pub const CHAT_COMPLETIONS_PATH: &'static str = "/v1/chat/completions";

/// Provider audit path.
pub const AUDIT_PATH: &'static str = "/v1/audit";

/// Content type of the binary receipt part.
pub const RECEIPT_CONTENT_TYPE: &'static str = "application/vnd.verifiable-intelligence.receipt+binary";

/// Content type of receipt-bearing chat responses.
pub const MULTIPART_MIXED: &'static str = "multipart/mixed";

/// JSON request body for `POST /v1/audit`.
#[derive(Debug, Clone, PartialEq, Eq)]
pub struct AuditRequest {
    /// Hash of the `VIRC` receipt being challenged.
    pub receipt_hash: String,
    /// Verifier-selected audit challenge.
    pub challenge: AuditChallenge,
}

impl AuditRequest {
    /// Construct an audit request from a receipt hash and verifier challenge.
    pub fn new(receipt_hash: &str, challenge: AuditChallenge) -> (r: AuditRequest)
        ensures
            r.receipt_hash@ == receipt_hash@,
            r.challenge == challenge,
    {
        AuditRequest { receipt_hash: receipt_hash.to_owned(), challenge }
    }
}

/// Raw chat-completions response handed to [`parse_chat_response`].
#[derive(Debug, Clone, PartialEq, Eq)]
pub struct ChatResponse {
    /// HTTP status code.
    pub status: u16,
    /// Endpoint URL that produced this response.
    pub endpoint: String,
    /// Response content type, when present.
    pub content_type: Option<String>,
    /// Degraded provider warning, when present.
    pub warning: Option<String>,
    /// Raw response bytes.
    pub body: Vec<u8>,
}

/// Raw `POST /v1/audit` response containing a `VIAU` envelope body.
#[derive(Debug, Clone, PartialEq, Eq)]
pub struct AuditResponse {
    /// HTTP status code.
    pub status: u16,
    /// Endpoint URL that produced this response.
    pub endpoint: String,
    /// Response content type, when present.
    pub content_type: Option<String>,
    /// Raw `VIAU` envelope bytes.
    pub body: Vec<u8>,
}

/// Parsed chat response with optional receipt bytes for degraded responses.
#[derive(Debug, Clone, PartialEq, Eq)]
pub struct ParsedChatResponse {
    /// Assistant text from the chat-completion JSON.
    pub text: String,
    /// Binary `VIRC` receipt bytes, absent only for degraded `Warning: 199` responses.
    pub receipt_bytes: Option<Vec<u8>>,
    /// Degraded provider warning, when present.
    pub warning: Option<String>,
}

/// Abstract value of a [`ParsedChatResponse`].
pub struct ParsedChatView {
    pub text: Seq<char>,
    pub receipt_bytes: Option<Seq<u8>>,
    pub warning: Option<Seq<char>>,
}

impl View for ParsedChatResponse {
    type V = ParsedChatView;

    open spec fn view(&self) -> ParsedChatView {
        ParsedChatView {
            text: self.text@,
            receipt_bytes: match self.receipt_bytes {
                Some(b) => Some(b@),
                None => None,
            },
            warning: crate::errors::opt_str_view(self.warning),
        }
    }
}

// ----------------------------------------------------------------------------
// The chat-completion JSON.

/// What the JSON document in `bytes` holds at `choices[0].message.content`:
/// `None` when the bytes are not JSON, `Some(None)` when that place holds
/// no string, and `Some(Some(text))` otherwise.
pub uninterp spec fn chat_message_content(bytes: Seq<u8>) -> Option<Option<Seq<char>>>;

/// View of a nested optional string.
pub open spec fn opt_opt_view(o: Option<Option<String>>) -> Option<Option<Seq<char>>> {
    match o {
        Some(Some(s)) => Some(Some(s@)),
        Some(None) => Some(None),
        None => None,
    }
}

/// Read `choices[0].message.content` of a chat-completion JSON document with
/// `serde_json`.
///
/// Trusted: `serde_json::from_slice::<Value>` parses the bytes, and the
/// `Value::get`, `as_array`, `first` and `as_str` accessors select the place;
/// the result depends on the bytes alone and is given a name, nothing more is
/// claimed of it.
#[verifier::external_body]
fn json_message_content(bytes: &[u8]) -> (r: Option<Option<String>>)
    ensures
        opt_opt_view(r) == chat_message_content(bytes@),
{
    let value: serde_json::Value = serde_json::from_slice(bytes).ok()?;
    Some(
        value.get("choices").and_then(serde_json::Value::as_array).and_then(|c| c.first()).and_then(
            |c| c.get("message"),
        ).and_then(|m| m.get("content")).and_then(serde_json::Value::as_str).map(str::to_owned),
    )
}

/// The `CorruptEnvelope` error of the multipart parser.
pub open spec fn corrupt_multipart(offset: int, reason: Seq<char>) -> ViErrorView {
    ViErrorView::CorruptEnvelope { envelope: "multipart/mixed"@, offset: offset as usize, reason }
}

fn corrupt_multipart_error(offset: usize, reason: &'static str) -> (e: ViError)
    ensures
        e@ == corrupt_multipart(offset as int, reason@),
{
    ViError::CorruptEnvelope { envelope: "multipart/mixed", offset, reason }
}

/// The assistant text of a chat completion, given what its JSON holds at
/// `choices[0].message.content`.
pub open spec fn chat_text_result(content: Option<Option<Seq<char>>>) -> Result<Seq<char>, ViErrorView> {
    match content {
        None => Err(corrupt_multipart(0, "chat-completion JSON is malformed"@)),
        Some(None) => Err(corrupt_multipart(0, "chat-completion JSON missing message content"@)),
        Some(Some(text)) => Ok(text),
    }
}

/// The assistant text of a chat completion, given what its JSON document holds
/// at `choices[0].message.content` (`None` when the document is malformed).
pub fn chat_text_from_content(content: Option<Option<String>>) -> (r: Result<String, ViError>)
    ensures
        crate::errors::outcome(r) == chat_text_result(opt_opt_view(content)),
{
    match content {
        None => Err(corrupt_multipart_error(0, "chat-completion JSON is malformed")),
        Some(None) => Err(corrupt_multipart_error(0, "chat-completion JSON missing message content")),
        Some(Some(text)) => Ok(text),
    }
}

fn chat_text_from_json(bytes: &[u8]) -> (r: Result<String, ViError>)
    ensures
        crate::errors::outcome(r) == chat_text_result(chat_message_content(bytes@)),
{
    chat_text_from_content(json_message_content(bytes))
}

// ----------------------------------------------------------------------------
// The boundary parameter of a multipart content type.

/// The boundary that one `;`-separated parameter names: `None` when it is not
/// a `boundary=` parameter.
pub open spec fn param_boundary(param: Seq<char>) -> Option<Result<Seq<char>, ViErrorView>> {
    match split_once(trim(param), '=') {
        None => None,
        Some((name, value)) => if eq_ignore_case(trim(name), "boundary"@) {
            let b = strip_char(trim(value), '"');
            Some(
                if b.len() == 0 {
                    Err(corrupt_multipart(0, "multipart boundary is empty"@))
                } else {
                    Ok(b)
                },
            )
        } else {
            None
        },
    }
}

/// The boundary named by the parameters in `rest`, the text after a `;`.
pub open spec fn boundary_from(rest: Seq<char>) -> Result<Seq<char>, ViErrorView>
    decreases rest.len(),
{
    let param = match find_char(rest, ';') {
        Some(i) => rest.subrange(0, i),
        None => rest,
    };
    match param_boundary(param) {
        Some(r) => r,
        None => match find_char(rest, ';') {
            Some(i) => if 0 <= i < rest.len() {
                boundary_from(rest.subrange(i + 1, rest.len() as int))
            } else {
                Err(corrupt_multipart(0, "multipart content-type missing boundary"@))
            },
            None => Err(corrupt_multipart(0, "multipart content-type missing boundary"@)),
        },
    }
}

/// The boundary of a multipart content type.
pub open spec fn multipart_boundary_of(content_type: Seq<char>) -> Result<Seq<char>, ViErrorView> {
    match find_char(content_type, ';') {
        Some(i) => boundary_from(content_type.subrange(i + 1, content_type.len() as int)),
        None => Err(corrupt_multipart(0, "multipart content-type missing boundary"@)),
    }
}

proof fn lemma_find_char_bounds(s: Seq<char>, c: char)
    ensures
        find_char(s, c) matches Some(i) ==> 0 <= i < s.len() && s[i] == c && forall|j: int|
            0 <= j < i ==> s[j] != c,
{
    if exists|i: int| 0 <= i < s.len() && s[i] == c {
        let w = choose|i: int| 0 <= i < s.len() && s[i] == c;
        // the first occurrence exists
        let mut k = w;
        assert(exists|k: int| 0 <= k < s.len() && s[k] == c && forall|j: int| 0 <= j < k ==> s[j] != c) by {
            lemma_first_occurrence(s, c, w);
        }
    }
}

proof fn lemma_first_occurrence(s: Seq<char>, c: char, w: int)
    requires
        0 <= w < s.len(),
        s[w] == c,
    ensures
        exists|k: int| 0 <= k < s.len() && s[k] == c && forall|j: int| 0 <= j < k ==> s[j] != c,
    decreases w,
{
    if exists|j: int| 0 <= j < w && s[j] == c {
        let j = choose|j: int| 0 <= j < w && s[j] == c;
        lemma_first_occurrence(s, c, j);
    } else {
        assert(forall|j: int| 0 <= j < w ==> s[j] != c);
    }
}

fn param_boundary_exec(param: &[char]) -> (r: Option<Result<String, ViError>>)
    ensures
        match param_boundary(param@) {
            None => r is None,
            Some(Ok(b)) => r matches Some(Ok(s)) && s@ == b,
            Some(Err(e)) => r matches Some(Err(x)) && x@ == e,
        },
{
    let t = trim_chars(param);
    let eq = match find_char_index(t, '=') {
        Some(i) => i,
        None => return None,
    };
    proof {
        lemma_find_char_bounds(t@, '=');
        assert(find_char(t@, '=') == Some(eq as int));
        assert(eq < t@.len());
    }
    let tlen = t.len();
    let name = trim_chars(slice_subrange(t, 0, eq));
    let value = slice_subrange(t, eq + 1, tlen);
    let key = str_chars("boundary");
    if !chars_eq_ignore_case(name, key.as_slice()) {
        return None;
    }
    let b = strip_char_chars(trim_chars(value), '"');
    if b.len() == 0 {
        Some(Err(corrupt_multipart_error(0, "multipart boundary is empty")))
    } else {
        Some(Ok(chars_to_string(b)))
    }
}

/// The boundary parameter of a `multipart/mixed` content type.
fn multipart_boundary(content_type: &str) -> (r: Result<String, ViError>)
    ensures
        crate::errors::outcome(r) == multipart_boundary_of(content_type@),
{
    let chars = str_chars(content_type);
    let first = match find_char_index(chars.as_slice(), ';') {
        Some(i) => i,
        None => return Err(corrupt_multipart_error(0, "multipart content-type missing boundary")),
    };
    proof {
        lemma_find_char_bounds(chars@, ';');
    }
    let clen = chars.len();
    assert(first < clen);
    let mut rest = slice_subrange(chars.as_slice(), first + 1, clen);
    loop
        invariant
            multipart_boundary_of(content_type@) == boundary_from(rest@),
        decreases rest@.len(),
    {
        let next = find_char_index(rest, ';');
        proof {
            lemma_find_char_bounds(rest@, ';');
        }
        let param = match next {
            Some(i) => slice_subrange(rest, 0, i),
            None => rest,
        };
        match param_boundary_exec(param) {
            Some(r) => return r,
            None => {},
        }
        match next {
            Some(i) => {
                let rlen = rest.len();
                assert(i < rlen);
                rest = slice_subrange(rest, i + 1, rlen);
            },
            None => return Err(corrupt_multipart_error(0, "multipart content-type missing boundary")),
        }
    }
}

// ----------------------------------------------------------------------------
// Part headers.

/// Whether `"\r\n"` stands at position `i` of `s`.
pub open spec fn crlf_at(s: Seq<char>, i: int) -> bool {
    0 <= i && i + 1 < s.len() && s[i] == '\r' && s[i + 1] == '\n'
}

/// The position of the first `"\r\n"` in `s`, if any.
pub open spec fn find_crlf(s: Seq<char>) -> Option<int> {
    if exists|i: int| #[trigger] crlf_at(s, i) {
        Some(choose|i: int| crlf_at(s, i) && forall|j: int| 0 <= j < i ==> !#[trigger] crlf_at(s, j))
    } else {
        None
    }
}

/// The first `"\r\n"`-terminated line of `s`, or all of `s`.
pub open spec fn first_line(s: Seq<char>) -> Seq<char> {
    match find_crlf(s) {
        Some(i) => if 0 <= i <= s.len() {
            s.subrange(0, i)
        } else {
            s
        },
        None => s,
    }
}

/// What follows the first `"\r\n"` of `s`, if it has one.
pub open spec fn after_line(s: Seq<char>) -> Option<Seq<char>> {
    match find_crlf(s) {
        Some(i) => if 0 <= i && i + 2 <= s.len() {
            Some(s.subrange(i + 2, s.len() as int))
        } else {
            None
        },
        None => None,
    }
}

/// A `name: value` header line, both sides trimmed.
pub open spec fn parse_line(line: Seq<char>) -> Option<(Seq<char>, Seq<char>)> {
    match split_once(line, ':') {
        None => None,
        Some((name, value)) => Some((trim(name), trim(value))),
    }
}

/// The `(name, value)` pairs of `"\r\n"`-separated `name: value` header lines;
/// a line without `:` refuses the block.
#[verifier::opaque]
pub open spec fn header_lines(s: Seq<char>) -> Result<Seq<(Seq<char>, Seq<char>)>, ViErrorView>
    decreases s.len(),
{
    match parse_line(first_line(s)) {
        None => Err(corrupt_multipart(0, "malformed multipart header"@)),
        Some(h) => match after_line(s) {
            None => Ok(seq![h]),
            Some(rest) => if rest.len() < s.len() {
                prepend(seq![h], header_lines(rest))
            } else {
                Ok(seq![h])
            },
        },
    }
}

/// The headers of a multipart part.
pub open spec fn part_headers(bytes: Seq<u8>) -> Result<Seq<(Seq<char>, Seq<char>)>, ViErrorView> {
    if valid_utf8(bytes) {
        header_lines(decode_utf8(bytes))
    } else {
        Err(corrupt_multipart(0, "multipart headers are not UTF-8"@))
    }
}

proof fn lemma_find_crlf_bounds(s: Seq<char>)
    ensures
        find_crlf(s) matches Some(i) ==> crlf_at(s, i) && forall|j: int| 0 <= j < i ==> !#[trigger] crlf_at(s, j),
{
    if exists|i: int| #[trigger] crlf_at(s, i) {
        let w = choose|i: int| crlf_at(s, i);
        lemma_first_crlf(s, w);
    }
}

proof fn lemma_first_crlf(s: Seq<char>, w: int)
    requires
        crlf_at(s, w),
    ensures
        exists|k: int| crlf_at(s, k) && forall|j: int| 0 <= j < k ==> !#[trigger] crlf_at(s, j),
    decreases w,
{
    if exists|j: int| 0 <= j < w && #[trigger] crlf_at(s, j) {
        let j = choose|j: int| 0 <= j < w && crlf_at(s, j);
        lemma_first_crlf(s, j);
    }
}

fn find_crlf_index(s: &[char]) -> (r: Option<usize>)
    ensures
        r matches Some(i) ==> find_crlf(s@) == Some(i as int),
        r is None ==> find_crlf(s@) is None,
{
    let mut i: usize = 0;
    while i < s.len() && i + 1 < s.len()
        invariant
            i <= s@.len(),
            forall|j: int| 0 <= j < i ==> !#[trigger] crlf_at(s@, j),
        decreases s@.len() - i,
    {
        if s[i] == '\r' && s[i + 1] == '\n' {
            proof {
                assert(crlf_at(s@, i as int));
                lemma_find_crlf_bounds(s@);
                let w = find_crlf(s@)->Some_0;
                if w < i {
                } else if w > i {
                    assert(!crlf_at(s@, i as int));
                }
            }
            return Some(i);
        }
        i = i + 1;
    }
    proof {
        if exists|k: int| #[trigger] crlf_at(s@, k) {
            let k = choose|k: int| crlf_at(s@, k);
            assert(k < i);
        }
    }
    None
}

/// Prepend decoded items to a decoding outcome.
pub open spec fn prepend<A>(done: Seq<A>, r: Result<Seq<A>, ViErrorView>) -> Result<Seq<A>, ViErrorView> {
    match r {
        Ok(rest) => Ok(done + rest),
        Err(e) => Err(e),
    }
}

pub(crate) proof fn lemma_prepend_prepend<A>(a: Seq<A>, b: Seq<A>, r: Result<Seq<A>, ViErrorView>)
    ensures
        prepend(a, prepend(b, r)) == prepend(a + b, r),
{
    match r {
        Ok(rest) => {
            assert(a + (b + rest) =~= (a + b) + rest);
        },
        Err(_) => {},
    }
}

pub(crate) proof fn lemma_prepend_empty<A>(r: Result<Seq<A>, ViErrorView>)
    ensures
        prepend(Seq::<A>::empty(), r) == r,
{
    match r {
        Ok(rest) => {
            assert(Seq::<A>::empty() + rest =~= rest);
        },
        Err(_) => {},
    }
}

proof fn lemma_header_lines_step(s: Seq<char>)
    ensures
        header_lines(s) == match parse_line(first_line(s)) {
            None => Err(corrupt_multipart(0, "malformed multipart header"@)),
            Some(h) => match after_line(s) {
                None => Ok(seq![h]),
                Some(rest) => if rest.len() < s.len() {
                    prepend(seq![h], header_lines(rest))
                } else {
                    Ok(seq![h])
                },
            },
        },
{
    reveal(header_lines);
}

/// Views of `(name, value)` pairs.
pub open spec fn pairs_view(v: Seq<(String, String)>) -> Seq<(Seq<char>, Seq<char>)> {
    v.map_values(|p: (String, String)| (p.0@, p.1@))
}

fn split_line(s: &[char]) -> (r: (&[char], Option<&[char]>))
    ensures
        r.0@ == first_line(s@),
        match after_line(s@) {
            Some(rest) => r.1 matches Some(x) && x@ == rest && rest.len() < s@.len(),
            None => r.1 is None,
        },
{
    let next = find_crlf_index(s);
    proof {
        lemma_find_crlf_bounds(s@);
    }
    match next {
        Some(i) => {
            let n = s.len();
            assert(i + 2 <= n);
            (slice_subrange(s, 0, i), Some(slice_subrange(s, i + 2, n)))
        },
        None => (s, None),
    }
}

fn parse_line_exec(line: &[char]) -> (r: Option<(String, String)>)
    ensures
        match parse_line(line@) {
            Some((n, v)) => r matches Some(p) && p.0@ == n && p.1@ == v,
            None => r is None,
        },
{
    let colon = match find_char_index(line, ':') {
        Some(c) => c,
        None => return None,
    };
    proof {
        lemma_find_char_bounds(line@, ':');
    }
    let llen = line.len();
    assert(colon < llen);
    let name = chars_to_string(trim_chars(slice_subrange(line, 0, colon)));
    let value = chars_to_string(trim_chars(slice_subrange(line, colon + 1, llen)));
    Some((name, value))
}

fn parse_part_headers(bytes: &[u8]) -> (r: Result<Vec<(String, String)>, ViError>)
    ensures
        match part_headers(bytes@) {
            Ok(hs) => r matches Ok(v) && pairs_view(v@) == hs,
            Err(e) => r matches Err(x) && x@ == e,
        },
{
    let text = match utf8_str(bytes) {
        Some(t) => t,
        None => return Err(corrupt_multipart_error(0, "multipart headers are not UTF-8")),
    };
    let chars = str_chars(text);
    let mut rest: &[char] = chars.as_slice();
    let mut headers: Vec<(String, String)> = Vec::new();
    assert(pairs_view(headers@) =~= Seq::<(Seq<char>, Seq<char>)>::empty());
    proof {
        lemma_prepend_empty(header_lines(rest@));
    }
    loop
        invariant
            part_headers(bytes@) == prepend(pairs_view(headers@), header_lines(rest@)),
        decreases rest@.len(),
    {
        let (line, next) = split_line(rest);
        proof {
            lemma_header_lines_step(rest@);
        }
        let (name, value) = match parse_line_exec(line) {
            Some(p) => p,
            None => return Err(corrupt_multipart_error(0, "malformed multipart header")),
        };
        let ghost before = pairs_view(headers@);
        let ghost h = (name@, value@);
        headers.push((name, value));
        assert(pairs_view(headers@) =~= before.push(h));
        match next {
            Some(r) => {
                rest = r;
                proof {
                    lemma_prepend_prepend(before, seq![h], header_lines(rest@));
                    assert(before + seq![h] =~= before.push(h));
                }
            },
            None => {
                assert(before + seq![h] =~= before.push(h));
                return Ok(headers);
            },
        }
    }
}

// ----------------------------------------------------------------------------
// Multipart bodies.

/// Whether `needle` stands at position `i` of `hay`.
pub open spec fn occurs_at(hay: Seq<u8>, needle: Seq<u8>, i: int) -> bool {
    0 <= i && i + needle.len() <= hay.len() && hay.subrange(i, i + needle.len()) == needle
}

/// The position of the first occurrence of `needle` in `hay`, if any.
pub open spec fn find_bytes(hay: Seq<u8>, needle: Seq<u8>) -> Option<int> {
    if exists|i: int| #[trigger] occurs_at(hay, needle, i) {
        Some(
            choose|i: int|
                occurs_at(hay, needle, i) && forall|j: int|
                    0 <= j < i ==> !#[trigger] occurs_at(hay, needle, j),
        )
    } else {
        None
    }
}

proof fn lemma_first_bytes(hay: Seq<u8>, needle: Seq<u8>, w: int)
    requires
        occurs_at(hay, needle, w),
    ensures
        exists|k: int|
            occurs_at(hay, needle, k) && forall|j: int| 0 <= j < k ==> !#[trigger] occurs_at(hay, needle, j),
    decreases w,
{
    if exists|j: int| 0 <= j < w && #[trigger] occurs_at(hay, needle, j) {
        let j = choose|j: int| 0 <= j < w && occurs_at(hay, needle, j);
        lemma_first_bytes(hay, needle, j);
    }
}

proof fn lemma_find_bytes_bounds(hay: Seq<u8>, needle: Seq<u8>)
    ensures
        find_bytes(hay, needle) matches Some(i) ==> occurs_at(hay, needle, i) && forall|j: int|
            0 <= j < i ==> !#[trigger] occurs_at(hay, needle, j),
{
    if exists|i: int| #[trigger] occurs_at(hay, needle, i) {
        let w = choose|i: int| occurs_at(hay, needle, i);
        lemma_first_bytes(hay, needle, w);
    }
}

/// The position of the first occurrence of `needle` in `haystack`.
fn find_subslice(haystack: &[u8], needle: &[u8]) -> (r: Option<usize>)
    requires
        needle@.len() > 0,
    ensures
        r matches Some(i) ==> find_bytes(haystack@, needle@) == Some(i as int),
        r is None ==> find_bytes(haystack@, needle@) is None,
{
    let n = needle.len();
    if n > haystack.len() {
        proof {
            if exists|k: int| #[trigger] occurs_at(haystack@, needle@, k) {
            }
        }
        return None;
    }
    let mut i: usize = 0;
    while i <= haystack.len() - n
        invariant
            n == needle@.len(),
            n > 0,
            n <= haystack@.len(),
            i <= haystack@.len() - n + 1,
            forall|j: int| 0 <= j < i ==> !#[trigger] occurs_at(haystack@, needle@, j),
        decreases haystack@.len() + 1 - i,
    {
        if crate::text::bytes_eq(slice_subrange(haystack, i, i + n), needle) {
            proof {
                assert(occurs_at(haystack@, needle@, i as int));
                lemma_find_bytes_bounds(haystack@, needle@);
                let w = find_bytes(haystack@, needle@)->Some_0;
                if w < i {
                } else if w > i {
                    assert(!occurs_at(haystack@, needle@, i as int));
                }
            }
            return Some(i);
        }
        i = i + 1;
    }
    proof {
        if exists|k: int| #[trigger] occurs_at(haystack@, needle@, k) {
            let k = choose|k: int| occurs_at(haystack@, needle@, k);
            assert(k < i);
        }
    }
    None
}

/// A part of a multipart body.
pub struct PartView {
    pub content_type: Option<Seq<char>>,
    pub body: Seq<u8>,
}

#[derive(Debug, Clone, PartialEq, Eq)]
struct MultipartPart {
    content_type: Option<String>,
    body: Vec<u8>,
}

impl View for MultipartPart {
    type V = PartView;

    closed spec fn view(&self) -> PartView {
        PartView { content_type: crate::errors::opt_str_view(self.content_type), body: self.body@ }
    }
}

/// The value of the first `Content-Type` header, names compared up to ASCII case.
pub open spec fn content_type_of(headers: Seq<(Seq<char>, Seq<char>)>) -> Option<Seq<char>>
    decreases headers.len(),
{
    if headers.len() == 0 {
        None
    } else if eq_ignore_case(headers[0].0, "content-type"@) {
        Some(headers[0].1)
    } else {
        content_type_of(headers.drop_first())
    }
}

/// The content type of a part is the value of its first header whose name,
/// in ASCII lowercase, is `content-type`; there is none when no header has
/// that name.
pub proof fn lemma_content_type_is_first_match(headers: Seq<(Seq<char>, Seq<char>)>)
    ensures
        content_type_of(headers) matches Some(v) ==> exists|i: int|
            0 <= i < headers.len() && lower(#[trigger] headers[i].0) == "content-type"@
                && headers[i].1 == v && forall|j: int|
                0 <= j < i ==> lower(#[trigger] headers[j].0) != "content-type"@,
        content_type_of(headers) is None ==> forall|i: int|
            0 <= i < headers.len() ==> lower(#[trigger] headers[i].0) != "content-type"@,
    decreases headers.len(),
{
    reveal_strlit("content-type");
    assert(lower("content-type"@) =~= "content-type"@);
    if headers.len() > 0 {
        let rest = headers.drop_first();
        lemma_content_type_is_first_match(rest);
        if !eq_ignore_case(headers[0].0, "content-type"@) {
            if let Some(v) = content_type_of(rest) {
                let k = choose|k: int|
                    0 <= k < rest.len() && lower(#[trigger] rest[k].0) == "content-type"@
                        && rest[k].1 == v && forall|j: int|
                        0 <= j < k ==> lower(#[trigger] rest[j].0) != "content-type"@;
                assert(headers[k + 1] == rest[k]);
                assert forall|j: int| 0 <= j < k + 1 implies lower(#[trigger] headers[j].0) != "content-type"@ by {
                    if j > 0 {
                        assert(headers[j] == rest[j - 1]);
                    }
                }
            } else {
                assert forall|i: int| 0 <= i < headers.len() implies lower(#[trigger] headers[i].0) != "content-type"@ by {
                    if i > 0 {
                        assert(headers[i] == rest[i - 1]);
                    }
                }
            }
        }
    }
}

fn find_content_type(headers: &Vec<(String, String)>) -> (r: Option<String>)
    ensures
        crate::errors::opt_str_view(r) == content_type_of(pairs_view(headers@)),
{
    let key = str_chars("content-type");
    let mut i: usize = 0;
    assert(pairs_view(headers@).subrange(0, headers@.len() as int) =~= pairs_view(headers@));
    while i < headers.len()
        invariant
            i <= headers@.len(),
            key@ == "content-type"@,
            content_type_of(pairs_view(headers@)) == content_type_of(
                pairs_view(headers@).subrange(i as int, headers@.len() as int),
            ),
        decreases headers@.len() - i,
    {
        let name = str_chars(headers[i].0.as_str());
        let ghost hs = pairs_view(headers@).subrange(i as int, headers@.len() as int);
        if chars_eq_ignore_case(name.as_slice(), key.as_slice()) {
            return Some(headers[i].1.clone());
        }
        assert(hs.drop_first() =~= pairs_view(headers@).subrange(i + 1, headers@.len() as int));
        i = i + 1;
    }
    None
}

/// `--`, the marker that closes a multipart body after its last boundary.
pub open spec fn dash_dash() -> Seq<u8> {
    seq![0x2du8, 0x2du8]
}

/// `"\r\n"`.
pub open spec fn crlf_bytes() -> Seq<u8> {
    seq![0x0du8, 0x0au8]
}

/// `"\r\n\r\n"`, the end of a part's headers.
pub open spec fn header_end_marker() -> Seq<u8> {
    seq![0x0du8, 0x0au8, 0x0du8, 0x0au8]
}

/// `"\r\n--"`, the start of the boundary after a part's body.
pub open spec fn next_boundary_marker() -> Seq<u8> {
    seq![0x0du8, 0x0au8, 0x2du8, 0x2du8]
}

/// The body of a part whose headers end at `bs`, up to the next boundary,
/// and the position after that boundary.
pub open spec fn part_body_at(body: Seq<u8>, boundary: Seq<u8>, bs: int, content_type: Option<Seq<char>>) -> Result<
    (PartView, int),
    ViErrorView,
> {
    match find_bytes(body.subrange(bs, body.len() as int), next_boundary_marker()) {
        None => Err(corrupt_multipart(bs, "multipart part missing next boundary"@)),
        Some(o) => {
            let nm = bs + o;
            if !(nm + 4 + boundary.len() <= body.len() && body.subrange(
                nm + 4,
                nm + 4 + boundary.len(),
            ) == boundary) {
                Err(corrupt_multipart(nm, "multipart part boundary mismatch"@))
            } else {
                Ok(
                    (
                        PartView { content_type, body: body.subrange(bs, nm) },
                        nm + 4 + boundary.len(),
                    ),
                )
            }
        },
    }
}

/// The part that starts at `cursor`, just after a boundary, and the position
/// after the boundary that ends it.
pub open spec fn part_at(body: Seq<u8>, boundary: Seq<u8>, cursor: int) -> Result<
    (PartView, int),
    ViErrorView,
> {
    if !(cursor + 2 <= body.len() && body.subrange(cursor, cursor + 2) == crlf_bytes()) {
        Err(corrupt_multipart(cursor, "multipart boundary missing CRLF"@))
    } else {
        let c2 = cursor + 2;
        match find_bytes(body.subrange(c2, body.len() as int), header_end_marker()) {
            None => Err(corrupt_multipart(c2, "multipart part missing header terminator"@)),
            Some(o) => match part_headers(body.subrange(c2, c2 + o)) {
                Err(e) => Err(e),
                Ok(hs) => part_body_at(body, boundary, c2 + o + 4, content_type_of(hs)),
            },
        }
    }
}

/// The parts of a multipart body from `cursor`, just after a boundary, to
/// its closing `--`.
#[verifier::opaque]
pub open spec fn parts_from(body: Seq<u8>, boundary: Seq<u8>, cursor: int) -> Result<
    Seq<PartView>,
    ViErrorView,
>
    decreases body.len() - cursor,
{
    if 0 <= cursor && cursor + 2 <= body.len() && body.subrange(cursor, cursor + 2) == dash_dash() {
        Ok(Seq::empty())
    } else {
        match part_at(body, boundary, cursor) {
            Err(e) => Err(e),
            Ok((part, next)) => if cursor < next <= body.len() {
                prepend(seq![part], parts_from(body, boundary, next))
            } else {
                Ok(seq![part])
            },
        }
    }
}

proof fn lemma_parts_from_step(body: Seq<u8>, boundary: Seq<u8>, cursor: int)
    ensures
        parts_from(body, boundary, cursor) == if 0 <= cursor && cursor + 2 <= body.len()
            && body.subrange(cursor, cursor + 2) == dash_dash() {
            Ok(Seq::empty())
        } else {
            match part_at(body, boundary, cursor) {
                Err(e) => Err(e),
                Ok((part, next)) => if cursor < next <= body.len() {
                    prepend(seq![part], parts_from(body, boundary, next))
                } else {
                    Ok(seq![part])
                },
            }
        },
{
    reveal(parts_from);
}

/// The parts of a multipart body delimited by `boundary`.
pub open spec fn multipart_parts(body: Seq<u8>, boundary: Seq<char>) -> Result<Seq<PartView>, ViErrorView> {
    let delimiter = dash_dash() + encode_utf8(boundary);
    if !(delimiter.len() <= body.len() && body.subrange(0, delimiter.len() as int) == delimiter) {
        Err(corrupt_multipart(0, "multipart body missing opening boundary"@))
    } else {
        parts_from(body, encode_utf8(boundary), delimiter.len() as int)
    }
}

fn two_bytes(b0: u8, b1: u8) -> (v: Vec<u8>)
    ensures
        v@ == seq![b0, b1],
{
    let mut v: Vec<u8> = Vec::new();
    v.push(b0);
    v.push(b1);
    assert(v@ =~= seq![b0, b1]);
    v
}

fn four_bytes(b0: u8, b1: u8, b2: u8, b3: u8) -> (v: Vec<u8>)
    ensures
        v@ == seq![b0, b1, b2, b3],
{
    let mut v: Vec<u8> = Vec::new();
    v.push(b0);
    v.push(b1);
    v.push(b2);
    v.push(b3);
    assert(v@ =~= seq![b0, b1, b2, b3]);
    v
}

/// Views of multipart parts.
spec fn parts_view(v: Seq<MultipartPart>) -> Seq<PartView> {
    v.map_values(|p: MultipartPart| p@)
}

fn read_part_body(body: &[u8], boundary: &[u8], bs: usize, content_type: Option<String>) -> (r: Result<
    (MultipartPart, usize),
    ViError,
>)
    requires
        bs <= body@.len(),
    ensures
        match part_body_at(body@, boundary@, bs as int, crate::errors::opt_str_view(content_type)) {
            Ok((p, next)) => r matches Ok((x, n)) && x@ == p && n == next && bs < next,
            Err(e) => r matches Err(x) && x@ == e,
        },
{
    let len = body.len();
    let next_b = four_bytes(0x0d, 0x0a, 0x2d, 0x2d);
    let next_marker = match find_subslice(slice_subrange(body, bs, len), next_b.as_slice()) {
        Some(o) => {
            proof {
                lemma_find_bytes_bounds(body@.subrange(bs as int, len as int), next_b@);
            }
            bs + o
        },
        None => return Err(corrupt_multipart_error(bs, "multipart part missing next boundary")),
    };
    let after = next_marker + 4;
    let blen = boundary.len();
    if blen > len - after || !crate::text::bytes_eq(slice_subrange(body, after, after + blen), boundary) {
        return Err(corrupt_multipart_error(next_marker, "multipart part boundary mismatch"));
    }
    let part_body = slice_to_vec(slice_subrange(body, bs, next_marker));
    Ok((MultipartPart { content_type, body: part_body }, after + blen))
}

#[verifier::spinoff_prover]
#[verifier::rlimit(40)]
fn read_part(body: &[u8], boundary: &[u8], cursor: usize) -> (r: Result<(MultipartPart, usize), ViError>)
    requires
        cursor <= body@.len(),
    ensures
        match part_at(body@, boundary@, cursor as int) {
            Ok((p, next)) => r matches Ok((x, n)) && x@ == p && n == next && cursor < next,
            Err(e) => r matches Err(x) && x@ == e,
        },
{
    let len = body.len();
    let crlf = two_bytes(0x0d, 0x0a);
    if !(len - cursor >= 2 && crate::text::bytes_eq(slice_subrange(body, cursor, cursor + 2), crlf.as_slice())) {
        return Err(corrupt_multipart_error(cursor, "multipart boundary missing CRLF"));
    }
    let c2 = cursor + 2;
    let hdr_end = four_bytes(0x0d, 0x0a, 0x0d, 0x0a);
    let header_end = match find_subslice(slice_subrange(body, c2, len), hdr_end.as_slice()) {
        Some(o) => {
            proof {
                lemma_find_bytes_bounds(body@.subrange(c2 as int, len as int), hdr_end@);
            }
            c2 + o
        },
        None => return Err(corrupt_multipart_error(c2, "multipart part missing header terminator")),
    };
    let headers = match parse_part_headers(slice_subrange(body, c2, header_end)) {
        Ok(h) => h,
        Err(e) => return Err(e),
    };
    let content_type = find_content_type(&headers);
    read_part_body(body, boundary, header_end + 4, content_type)
}

fn parse_multipart(body: &[u8], boundary: &str) -> (r: Result<Vec<MultipartPart>, ViError>)
    ensures
        match multipart_parts(body@, boundary@) {
            Ok(ps) => r matches Ok(v) && parts_view(v@) == ps,
            Err(e) => r matches Err(x) && x@ == e,
        },
{
    let b = boundary.as_bytes();
    let mut delimiter = two_bytes(0x2d, 0x2d);
    crate::text::extend_bytes(&mut delimiter, b);
    let dlen = delimiter.len();
    if dlen > body.len() || !crate::text::bytes_eq(slice_subrange(body, 0, dlen), delimiter.as_slice()) {
        return Err(corrupt_multipart_error(0, "multipart body missing opening boundary"));
    }
    let dd = two_bytes(0x2d, 0x2d);
    let ghost bb = encode_utf8(boundary@);
    let mut parts: Vec<MultipartPart> = Vec::new();
    let mut cursor: usize = dlen;
    assert(parts_view(parts@) =~= Seq::<PartView>::empty());
    proof {
        lemma_prepend_empty(parts_from(body@, bb, cursor as int));
    }
    loop
        invariant
            cursor <= body@.len(),
            b@ == bb,
            dd@ == dash_dash(),
            multipart_parts(body@, boundary@) == prepend(
                parts_view(parts@),
                parts_from(body@, bb, cursor as int),
            ),
        decreases body@.len() - cursor,
    {
        let len = body.len();
        proof {
            lemma_parts_from_step(body@, bb, cursor as int);
        }
        if len - cursor >= 2 && crate::text::bytes_eq(slice_subrange(body, cursor, cursor + 2), dd.as_slice()) {
            assert(parts_view(parts@) + Seq::<PartView>::empty() =~= parts_view(parts@));
            return Ok(parts);
        }
        let (part, next) = match read_part(body, b, cursor) {
            Ok(found) => found,
            Err(e) => return Err(e),
        };
        let ghost before = parts_view(parts@);
        let ghost pv = part@;
        parts.push(part);
        assert(parts_view(parts@) =~= before.push(pv));
        cursor = next;
        proof {
            lemma_prepend_prepend(before, seq![pv], parts_from(body@, bb, cursor as int));
            assert(before + seq![pv] =~= before.push(pv));
        }
    }
}

// ----------------------------------------------------------------------------
// Chat responses.

/// The text of an optional string, empty when absent.
pub open spec fn text_or_empty(o: Option<Seq<char>>) -> Seq<char> {
    match o {
        Some(t) => t,
        None => Seq::empty(),
    }
}

/// Whether a part carries the chat-completion JSON.
pub open spec fn is_json_part(p: PartView) -> bool {
    starts_with(lower(text_or_empty(p.content_type)), "application/json"@)
}

/// Whether a part carries the binary receipt.
pub open spec fn is_receipt_part(p: PartView) -> bool {
    eq_ignore_case(text_or_empty(p.content_type), RECEIPT_CONTENT_TYPE@)
}

/// The test that picks the chat-completion JSON part.
pub open spec fn json_part_test() -> spec_fn(PartView) -> bool {
    |p: PartView| is_json_part(p)
}

/// The test that picks the receipt part.
pub open spec fn receipt_part_test() -> spec_fn(PartView) -> bool {
    |p: PartView| is_receipt_part(p)
}

/// The position of the first part that satisfies `pred`, if any.
pub open spec fn first_part(ps: Seq<PartView>, pred: spec_fn(PartView) -> bool) -> Option<int>
    decreases ps.len(),
{
    if ps.len() == 0 {
        None
    } else if pred(ps[0]) {
        Some(0)
    } else {
        match first_part(ps.drop_first(), pred) {
            Some(k) => Some(k + 1),
            None => None,
        }
    }
}

proof fn lemma_first_part(ps: Seq<PartView>, pred: spec_fn(PartView) -> bool, i: int)
    requires
        0 <= i <= ps.len(),
        forall|j: int| 0 <= j < i ==> !pred(#[trigger] ps[j]),
    ensures
        i < ps.len() && pred(ps[i]) ==> first_part(ps, pred) == Some(i),
        i == ps.len() ==> first_part(ps, pred) is None,
    decreases i,
{
    if i > 0 {
        assert forall|j: int| 0 <= j < i - 1 implies !pred(#[trigger] ps.drop_first()[j]) by {
            assert(ps.drop_first()[j] == ps[j + 1]);
        }
        lemma_first_part(ps.drop_first(), pred, i - 1);
        assert(!pred(ps[0]));
    }
}

/// A receipt-bearing `multipart/mixed` chat response: the assistant text of
/// its JSON part and the bytes of its receipt part.
pub open spec fn multipart_chat(endpoint: Seq<char>, content_type: Seq<char>, body: Seq<u8>) -> Result<
    ParsedChatView,
    ViErrorView,
> {
    match multipart_boundary_of(content_type) {
        Err(e) => Err(e),
        Ok(boundary) => match multipart_parts(body, boundary) {
            Err(e) => Err(e),
            Ok(parts) => match first_part(parts, json_part_test()) {
                None => Err(corrupt_multipart(0, "multipart response missing JSON part"@)),
                Some(j) => match first_part(parts, receipt_part_test()) {
                    None => Err(ViErrorView::ReceiptMissing { endpoint, content_type }),
                    Some(r) => match chat_text_result(chat_message_content(parts[j].body)) {
                        Err(e) => Err(e),
                        Ok(text) => Ok(
                            ParsedChatView {
                                text,
                                receipt_bytes: Some(parts[r].body),
                                warning: None,
                            },
                        ),
                    },
                },
            },
        },
    }
}

/// A chat response parsed: a degraded `Warning: 199` response gives its text
/// and warning without a receipt; a `multipart/mixed` response gives its text
/// and receipt; any other response lacks its receipt.
pub open spec fn chat_response_parse(
    endpoint: Seq<char>,
    content_type: Option<Seq<char>>,
    warning: Option<Seq<char>>,
    body: Seq<u8>,
) -> Result<ParsedChatView, ViErrorView> {
    let ct = text_or_empty(content_type);
    if warning is Some {
        match chat_text_result(chat_message_content(body)) {
            Err(e) => Err(e),
            Ok(text) => Ok(ParsedChatView { text, receipt_bytes: None, warning }),
        }
    } else if starts_with(lower(ct), "multipart/mixed"@) {
        multipart_chat(endpoint, ct, body)
    } else {
        Err(ViErrorView::ReceiptMissing { endpoint, content_type: ct })
    }
}

fn find_json_part(parts: &Vec<MultipartPart>) -> (r: Option<usize>)
    ensures
        r matches Some(i) ==> i < parts@.len() && first_part(parts_view(parts@), json_part_test()) == Some(i as int),
        r is None ==> first_part(parts_view(parts@), json_part_test()) is None,
{
    let ghost ps = parts_view(parts@);
    let ghost pred = json_part_test();
    let prefix = str_chars("application/json");
    let mut i: usize = 0;
    while i < parts.len()
        invariant
            i <= parts@.len(),
            ps == parts_view(parts@),
            pred == json_part_test(),
            prefix@ == "application/json"@,
            forall|j: int| 0 <= j < i ==> !pred(#[trigger] ps[j]),
        decreases parts@.len() - i,
    {
        let ct = match &parts[i].content_type {
            Some(c) => str_chars(c.as_str()),
            None => Vec::new(),
        };
        assert(ct@ == text_or_empty(ps[i as int].content_type));
        if chars_lower_starts_with(ct.as_slice(), prefix.as_slice()) {
            proof {
                lemma_first_part(ps, pred, i as int);
            }
            return Some(i);
        }
        i = i + 1;
    }
    proof {
        lemma_first_part(ps, pred, i as int);
    }
    None
}

fn find_receipt_part(parts: &Vec<MultipartPart>) -> (r: Option<usize>)
    ensures
        r matches Some(i) ==> i < parts@.len() && first_part(parts_view(parts@), receipt_part_test()) == Some(i as int),
        r is None ==> first_part(parts_view(parts@), receipt_part_test()) is None,
{
    let ghost ps = parts_view(parts@);
    let ghost pred = receipt_part_test();
    let expected = str_chars(RECEIPT_CONTENT_TYPE);
    let mut i: usize = 0;
    while i < parts.len()
        invariant
            i <= parts@.len(),
            ps == parts_view(parts@),
            pred == receipt_part_test(),
            expected@ == RECEIPT_CONTENT_TYPE@,
            forall|j: int| 0 <= j < i ==> !pred(#[trigger] ps[j]),
        decreases parts@.len() - i,
    {
        let ct = match &parts[i].content_type {
            Some(c) => str_chars(c.as_str()),
            None => Vec::new(),
        };
        assert(ct@ == text_or_empty(ps[i as int].content_type));
        if chars_eq_ignore_case(ct.as_slice(), expected.as_slice()) {
            proof {
                lemma_first_part(ps, pred, i as int);
            }
            return Some(i);
        }
        i = i + 1;
    }
    proof {
        lemma_first_part(ps, pred, i as int);
    }
    None
}

fn parse_multipart_chat_response(response: &ChatResponse, content_type: &str) -> (r: Result<
    ParsedChatResponse,
    ViError,
>)
    ensures
        crate::errors::outcome(r) == multipart_chat(response.endpoint@, content_type@, response.body@),
{
    let boundary = match multipart_boundary(content_type) {
        Ok(b) => b,
        Err(e) => return Err(e),
    };
    let parts = match parse_multipart(response.body.as_slice(), boundary.as_str()) {
        Ok(p) => p,
        Err(e) => return Err(e),
    };
    let j = match find_json_part(&parts) {
        Some(j) => j,
        None => return Err(corrupt_multipart_error(0, "multipart response missing JSON part")),
    };
    let r = match find_receipt_part(&parts) {
        Some(r) => r,
        None => {
            return Err(
                ViError::ReceiptMissing {
                    endpoint: response.endpoint.clone(),
                    content_type: content_type.to_owned(),
                },
            )
        },
    };
    assert(parts_view(parts@)[j as int].body == parts@[j as int].body@);
    let text = match chat_text_from_json(parts[j].body.as_slice()) {
        Ok(t) => t,
        Err(e) => return Err(e),
    };
    let receipt = slice_to_vec(parts[r].body.as_slice());
    assert(parts_view(parts@)[r as int].body == parts@[r as int].body@);
    Ok(ParsedChatResponse { text, receipt_bytes: Some(receipt), warning: None })
}

/// Parse a chat response into its text plus receipt bytes.
pub fn parse_chat_response(response: &ChatResponse) -> (r: Result<ParsedChatResponse, ViError>)
    ensures
        crate::errors::outcome(r) == chat_response_parse(
            response.endpoint@,
            crate::errors::opt_str_view(response.content_type),
            crate::errors::opt_str_view(response.warning),
            response.body@,
        ),
{
    let content_type: &str = match &response.content_type {
        Some(c) => c.as_str(),
        None => "",
    };
    proof {
        reveal_strlit("");
    }
    assert(content_type@ == text_or_empty(crate::errors::opt_str_view(response.content_type)));
    if response.warning.is_some() {
        let text = match chat_text_from_json(response.body.as_slice()) {
            Ok(t) => t,
            Err(e) => return Err(e),
        };
        return Ok(ParsedChatResponse { text, receipt_bytes: None, warning: response.warning.clone() });
    }
    let ct_chars = str_chars(content_type);
    let mm = str_chars(MULTIPART_MIXED);
    if chars_lower_starts_with(ct_chars.as_slice(), mm.as_slice()) {
        parse_multipart_chat_response(response, content_type)
    } else {
        Err(
            ViError::ReceiptMissing {
                endpoint: response.endpoint.clone(),
                content_type: content_type.to_owned(),
            },
        )
    }
}

// ----------------------------------------------------------------------------
// The client: endpoint, request URLs and headers.

/// An input error.
pub open spec fn input_error_of(arg: Seq<char>, reason: Seq<char>) -> ViErrorView {
    ViErrorView::Input { arg, reason, detail: None }
}

fn input_error(arg: &str, reason: String) -> (e: ViError)
    ensures
        e@ == input_error_of(arg@, reason@),
{
    ViError::Input { arg: arg.to_owned(), reason, detail: None }
}

fn prefixed(prefix: &str, text: &str) -> (s: String)
    ensures
        s@ == prefix@ + text@,
{
    let mut s = prefix.to_owned();
    s.append(text);
    s
}

/// What `Url::parse` makes of a text: the URL's serialization and its
/// scheme, or the parse error's message.
pub uninterp spec fn url_parse(text: Seq<char>) -> Result<(Seq<char>, Seq<char>), Seq<char>>;

/// Outcome of a URL parse.
pub open spec fn url_outcome(r: Result<(String, String), String>) -> Result<(Seq<char>, Seq<char>), Seq<char>> {
    match r {
        Ok((u, s)) => Ok((u@, s@)),
        Err(e) => Err(e@),
    }
}

/// Parse a URL with `reqwest::Url::parse`.
///
/// Trusted: the serialization, scheme or error message depend on the text
/// alone and are given a name; nothing more is claimed.
#[verifier::external_body]
fn parse_url(text: &str) -> (r: Result<(String, String), String>)
    ensures
        url_outcome(r) == url_parse(text@),
{
    match reqwest::Url::parse(text) {
        Ok(url) => Ok((url.as_str().to_owned(), url.scheme().to_owned())),
        Err(error) => Err(error.to_string()),
    }
}

/// What `Url::join` gives for a path against a base URL (given by its
/// serialization): the joined URL's serialization, or the error's message.
pub uninterp spec fn url_join(base: Seq<char>, path: Seq<char>) -> Result<Seq<char>, Seq<char>>;

/// Outcome of a URL join.
pub open spec fn join_outcome(r: Result<String, String>) -> Result<Seq<char>, Seq<char>> {
    match r {
        Ok(u) => Ok(u@),
        Err(e) => Err(e@),
    }
}

/// Join `path` to the URL serialized as `base` with `reqwest::Url::join`.
///
/// Trusted: the base is read back with `Url::parse` and joined; the result
/// depends on the two texts alone and is given a name; nothing more is claimed.
#[verifier::external_body]
fn join_url(base: &str, path: &str) -> (r: Result<String, String>)
    ensures
        join_outcome(r) == url_join(base@, path@),
{
    let base = reqwest::Url::parse(base).map_err(|error| error.to_string())?;
    base.join(path).map(|url| url.as_str().to_owned()).map_err(|error| error.to_string())
}

/// The endpoint check on what the URL parser made of the endpoint: an
/// `https` URL, given by its serialization.
pub open spec fn endpoint_check(parsed: Result<(Seq<char>, Seq<char>), Seq<char>>) -> Result<Seq<char>, ViErrorView> {
    match parsed {
        Err(e) => Err(input_error_of("endpoint"@, "invalid provider URL: "@ + e)),
        Ok((url, scheme)) => if scheme != "https"@ {
            Err(input_error_of("endpoint"@, "provider endpoint must use https"@))
        } else {
            Ok(url)
        },
    }
}

/// The endpoint check of a provider endpoint text.
pub open spec fn https_endpoint_of(endpoint: Seq<char>) -> Result<Seq<char>, ViErrorView> {
    endpoint_check(url_parse(endpoint))
}

/// Accept a parsed provider endpoint (its serialization and scheme, or the
/// parser's message) when it uses `https`.
pub fn https_endpoint_from(parsed: Result<(String, String), String>) -> (r: Result<String, ViError>)
    ensures
        crate::errors::outcome(r) == endpoint_check(url_outcome(parsed)),
{
    match parsed {
        Err(e) => Err(input_error("endpoint", prefixed("invalid provider URL: ", e.as_str()))),
        Ok((url, scheme)) => {
            if !crate::text::str_eq(scheme.as_str(), "https") {
                return Err(input_error("endpoint", "provider endpoint must use https".to_owned()));
            }
            Ok(url)
        },
    }
}

/// Parse a provider endpoint, which must use `https`.
pub fn parse_https_endpoint(endpoint: &str) -> (r: Result<String, ViError>)
    ensures
        crate::errors::outcome(r) == https_endpoint_of(endpoint@),
{
    https_endpoint_from(parse_url(endpoint))
}

/// A request URL from what joining its path gave, or the input error that
/// names the path (`what` introduces the joiner's message).
pub open spec fn joined_url_of(joined: Result<Seq<char>, Seq<char>>, what: Seq<char>) -> Result<Seq<char>, ViErrorView> {
    match joined {
        Ok(u) => Ok(u),
        Err(e) => Err(input_error_of("endpoint"@, what + e)),
    }
}

/// A request URL from what joining its path gave.
pub fn joined_url(joined: Result<String, String>, what: &str) -> (r: Result<String, ViError>)
    ensures
        crate::errors::outcome(r) == joined_url_of(join_outcome(joined), what@),
{
    match joined {
        Ok(u) => Ok(u),
        Err(e) => Err(input_error("endpoint", prefixed(what, e.as_str()))),
    }
}

/// Whether `HeaderValue::from_str` accepts a text: every byte is a tab, or
/// at least `0x20` and not `0x7f`. In characters: every character is a tab,
/// or at least a space and not DEL (characters beyond ASCII encode to bytes
/// of `0x80` and above).
pub open spec fn valid_header_value(s: Seq<char>) -> bool {
    forall|i: int| 0 <= i < s.len() ==> (#[trigger] s[i] == '\t' || (' ' <= s[i] && s[i] != '\x7f'))
}

/// The message of a refused header value.
pub open spec fn header_value_refusal() -> Seq<char> {
    "failed to parse header value"@
}

/// Check a header value with `reqwest::header::HeaderValue::from_str`.
///
/// Trusted: as the `http` source shows, the value is accepted exactly when
/// every byte is a tab or at least `0x20` and not `0x7f`, and the refusal's
/// message is `failed to parse header value`.
#[verifier::external_body]
fn check_header_value(value: &str) -> (r: Result<(), String>)
    ensures
        r is Ok <==> valid_header_value(value@),
        r matches Err(e) ==> e@ == header_value_refusal(),
{
    reqwest::header::HeaderValue::from_str(value).map(|_| ()).map_err(|error| error.to_string())
}

/// One request header.
#[derive(Debug, Clone, PartialEq, Eq)]
pub struct HeaderEntry {
    /// Header name.
    pub name: &'static str,
    /// Header value.
    pub value: String,
    /// Whether the value is a credential, hidden from debug output.
    pub sensitive: bool,
}

/// Views of headers: name, value and sensitivity.
pub open spec fn headers_view(v: Seq<HeaderEntry>) -> Seq<(Seq<char>, Seq<char>, bool)> {
    v.map_values(|h: HeaderEntry| (h.name@, h.value@, h.sensitive))
}

/// The headers of a provider request: the JSON content type, the receipt
/// opt-in for chat requests, the trace identifier, and the bearer token when
/// there is one; an unusable trace identifier or token refuses the request.
pub open spec fn request_headers_of(trace_id: Seq<char>, api_key: Option<Seq<char>>, receipt_opt_in: bool) -> Result<
    Seq<(Seq<char>, Seq<char>, bool)>,
    ViErrorView,
> {
    let base = seq![("content-type"@, "application/json"@, false)] + if receipt_opt_in {
        seq![(RECEIPT_HEADER@, "1"@, false)]
    } else {
        Seq::empty()
    } + seq![(TRACE_HEADER@, trace_id, false)];
    if !valid_header_value(trace_id) {
        Err(input_error_of("trace_id"@, "invalid trace header value: "@ + header_value_refusal()))
    } else {
        match api_key {
            None => Ok(base),
            Some(key) => if !valid_header_value("Bearer "@ + key) {
                Err(
                    input_error_of(
                        "VI_API_KEY"@,
                        "invalid authorization header: "@ + header_value_refusal(),
                    ),
                )
            } else {
                Ok(base.push(("authorization"@, "Bearer "@ + key, true)))
            },
        }
    }
}

/// Receipt-enabled provider client: an `https` endpoint and an optional
/// bearer token.
#[derive(Debug, Clone, PartialEq, Eq)]
pub struct ChatClient {
    endpoint: String,
    api_key: Option<String>,
}

impl ChatClient {
    /// The endpoint, as its URL serialization.
    pub closed spec fn endpoint_view(&self) -> Seq<char> {
        self.endpoint@
    }

    /// The bearer token.
    pub closed spec fn api_key_view(&self) -> Option<Seq<char>> {
        crate::errors::opt_str_view(self.api_key)
    }

    /// Construct a client from an `https` endpoint and an optional bearer token.
    pub fn new(endpoint: &str, api_key: Option<String>) -> (r: Result<ChatClient, ViError>)
        ensures
            match https_endpoint_of(endpoint@) {
                Ok(url) => r matches Ok(c) && c.endpoint_view() == url && c.api_key_view()
                    == crate::errors::opt_str_view(api_key),
                Err(e) => r matches Err(x) && x@ == e,
            },
    {
        match parse_https_endpoint(endpoint) {
            Ok(url) => Ok(ChatClient { endpoint: url, api_key }),
            Err(e) => Err(e),
        }
    }

    /// The endpoint's URL serialization.
    pub fn endpoint(&self) -> (s: &str)
        ensures
            s@ == self.endpoint_view(),
    {
        self.endpoint.as_str()
    }

    fn provider_url(&self, path: &str, what: &str) -> (r: Result<String, ViError>)
        ensures
            crate::errors::outcome(r) == joined_url_of(url_join(self.endpoint_view(), path@), what@),
    {
        joined_url(join_url(self.endpoint.as_str(), path), what)
    }

    /// The chat-completions URL under the endpoint.
    pub fn chat_url(&self) -> (r: Result<String, ViError>)
        ensures
            crate::errors::outcome(r) == joined_url_of(
                url_join(self.endpoint_view(), CHAT_COMPLETIONS_PATH@),
                "invalid chat path: "@,
            ),
    {
        self.provider_url(CHAT_COMPLETIONS_PATH, "invalid chat path: ")
    }

    /// The audit URL under the endpoint.
    pub fn audit_url(&self) -> (r: Result<String, ViError>)
        ensures
            crate::errors::outcome(r) == joined_url_of(
                url_join(self.endpoint_view(), AUDIT_PATH@),
                "invalid audit path: "@,
            ),
    {
        self.provider_url(AUDIT_PATH, "invalid audit path: ")
    }

    fn request_headers(&self, trace_id: &str, receipt_opt_in: bool) -> (r: Result<Vec<HeaderEntry>, ViError>)
        ensures
            match request_headers_of(trace_id@, self.api_key_view(), receipt_opt_in) {
                Ok(hs) => r matches Ok(v) && headers_view(v@) == hs,
                Err(e) => r matches Err(x) && x@ == e,
            },
    {
        let mut headers: Vec<HeaderEntry> = Vec::new();
        headers.push(
            HeaderEntry { name: "content-type", value: "application/json".to_owned(), sensitive: false },
        );
        if receipt_opt_in {
            headers.push(HeaderEntry { name: RECEIPT_HEADER, value: "1".to_owned(), sensitive: false });
        }
        match check_header_value(trace_id) {
            Ok(()) => {},
            Err(e) => {
                return Err(input_error("trace_id", prefixed("invalid trace header value: ", e.as_str())));
            },
        }
        headers.push(HeaderEntry { name: TRACE_HEADER, value: trace_id.to_owned(), sensitive: false });
        let ghost base = headers_view(headers@);
        assert(base =~= seq![("content-type"@, "application/json"@, false)] + if receipt_opt_in {
            seq![(RECEIPT_HEADER@, "1"@, false)]
        } else {
            Seq::<(Seq<char>, Seq<char>, bool)>::empty()
        } + seq![(TRACE_HEADER@, trace_id@, false)]);
        match &self.api_key {
            None => {},
            Some(key) => {
                let bearer = prefixed("Bearer ", key.as_str());
                match check_header_value(bearer.as_str()) {
                    Ok(()) => {},
                    Err(e) => {
                        return Err(
                            input_error(
                                "VI_API_KEY",
                                prefixed("invalid authorization header: ", e.as_str()),
                            ),
                        );
                    },
                }
                headers.push(HeaderEntry { name: "authorization", value: bearer, sensitive: true });
                assert(headers_view(headers@) =~= base.push(("authorization"@, "Bearer "@ + key@, true)));
            },
        }
        Ok(headers)
    }

    /// The headers of a chat-completions request.
    pub fn chat_headers(&self, trace_id: &str) -> (r: Result<Vec<HeaderEntry>, ViError>)
        ensures
            match request_headers_of(trace_id@, self.api_key_view(), true) {
                Ok(hs) => r matches Ok(v) && headers_view(v@) == hs,
                Err(e) => r matches Err(x) && x@ == e,
            },
    {
        self.request_headers(trace_id, true)
    }

    /// The headers of an audit request.
    pub fn audit_headers(&self, trace_id: &str) -> (r: Result<Vec<HeaderEntry>, ViError>)
        ensures
            match request_headers_of(trace_id@, self.api_key_view(), false) {
                Ok(hs) => r matches Ok(v) && headers_view(v@) == hs,
                Err(e) => r matches Err(x) && x@ == e,
            },
    {
        self.request_headers(trace_id, false)
    }
}

// ----------------------------------------------------------------------------
// Responses and transport failures.

/// The error for a non-success HTTP status.
pub open spec fn http_status_error_of(endpoint: Seq<char>, status: u16) -> ViErrorView {
    ViErrorView::Network { endpoint, kind: NetworkErrorKind::HttpStatus, http_status: Some(status) }
}

/// Whether an HTTP status is a success (`2xx`).
pub open spec fn is_success(status: u16) -> bool {
    200 <= status < 300
}

/// The error for a non-success HTTP status.
pub fn http_status_error(endpoint: &str, status: u16) -> (e: ViError)
    ensures
        e@ == http_status_error_of(endpoint@, status),
{
    ViError::Network { endpoint: endpoint.to_owned(), kind: NetworkErrorKind::HttpStatus, http_status: Some(status) }
}

/// Accept a chat response's status: a non-success status is an error unless
/// the provider sent a degraded `Warning: 199`.
pub fn check_chat_status(url: &str, status: u16, warning: &Option<String>) -> (r: Result<(), ViError>)
    ensures
        r is Err <==> (!is_success(status) && warning is None),
        r matches Err(e) ==> e@ == http_status_error_of(url@, status),
{
    if !(200 <= status && status < 300) && warning.is_none() {
        Err(http_status_error(url, status))
    } else {
        Ok(())
    }
}

/// Accept an audit response's status: only a success is.
pub fn check_audit_status(url: &str, status: u16) -> (r: Result<(), ViError>)
    ensures
        r is Err <==> !is_success(status),
        r matches Err(e) ==> e@ == http_status_error_of(url@, status),
{
    if !(200 <= status && status < 300) {
        Err(http_status_error(url, status))
    } else {
        Ok(())
    }
}

/// The first `Warning` header value (`None` where a value is not visible
/// text) that is a `199` warning.
pub open spec fn first_warning_199(values: Seq<Option<Seq<char>>>) -> Option<Seq<char>>
    decreases values.len(),
{
    if values.len() == 0 {
        None
    } else {
        match values[0] {
            Some(v) => if is_warning_199_text(v) {
                Some(v)
            } else {
                first_warning_199(values.drop_first())
            },
            None => first_warning_199(values.drop_first()),
        }
    }
}

/// Views of optional header values.
pub open spec fn opt_values_view(v: Seq<Option<String>>) -> Seq<Option<Seq<char>>> {
    v.map_values(|o: Option<String>| crate::errors::opt_str_view(o))
}

/// The degraded-response warning among a response's `Warning` header values.
pub fn warning_199(values: &Vec<Option<String>>) -> (r: Option<String>)
    ensures
        crate::errors::opt_str_view(r) == first_warning_199(opt_values_view(values@)),
{
    let ghost vs = opt_values_view(values@);
    let mut i: usize = 0;
    assert(vs.subrange(0, vs.len() as int) =~= vs);
    while i < values.len()
        invariant
            i <= values@.len(),
            vs == opt_values_view(values@),
            first_warning_199(vs) == first_warning_199(vs.subrange(i as int, vs.len() as int)),
        decreases values@.len() - i,
    {
        let ghost rest = vs.subrange(i as int, vs.len() as int);
        assert(rest.drop_first() =~= vs.subrange(i + 1, vs.len() as int));
        assert(rest[0] == vs[i as int]);
        match &values[i] {
            Some(v) => {
                if is_warning_199(v.as_str()) {
                    return Some(v.as_str().to_owned());
                }
            },
            None => {},
        }
        i = i + 1;
    }
    None
}

/// The kind of a transport failure, from the failure's flags and its
/// message, read in ASCII lowercase.
pub open spec fn network_kind_of(is_timeout: bool, message: Seq<char>, is_connect: bool) -> NetworkErrorKind {
    let m = lower(message);
    if is_timeout {
        NetworkErrorKind::Timeout
    } else if crate::text::contains_text(m, "eof"@) {
        NetworkErrorKind::TlsHandshakeEof
    } else if crate::text::contains_text(m, "tls"@) || crate::text::contains_text(m, "certificate"@)
        || crate::text::contains_text(m, "handshake"@) {
        NetworkErrorKind::Tls
    } else if is_connect {
        NetworkErrorKind::ConnectionRefused
    } else {
        NetworkErrorKind::Other
    }
}

fn message_has(m: &[char], word: &str) -> (r: bool)
    ensures
        r == crate::text::contains_text(m@, word@),
{
    let w = str_chars(word);
    crate::text::chars_contains(m, w.as_slice())
}

/// The error for a failed provider request: its endpoint, the kind read from
/// the failure (see [`network_kind_of`]) and the HTTP status, if any.
pub fn network_error(endpoint: &str, is_timeout: bool, message: &str, is_connect: bool, http_status: Option<
    u16,
>) -> (e: ViError)
    ensures
        e@ == (ViErrorView::Network {
            endpoint: endpoint@,
            kind: network_kind_of(is_timeout, message@, is_connect),
            http_status,
        }),
{
    let chars = str_chars(message);
    let m = crate::text::chars_lower(chars.as_slice());
    let m = m.as_slice();
    let kind = if is_timeout {
        NetworkErrorKind::Timeout
    } else if message_has(m, "eof") {
        NetworkErrorKind::TlsHandshakeEof
    } else if message_has(m, "tls") || message_has(m, "certificate") || message_has(m, "handshake") {
        NetworkErrorKind::Tls
    } else if is_connect {
        NetworkErrorKind::ConnectionRefused
    } else {
        NetworkErrorKind::Other
    };
    ViError::Network { endpoint: endpoint.to_owned(), kind, http_status }
}

/// Link-graph anchor; does nothing.
pub fn placeholder() {
}

/// Whether a `Warning` header value is a `199` (miscellaneous) warning,
/// which marks a degraded response without a receipt.
pub open spec fn is_warning_199_text(value: Seq<char>) -> bool {
    starts_with(trim_start(value), "199"@)
}

/// Whether a `Warning` header value is a `199` warning.
pub fn is_warning_199(value: &str) -> (r: bool)
    ensures
        r == is_warning_199_text(value@),
{
    let chars = str_chars(value);
    let mut i: usize = 0;
    while i < chars.len() && crate::text::char_is_whitespace(chars[i])
        invariant
            i <= chars@.len(),
            forall|j: int| 0 <= j < i ==> crate::text::is_whitespace(#[trigger] chars@[j]),
        decreases chars@.len() - i,
    {
        i = i + 1;
    }
    proof {
        crate::text::lemma_trim_start_skip(chars@, i as int);
    }
    let rest = slice_subrange(chars.as_slice(), i, chars.len());
    assert(trim_start(rest@) == rest@);
    let prefix = str_chars("199");
    proof {
        reveal_strlit("199");
    }
    assert(lower(prefix@) =~= prefix@);
    let r = chars_lower_starts_with(rest, prefix.as_slice());
    assert(r == starts_with(rest@, prefix@)) by {
        if prefix@.len() <= rest@.len() {
            assert forall|k: int| 0 <= k < prefix@.len() implies crate::text::lower_char(rest@[k]) == prefix@[k] <==> rest@[k] == prefix@[k] by {
            }
            if starts_with(lower(rest@), prefix@) {
                assert(rest@.subrange(0, 3) =~= prefix@) by {
                    assert forall|k: int| 0 <= k < 3 implies rest@[k] == prefix@[k] by {
                        assert(lower(rest@).subrange(0, 3)[k] == prefix@[k]);
                    }
                }
            }
            if starts_with(rest@, prefix@) {
                assert(lower(rest@).subrange(0, 3) =~= prefix@) by {
                    assert forall|k: int| 0 <= k < 3 implies lower(rest@).subrange(0, 3)[k] == prefix@[k] by {
                        assert(rest@.subrange(0, 3)[k] == prefix@[k]);
                    }
                }
            }
        }
    }
    r
}

} // verus!
