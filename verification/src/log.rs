//! Logging policy: which filter directive wins, the per-process trace
//! identifier, and how event fields are redacted before they are written.

use vstd::prelude::*;
use vstd::utf8::{decode_utf8, encode_utf8, valid_utf8};

use crate::text::{
    chars_eq_ignore_case, chars_starts_with, chars_to_string, chars_upper_starts_with, decimal,
    eq_ignore_case, hex_text, push_decimal, push_hex, starts_with, str_chars, str_eq, trim,
    trim_chars, upper, lower,
};

verus! {

/// Project-specific log filter environment variable.
pub const VI_LOG_ENV: &'static str = "VI_LOG";

/// Standard tracing/log filter environment variable.
pub const RUST_LOG_ENV: &'static str = "RUST_LOG";

/// Default filter: silent on successful INFO/DEBUG events.
pub const DEFAULT_FILTER: &'static str = "error";

/// Logging initialization failure.
#[derive(Debug, Clone, PartialEq, Eq)]
pub enum InitError {
    /// A provided filter directive was not accepted by `tracing-subscriber`.
    InvalidFilter {
        /// Source that supplied the invalid directive.
        source: &'static str,
        /// Original directive string.
        value: String,
        /// Parser error message.
        reason: String,
    },
}

impl InitError {
    /// User-facing source name that supplied the rejected filter.
    pub fn source_name(&self) -> (s: &'static str)
        ensures
            match self {
                InitError::InvalidFilter { source, .. } => s == source,
            },
    {
        match self {
            InitError::InvalidFilter { source, .. } => source,
        }
    }
}

// ----------------------------------------------------------------------------
// Filter precedence.

/// A filter value trimmed, `None` when absent or blank.
pub open spec fn nonblank(value: Option<Seq<char>>) -> Option<Seq<char>> {
    match value {
        Some(v) => if trim(v).len() > 0 {
            Some(trim(v))
        } else {
            None
        },
        None => None,
    }
}

/// The filter in force and the source that supplied it: the `--log`
/// override, then `VI_LOG`, then `RUST_LOG`, then the default; blank values
/// are skipped.
pub open spec fn filter_choice(
    filter_override: Option<Seq<char>>,
    vi_log: Option<Seq<char>>,
    rust_log: Option<Seq<char>>,
) -> (Seq<char>, Seq<char>) {
    match nonblank(filter_override) {
        Some(f) => ("--log"@, f),
        None => match nonblank(vi_log) {
            Some(f) => (VI_LOG_ENV@, f),
            None => match nonblank(rust_log) {
                Some(f) => (RUST_LOG_ENV@, f),
                None => ("default"@, DEFAULT_FILTER@),
            },
        },
    }
}

/// View of an optional text.
pub open spec fn opt_view(value: Option<&str>) -> Option<Seq<char>> {
    match value {
        Some(v) => Some(v@),
        None => None,
    }
}

/// The trimmed value, `None` when absent or blank.
pub fn non_empty(value: Option<&str>) -> (r: Option<String>)
    ensures
        crate::errors::opt_str_view(r) == nonblank(opt_view(value)),
{
    match value {
        Some(v) => {
            let chars = str_chars(v);
            let t = trim_chars(chars.as_slice());
            if t.len() > 0 {
                Some(chars_to_string(t))
            } else {
                None
            }
        },
        None => None,
    }
}

/// The filter in force and its source, given the `--log` override and the
/// values of `VI_LOG` and `RUST_LOG` (`None` when unset).
pub fn filter_source(filter_override: Option<&str>, vi_log: Option<&str>, rust_log: Option<&str>) -> (r: (
    &'static str,
    String,
))
    ensures
        (r.0@, r.1@) == filter_choice(opt_view(filter_override), opt_view(vi_log), opt_view(rust_log)),
{
    if let Some(f) = non_empty(filter_override) {
        return ("--log", f);
    }
    if let Some(f) = non_empty(vi_log) {
        return (VI_LOG_ENV, f);
    }
    if let Some(f) = non_empty(rust_log) {
        return (RUST_LOG_ENV, f);
    }
    ("default", DEFAULT_FILTER.to_owned())
}

/// What `EnvFilter::try_new` makes of a directive string: accepted, or
/// refused with the parser's message.
pub uninterp spec fn env_filter_parse(directives: Seq<char>) -> Result<(), Seq<char>>;

/// Outcome of a check whose refusal carries a message.
pub open spec fn text_outcome(r: Result<(), String>) -> Result<(), Seq<char>> {
    match r {
        Ok(()) => Ok(()),
        Err(e) => Err(e@),
    }
}

/// Parse filter directives with `tracing_subscriber::EnvFilter::try_new`.
///
/// Trusted: the outcome, and the parser's message on refusal, depend on the
/// directive text alone and are given a name; nothing more is claimed.
#[verifier::external_body]
fn check_env_filter(directives: &str) -> (r: Result<(), String>)
    ensures
        text_outcome(r) == env_filter_parse(directives@),
{
    match tracing_subscriber::EnvFilter::try_new(directives) {
        Ok(_) => Ok(()),
        Err(error) => Err(error.to_string()),
    }
}

/// The filter in force and its source once its directives have been parsed:
/// accepted, or refused naming its source, value and the parser's message.
pub open spec fn filter_outcome_of(source: Seq<char>, filter: Seq<char>, parsed: Result<(), Seq<char>>) -> Result<
    (Seq<char>, Seq<char>),
    (Seq<char>, Seq<char>, Seq<char>),
> {
    match parsed {
        Ok(()) => Ok((source, filter)),
        Err(reason) => Err((source, filter, reason)),
    }
}

/// View of a filter resolution.
pub open spec fn resolution_view(r: Result<(&'static str, String), InitError>) -> Result<
    (Seq<char>, Seq<char>),
    (Seq<char>, Seq<char>, Seq<char>),
> {
    match r {
        Ok((s, f)) => Ok((s@, f@)),
        Err(InitError::InvalidFilter { source, value, reason }) => Err((source@, value@, reason@)),
    }
}

/// The filter in force once its directives have been parsed.
pub fn filter_outcome(source: &'static str, filter: String, parsed: Result<(), String>) -> (r: Result<
    (&'static str, String),
    InitError,
>)
    ensures
        resolution_view(r) == filter_outcome_of(source@, filter@, text_outcome(parsed)),
{
    match parsed {
        Ok(()) => Ok((source, filter)),
        Err(reason) => Err(InitError::InvalidFilter { source, value: filter, reason }),
    }
}

/// Resolve the filter in force (see [`filter_source`]) and check that its
/// directives parse; a refused filter names its source, value and reason.
pub fn resolve_filter(filter_override: Option<&str>, vi_log: Option<&str>, rust_log: Option<&str>) -> (r:
    Result<(&'static str, String), InitError>)
    ensures
        ({
            let (source, filter) = filter_choice(
                opt_view(filter_override),
                opt_view(vi_log),
                opt_view(rust_log),
            );
            resolution_view(r) == filter_outcome_of(source, filter, env_filter_parse(filter))
        }),
{
    let (source, filter) = filter_source(filter_override, vi_log, rust_log);
    let parsed = check_env_filter(filter.as_str());
    filter_outcome(source, filter, parsed)
}

// ----------------------------------------------------------------------------
// Trace identifiers.

/// Whether `c` is a character of the Crockford base32 alphabet that ULIDs use.
pub open spec fn is_crockford(c: char) -> bool {
    ||| ('0' <= c && c <= '9')
    ||| ('A' <= c && c <= 'H')
    ||| c == 'J'
    ||| c == 'K'
    ||| c == 'M'
    ||| c == 'N'
    ||| ('P' <= c && c <= 'T')
    ||| ('V' <= c && c <= 'Z')
}

/// Whether a text has the shape of a ULID: 26 Crockford base32 characters.
pub open spec fn ulid_shaped(s: Seq<char>) -> bool {
    s.len() == 26 && forall|i: int| 0 <= i < 26 ==> is_crockford(#[trigger] s[i])
}

/// Render a fresh `ulid::Ulid::new()`.
///
/// Trusted: `Ulid`'s `Display` writes the 128-bit value as 26 characters of
/// the alphabet `0123456789ABCDEFGHJKMNPQRSTVWXYZ`; the value itself rests on
/// the clock and a random source, and nothing is claimed of it.
#[verifier::external_body]
fn new_ulid_text() -> (s: String)
    ensures
        ulid_shaped(s@),
{
    ulid::Ulid::new().to_string()
}

/// Generate a fresh ULID for per-process log correlation.
pub fn generate_trace_id() -> (s: String)
    ensures
        ulid_shaped(s@),
{
    new_ulid_text()
}

// ----------------------------------------------------------------------------
// Field redaction.

/// Severity of the event whose fields are redacted.
#[derive(Debug, Clone, Copy, PartialEq, Eq, Structural)]
pub enum LogLevel {
    Trace,
    Debug,
    Info,
    Warn,
    Error,
}

/// A field value of a structured log event.
#[derive(Debug, PartialEq)]
pub enum LogValue {
    Null,
    Bool(bool),
    Int(i64),
    UInt(u64),
    Str(String),
    Array(Vec<LogValue>),
}

/// What the redaction policy does with a field.
#[derive(Debug, Clone, Copy, PartialEq, Eq, Structural)]
pub enum RedactionAction {
    /// Write the field as it is.
    Keep,
    /// Never write the field.
    Drop,
    /// Write a hexadecimal prefix of the bytes, and only at TRACE.
    BytesPrefixAtTrace,
    /// Write the arguments with credentials masked.
    SanitizeArgs,
}

/// Fields that are never written: prompts, answers, keys and credentials.
pub open spec fn dropped_field(field: Seq<char>) -> bool {
    ||| eq_ignore_case(field, "prompt"@)
    ||| eq_ignore_case(field, "generated_text"@)
    ||| eq_ignore_case(field, "answer"@)
    ||| eq_ignore_case(field, "bundle_json"@)
    ||| eq_ignore_case(field, "key_bytes"@)
    ||| eq_ignore_case(field, "authorization"@)
    ||| eq_ignore_case(field, "cookie"@)
    ||| eq_ignore_case(field, "set-cookie"@)
    ||| eq_ignore_case(field, "set_cookie"@)
    ||| eq_ignore_case(field, "api_key"@)
    ||| eq_ignore_case(field, "vi_api_key"@)
}

/// The redaction policy of a field, names compared up to ASCII case.
pub open spec fn redaction_action_of(field: Seq<char>) -> RedactionAction {
    if dropped_field(field) {
        RedactionAction::Drop
    } else if eq_ignore_case(field, "receipt_bytes"@) || eq_ignore_case(field, "audit_bytes"@) {
        RedactionAction::BytesPrefixAtTrace
    } else if eq_ignore_case(field, "args"@) {
        RedactionAction::SanitizeArgs
    } else {
        RedactionAction::Keep
    }
}

/// Secrets are never written: a field named `prompt`, `generated_text`,
/// `answer`, `bundle_json`, `key_bytes`, `authorization`, `cookie`,
/// `set-cookie`, `set_cookie`, `api_key` or `vi_api_key`, in any ASCII case,
/// is dropped.
pub proof fn lemma_secret_fields_are_dropped(field: Seq<char>)
    requires
        lower(field) == "prompt"@ || lower(field) == "generated_text"@ || lower(field) == "answer"@
            || lower(field) == "bundle_json"@ || lower(field) == "key_bytes"@ || lower(field)
            == "authorization"@ || lower(field) == "cookie"@ || lower(field) == "set-cookie"@
            || lower(field) == "set_cookie"@ || lower(field) == "api_key"@ || lower(field)
            == "vi_api_key"@,
    ensures
        redaction_action_of(field) == RedactionAction::Drop,
{
    reveal_strlit("prompt");
    reveal_strlit("generated_text");
    reveal_strlit("answer");
    reveal_strlit("bundle_json");
    reveal_strlit("key_bytes");
    reveal_strlit("authorization");
    reveal_strlit("cookie");
    reveal_strlit("set-cookie");
    reveal_strlit("set_cookie");
    reveal_strlit("api_key");
    reveal_strlit("vi_api_key");
    assert(lower("prompt"@) =~= "prompt"@);
    assert(lower("generated_text"@) =~= "generated_text"@);
    assert(lower("answer"@) =~= "answer"@);
    assert(lower("bundle_json"@) =~= "bundle_json"@);
    assert(lower("key_bytes"@) =~= "key_bytes"@);
    assert(lower("authorization"@) =~= "authorization"@);
    assert(lower("cookie"@) =~= "cookie"@);
    assert(lower("set-cookie"@) =~= "set-cookie"@);
    assert(lower("set_cookie"@) =~= "set_cookie"@);
    assert(lower("api_key"@) =~= "api_key"@);
    assert(lower("vi_api_key"@) =~= "vi_api_key"@);
}

fn field_is(field: &[char], name: &str) -> (r: bool)
    ensures
        r == eq_ignore_case(field@, name@),
{
    let n = str_chars(name);
    chars_eq_ignore_case(field, n.as_slice())
}

/// The redaction policy of a field.
pub fn redaction_action(field: &str) -> (a: RedactionAction)
    ensures
        a == redaction_action_of(field@),
{
    let f = str_chars(field);
    let f = f.as_slice();
    if field_is(f, "prompt") || field_is(f, "generated_text") || field_is(f, "answer") || field_is(
        f,
        "bundle_json",
    ) || field_is(f, "key_bytes") || field_is(f, "authorization") || field_is(f, "cookie")
        || field_is(f, "set-cookie") || field_is(f, "set_cookie") || field_is(f, "api_key")
        || field_is(f, "vi_api_key") {
        RedactionAction::Drop
    } else if field_is(f, "receipt_bytes") || field_is(f, "audit_bytes") {
        RedactionAction::BytesPrefixAtTrace
    } else if field_is(f, "args") {
        RedactionAction::SanitizeArgs
    } else {
        RedactionAction::Keep
    }
}

/// Number of bytes that a hexadecimal prefix shows.
pub const PREFIX_BYTES: usize = 32;

/// The hexadecimal of the first 32 bytes, followed by `...` when more follow.
pub open spec fn hex_prefix_text(bytes: Seq<u8>) -> Seq<char> {
    if bytes.len() > 32 {
        hex_text(bytes.subrange(0, 32)) + "..."@
    } else {
        hex_text(bytes)
    }
}

/// A hexadecimal prefix never shows more than 32 bytes: two digits for each
/// byte shown, and `...` when bytes were left out.
pub proof fn lemma_hex_prefix_shows_at_most_32_bytes(bytes: Seq<u8>)
    ensures
        bytes.len() <= 32 ==> hex_prefix_text(bytes).len() == 2 * bytes.len(),
        bytes.len() > 32 ==> hex_prefix_text(bytes).len() == 67,
{
    reveal_strlit("...");
    if bytes.len() > 32 {
        crate::text::lemma_hex_text_len(bytes.subrange(0, 32));
    } else {
        crate::text::lemma_hex_text_len(bytes);
    }
}

/// Render the hexadecimal prefix of `bytes`.
pub fn hex_prefix(bytes: &[u8]) -> (s: String)
    ensures
        s@ == hex_prefix_text(bytes@),
{
    let mut out = String::new();
    if bytes.len() > PREFIX_BYTES {
        push_hex(&mut out, vstd::slice::slice_subrange(bytes, 0, PREFIX_BYTES));
        out.append("...");
    } else {
        push_hex(&mut out, bytes);
    }
    proof {
        reveal_strlit("");
    }
    out
}

/// Decimal rendering of a signed integer.
pub open spec fn signed_decimal(i: i64) -> Seq<char> {
    if i < 0 {
        "-"@ + decimal((-i) as nat)
    } else {
        decimal(i as nat)
    }
}

/// The JSON text of a scalar value (`null`, a boolean or an integer).
pub open spec fn scalar_text(v: LogValue) -> Seq<char> {
    match v {
        LogValue::Null => "null"@,
        LogValue::Bool(b) => if b {
            "true"@
        } else {
            "false"@
        },
        LogValue::Int(i) => signed_decimal(i),
        LogValue::UInt(u) => decimal(u as nat),
        LogValue::Str(s) => s@,
        LogValue::Array(_) => Seq::empty(),
    }
}

fn scalar_string(v: &LogValue) -> (s: String)
    ensures
        s@ == scalar_text(*v),
{
    proof {
        reveal_strlit("");
    }
    match v {
        LogValue::Null => "null".to_owned(),
        LogValue::Bool(b) => if *b {
            "true".to_owned()
        } else {
            "false".to_owned()
        },
        LogValue::Int(i) => {
            let mut s = String::new();
            if *i < 0 {
                s.append("-");
                let m: u64 = ((-(*i + 1)) as u64) + 1;
                push_decimal(&mut s, m);
            } else {
                push_decimal(&mut s, *i as u64);
            }
            s
        },
        LogValue::UInt(u) => {
            let mut s = String::new();
            push_decimal(&mut s, *u);
            s
        },
        LogValue::Str(t) => t.as_str().to_owned(),
        LogValue::Array(_) => String::new(),
    }
}

/// The byte values among array elements: the non-negative integers below 256.
pub open spec fn small_bytes(values: Seq<LogValue>) -> Seq<u8>
    decreases values.len(),
{
    if values.len() == 0 {
        Seq::empty()
    } else {
        let rest = small_bytes(values.drop_last());
        match values.last() {
            LogValue::UInt(u) => if u < 256 {
                rest.push(u as u8)
            } else {
                rest
            },
            LogValue::Int(i) => if 0 <= i < 256 {
                rest.push(i as u8)
            } else {
                rest
            },
            _ => rest,
        }
    }
}

/// The hexadecimal prefix of a value's bytes: a string's UTF-8 bytes, an
/// array's byte values, or the JSON text of a scalar.
pub open spec fn value_hex_prefix(v: LogValue) -> Seq<char> {
    match v {
        LogValue::Str(s) => hex_prefix_text(encode_utf8(s@)),
        LogValue::Array(vs) => hex_prefix_text(small_bytes(vs@)),
        _ => hex_prefix_text(encode_utf8(scalar_text(v))),
    }
}

fn array_bytes(values: &Vec<LogValue>) -> (b: Vec<u8>)
    ensures
        b@ == small_bytes(values@),
{
    let mut out: Vec<u8> = Vec::new();
    let mut i: usize = 0;
    assert(values@.subrange(0, 0) =~= Seq::<LogValue>::empty());
    while i < values.len()
        invariant
            i <= values@.len(),
            out@ == small_bytes(values@.subrange(0, i as int)),
        decreases values@.len() - i,
    {
        assert(values@.subrange(0, i + 1).drop_last() =~= values@.subrange(0, i as int));
        match &values[i] {
            LogValue::UInt(u) => if *u < 256 {
                out.push(*u as u8);
            },
            LogValue::Int(n) => if 0 <= *n && *n < 256 {
                out.push(*n as u8);
            },
            _ => {},
        }
        i = i + 1;
    }
    assert(values@.subrange(0, values@.len() as int) =~= values@);
    out
}

fn value_to_hex_prefix(value: LogValue) -> (r: LogValue)
    ensures
        r matches LogValue::Str(s) && s@ == value_hex_prefix(value),
{
    match value {
        LogValue::Str(s) => LogValue::Str(hex_prefix(s.as_str().as_bytes())),
        LogValue::Array(vs) => {
            let bytes = array_bytes(&vs);
            LogValue::Str(hex_prefix(bytes.as_slice()))
        },
        other => {
            let text = scalar_string(&other);
            LogValue::Str(hex_prefix(text.as_str().as_bytes()))
        },
    }
}


// ----------------------------------------------------------------------------
// Argument sanitizing.

/// One step of credential masking over command-line tokens: the token
/// written, and whether the next token is a secret.
pub open spec fn sanitize_step(token: Seq<char>, redact_next: bool) -> (Seq<char>, bool) {
    if redact_next {
        ("[REDACTED]"@, false)
    } else if token == "--api-key"@ {
        (token, true)
    } else if starts_with(token, "--api-key="@) {
        ("--api-key=[REDACTED]"@, false)
    } else if starts_with(upper(token), "VI_API_KEY="@) {
        ("VI_API_KEY=[REDACTED]"@, false)
    } else {
        (token, false)
    }
}

/// Masked tokens, and whether the token after them is a secret.
pub open spec fn tokens_acc(tokens: Seq<Seq<char>>) -> (Seq<Seq<char>>, bool)
    decreases tokens.len(),
{
    if tokens.len() == 0 {
        (Seq::empty(), false)
    } else {
        let (done, redact) = tokens_acc(tokens.drop_last());
        let (t, next) = sanitize_step(tokens.last(), redact);
        (done.push(t), next)
    }
}

/// Masking over array elements: `Some(text)` for a string element written as
/// `text`, `None` for an element kept as it is; and whether the next string
/// is a secret. Elements that are not strings leave that state alone.
pub open spec fn values_acc(values: Seq<LogValue>) -> (Seq<Option<Seq<char>>>, bool)
    decreases values.len(),
{
    if values.len() == 0 {
        (Seq::empty(), false)
    } else {
        let (done, redact) = values_acc(values.drop_last());
        match values.last() {
            LogValue::Str(s) => {
                let (t, next) = sanitize_step(s@, redact);
                (done.push(Some(t)), next)
            },
            _ => (done.push(None), redact),
        }
    }
}

/// Words of `s` so far and the word being read, scanning left to right.
pub open spec fn words_acc(s: Seq<char>) -> (Seq<Seq<char>>, Seq<char>)
    decreases s.len(),
{
    if s.len() == 0 {
        (Seq::empty(), Seq::empty())
    } else {
        let (done, cur) = words_acc(s.drop_last());
        let c = s.last();
        if crate::text::is_whitespace(c) {
            if cur.len() > 0 {
                (done.push(cur), Seq::empty())
            } else {
                (done, cur)
            }
        } else {
            (done, cur.push(c))
        }
    }
}

/// The whitespace-separated words of `s`, as `str::split_whitespace` yields them.
pub open spec fn words(s: Seq<char>) -> Seq<Seq<char>> {
    let (done, cur) = words_acc(s);
    if cur.len() > 0 {
        done.push(cur)
    } else {
        done
    }
}

/// Words joined by single spaces.
pub open spec fn join_words(ws: Seq<Seq<char>>) -> Seq<char>
    decreases ws.len(),
{
    if ws.len() == 0 {
        Seq::empty()
    } else if ws.len() == 1 {
        ws[0]
    } else {
        join_words(ws.drop_last()) + " "@ + ws.last()
    }
}

/// A command line with its credentials masked, words rejoined by single spaces.
pub open spec fn sanitize_text(s: Seq<char>) -> Seq<char> {
    join_words(tokens_acc(words(s)).0)
}

/// Whether `out` is `values` with credentials masked: string elements
/// rewritten as [`values_acc`] says, other elements unchanged.
pub open spec fn values_sanitized(values: Seq<LogValue>, out: Seq<LogValue>) -> bool {
    let expected = values_acc(values).0;
    &&& out.len() == values.len()
    &&& forall|i: int|
        0 <= i < values.len() ==> match #[trigger] expected[i] {
            Some(t) => out[i] matches LogValue::Str(o) && o@ == t,
            None => out[i] == values[i],
        }
}

/// Whether `out` is `value` with credentials masked: an array element-wise,
/// a string as a command line, and any other value as its JSON text.
pub open spec fn sanitized_value(value: LogValue, out: LogValue) -> bool {
    match value {
        LogValue::Array(vs) => out matches LogValue::Array(os) && values_sanitized(vs@, os@),
        LogValue::Str(s) => out matches LogValue::Str(o) && o@ == sanitize_text(s@),
        _ => out matches LogValue::Str(o) && o@ == sanitize_text(scalar_text(value)),
    }
}

/// Views of a sequence of strings.
pub open spec fn strings_view(v: Seq<String>) -> Seq<Seq<char>> {
    v.map_values(|s: String| s@)
}

proof fn lemma_values_acc_len(values: Seq<LogValue>)
    ensures
        values_acc(values).0.len() == values.len(),
    decreases values.len(),
{
    if values.len() > 0 {
        lemma_values_acc_len(values.drop_last());
    }
}

/// Mask one token.
fn sanitize_token(token: &str, redact_next: bool) -> (r: (String, bool))
    ensures
        (r.0@, r.1) == sanitize_step(token@, redact_next),
{
    if redact_next {
        return ("[REDACTED]".to_owned(), false);
    }
    if str_eq(token, "--api-key") {
        return (token.to_owned(), true);
    }
    let chars = str_chars(token);
    let flag = str_chars("--api-key=");
    if chars_starts_with(chars.as_slice(), flag.as_slice()) {
        return ("--api-key=[REDACTED]".to_owned(), false);
    }
    let env = str_chars("VI_API_KEY=");
    if chars_upper_starts_with(chars.as_slice(), env.as_slice()) {
        return ("VI_API_KEY=[REDACTED]".to_owned(), false);
    }
    (token.to_owned(), false)
}

/// Mask credentials in the elements of an argument array: the token after
/// `--api-key`, and the values of `--api-key=` and `VI_API_KEY=` tokens.
pub fn sanitize_args(values: Vec<LogValue>) -> (out: Vec<LogValue>)
    ensures
        values_sanitized(values@, out@),
{
    let ghost orig = values@;
    let mut rest = values;
    let mut out: Vec<LogValue> = Vec::new();
    let mut redact_next = false;
    let ghost mut i: int = 0;
    assert(orig.subrange(0, 0) =~= Seq::<LogValue>::empty());
    assert(orig.subrange(0, orig.len() as int) =~= orig);
    while rest.len() > 0
        invariant
            0 <= i <= orig.len(),
            rest@ == orig.subrange(i, orig.len() as int),
            values_acc(orig.subrange(0, i)).1 == redact_next,
            values_sanitized(orig.subrange(0, i), out@),
        decreases rest@.len(),
    {
        let value = rest.remove(0);
        let ghost prefix = orig.subrange(0, i);
        let ghost next_prefix = orig.subrange(0, i + 1);
        assert(next_prefix.drop_last() =~= prefix);
        assert(next_prefix.last() == value);
        proof {
            lemma_values_acc_len(prefix);
            lemma_values_acc_len(next_prefix);
        }
        let ghost out_before = out@;
        match value {
            LogValue::Str(s) => {
                let (t, next) = sanitize_token(s.as_str(), redact_next);
                out.push(LogValue::Str(t));
                redact_next = next;
            },
            other => {
                out.push(other);
            },
        }
        proof {
            i = i + 1;
            assert(rest@ =~= orig.subrange(i, orig.len() as int));
            let expected = values_acc(next_prefix).0;
            assert forall|j: int| 0 <= j < next_prefix.len() implies match #[trigger] expected[j] {
                Some(t) => out@[j] matches LogValue::Str(o) && o@ == t,
                None => out@[j] == next_prefix[j],
            } by {
                if j < prefix.len() {
                    assert(expected[j] == values_acc(prefix).0[j]);
                    assert(out@[j] == out_before[j]);
                    assert(next_prefix[j] == prefix[j]);
                }
            }
        }
    }
    out
}

/// The words of a text.
fn split_words(s: &str) -> (ws: Vec<String>)
    ensures
        strings_view(ws@) == words(s@),
{
    let chars = str_chars(s);
    let mut done: Vec<String> = Vec::new();
    let mut cur: Vec<char> = Vec::new();
    let mut i: usize = 0;
    assert(chars@.subrange(0, 0) =~= Seq::<char>::empty());
    assert(strings_view(done@) =~= Seq::<Seq<char>>::empty());
    while i < chars.len()
        invariant
            i <= chars@.len(),
            chars@ == s@,
            (strings_view(done@), cur@) == words_acc(chars@.subrange(0, i as int)),
        decreases chars@.len() - i,
    {
        let c = chars[i];
        assert(chars@.subrange(0, i + 1).drop_last() =~= chars@.subrange(0, i as int));
        if crate::text::char_is_whitespace(c) {
            if cur.len() > 0 {
                let ghost before = strings_view(done@);
                let w = chars_to_string(cur.as_slice());
                done.push(w);
                assert(strings_view(done@) =~= before.push(cur@));
                cur = Vec::new();
            }
        } else {
            cur.push(c);
        }
        i = i + 1;
    }
    assert(chars@.subrange(0, chars@.len() as int) =~= chars@);
    if cur.len() > 0 {
        let ghost before = strings_view(done@);
        let w = chars_to_string(cur.as_slice());
        done.push(w);
        assert(strings_view(done@) =~= before.push(cur@));
    }
    done
}

/// Mask the credentials among words.
fn sanitize_words(tokens: &Vec<String>) -> (out: Vec<String>)
    ensures
        strings_view(out@) == tokens_acc(strings_view(tokens@)).0,
{
    let ghost ts = strings_view(tokens@);
    let mut out: Vec<String> = Vec::new();
    let mut redact_next = false;
    let mut i: usize = 0;
    assert(ts.subrange(0, 0) =~= Seq::<Seq<char>>::empty());
    assert(strings_view(out@) =~= Seq::<Seq<char>>::empty());
    while i < tokens.len()
        invariant
            i <= tokens@.len(),
            ts == strings_view(tokens@),
            (strings_view(out@), redact_next) == tokens_acc(ts.subrange(0, i as int)),
        decreases tokens@.len() - i,
    {
        assert(ts.subrange(0, i + 1).drop_last() =~= ts.subrange(0, i as int));
        let ghost before = strings_view(out@);
        let (t, next) = sanitize_token(tokens[i].as_str(), redact_next);
        out.push(t);
        redact_next = next;
        assert(strings_view(out@) =~= before.push(out@.last()@));
        i = i + 1;
    }
    assert(ts.subrange(0, ts.len() as int) =~= ts);
    out
}

/// Words joined by single spaces.
fn join_with_spaces(ws: &Vec<String>) -> (s: String)
    ensures
        s@ == join_words(strings_view(ws@)),
{
    let ghost v = strings_view(ws@);
    let mut out = String::new();
    let mut i: usize = 0;
    proof {
        reveal_strlit("");
        reveal_strlit(" ");
    }
    assert(v.subrange(0, 0) =~= Seq::<Seq<char>>::empty());
    while i < ws.len()
        invariant
            i <= ws@.len(),
            v == strings_view(ws@),
            out@ == join_words(v.subrange(0, i as int)),
        decreases ws@.len() - i,
    {
        assert(v.subrange(0, i + 1).drop_last() =~= v.subrange(0, i as int));
        if i > 0 {
            out.append(" ");
        }
        out.append(ws[i].as_str());
        i = i + 1;
        assert(out@ =~= join_words(v.subrange(0, i as int)));
    }
    assert(v.subrange(0, v.len() as int) =~= v);
    out
}

/// Mask the credentials of a command line given as one text.
pub fn sanitize_args_string(value: &str) -> (s: String)
    ensures
        s@ == sanitize_text(value@),
{
    let ws = split_words(value);
    let masked = sanitize_words(&ws);
    join_with_spaces(&masked)
}

fn sanitize_args_value(value: LogValue) -> (r: LogValue)
    ensures
        sanitized_value(value, r),
{
    match value {
        LogValue::Array(vs) => LogValue::Array(sanitize_args(vs)),
        LogValue::Str(s) => LogValue::Str(sanitize_args_string(s.as_str())),
        other => {
            let text = scalar_string(&other);
            LogValue::Str(sanitize_args_string(text.as_str()))
        },
    }
}

proof fn lemma_values_acc_prefix(values: Seq<LogValue>, n: int)
    requires
        0 <= n <= values.len(),
    ensures
        values_acc(values.subrange(0, n)).0 == values_acc(values).0.subrange(0, n),
        n == values.len() ==> values_acc(values.subrange(0, n)) == values_acc(values),
    decreases values.len() - n,
{
    lemma_values_acc_len(values);
    lemma_values_acc_len(values.subrange(0, n));
    if n == values.len() {
        assert(values.subrange(0, n) =~= values);
        assert(values_acc(values).0.subrange(0, n) =~= values_acc(values).0);
    } else {
        lemma_values_acc_prefix(values, n + 1);
        let longer = values.subrange(0, n + 1);
        assert(longer.drop_last() =~= values.subrange(0, n));
        lemma_values_acc_len(longer);
        assert(values_acc(longer).0.subrange(0, n) =~= values_acc(values.subrange(0, n)).0);
        assert(values_acc(values).0.subrange(0, n) =~= values_acc(values).0.subrange(0, n + 1).subrange(0, n));
    }
}

/// Whenever an argument array writes a `--api-key` element as it is, the
/// next element, when it is a string, is masked.
pub proof fn lemma_api_key_value_is_masked(values: Seq<LogValue>, i: int)
    requires
        0 <= i,
        i + 1 < values.len(),
        values_acc(values).0[i] == Some("--api-key"@),
        values[i + 1] is Str,
    ensures
        values_acc(values).0[i + 1] == Some("[REDACTED]"@),
{
    lemma_values_acc_len(values);
    lemma_values_acc_prefix(values, i + 1);
    lemma_values_acc_prefix(values, i + 2);
    let p1 = values.subrange(0, i + 1);
    let p2 = values.subrange(0, i + 2);
    lemma_values_acc_len(p1);
    lemma_values_acc_len(p2);
    lemma_values_acc_len(p1.drop_last());
    assert(p1.drop_last() =~= values.subrange(0, i));
    assert(p2.drop_last() =~= p1);
    assert(values_acc(p1).0[i] == values_acc(values).0.subrange(0, i + 1)[i]);
    assert(values_acc(p2).0[i + 1] == values_acc(values).0.subrange(0, i + 2)[i + 1]);
    reveal_strlit("--api-key");
    reveal_strlit("[REDACTED]");
    reveal_strlit("--api-key=[REDACTED]");
    reveal_strlit("VI_API_KEY=[REDACTED]");
    assert(p1.last() == values[i]);
    assert(p2.last() == values[i + 1]);
    let prev = values_acc(values.subrange(0, i));
    match values[i] {
        LogValue::Str(s) => {
            let st = sanitize_step(s@, prev.1);
            assert(values_acc(p1) == (prev.0.push(Some(st.0)), st.1));
            assert(values_acc(p1).0[i] == Some(st.0));
            assert(st.0 == "--api-key"@);
            assert(st.1) by {
                if prev.1 {
                    assert(st.0.len() == 10);
                } else if s@ == "--api-key"@ {
                } else if starts_with(s@, "--api-key="@) {
                    assert(st.0.len() == 20);
                } else if starts_with(upper(s@), "VI_API_KEY="@) {
                    assert(st.0.len() == 21);
                } else {
                    assert(st.0 == s@);
                }
            }
        },
        _ => {
            assert(values_acc(p1).0[i] is None);
        },
    }
    assert(values_acc(p1).1);
}

// ----------------------------------------------------------------------------
// The redaction layer.

/// What `String::from_utf8_lossy` makes of a byte string.
pub uninterp spec fn utf8_lossy(bytes: Seq<u8>) -> Seq<char>;

/// Decode bytes with `String::from_utf8_lossy`.
///
/// Trusted: the result depends on the bytes alone (named), and, as the
/// function documents, is the bytes' text when they are valid UTF-8.
#[verifier::external_body]
fn lossy_text(bytes: &[u8]) -> (s: String)
    ensures
        s@ == utf8_lossy(bytes@),
        valid_utf8(bytes@) ==> s@ == decode_utf8(bytes@),
{
    String::from_utf8_lossy(bytes).into_owned()
}

/// Subscriber-level redaction policy for event fields.
#[derive(Debug, Clone, Copy)]
pub struct RedactionLayer;

impl Default for RedactionLayer {
    fn default() -> (r: RedactionLayer) {
        RedactionLayer
    }
}

impl RedactionLayer {
    /// Redact a field value of an event at `level`: `None` when the field is
    /// not written.
    pub fn redact_value(field: &str, value: LogValue, level: LogLevel) -> (r: Option<LogValue>)
        ensures
            match redaction_action_of(field@) {
                RedactionAction::Keep => r == Some(value),
                RedactionAction::Drop => r is None,
                RedactionAction::BytesPrefixAtTrace => if level == LogLevel::Trace {
                    r matches Some(LogValue::Str(s)) && s@ == value_hex_prefix(value)
                } else {
                    r is None
                },
                RedactionAction::SanitizeArgs => r matches Some(o) && sanitized_value(value, o),
            },
    {
        match redaction_action(field) {
            RedactionAction::Keep => Some(value),
            RedactionAction::Drop => None,
            RedactionAction::BytesPrefixAtTrace => {
                if level == LogLevel::Trace {
                    Some(value_to_hex_prefix(value))
                } else {
                    None
                }
            },
            RedactionAction::SanitizeArgs => Some(sanitize_args_value(value)),
        }
    }

    /// Redact a byte-string field of an event at `level`.
    pub fn redact_bytes(field: &str, value: &[u8], level: LogLevel) -> (r: Option<LogValue>)
        ensures
            match redaction_action_of(field@) {
                RedactionAction::Keep => r matches Some(LogValue::Array(vs)) && vs@.len()
                    == value@.len() && forall|i: int|
                    0 <= i < value@.len() ==> #[trigger] vs@[i] == LogValue::UInt(value@[i] as u64),
                RedactionAction::Drop => r is None,
                RedactionAction::BytesPrefixAtTrace => if level == LogLevel::Trace {
                    r matches Some(LogValue::Str(s)) && s@ == hex_prefix_text(value@)
                } else {
                    r is None
                },
                RedactionAction::SanitizeArgs => r matches Some(LogValue::Str(s)) && s@
                    == sanitize_text(utf8_lossy(value@)),
            },
    {
        match redaction_action(field) {
            RedactionAction::Keep => {
                let mut vs: Vec<LogValue> = Vec::new();
                let mut i: usize = 0;
                while i < value.len()
                    invariant
                        i <= value@.len(),
                        vs@.len() == i,
                        forall|j: int| 0 <= j < i ==> #[trigger] vs@[j] == LogValue::UInt(value@[j] as u64),
                    decreases value@.len() - i,
                {
                    vs.push(LogValue::UInt(value[i] as u64));
                    i = i + 1;
                }
                Some(LogValue::Array(vs))
            },
            RedactionAction::Drop => None,
            RedactionAction::BytesPrefixAtTrace => {
                if level == LogLevel::Trace {
                    Some(LogValue::Str(hex_prefix(value)))
                } else {
                    None
                }
            },
            RedactionAction::SanitizeArgs => {
                let text = lossy_text(value);
                Some(LogValue::Str(sanitize_args_string(text.as_str())))
            },
        }
    }
}

/// Link-graph anchor; does nothing.
pub fn placeholder() {
}

} // verus!
