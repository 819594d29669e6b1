//! The remote API's response envelope and its decoding.
//!
//! Every response body is a JSON object with a `code`, a `message` and an
//! optional `data` payload, where `data` may be a paginated `{items: [...]}`
//! page, a bare array, a string, or some other object. Parsing the body is
//! delegated to a JSON library behind one trusted item; everything after the
//! parse — success and failure classification, payload shapes, stack
//! resolution — is decoded by verified code over the library's own model of
//! the envelope.

use vstd::prelude::*;
use vstd::string::StringExecFns;

verus! {

/// One listed item of a stack or container page, reduced to the fields the
/// library reads: its name and its file path.
#[derive(Debug, Clone, PartialEq, Eq)]
pub struct StackEntry {
    /// The item's `name` field, when it is a string.
    pub name: Option<String>,
    /// The item's `path` field, when it is a string.
    pub path: Option<String>,
}

/// An object payload, reduced to the field the library reads.
#[derive(Debug, Clone, PartialEq, Eq)]
pub struct RawObject {
    /// The object's `content` field, when it is a string.
    pub content: Option<String>,
}

/// The shape of the envelope's `data` field.
#[derive(Debug, Clone, PartialEq, Eq)]
pub enum RawData {
    /// No `data` field, or a null one.
    Absent,
    /// `data` is a string.
    Text(String),
    /// `data` is a bare array.
    List(Vec<StackEntry>),
    /// `data` is an object with an `items` array: a pagination page.
    Page(Vec<StackEntry>),
    /// `data` is some other object.
    Object(RawObject),
}

/// A parsed response body, before success or failure is decided.
#[derive(Debug, Clone, PartialEq, Eq)]
pub struct RawEnvelope {
    /// The `code` field, when it is an integer.
    pub code: Option<i64>,
    /// The `message` field, when it is a string.
    pub message: Option<String>,
    /// The `data` field's shape.
    pub data: RawData,
}

/// What a response body parses to, named after `serde_json::from_str`: the
/// outcome is a function of the text alone. `None` stands for a body that is
/// not valid JSON.
pub uninterp spec fn envelope_of(text: Seq<char>) -> Option<RawEnvelope>;

#[verifier::external_type_specification]
#[verifier::external_body]
pub struct ExValue(serde_json::Value);

/// Relies on `serde_json::Value`: reads one listed item's `name` and `path`
/// strings for [`parse_envelope`].
#[verifier::external_body]
fn entry_of_value(v: &serde_json::Value) -> StackEntry {
    StackEntry {
        name: v.get("name").and_then(|s| s.as_str()).map(|s| s.to_string()),
        path: v.get("path").and_then(|s| s.as_str()).map(|s| s.to_string()),
    }
}

/// Relies on `serde_json::Value`: reads the `data` payload's shape for
/// [`parse_envelope`].
#[verifier::external_body]
fn data_of_value(d: Option<&serde_json::Value>) -> RawData {
    match d {
        None | Some(serde_json::Value::Null) => RawData::Absent,
        Some(serde_json::Value::String(s)) => RawData::Text(s.clone()),
        Some(serde_json::Value::Array(a)) => RawData::List(a.iter().map(entry_of_value).collect()),
        Some(d) => match d.get("items").and_then(|i| i.as_array()) {
            Some(a) => RawData::Page(a.iter().map(entry_of_value).collect()),
            None => RawData::Object(
                RawObject {
                    content: d.get("content").and_then(|c| c.as_str()).map(|s| s.to_string()),
                },
            ),
        },
    }
}

/// Relies on `serde_json::from_str`: parses a response body into the
/// envelope model, or nothing when the body is not valid JSON; the result
/// depends on the text alone.
#[verifier::external_body]
pub fn parse_envelope(text: &str) -> (r: Option<RawEnvelope>)
    ensures
        r == envelope_of(text@),
{
    match serde_json::from_str::<serde_json::Value>(text) {
        Ok(v) => Some(
            RawEnvelope {
                code: v.get("code").and_then(|c| c.as_i64()),
                message: v.get("message").and_then(|m| m.as_str()).map(|s| s.to_string()),
                data: data_of_value(v.get("data")),
            },
        ),
        Err(_) => None,
    }
}

/// A decoded successful payload: pagination pages and bare arrays are both
/// unwrapped to their items.
#[derive(Debug, Clone, PartialEq, Eq)]
pub enum Payload {
    /// No payload.
    Absent,
    /// A string payload.
    Text(String),
    /// The items of a page or a bare array.
    Items(Vec<StackEntry>),
    /// Some other object.
    Object(RawObject),
}

/// Why a remote operation failed. The four transport-level and
/// envelope-level conditions stay distinguishable: an unreachable host, a
/// rejected credential, an HTTP failure, a body that is not valid JSON, an
/// application error code, a payload of the wrong shape, and a stack that is
/// not listed.
#[derive(Debug, Clone, PartialEq, Eq)]
pub enum RemoteError {
    /// The host could not be reached; carries the transport's description.
    Transport(String),
    /// The host answered 401: the credential was rejected.
    Auth,
    /// The host answered with some other non-success HTTP status.
    Http(u16, String),
    /// The body was not valid JSON.
    Malformed,
    /// The envelope carried a non-success code and its message.
    Api(i64, String),
    /// The payload did not have the shape the operation needs.
    BadShape,
    /// No listed stack matches the wanted path.
    NotFound(String),
}

/// The message an error carries when the envelope has none.
pub open spec fn message_or_unknown(m: Option<String>) -> Seq<char> {
    match m {
        Some(s) => s@,
        None => "Unknown error"@,
    }
}

/// The success payload of an envelope, pages and arrays unwrapped.
pub open spec fn payload_of(d: RawData) -> Payload {
    match d {
        RawData::Absent => Payload::Absent,
        RawData::Text(s) => Payload::Text(s),
        RawData::List(v) => Payload::Items(v),
        RawData::Page(v) => Payload::Items(v),
        RawData::Object(o) => Payload::Object(o),
    }
}

/// How an envelope is decided: a present code other than 200 is an
/// application failure carrying the code and the message; everything else is
/// success with the payload.
pub open spec fn decode_envelope_spec(env: RawEnvelope) -> Result<Payload, (i64, Seq<char>)> {
    match env.code {
        Some(c) => if c != 200 {
            Err((c, message_or_unknown(env.message)))
        } else {
            Ok(payload_of(env.data))
        },
        None => Ok(payload_of(env.data)),
    }
}

/// Decides one parsed envelope.
pub fn decode_envelope(env: RawEnvelope) -> (r: Result<Payload, (i64, String)>)
    ensures
        match r {
            Ok(p) => decode_envelope_spec(env) == Ok::<Payload, (i64, Seq<char>)>(p),
            Err(e) => decode_envelope_spec(env) == Err::<Payload, (i64, Seq<char>)>((e.0, e.1@)),
        },
{
    match env.code {
        Some(c) => {
            if c != 200 {
                let msg = match env.message {
                    Some(s) => s,
                    None => unknown_error_string(),
                };
                Err((c, msg))
            } else {
                Ok(payload_of_exec(env.data))
            }
        },
        None => Ok(payload_of_exec(env.data)),
    }
}

/// The fallback message text.
fn unknown_error_string() -> (r: String)
    ensures
        r@ == "Unknown error"@,
{
    String::from_str("Unknown error")
}

/// Runtime counterpart of [`payload_of`].
fn payload_of_exec(d: RawData) -> (r: Payload)
    ensures
        r == payload_of(d),
{
    match d {
        RawData::Absent => Payload::Absent,
        RawData::Text(s) => Payload::Text(s),
        RawData::List(v) => Payload::Items(v),
        RawData::Page(v) => Payload::Items(v),
        RawData::Object(o) => Payload::Object(o),
    }
}

/// What the transport reports for one issued request. The library never
/// sends anything itself; a caller performs the request and hands back one of
/// these.
#[derive(Debug, Clone, PartialEq, Eq)]
pub enum HttpOutcome {
    /// The host could not be reached.
    Transport(String),
    /// The host answered 401.
    Unauthorized,
    /// The host answered another non-success status; carries status and body.
    HttpFailure(u16, String),
    /// The host answered with success and this body.
    Body(String),
}

/// How transport-level outcomes map to errors; a delivered body is decided
/// by the operation's own body predicate.
pub open spec fn transport_post<T>(outcome: HttpOutcome, r: Result<T, RemoteError>) -> bool {
    match outcome {
        HttpOutcome::Transport(e) => r == Err::<T, RemoteError>(RemoteError::Transport(e)),
        HttpOutcome::Unauthorized => r == Err::<T, RemoteError>(RemoteError::Auth),
        HttpOutcome::HttpFailure(s, b) => r == Err::<T, RemoteError>(RemoteError::Http(s, b)),
        HttpOutcome::Body(_) => true,
    }
}

/// What a stack-listing body decodes to: the unwrapped items on success, a
/// malformed-body error when it is not JSON, the application error when the
/// code is not 200, and a shape error when the payload is neither a page nor
/// an array.
pub open spec fn stack_list_post(body: Seq<char>, r: Result<Vec<StackEntry>, RemoteError>) -> bool {
    match envelope_of(body) {
        None => r == Err::<Vec<StackEntry>, RemoteError>(RemoteError::Malformed),
        Some(env) => match decode_envelope_spec(env) {
            Err(e) => (r matches Err(RemoteError::Api(c, m)) && c == e.0 && m@ == e.1),
            Ok(p) => match p {
                Payload::Items(v) => r == Ok::<Vec<StackEntry>, RemoteError>(v),
                _ => r == Err::<Vec<StackEntry>, RemoteError>(RemoteError::BadShape),
            },
        },
    }
}

/// What a unit-operation body decodes to: success whenever the envelope's
/// code allows it.
pub open spec fn unit_post(body: Seq<char>, r: Result<(), RemoteError>) -> bool {
    match envelope_of(body) {
        None => r == Err::<(), RemoteError>(RemoteError::Malformed),
        Some(env) => match decode_envelope_spec(env) {
            Err(e) => (r matches Err(RemoteError::Api(c, m)) && c == e.0 && m@ == e.1),
            Ok(_) => r == Ok::<(), RemoteError>(()),
        },
    }
}

/// The file text a successful content payload carries: the object's
/// `content` field, or empty when the payload has no such field.
pub open spec fn content_of(p: Payload) -> Seq<char> {
    match p {
        Payload::Object(o) => match o.content {
            Some(c) => c@,
            None => ""@,
        },
        _ => ""@,
    }
}

/// What a file-read body decodes to.
pub open spec fn content_post(body: Seq<char>, r: Result<String, RemoteError>) -> bool {
    match envelope_of(body) {
        None => r == Err::<String, RemoteError>(RemoteError::Malformed),
        Some(env) => match decode_envelope_spec(env) {
            Err(e) => (r matches Err(RemoteError::Api(c, m)) && c == e.0 && m@ == e.1),
            Ok(p) => (r matches Ok(s) && s@ == content_of(p)),
        },
    }
}

/// The remote path an upload yields: the string the server returned, or the
/// synthesized `{normalized dir}/{file name}` when it returned none.
pub open spec fn upload_path_of(p: Payload, dir: Seq<char>, file: Seq<char>) -> Seq<char> {
    match p {
        Payload::Text(s) => s@,
        _ => crate::client::remote_path_clean_spec(dir) + seq!['/'] + file,
    }
}

/// What an upload body decodes to.
pub open spec fn upload_post(
    body: Seq<char>,
    dir: Seq<char>,
    file: Seq<char>,
    r: Result<String, RemoteError>,
) -> bool {
    match envelope_of(body) {
        None => r == Err::<String, RemoteError>(RemoteError::Malformed),
        Some(env) => match decode_envelope_spec(env) {
            Err(e) => (r matches Err(RemoteError::Api(c, m)) && c == e.0 && m@ == e.1),
            Ok(p) => (r matches Ok(s) && s@ == upload_path_of(p, dir, file)),
        },
    }
}

/// Decodes a stack-listing response body.
pub fn decode_stack_list(body: &str) -> (r: Result<Vec<StackEntry>, RemoteError>)
    ensures
        stack_list_post(body@, r),
{
    let env = match parse_envelope(body) {
        Some(e) => e,
        None => {
            return Err(RemoteError::Malformed);
        },
    };
    match decode_envelope(env) {
        Err((c, m)) => Err(RemoteError::Api(c, m)),
        Ok(Payload::Items(v)) => Ok(v),
        Ok(_) => Err(RemoteError::BadShape),
    }
}

/// Decodes a response body whose payload does not matter: start, stop, save,
/// load, and the stack operations.
pub fn decode_unit(body: &str) -> (r: Result<(), RemoteError>)
    ensures
        unit_post(body@, r),
{
    let env = match parse_envelope(body) {
        Some(e) => e,
        None => {
            return Err(RemoteError::Malformed);
        },
    };
    match decode_envelope(env) {
        Err((c, m)) => Err(RemoteError::Api(c, m)),
        Ok(_) => Ok(()),
    }
}

/// Decodes a file-read response body into the file's text.
pub fn decode_content(body: &str) -> (r: Result<String, RemoteError>)
    ensures
        content_post(body@, r),
{
    let env = match parse_envelope(body) {
        Some(e) => e,
        None => {
            return Err(RemoteError::Malformed);
        },
    };
    proof {
        reveal_strlit("");
        assert(""@ =~= Seq::<char>::empty());
    }
    match decode_envelope(env) {
        Err((c, m)) => Err(RemoteError::Api(c, m)),
        Ok(Payload::Object(o)) => match o.content {
            Some(c) => Ok(c),
            None => Ok(String::new()),
        },
        Ok(_) => Ok(String::new()),
    }
}

/// What a log-fetch body decodes to: the endpoint may answer with an
/// envelope whose string payload is the log text, or with the raw log text
/// itself; only an explicit non-success code is a failure.
pub open spec fn logs_post(body: Seq<char>, r: Result<String, RemoteError>) -> bool {
    match envelope_of(body) {
        None => (r matches Ok(s) && s@ == body),
        Some(env) => match decode_envelope_spec(env) {
            Err(e) => (r matches Err(RemoteError::Api(c, m)) && c == e.0 && m@ == e.1),
            Ok(p) => (r matches Ok(s) && s@ == (match p {
                Payload::Text(t) => t@,
                _ => body,
            })),
        },
    }
}

/// Decodes a log-fetch response body into the log text.
pub fn decode_logs(body: &str) -> (r: Result<String, RemoteError>)
    ensures
        logs_post(body@, r),
{
    let env = match parse_envelope(body) {
        Some(e) => e,
        None => {
            return Ok(String::from_str(body));
        },
    };
    match decode_envelope(env) {
        Err((c, m)) => Err(RemoteError::Api(c, m)),
        Ok(Payload::Text(s)) => Ok(s),
        Ok(_) => Ok(String::from_str(body)),
    }
}

/// Decodes an upload response body into the resulting remote path,
/// synthesizing `{normalized dir}/{file name}` when the server returns none.
pub fn decode_upload(body: &str, dir: &str, file_name: &str) -> (r: Result<String, RemoteError>)
    ensures
        upload_post(body@, dir@, file_name@, r),
{
    let env = match parse_envelope(body) {
        Some(e) => e,
        None => {
            return Err(RemoteError::Malformed);
        },
    };
    match decode_envelope(env) {
        Err((c, m)) => Err(RemoteError::Api(c, m)),
        Ok(Payload::Text(s)) => Ok(s),
        Ok(_) => {
            let cleaned = crate::client::OnePanelClient::remote_path_clean(dir);
            let cleaned_chars = crate::text::str_chars(cleaned.as_str());
            let file_chars = crate::text::str_chars(file_name);
            let mut out: Vec<char> = Vec::new();
            let mut k: usize = 0;
            while k < cleaned_chars.len()
                invariant
                    k <= cleaned_chars@.len(),
                    out@ == cleaned_chars@.take(k as int),
                decreases cleaned_chars@.len() - k,
            {
                out.push(cleaned_chars[k]);
                k = k + 1;
                proof {
                    assert(out@ =~= cleaned_chars@.take(k as int));
                }
            }
            out.push('/');
            let mut j: usize = 0;
            while j < file_chars.len()
                invariant
                    j <= file_chars@.len(),
                    out@ == cleaned_chars@ + seq!['/'] + file_chars@.take(j as int),
                decreases file_chars@.len() - j,
            {
                out.push(file_chars[j]);
                j = j + 1;
                proof {
                    assert(out@ =~= cleaned_chars@ + seq!['/'] + file_chars@.take(j as int));
                }
            }
            proof {
                assert(cleaned_chars@.take(cleaned_chars@.len() as int) =~= cleaned_chars@);
                assert(out@ =~= upload_path_of(
                    payload_of(env.data),
                    dir@,
                    file_name@,
                ));
            }
            Ok(crate::text::chars_string(&out))
        },
    }
}

/// Maps a transport outcome to the body it delivered or the error it is.
pub fn remote_body(outcome: HttpOutcome) -> (r: Result<String, RemoteError>)
    ensures
        transport_post(outcome, r),
        (outcome matches HttpOutcome::Body(b) ==> r == Ok::<String, RemoteError>(b)),
{
    match outcome {
        HttpOutcome::Transport(e) => Err(RemoteError::Transport(e)),
        HttpOutcome::Unauthorized => Err(RemoteError::Auth),
        HttpOutcome::HttpFailure(s, b) => Err(RemoteError::Http(s, b)),
        HttpOutcome::Body(b) => Ok(b),
    }
}

/// Whether a listed entry resolves the wanted stack path: its path equals
/// the target exactly and it carries a name.
pub open spec fn stack_matches(e: StackEntry, target: Seq<char>) -> bool {
    &&& e.path matches Some(p) && p@ == target
    &&& e.name is Some
}

/// The first listed entry that resolves the target path.
pub open spec fn find_stack_spec(items: Seq<StackEntry>, target: Seq<char>) -> Option<StackEntry>
    decreases items.len(),
{
    if items.len() == 0 {
        None
    } else if stack_matches(items[0], target) {
        Some(items[0])
    } else {
        find_stack_spec(items.drop_first(), target)
    }
}

/// A found stack always satisfies the match condition, so it always carries
/// a name.
pub proof fn lemma_find_stack_matches(items: Seq<StackEntry>, target: Seq<char>)
    ensures
        find_stack_spec(items, target) matches Some(e) ==> stack_matches(e, target),
    decreases items.len(),
{
    if items.len() > 0 && !stack_matches(items[0], target) {
        lemma_find_stack_matches(items.drop_first(), target);
    }
}

/// A copy of an optional string.
fn clone_string_opt(o: &Option<String>) -> (r: Option<String>)
    ensures
        r == *o,
{
    match o {
        Some(s) => Some(s.clone()),
        None => None,
    }
}

/// Finds the stack whose recorded path equals the target, scanning the
/// listing in order and skipping entries without a name.
pub fn find_stack(items: &Vec<StackEntry>, target: &str) -> (r: Option<StackEntry>)
    ensures
        r == find_stack_spec(items@, target@),
{
    let target_chars = crate::text::str_chars(target);
    let mut k: usize = 0;
    proof {
        assert(items@.skip(0) =~= items@);
    }
    while k < items.len()
        invariant
            k <= items@.len(),
            target_chars@ == target@,
            find_stack_spec(items@, target@) == find_stack_spec(
                items@.skip(k as int),
                target@,
            ),
        decreases items@.len() - k,
    {
        let e = &items[k];
        proof {
            assert(items@.skip(k as int)[0] == items@[k as int]);
            assert(items@.skip(k as int).drop_first() =~= items@.skip(k as int + 1));
        }
        let path_matches = match &e.path {
            Some(p) => {
                let p_chars = crate::text::str_chars(p.as_str());
                crate::text::eq_chars(&p_chars, &target_chars)
            },
            None => false,
        };
        if path_matches {
            match &e.name {
                Some(_) => {
                    return Some(
                        StackEntry {
                            name: clone_string_opt(&e.name),
                            path: clone_string_opt(&e.path),
                        },
                    );
                },
                None => {},
            }
        }
        k = k + 1;
    }
    None
}

} // verus!
