//! Decisions of the balance lab's HTTP surface: which route a request takes,
//! which command requests are admitted, and which asset paths may be served.
//!
//! Reading the socket, the body and the disk is left to the caller, which hands
//! the facts it read to these functions and answers with what they decide.

use vstd::prelude::*;
use crate::balance_lab::request_text::{
    before_first, chars_of, equal_ignoring_ascii_case, first_stop, lemma_before_first_is_prefix,
    same_ignoring_ascii_case, trim, trimmed,
};
use vstd::string::*;

verus! {

/// The largest request body, in bytes, that the balance lab reads.
pub const MAX_REQUEST_BODY: u64 = 64 * 1024;

/// The snapshot schema that apply and restore requests must name.
pub const SNAPSHOT_SCHEMA_VERSION: u16 = 14;

/// The HTTP methods the balance lab tells apart.
#[derive(Clone, Copy, Debug, PartialEq, Eq)]
pub enum HttpMethod {
    Get,
    Post,
    Other,
}

/// Where a request is sent.
#[derive(Clone, Copy, Debug, PartialEq, Eq)]
pub enum LabRoute {
    /// `GET /api/v1/state`: the current lab state.
    State,
    /// `POST /api/v1/apply`: apply a tuning snapshot.
    Apply,
    /// `POST /api/v1/restore-defaults`: return to the baseline.
    RestoreDefaults,
    /// Any other `GET`: a static asset of the lab's front end.
    Asset,
    /// Anything else.
    NotFound,
}

/// The two commands that the HTTP surface queues.
#[derive(Clone, Copy, Debug, PartialEq, Eq)]
pub enum LabCommandKind {
    Apply,
    Restore,
}

/// Why a request is answered without reaching the simulation.
#[derive(Clone, Debug, PartialEq, Eq)]
pub enum ApiRejection {
    /// A command request whose `Origin` is not the server itself.
    CrossOrigin,
    /// A command request without a JSON `Content-Type`.
    NotJson,
    /// A body over the size limit.
    BodyTooLarge,
    /// A body that could not be read.
    BodyUnreadable,
    /// A body that is not the command's JSON.
    InvalidJson(LabCommandKind),
    /// A body that names another snapshot schema.
    UnsupportedSchema(LabCommandKind),
    /// A snapshot that the validator refused, with its reason.
    InvalidSnapshot(String),
    /// The expected revision is not the current one, or a transaction is pending.
    StalePending,
    /// The shared state could not be read.
    StateUnavailable,
    /// The simulation's command queue is full.
    QueueFull,
    /// No such route or asset.
    NotFound,
}

/// The HTTP status that answers `rejection`.
pub open spec fn rejection_status(rejection: ApiRejection) -> u16 {
    match rejection {
        ApiRejection::CrossOrigin => 403,
        ApiRejection::BodyTooLarge => 413,
        ApiRejection::StalePending => 409,
        ApiRejection::QueueFull => 409,
        ApiRejection::StateUnavailable => 503,
        ApiRejection::NotFound => 404,
        _ => 422,
    }
}

/// The plain-text body that answers `rejection`.
pub open spec fn rejection_message(rejection: ApiRejection) -> Seq<char> {
    match rejection {
        ApiRejection::CrossOrigin => "cross-origin request rejected"@,
        ApiRejection::NotJson => "Content-Type must be application/json"@,
        ApiRejection::BodyTooLarge => "request body is too large"@,
        ApiRejection::BodyUnreadable => "request body is too large"@,
        ApiRejection::InvalidJson(LabCommandKind::Apply) => "invalid apply JSON"@,
        ApiRejection::InvalidJson(LabCommandKind::Restore) => "invalid restore JSON"@,
        ApiRejection::UnsupportedSchema(LabCommandKind::Apply) => "unsupported apply schema"@,
        ApiRejection::UnsupportedSchema(LabCommandKind::Restore) => "unsupported restore schema"@,
        ApiRejection::InvalidSnapshot(reason) => reason@,
        ApiRejection::StalePending => "revision is stale or an apply is pending"@,
        ApiRejection::StateUnavailable => "state is unavailable"@,
        ApiRejection::QueueFull => "another apply is pending"@,
        ApiRejection::NotFound => "not found"@,
    }
}

impl ApiRejection {
    /// The HTTP status of this answer.
    pub fn status(&self) -> (status: u16)
        ensures
            status == rejection_status(*self),
    {
        match self {
            ApiRejection::CrossOrigin => 403,
            ApiRejection::BodyTooLarge => 413,
            ApiRejection::StalePending => 409,
            ApiRejection::QueueFull => 409,
            ApiRejection::StateUnavailable => 503,
            ApiRejection::NotFound => 404,
            _ => 422,
        }
    }

    /// The plain-text body of this answer.
    pub fn message(&self) -> (message: String)
        ensures
            message@ == rejection_message(*self),
    {
        match self {
            ApiRejection::CrossOrigin => "cross-origin request rejected".to_owned(),
            ApiRejection::NotJson => "Content-Type must be application/json".to_owned(),
            ApiRejection::BodyTooLarge => "request body is too large".to_owned(),
            ApiRejection::BodyUnreadable => "request body is too large".to_owned(),
            ApiRejection::InvalidJson(LabCommandKind::Apply) => "invalid apply JSON".to_owned(),
            ApiRejection::InvalidJson(LabCommandKind::Restore) => "invalid restore JSON".to_owned(),
            ApiRejection::UnsupportedSchema(LabCommandKind::Apply) => "unsupported apply schema".to_owned(),
            ApiRejection::UnsupportedSchema(LabCommandKind::Restore) => "unsupported restore schema".to_owned(),
            ApiRejection::InvalidSnapshot(reason) => reason.clone(),
            ApiRejection::StalePending => "revision is stale or an apply is pending".to_owned(),
            ApiRejection::StateUnavailable => "state is unavailable".to_owned(),
            ApiRejection::QueueFull => "another apply is pending".to_owned(),
            ApiRejection::NotFound => "not found".to_owned(),
        }
    }
}

/// Whether `a` and `b` hold the same characters.
fn same_text(a: &str, b: &str) -> (r: bool)
    ensures
        r == (a@ == b@),
{
    a.to_owned() == b.to_owned()
}

/// The path of a request target: the characters before the first `?`.
pub open spec fn path_of(url: Seq<char>) -> Seq<char> {
    before_first(url, '?')
}

/// The path of the request target `url`, its query cut off.
pub fn request_path(url: &str) -> (path: String)
    ensures
        path@ == path_of(url@),
{
    let chars = chars_of(url);
    let k = first_stop(&chars, '?');
    proof {
        lemma_before_first_is_prefix(url@, '?', k as int);
    }
    url.substring_char(0, k).to_owned()
}

/// The route of a request with `method` and the path `path`.
pub open spec fn route_of(method: HttpMethod, path: Seq<char>) -> LabRoute {
    match method {
        HttpMethod::Get => if path == "/api/v1/state"@ {
            LabRoute::State
        } else {
            LabRoute::Asset
        },
        HttpMethod::Post => if path == "/api/v1/apply"@ {
            LabRoute::Apply
        } else if path == "/api/v1/restore-defaults"@ {
            LabRoute::RestoreDefaults
        } else {
            LabRoute::NotFound
        },
        HttpMethod::Other => LabRoute::NotFound,
    }
}

/// The route of a request with `method` and the path `path`.
pub fn route_request(method: HttpMethod, path: &str) -> (route: LabRoute)
    ensures
        route == route_of(method, path@),
{
    match method {
        HttpMethod::Get => if same_text(path, "/api/v1/state") {
            LabRoute::State
        } else {
            LabRoute::Asset
        },
        HttpMethod::Post => if same_text(path, "/api/v1/apply") {
            LabRoute::Apply
        } else if same_text(path, "/api/v1/restore-defaults") {
            LabRoute::RestoreDefaults
        } else {
            LabRoute::NotFound
        },
        HttpMethod::Other => LabRoute::NotFound,
    }
}

/// The characters of a text that may be missing.
pub open spec fn optional_text(value: Option<&str>) -> Option<Seq<char>> {
    match value {
        Some(text) => Some(text@),
        None => None,
    }
}

/// A request with no `Origin` header, or whose `Origin` is `http://` followed
/// by its `Host`, comes from the lab's own page.
pub open spec fn same_origin(origin: Option<Seq<char>>, host: Option<Seq<char>>) -> bool {
    match origin {
        None => true,
        Some(origin) => match host {
            Some(host) => origin == "http://"@ + host,
            None => false,
        },
    }
}

/// Whether a request with these `Origin` and `Host` headers comes from the lab's own page.
pub fn is_same_origin(origin: Option<&str>, host: Option<&str>) -> (r: bool)
    ensures
        r == same_origin(optional_text(origin), optional_text(host)),
{
    match origin {
        None => true,
        Some(origin) => match host {
            Some(host) => {
                let expected = "http://".to_owned().concat(host);
                origin.to_owned() == expected
            },
            None => false,
        },
    }
}

/// A `Content-Type` value is JSON when its media type, before any `;` and
/// without surrounding white space, is `application/json` in any ASCII case.
pub open spec fn is_json_media_type(value: Seq<char>) -> bool {
    same_ignoring_ascii_case(trim(before_first(value, ';')), "application/json"@)
}

/// Whether the `Content-Type` value `value` names JSON.
pub fn json_media_type(value: &str) -> (r: bool)
    ensures
        r == is_json_media_type(value@),
{
    let chars = chars_of(value);
    let k = first_stop(&chars, ';');
    proof {
        lemma_before_first_is_prefix(value@, ';', k as int);
    }
    let mut media: Vec<char> = Vec::new();
    let mut i: usize = 0;
    while i < k
        invariant
            k <= chars.len(),
            i <= k,
            media@ == chars@.take(i as int),
        decreases k - i,
    {
        media.push(chars[i]);
        i = i + 1;
    }
    let media = trimmed(&media);
    let json = chars_of("application/json");
    equal_ignoring_ascii_case(&media, &json)
}

/// Some value among a request's `Content-Type` headers names JSON.
pub open spec fn has_json_content_type(values: Seq<String>) -> bool {
    exists|i: int| 0 <= i < values.len() && is_json_media_type(#[trigger] values[i]@)
}

/// The admission of a command request by its headers: one from another origin
/// is refused, then one whose body is not declared JSON.
pub open spec fn command_headers_verdict(
    origin: Option<Seq<char>>,
    host: Option<Seq<char>>,
    content_types: Seq<String>,
) -> Result<(), ApiRejection> {
    if !same_origin(origin, host) {
        Err(ApiRejection::CrossOrigin)
    } else if !has_json_content_type(content_types) {
        Err(ApiRejection::NotJson)
    } else {
        Ok(())
    }
}

/// Admits a command request by its `Origin`, `Host` and `Content-Type` headers.
pub fn check_command_headers(
    origin: Option<&str>,
    host: Option<&str>,
    content_types: &Vec<String>,
) -> (verdict: Result<(), ApiRejection>)
    ensures
        verdict == command_headers_verdict(optional_text(origin), optional_text(host), content_types@),
{
    if !is_same_origin(origin, host) {
        return Err(ApiRejection::CrossOrigin);
    }
    let mut i: usize = 0;
    while i < content_types.len()
        invariant
            same_origin(optional_text(origin), optional_text(host)),
            i <= content_types.len(),
            forall|j: int| 0 <= j < i ==> !is_json_media_type(#[trigger] content_types@[j]@),
        decreases content_types.len() - i,
    {
        if json_media_type(content_types[i].as_str()) {
            assert(is_json_media_type(content_types@[i as int]@));
            return Ok(());
        }
        i = i + 1;
    }
    Err(ApiRejection::NotJson)
}

/// Refuses a body whose declared length is over the limit, before it is read.
pub fn check_declared_length(length: Option<usize>) -> (verdict: Result<(), ApiRejection>)
    ensures
        verdict == (match length {
            Some(length) => if length > MAX_REQUEST_BODY {
                Err(ApiRejection::BodyTooLarge)
            } else {
                Ok(())
            },
            None => Ok(()),
        }),
{
    match length {
        Some(length) => if length as u64 > MAX_REQUEST_BODY {
            Err(ApiRejection::BodyTooLarge)
        } else {
            Ok(())
        },
        None => Ok(()),
    }
}

/// Refuses a body that, once read, is over the limit.
pub fn check_read_length(length: usize) -> (verdict: Result<(), ApiRejection>)
    ensures
        verdict == (if length > MAX_REQUEST_BODY {
            Err(ApiRejection::BodyTooLarge)
        } else {
            Ok(())
        }),
{
    if length as u64 > MAX_REQUEST_BODY {
        Err(ApiRejection::BodyTooLarge)
    } else {
        Ok(())
    }
}

/// Refuses a command whose body names another snapshot schema.
pub fn check_schema(kind: LabCommandKind, schema_version: u16) -> (verdict: Result<
    (),
    ApiRejection,
>)
    ensures
        verdict == (if schema_version == SNAPSHOT_SCHEMA_VERSION {
            Ok(())
        } else {
            Err(ApiRejection::UnsupportedSchema(kind))
        }),
{
    if schema_version == SNAPSHOT_SCHEMA_VERSION {
        Ok(())
    } else {
        Err(ApiRejection::UnsupportedSchema(kind))
    }
}

/// Admits a command against the lab state: only when no transaction is pending
/// and the request expects the current revision.
pub fn admit_command(pending: bool, current_revision: u64, expected_revision: u64) -> (verdict:
    Result<(), ApiRejection>)
    ensures
        verdict == (if !pending && current_revision == expected_revision {
            Ok(())
        } else {
            Err(ApiRejection::StalePending)
        }),
{
    if pending || current_revision != expected_revision {
        Err(ApiRejection::StalePending)
    } else {
        Ok(())
    }
}

/// The identity of an admitted transaction, from the value its counter held:
/// that value, but never zero.
pub fn transaction_id_from(counter: u64) -> (id: u64)
    ensures
        id == (if counter == 0 {
            1
        } else {
            counter
        }),
        id != 0,
{
    if counter == 0 {
        1
    } else {
        counter
    }
}

/// `s` without its leading `/` characters.
pub open spec fn strip_leading_slashes(s: Seq<char>) -> Seq<char>
    decreases s.len(),
{
    if s.len() > 0 && s[0] == '/' {
        strip_leading_slashes(s.drop_first())
    } else {
        s
    }
}

/// `s`, read as a relative Unix path, begins with the segment `.`.
pub open spec fn starts_with_current_dir(s: Seq<char>) -> bool {
    s.len() >= 1 && s[0] == '.' && (s.len() == 1 || s[1] == '/')
}

/// `s`, read as a Unix path, has a `..` segment.
pub open spec fn has_parent_segment(s: Seq<char>) -> bool {
    exists|i: int|
        0 <= i && i + 2 <= s.len() && #[trigger] s[i] == '.' && s[i + 1] == '.' && (i == 0 || s[i
            - 1] == '/') && (i + 2 == s.len() || s[i + 2] == '/')
}

/// The file, relative to the asset root, that a `GET` of `url_path` asks for:
/// none when the path holds `%` or `\`; the path without its leading `/`, or
/// `index.html` when nothing is left; none when that begins with a `.`
/// segment or holds a `..` segment, so that it could leave the root.
pub open spec fn asset_target(url_path: Seq<char>) -> Option<Seq<char>> {
    if url_path.contains('%') || url_path.contains('\\') {
        None
    } else {
        let relative = strip_leading_slashes(url_path);
        let requested = if relative.len() == 0 {
            "index.html"@
        } else {
            relative
        };
        if starts_with_current_dir(requested) || has_parent_segment(requested) {
            None
        } else {
            Some(requested)
        }
    }
}

pub proof fn lemma_strip_leading_slashes_at(s: Seq<char>, a: int)
    requires
        0 <= a <= s.len(),
        forall|j: int| 0 <= j < a ==> #[trigger] s[j] == '/',
        a == s.len() || s[a] != '/',
    ensures
        strip_leading_slashes(s) == s.subrange(a, s.len() as int),
    decreases s.len(),
{
    if a == 0 {
        assert(s.subrange(0, s.len() as int) =~= s);
    } else {
        assert(s[0] == '/');
        let rest = s.drop_first();
        assert forall|j: int| 0 <= j < a - 1 implies #[trigger] rest[j] == '/' by {
            assert(rest[j] == s[j + 1]);
        }
        if a - 1 < rest.len() {
            assert(rest[a - 1] == s[a]);
        }
        lemma_strip_leading_slashes_at(rest, a - 1);
        assert(rest.subrange(a - 1, rest.len() as int) =~= s.subrange(a, s.len() as int));
    }
}

pub proof fn lemma_strip_leading_slashes_shape(s: Seq<char>)
    ensures
        strip_leading_slashes(s).len() > 0 ==> strip_leading_slashes(s)[0] != '/',
        forall|c: char| #[trigger] strip_leading_slashes(s).contains(c) ==> s.contains(c),
    decreases s.len(),
{
    if s.len() > 0 && s[0] == '/' {
        let rest = s.drop_first();
        lemma_strip_leading_slashes_shape(rest);
        assert forall|c: char| #[trigger] rest.contains(c) implies s.contains(c) by {
            let j = choose|j: int| 0 <= j < rest.len() && rest[j] == c;
            assert(s[j + 1] == c);
        }
    }
}

/// A served asset path is relative and not empty, holds neither `%` nor `\`,
/// and has no `.` or `..` segment that could lead out of the asset root.
pub proof fn law_asset_target_stays_below_root(url_path: Seq<char>)
    ensures
        asset_target(url_path) matches Some(target) ==> {
            &&& target.len() > 0
            &&& target[0] != '/'
            &&& !target.contains('%')
            &&& !target.contains('\\')
            &&& !starts_with_current_dir(target)
            &&& !has_parent_segment(target)
        },
{
    lemma_strip_leading_slashes_shape(url_path);
    reveal_strlit("index.html");
    let index = "index.html"@;
    assert(index.len() == 10);
    assert(!index.contains('%'));
    assert(!index.contains('\\'));
}

/// Whether `chars` holds `c`.
fn holds_char(chars: &Vec<char>, c: char) -> (r: bool)
    ensures
        r == chars@.contains(c),
{
    let k = first_stop(chars, c);
    if k < chars.len() {
        assert(chars@[k as int] == c);
        true
    } else {
        false
    }
}

/// Whether `chars`, read as a Unix path, has a `..` segment.
fn holds_parent_segment(chars: &Vec<char>) -> (r: bool)
    ensures
        r == has_parent_segment(chars@),
{
    let n = chars.len();
    let mut i: usize = 0;
    while i < n
        invariant
            n == chars.len(),
            i <= n,
            forall|j: int|
                0 <= j < i ==> !(j + 2 <= n && #[trigger] chars@[j] == '.' && chars@[j + 1] == '.'
                    && (j == 0 || chars@[j - 1] == '/') && (j + 2 == n || chars@[j + 2] == '/')),
        decreases n - i,
    {
        if n - i >= 2 && chars[i] == '.' && chars[i + 1] == '.' && (i == 0 || chars[i - 1] == '/')
            && (n - i == 2 || chars[i + 2] == '/') {
            return true;
        }
        i = i + 1;
    }
    false
}

/// The file, relative to the asset root, that a `GET` of `url_path` asks for,
/// or none when the path is refused.
pub fn asset_target_path(url_path: &str) -> (target: Option<String>)
    ensures
        match target {
            Some(target) => asset_target(url_path@) == Some(target@),
            None => asset_target(url_path@) == None::<Seq<char>>,
        },
{
    let chars = chars_of(url_path);
    if holds_char(&chars, '%') || holds_char(&chars, '\\') {
        return None;
    }
    let n = chars.len();
    let mut a: usize = 0;
    while a < n && chars[a] == '/'
        invariant
            n == chars.len(),
            a <= n,
            forall|j: int| 0 <= j < a ==> #[trigger] chars@[j] == '/',
        decreases n - a,
    {
        a = a + 1;
    }
    proof {
        lemma_strip_leading_slashes_at(url_path@, a as int);
    }
    let requested = if a == n {
        "index.html".to_owned()
    } else {
        url_path.substring_char(a, n).to_owned()
    };
    let requested_chars = chars_of(requested.as_str());
    let current_dir = requested_chars.len() >= 1 && requested_chars[0] == '.' && (
    requested_chars.len() == 1 || requested_chars[1] == '/');
    if current_dir || holds_parent_segment(&requested_chars) {
        None
    } else {
        Some(requested)
    }
}

/// The `Content-Type` of an asset with the file extension `extension`.
pub open spec fn content_type_of(extension: Option<Seq<char>>) -> Seq<char> {
    match extension {
        Some(extension) => if extension == "html"@ {
            "text/html; charset=utf-8"@
        } else if extension == "js"@ {
            "text/javascript; charset=utf-8"@
        } else if extension == "css"@ {
            "text/css; charset=utf-8"@
        } else if extension == "svg"@ {
            "image/svg+xml"@
        } else if extension == "png"@ {
            "image/png"@
        } else if extension == "json"@ {
            "application/json; charset=utf-8"@
        } else {
            "application/octet-stream"@
        },
        None => "application/octet-stream"@,
    }
}

/// The `Content-Type` of an asset with the file extension `extension`.
pub fn content_type_for_extension(extension: Option<&str>) -> (content_type: &'static str)
    ensures
        content_type@ == content_type_of(optional_text(extension)),
{
    match extension {
        Some(extension) => if same_text(extension, "html") {
            "text/html; charset=utf-8"
        } else if same_text(extension, "js") {
            "text/javascript; charset=utf-8"
        } else if same_text(extension, "css") {
            "text/css; charset=utf-8"
        } else if same_text(extension, "svg") {
            "image/svg+xml"
        } else if same_text(extension, "png") {
            "image/png"
        } else if same_text(extension, "json") {
            "application/json; charset=utf-8"
        } else {
            "application/octet-stream"
        },
        None => "application/octet-stream",
    }
}

} // verus!
