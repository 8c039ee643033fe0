//! Request-boundary logic: the error envelope, query-string parsing for
//! searches, byte-range parsing for streaming, and content-type selection.
use vstd::prelude::*;
use crate::cache::CacheSnapshot;
use crate::indexer::{media_view, MediaFile, MediaType};
use crate::search::{
    distinct_tokens, filters_spec, matching, normalize_page_size_spec, normalize_page_spec,
    page_of, raw_filters_view, QueryView, SearchQuery, SearchResult, SearchService,
    DEFAULT_PAGE_SIZE,
};
use crate::tags::{opt_str_view, strings_view};
use crate::text::{chars_of, copy_range, find_char, index_of, lower_of, string_from_chars, to_lowercase, trim, trim_chars};

verus! {

/// Machine-readable error codes of the API.
#[derive(Clone, Copy, Debug, PartialEq, Eq, Structural)]
pub enum ErrorCode {
    ValidationFailed,
    Unauthorized,
    Forbidden,
    MethodNotAllowed,
    ResourceNotFound,
    Conflict,
    TooManyRequests,
    InternalServerError,
    ServiceUnavailable,
}

pub open spec fn default_status_spec(code: ErrorCode) -> u16 {
    match code {
        ErrorCode::ValidationFailed => 400,
        ErrorCode::Unauthorized => 401,
        ErrorCode::Forbidden => 403,
        ErrorCode::MethodNotAllowed => 405,
        ErrorCode::ResourceNotFound => 404,
        ErrorCode::Conflict => 409,
        ErrorCode::TooManyRequests => 429,
        ErrorCode::InternalServerError => 500,
        ErrorCode::ServiceUnavailable => 503,
    }
}

impl ErrorCode {
    /// The HTTP status that goes with the code.
    pub fn default_status(&self) -> (r: u16)
        ensures
            r == default_status_spec(*self),
    {
        match self {
            ErrorCode::ValidationFailed => 400,
            ErrorCode::Unauthorized => 401,
            ErrorCode::Forbidden => 403,
            ErrorCode::MethodNotAllowed => 405,
            ErrorCode::ResourceNotFound => 404,
            ErrorCode::Conflict => 409,
            ErrorCode::TooManyRequests => 429,
            ErrorCode::InternalServerError => 500,
            ErrorCode::ServiceUnavailable => 503,
        }
    }
}

/// Error envelope returned to HTTP clients.
#[derive(Debug)]
pub struct ErrorResponse {
    pub error: ErrorBody,
}

/// The code and message of an error envelope.
#[derive(Debug)]
pub struct ErrorBody {
    pub code: ErrorCode,
    pub message: String,
}

/// Canonical API error: an HTTP status, a code and a client-visible message,
/// plus an optional internal detail that is logged but never shown.
#[derive(Debug)]
pub struct ApiError {
    status: u16,
    code: ErrorCode,
    message: String,
    source: Option<String>,
}

/// Message shown for every internal failure.
pub const INTERNAL_MESSAGE: &'static str = "internal server error";

impl ApiError {
    pub closed spec fn status_spec(&self) -> u16 {
        self.status
    }

    pub closed spec fn code_spec(&self) -> ErrorCode {
        self.code
    }

    pub closed spec fn message_spec(&self) -> Seq<char> {
        self.message@
    }

    pub closed spec fn source_spec(&self) -> Option<Seq<char>> {
        opt_str_view(self.source)
    }

    /// An error with the code's default status.
    pub fn new(code: ErrorCode, message: &str) -> (r: ApiError)
        ensures
            r.status_spec() == default_status_spec(code),
            r.code_spec() == code,
            r.message_spec() == message@,
    {
        Self::with_status(code.default_status(), code, message)
    }

    /// An error with an explicit status.
    pub fn with_status(status: u16, code: ErrorCode, message: &str) -> (r: ApiError)
        ensures
            r.status_spec() == status,
            r.code_spec() == code,
            r.message_spec() == message@,
            r.source_spec() is None,
    {
        ApiError { status, code, message: message.to_owned(), source: None }
    }

    /// A validation error (400).
    pub fn bad_request(message: &str) -> (r: ApiError)
        ensures
            r.status_spec() == 400,
            r.code_spec() == ErrorCode::ValidationFailed,
            r.message_spec() == message@,
    {
        Self::new(ErrorCode::ValidationFailed, message)
    }

    /// An authentication error (401).
    pub fn unauthorized(message: &str) -> (r: ApiError)
        ensures
            r.status_spec() == 401,
            r.code_spec() == ErrorCode::Unauthorized,
            r.message_spec() == message@,
    {
        Self::new(ErrorCode::Unauthorized, message)
    }

    /// A permission error (403).
    pub fn forbidden(message: &str) -> (r: ApiError)
        ensures
            r.status_spec() == 403,
            r.code_spec() == ErrorCode::Forbidden,
            r.message_spec() == message@,
    {
        Self::new(ErrorCode::Forbidden, message)
    }

    /// A missing resource (404).
    pub fn not_found(message: &str) -> (r: ApiError)
        ensures
            r.status_spec() == 404,
            r.code_spec() == ErrorCode::ResourceNotFound,
            r.message_spec() == message@,
    {
        Self::new(ErrorCode::ResourceNotFound, message)
    }

    /// A method-not-allowed error (405).
    pub fn method_not_allowed(message: &str) -> (r: ApiError)
        ensures
            r.status_spec() == 405,
            r.code_spec() == ErrorCode::MethodNotAllowed,
            r.message_spec() == message@,
    {
        Self::new(ErrorCode::MethodNotAllowed, message)
    }

    /// A conflict error (409).
    pub fn conflict(message: &str) -> (r: ApiError)
        ensures
            r.status_spec() == 409,
            r.code_spec() == ErrorCode::Conflict,
            r.message_spec() == message@,
    {
        Self::new(ErrorCode::Conflict, message)
    }

    /// A throttling error (429).
    pub fn too_many_requests(message: &str) -> (r: ApiError)
        ensures
            r.status_spec() == 429,
            r.code_spec() == ErrorCode::TooManyRequests,
            r.message_spec() == message@,
    {
        Self::new(ErrorCode::TooManyRequests, message)
    }

    /// A service-unavailable error (503).
    pub fn service_unavailable(message: &str) -> (r: ApiError)
        ensures
            r.status_spec() == 503,
            r.code_spec() == ErrorCode::ServiceUnavailable,
            r.message_spec() == message@,
    {
        Self::new(ErrorCode::ServiceUnavailable, message)
    }

    /// An internal error (500) with a client-visible message.
    pub fn internal(message: &str) -> (r: ApiError)
        ensures
            r.status_spec() == 500,
            r.code_spec() == ErrorCode::InternalServerError,
            r.message_spec() == message@,
    {
        Self::new(ErrorCode::InternalServerError, message)
    }

    /// An internal error (500) whose detail is kept for logs; clients see
    /// only the generic message.
    pub fn internal_with_source(detail: &str) -> (r: ApiError)
        ensures
            r.status_spec() == 500,
            r.code_spec() == ErrorCode::InternalServerError,
            r.message_spec() == INTERNAL_MESSAGE@,
            r.source_spec() == Some(detail@),
    {
        ApiError {
            status: 500,
            code: ErrorCode::InternalServerError,
            message: INTERNAL_MESSAGE.to_owned(),
            source: Some(detail.to_owned()),
        }
    }

    /// The HTTP status.
    pub fn status(&self) -> (r: u16)
        ensures
            r == self.status_spec(),
    {
        self.status
    }

    /// The machine-readable code.
    pub fn code(&self) -> (r: ErrorCode)
        ensures
            r == self.code_spec(),
    {
        self.code
    }

    /// The client-visible message.
    pub fn message(&self) -> (r: &str)
        ensures
            r@ == self.message_spec(),
    {
        self.message.as_str()
    }

    /// The internal detail, if any.
    pub fn source(&self) -> (r: Option<&str>)
        ensures
            opt_strref_view(r) == self.source_spec(),
    {
        match &self.source {
            Some(s) => Some(s.as_str()),
            None => None,
        }
    }

    /// Whether the error is critical: an internal or unavailable service.
    pub fn is_critical(&self) -> (r: bool)
        ensures
            r == (self.status_spec() == 500 || self.status_spec() == 503),
    {
        self.status == 500 || self.status == 503
    }

    /// The envelope sent to the client.
    pub fn to_response(&self) -> (r: ErrorResponse)
        ensures
            r.error.code == self.code_spec(),
            r.error.message@ == self.message_spec(),
    {
        ErrorResponse { error: ErrorBody { code: self.code, message: self.message.clone() } }
    }
}

/// `s` split at every `d`, empty pieces included, as `str::split` does.
pub open spec fn split_on(s: Seq<char>, d: char) -> Seq<Seq<char>>
    decreases s.len(),
{
    if s.len() == 0 {
        seq![Seq::empty()]
    } else {
        let init = split_on(s.drop_last(), d);
        if s.last() == d {
            init.push(Seq::empty())
        } else {
            init.update(init.len() - 1, init.last().push(s.last()))
        }
    }
}

proof fn lemma_split_on_nonempty(s: Seq<char>, d: char)
    ensures
        split_on(s, d).len() >= 1,
    decreases s.len(),
{
    if s.len() > 0 {
        lemma_split_on_nonempty(s.drop_last(), d);
    }
}

/// The comma-separated values of `s`, trimmed and lowercased, empty ones dropped.
pub open spec fn comma_values_from(pieces: Seq<Seq<char>>) -> Seq<Seq<char>>
    decreases pieces.len(),
{
    if pieces.len() == 0 {
        seq![]
    } else {
        let prev = comma_values_from(pieces.drop_last());
        let v = lower_of(trim(pieces.last()));
        if v.len() == 0 {
            prev
        } else {
            prev.push(v)
        }
    }
}

pub open spec fn comma_values(s: Seq<char>) -> Seq<Seq<char>> {
    comma_values_from(split_on(s, ','))
}

fn push_comma_value(out: &mut Vec<String>, piece: &Vec<char>)
    ensures
        strings_view(final(out)@) == (if lower_of(trim(piece@)).len() == 0 {
            strings_view(old(out)@)
        } else {
            strings_view(old(out)@).push(lower_of(trim(piece@)))
        }),
{
    let trimmed = string_from_chars(trim_chars(piece).as_slice());
    let value = to_lowercase(trimmed.as_str());
    if chars_of(value.as_str()).len() > 0 {
        let ghost before = out@;
        out.push(value);
        assert(strings_view(out@) =~= strings_view(before).push(lower_of(trim(piece@))));
    }
}

/// Splits `s` at commas; each value trimmed and lowercased, empty ones dropped.
pub fn split_comma_values(s: &str) -> (r: Vec<String>)
    ensures
        strings_view(r@) == comma_values(s@),
{
    let chars = chars_of(s);
    let mut out: Vec<String> = Vec::new();
    let mut current: Vec<char> = Vec::new();
    let ghost mut done: Seq<Seq<char>> = seq![];
    assert(chars@.subrange(0, 0) =~= Seq::<char>::empty());
    assert(strings_view(out@) =~= seq![]);
    let mut i: usize = 0;
    while i < chars.len()
        invariant
            i <= chars.len(),
            split_on(chars@.subrange(0, i as int), ',') == done.push(current@),
            strings_view(out@) == comma_values_from(done),
        decreases chars.len() - i,
    {
        let c = chars[i];
        let ghost prefix = chars@.subrange(0, i as int);
        assert(chars@.subrange(0, i + 1).drop_last() =~= prefix);
        assert(chars@.subrange(0, i + 1).last() == c);
        if c == ',' {
            push_comma_value(&mut out, &current);
            proof {
                assert(done.push(current@).drop_last() =~= done);
                done = done.push(current@);
            }
            current = Vec::new();
        } else {
            proof {
                lemma_split_on_nonempty(prefix, ',');
                assert(done.push(current@).update(done.len() as int, current@.push(c))
                    =~= done.push(current@.push(c)));
            }
            current.push(c);
        }
        i += 1;
    }
    assert(chars@.subrange(0, chars.len() as int) =~= chars@);
    assert(done.push(current@).drop_last() =~= done);
    push_comma_value(&mut out, &current);
    out
}

/// Message of the error for a `tags` parameter without any tag.
pub const EMPTY_TAGS_MESSAGE: &'static str = "tags query parameter must contain at least one value";

/// The `tags` parameter: absent means no tag; present, it must name at
/// least one tag.
pub open spec fn parse_tags_spec(raw: Option<Seq<char>>) -> Option<Seq<Seq<char>>> {
    match raw {
        None => Some(seq![]),
        Some(s) => if comma_values(s).len() == 0 {
            None
        } else {
            Some(comma_values(s))
        },
    }
}

/// Parses the comma-separated `tags` parameter.
pub fn parse_tags(raw: Option<&str>) -> (r: Result<Vec<String>, &'static str>)
    ensures
        match r {
            Ok(tags) => parse_tags_spec(opt_strref_view(raw)) == Some(strings_view(tags@)),
            Err(m) => parse_tags_spec(opt_strref_view(raw)) is None && m@ == EMPTY_TAGS_MESSAGE@,
        },
{
    match raw {
        None => {
            let v: Vec<String> = Vec::new();
            assert(strings_view(v@) =~= seq![]);
            Ok(v)
        },
        Some(s) => {
            let tags = split_comma_values(s);
            if tags.len() == 0 {
                Err(EMPTY_TAGS_MESSAGE)
            } else {
                Ok(tags)
            }
        },
    }
}

pub open spec fn opt_strref_view(o: Option<&str>) -> Option<Seq<char>> {
    match o {
        Some(s) => Some(s@),
        None => None,
    }
}

/// The attribute name in a parameter `attributes[name]`, if it has that form.
pub open spec fn attribute_name(key: Seq<char>) -> Option<Seq<char>> {
    if key.len() >= 12 && key.subrange(0, 11) == "attributes["@ && key.last() == ']' {
        Some(key.subrange(11, key.len() - 1))
    } else {
        None
    }
}

/// Attribute filters from the query parameters, in order: each
/// `attributes[name]=v1,v2` with at least one value gives the lowercased
/// name and its values.
pub open spec fn parse_attributes_spec(rest: Seq<(Seq<char>, Seq<char>)>) -> Seq<
    (Seq<char>, Seq<Seq<char>>),
>
    decreases rest.len(),
{
    if rest.len() == 0 {
        seq![]
    } else {
        let prev = parse_attributes_spec(rest.drop_last());
        let (key, value) = rest.last();
        match attribute_name(key) {
            Some(name) => if comma_values(value).len() == 0 {
                prev
            } else {
                prev.push((lower_of(name), comma_values(value)))
            },
            None => prev,
        }
    }
}

fn attribute_name_exec(key: &String) -> (r: Option<String>)
    ensures
        opt_str_view(r) == attribute_name(key@),
{
    let k = chars_of(key.as_str());
    let prefix = chars_of("attributes[");
    if k.len() < 12 || k[k.len() - 1] != ']' {
        return None;
    }
    let head = copy_range(&k, 0, 11);
    proof {
        reveal_strlit("attributes[");
    }
    let mut i: usize = 0;
    while i < 11
        invariant
            i <= 11,
            head.len() == 11,
            prefix.len() == 11,
            head@ == k@.subrange(0, 11),
            k@ == key@,
            prefix@ == "attributes["@,
            forall|j: int| 0 <= j < i ==> head@[j] == prefix@[j],
        decreases 11 - i,
    {
        if head[i] != prefix[i] {
            assert(head@[i as int] != prefix@[i as int]);
            assert(head@ != prefix@);
            return None;
        }
        i += 1;
    }
    assert(head@ =~= prefix@);
    Some(string_from_chars(copy_range(&k, 11, k.len() - 1).as_slice()))
}

pub open spec fn raw_params_view(v: Seq<(String, String)>) -> Seq<(Seq<char>, Seq<char>)> {
    v.map_values(|p: (String, String)| (p.0@, p.1@))
}

/// Collects the `attributes[name]` parameters.
pub fn parse_attributes(rest: &Vec<(String, String)>) -> (r: Vec<(String, Vec<String>)>)
    ensures
        raw_filters_view(r@) == parse_attributes_spec(raw_params_view(rest@)),
{
    let ghost rv = raw_params_view(rest@);
    let mut out: Vec<(String, Vec<String>)> = Vec::new();
    let mut i: usize = 0;
    assert(rv.subrange(0, 0) =~= Seq::<(Seq<char>, Seq<char>)>::empty());
    assert(raw_filters_view(out@) =~= seq![]);
    while i < rest.len()
        invariant
            i <= rest.len(),
            rv == raw_params_view(rest@),
            raw_filters_view(out@) == parse_attributes_spec(rv.subrange(0, i as int)),
        decreases rest.len() - i,
    {
        assert(rv.subrange(0, i + 1).drop_last() =~= rv.subrange(0, i as int));
        assert(rv.subrange(0, i + 1).last() == rv[i as int]);
        let (key, value) = &rest[i];
        match attribute_name_exec(key) {
            Some(name) => {
                let values = split_comma_values(value.as_str());
                if values.len() > 0 {
                    let lowered = to_lowercase(name.as_str());
                    let ghost before = out@;
                    out.push((lowered, values));
                    assert(raw_filters_view(out@) =~= raw_filters_view(before).push(
                        (lower_of(name@), strings_view(values@)),
                    ));
                }
            },
            None => {},
        }
        i += 1;
    }
    assert(rv.subrange(0, rest.len() as int) =~= rv);
    out
}

/// Raw query parameters of a media search.
#[derive(Debug, Default)]
pub struct RawSearchParams {
    pub tags: Option<String>,
    pub page: Option<usize>,
    pub page_size: Option<usize>,
    /// Every other parameter, name and value.
    pub rest: Vec<(String, String)>,
}

/// The body of a search response.
#[derive(Debug)]
pub struct MediaSearchResponse {
    pub items: Vec<MediaFile>,
    pub total: usize,
    pub page: usize,
    pub page_size: usize,
}

impl MediaSearchResponse {
    /// The response body of a search result.
    pub fn from_result(value: SearchResult) -> (r: MediaSearchResponse)
        ensures
            r.items@ == value.items@,
            r.total == value.total,
            r.page == value.page,
            r.page_size == value.page_size,
    {
        MediaSearchResponse {
            items: value.items,
            total: value.total,
            page: value.page,
            page_size: value.page_size,
        }
    }
}

/// The query a search request asks for, when its `tags` parameter parses.
pub open spec fn request_query(params: RawSearchParams, tags: Seq<Seq<char>>) -> QueryView {
    QueryView {
        required: distinct_tokens(tags),
        filters: filters_spec(parse_attributes_spec(raw_params_view(params.rest@))),
        page: normalize_page_spec(
            match params.page {
                Some(p) => p,
                None => 1,
            },
        ),
        page_size: normalize_page_size_spec(
            match params.page_size {
                Some(s) => s,
                None => DEFAULT_PAGE_SIZE,
            },
        ),
    }
}

/// Answers a search request against a snapshot: a `tags` parameter without
/// any tag is a validation error; otherwise the requested page of matches.
pub fn search_media(params: &RawSearchParams, snapshot: &CacheSnapshot) -> (r: Result<
    MediaSearchResponse,
    ApiError,
>)
    ensures
        match parse_tags_spec(opt_str_view(params.tags)) {
            None => r is Err && r->Err_0.status_spec() == 400 && r->Err_0.code_spec()
                == ErrorCode::ValidationFailed && r->Err_0.message_spec() == EMPTY_TAGS_MESSAGE@,
            Some(tags) => r is Ok && {
                let q = request_query(*params, tags);
                let m = matching(media_view(snapshot.media@), q);
                &&& r->Ok_0.total == m.len()
                &&& media_view(r->Ok_0.items@) == page_of(m, q.page as int, q.page_size as int)
                &&& r->Ok_0.page == q.page
                &&& r->Ok_0.page_size == q.page_size
            },
        },
{
    let raw_tags: Option<&str> = match &params.tags {
        Some(t) => Some(t.as_str()),
        None => None,
    };
    let tags = match parse_tags(raw_tags) {
        Ok(t) => t,
        Err(msg) => {
            return Err(ApiError::bad_request(msg));
        },
    };
    let attributes = parse_attributes(&params.rest);
    let page = match params.page {
        Some(p) => p,
        None => 1,
    };
    let page_size = match params.page_size {
        Some(s) => s,
        None => DEFAULT_PAGE_SIZE,
    };
    let query = SearchQuery::new(tags, attributes, page, page_size);
    let result = SearchService::execute(snapshot, &query);
    Ok(MediaSearchResponse::from_result(result))
}

/// First record of `media` with identifier `id`.
pub fn find_media<'a>(media: &'a [MediaFile], id: &str) -> (r: Option<&'a MediaFile>)
    ensures
        match r {
            Some(m) => exists|i: int|
                0 <= i < media@.len() && media@[i] == *m && media@[i].id@ == id@ && forall|j: int|
                    0 <= j < i ==> #[trigger] media@[j].id@ != id@,
            None => forall|j: int| 0 <= j < media@.len() ==> #[trigger] media@[j].id@ != id@,
        },
{
    let target = chars_of(id);
    let mut i: usize = 0;
    while i < media.len()
        invariant
            i <= media.len(),
            target@ == id@,
            forall|j: int| 0 <= j < i ==> #[trigger] media@[j].id@ != id@,
        decreases media.len() - i,
    {
        if crate::cache::vec_chars_eq(&chars_of(media[i].id.as_str()), &target) {
            return Some(&media[i]);
        }
        i += 1;
    }
    None
}

/// Query parameters of a stream request.
#[derive(Debug, Default)]
pub struct StreamParams {
    pub disposition: Option<String>,
}

/// Message of the error for an unknown disposition.
pub const DISPOSITION_MESSAGE: &'static str = "disposition must be inline or attachment";

/// The disposition of a stream: `inline` unless given; given, it is
/// lowercased and must be `inline` or `attachment`.
pub open spec fn disposition_spec(d: Option<Seq<char>>) -> Option<Seq<char>> {
    match d {
        None => Some("inline"@),
        Some(v) => if lower_of(v) == "inline"@ || lower_of(v) == "attachment"@ {
            Some(lower_of(v))
        } else {
            None
        },
    }
}

/// Checks the `disposition` parameter of a stream request.
pub fn parse_disposition(disposition: Option<&str>) -> (r: Result<String, ApiError>)
    ensures
        match disposition_spec(opt_strref_view(disposition)) {
            Some(d) => r is Ok && r->Ok_0@ == d,
            None => r is Err && r->Err_0.status_spec() == 400 && r->Err_0.code_spec()
                == ErrorCode::ValidationFailed && r->Err_0.message_spec() == DISPOSITION_MESSAGE@,
        },
{
    match disposition {
        None => Ok("inline".to_owned()),
        Some(v) => {
            let lowered = to_lowercase(v);
            let l = chars_of(lowered.as_str());
            let inline = chars_of("inline");
            let attachment = chars_of("attachment");
            if crate::cache::vec_chars_eq(&l, &inline) || crate::cache::vec_chars_eq(&l, &attachment) {
                Ok(lowered)
            } else {
                Err(ApiError::bad_request(DISPOSITION_MESSAGE))
            }
        },
    }
}

/// The response's content type: the type guessed from the file's extension,
/// else one that goes with the record's media type.
pub open spec fn content_type_spec(guess: Option<Seq<char>>, media_type: MediaType) -> Seq<char> {
    match guess {
        Some(g) => g,
        None => match media_type {
            MediaType::Image => "image/jpeg"@,
            MediaType::Gif => "image/gif"@,
            MediaType::Video => "video/mp4"@,
            MediaType::Audio => "audio/mpeg"@,
            MediaType::Pdf => "application/pdf"@,
            MediaType::Unknown => "application/octet-stream"@,
        },
    }
}

/// Name for the first MIME type that `mime_guess` maps the extension of
/// `path` to, if any.
pub uninterp spec fn mime_guess_of(path: Seq<char>) -> Option<Seq<char>>;

/// Relies on `mime_guess::from_path(..).first_raw()`: the first known MIME
/// type of the path's extension, looked up without case, or none.
#[verifier::external_body]
fn guess_mime(path: &str) -> (r: Option<String>)
    ensures
        opt_str_view(r) == mime_guess_of(path@),
{
    mime_guess::from_path(path).first_raw().map(|m| m.to_owned())
}

/// The content type for a guessed MIME type and a media type.
pub fn content_type_for(guess: Option<String>, media_type: MediaType) -> (r: String)
    ensures
        r@ == content_type_spec(opt_str_view(guess), media_type),
{
    match guess {
        Some(g) => g,
        None => match media_type {
            MediaType::Image => "image/jpeg".to_owned(),
            MediaType::Gif => "image/gif".to_owned(),
            MediaType::Video => "video/mp4".to_owned(),
            MediaType::Audio => "audio/mpeg".to_owned(),
            MediaType::Pdf => "application/pdf".to_owned(),
            MediaType::Unknown => "application/octet-stream".to_owned(),
        },
    }
}

/// The content type served for `media` stored at `path`.
pub fn derive_content_type(media: &MediaFile, path: &str) -> (r: String)
    ensures
        r@ == content_type_spec(mime_guess_of(path@), media.media_type),
{
    content_type_for(guess_mime(path), media.media_type)
}

/// Byte range of a stream response: the whole file, or an inclusive span.
#[derive(Clone, Copy, Debug, PartialEq, Eq, Structural)]
pub enum StreamRange {
    Full,
    Partial { start: u64, end: u64 },
}

/// What a `Range` header asks for.
pub enum RangeOutcome {
    Whole,
    Bytes(u64, u64),
    /// A malformed header: a validation error with this message.
    Invalid(Seq<char>),
    /// A well-formed range that the file cannot satisfy, with this message.
    Unsatisfiable(Seq<char>),
}

pub const RANGE_UNIT_MESSAGE: &'static str = "range must be expressed in bytes";
pub const MULTI_RANGE_MESSAGE: &'static str = "multiple ranges are not supported";
pub const RANGE_SUFFIX_MESSAGE: &'static str = "invalid range suffix";
pub const RANGE_START_REQUIRED_MESSAGE: &'static str = "range start is required";
pub const RANGE_START_MESSAGE: &'static str = "invalid range start";
pub const RANGE_END_MESSAGE: &'static str = "invalid range end";
pub const RANGE_ORDER_MESSAGE: &'static str = "range end must be >= start";
pub const RANGE_START_BEYOND_MESSAGE: &'static str = "range start exceeds file length";
pub const EMPTY_FILE_RANGE_MESSAGE: &'static str = "range cannot be satisfied by an empty file";

pub open spec fn is_digit(c: char) -> bool {
    '0' <= c && c <= '9'
}

pub open spec fn all_digits(s: Seq<char>) -> bool {
    forall|i: int| 0 <= i < s.len() ==> is_digit(#[trigger] s[i])
}

/// The number that a string of decimal digits spells.
pub open spec fn decimal_value(s: Seq<char>) -> int
    decreases s.len(),
{
    if s.len() == 0 {
        0
    } else {
        decimal_value(s.drop_last()) * 10 + (s.last() as u32 - '0' as u32)
    }
}

/// `u64::from_str`: an optional `+`, then at least one decimal digit, with a
/// value that fits.
pub open spec fn parse_u64_spec(s: Seq<char>) -> Option<u64> {
    let d = if s.len() > 0 && s[0] == '+' {
        s.drop_first()
    } else {
        s
    };
    if d.len() > 0 && all_digits(d) && decimal_value(d) <= u64::MAX {
        Some(decimal_value(d) as u64)
    } else {
        None
    }
}

/// Parses an unsigned decimal number as `u64::from_str` does.
pub fn parse_u64(s: &Vec<char>) -> (r: Option<u64>)
    ensures
        r == parse_u64_spec(s@),
{
    let start: usize = if s.len() > 0 && s[0] == '+' {
        1
    } else {
        0
    };
    let ghost d = s@.subrange(start as int, s.len() as int);
    assert(d =~= (if s@.len() > 0 && s@[0] == '+' {
        s@.drop_first()
    } else {
        s@
    }));
    if start >= s.len() {
        return None;
    }
    let mut value: u64 = 0;
    let mut overflow = false;
    let mut i: usize = start;
    assert(s@.subrange(start as int, start as int) =~= Seq::<char>::empty());
    while i < s.len()
        invariant
            start <= i <= s.len(),
            d == s@.subrange(start as int, s.len() as int),
            d == (if s@.len() > 0 && s@[0] == '+' {
                s@.drop_first()
            } else {
                s@
            }),
            all_digits(s@.subrange(start as int, i as int)),
            !overflow ==> value == decimal_value(s@.subrange(start as int, i as int)),
            overflow ==> decimal_value(s@.subrange(start as int, i as int)) > u64::MAX,
        decreases s.len() - i,
    {
        let c = s[i];
        if c < '0' || c > '9' {
            assert(d[i - start] == c);
            assert(!is_digit(d[i - start]));
            return None;
        }
        let ghost prev = s@.subrange(start as int, i as int);
        let ghost next = s@.subrange(start as int, i + 1);
        assert(next.drop_last() =~= prev);
        assert(next.last() == c);
        let digit = (c as u32 - '0' as u32) as u64;
        if !overflow {
            match value.checked_mul(10) {
                Some(v) => match v.checked_add(digit) {
                    Some(w) => {
                        value = w;
                    },
                    None => {
                        overflow = true;
                    },
                },
                None => {
                    overflow = true;
                },
            }
        }
        assert forall|j: int| 0 <= j < next.len() implies is_digit(#[trigger] next[j]) by {
            if j < prev.len() {
                assert(next[j] == prev[j]);
            }
        }
        i += 1;
    }
    assert(s@.subrange(start as int, s.len() as int) == d);
    if overflow {
        None
    } else {
        Some(value)
    }
}

pub open spec fn min_u64(a: u64, b: u64) -> u64 {
    if a < b {
        a
    } else {
        b
    }
}

/// How a `Range` header is read against a file of `total` bytes: only a
/// single `bytes=` range is accepted, a suffix range `-n` takes the last `n`
/// bytes, an open range `a-` runs to the end, and an end past the file is
/// clipped to it.
pub open spec fn range_spec(header: Option<Seq<char>>, total: u64) -> RangeOutcome {
    match header {
        None => RangeOutcome::Whole,
        Some(v) => if !(v.len() >= 6 && v.subrange(0, 6) == "bytes="@) {
            RangeOutcome::Invalid(RANGE_UNIT_MESSAGE@)
        } else {
            let spec = v.subrange(6, v.len() as int);
            if index_of(spec, ',') < spec.len() {
                RangeOutcome::Invalid(MULTI_RANGE_MESSAGE@)
            } else if spec.len() > 0 && spec[0] == '-' {
                match parse_u64_spec(spec.drop_first()) {
                    None => RangeOutcome::Invalid(RANGE_SUFFIX_MESSAGE@),
                    Some(n) => if n == 0 {
                        RangeOutcome::Invalid(RANGE_SUFFIX_MESSAGE@)
                    } else if total == 0 {
                        RangeOutcome::Unsatisfiable(EMPTY_FILE_RANGE_MESSAGE@)
                    } else {
                        RangeOutcome::Bytes(
                            (total - min_u64(n, total)) as u64,
                            (total - 1) as u64,
                        )
                    },
                }
            } else {
                let dash = index_of(spec, '-');
                let start_str = spec.subrange(0, dash);
                let end_str = if dash < spec.len() {
                    spec.subrange(dash + 1, spec.len() as int)
                } else {
                    Seq::empty()
                };
                if start_str.len() == 0 {
                    RangeOutcome::Invalid(RANGE_START_REQUIRED_MESSAGE@)
                } else {
                    match parse_u64_spec(start_str) {
                        None => RangeOutcome::Invalid(RANGE_START_MESSAGE@),
                        Some(start) => if start >= total {
                            RangeOutcome::Unsatisfiable(RANGE_START_BEYOND_MESSAGE@)
                        } else if end_str.len() == 0 {
                            RangeOutcome::Bytes(start, (total - 1) as u64)
                        } else {
                            match parse_u64_spec(end_str) {
                                None => RangeOutcome::Invalid(RANGE_END_MESSAGE@),
                                Some(end) => if end < start {
                                    RangeOutcome::Invalid(RANGE_ORDER_MESSAGE@)
                                } else {
                                    RangeOutcome::Bytes(start, min_u64(end, (total - 1) as u64))
                                },
                            }
                        },
                    }
                }
            }
        },
    }
}

/// Whether the parse of a range header is the one `range_spec` describes.
pub open spec fn range_result_matches(r: Result<StreamRange, ApiError>, o: RangeOutcome) -> bool {
    match r {
        Ok(StreamRange::Full) => o is Whole,
        Ok(StreamRange::Partial { start, end }) => o == RangeOutcome::Bytes(start, end),
        Err(e) => match o {
            RangeOutcome::Invalid(m) => e.status_spec() == 400 && e.code_spec()
                == ErrorCode::ValidationFailed && e.message_spec() == m,
            RangeOutcome::Unsatisfiable(m) => e.status_spec() == 416 && e.code_spec()
                == ErrorCode::ValidationFailed && e.message_spec() == m,
            _ => false,
        },
    }
}

fn has_prefix(s: &Vec<char>, p: &Vec<char>) -> (r: bool)
    ensures
        r == (s@.len() >= p@.len() && s@.subrange(0, p@.len() as int) == p@),
{
    if s.len() < p.len() {
        return false;
    }
    let mut i: usize = 0;
    while i < p.len()
        invariant
            i <= p.len() <= s.len(),
            forall|j: int| 0 <= j < i ==> s@[j] == p@[j],
        decreases p.len() - i,
    {
        if s[i] != p[i] {
            assert(s@.subrange(0, p@.len() as int)[i as int] != p@[i as int]);
            return false;
        }
        i += 1;
    }
    assert(s@.subrange(0, p@.len() as int) =~= p@);
    true
}

/// Reads an HTTP `Range` header against a file of `total` bytes.
pub fn parse_range(range_header: Option<&str>, total: u64) -> (r: Result<StreamRange, ApiError>)
    ensures
        range_result_matches(r, range_spec(opt_strref_view(range_header), total)),
{
    let value = match range_header {
        None => {
            return Ok(StreamRange::Full);
        },
        Some(v) => chars_of(v),
    };
    let unit = chars_of("bytes=");
    proof {
        reveal_strlit("bytes=");
    }
    if !has_prefix(&value, &unit) {
        return Err(ApiError::bad_request(RANGE_UNIT_MESSAGE));
    }
    let spec = copy_range(&value, 6, value.len());
    if find_char(&spec, ',') < spec.len() {
        return Err(ApiError::bad_request(MULTI_RANGE_MESSAGE));
    }
    if spec.len() > 0 && spec[0] == '-' {
        let rest = copy_range(&spec, 1, spec.len());
        assert(rest@ =~= spec@.drop_first());
        let suffix = match parse_u64(&rest) {
            Some(n) => n,
            None => {
                return Err(ApiError::bad_request(RANGE_SUFFIX_MESSAGE));
            },
        };
        if suffix == 0 {
            return Err(ApiError::bad_request(RANGE_SUFFIX_MESSAGE));
        }
        if total == 0 {
            return Err(ApiError::with_status(416, ErrorCode::ValidationFailed, EMPTY_FILE_RANGE_MESSAGE));
        }
        let clipped = if suffix < total {
            suffix
        } else {
            total
        };
        return Ok(StreamRange::Partial { start: total - clipped, end: total - 1 });
    }
    let dash = find_char(&spec, '-');
    let start_str = copy_range(&spec, 0, dash);
    let end_str = if dash < spec.len() {
        copy_range(&spec, dash + 1, spec.len())
    } else {
        Vec::new()
    };
    assert(end_str@ =~= (if dash < spec@.len() {
        spec@.subrange(dash + 1, spec@.len() as int)
    } else {
        Seq::empty()
    }));
    if start_str.len() == 0 {
        return Err(ApiError::bad_request(RANGE_START_REQUIRED_MESSAGE));
    }
    let start = match parse_u64(&start_str) {
        Some(n) => n,
        None => {
            return Err(ApiError::bad_request(RANGE_START_MESSAGE));
        },
    };
    if start >= total {
        return Err(ApiError::with_status(416, ErrorCode::ValidationFailed, RANGE_START_BEYOND_MESSAGE));
    }
    if end_str.len() == 0 {
        return Ok(StreamRange::Partial { start, end: total - 1 });
    }
    let end = match parse_u64(&end_str) {
        Some(n) => n,
        None => {
            return Err(ApiError::bad_request(RANGE_END_MESSAGE));
        },
    };
    if end < start {
        return Err(ApiError::bad_request(RANGE_ORDER_MESSAGE));
    }
    let capped = if end < total - 1 {
        end
    } else {
        total - 1
    };
    Ok(StreamRange::Partial { start, end: capped })
}

} // verus!
