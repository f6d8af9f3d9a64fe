//! Protocol-independent request handling: which route a request takes,
//! what the response head says, how a download body is cut into chunks,
//! and how an upload is counted.

use vstd::prelude::*;

verus! {

/// Largest download, in bytes, that a request may ask for (1 GiB).
pub const MAX_DOWNLOAD: u64 = 1073741824;

/// Largest chunk of a download body, in bytes.
pub const CHUNK_SIZE: u64 = 65536;

/// The protocol version that produced a response; echoed back to clients.
#[derive(Debug, Clone, Copy, PartialEq, Eq, Structural)]
pub enum HttpVersion {
    Http1,
    Http2,
    Http3,
}

impl HttpVersion {
    pub open spec fn label(self) -> Seq<char> {
        match self {
            HttpVersion::Http1 => "HTTP/1.1"@,
            HttpVersion::Http2 => "HTTP/2"@,
            HttpVersion::Http3 => "HTTP/3"@,
        }
    }

    /// The value of the `X-Http-Version` header for this version.
    pub fn as_str(&self) -> (r: &'static str)
        ensures
            r@ == self.label(),
    {
        match self {
            HttpVersion::Http1 => "HTTP/1.1",
            HttpVersion::Http2 => "HTTP/2",
            HttpVersion::Http3 => "HTTP/3",
        }
    }
}

/// The request methods that the handler tells apart.
#[derive(Debug, Clone, Copy, PartialEq, Eq, Structural)]
pub enum Method {
    Get,
    Post,
    Other,
}

/// Where a request goes, decided from its method and path alone.
#[derive(Debug, Clone, Copy, PartialEq, Eq, Structural)]
pub enum Route {
    /// `GET /`: the index page.
    Index,
    /// `POST /upload`: the body is read and counted.
    Upload,
    /// `GET /download/<n>` with `n` within the limit.
    Download(u64),
    /// `GET /download/<n>` with `n` over the limit.
    TooLarge,
    /// A path that no route serves.
    NotFound,
    /// A served path with a method that it does not take.
    MethodNotAllowed,
}

/// Why a request was answered with a JSON error.
#[derive(Debug, Clone, Copy, PartialEq, Eq, Structural)]
pub enum ErrorReason {
    FrameError,
    TooLarge,
    NotFound,
    MethodNotAllowed,
}

impl ErrorReason {
    pub open spec fn text(self) -> Seq<char> {
        match self {
            ErrorReason::FrameError => "frame error"@,
            ErrorReason::TooLarge => "too large"@,
            ErrorReason::NotFound => "not found"@,
            ErrorReason::MethodNotAllowed => "method not allowed"@,
        }
    }

    /// The value of the `error` field of the JSON body.
    pub fn message(&self) -> (r: &'static str)
        ensures
            r@ == self.text(),
    {
        match self {
            ErrorReason::FrameError => "frame error",
            ErrorReason::TooLarge => "too large",
            ErrorReason::NotFound => "not found",
            ErrorReason::MethodNotAllowed => "method not allowed",
        }
    }
}

#[derive(Debug, Clone, Copy, PartialEq, Eq, Structural)]
pub enum ContentType {
    Html,
    Json,
    OctetStream,
}

impl ContentType {
    pub open spec fn mime(self) -> Seq<char> {
        match self {
            ContentType::Html => "text/html"@,
            ContentType::Json => "application/json"@,
            ContentType::OctetStream => "application/octet-stream"@,
        }
    }

    /// The value of the `Content-Type` header.
    pub fn as_str(&self) -> (r: &'static str)
        ensures
            r@ == self.mime(),
    {
        match self {
            ContentType::Html => "text/html",
            ContentType::Json => "application/json",
            ContentType::OctetStream => "application/octet-stream",
        }
    }
}

/// What a response carries after its head.
#[derive(Debug, Clone, Copy, PartialEq, Eq, Structural)]
pub enum Body {
    /// The static index page.
    Index,
    /// `{"error": <reason>}`.
    Error(ErrorReason),
    /// `{"uploaded_bytes": <n>}`.
    Uploaded(u64),
    /// `n` zero bytes, produced by a `DownloadBody`.
    Zeros(u64),
}

/// A response in a form that every protocol driver can write out.
#[derive(Debug, Clone, Copy, PartialEq, Eq, Structural)]
pub struct Response {
    pub status: u16,
    pub content_type: ContentType,
    /// `Content-Length`, where the head states it.
    pub content_length: Option<u64>,
    /// Whether `Cache-Control: no-store` is set.
    pub no_store: bool,
    /// Sent as `X-Http-Version`.
    pub version: HttpVersion,
    pub body: Body,
}

pub open spec fn index_path() -> Seq<u8> {
    seq![47u8]
}

/// `/upload`
pub open spec fn upload_path() -> Seq<u8> {
    seq![47u8, 117, 112, 108, 111, 97, 100]
}

/// `/download/`
pub open spec fn download_prefix() -> Seq<u8> {
    seq![47u8, 100, 111, 119, 110, 108, 111, 97, 100, 47]
}

pub open spec fn has_download_prefix(p: Seq<u8>) -> bool {
    p.len() >= 10 && p.subrange(0, 10) == download_prefix()
}

pub open spec fn is_digit(b: u8) -> bool {
    48 <= b && b <= 57
}

pub open spec fn all_digits(s: Seq<u8>) -> bool {
    forall|i: int| 0 <= i < s.len() ==> is_digit(#[trigger] s[i])
}

/// The number that a string of decimal digits denotes.
pub open spec fn digits_value(s: Seq<u8>) -> nat
    decreases s.len(),
{
    if s.len() == 0 {
        0
    } else {
        digits_value(s.drop_last()) * 10 + (s.last() - 48) as nat
    }
}

/// The digits of an unsigned decimal, after an optional leading `+`.
pub open spec fn unsigned_digits(s: Seq<u8>) -> Seq<u8> {
    if s.len() > 0 && s[0] == 43u8 {
        s.subrange(1, s.len() as int)
    } else {
        s
    }
}

/// Whether `s` is an unsigned decimal numeral, of any length.
pub open spec fn is_decimal(s: Seq<u8>) -> bool {
    let d = unsigned_digits(s);
    d.len() > 0 && all_digits(d)
}

/// The byte count that a download path suffix asks for: its value where
/// it is an unsigned decimal numeral, held at the largest `u64` where it
/// is larger (so that it stays over the download limit), and zero where
/// the suffix is no numeral.
pub open spec fn requested_len(s: Seq<u8>) -> nat {
    if is_decimal(s) {
        let v = digits_value(unsigned_digits(s));
        if v > u64::MAX { u64::MAX as nat } else { v }
    } else {
        0
    }
}

pub open spec fn route_of(m: Method, p: Seq<u8>) -> Route {
    if p == index_path() {
        if m == Method::Get { Route::Index } else { Route::MethodNotAllowed }
    } else if p == upload_path() {
        if m == Method::Post { Route::Upload } else { Route::MethodNotAllowed }
    } else if has_download_prefix(p) {
        if m == Method::Get {
            let n = requested_len(p.subrange(10, p.len() as int));
            if n > MAX_DOWNLOAD { Route::TooLarge } else { Route::Download(n as u64) }
        } else {
            Route::MethodNotAllowed
        }
    } else {
        Route::NotFound
    }
}

pub open spec fn json_response(status: u16, v: HttpVersion, body: Body) -> Response {
    Response {
        status,
        content_type: ContentType::Json,
        content_length: None,
        no_store: false,
        version: v,
        body,
    }
}

/// The response for a route; an upload has none until its body is read.
pub open spec fn response_of(r: Route, v: HttpVersion) -> Option<Response> {
    match r {
        Route::Index => Some(
            Response {
                status: 200,
                content_type: ContentType::Html,
                content_length: None,
                no_store: false,
                version: v,
                body: Body::Index,
            },
        ),
        Route::Upload => None,
        Route::Download(n) => Some(
            Response {
                status: 200,
                content_type: ContentType::OctetStream,
                content_length: Some(n),
                no_store: true,
                version: v,
                body: Body::Zeros(n),
            },
        ),
        Route::TooLarge => Some(json_response(400, v, Body::Error(ErrorReason::TooLarge))),
        Route::NotFound => Some(json_response(404, v, Body::Error(ErrorReason::NotFound))),
        Route::MethodNotAllowed => Some(
            json_response(405, v, Body::Error(ErrorReason::MethodNotAllowed)),
        ),
    }
}

/// The sizes of the chunks that a download of `n` bytes is cut into.
pub open spec fn chunk_sizes(n: nat) -> Seq<nat>
    decreases n,
{
    if n == 0 {
        Seq::empty()
    } else {
        let c = if n < CHUNK_SIZE { n } else { CHUNK_SIZE as nat };
        seq![c] + chunk_sizes((n - c) as nat)
    }
}

pub open spec fn seq_sum(s: Seq<nat>) -> nat
    decreases s.len(),
{
    if s.len() == 0 {
        0
    } else {
        seq_sum(s.drop_last()) + s.last()
    }
}

/// Adds `b` to `a`, stopping at the largest `u64`.
pub open spec fn saturating(a: nat, b: nat) -> nat {
    if a + b > u64::MAX { u64::MAX as nat } else { a + b }
}

/// What an upload counter holds after taking frames of the given lengths.
pub open spec fn counted(frames: Seq<nat>) -> nat
    decreases frames.len(),
{
    if frames.len() == 0 {
        0
    } else {
        saturating(counted(frames.drop_last()), frames.last())
    }
}

pub fn is_index_path(p: &[u8]) -> (r: bool)
    ensures
        r == (p@ == index_path()),
{
    if p.len() == 1 && p[0] == 47u8 {
        assert(p@ =~= index_path());
        true
    } else {
        false
    }
}

pub fn is_upload_path(p: &[u8]) -> (r: bool)
    ensures
        r == (p@ == upload_path()),
{
    let expected: [u8; 7] = [47u8, 117, 112, 108, 111, 97, 100];
    assert(expected@ =~= upload_path());
    if p.len() != 7 {
        return false;
    }
    let mut i: usize = 0;
    while i < 7
        invariant
            p@.len() == 7,
            expected@ == upload_path(),
            i <= 7,
            p@.subrange(0, i as int) == expected@.subrange(0, i as int),
        decreases 7 - i,
    {
        if p[i] != expected[i] {
            assert(p@[i as int] != upload_path()[i as int]);
            return false;
        }
        assert(p@.subrange(0, i + 1) =~= p@.subrange(0, i as int).push(p@[i as int]));
        assert(expected@.subrange(0, i + 1) =~= expected@.subrange(0, i as int).push(
            expected@[i as int],
        ));
        i = i + 1;
    }
    assert(p@ =~= p@.subrange(0, 7));
    assert(expected@ =~= expected@.subrange(0, 7));
    true
}

pub fn starts_with_download_prefix(p: &[u8]) -> (r: bool)
    ensures
        r == has_download_prefix(p@),
{
    let expected: [u8; 10] = [47u8, 100, 111, 119, 110, 108, 111, 97, 100, 47];
    assert(expected@ =~= download_prefix());
    if p.len() < 10 {
        return false;
    }
    let mut i: usize = 0;
    while i < 10
        invariant
            p@.len() >= 10,
            expected@ == download_prefix(),
            i <= 10,
            p@.subrange(0, i as int) == expected@.subrange(0, i as int),
        decreases 10 - i,
    {
        if p[i] != expected[i] {
            assert(p@.subrange(0, 10)[i as int] != download_prefix()[i as int]);
            return false;
        }
        assert(p@.subrange(0, i + 1) =~= p@.subrange(0, i as int).push(p@[i as int]));
        assert(expected@.subrange(0, i + 1) =~= expected@.subrange(0, i as int).push(
            expected@[i as int],
        ));
        i = i + 1;
    }
    assert(expected@ =~= expected@.subrange(0, 10));
    true
}

/// Parses a download path suffix as `requested_len` describes it.
pub fn parse_len(s: &[u8]) -> (r: u64)
    ensures
        r as nat == requested_len(s@),
{
    let start: usize = if s.len() > 0 && s[0] == 43u8 { 1 } else { 0 };
    let ghost d = unsigned_digits(s@);
    assert(d =~= s@.subrange(start as int, s@.len() as int));
    if start >= s.len() {
        return 0;
    }
    let mut value: u64 = 0;
    // Set once the digits read so far denote more than `u64::MAX`; the
    // rest is still read, since a later non-digit makes the suffix no
    // number at all.
    let mut saturated: bool = false;
    let mut i: usize = start;
    while i < s.len()
        invariant
            start <= i <= s@.len(),
            d == s@.subrange(start as int, s@.len() as int),
            d == unsigned_digits(s@),
            all_digits(s@.subrange(start as int, i as int)),
            saturated ==> digits_value(s@.subrange(start as int, i as int)) > u64::MAX,
            !saturated ==> value as nat == digits_value(s@.subrange(start as int, i as int)),
        decreases s.len() - i,
    {
        let b = s[i];
        let ghost prefix = s@.subrange(start as int, i + 1);
        assert(prefix.drop_last() =~= s@.subrange(start as int, i as int));
        assert(prefix =~= d.subrange(0, i + 1 - start));
        assert(prefix.last() == b);
        assert(d[i - start] == b);
        if b < 48u8 || b > 57u8 {
            assert(!is_digit(d[i - start]));
            assert(!all_digits(d));
            return 0;
        }
        let digit: u64 = (b - 48u8) as u64;
        assert(digits_value(prefix) == digits_value(prefix.drop_last()) * 10 + digit);
        if saturated {
        } else if value > (u64::MAX - digit) / 10 {
            assert(digits_value(prefix) > u64::MAX) by (nonlinear_arith)
                requires
                    digits_value(prefix) == value * 10 + digit,
                    value > (u64::MAX - digit) / 10,
                    digit <= 9,
            ;
            saturated = true;
        } else {
            assert(value * 10 + digit <= u64::MAX) by (nonlinear_arith)
                requires
                    value <= (u64::MAX - digit) / 10,
                    digit <= 9,
            ;
            value = value * 10 + digit;
        }
        i = i + 1;
    }
    assert(s@.subrange(start as int, i as int) =~= d);
    if saturated {
        u64::MAX
    } else {
        value
    }
}

/// Decides the route of a request from its method and path.
pub fn route(m: Method, path: &[u8]) -> (r: Route)
    ensures
        r == route_of(m, path@),
{
    if is_index_path(path) {
        if m == Method::Get { Route::Index } else { Route::MethodNotAllowed }
    } else if is_upload_path(path) {
        if m == Method::Post { Route::Upload } else { Route::MethodNotAllowed }
    } else if starts_with_download_prefix(path) {
        if m == Method::Get {
            let n = parse_len(&path[10..path.len()]);
            if n > MAX_DOWNLOAD { Route::TooLarge } else { Route::Download(n) }
        } else {
            Route::MethodNotAllowed
        }
    } else {
        Route::NotFound
    }
}

fn json(status: u16, v: HttpVersion, body: Body) -> (r: Response)
    ensures
        r == json_response(status, v, body),
{
    Response {
        status,
        content_type: ContentType::Json,
        content_length: None,
        no_store: false,
        version: v,
        body,
    }
}

/// The response for a route, tagged with the protocol version; `None` for
/// an upload, whose response waits for its body (see `UploadCounter`).
pub fn respond(r: Route, v: HttpVersion) -> (res: Option<Response>)
    ensures
        res == response_of(r, v),
{
    match r {
        Route::Index => Some(
            Response {
                status: 200,
                content_type: ContentType::Html,
                content_length: None,
                no_store: false,
                version: v,
                body: Body::Index,
            },
        ),
        Route::Upload => None,
        Route::Download(n) => Some(
            Response {
                status: 200,
                content_type: ContentType::OctetStream,
                content_length: Some(n),
                no_store: true,
                version: v,
                body: Body::Zeros(n),
            },
        ),
        Route::TooLarge => Some(json(400, v, Body::Error(ErrorReason::TooLarge))),
        Route::NotFound => Some(json(404, v, Body::Error(ErrorReason::NotFound))),
        Route::MethodNotAllowed => Some(json(405, v, Body::Error(ErrorReason::MethodNotAllowed))),
    }
}

/// Routes a request and gives its response; `None` where the route is an
/// upload whose body is still to be read.
pub fn handle_request(m: Method, path: &[u8], v: HttpVersion) -> (res: Option<Response>)
    ensures
        res == response_of(route_of(m, path@), v),
{
    let r = route(m, path);
    respond(r, v)
}

/// The body of a download: a finite run of zero-filled chunks.
pub struct DownloadBody {
    remaining: u64,
}

impl View for DownloadBody {
    type V = nat;

    /// The bytes still to be produced.
    closed spec fn view(&self) -> nat {
        self.remaining as nat
    }
}

impl DownloadBody {
    pub fn new(len: u64) -> (r: Self)
        ensures
            r@ == len as nat,
    {
        DownloadBody { remaining: len }
    }

    /// The bytes still to be produced.
    pub fn remaining(&self) -> (r: u64)
        ensures
            r as nat == self@,
    {
        self.remaining
    }

    /// The length of the next chunk of zero bytes, or `None` once the whole
    /// length has been produced.
    pub fn next_chunk(&mut self) -> (r: Option<usize>)
        ensures
            old(self)@ == 0 ==> r is None && final(self)@ == 0,
            old(self)@ > 0 ==> r == Some(chunk_sizes(old(self)@)[0] as usize),
            old(self)@ > 0 ==> chunk_sizes(final(self)@) == chunk_sizes(old(self)@).drop_first(),
            old(self)@ > 0 ==> final(self)@ == old(self)@ - chunk_sizes(old(self)@)[0],
    {
        if self.remaining == 0 {
            return None;
        }
        let chunk: u64 = if self.remaining < CHUNK_SIZE { self.remaining } else { CHUNK_SIZE };
        let ghost before = self@;
        self.remaining = self.remaining - chunk;
        assert(chunk_sizes(before) =~= seq![chunk as nat] + chunk_sizes(self@));
        assert(chunk_sizes(before).drop_first() =~= chunk_sizes(self@));
        Some(chunk as usize)
    }
}

/// Counts the bytes of an upload body, frame by frame.
pub struct UploadCounter {
    total: u64,
}

impl View for UploadCounter {
    type V = nat;

    closed spec fn view(&self) -> nat {
        self.total as nat
    }
}

impl UploadCounter {
    pub fn new() -> (r: Self)
        ensures
            r@ == counted(Seq::empty()),
    {
        UploadCounter { total: 0 }
    }

    /// Counts a data frame of `len` bytes.
    pub fn add_frame(&mut self, len: usize)
        ensures
            final(self)@ == saturating(old(self)@, len as nat),
    {
        self.total = self.total.saturating_add(len as u64);
    }

    /// The byte count so far.
    pub fn total(&self) -> (r: u64)
        ensures
            r as nat == self@,
    {
        self.total
    }

    /// The response once the whole body has been read.
    pub fn finish(&self, v: HttpVersion) -> (r: Response)
        ensures
            r == json_response(200, v, Body::Uploaded(self@ as u64)),
    {
        json(200, v, Body::Uploaded(self.total))
    }
}

/// The response to an upload whose body could not be read; whatever was
/// counted is dropped.
pub fn upload_failed(v: HttpVersion) -> (r: Response)
    ensures
        r == json_response(400, v, Body::Error(ErrorReason::FrameError)),
{
    json(400, v, Body::Error(ErrorReason::FrameError))
}

/// Counts an upload given as the lengths of its data frames, as the
/// protocol driver saw them.
pub fn count_upload(frames: &Vec<usize>) -> (r: u64)
    ensures
        r as nat == counted(frames@.map_values(|f: usize| f as nat)),
{
    let mut counter = UploadCounter::new();
    let mut i: usize = 0;
    while i < frames.len()
        invariant
            i <= frames@.len(),
            counter@ == counted(frames@.subrange(0, i as int).map_values(|f: usize| f as nat)),
        decreases frames.len() - i,
    {
        let ghost before = frames@.subrange(0, i as int).map_values(|f: usize| f as nat);
        counter.add_frame(frames[i]);
        assert(frames@.subrange(0, i + 1).map_values(|f: usize| f as nat).drop_last() =~= before);
        i = i + 1;
    }
    assert(frames@.subrange(0, i as int) =~= frames@);
    counter.total()
}

proof fn lemma_chunk_sizes(n: nat)
    ensures
        seq_sum(chunk_sizes(n)) == n,
        forall|i: int|
            0 <= i < chunk_sizes(n).len() ==> 0 < #[trigger] chunk_sizes(n)[i] <= CHUNK_SIZE,
    decreases n,
{
    if n > 0 {
        let c = if n < CHUNK_SIZE { n } else { CHUNK_SIZE as nat };
        let rest = chunk_sizes((n - c) as nat);
        lemma_chunk_sizes((n - c) as nat);
        lemma_sum_prepend(c, rest);
        assert(chunk_sizes(n) == seq![c] + rest);
        assert forall|i: int| 0 <= i < chunk_sizes(n).len() implies 0 < #[trigger] chunk_sizes(
            n,
        )[i] <= CHUNK_SIZE by {
            if i > 0 {
                assert(chunk_sizes(n)[i] == rest[i - 1]);
            }
        }
    }
}

proof fn lemma_sum_prepend(c: nat, s: Seq<nat>)
    ensures
        seq_sum(seq![c] + s) == c + seq_sum(s),
    decreases s.len(),
{
    if s.len() > 0 {
        assert((seq![c] + s).drop_last() =~= seq![c] + s.drop_last());
        assert((seq![c] + s).last() == s.last());
        lemma_sum_prepend(c, s.drop_last());
    } else {
        assert(seq![c] + s =~= seq![c]);
        assert(seq![c].drop_last() =~= Seq::<nat>::empty());
        reveal_with_fuel(seq_sum, 2);
    }
}

proof fn lemma_sum_concat(a: Seq<nat>, b: Seq<nat>)
    ensures
        seq_sum(a + b) == seq_sum(a) + seq_sum(b),
    decreases b.len(),
{
    if b.len() == 0 {
        assert(a + b =~= a);
    } else {
        assert((a + b).drop_last() =~= a + b.drop_last());
        lemma_sum_concat(a, b.drop_last());
    }
}

/// A download of any length up to the limit is answered with status 200,
/// a `Content-Length` equal to that length and a body of that many bytes,
/// cut into non-empty chunks of at most `CHUNK_SIZE` bytes.
pub proof fn download_law(path: Seq<u8>)
    requires
        has_download_prefix(path),
        requested_len(path.subrange(10, path.len() as int)) <= MAX_DOWNLOAD,
    ensures
        ({
            let n = requested_len(path.subrange(10, path.len() as int));
            let r = response_of(route_of(Method::Get, path), HttpVersion::Http1);
            &&& r is Some
            &&& r->0.status == 200
            &&& r->0.content_length == Some(n as u64)
            &&& r->0.body == Body::Zeros(n as u64)
            &&& seq_sum(chunk_sizes(n)) == n
            &&& forall|i: int|
                0 <= i < chunk_sizes(n).len() ==> 0 < #[trigger] chunk_sizes(n)[i] <= CHUNK_SIZE
        }),
{
    let n = requested_len(path.subrange(10, path.len() as int));
    assert(path != index_path());
    assert(path != upload_path());
    lemma_chunk_sizes(n);
}

/// A download of a decimal numeral over the limit, however many digits it
/// has, is answered with status 400, a "too large" error, and no download
/// body.
pub proof fn download_too_large_law(path: Seq<u8>, v: HttpVersion)
    requires
        has_download_prefix(path),
        is_decimal(path.subrange(10, path.len() as int)),
        digits_value(unsigned_digits(path.subrange(10, path.len() as int))) > MAX_DOWNLOAD,
    ensures
        response_of(route_of(Method::Get, path), v) == Some(
            json_response(400, v, Body::Error(ErrorReason::TooLarge)),
        ),
{
    assert(path != index_path());
    assert(path != upload_path());
}

/// The count of an upload depends on its frames only through their total:
/// it is that total, held at the largest `u64`. So any two ways of cutting
/// the same body into frames give the same count.
pub proof fn upload_count_law(frames: Seq<nat>)
    ensures
        counted(frames) == saturating(0, seq_sum(frames)),
        seq_sum(frames) <= u64::MAX ==> counted(frames) == seq_sum(frames),
    decreases frames.len(),
{
    if frames.len() > 0 {
        upload_count_law(frames.drop_last());
    }
}

/// Cutting an upload body differently leaves its count unchanged.
pub proof fn upload_chunking_law(a: Seq<nat>, b: Seq<nat>)
    requires
        seq_sum(a) == seq_sum(b),
    ensures
        counted(a) == counted(b),
{
    upload_count_law(a);
    upload_count_law(b);
}

/// Splitting one frame into two leaves the count of an upload unchanged.
pub proof fn upload_split_frame_law(before: Seq<nat>, x: nat, y: nat, after: Seq<nat>)
    ensures
        counted(before + seq![x + y] + after) == counted(before + seq![x, y] + after),
{
    lemma_sum_concat(before + seq![x + y], after);
    lemma_sum_concat(before, seq![x + y]);
    lemma_sum_concat(before + seq![x, y], after);
    lemma_sum_concat(before, seq![x, y]);
    assert(seq_sum(seq![x + y]) == x + y) by {
        assert(seq![x + y].drop_last() =~= Seq::<nat>::empty());
        reveal_with_fuel(seq_sum, 2);
    }
    assert(seq_sum(seq![x, y]) == x + y) by {
        assert(seq![x, y].drop_last() =~= seq![x]);
        assert(seq![x].drop_last() =~= Seq::<nat>::empty());
        reveal_with_fuel(seq_sum, 3);
    }
    upload_chunking_law(before + seq![x + y] + after, before + seq![x, y] + after);
}

/// A path that no route serves is answered with 404 whatever the method;
/// a served path with a method that it does not take is answered with 405.
pub proof fn not_found_and_method_law(m: Method, p: Seq<u8>, v: HttpVersion)
    ensures
        p != index_path() && p != upload_path() && !has_download_prefix(p) ==> response_of(
            route_of(m, p),
            v,
        ) == Some(json_response(404, v, Body::Error(ErrorReason::NotFound))),
        (p == index_path() && m != Method::Get) || (p == upload_path() && m != Method::Post) || (
        has_download_prefix(p) && m != Method::Get) ==> response_of(route_of(m, p), v) == Some(
            json_response(405, v, Body::Error(ErrorReason::MethodNotAllowed)),
        ),
{
    assert(index_path() != upload_path()) by {
        assert(index_path().len() != upload_path().len());
    }
    assert(!has_download_prefix(index_path()));
    assert(!has_download_prefix(upload_path()));
}

} // verus!
