//! The framing of a response that arrives in pieces.
//!
//! A read from a connection gives some bytes, not a message. The framer
//! gathers the pieces: it parses the bytes received so far until the head
//! is complete, then waits until as many body bytes are there as the head
//! declares, or until the connection closes.

use crate::error::HttpError;
use crate::http::{HttpResponse, ResponseView};
use crate::text::{eq_ignore_ascii_case, eq_ignore_case, parse_length, read_length, same_text};
use vstd::prelude::*;
use vstd::slice::*;
use vstd::string::*;
use vstd::utf8::*;

verus! {

/// How many header lines a response may carry.
pub const MAX_HEADERS: usize = 64;

/// How many bytes are asked of the connection at a time.
pub const READ_CHUNK: usize = 8192;

/// The head of a response as the parser reports it: where the body begins,
/// the status line as far as it was present, and the header lines with
/// their values as raw bytes.
#[derive(Debug, Clone)]
pub struct RawHead {
    pub head_len: usize,
    pub version: Option<u8>,
    pub code: Option<u16>,
    pub reason: Option<String>,
    pub headers: Vec<(String, Vec<u8>)>,
}

/// The mathematical content of a `RawHead`.
pub struct RawHeadView {
    pub head_len: nat,
    pub version: Option<u8>,
    pub code: Option<u16>,
    pub reason: Option<Seq<char>>,
    pub headers: Seq<(Seq<char>, Seq<u8>)>,
}

impl View for RawHead {
    type V = RawHeadView;

    open spec fn view(&self) -> RawHeadView {
        RawHeadView {
            head_len: self.head_len as nat,
            version: self.version,
            code: self.code,
            reason: self.reason.deep_view(),
            headers: self.headers.deep_view(),
        }
    }
}

/// The head of a response, ready to use: gaps in the status line filled,
/// header values as text.
#[derive(Debug, Clone)]
pub struct Head {
    pub head_len: usize,
    pub version: u8,
    pub status_code: u16,
    pub reason: String,
    pub headers: Vec<(String, String)>,
}

/// The mathematical content of a `Head`.
pub struct HeadView {
    pub head_len: nat,
    pub version: u8,
    pub status_code: u16,
    pub reason: Seq<char>,
    pub headers: Seq<(Seq<char>, Seq<char>)>,
}

impl View for Head {
    type V = HeadView;

    open spec fn view(&self) -> HeadView {
        HeadView {
            head_len: self.head_len as nat,
            version: self.version,
            status_code: self.status_code,
            reason: self.reason@,
            headers: self.headers.deep_view(),
        }
    }
}

/// `httparse::Error`, the parser's complaints: an enum without fields,
/// which is read as it stands.
#[verifier::external_type_specification]
pub struct ExHeadError(httparse::Error);

/// What the parser makes of the bytes received so far.
pub enum HeadParse {
    /// The head is not all there yet.
    Partial,
    /// The head is complete.
    Complete(RawHeadView),
    /// The bytes are no response head.
    Invalid(httparse::Error),
}

/// What httparse's response parser makes of `bytes` when it has room for
/// `max_headers` header lines.
pub uninterp spec fn parsed_head(bytes: Seq<u8>, max_headers: nat) -> HeadParse;

/// The text that lossy UTF-8 decoding makes of `bytes`.
pub uninterp spec fn lossy_text(bytes: Seq<u8>) -> Seq<char>;

/// `httparse::Response::parse` on a fresh `Response` with `max_headers` empty
/// header slots. The parser reads nothing but the buffer and the number of
/// slots, so its verdict is a function of the two. On a complete head it
/// reports the offset of the body and leaves the status line and the parsed
/// header lines in the `Response`; they are copied out one for one.
#[verifier::external_body]
fn parse_head(buf: &[u8], max_headers: usize) -> (r: Result<Option<RawHead>, httparse::Error>)
    ensures
        parsed_head(buf@, max_headers as nat) == match r {
            Ok(Some(head)) => HeadParse::Complete(head@),
            Ok(None) => HeadParse::Partial,
            Err(e) => HeadParse::Invalid(e),
        },
{
    let mut slots = vec![httparse::EMPTY_HEADER; max_headers];
    let mut response = httparse::Response::new(&mut slots);
    let status = response.parse(buf)?;
    Ok(match status {
        httparse::Status::Partial => None,
        httparse::Status::Complete(n) => Some(RawHead {
            head_len: n,
            version: response.version,
            code: response.code,
            reason: response.reason.map(|s| s.to_string()),
            headers: response.headers.iter().map(|h| (h.name.to_string(), h.value.to_vec())).collect(),
        }),
    })
}

/// `String::from_utf8_lossy`: the bytes as text, each invalid sequence
/// replaced by U+FFFD. Valid UTF-8 is decoded as it stands.
#[verifier::external_body]
fn utf8_lossy(bytes: &[u8]) -> (r: String)
    ensures
        r@ == lossy_text(bytes@),
        valid_utf8(bytes@) ==> r@ == decode_utf8(bytes@),
{
    String::from_utf8_lossy(bytes).into_owned()
}

/// The error that the client reports for a parser's complaint.
pub open spec fn head_error_of(e: httparse::Error) -> HttpError {
    match e {
        httparse::Error::HeaderName => HttpError::Parse("invalid header name"),
        httparse::Error::HeaderValue => HttpError::Parse("invalid header value"),
        httparse::Error::NewLine => HttpError::Parse("invalid new line"),
        httparse::Error::Status => HttpError::Parse("invalid response status"),
        httparse::Error::Token => HttpError::Parse("invalid token"),
        httparse::Error::TooManyHeaders => HttpError::Parse("too many headers"),
        httparse::Error::Version => HttpError::Parse("invalid HTTP version"),
    }
}

/// Turns a parser's complaint into the client's error.
pub fn head_error(e: httparse::Error) -> (r: HttpError)
    ensures
        r == head_error_of(e),
{
    match e {
        httparse::Error::HeaderName => HttpError::Parse("invalid header name"),
        httparse::Error::HeaderValue => HttpError::Parse("invalid header value"),
        httparse::Error::NewLine => HttpError::Parse("invalid new line"),
        httparse::Error::Status => HttpError::Parse("invalid response status"),
        httparse::Error::Token => HttpError::Parse("invalid token"),
        httparse::Error::TooManyHeaders => HttpError::Parse("too many headers"),
        httparse::Error::Version => HttpError::Parse("invalid HTTP version"),
    }
}

/// The head that the client works with, for a head as parsed: version 1,
/// status 200 and reason `OK` where the parser left them open, and each
/// header value decoded lossily.
pub open spec fn decoded(raw: RawHeadView) -> HeadView {
    HeadView {
        head_len: raw.head_len,
        version: match raw.version {
            Some(v) => v,
            None => 1,
        },
        status_code: match raw.code {
            Some(c) => c,
            None => 200,
        },
        reason: match raw.reason {
            Some(r) => r,
            None => "OK"@,
        },
        headers: Seq::new(raw.headers.len(), |i: int| (raw.headers[i].0, lossy_text(raw.headers[i].1))),
    }
}

/// The length that the headers declare for the body: the value of the first
/// header named `Content-Length`, in any case of letters, where it reads as
/// a length; 0 where there is no such header or its value does not.
pub open spec fn content_length_of(headers: Seq<(Seq<char>, Seq<char>)>) -> nat
    decreases headers.len(),
{
    if headers.len() == 0 {
        0
    } else if eq_ignore_ascii_case(headers[0].0, "content-length"@) {
        match parse_length(headers[0].1) {
            Some(n) => n,
            None => 0,
        }
    } else {
        content_length_of(headers.drop_first())
    }
}

/// The bytes of `buffer` from `head_len` on; none where the buffer is
/// shorter.
pub open spec fn body_of(buffer: Seq<u8>, head_len: nat) -> Seq<u8> {
    if head_len <= buffer.len() {
        buffer.subrange(head_len as int, buffer.len() as int)
    } else {
        Seq::empty()
    }
}

/// The response made of a head and of what the buffer holds behind it.
pub open spec fn response_of(head: HeadView, buffer: Seq<u8>) -> ResponseView {
    ResponseView {
        version: head.version,
        status_code: head.status_code,
        reason: head.reason,
        headers: head.headers,
        body: body_of(buffer, head.head_len),
    }
}

/// The state of a framer: the bytes received so far, and the head once it
/// is complete.
pub struct FramerView {
    pub buffer: Seq<u8>,
    pub head: Option<HeadView>,
}

/// Where a framer stands after a piece of the response.
pub enum FramedView {
    /// The response is not all there yet.
    More(FramerView),
    /// The response is complete.
    Ready(ResponseView),
    /// The bytes are no response.
    Failed(HttpError),
}

/// A framer that has received nothing.
pub open spec fn fresh() -> FramerView {
    FramerView { buffer: Seq::empty(), head: None }
}

/// Where the framer stands with a complete head: done once the buffer holds
/// as many body bytes as the headers declare, else waiting for more.
pub open spec fn settled(buffer: Seq<u8>, head: HeadView) -> FramedView {
    if body_of(buffer, head.head_len).len() >= content_length_of(head.headers) {
        FramedView::Ready(response_of(head, buffer))
    } else {
        FramedView::More(FramerView { buffer, head: Some(head) })
    }
}

/// Where the framer stands once the parser has spoken on the buffer.
pub open spec fn judged(buffer: Seq<u8>, verdict: HeadParse) -> FramedView {
    match verdict {
        HeadParse::Invalid(e) => FramedView::Failed(head_error_of(e)),
        HeadParse::Partial => FramedView::More(FramerView { buffer, head: None }),
        HeadParse::Complete(raw) => settled(buffer, decoded(raw)),
    }
}

/// Where a framer stands after one more piece. While the head is open, the
/// whole buffer is parsed again; once it is complete, only the body's length
/// is looked at.
pub open spec fn pushed(f: FramerView, chunk: Seq<u8>) -> FramedView {
    let buffer = f.buffer + chunk;
    match f.head {
        None => judged(buffer, parsed_head(buffer, MAX_HEADERS as nat)),
        Some(head) => settled(buffer, head),
    }
}

/// What a framer gives when the connection closes: an error while the head
/// is open, else the response with as much of the body as came.
pub open spec fn at_close(f: FramerView) -> Result<ResponseView, HttpError> {
    match f.head {
        None => Err(HttpError::Protocol("Connection closed before headers complete")),
        Some(head) => Ok(response_of(head, f.buffer)),
    }
}

/// Reads the declared body length from the headers.
pub fn content_length(headers: &Vec<(String, String)>) -> (r: usize)
    ensures
        r == content_length_of(headers.deep_view()),
{
    proof {
        reveal_strlit("content-length");
    }
    let ghost all = headers.deep_view();
    let mut i: usize = 0;
    assert(all.skip(0) =~= all);
    while i < headers.len()
        invariant
            i <= headers.len(),
            all == headers.deep_view(),
            is_ascii("content-length"),
            content_length_of(all) == content_length_of(all.skip(i as int)),
        decreases headers.len() - i,
    {
        let ghost rest = all.skip(i as int);
        assert(rest[0] == all[i as int]);
        assert(rest.drop_first() =~= all.skip(i + 1));
        if eq_ignore_case(headers[i].0.as_str(), "content-length") {
            return match read_length(headers[i].1.as_str()) {
                Some(n) => n,
                None => 0,
            };
        }
        i += 1;
    }
    0
}

impl Head {
    /// Fills the gaps of a parsed head and decodes its header values.
    pub fn decode(raw: RawHead) -> (r: Head)
        ensures
            r@ == decoded(raw@),
    {
        let version = match raw.version {
            Some(v) => v,
            None => 1,
        };
        let status_code = match raw.code {
            Some(c) => c,
            None => 200,
        };
        let reason = match raw.reason {
            Some(r) => r,
            None => String::from_str("OK"),
        };
        let mut headers: Vec<(String, String)> = Vec::new();
        let mut i: usize = 0;
        while i < raw.headers.len()
            invariant
                i <= raw.headers.len(),
                headers.len() == i,
                forall|j: int|
                    0 <= j < i ==> (#[trigger] headers@[j]).0@ == raw.headers@[j].0@
                        && headers@[j].1@ == lossy_text(raw.headers@[j].1@),
            decreases raw.headers.len() - i,
        {
            let name = raw.headers[i].0.clone();
            let value = utf8_lossy(raw.headers[i].1.as_slice());
            headers.push((name, value));
            i += 1;
        }
        let r = Head { head_len: raw.head_len, version, status_code, reason, headers };
        proof {
            assert forall|j: int| 0 <= j < raw.headers.len() implies r@.headers[j] == decoded(
                raw@,
            ).headers[j] by {
                assert(raw.headers@[j].1.deep_view() =~= raw.headers@[j].1@);
            }
            assert(r@.headers =~= decoded(raw@).headers);
        }
        r
    }
}

/// Reassembles one response from the pieces in which it arrives.
pub struct Framer {
    buffer: Vec<u8>,
    head: Option<Head>,
}

/// Where a framer stands after a piece of the response.
pub enum Framed {
    /// The response is not all there yet: go on with this framer.
    More(Framer),
    /// The response is complete.
    Ready(HttpResponse),
    /// The bytes are no response.
    Failed(HttpError),
}

impl View for Framer {
    type V = FramerView;

    closed spec fn view(&self) -> FramerView {
        FramerView {
            buffer: self.buffer@,
            head: match self.head {
                Some(h) => Some(h@),
                None => None,
            },
        }
    }
}

impl View for Framed {
    type V = FramedView;

    open spec fn view(&self) -> FramedView {
        match self {
            Framed::More(f) => FramedView::More(f@),
            Framed::Ready(r) => FramedView::Ready(r@),
            Framed::Failed(e) => FramedView::Failed(*e),
        }
    }
}

/// Makes the response of a head and of what the buffer holds behind it.
fn build_response(buffer: Vec<u8>, head: Head) -> (r: HttpResponse)
    ensures
        r@ == response_of(head@, buffer@),
{
    let body = if head.head_len <= buffer.len() {
        slice_to_vec(slice_subrange(buffer.as_slice(), head.head_len, buffer.len()))
    } else {
        Vec::new()
    };
    HttpResponse {
        version: head.version,
        status_code: head.status_code,
        reason: head.reason,
        headers: head.headers,
        body,
    }
}

impl Framer {
    /// A framer that has received nothing.
    pub fn new() -> (r: Framer)
        ensures
            r@ == fresh(),
    {
        Framer { buffer: Vec::new(), head: None }
    }

    /// Decides where the framer stands with a complete head and the bytes
    /// received so far.
    pub fn settle(buffer: Vec<u8>, head: Head) -> (r: Framed)
        ensures
            r@ == settled(buffer@, head@),
    {
        let declared = content_length(&head.headers);
        let received = if head.head_len <= buffer.len() {
            buffer.len() - head.head_len
        } else {
            0
        };
        if received >= declared {
            Framed::Ready(build_response(buffer, head))
        } else {
            Framed::More(Framer { buffer, head: Some(head) })
        }
    }

    /// Takes one more piece of the response.
    pub fn push(self, chunk: &[u8]) -> (r: Framed)
        ensures
            r@ == pushed(self@, chunk@),
    {
        let mut buffer = self.buffer;
        buffer.extend_from_slice(chunk);
        assert(buffer@ =~= self@.buffer + chunk@);
        match self.head {
            Some(head) => Framer::settle(buffer, head),
            None => match parse_head(buffer.as_slice(), MAX_HEADERS) {
                Err(e) => Framed::Failed(head_error(e)),
                Ok(None) => Framed::More(Framer { buffer, head: None }),
                Ok(Some(raw)) => Framer::settle(buffer, Head::decode(raw)),
            },
        }
    }

    /// Ends the response where the connection closed.
    pub fn close(self) -> (r: Result<HttpResponse, HttpError>)
        ensures
            match at_close(self@) {
                Ok(response) => r is Ok && r->Ok_0@ == response,
                Err(e) => r == Err::<HttpResponse, HttpError>(e),
            },
    {
        match self.head {
            None => Err(HttpError::Protocol("Connection closed before headers complete")),
            Some(head) => Ok(build_response(self.buffer, head)),
        }
    }
}

/// What a framer gives for a response that arrives in the pieces `chunks`,
/// after which the connection closes.
pub open spec fn framed(f: FramerView, chunks: Seq<Seq<u8>>) -> Result<ResponseView, HttpError>
    decreases chunks.len(),
{
    if chunks.len() == 0 {
        at_close(f)
    } else {
        match pushed(f, chunks.first()) {
            FramedView::More(g) => framed(g, chunks.drop_first()),
            FramedView::Ready(response) => Ok(response),
            FramedView::Failed(e) => Err(e),
        }
    }
}

/// The pieces of a response as byte strings.
pub open spec fn pieces(chunks: Seq<Vec<u8>>) -> Seq<Seq<u8>> {
    Seq::new(chunks.len(), |i: int| chunks[i]@)
}

/// Frames a response that arrived in the pieces `chunks`, after which the
/// connection closed.
pub fn frame(chunks: &Vec<Vec<u8>>) -> (r: Result<HttpResponse, HttpError>)
    ensures
        match framed(fresh(), pieces(chunks@)) {
            Ok(response) => r is Ok && r->Ok_0@ == response,
            Err(e) => r == Err::<HttpResponse, HttpError>(e),
        },
{
    let ghost all = pieces(chunks@);
    let mut framer = Framer::new();
    let mut i: usize = 0;
    assert(all.skip(0) =~= all);
    while i < chunks.len()
        invariant
            i <= chunks.len(),
            all == pieces(chunks@),
            framed(fresh(), all) == framed(framer@, all.skip(i as int)),
        decreases chunks.len() - i,
    {
        assert(all.skip(i as int).first() == chunks@[i as int]@);
        assert(all.skip(i as int).drop_first() =~= all.skip(i + 1));
        match framer.push(chunks[i].as_slice()) {
            Framed::More(next) => {
                framer = next;
            },
            Framed::Ready(response) => {
                return Ok(response);
            },
            Framed::Failed(e) => {
                return Err(e);
            },
        }
        i += 1;
    }
    framer.close()
}

/// What the bytes of a whole response amount to, taken at once: the
/// parser's complaint, an early close where the head is open, else the head
/// with all that follows it as the body.
pub open spec fn delivered(whole: Seq<u8>) -> Result<ResponseView, HttpError> {
    match parsed_head(whole, MAX_HEADERS as nat) {
        HeadParse::Invalid(e) => Err(head_error_of(e)),
        HeadParse::Partial => Err(HttpError::Protocol("Connection closed before headers complete")),
        HeadParse::Complete(raw) => Ok(response_of(decoded(raw), whole)),
    }
}

/// Whether the parser, given any beginning of `whole`, either asks for more
/// or says what it says of `whole` itself.
pub open spec fn head_stable(whole: Seq<u8>) -> bool {
    forall|k: int|
        0 <= k <= whole.len() ==> {
            let verdict = #[trigger] parsed_head(whole.take(k), MAX_HEADERS as nat);
            verdict is Partial || verdict == parsed_head(whole, MAX_HEADERS as nat)
        }
}

/// Whether `whole` holds no more body than its own headers declare.
pub open spec fn within_declared(whole: Seq<u8>) -> bool {
    match parsed_head(whole, MAX_HEADERS as nat) {
        HeadParse::Complete(raw) => body_of(whole, raw.head_len).len() <= content_length_of(
            decoded(raw).headers,
        ),
        _ => true,
    }
}

/// A buffer that reaches the declared length holds all of the body that a
/// longer buffer within that length holds.
proof fn lemma_ready_is_whole(buffer: Seq<u8>, rest: Seq<u8>, head: HeadView)
    requires
        body_of(buffer + rest, head.head_len).len() <= content_length_of(head.headers),
        body_of(buffer, head.head_len).len() >= content_length_of(head.headers),
    ensures
        response_of(head, buffer) == response_of(head, buffer + rest),
{
    assert(body_of(buffer, head.head_len) =~= body_of(buffer + rest, head.head_len));
}

/// From any state that the pieces so far lead to, the pieces that are left
/// lead to what the whole amounts to.
proof fn lemma_framed_from(f: FramerView, rest: Seq<Seq<u8>>, whole: Seq<u8>)
    requires
        whole == f.buffer + rest.flatten(),
        head_stable(whole),
        within_declared(whole),
        match f.head {
            None => rest.len() >= 1 || parsed_head(whole, MAX_HEADERS as nat) is Partial,
            Some(head) => parsed_head(whole, MAX_HEADERS as nat) is Complete && head == decoded(
                parsed_head(whole, MAX_HEADERS as nat)->Complete_0,
            ),
        },
    ensures
        framed(f, rest) == delivered(whole),
    decreases rest.len(),
{
    if rest.len() == 0 {
        assert(rest.flatten() =~= Seq::<u8>::empty());
        assert(whole =~= f.buffer);
    } else {
        let chunk = rest.first();
        let later = rest.drop_first();
        let buffer = f.buffer + chunk;
        assert(rest.flatten() == chunk + later.flatten());
        assert(whole =~= buffer + later.flatten());
        assert(whole.take(buffer.len() as int) =~= buffer);
        let verdict = parsed_head(buffer, MAX_HEADERS as nat);
        assert(verdict is Partial || verdict == parsed_head(whole, MAX_HEADERS as nat));
        if later.len() == 0 {
            assert(later.flatten() =~= Seq::<u8>::empty());
            assert(whole =~= buffer);
        }
        match pushed(f, chunk) {
            FramedView::More(g) => {
                assert(g.buffer == buffer);
                lemma_framed_from(g, later, whole);
            },
            FramedView::Ready(response) => {
                let head = decoded(parsed_head(whole, MAX_HEADERS as nat)->Complete_0);
                lemma_ready_is_whole(buffer, later.flatten(), head);
            },
            FramedView::Failed(e) => {},
        }
    }
}

/// A response that arrives in one piece comes out as what it amounts to:
/// refused where the parser refuses it or the head is not complete, else
/// with all that follows the head as its body, be that as much as the head
/// declares or less.
pub proof fn lemma_framing_in_one_piece(whole: Seq<u8>)
    ensures
        framed(fresh(), seq![whole]) == delivered(whole),
{
    let chunks = seq![whole];
    assert(chunks.first() == whole);
    assert(fresh().buffer + whole =~= whole);
    assert(chunks.drop_first() =~= Seq::<Seq<u8>>::empty());
    match pushed(fresh(), whole) {
        FramedView::More(g) => {
            assert(framed(g, chunks.drop_first()) == at_close(g));
        },
        _ => {},
    }
}

/// However a response is cut into pieces, the framer gives what it gives
/// for the response in one piece, and a response that closes before its
/// declared length is reached comes out with the body that arrived. This
/// holds of every response on whose beginnings the parser is consistent
/// with itself, and that carries no more body than it declares: of a longer
/// one the framer takes the pieces up to the first that reaches the
/// declared length.
pub proof fn lemma_framing_ignores_cuts(chunks: Seq<Seq<u8>>)
    requires
        chunks.len() >= 1,
        head_stable(chunks.flatten()),
        within_declared(chunks.flatten()),
    ensures
        framed(fresh(), chunks) == framed(fresh(), seq![chunks.flatten()]),
        framed(fresh(), chunks) == delivered(chunks.flatten()),
{
    assert(fresh().buffer + chunks.flatten() =~= chunks.flatten());
    lemma_framed_from(fresh(), chunks, chunks.flatten());
    lemma_framing_in_one_piece(chunks.flatten());
}

/// The verdict that a result of the parser stands for.
pub open spec fn verdict_of(result: Result<Option<RawHead>, httparse::Error>) -> HeadParse {
    match result {
        Ok(Some(head)) => HeadParse::Complete(head@),
        Ok(None) => HeadParse::Partial,
        Err(e) => HeadParse::Invalid(e),
    }
}

/// A number for each of the parser's complaints.
spec fn complaint_of(e: httparse::Error) -> u8 {
    match e {
        httparse::Error::HeaderName => 0,
        httparse::Error::HeaderValue => 1,
        httparse::Error::NewLine => 2,
        httparse::Error::Status => 3,
        httparse::Error::Token => 4,
        httparse::Error::TooManyHeaders => 5,
        httparse::Error::Version => 6,
    }
}

/// Gives the number of a complaint.
fn complaint(e: &httparse::Error) -> (r: u8)
    ensures
        r == complaint_of(*e),
{
    match e {
        httparse::Error::HeaderName => 0,
        httparse::Error::HeaderValue => 1,
        httparse::Error::NewLine => 2,
        httparse::Error::Status => 3,
        httparse::Error::Token => 4,
        httparse::Error::TooManyHeaders => 5,
        httparse::Error::Version => 6,
    }
}

/// Whether two byte strings are the same.
fn same_bytes(a: &Vec<u8>, b: &Vec<u8>) -> (r: bool)
    ensures
        r == (a@ == b@),
{
    if a.len() != b.len() {
        return false;
    }
    let mut i: usize = 0;
    while i < a.len()
        invariant
            a.len() == b.len(),
            i <= a.len(),
            forall|j: int| 0 <= j < i ==> a@[j] == b@[j],
        decreases a.len() - i,
    {
        if a[i] != b[i] {
            return false;
        }
        i += 1;
    }
    assert(a@ =~= b@);
    true
}

/// Whether two lists of header lines are the same.
fn same_lines(a: &Vec<(String, Vec<u8>)>, b: &Vec<(String, Vec<u8>)>) -> (r: bool)
    ensures
        r == (a.deep_view() == b.deep_view()),
{
    if a.len() != b.len() {
        assert(a.deep_view().len() != b.deep_view().len());
        return false;
    }
    let mut i: usize = 0;
    while i < a.len()
        invariant
            a.len() == b.len(),
            i <= a.len(),
            forall|j: int| 0 <= j < i ==> a.deep_view()[j] == b.deep_view()[j],
        decreases a.len() - i,
    {
        let same_name = same_text(a[i].0.as_str(), b[i].0.as_str());
        let same_value = same_bytes(&a[i].1, &b[i].1);
        proof {
            assert(a@[i as int].1.deep_view() =~= a@[i as int].1@);
            assert(b@[i as int].1.deep_view() =~= b@[i as int].1@);
        }
        if !same_name || !same_value {
            assert(a.deep_view()[i as int] != b.deep_view()[i as int]);
            return false;
        }
        i += 1;
    }
    assert(a.deep_view() =~= b.deep_view());
    true
}

/// Whether two heads as parsed are the same.
fn same_head(a: &RawHead, b: &RawHead) -> (r: bool)
    ensures
        r == (a@ == b@),
{
    let same_version = match (a.version, b.version) {
        (Some(x), Some(y)) => x == y,
        (None, None) => true,
        _ => false,
    };
    let same_code = match (a.code, b.code) {
        (Some(x), Some(y)) => x == y,
        (None, None) => true,
        _ => false,
    };
    let same_reason = match (&a.reason, &b.reason) {
        (Some(x), Some(y)) => same_text(x.as_str(), y.as_str()),
        (None, None) => true,
        _ => false,
    };
    a.head_len == b.head_len && same_version && same_code && same_reason && same_lines(
        &a.headers,
        &b.headers,
    )
}

/// Whether two results of the parser stand for the same verdict.
fn same_verdict(
    a: &Result<Option<RawHead>, httparse::Error>,
    b: &Result<Option<RawHead>, httparse::Error>,
) -> (r: bool)
    ensures
        r == (verdict_of(*a) == verdict_of(*b)),
{
    match (a, b) {
        (Ok(Some(x)), Ok(Some(y))) => same_head(x, y),
        (Ok(None), Ok(None)) => true,
        (Err(x), Err(y)) => complaint(x) == complaint(y),
        _ => false,
    }
}

/// Tries whether the parser is consistent with itself on the beginnings of
/// `whole`, by asking it of each.
pub fn head_is_stable(whole: &[u8]) -> (r: bool)
    ensures
        r == head_stable(whole@),
{
    let last = parse_head(whole, MAX_HEADERS);
    let mut k: usize = 0;
    while k < whole.len()
        invariant
            k <= whole.len(),
            verdict_of(last) == parsed_head(whole@, MAX_HEADERS as nat),
            forall|j: int|
                0 <= j < k ==> {
                    let verdict = #[trigger] parsed_head(whole@.take(j), MAX_HEADERS as nat);
                    verdict is Partial || verdict == parsed_head(whole@, MAX_HEADERS as nat)
                },
        decreases whole.len() - k,
    {
        let beginning = slice_subrange(whole, 0, k);
        assert(beginning@ =~= whole@.take(k as int));
        let part = parse_head(beginning, MAX_HEADERS);
        let asks_for_more = match &part {
            Ok(None) => true,
            _ => false,
        };
        if !asks_for_more && !same_verdict(&part, &last) {
            return false;
        }
        k += 1;
    }
    assert(whole@.take(whole@.len() as int) =~= whole@);
    true
}

/// Tries whether `whole` holds no more body than its own headers declare.
pub fn stays_within_declared(whole: &[u8]) -> (r: bool)
    ensures
        r == within_declared(whole@),
{
    match parse_head(whole, MAX_HEADERS) {
        Ok(Some(raw)) => {
            let head = Head::decode(raw);
            let declared = content_length(&head.headers);
            let received = if head.head_len <= whole.len() {
                whole.len() - head.head_len
            } else {
                0
            };
            received <= declared
        },
        _ => true,
    }
}

/// Tries whether the cuts matter for the response `whole`. Where the answer
/// is yes, the framer gives the same for every way of cutting `whole` into
/// pieces: what `whole` amounts to when taken at once.
pub fn cuts_do_not_matter(whole: &[u8]) -> (r: bool)
    ensures
        r == (head_stable(whole@) && within_declared(whole@)),
        r ==> forall|chunks: Seq<Seq<u8>>|
            #![trigger framed(fresh(), chunks)]
            chunks.len() >= 1 && chunks.flatten() == whole@ ==> framed(fresh(), chunks)
                == delivered(whole@),
{
    let r = head_is_stable(whole) && stays_within_declared(whole);
    proof {
        if r {
            assert forall|chunks: Seq<Seq<u8>>|
                #![trigger framed(fresh(), chunks)]
                chunks.len() >= 1 && chunks.flatten() == whole@ implies framed(fresh(), chunks)
                == delivered(whole@) by {
                lemma_framing_ignores_cuts(chunks);
            }
        }
    }
    r
}

} // verus!
