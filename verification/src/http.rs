//! Requests as they come in on a connection.
use crate::{number, text};
use vstd::hash_map::StringHashMap;
use vstd::prelude::*;
use vstd::utf8::*;

verus! {

/// The most bytes that are read in search of the end of the headers.
pub const MAX_HEAD: usize = 65536;

/// The longest body that is accepted.
pub const MAX_BODY: usize = 2097152;

/// Why a request could not be read.
#[derive(Clone, Copy, Debug, PartialEq, Eq, Structural)]
pub enum HttpError {
    /// The peer closed the connection before the end of the headers.
    ClosedBeforeRequest,
    /// The end of the headers did not come within the limit.
    HeadersTooLarge,
    /// The headers are not UTF-8.
    InvalidHeaders,
    /// The request line holds no method.
    MissingMethod,
    /// The request line holds no path.
    MissingPath,
    /// The announced body is longer than the limit.
    BodyTooLarge,
    /// The peer closed the connection before the end of the body.
    ClosedBeforeBody,
}

impl HttpError {
    /// What the error says.
    pub open spec fn text(self) -> Seq<char> {
        match self {
            HttpError::ClosedBeforeRequest => "connection closed before request"@,
            HttpError::HeadersTooLarge => "request headers too large"@,
            HttpError::InvalidHeaders => "invalid request headers"@,
            HttpError::MissingMethod => "missing method"@,
            HttpError::MissingPath => "missing path"@,
            HttpError::BodyTooLarge => "request body too large"@,
            HttpError::ClosedBeforeBody => "connection closed before body"@,
        }
    }

    /// What the error says.
    pub fn message(&self) -> (r: &'static str)
        ensures
            r@ == self.text(),
    {
        match self {
            HttpError::ClosedBeforeRequest => "connection closed before request",
            HttpError::HeadersTooLarge => "request headers too large",
            HttpError::InvalidHeaders => "invalid request headers",
            HttpError::MissingMethod => "missing method",
            HttpError::MissingPath => "missing path",
            HttpError::BodyTooLarge => "request body too large",
            HttpError::ClosedBeforeBody => "connection closed before body",
        }
    }
}

/// What a request holds.
pub struct RequestView {
    pub method: Seq<char>,
    pub path: Seq<char>,
    pub headers: Map<Seq<char>, Seq<char>>,
    pub body: Seq<u8>,
}

/// What the request line and the headers hold.
pub struct HeadView {
    pub method: Seq<char>,
    pub path: Seq<char>,
    pub headers: Map<Seq<char>, Seq<char>>,
}

/// The header fields of a request, by name.
pub struct Headers {
    fields: StringHashMap<String>,
}

impl View for Headers {
    type V = Map<Seq<char>, Seq<char>>;

    closed spec fn view(&self) -> Map<Seq<char>, Seq<char>> {
        self.fields@.map_values(|v: String| v@)
    }
}

impl Headers {
    /// No header fields.
    pub fn new() -> (r: Self)
        ensures
            r@ == Map::<Seq<char>, Seq<char>>::empty(),
    {
        let r = Headers { fields: StringHashMap::new() };
        assert(r@ =~= Map::<Seq<char>, Seq<char>>::empty());
        r
    }

    /// Sets the field `name` to `value`.
    pub fn insert(&mut self, name: String, value: String)
        ensures
            final(self)@ == old(self)@.insert(name@, value@),
    {
        self.fields.insert(name, value);
        assert(self@ =~= old(self)@.insert(name@, value@));
    }

    /// The value of the field `name`.
    pub fn get(&self, name: &str) -> (r: Option<&String>)
        ensures
            match r {
                Some(v) => self@.contains_key(name@) && self@[name@] == v@,
                None => !self@.contains_key(name@),
            },
    {
        self.fields.get(name)
    }
}

/// A request.
pub struct HttpRequest {
    pub method: String,
    pub path: String,
    pub headers: Headers,
    pub body: Vec<u8>,
}

impl View for HttpRequest {
    type V = RequestView;

    open spec fn view(&self) -> RequestView {
        RequestView {
            method: self.method@,
            path: self.path@,
            headers: self.headers@,
            body: self.body@,
        }
    }
}

/// The bytes that end the headers: an empty line.
pub open spec fn terminator() -> Seq<u8> {
    seq![13u8, 10u8, 13u8, 10u8]
}

/// The bytes that end a line of the headers.
pub open spec fn crlf() -> Seq<char> {
    seq!['\r', '\n']
}

/// The name and the value that a header line holds.
pub open spec fn header_field(line: Seq<char>) -> Option<(Seq<char>, Seq<char>)> {
    match text::find(line, seq![':']) {
        Some(i) => Some((text::lower(text::trim(line.take(i))), text::trim(line.skip(i + 1)))),
        None => None,
    }
}

/// The fields that the header lines set, where a later line replaces an
/// earlier one of the same name.
pub open spec fn header_fields(lines: Seq<Seq<char>>) -> Map<Seq<char>, Seq<char>>
    decreases lines.len(),
{
    if lines.len() == 0 {
        Map::empty()
    } else {
        let before = header_fields(lines.drop_last());
        match header_field(lines.last()) {
            Some((name, value)) => before.insert(name, value),
            None => before,
        }
    }
}

/// What the text of the request line and the headers holds.
pub open spec fn head_of_text(text: Seq<char>) -> Result<HeadView, HttpError> {
    let lines = text::split_on(text, crlf());
    let request_line = text::words(lines[0]);
    if request_line.len() == 0 {
        Err(HttpError::MissingMethod)
    } else if request_line.len() == 1 {
        Err(HttpError::MissingPath)
    } else {
        Ok(
            HeadView {
                method: request_line[0],
                path: request_line[1],
                headers: header_fields(lines.drop_first()),
            },
        )
    }
}

/// What the bytes of the request line and the headers hold.
pub open spec fn head_of(bytes: Seq<u8>) -> Result<HeadView, HttpError> {
    if valid_utf8(bytes) {
        head_of_text(decode_utf8(bytes))
    } else {
        Err(HttpError::InvalidHeaders)
    }
}

/// The length of the body that the headers announce: 0 where they announce
/// none that can be read as a number.
pub open spec fn announced_len(headers: Map<Seq<char>, Seq<char>>) -> nat {
    if headers.contains_key("content-length"@) {
        match number::unsigned_up_to(headers["content-length"@], usize::MAX as nat) {
            Some(n) => n,
            None => 0,
        }
    } else {
        0
    }
}

/// What has become of a request once `received` has come in: nothing yet, the
/// request, or the reason to give it up.
pub open spec fn outcome(received: Seq<u8>) -> Option<Result<RequestView, HttpError>> {
    match text::find(received, terminator()) {
        None => if received.len() > MAX_HEAD {
            Some(Err(HttpError::HeadersTooLarge))
        } else {
            None
        },
        Some(i) => match head_of(received.take(i + 4)) {
            Err(e) => Some(Err(e)),
            Ok(head) => {
                let len = announced_len(head.headers);
                if len > MAX_BODY {
                    Some(Err(HttpError::BodyTooLarge))
                } else if received.len() - (i + 4) < len {
                    None
                } else {
                    Some(
                        Ok(
                            RequestView {
                                method: head.method,
                                path: head.path,
                                headers: head.headers,
                                body: received.subrange(i + 4, i + 4 + len),
                            },
                        ),
                    )
                }
            },
        },
    }
}

/// What becomes of a request when `chunk` comes in after `received`. An empty
/// chunk says that the peer closed the connection.
pub open spec fn outcome_after(received: Seq<u8>, chunk: Seq<u8>) -> Option<
    Result<RequestView, HttpError>,
> {
    if chunk.len() > 0 {
        outcome(received + chunk)
    } else if text::find(received, terminator()) is Some {
        Some(Err(HttpError::ClosedBeforeBody))
    } else {
        Some(Err(HttpError::ClosedBeforeRequest))
    }
}

/// The request line and the headers of a request whose body is still coming
/// in.
struct Head {
    method: String,
    path: String,
    headers: Headers,
    /// Where the body starts.
    end: usize,
    /// How long the body is.
    body_len: usize,
}

impl Head {
    spec fn view(&self) -> HeadView {
        HeadView { method: self.method@, path: self.path@, headers: self.headers@ }
    }
}

/// A request of which some bytes have come in and more are awaited.
pub struct RequestReader {
    buf: Vec<u8>,
    head: Option<Head>,
}

/// What to do next about a request.
pub enum ReadStep {
    /// Read on.
    More(RequestReader),
    /// The request is read, or given up.
    Done(Result<HttpRequest, HttpError>),
}

impl RequestReader {
    #[verifier::type_invariant]
    spec fn inv(self) -> bool {
        &&& outcome(self.buf@) is None
        &&& match self.head {
            Some(head) => {
                &&& text::find(self.buf@, terminator()) == Some(head.end - 4)
                &&& head_of(self.buf@.take(head.end as int)) == Ok::<HeadView, HttpError>(
                    head.view(),
                )
                &&& announced_len(head.headers@) == head.body_len
            },
            None => text::find(self.buf@, terminator()) is None,
        }
    }

    /// The bytes that have come in.
    pub closed spec fn received(&self) -> Seq<u8> {
        self.buf@
    }

    /// A request of which nothing has come in.
    pub fn new() -> (r: Self)
        ensures
            r.received() == Seq::<u8>::empty(),
    {
        RequestReader { buf: Vec::new(), head: None }
    }
}

/// `str::from_utf8` takes bytes for text: it succeeds on UTF-8 and on nothing
/// else, and the text is what the bytes encode.
#[verifier::external_body]
fn text_of_utf8(bytes: &[u8]) -> (r: Option<&str>)
    ensures
        r is Some <==> valid_utf8(bytes@),
        r matches Some(s) ==> s@ == decode_utf8(bytes@),
{
    std::str::from_utf8(bytes).ok()
}

/// Where the headers end, if their end has come in.
fn find_terminator(buf: &[u8]) -> (r: Option<usize>)
    ensures
        match r {
            Some(i) => text::find(buf@, terminator()) == Some(i as int) && i + 4 <= buf@.len()
                <= usize::MAX,
            None => text::find(buf@, terminator()) is None,
        },
{
    let n = buf.len();
    let mut i: usize = 0;
    while i < n && 4 <= n - i
        invariant
            n == buf@.len(),
            i <= n,
            text::find(buf@, terminator()) == text::find_from(buf@, terminator(), i as int),
        decreases n - i,
    {
        if buf[i] == 13 && buf[i + 1] == 10 && buf[i + 2] == 13 && buf[i + 3] == 10 {
            assert(buf@.subrange(i as int, i + 4) == terminator());
            return Some(i);
        }
        proof {
            if text::occurs_at(buf@, terminator(), i as int) {
                let w = buf@.subrange(i as int, i + 4);
                assert(w[0] == 13 && w[1] == 10 && w[2] == 13 && w[3] == 10);
            }
        }
        i += 1;
    }
    None
}

/// Reads the header lines.
fn read_header_fields(lines: &[&[char]]) -> (out: Headers)
    ensures
        out@ == header_fields(text::slices(lines@)),
{
    let mut out = Headers::new();
    let colon = [':'];
    for k in 0..lines.len()
        invariant
            colon@ == seq![':'],
            out@ == header_fields(text::slices(lines@.take(k as int))),
    {
        let line = lines[k];
        let n = line.len();
        proof {
            assert(text::slices(lines@.take(k + 1)).drop_last() == text::slices(
                lines@.take(k as int),
            ));
        }
        if let Some(i) = text::find_chars(line, &colon) {
            let name = text::trim_chars(vstd::slice::slice_subrange(line, 0, i));
            let value = text::trim_chars(vstd::slice::slice_subrange(line, i + 1, n));
            assert(line@.subrange(0, i as int) == line@.take(i as int));
            assert(line@.subrange(i + 1, line@.len() as int) == line@.skip(i + 1));
            out.insert(text::lower_chars(name), text::string_of(value));
        }
    }
    assert(lines@.take(lines@.len() as int) == lines@);
    out
}

/// Reads the request line and the headers.
fn read_head(bytes: &[u8]) -> (r: Result<(String, String, Headers), HttpError>)
    ensures
        match r {
            Ok((method, path, headers)) => head_of(bytes@) == Ok::<HeadView, HttpError>(
                HeadView { method: method@, path: path@, headers: headers@ },
            ),
            Err(e) => head_of(bytes@) == Err::<HeadView, HttpError>(e),
        },
{
    let text = match text_of_utf8(bytes) {
        Some(text) => text::chars_of(text),
        None => return Err(HttpError::InvalidHeaders),
    };
    let crlf_chars = ['\r', '\n'];
    assert(crlf_chars@ == crlf());
    let lines = text::split_chars(text.as_slice(), &crlf_chars);
    assert(text::slices(lines@)[0] == lines@[0]@);
    let (method, rest) = match text::next_word(lines[0]) {
        Some(found) => found,
        None => return Err(HttpError::MissingMethod),
    };
    let (path, _rest) = match text::next_word(rest) {
        Some(found) => found,
        None => return Err(HttpError::MissingPath),
    };
    let fields = vstd::slice::slice_subrange(lines.as_slice(), 1, lines.len());
    assert(text::slices(fields@) == text::slices(lines@).drop_first());
    Ok((text::string_of(method), text::string_of(path), read_header_fields(fields)))
}

/// The length of the body that the headers announce.
fn content_length(headers: &Headers) -> (r: usize)
    ensures
        r == announced_len(headers@),
{
    match headers.get("content-length") {
        Some(value) => {
            let cs = text::chars_of(value.as_str());
            match number::parse_unsigned(cs.as_slice(), usize::MAX as u64) {
                Some(n) => n as usize,
                None => 0,
            }
        },
        None => 0,
    }
}

/// Takes in the next bytes of a request.
pub fn parse_http_request(reader: RequestReader, chunk: &[u8]) -> (step: ReadStep)
    ensures
        match step {
            ReadStep::More(next) => {
                &&& outcome_after(reader.received(), chunk@) is None
                &&& next.received() == reader.received() + chunk@
            },
            ReadStep::Done(Ok(request)) => outcome_after(reader.received(), chunk@) == Some(
                Ok::<RequestView, HttpError>(request@),
            ),
            ReadStep::Done(Err(e)) => outcome_after(reader.received(), chunk@) == Some(
                Err::<RequestView, HttpError>(e),
            ),
        },
{
    proof {
        use_type_invariant(&reader);
    }
    let ghost received = reader.received();
    let RequestReader { buf, head } = reader;
    if chunk.len() == 0 {
        return ReadStep::Done(
            Err(
                if head.is_some() {
                    HttpError::ClosedBeforeBody
                } else {
                    HttpError::ClosedBeforeRequest
                },
            ),
        );
    }
    let mut buf = buf;
    buf.extend_from_slice(chunk);
    assert(buf@ == received + chunk@);
    let head = match head {
        Some(head) => {
            proof {
                text::lemma_find_from(received, terminator(), 0);
                text::lemma_find_in_longer(received, chunk@, terminator());
                assert(buf@.take(head.end as int) == received.take(head.end as int));
            }
            head
        },
        None => {
            let end = match find_terminator(buf.as_slice()) {
                Some(i) => i + 4,
                None => {
                    if buf.len() > MAX_HEAD {
                        return ReadStep::Done(Err(HttpError::HeadersTooLarge));
                    }
                    return ReadStep::More(RequestReader { buf, head: None });
                },
            };
            let head_bytes = vstd::slice::slice_subrange(buf.as_slice(), 0, end);
            assert(head_bytes@ == buf@.take(end as int));
            let (method, path, headers) = match read_head(head_bytes) {
                Ok(found) => found,
                Err(e) => return ReadStep::Done(Err(e)),
            };
            let body_len = content_length(&headers);
            if body_len > MAX_BODY {
                return ReadStep::Done(Err(HttpError::BodyTooLarge));
            }
            Head { method, path, headers, end, body_len }
        },
    };
    proof {
        text::lemma_find_from(buf@, terminator(), 0);
    }
    if buf.len() - head.end < head.body_len {
        return ReadStep::More(RequestReader { buf, head: Some(head) });
    }
    let body = vstd::slice::slice_to_vec(
        vstd::slice::slice_subrange(buf.as_slice(), head.end, head.end + head.body_len),
    );
    ReadStep::Done(
        Ok(HttpRequest { method: head.method, path: head.path, headers: head.headers, body }),
    )
}

/// Once the headers are in and a request is read or given up, bytes that
/// follow make no difference.
pub proof fn law_later_bytes_do_not_matter(received: Seq<u8>, more: Seq<u8>)
    requires
        text::find(received, terminator()) is Some,
        outcome(received) is Some,
    ensures
        outcome(received + more) == outcome(received),
{
    text::lemma_find_from(received, terminator(), 0);
    text::lemma_find_in_longer(received, more, terminator());
    let i = text::find(received, terminator())->0;
    assert((received + more).take(i + 4) == received.take(i + 4));
    if let Ok(head) = head_of(received.take(i + 4)) {
        let len = announced_len(head.headers);
        if len <= MAX_BODY && received.len() - (i + 4) >= len {
            assert((received + more).subrange(i + 4, i + 4 + len) == received.subrange(
                i + 4,
                i + 4 + len,
            ));
        }
    }
}

/// What becomes of a request whose bytes come in as `chunks` after
/// `received`.
pub open spec fn outcome_of_chunks(received: Seq<u8>, chunks: Seq<Seq<u8>>) -> Option<
    Result<RequestView, HttpError>,
>
    decreases chunks.len(),
{
    if chunks.len() == 0 {
        None
    } else {
        match outcome_after(received, chunks[0]) {
            Some(r) => Some(r),
            None => outcome_of_chunks(received + chunks[0], chunks.drop_first()),
        }
    }
}

proof fn lemma_chunks(received: Seq<u8>, chunks: Seq<Seq<u8>>)
    requires
        forall|k: int| 0 <= k < chunks.len() ==> #[trigger] chunks[k].len() > 0,
        outcome(received) is None,
        text::find(received + chunks.flatten(), terminator()) matches Some(i) ==> i + 4 <= MAX_HEAD
            + 1,
    ensures
        outcome_of_chunks(received, chunks) == outcome(received + chunks.flatten()),
    decreases chunks.len(),
{
    let data = received + chunks.flatten();
    if chunks.len() == 0 {
        assert(data == received);
    } else {
        let next = received + chunks[0];
        let rest = chunks.drop_first();
        assert(data == next + rest.flatten());
        assert(next == data.take(next.len() as int));
        if outcome(next) is Some {
            text::lemma_find_from(data, terminator(), 0);
            if text::find(data, terminator()) is None {
                if text::find(next, terminator()) is Some {
                    text::lemma_find_in_longer(next, rest.flatten(), terminator());
                }
            } else if next.len() >= text::find(data, terminator())->0 + 4 {
                text::lemma_find_in_front(data, terminator(), next.len() as int);
                law_later_bytes_do_not_matter(next, rest.flatten());
            } else {
                text::lemma_find_from(next, terminator(), 0);
                if text::find(next, terminator()) is Some {
                    text::lemma_find_in_longer(next, rest.flatten(), terminator());
                }
            }
        } else {
            assert forall|k: int| 0 <= k < rest.len() implies #[trigger] rest[k].len() > 0 by {
                assert(rest[k] == chunks[k + 1]);
            }
            lemma_chunks(next, rest);
        }
    }
}

/// How the bytes of a request are cut into chunks makes no difference, unless
/// the headers end, but only beyond the limit.
pub proof fn law_chunks_do_not_matter(chunks: Seq<Seq<u8>>)
    requires
        forall|k: int| 0 <= k < chunks.len() ==> #[trigger] chunks[k].len() > 0,
        text::find(chunks.flatten(), terminator()) matches Some(i) ==> i + 4 <= MAX_HEAD + 1,
    ensures
        outcome_of_chunks(Seq::empty(), chunks) == outcome(chunks.flatten()),
{
    let none = Seq::<u8>::empty();
    assert(none + chunks.flatten() == chunks.flatten());
    lemma_chunks(none, chunks);
}

/// The chunks of a connection that the peer closes after them.
pub open spec fn closed_after(chunks: Seq<Seq<u8>>) -> Seq<Seq<u8>> {
    chunks.push(Seq::empty())
}

proof fn lemma_closed_after(received: Seq<u8>, chunks: Seq<Seq<u8>>)
    requires
        forall|k: int| 0 <= k < chunks.len() ==> #[trigger] chunks[k].len() > 0,
    ensures
        outcome_of_chunks(received, closed_after(chunks)) == match outcome_of_chunks(
            received,
            chunks,
        ) {
            Some(r) => Some(r),
            None => outcome_after(received + chunks.flatten(), Seq::empty()),
        },
    decreases chunks.len(),
{
    let all = closed_after(chunks);
    if chunks.len() == 0 {
        assert(received + chunks.flatten() =~= received);
        assert(all[0] == Seq::<u8>::empty());
    } else {
        let rest = chunks.drop_first();
        assert forall|k: int| 0 <= k < rest.len() implies #[trigger] rest[k].len() > 0 by {
            assert(rest[k] == chunks[k + 1]);
        }
        assert(all[0] == chunks[0]);
        assert(all.drop_first() =~= closed_after(rest));
        assert(received + chunks[0] + rest.flatten() =~= received + chunks.flatten());
        lemma_closed_after(received + chunks[0], rest);
    }
}

/// A connection that the peer closes comes to a request or an error, and how the
/// bytes before that are cut into chunks makes no difference to which, unless
/// the headers end, but only beyond the limit.
pub proof fn law_chunks_before_the_close_do_not_matter(a: Seq<Seq<u8>>, b: Seq<Seq<u8>>)
    requires
        forall|k: int| 0 <= k < a.len() ==> #[trigger] a[k].len() > 0,
        forall|k: int| 0 <= k < b.len() ==> #[trigger] b[k].len() > 0,
        a.flatten() == b.flatten(),
        text::find(a.flatten(), terminator()) matches Some(i) ==> i + 4 <= MAX_HEAD + 1,
    ensures
        outcome_of_chunks(Seq::empty(), closed_after(a)) is Some,
        outcome_of_chunks(Seq::empty(), closed_after(a)) == outcome_of_chunks(
            Seq::empty(),
            closed_after(b),
        ),
{
    let none = Seq::<u8>::empty();
    law_chunks_do_not_matter(a);
    law_chunks_do_not_matter(b);
    lemma_closed_after(none, a);
    lemma_closed_after(none, b);
    assert(none + a.flatten() =~= none + b.flatten());
}

/// Whether `s` is a run of printable ASCII characters.
pub open spec fn printable(s: Seq<char>) -> bool {
    forall|i: int| 0 <= i < s.len() ==> ' ' <= #[trigger] s[i] <= '~'
}

/// Whether `s` is ASCII and each of its lines but the last ends in a line end
/// that a line with something in it follows.
pub open spec fn lines_follow(s: Seq<char>) -> bool {
    &&& forall|i: int| 0 <= i < s.len() ==> '\0' <= #[trigger] s[i] <= '~'
    &&& forall|i: int|
        0 <= i < s.len() && #[trigger] s[i] == '\r' ==> i + 2 < s.len() && s[i + 2] != '\r'
}

/// Lines that follow one another do so when more such lines follow them.
pub proof fn lemma_lines_follow(a: Seq<char>, b: Seq<char>)
    requires
        lines_follow(a),
        lines_follow(b),
    ensures
        lines_follow(a + b),
{
    let s = a + b;
    assert forall|i: int| 0 <= i < s.len() implies '\0' <= #[trigger] s[i] <= '~' by {
        if i < a.len() {
            assert(s[i] == a[i]);
        } else {
            assert(s[i] == b[i - a.len()]);
        }
    }
    assert forall|i: int| 0 <= i < s.len() && #[trigger] s[i] == '\r' implies i + 2 < s.len()
        && s[i + 2] != '\r' by {
        if i < a.len() {
            assert(a[i] == '\r');
            assert(s[i + 2] == a[i + 2]);
        } else {
            assert(b[i - a.len()] == '\r');
            assert(s[i + 2] == b[i + 2 - a.len()]);
        }
    }
}

/// A line in front of other text is the first of its lines.
pub proof fn lemma_split_line(line: Seq<char>, rest: Seq<char>)
    requires
        !line.contains('\r'),
    ensures
        text::split_on(line + crlf() + rest, crlf()) == seq![line] + text::split_on(
            rest,
            crlf(),
        ),
{
    let s = line + crlf() + rest;
    let n = line.len() as int;
    assert(s.subrange(n, n + 2) =~= crlf());
    assert forall|j: int| 0 <= j < n implies !#[trigger] text::occurs_at(s, crlf(), j) by {
        if text::occurs_at(s, crlf(), j) {
            assert(s.subrange(j, j + 2)[0] == '\r');
            assert(line[j] == '\r');
        }
    }
    text::lemma_find_is(s, crlf(), n);
    assert(s.take(n) =~= line);
    assert(s.skip(n + 2) =~= rest);
}

/// Whether `s` is not empty and has no white space at its front or its end.
pub open spec fn trimmed(s: Seq<char>) -> bool {
    s.len() > 0 && !text::white_space(s[0]) && !text::white_space(s.last())
}

/// A header line holds its name, in small letters, and its value.
pub proof fn lemma_header_field(name: Seq<char>, value: Seq<char>)
    requires
        trimmed(name),
        value.len() == 0 || trimmed(value),
        !name.contains(':'),
    ensures
        header_field(name + seq![':', ' '] + value) == Some((text::lower(name), value)),
{
    let line = name + seq![':', ' '] + value;
    let n = name.len() as int;
    let colon = seq![':'];
    assert(line.subrange(n, n + 1) =~= colon);
    assert forall|j: int| 0 <= j < n implies !#[trigger] text::occurs_at(line, colon, j) by {
        if text::occurs_at(line, colon, j) {
            assert(line.subrange(j, j + 1)[0] == ':');
            assert(name[j] == ':');
        }
    }
    text::lemma_find_is(line, colon, n);
    assert(line.take(n) =~= name);
    assert(line.skip(n + 1) =~= seq![' '] + value);
    assert((seq![' '] + value).drop_first() =~= value);
    reveal_with_fuel(text::trim_start, 2);
}

/// The lines of a list of fields, each with the line end that precedes it, and
/// the empty line that ends them.
pub open spec fn field_lines(fields: Seq<(Seq<char>, Seq<char>)>) -> Seq<char>
    decreases fields.len(),
{
    if fields.len() == 0 {
        crlf() + crlf()
    } else {
        crlf() + field_line(fields[0]) + field_lines(fields.drop_first())
    }
}

/// The line of a field.
pub open spec fn field_line(field: (Seq<char>, Seq<char>)) -> Seq<char> {
    field.0 + seq![':', ' '] + field.1
}

/// The text of a request, up to its body.
pub open spec fn request_head(
    method: Seq<char>,
    path: Seq<char>,
    fields: Seq<(Seq<char>, Seq<char>)>,
) -> Seq<char> {
    method + seq![' '] + path + " HTTP/1.1"@ + field_lines(fields)
}

/// What a list of fields sets, where a later field replaces an earlier one of
/// the same name, whether in capital or in small letters.
pub open spec fn set_by(fields: Seq<(Seq<char>, Seq<char>)>) -> Map<Seq<char>, Seq<char>>
    decreases fields.len(),
{
    if fields.len() == 0 {
        Map::empty()
    } else {
        set_by(fields.drop_last()).insert(text::lower(fields.last().0), fields.last().1)
    }
}

/// Whether `s` is a word of ASCII characters.
pub open spec fn word(s: Seq<char>) -> bool {
    s.len() > 0 && forall|i: int| 0 <= i < s.len() ==> '!' <= #[trigger] s[i] <= '~'
}

/// Whether a field can be written on a line of its own.
pub open spec fn plain_field(field: (Seq<char>, Seq<char>)) -> bool {
    &&& printable(field.0)
    &&& trimmed(field.0)
    &&& !field.0.contains(':')
    &&& printable(field.1)
    &&& field.1.len() == 0 || trimmed(field.1)
}

/// Whether `s` is ASCII and ends in an empty line before which there is none.
spec fn ends_once(s: Seq<char>) -> bool {
    &&& forall|i: int| 0 <= i < s.len() ==> '\0' <= #[trigger] s[i] <= '~'
    &&& s.len() >= 4
    &&& s.skip(s.len() - 4) == crlf() + crlf()
    &&& forall|i: int|
        0 <= i < s.len() - 4 && #[trigger] s[i] == '\r' ==> s[i + 2] != '\r'
}

proof fn lemma_ends_once(a: Seq<char>, s: Seq<char>)
    requires
        lines_follow(a),
        ends_once(s),
    ensures
        ends_once(a + s),
{
    let t = a + s;
    assert forall|i: int| 0 <= i < t.len() implies '\0' <= #[trigger] t[i] <= '~' by {
        if i < a.len() {
            assert(t[i] == a[i]);
        } else {
            assert(t[i] == s[i - a.len()]);
        }
    }
    assert(t.skip(t.len() - 4) =~= s.skip(s.len() - 4));
    assert forall|i: int| 0 <= i < t.len() - 4 && #[trigger] t[i] == '\r' implies t[i + 2]
        != '\r' by {
        if i < a.len() {
            assert(a[i] == '\r');
            assert(t[i + 2] == a[i + 2]);
        } else {
            assert(s[i - a.len()] == '\r');
            assert(t[i + 2] == s[i + 2 - a.len()]);
        }
    }
}

proof fn lemma_field_lines(line: Seq<char>, fields: Seq<(Seq<char>, Seq<char>)>)
    requires
        !line.contains('\r'),
        forall|k: int| 0 <= k < fields.len() ==> plain_field(#[trigger] fields[k]),
    ensures
        ends_once(field_lines(fields)),
        text::split_on(line + field_lines(fields), crlf()) == seq![line] + fields.map_values(
            |f: (Seq<char>, Seq<char>)| field_line(f),
        ) + seq![Seq::<char>::empty(), Seq::<char>::empty()],
    decreases fields.len(),
{
    let e = Seq::<char>::empty();
    let lines = fields.map_values(|f: (Seq<char>, Seq<char>)| field_line(f));
    let all = line + field_lines(fields);
    if fields.len() == 0 {
        let s = crlf() + crlf();
        assert(s.skip(0) =~= s);
        assert(all =~= line + crlf() + (e + crlf() + e));
        lemma_split_line(line, e + crlf() + e);
        lemma_split_line(e, e);
        text::lemma_find_from(e, crlf(), 0);
        assert(text::split_on(e, crlf()) == seq![e]);
        assert(text::split_on(all, crlf()) =~= seq![line] + lines + seq![e, e]);
    } else {
        let field = fields[0];
        let text = field_line(field);
        let rest = fields.drop_first();
        let rest_lines = rest.map_values(|f: (Seq<char>, Seq<char>)| field_line(f));
        assert forall|k: int| 0 <= k < rest.len() implies plain_field(#[trigger] rest[k]) by {
            assert(rest[k] == fields[k + 1]);
        }
        assert(plain_field(field));
        assert forall|i: int| 0 <= i < text.len() implies ' ' <= #[trigger] text[i] <= '~' by {
            if i < field.0.len() {
                assert(text[i] == field.0[i]);
            } else if i >= field.0.len() + 2 {
                assert(text[i] == field.1[i - field.0.len() - 2]);
            }
        }
        assert(!text.contains('\r'));
        lemma_field_lines(text, rest);
        lemma_split_line(line, text + field_lines(rest));
        assert(all =~= line + crlf() + (text + field_lines(rest)));
        assert(lines =~= seq![text] + rest_lines);
        assert(text::split_on(all, crlf()) =~= seq![line] + lines + seq![e, e]);
        let front = crlf() + text;
        assert forall|i: int| 0 <= i < front.len() implies '\0' <= #[trigger] front[i] <= '~' && (i
            >= 2 ==> front[i] != '\r') by {
            if i >= 2 {
                assert(front[i] == text[i - 2]);
            }
        }
        assert(text.len() > 0 && front[2] == text[0]);
        lemma_ends_once(front, field_lines(rest));
        assert(field_lines(fields) =~= front + field_lines(rest));
    }
}

proof fn lemma_fields_set(fields: Seq<(Seq<char>, Seq<char>)>)
    requires
        forall|k: int| 0 <= k < fields.len() ==> plain_field(#[trigger] fields[k]),
    ensures
        header_fields(
            fields.map_values(|f: (Seq<char>, Seq<char>)| field_line(f)) + seq![
                Seq::<char>::empty(),
                Seq::<char>::empty(),
            ],
        ) == set_by(fields),
        header_fields(fields.map_values(|f: (Seq<char>, Seq<char>)| field_line(f))) == set_by(
            fields,
        ),
    decreases fields.len(),
{
    let e = Seq::<char>::empty();
    let lines = fields.map_values(|f: (Seq<char>, Seq<char>)| field_line(f));
    if fields.len() > 0 {
        let before = fields.drop_last();
        assert forall|k: int| 0 <= k < before.len() implies plain_field(#[trigger] before[k]) by {
            assert(before[k] == fields[k]);
        }
        lemma_fields_set(before);
        assert(lines.drop_last() =~= before.map_values(
            |f: (Seq<char>, Seq<char>)| field_line(f),
        ));
        assert(plain_field(fields[fields.len() - 1]));
        lemma_header_field(fields.last().0, fields.last().1);
    }
    text::lemma_find_from(e, seq![':'], 0);
    let one = lines.push(e);
    let two = one.push(e);
    assert(lines + seq![e, e] =~= two);
    assert(two.drop_last() =~= one);
    assert(one.drop_last() =~= lines);
    assert(header_fields(one) == header_fields(lines));
    assert(header_fields(two) == header_fields(one));
}

/// A request that is written as a method, a path, fields and a body is read as
/// what it was written from, where the fields announce the length of the body.
pub proof fn law_request_reads_back(
    method: Seq<char>,
    path: Seq<char>,
    fields: Seq<(Seq<char>, Seq<char>)>,
    body: Seq<u8>,
)
    requires
        word(method),
        word(path),
        forall|k: int| 0 <= k < fields.len() ==> plain_field(#[trigger] fields[k]),
        announced_len(set_by(fields)) == body.len(),
        body.len() <= MAX_BODY,
    ensures
        outcome(encode_utf8(request_head(method, path, fields)) + body) == Some(
            Ok::<RequestView, HttpError>(
                RequestView { method, path, headers: set_by(fields), body },
            ),
        ),
{
    reveal_strlit(" HTTP/1.1");
    let version = seq!['H', 'T', 'T', 'P', '/', '1', '.', '1'];
    assert(" HTTP/1.1"@ =~= seq![' '] + version);
    let head = request_head(method, path, fields);
    let line = method + seq![' '] + path + " HTTP/1.1"@;
    assert(line =~= method + seq![' '] + (path + seq![' '] + version));
    assert forall|i: int| 0 <= i < line.len() implies ' ' <= #[trigger] line[i] <= '~' by {
        if i < method.len() {
            assert(line[i] == method[i]);
        } else if method.len() < i < method.len() + 1 + path.len() {
            assert(line[i] == path[i - method.len() - 1]);
        }
    }
    assert(!line.contains('\r'));
    lemma_field_lines(line, fields);
    lemma_fields_set(fields);
    lemma_ends_once(line, field_lines(fields));
    is_ascii_chars_encode_utf8(head);
    encode_utf8_valid_utf8(head);
    encode_utf8_decode_utf8(head);
    let bytes = encode_utf8(head);
    let all = bytes + body;
    let n = head.len() - 4;
    assert(head.skip(n)[0] == '\r' && head.skip(n)[1] == '\n' && head.skip(n)[2] == '\r'
        && head.skip(n)[3] == '\n');
    assert(all.subrange(n, n + 4) =~= terminator());
    assert forall|j: int| 0 <= j < n implies !#[trigger] text::occurs_at(all, terminator(), j) by {
        if text::occurs_at(all, terminator(), j) {
            let found = all.subrange(j, j + 4);
            assert(found[0] == 13u8 && found[2] == 13u8);
            assert(head[j] == '\r');
            assert(head[j + 2] == '\r');
        }
    }
    text::lemma_find_is(all, terminator(), n);
    assert(all.take(n + 4) =~= bytes);
    assert(all.subrange(n + 4, n + 4 + body.len()) =~= body);
    let lines = text::split_on(head, crlf());
    let e = Seq::<char>::empty();
    let texts = fields.map_values(|f: (Seq<char>, Seq<char>)| field_line(f));
    assert(lines[0] == line);
    assert(lines.drop_first() =~= texts + seq![e, e]);
    text::lemma_words_of(method, path + seq![' '] + version);
    text::lemma_words_of(path, version);
}

/// A request that was read has exactly the body that its headers announce, and
/// none that is longer than the limit.
pub proof fn law_body_is_the_announced_one(received: Seq<u8>)
    requires
        outcome(received) matches Some(Ok(_)),
    ensures
        outcome(received) matches Some(Ok(request)) && request.body.len() == announced_len(
            request.headers,
        ) && request.body.len() <= MAX_BODY,
{
    text::lemma_find_from(received, terminator(), 0);
}

/// Capital and small letters make no difference in the name of a header field.
pub proof fn law_header_names_ignore_case(name: Seq<char>, other: Seq<char>, value: Seq<char>)
    requires
        !name.contains(':'),
        !other.contains(':'),
        text::lower(name) == text::lower(other),
    ensures
        header_field(name + seq![':'] + value) == header_field(other + seq![':'] + value),
{
    lemma_field_at_colon(name, value);
    lemma_field_at_colon(other, value);
    text::lemma_lower_trim(name);
    text::lemma_lower_trim(other);
}

proof fn lemma_field_at_colon(name: Seq<char>, value: Seq<char>)
    requires
        !name.contains(':'),
    ensures
        header_field(name + seq![':'] + value) == Some(
            (text::lower(text::trim(name)), text::trim(value)),
        ),
{
    let line = name + seq![':'] + value;
    let n = name.len() as int;
    let colon = seq![':'];
    assert(line.subrange(n, n + 1) =~= colon);
    assert forall|j: int| 0 <= j < n implies !#[trigger] text::occurs_at(line, colon, j) by {
        if text::occurs_at(line, colon, j) {
            assert(line.subrange(j, j + 1)[0] == ':');
            assert(name[j] == ':');
        }
    }
    text::lemma_find_is(line, colon, n);
    assert(line.take(n) =~= name);
    assert(line.skip(n + 1) =~= value);
}

/// A header line holds what precedes its first colon, in small letters, as the
/// name and what follows as the value, both without white space around them. A
/// line without a colon holds nothing.
pub proof fn law_first_colon_ends_the_name(name: Seq<char>, value: Seq<char>)
    requires
        !name.contains(':'),
    ensures
        header_field(name + seq![':'] + value) == Some(
            (text::lower(text::trim(name)), text::trim(value)),
        ),
        header_field(name) is None,
{
    lemma_field_at_colon(name, value);
    text::lemma_find_from(name, seq![':'], 0);
    if text::find(name, seq![':']) is Some {
        let k = text::find(name, seq![':'])->0;
        assert(name.subrange(k, k + 1)[0] == ':');
        assert(name[k] == ':');
    }
}

/// A header line sets its field and no other, in place of what was set before it,
/// and a line that holds no field changes nothing.
pub proof fn law_header_lines_set_their_fields(
    lines: Seq<Seq<char>>,
    line: Seq<char>,
    other: Seq<char>,
)
    ensures
        header_fields(Seq::empty()) == Map::<Seq<char>, Seq<char>>::empty(),
        header_field(line) is None ==> header_fields(lines.push(line)) == header_fields(lines),
        header_field(line) matches Some((name, value)) ==> {
            &&& header_fields(lines.push(line)).contains_key(name)
            &&& header_fields(lines.push(line))[name] == value
            &&& other != name ==> (header_fields(lines.push(line)).contains_key(other)
                <==> header_fields(lines).contains_key(other))
            &&& other != name && header_fields(lines).contains_key(other) ==> header_fields(
                lines.push(line),
            )[other] == header_fields(lines)[other]
        },
{
    assert(lines.push(line).drop_last() =~= lines);
}

/// The method and the path are the first two words of the first line, and the
/// fields are those of the other lines; without two words there is no request.
pub proof fn law_first_line_holds_method_and_path(
    line: Seq<char>,
    rest: Seq<char>,
)
    requires
        !line.contains('\r'),
    ensures
        ({
            let head = head_of_text(line + seq!['\r', '\n'] + rest);
            let found = text::words(line);
            &&& found.len() == 0 <==> head == Err::<HeadView, HttpError>(HttpError::MissingMethod)
            &&& found.len() == 1 <==> head == Err::<HeadView, HttpError>(HttpError::MissingPath)
            &&& found.len() >= 2 ==> head == Ok::<HeadView, HttpError>(
                HeadView {
                    method: found[0],
                    path: found[1],
                    headers: header_fields(text::split_on(rest, seq!['\r', '\n'])),
                },
            )
        }),
{
    lemma_split_line(line, rest);
    assert(seq!['\r', '\n'] =~= crlf());
    let lines = text::split_on(line + crlf() + rest, crlf());
    assert(lines.drop_first() =~= text::split_on(rest, crlf()));
    assert(lines[0] == line);
}

/// The bytes up to the body are read as the text that they encode, and refused
/// where they encode none.
pub proof fn law_head_is_text(s: Seq<char>, bytes: Seq<u8>)
    ensures
        head_of(encode_utf8(s)) == head_of_text(s),
        head_of(bytes) == Err::<HeadView, HttpError>(HttpError::InvalidHeaders) <==> !valid_utf8(
            bytes,
        ),
{
    encode_utf8_valid_utf8(s);
    encode_utf8_decode_utf8(s);
}

/// The headers announce the number in their `content-length` field, and 0 where
/// there is none or it is no number that fits.
pub proof fn law_announced_length_is_the_number_in_its_field(
    headers: Map<Seq<char>, Seq<char>>,
    value: Seq<char>,
    n: nat,
)
    ensures
        announced_len(headers.remove("content-length"@)) == 0,
        n <= usize::MAX ==> announced_len(
            headers.insert("content-length"@, number::decimal(n)),
        ) == n,
        match number::unsigned(value) {
            Some(m) => announced_len(headers.insert("content-length"@, value)) == if m
                <= usize::MAX {
                m
            } else {
                0
            },
            None => announced_len(headers.insert("content-length"@, value)) == 0,
        },
{
    number::law_decimal_reads_back(n);
}

/// While the empty line that ends the headers is missing, up to 65536 bytes are
/// taken in, and more are refused.
pub proof fn law_headers_have_a_limit(received: Seq<u8>)
    requires
        text::find(received, seq![13u8, 10u8, 13u8, 10u8]) is None,
    ensures
        received.len() <= 65536 ==> outcome(received) is None,
        received.len() > 65536 ==> outcome(received) == Some(
            Err::<RequestView, HttpError>(HttpError::HeadersTooLarge),
        ),
{
}

/// Behind the empty line that ends the headers stands the body. A body that is
/// announced with more than 2097152 bytes is refused; any other is awaited, and
/// then the request has the method, the path and the fields of its head, and
/// that body.
pub proof fn law_body_is_awaited(received: Seq<u8>)
    requires
        text::find(received, seq![13u8, 10u8, 13u8, 10u8]) is Some,
    ensures
        ({
            let start = text::find(received, seq![13u8, 10u8, 13u8, 10u8])->0 + 4;
            match head_of(received.take(start)) {
                Err(e) => outcome(received) == Some(Err::<RequestView, HttpError>(e)),
                Ok(head) => {
                    let len = announced_len(head.headers);
                    &&& len > 2097152 <==> outcome(received) == Some(
                        Err::<RequestView, HttpError>(HttpError::BodyTooLarge),
                    )
                    &&& len <= 2097152 && received.len() < start + len ==> outcome(received) is None
                    &&& len <= 2097152 && received.len() >= start + len ==> (outcome(received)
                        matches Some(Ok(request)) && {
                        &&& request.method == head.method
                        &&& request.path == head.path
                        &&& request.headers == head.headers
                        &&& request.body == received.subrange(start, start + len)
                    })
                },
            }
        }),
{
}

/// A connection that is closed too early gives an error that says what was still
/// missing: the end of the headers, or that of the body. Bytes that come in are
/// taken as if they had come with those before them.
pub proof fn law_early_close_is_an_error(received: Seq<u8>, chunk: Seq<u8>)
    ensures
        text::find(received, seq![13u8, 10u8, 13u8, 10u8]) is None ==> outcome_after(
            received,
            Seq::empty(),
        ) == Some(Err::<RequestView, HttpError>(HttpError::ClosedBeforeRequest)),
        text::find(received, seq![13u8, 10u8, 13u8, 10u8]) is Some ==> outcome_after(
            received,
            Seq::empty(),
        ) == Some(Err::<RequestView, HttpError>(HttpError::ClosedBeforeBody)),
        chunk.len() > 0 ==> outcome_after(received, chunk) == outcome(received + chunk),
{
}

} // verus!
