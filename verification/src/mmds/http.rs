//! HTTP requests and responses as far as the metadata service needs them.

use vstd::prelude::*;
use vstd::string::*;
use vstd::utf8::*;

use crate::text::{self, parse_number, push_decimal, split_word, string_of, trim, utf8_chars};
use crate::wire::push_bytes;

verus! {

/// Largest request that is taken in.
pub const MAX_REQUEST_BYTES: usize = 16_384;

/// A response: a status and a body.
#[derive(Clone, Debug)]
pub struct HttpResponse {
    pub status: u16,
    pub body: Vec<u8>,
}

/// The reason that goes with a status.
pub open spec fn reason_of(status: u16) -> Seq<char> {
    match status {
        200 => "OK"@,
        400 => "Bad Request"@,
        401 => "Unauthorized"@,
        404 => "Not Found"@,
        405 => "Method Not Allowed"@,
        413 => "Payload Too Large"@,
        414 => "URI Too Long"@,
        500 => "Internal Server Error"@,
        _ => "Unknown"@,
    }
}

/// The head of a response: the status line, the length of the body, and the notice that
/// the connection closes.
pub open spec fn response_head(status: u16, body_len: nat) -> Seq<char> {
    "HTTP/1.1 "@ + text::decimal(status as nat) + " "@ + reason_of(status)
        + "\r\nContent-Length: "@ + text::decimal(body_len)
        + "\r\nContent-Type: application/json\r\nConnection: close\r\n\r\n"@
}

/// The bytes of a response.
pub open spec fn response_wire(status: u16, body: Seq<u8>) -> Seq<u8> {
    encode_utf8(response_head(status, body.len())) + body
}

impl HttpResponse {
    /// The bytes of the response.
    pub fn to_wire(&self) -> (out: Vec<u8>)
        ensures
            out@ == response_wire(self.status, self.body@),
    {
        let reason: &str = match self.status {
            200 => "OK",
            400 => "Bad Request",
            401 => "Unauthorized",
            404 => "Not Found",
            405 => "Method Not Allowed",
            413 => "Payload Too Large",
            414 => "URI Too Long",
            500 => "Internal Server Error",
            _ => "Unknown",
        };
        let mut head = String::new();
        head.append("HTTP/1.1 ");
        push_decimal(&mut head, self.status as u64);
        head.append(" ");
        head.append(reason);
        head.append("\r\nContent-Length: ");
        push_decimal(&mut head, self.body.len() as u64);
        head.append("\r\nContent-Type: application/json\r\nConnection: close\r\n\r\n");
        assert(head@ =~= response_head(self.status, self.body@.len()));
        let mut out: Vec<u8> = Vec::new();
        push_bytes(&mut out, head.as_str().as_bytes());
        push_bytes(&mut out, self.body.as_slice());
        assert(out@ =~= response_wire(self.status, self.body@));
        out
    }
}

/// A request.
#[derive(Clone, Debug)]
pub struct HttpRequest {
    pub method: String,
    pub path: String,
    /// The session token, if the request carries one.
    pub token_header: Option<String>,
    /// The wanted lifetime of a token in seconds, if the request carries a number.
    pub ttl_header: Option<u32>,
    pub body: Vec<u8>,
}

/// The contents of a request.
#[verifier::ext_equal]
pub struct RequestView {
    pub method: Seq<char>,
    pub path: Seq<char>,
    pub token: Option<Seq<char>>,
    pub ttl: Option<u32>,
    pub body: Seq<u8>,
}

/// The text of an optional string.
pub open spec fn text_view(s: Option<String>) -> Option<Seq<char>> {
    match s {
        Some(t) => Some(t@),
        None => None,
    }
}

impl View for HttpRequest {
    type V = RequestView;

    open spec fn view(&self) -> RequestView {
        RequestView {
            method: self.method@,
            path: self.path@,
            token: text_view(self.token_header),
            ttl: self.ttl_header,
            body: self.body@,
        }
    }
}

/// What the bytes of a connection amount to so far.
#[derive(Debug)]
pub enum HttpParseOutcome {
    /// More bytes are needed.
    Incomplete,
    /// A whole request.
    Complete(HttpRequest),
    /// Not a request.
    Malformed,
    /// More than a request may have.
    TooLarge,
}

/// What the bytes of a connection amount to so far.
pub enum ParseView {
    Incomplete,
    Complete(RequestView),
    Malformed,
    TooLarge,
}

impl View for HttpParseOutcome {
    type V = ParseView;

    open spec fn view(&self) -> ParseView {
        match self {
            HttpParseOutcome::Incomplete => ParseView::Incomplete,
            HttpParseOutcome::Complete(r) => ParseView::Complete(r@),
            HttpParseOutcome::Malformed => ParseView::Malformed,
            HttpParseOutcome::TooLarge => ParseView::TooLarge,
        }
    }
}

/// `needle` stands in `hay` at `i`.
pub open spec fn stands_at<T>(hay: Seq<T>, needle: Seq<T>, i: int) -> bool {
    0 <= i && i + needle.len() <= hay.len() && hay.subrange(i, i + needle.len()) == needle
}

/// The first place from `from` on where `needle` stands in `hay`.
pub open spec fn first_at<T>(hay: Seq<T>, needle: Seq<T>, from: int) -> Option<int>
    decreases hay.len() - from + 1,
{
    if from + needle.len() > hay.len() {
        None
    } else if stands_at(hay, needle, from) {
        Some(from)
    } else {
        first_at(hay, needle, from + 1)
    }
}

/// The blank line that ends the head of a request.
pub open spec fn blank_line() -> Seq<u8> {
    seq![13u8, 10, 13, 10]
}

/// The end of a line.
pub open spec fn line_end() -> Seq<char> {
    seq!['\r', '\n']
}

/// The first line of `s`, and what follows its end, if it has one.
pub open spec fn first_line(s: Seq<char>) -> (Seq<char>, Option<Seq<char>>) {
    match first_at(s, line_end(), 0) {
        Some(i) => (s.take(i), Some(s.skip(i + 2))),
        None => (s, None),
    }
}

/// A header line split at its first colon.
pub open spec fn header_parts(line: Seq<char>) -> Option<(Seq<char>, Seq<char>)> {
    match first_at(line, seq![':'], 0) {
        Some(i) => Some((line.take(i), line.skip(i + 1))),
        None => None,
    }
}

/// A character in lower case, if it is an ASCII letter.
pub open spec fn lower(c: char) -> char {
    if 'A' <= c <= 'Z' {
        (c as u32 + 32) as char
    } else {
        c
    }
}

/// A text with its ASCII letters in lower case.
pub open spec fn lowered(s: Seq<char>) -> Seq<char> {
    Seq::new(s.len(), |i: int| lower(s[i]))
}

/// What the header lines have said so far.
#[verifier::ext_equal]
pub struct HeaderFacts {
    pub content_length: nat,
    pub token: Option<Seq<char>>,
    pub ttl: Option<u32>,
}

/// What one more header line says; a later line replaces an earlier one, and a length
/// that is no number counts as none.
pub open spec fn with_line(facts: HeaderFacts, line: Seq<char>) -> HeaderFacts {
    match header_parts(line) {
        None => facts,
        Some((name, value)) => {
            let v = text::trimmed(value);
            if lowered(name) == "content-length"@ {
                HeaderFacts {
                    content_length: match text::parsed_number(v, usize::MAX as nat) {
                        Some(n) => n,
                        None => 0,
                    },
                    ..facts
                }
            } else if lowered(name) == "x-aws-ec2-metadata-token"@ {
                HeaderFacts { token: Some(v), ..facts }
            } else if lowered(name) == "x-aws-ec2-metadata-token-ttl-seconds"@ {
                HeaderFacts {
                    ttl: match text::parsed_number(v, u32::MAX as nat) {
                        Some(n) => Some(n as u32),
                        None => None,
                    },
                    ..facts
                }
            } else {
                facts
            }
        },
    }
}

/// What all header lines of `s` say.
pub open spec fn with_lines(facts: HeaderFacts, s: Seq<char>) -> HeaderFacts
    decreases s.len(),
{
    match first_at(s, line_end(), 0) {
        Some(i) => if 0 <= i && i + 2 <= s.len() {
            with_lines(with_line(facts, s.take(i)), s.skip(i + 2))
        } else {
            facts
        },
        None => with_line(facts, s),
    }
}

/// Nothing said.
pub open spec fn no_facts() -> HeaderFacts {
    HeaderFacts { content_length: 0, token: None, ttl: None }
}

/// What the bytes of a connection amount to.
#[verifier::opaque]
pub open spec fn parse_request(buf: Seq<u8>) -> ParseView {
    if buf.len() > MAX_REQUEST_BYTES {
        ParseView::TooLarge
    } else {
        match first_at(buf, blank_line(), 0) {
            None => ParseView::Incomplete,
            Some(end) => {
                let head = buf.take(end);
                if !valid_utf8(head) {
                    ParseView::Malformed
                } else {
                    let (request_line, rest) = first_line(decode_utf8(head));
                    match text::first_word(request_line) {
                        None => ParseView::Malformed,
                        Some((method, after)) => match text::first_word(after) {
                            None => ParseView::Malformed,
                            Some((path, _)) => {
                                let facts = match rest {
                                    Some(lines) => with_lines(no_facts(), lines),
                                    None => no_facts(),
                                };
                                let start = end + 4;
                                if start + facts.content_length > MAX_REQUEST_BYTES {
                                    ParseView::TooLarge
                                } else if buf.len() < start + facts.content_length {
                                    ParseView::Incomplete
                                } else {
                                    ParseView::Complete(
                                        RequestView {
                                            method,
                                            path,
                                            token: facts.token,
                                            ttl: facts.ttl,
                                            body: buf.subrange(
                                                start,
                                                start + facts.content_length,
                                            ),
                                        },
                                    )
                                }
                            },
                        },
                    }
                }
            },
        }
    }
}

/// A first place is a place, and lies in the sequence.
pub proof fn first_at_is_a_place<T>(hay: Seq<T>, needle: Seq<T>, from: int)
    requires
        0 <= from,
    ensures
        first_at(hay, needle, from) matches Some(i) ==> from <= i && stands_at(hay, needle, i),
    decreases hay.len() - from + 1,
{
    if from + needle.len() <= hay.len() && !stands_at(hay, needle, from) {
        first_at_is_a_place(hay, needle, from + 1);
    }
}

/// Where `needle` first stands in `haystack`.
pub fn find_subsequence(haystack: &[u8], needle: &[u8]) -> (r: Option<usize>)
    requires
        needle@.len() > 0,
    ensures
        match r {
            Some(i) => first_at(haystack@, needle@, 0) == Some(i as int) && i + needle@.len()
                <= haystack@.len(),
            None => first_at(haystack@, needle@, 0) is None,
        },
{
    let mut i: usize = 0;
    while i < haystack.len() && needle.len() <= haystack.len() - i
        invariant
            i <= haystack@.len(),
            needle@.len() > 0,
            first_at(haystack@, needle@, i as int) == first_at(haystack@, needle@, 0),
        decreases haystack@.len() - i,
    {
        let mut k: usize = 0;
        while k < needle.len() && haystack[i + k] == needle[k]
            invariant
                k <= needle@.len(),
                i + needle@.len() <= haystack@.len(),
                haystack@.len() <= usize::MAX,
                forall|j: int| 0 <= j < k ==> haystack@[i + j] == needle@[j],
            decreases needle@.len() - k,
        {
            k = k + 1;
        }
        if k == needle.len() {
            assert(haystack@.subrange(i as int, i + needle@.len()) =~= needle@);
            return Some(i);
        }
        assert(haystack@.subrange(i as int, i + needle@.len())[k as int] == haystack@[i + k]);
        i = i + 1;
    }
    None
}

/// Where a line of `s` ends.
fn find_line_end(s: &[char]) -> (r: Option<usize>)
    ensures
        match r {
            Some(i) => first_at(s@, line_end(), 0) == Some(i as int) && i + 2 <= s@.len(),
            None => first_at(s@, line_end(), 0) is None,
        },
{
    let mut i: usize = 0;
    while i < s.len() && 2 <= s.len() - i
        invariant
            i <= s@.len(),
            first_at(s@, line_end(), i as int) == first_at(s@, line_end(), 0),
        decreases s@.len() - i,
    {
        if s[i] == '\r' && s[i + 1] == '\n' {
            assert(s@.subrange(i as int, i + 2) =~= line_end());
            return Some(i);
        }
        assert(s@.subrange(i as int, i + 2)[0] == s@[i as int]);
        assert(s@.subrange(i as int, i + 2)[1] == s@[i + 1]);
        i = i + 1;
    }
    None
}

/// Splits a header line at its first colon.
pub fn split_header(line: &[char]) -> (r: Option<(&[char], &[char])>)
    ensures
        match r {
            Some((name, value)) => header_parts(line@) == Some((name@, value@)),
            None => header_parts(line@) is None,
        },
{
    let mut i: usize = 0;
    while i < line.len()
        invariant
            i <= line@.len(),
            first_at(line@, seq![':'], i as int) == first_at(line@, seq![':'], 0),
        decreases line@.len() - i,
    {
        assert(line@.subrange(i as int, i + 1)[0] == line@[i as int]);
        if line[i] == ':' {
            assert(line@.subrange(i as int, i + 1) =~= seq![':']);
            let name = vstd::slice::slice_subrange(line, 0, i);
            let value = vstd::slice::slice_subrange(line, i + 1, line.len());
            assert(name@ =~= line@.take(i as int));
            assert(value@ =~= line@.skip(i + 1));
            return Some((name, value));
        }
        i = i + 1;
    }
    None
}

/// The text of `s` with its ASCII letters in lower case.
fn lower_string(s: &[char]) -> (r: String)
    ensures
        r@ == lowered(s@),
{
    let mut r = String::new();
    let mut i: usize = 0;
    while i < s.len()
        invariant
            i <= s@.len(),
            r@ =~= lowered(s@).take(i as int),
        decreases s@.len() - i,
    {
        let c: char = s[i];
        if 'A' <= c && c <= 'Z' {
            r.push((c as u8 + 32) as char);
        } else {
            r.push(c);
        }
        i = i + 1;
    }
    assert(r@ =~= lowered(s@));
    r
}

/// What the header lines have said so far.
struct Headers {
    content_length: usize,
    token: Option<String>,
    ttl: Option<u32>,
}

impl Headers {
    spec fn facts(&self) -> HeaderFacts {
        HeaderFacts {
            content_length: self.content_length as nat,
            token: text_view(self.token),
            ttl: self.ttl,
        }
    }

    fn take_line(&mut self, line: &[char])
        ensures
            final(self).facts() == with_line(old(self).facts(), line@),
    {
        if let Some((name, value)) = split_header(line) {
            let name = lower_string(name);
            let v = trim(value);
            if name == String::from_str("content-length") {
                self.content_length = match parse_number(v, usize::MAX as u64) {
                    Some(n) => n as usize,
                    None => 0,
                };
            } else if name == String::from_str("x-aws-ec2-metadata-token") {
                self.token = Some(string_of(v));
            } else if name == String::from_str("x-aws-ec2-metadata-token-ttl-seconds") {
                self.ttl = match parse_number(v, u32::MAX as u64) {
                    Some(n) => Some(n as u32),
                    None => None,
                };
            }
        }
    }

    fn take_lines(&mut self, lines: &[char])
        ensures
            final(self).facts() == with_lines(old(self).facts(), lines@),
    {
        let mut rest: &[char] = lines;
        loop
            invariant_except_break
                with_lines(self.facts(), rest@) == with_lines(old(self).facts(), lines@),
            ensures
                self.facts() == with_lines(old(self).facts(), lines@),
            decreases rest@.len(),
        {
            match find_line_end(rest) {
                Some(i) => {
                    let line = vstd::slice::slice_subrange(rest, 0, i);
                    assert(i + 2 <= rest.len());
                    let next = vstd::slice::slice_subrange(rest, i + 2, rest.len());
                    assert(line@ =~= rest@.take(i as int));
                    assert(next@ =~= rest@.skip(i + 2));
                    self.take_line(line);
                    rest = next;
                },
                None => {
                    self.take_line(rest);
                    break ;
                },
            }
        }
    }
}

/// Reads a request from the bytes of a connection.
pub fn try_parse_http(buf: &[u8]) -> (r: HttpParseOutcome)
    ensures
        r@ == parse_request(buf@),
{
    proof {
        reveal(parse_request);
    }
    if buf.len() > MAX_REQUEST_BYTES {
        return HttpParseOutcome::TooLarge;
    }
    let blank: [u8; 4] = [13, 10, 13, 10];
    assert(blank@ =~= blank_line());
    let end: usize = match find_subsequence(buf, blank.as_slice()) {
        Some(i) => i,
        None => {
            return HttpParseOutcome::Incomplete;
        },
    };
    let head = vstd::slice::slice_subrange(buf, 0, end);
    assert(head@ =~= buf@.take(end as int));
    let chars: Vec<char> = match utf8_chars(head) {
        Some(c) => c,
        None => {
            return HttpParseOutcome::Malformed;
        },
    };
    let all: &[char] = chars.as_slice();
    let mut headers = Headers { content_length: 0, token: None, ttl: None };
    let request_line: &[char] = match find_line_end(all) {
        Some(i) => {
            assert(i + 2 <= all.len());
            let lines = vstd::slice::slice_subrange(all, i + 2, all.len());
            assert(lines@ =~= all@.skip(i + 2));
            headers.take_lines(lines);
            let line = vstd::slice::slice_subrange(all, 0, i);
            assert(line@ =~= all@.take(i as int));
            line
        },
        None => all,
    };
    let (method, after) = match split_word(request_line) {
        Some((w, rest)) => (string_of(w), rest),
        None => {
            return HttpParseOutcome::Malformed;
        },
    };
    let path: String = match split_word(after) {
        Some((w, _)) => string_of(w),
        None => {
            return HttpParseOutcome::Malformed;
        },
    };
    let start: usize = end + 4;
    if start > MAX_REQUEST_BYTES || headers.content_length > MAX_REQUEST_BYTES - start {
        return HttpParseOutcome::TooLarge;
    }
    let body_end: usize = start + headers.content_length;
    if buf.len() < body_end {
        return HttpParseOutcome::Incomplete;
    }
    let body: Vec<u8> = vstd::slice::slice_to_vec(vstd::slice::slice_subrange(buf, start, body_end));
    HttpParseOutcome::Complete(
        HttpRequest { method, path, token_header: headers.token, ttl_header: headers.ttl, body },
    )
}

/// A place stays the first place when more is appended.
proof fn first_at_extends<T>(hay: Seq<T>, more: Seq<T>, needle: Seq<T>, from: int)
    requires
        0 <= from,
        first_at(hay, needle, from) is Some,
    ensures
        first_at(hay + more, needle, from) == first_at(hay, needle, from),
    decreases hay.len() - from + 1,
{
    assert((hay + more).subrange(from, from + needle.len()) =~= hay.subrange(
        from,
        from + needle.len(),
    ));
    if !stands_at(hay, needle, from) {
        first_at_extends(hay, more, needle, from + 1);
    }
}

/// Bytes after a whole request do not change how it is read, as long as the request
/// limit is kept.
pub proof fn complete_request_is_stable(buf: Seq<u8>, more: Seq<u8>)
    requires
        parse_request(buf) is Complete,
        buf.len() + more.len() <= MAX_REQUEST_BYTES,
    ensures
        parse_request(buf + more) == parse_request(buf),
{
    reveal(parse_request);
    first_at_is_a_place(buf, blank_line(), 0);
    first_at_extends(buf, more, blank_line(), 0);
    let end = first_at(buf, blank_line(), 0)->0;
    assert((buf + more).take(end) =~= buf.take(end));
    let req = parse_request(buf)->Complete_0;
    assert((buf + more).subrange(end + 4, end + 4 + req.body.len()) =~= buf.subrange(
        end + 4,
        end + 4 + req.body.len(),
    ));
}

/// Without a blank line a request that is not too large waits for more bytes.
pub proof fn no_blank_line_is_incomplete(buf: Seq<u8>)
    requires
        buf.len() <= MAX_REQUEST_BYTES,
        forall|i: int| !#[trigger] stands_at(buf, blank_line(), i),
    ensures
        parse_request(buf) is Incomplete,
{
    reveal(parse_request);
    first_at_is_a_place(buf, blank_line(), 0);
}

/// The first place is the first: the needle stands nowhere before it, and nowhere at all
/// where there is none.
pub proof fn first_at_is_the_first<T>(hay: Seq<T>, needle: Seq<T>, from: int, j: int)
    requires
        0 <= from <= j,
        stands_at(hay, needle, j),
    ensures
        first_at(hay, needle, from) matches Some(i) && i <= j,
    decreases hay.len() - from + 1,
{
    if !stands_at(hay, needle, from) {
        first_at_is_the_first(hay, needle, from + 1, j);
    }
}

proof fn first_at_found<T>(hay: Seq<T>, needle: Seq<T>, i: int)
    requires
        stands_at(hay, needle, i),
        forall|j: int| 0 <= j < i ==> !#[trigger] stands_at(hay, needle, j),
    ensures
        first_at(hay, needle, 0) == Some(i),
{
    first_at_is_the_first(hay, needle, 0, i);
    first_at_is_a_place(hay, needle, 0);
}

proof fn first_at_missing<T>(hay: Seq<T>, needle: Seq<T>)
    requires
        forall|j: int| !#[trigger] stands_at(hay, needle, j),
    ensures
        first_at(hay, needle, 0) is None,
{
    first_at_is_a_place(hay, needle, 0);
}

/// A head in UTF-8 up to the first blank line, whose first line is two words and what may
/// follow them after white space, is a request: the words are the method and the path. It is
/// complete once as many bytes as the header lines say follow the blank line, and those are
/// its body; it waits for them, unless they would be too many.
pub proof fn requests_are_read(
    buf: Seq<u8>,
    blank: Seq<u8>,
    crlf: Seq<char>,
    end: int,
    method: Seq<char>,
    gap: Seq<char>,
    path: Seq<char>,
    tail: Seq<char>,
    lines: Option<Seq<char>>,
)
    requires
        blank == seq![13u8, 10u8, 13u8, 10u8],
        crlf == seq!['\r', '\n'],
        buf.len() <= 16384,
        stands_at(buf, blank, end),
        forall|j: int|
            0 <= j < end ==> !#[trigger] stands_at(buf, blank, j),
        valid_utf8(buf.take(end)),
        text::is_word(method),
        text::is_word(path),
        text::is_blank(gap),
        gap.len() > 0,
        tail.len() == 0 || text::is_white_space(tail[0]),
        decode_utf8(buf.take(end)) == (method + gap + path + tail) + match lines {
            Some(l) => seq!['\r', '\n'] + l,
            None => Seq::empty(),
        },
        forall|j: int|
            0 <= j < (method + gap + path + tail).len() ==> !#[trigger] stands_at(
                decode_utf8(buf.take(end)),
                crlf,
                j,
            ),
    ensures
        ({
            let facts = match lines {
                Some(l) => with_lines(HeaderFacts { content_length: 0, token: None, ttl: None }, l),
                None => HeaderFacts { content_length: 0, token: None, ttl: None },
            };
            let whole = end + 4 + facts.content_length;
            &&& whole > 16384 ==> parse_request(buf) is TooLarge
            &&& whole <= 16384 && buf.len() < whole ==> parse_request(buf) is Incomplete
            &&& whole <= buf.len() ==> parse_request(buf) == ParseView::Complete(
                RequestView {
                    method,
                    path,
                    token: facts.token,
                    ttl: facts.ttl,
                    body: buf.subrange(end + 4, whole),
                },
            )
        }),
{
    reveal(parse_request);
    assert(blank_line() =~= seq![13u8, 10u8, 13u8, 10u8]);
    assert(line_end() =~= seq!['\r', '\n']);
    first_at_found(buf, blank_line(), end);
    let head = decode_utf8(buf.take(end));
    let line = method + gap + path + tail;
    match lines {
        Some(l) => {
            assert(head.subrange(line.len() as int, line.len() as int + 2) =~= seq!['\r', '\n']);
            first_at_found(head, line_end(), line.len() as int);
            assert(head.take(line.len() as int) =~= line);
            assert(head.skip(line.len() as int + 2) =~= l);
        },
        None => {
            assert(head =~= line);
            assert forall|j: int| !#[trigger] stands_at(head, line_end(), j) by {}
            first_at_missing(head, line_end());
        },
    }
    let none = Seq::<char>::empty();
    assert(line =~= none + method + (gap + path + tail));
    text::first_word_is_found(none, method, gap + path + tail);
    text::first_word_is_found(gap, path, tail);
}

/// Bytes are too large beyond 16384; a head that is not UTF-8, or whose first line has fewer
/// than two words, is no request.
pub proof fn other_bytes_are_no_request(buf: Seq<u8>, blank: Seq<u8>, end: int)
    requires
        blank == seq![13u8, 10u8, 13u8, 10u8],
    ensures
        buf.len() > 16384 ==> parse_request(buf) is TooLarge,
        buf.len() <= 16384 && stands_at(buf, blank, end) && (forall|j: int|
            0 <= j < end ==> !#[trigger] stands_at(buf, blank, j))
            && !valid_utf8(buf.take(end)) ==> parse_request(buf) is Malformed,
        end == 0 && buf.len() <= 16384 && stands_at(buf, blank, 0)
            ==> parse_request(buf) is Malformed,
{
    reveal(parse_request);
    assert(blank_line() =~= seq![13u8, 10u8, 13u8, 10u8]);
    if buf.len() <= 16384 && stands_at(buf, blank_line(), end) && (forall|j: int|
        0 <= j < end ==> !#[trigger] stands_at(buf, blank_line(), j)) {
        first_at_found(buf, blank_line(), end);
        if end == 0 && valid_utf8(buf.take(0)) {
            let none = Seq::<char>::empty();
            encode_utf8_decode_utf8(none);
            assert(encode_utf8(none) =~= buf.take(0));
            let head = decode_utf8(buf.take(0));
            assert(head =~= none);
            assert forall|j: int| !#[trigger] stands_at(head, line_end(), j) by {}
            first_at_missing(head, line_end());
            assert(text::trimmed_start(none) =~= none);
        }
    }
}

/// Header lines are read one after the other, each up to its line end.
pub proof fn lines_are_read_in_turn(
    facts: HeaderFacts,
    line: Seq<char>,
    crlf: Seq<char>,
    more: Seq<char>,
)
    requires
        crlf == seq!['\r', '\n'],
        forall|j: int|
            0 <= j < line.len() ==> !#[trigger] stands_at(
                line + crlf + more,
                crlf,
                j,
            ),
    ensures
        with_lines(facts, line + crlf + more) == with_lines(
            with_line(facts, line),
            more,
        ),
{
    let s = line + crlf + more;
    assert(line_end() =~= seq!['\r', '\n']);
    assert(s.subrange(line.len() as int, line.len() as int + 2) =~= seq!['\r', '\n']);
    first_at_found(s, line_end(), line.len() as int);
    assert(s.take(line.len() as int) =~= line);
    assert(s.skip(line.len() as int + 2) =~= more);
}

/// The last header line has no line end after it.
pub proof fn last_line_is_read(facts: HeaderFacts, line: Seq<char>, crlf: Seq<char>)
    requires
        crlf == seq!['\r', '\n'],
        forall|j: int| !#[trigger] stands_at(line, crlf, j),
    ensures
        with_lines(facts, line) == with_line(facts, line),
{
    assert(line_end() =~= seq!['\r', '\n']);
    first_at_missing(line, line_end());
}

/// Two texts are the same up to the case of ASCII letters.
pub open spec fn same_but_for_case(a: Seq<char>, b: Seq<char>) -> bool {
    &&& a.len() == b.len()
    &&& forall|i: int|
        0 <= i < a.len() ==> {
            ||| #[trigger] a[i] == b[i] && !('A' <= a[i] <= 'Z')
            ||| 'a' <= b[i] <= 'z' && a[i] as u32 + 32 == b[i] as u32
        }
}

proof fn lowered_is_the_same_but_for_case(a: Seq<char>, b: Seq<char>)
    requires
        forall|i: int| 0 <= i < b.len() ==> !('A' <= #[trigger] b[i] <= 'Z'),
    ensures
        lowered(a) == b <==> same_but_for_case(a, b),
{
    if same_but_for_case(a, b) {
        assert(lowered(a) =~= b);
    }
    if lowered(a) == b {
        assert forall|i: int| 0 <= i < a.len() implies {
            ||| #[trigger] a[i] == b[i] && !('A' <= a[i] <= 'Z')
            ||| 'a' <= b[i] <= 'z' && a[i] as u32 + 32 == b[i] as u32
        } by {
            assert(lowered(a)[i] == b[i]);
        }
    }
}

/// A header line is a name, in whatever case, a colon and a value, white space round it not
/// counted. The length of the body, the token and its lifetime are told from their lines,
/// and each leaves the others as they were; a length that is no number counts as none.
pub proof fn header_lines_say_what_they_say(facts: HeaderFacts, name: Seq<char>, value: Seq<char>)
    requires
        forall|j: int| 0 <= j < name.len() ==> #[trigger] name[j] != ':',
    ensures
        ({
            let after = with_line(facts, name + seq![':'] + value);
            let v = text::trimmed(value);
            let is_length = same_but_for_case(name, "content-length"@);
            let is_token = same_but_for_case(name, "x-aws-ec2-metadata-token"@);
            let is_ttl = same_but_for_case(name, "x-aws-ec2-metadata-token-ttl-seconds"@);
            &&& is_length ==> after.token == facts.token && after.ttl == facts.ttl
                && after.content_length == (match text::parsed_number(v, usize::MAX as nat) {
                Some(n) => n,
                None => 0,
            })
            &&& is_token ==> after.content_length == facts.content_length && after.ttl == facts.ttl
                && after.token == Some(v)
            &&& is_ttl ==> after.content_length == facts.content_length && after.token
                == facts.token && (match text::parsed_number(v, u32::MAX as nat) {
                Some(n) => after.ttl matches Some(t) && t == n,
                None => after.ttl is None,
            })
            &&& !is_length && !is_token && !is_ttl ==> after == facts
        }),
{
    let line = name + seq![':'] + value;
    let colon = seq![':'];
    assert(line.subrange(name.len() as int, name.len() as int + 1) =~= colon);
    assert forall|j: int| 0 <= j < name.len() implies !#[trigger] stands_at(line, colon, j) by {
        if stands_at(line, colon, j) {
            assert(line.subrange(j, j + 1)[0] == name[j]);
        }
    }
    first_at_found(line, colon, name.len() as int);
    assert(line.take(name.len() as int) =~= name);
    assert(line.skip(name.len() as int + 1) =~= value);
    reveal_strlit("content-length");
    reveal_strlit("x-aws-ec2-metadata-token");
    reveal_strlit("x-aws-ec2-metadata-token-ttl-seconds");
    lowered_is_the_same_but_for_case(name, "content-length"@);
    lowered_is_the_same_but_for_case(name, "x-aws-ec2-metadata-token"@);
    lowered_is_the_same_but_for_case(name, "x-aws-ec2-metadata-token-ttl-seconds"@);
    if lowered(name) == "content-length"@ {
        assert(lowered(name).len() == 14);
    }
}

/// A line without a colon says nothing.
pub proof fn lines_without_a_colon_say_nothing(facts: HeaderFacts, line: Seq<char>)
    requires
        forall|j: int| 0 <= j < line.len() ==> #[trigger] line[j] != ':',
    ensures
        with_line(facts, line) == facts,
{
    let colon = seq![':'];
    assert forall|j: int| !#[trigger] stands_at(line, colon, j) by {
        if stands_at(line, colon, j) {
            assert(line.subrange(j, j + 1)[0] == line[j]);
        }
    }
    first_at_missing(line, colon);
}

/// A response is a head and then the body as it is: the head starts with the version and the
/// status, says how many bytes the body has and that the connection closes, and ends with a
/// blank line.
pub proof fn responses_carry_their_body(status: u16, body: Seq<u8>)
    ensures
        ({
            let wire = response_wire(status, body);
            let head = response_head(status, body.len());
            let length = "\r\nContent-Length: "@ + text::decimal(body.len())
                + "\r\nContent-Type: application/json\r\nConnection: close\r\n\r\n"@;
            let start = "HTTP/1.1 "@ + text::decimal(status as nat) + " "@;
            &&& wire.len() == encode_utf8(head).len() + body.len()
            &&& wire.skip(encode_utf8(head).len() as int) == body
            &&& start.is_prefix_of(head)
            &&& length.is_suffix_of(head)
            &&& head == start + reason_of(status) + length
        }),
{
    let wire = response_wire(status, body);
    let head = response_head(status, body.len());
    let length = "\r\nContent-Length: "@ + text::decimal(body.len())
        + "\r\nContent-Type: application/json\r\nConnection: close\r\n\r\n"@;
    let start = "HTTP/1.1 "@ + text::decimal(status as nat) + " "@;
    assert(wire.skip(encode_utf8(head).len() as int) =~= body);
    assert(head =~= start + reason_of(status) + length);
    assert(start =~= head.take(start.len() as int));
    assert(length =~= head.skip(head.len() - length.len()));
}

/// The reason on a status line is the one that HTTP gives the status.
pub proof fn statuses_have_their_reasons(status: u16)
    ensures
        status == 200 ==> reason_of(status) == "OK"@,
        status == 400 ==> reason_of(status) == "Bad Request"@,
        status == 401 ==> reason_of(status) == "Unauthorized"@,
        status == 404 ==> reason_of(status) == "Not Found"@,
        status == 405 ==> reason_of(status) == "Method Not Allowed"@,
        status == 413 ==> reason_of(status) == "Payload Too Large"@,
        status == 414 ==> reason_of(status) == "URI Too Long"@,
        status == 500 ==> reason_of(status) == "Internal Server Error"@,
        status != 200 && !(400 <= status <= 414) && status != 500 ==> reason_of(status)
            == "Unknown"@,
{
}

/// Without a blank line more bytes are needed; with one, a first line of no word or of one
/// word alone is no request, whatever follows.
pub proof fn one_word_is_no_request(
    buf: Seq<u8>,
    blank: Seq<u8>,
    crlf: Seq<char>,
    end: int,
    word: Seq<char>,
    tail: Seq<char>,
    lines: Option<Seq<char>>,
)
    requires
        blank == seq![13u8, 10u8, 13u8, 10u8],
        crlf == seq!['\r', '\n'],
        buf.len() <= 16384,
        text::is_word(word) || word.len() == 0,
        text::is_blank(tail),
    ensures
        (forall|j: int| !#[trigger] stands_at(buf, blank, j)) ==> parse_request(buf) is Incomplete,
        ({
            &&& stands_at(buf, blank, end)
            &&& forall|j: int| 0 <= j < end ==> !#[trigger] stands_at(buf, blank, j)
            &&& valid_utf8(buf.take(end))
            &&& decode_utf8(buf.take(end)) == (word + tail) + match lines {
                Some(l) => seq!['\r', '\n'] + l,
                None => Seq::empty(),
            }
            &&& forall|j: int|
                0 <= j < (word + tail).len() ==> !#[trigger] stands_at(
                    decode_utf8(buf.take(end)),
                    crlf,
                    j,
                )
        }) ==> parse_request(buf) is Malformed,
{
    reveal(parse_request);
    assert(blank_line() =~= seq![13u8, 10u8, 13u8, 10u8]);
    assert(line_end() =~= seq!['\r', '\n']);
    let head = decode_utf8(buf.take(end));
    let line = word + tail;
    let none = Seq::<char>::empty();
    if forall|j: int| !#[trigger] stands_at(buf, blank, j) {
        first_at_missing(buf, blank_line());
    } else if stands_at(buf, blank, end) && (forall|j: int|
        0 <= j < end ==> !#[trigger] stands_at(buf, blank, j)) && valid_utf8(buf.take(end)) && head
        == line + (match lines {
        Some(l) => seq!['\r', '\n'] + l,
        None => Seq::empty(),
    }) && (forall|j: int| 0 <= j < line.len() ==> !#[trigger] stands_at(head, crlf, j)) {
        first_at_found(buf, blank_line(), end);
        match lines {
            Some(l) => {
                assert(head.subrange(line.len() as int, line.len() as int + 2) =~= seq!['\r', '\n']);
                first_at_found(head, line_end(), line.len() as int);
                assert(head.take(line.len() as int) =~= line);
            },
            None => {
                assert(head =~= line);
                assert forall|j: int| !#[trigger] stands_at(head, line_end(), j) by {}
                first_at_missing(head, line_end());
            },
        }
        text::leading_blanks_go(tail, none);
        assert(tail + none =~= tail);
        if word.len() == 0 {
            assert(line =~= tail);
        } else {
            assert(line =~= none + word + tail);
            text::first_word_is_found(none, word, tail);
        }
    }
}

} // verus!
