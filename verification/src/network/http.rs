//! Requests and responses of the hypertext protocol, as texts.
//!
//! A request is a request line, header lines and a body:
//!
//! ```text
//! GET /path?key=value HTTP/1.1\r\n
//! Header-Name: Header-Value\r\n
//! \r\n
//! body
//! ```

use crate::network::scan::{
    find, find2, find2_from, find2_is_first, find_from, find_is_first, get, lookup, pairs_texts,
    params_of, parse_params, piece, piece_text, Pair,
};
use crate::text::{chars_eq, chars_of, decimal, decimal_digits, is_space, space, strip_front};
use vstd::prelude::*;
use vstd::string::StringExecFns;

verus! {

/// The methods the server knows.
#[derive(Debug, PartialEq, Eq, Clone, Copy, Structural)]
pub enum Method {
    GET,
    POST,
    /// Asked by browsers before a request across origins.
    OPTIONS,
}

/// Why a text is not a request.
#[derive(Debug, PartialEq, Eq, Clone, Copy, Structural)]
pub enum ParseError {
    /// The request line is empty.
    NoMethod,
    /// The request line holds a method and nothing else.
    NoPath,
    /// The method is none of those the server knows.
    UnknownMethod,
}

impl ParseError {
    /// A short text for the error.
    pub fn message(&self) -> (s: String)
        ensures
            s@ == (match *self {
                ParseError::NoMethod => "No method"@,
                ParseError::NoPath => "No path"@,
                ParseError::UnknownMethod => "Unknown method"@,
            }),
    {
        match self {
            ParseError::NoMethod => "No method".to_string(),
            ParseError::NoPath => "No path".to_string(),
            ParseError::UnknownMethod => "Unknown method".to_string(),
        }
    }
}

/// A request.
#[derive(Debug)]
pub struct HttpRequest {
    pub method: Method,
    /// The path, without the query.
    pub path: String,
    /// The parameters of the query, in their order.
    pub query_params: Vec<Pair>,
    /// The headers, in their order, their names in lower case.
    pub headers: Vec<Pair>,
    pub body: String,
}

/// A request, with texts in place of strings.
pub struct RequestView {
    pub method: Method,
    pub path: Seq<char>,
    pub query_params: Seq<(Seq<char>, Seq<char>)>,
    pub headers: Seq<(Seq<char>, Seq<char>)>,
    pub body: Seq<char>,
}

impl View for HttpRequest {
    type V = RequestView;

    open spec fn view(&self) -> RequestView {
        RequestView {
            method: self.method,
            path: self.path@,
            query_params: pairs_texts(self.query_params@),
            headers: pairs_texts(self.headers@),
            body: self.body@,
        }
    }
}

/// The text `s` in lower case, as the standard library has it.
pub uninterp spec fn lowercased(s: Seq<char>) -> Seq<char>;

/// The text in lower case.
///
/// Wraps `str::to_lowercase`, which maps every character to its lower
/// case by the rules of Unicode; the result depends on the text alone.
#[verifier::external_body]
fn lower(s: &str) -> (r: String)
    ensures
        r@ == lowercased(s@),
{
    s.to_lowercase()
}

/// The number of characters at the beginning of `s` that are not white
/// space.
pub open spec fn word_len(s: Seq<char>) -> int
    decreases s.len(),
{
    if s.len() == 0 || is_space(s[0]) {
        0
    } else {
        1 + word_len(s.drop_first())
    }
}

/// The first word of `s`: what stands between the white space at the
/// beginning and the next white space.  A text of white space only has
/// no word.
pub open spec fn first_word(s: Seq<char>) -> Option<Seq<char>> {
    let t = strip_front(s);
    if t.len() == 0 {
        None
    } else {
        Some(t.take(word_len(t)))
    }
}

/// What follows the first word of `s`.
pub open spec fn after_first_word(s: Seq<char>) -> Seq<char> {
    let t = strip_front(s);
    t.skip(word_len(t))
}

/// The method that a word names.
pub open spec fn method_of(word: Seq<char>) -> Option<Method> {
    if word == "GET"@ {
        Some(Method::GET)
    } else if word == "POST"@ {
        Some(Method::POST)
    } else if word == "OPTIONS"@ {
        Some(Method::OPTIONS)
    } else {
        None
    }
}

/// A header line cut at its first colon-and-space into name and value,
/// the name in lower case; nothing if the line has no colon-and-space.
pub open spec fn header_of(line: Seq<char>) -> Option<(Seq<char>, Seq<char>)> {
    let k = find2(line, ':', ' ');
    if k < line.len() {
        Some((lowercased(line.take(k)), line.skip(k + 2)))
    } else {
        None
    }
}

/// The headers and the body in what follows the request line: header
/// lines up to the first empty line, then the body.
pub open spec fn head_of(s: Seq<char>) -> (Seq<(Seq<char>, Seq<char>)>, Seq<char>)
    decreases s.len(),
{
    let k = find2(s, '\r', '\n');
    if k == 0 {
        (
            Seq::empty(),
            if k < s.len() {
                s.skip(k + 2)
            } else {
                Seq::empty()
            },
        )
    } else {
        let rest = if 0 < k && k + 2 <= s.len() {
            head_of(s.skip(k + 2))
        } else {
            (Seq::empty(), Seq::empty())
        };
        (
            match header_of(s.take(k)) {
                Some(h) => seq![h] + rest.0,
                None => rest.0,
            },
            rest.1,
        )
    }
}

/// What a text is as a request.
///
/// The request line ends at the first line end.  Its first word is the
/// method, its second the path with the query; what follows the first
/// `?` of that word is the query.  Then come the headers and the body.
pub open spec fn parsed(raw: Seq<char>) -> Result<RequestView, ParseError> {
    let line = raw.take(find2(raw, '\r', '\n'));
    match first_word(line) {
        None => Err(ParseError::NoMethod),
        Some(method_word) => match first_word(after_first_word(line)) {
            None => Err(ParseError::NoPath),
            Some(target) => match method_of(method_word) {
                None => Err(ParseError::UnknownMethod),
                Some(method) => {
                    let head = if find2(raw, '\r', '\n') < raw.len() {
                        head_of(raw.skip(find2(raw, '\r', '\n') + 2))
                    } else {
                        (Seq::empty(), Seq::empty())
                    };
                    Ok(
                        RequestView {
                            method,
                            path: target.take(find(target, '?')),
                            query_params: if find(target, '?') < target.len() {
                                params_of(target.skip(find(target, '?') + 1))
                            } else {
                                Seq::empty()
                            },
                            headers: head.0,
                            body: head.1,
                        },
                    )
                },
            },
        },
    }
}

/// The first word of `s` at or after `from`, as the positions where it
/// begins and ends; `None` when only white space is left.
pub fn next_word(s: &Vec<char>, from: usize) -> (r: Option<(usize, usize)>)
    requires
        from <= s.len(),
    ensures
        r is Some == first_word(s@.skip(from as int)) is Some,
        r is Some ==> {
            let (begin, end) = r->Some_0;
            &&& from <= begin < end <= s.len()
            &&& first_word(s@.skip(from as int)) == Some(s@.subrange(begin as int, end as int))
            &&& after_first_word(s@.skip(from as int)) == s@.skip(end as int)
        },
{
    let mut begin: usize = from;
    while begin < s.len() && space(s[begin])
        invariant
            from <= begin <= s.len(),
            strip_front(s@.skip(from as int)) == strip_front(s@.skip(begin as int)),
        decreases s.len() - begin,
    {
        assert(s@.skip(begin as int)[0] == s@[begin as int]);
        assert(s@.skip(begin as int).drop_first() == s@.skip(begin + 1));
        begin = begin + 1;
    }
    proof {
        if begin < s.len() {
            assert(s@.skip(begin as int)[0] == s@[begin as int]);
        }
        assert(strip_front(s@.skip(from as int)) == s@.skip(begin as int));
    }
    if begin >= s.len() {
        return None;
    }
    let mut end: usize = begin;
    while end < s.len() && !space(s[end])
        invariant
            begin <= end <= s.len(),
            begin + word_len(s@.skip(begin as int)) == end + word_len(s@.skip(end as int)),
        decreases s.len() - end,
    {
        assert(s@.skip(end as int)[0] == s@[end as int]);
        assert(s@.skip(end as int).drop_first() == s@.skip(end + 1));
        end = end + 1;
    }
    proof {
        if end < s.len() {
            assert(s@.skip(end as int)[0] == s@[end as int]);
        }
        assert(s@.skip(begin as int)[0] == s@[begin as int]);
        let t = s@.skip(begin as int);
        assert(word_len(t) == end - begin);
        assert(t.take(end - begin) == s@.subrange(begin as int, end as int));
        assert(t.skip(end - begin) == s@.skip(end as int));
    }
    Some((begin, end))
}

fn method_named(word: &Vec<char>) -> (m: Option<Method>)
    ensures
        m == method_of(word@),
{
    let get = chars_of("GET");
    let post = chars_of("POST");
    let options = chars_of("OPTIONS");
    if chars_eq(word, &get) {
        Some(Method::GET)
    } else if chars_eq(word, &post) {
        Some(Method::POST)
    } else if chars_eq(word, &options) {
        Some(Method::OPTIONS)
    } else {
        None
    }
}

/// The headers in `s` from `from` on, and where the body begins.
fn parse_head(s: &Vec<char>, from: usize) -> (r: (Vec<Pair>, usize))
    requires
        from <= s.len(),
    ensures
        r.1 <= s.len(),
        pairs_texts(r.0@) == head_of(s@.skip(from as int)).0,
        s@.skip(r.1 as int) == head_of(s@.skip(from as int)).1,
{
    let mut headers: Vec<Pair> = Vec::new();
    let mut pos: usize = from;
    let mut body_at: usize = s.len();
    let mut done = false;
    assert(pairs_texts(headers@) == Seq::<(Seq<char>, Seq<char>)>::empty());
    assert(pairs_texts(headers@) + head_of(s@.skip(from as int)).0 == head_of(
        s@.skip(from as int),
    ).0);
    while !done
        invariant
            from <= pos <= s.len(),
            body_at <= s.len(),
            !done ==> head_of(s@.skip(from as int)).0 == pairs_texts(headers@) + head_of(
                s@.skip(pos as int),
            ).0,
            !done ==> head_of(s@.skip(from as int)).1 == head_of(s@.skip(pos as int)).1,
            done ==> head_of(s@.skip(from as int)).0 == pairs_texts(headers@),
            done ==> head_of(s@.skip(from as int)).1 == s@.skip(body_at as int),
        decreases s.len() - pos + if done { 0int } else { 1int },
    {
        let ghost rest = s@.skip(pos as int);
        let ghost before = headers@;
        let end = find2_from(s, '\r', '\n', pos);
        proof {
            find2_is_first(rest, '\r', '\n');
            let k = find2(rest, '\r', '\n');
            assert(rest.take(k) == s@.subrange(pos as int, end as int));
            if end < s.len() {
                assert(rest.skip(k + 2) == s@.skip(end + 2));
            }
        }
        if end == pos {
            // An empty line ends the headers.
            if end < s.len() {
                body_at = end + 2;
            } else {
                body_at = s.len();
                assert(s@.skip(s.len() as int) == Seq::<char>::empty());
            }
            done = true;
            proof {
                assert(pairs_texts(before) + Seq::<(Seq<char>, Seq<char>)>::empty() == pairs_texts(
                    before,
                ));
            }
        } else {
            let line = piece(s, pos, end);
            let colon = find2_from(&line, ':', ' ', 0);
            proof {
                assert(line@.skip(0) == line@);
                find2_is_first(line@, ':', ' ');
            }
            if colon < line.len() {
                let name = lower(piece_text(&line, 0, colon).as_str());
                let value = piece_text(&line, colon + 2, line.len());
                headers.push(Pair { name, value });
                proof {
                    assert(line@.subrange(0, colon as int) == line@.take(colon as int));
                    assert(line@.subrange(colon + 2, line.len() as int) == line@.skip(colon + 2));
                    let h = header_of(line@)->Some_0;
                    assert(pairs_texts(headers@) == pairs_texts(before).push(h));
                    let tail = if end < s.len() {
                        head_of(s@.skip(end + 2)).0
                    } else {
                        Seq::empty()
                    };
                    assert(pairs_texts(before) + (seq![h] + tail) == pairs_texts(before).push(h)
                        + tail);
                }
            }
            if end < s.len() {
                pos = end + 2;
            } else {
                body_at = s.len();
                done = true;
                proof {
                    assert(s@.skip(s.len() as int) == Seq::<char>::empty());
                    assert(pairs_texts(headers@) + Seq::<(Seq<char>, Seq<char>)>::empty()
                        == pairs_texts(headers@));
                }
            }
        }
    }
    (headers, body_at)
}

impl HttpRequest {
    /// Reads a request from its text.
    pub fn parse(raw: &str) -> (r: Result<Self, ParseError>)
        ensures
            match parsed(raw@) {
                Ok(request) => r is Ok && r->Ok_0@ == request,
                Err(e) => r == Err::<Self, ParseError>(e),
            },
    {
        let chars = chars_of(raw);
        let line_end = find2_from(&chars, '\r', '\n', 0);
        proof {
            assert(chars@.skip(0) == chars@);
            find2_is_first(chars@, '\r', '\n');
        }
        let line = piece(&chars, 0, line_end);
        assert(line@ == raw@.take(find2(raw@, '\r', '\n')));
        assert(line@.skip(0) == line@);
        let (m_begin, m_end) = match next_word(&line, 0) {
            Some(word) => word,
            None => {
                return Err(ParseError::NoMethod);
            },
        };
        let (t_begin, t_end) = match next_word(&line, m_end) {
            Some(word) => word,
            None => {
                return Err(ParseError::NoPath);
            },
        };
        let method_word = piece(&line, m_begin, m_end);
        let method = match method_named(&method_word) {
            Some(method) => method,
            None => {
                return Err(ParseError::UnknownMethod);
            },
        };
        let target = piece(&line, t_begin, t_end);
        let (path, query_params) = Self::parse_path_and_query_chars(&target);
        let (headers, body) = if line_end < chars.len() {
            let (headers, body_at) = parse_head(&chars, line_end + 2);
            let body = piece_text(&chars, body_at, chars.len());
            assert(chars@.subrange(body_at as int, chars.len() as int) == chars@.skip(
                body_at as int,
            ));
            (headers, body)
        } else {
            let headers: Vec<Pair> = Vec::new();
            assert(pairs_texts(headers@) == Seq::<(Seq<char>, Seq<char>)>::empty());
            (headers, String::new())
        };
        Ok(HttpRequest { method, path, query_params, headers, body })
    }

    fn parse_path_and_query_chars(target: &Vec<char>) -> (r: (String, Vec<Pair>))
        ensures
            r.0@ == target@.take(find(target@, '?')),
            pairs_texts(r.1@) == (if find(target@, '?') < target@.len() {
                params_of(target@.skip(find(target@, '?') + 1))
            } else {
                Seq::empty()
            }),
    {
        let mark = find_from(target, '?', 0);
        proof {
            assert(target@.skip(0) == target@);
            find_is_first(target@, '?');
            assert(target@.subrange(0, mark as int) == target@.take(mark as int));
        }
        let path = piece_text(target, 0, mark);
        if mark < target.len() {
            let query = piece(target, mark + 1, target.len());
            assert(query@ == target@.skip(mark + 1));
            (path, parse_params(&query))
        } else {
            let none: Vec<Pair> = Vec::new();
            assert(pairs_texts(none@) == Seq::<(Seq<char>, Seq<char>)>::empty());
            (path, none)
        }
    }

    /// Cuts the target of a request into path and query parameters:
    /// `/room/join?room_id=123` gives `/room/join` and `room_id` = `123`.
    pub fn parse_path_and_query(full_path: &str) -> (r: (String, Vec<Pair>))
        ensures
            r.0@ == full_path@.take(find(full_path@, '?')),
            pairs_texts(r.1@) == (if find(full_path@, '?') < full_path@.len() {
                params_of(full_path@.skip(find(full_path@, '?') + 1))
            } else {
                Seq::empty()
            }),
    {
        let target = chars_of(full_path);
        Self::parse_path_and_query_chars(&target)
    }

    /// The value of a query parameter.
    pub fn query(&self, key: &str) -> (value: Option<&String>)
        ensures
            value is Some == lookup(self@.query_params, key@) is Some,
            value is Some ==> value->Some_0@ == lookup(self@.query_params, key@)->Some_0,
    {
        get(&self.query_params, key)
    }

    /// The value of the header whose name, in lower case, is
    /// `lowered_key`.
    pub fn header_named(&self, lowered_key: &str) -> (value: Option<&String>)
        ensures
            value is Some == lookup(self@.headers, lowered_key@) is Some,
            value is Some ==> value->Some_0@ == lookup(self@.headers, lowered_key@)->Some_0,
    {
        get(&self.headers, lowered_key)
    }

    /// The value of a header; upper and lower case in its name do not
    /// matter.
    pub fn header(&self, key: &str) -> (value: Option<&String>)
        ensures
            value is Some == lookup(self@.headers, lowercased(key@)) is Some,
            value is Some ==> value->Some_0@ == lookup(self@.headers, lowercased(key@))->Some_0,
    {
        let lowered = lower(key);
        self.header_named(lowered.as_str())
    }
}

/// Builds responses.
pub struct HttpResponse;

/// The number of bytes that a text takes on the wire.
pub open spec fn wire_len(body: Seq<char>) -> nat {
    vstd::utf8::encode_utf8(body).len()
}

/// The text of a response with the given status line, content type and
/// body.
pub open spec fn response_text(status: Seq<char>, content_type: Seq<char>, body: Seq<char>) -> Seq<
    char,
> {
    "HTTP/1.1 "@ + status + "\r\nContent-Type: "@ + content_type + "\r\nContent-Length: "@
        + decimal_digits(wire_len(body))
        + "\r\nAccess-Control-Allow-Origin: *\r\nConnection: close\r\n\r\n"@ + body
}

impl HttpResponse {
    /// A response with the given status, content type and body.  The
    /// response tells the length of the body in bytes, allows every
    /// origin, and closes the connection.
    pub fn build(status: &str, content_type: &str, body: &str) -> (s: String)
        ensures
            s@ == response_text(status@, content_type@, body@),
    {
        let mut s = String::from_str("HTTP/1.1 ");
        s.append(status);
        s.append("\r\nContent-Type: ");
        s.append(content_type);
        s.append("\r\nContent-Length: ");
        let length = body.as_bytes().len();
        s.append(decimal(length as u64).as_str());
        s.append("\r\nAccess-Control-Allow-Origin: *\r\nConnection: close\r\n\r\n");
        s.append(body);
        s
    }

    /// 200 OK.
    pub fn ok(body: &str, content_type: &str) -> (s: String)
        ensures
            s@ == response_text("200 OK"@, content_type@, body@),
    {
        Self::build("200 OK", content_type, body)
    }

    /// 404 Not Found.
    pub fn not_found() -> (s: String)
        ensures
            s@ == response_text("404 Not Found"@, "text/plain"@, "Not Found"@),
    {
        Self::build("404 Not Found", "text/plain", "Not Found")
    }

    /// 400 Bad Request.
    pub fn bad_request(message: &str) -> (s: String)
        ensures
            s@ == response_text("400 Bad Request"@, "text/plain"@, message@),
    {
        Self::build("400 Bad Request", "text/plain", message)
    }

    /// 403 Forbidden.
    pub fn forbidden(message: &str) -> (s: String)
        ensures
            s@ == response_text("403 Forbidden"@, "text/plain"@, message@),
    {
        Self::build("403 Forbidden", "text/plain", message)
    }

    /// 404 Not Found, with a message of its own.
    pub fn missing(message: &str) -> (s: String)
        ensures
            s@ == response_text("404 Not Found"@, "text/plain"@, message@),
    {
        Self::build("404 Not Found", "text/plain", message)
    }

    /// 500 Internal Server Error.
    pub fn server_error(message: &str) -> (s: String)
        ensures
            s@ == response_text("500 Internal Server Error"@, "text/plain"@, message@),
    {
        Self::build("500 Internal Server Error", "text/plain", message)
    }

    /// The head of a stream of events: the connection stays open.
    pub fn sse_header() -> (s: String)
        ensures
            s@ == "HTTP/1.1 200 OK\r\nContent-Type: text/event-stream\r\nCache-Control: no-cache\r\nConnection: keep-alive\r\nAccess-Control-Allow-Origin: *\r\n\r\n"@,
    {
        String::from_str(
            "HTTP/1.1 200 OK\r\nContent-Type: text/event-stream\r\nCache-Control: no-cache\r\nConnection: keep-alive\r\nAccess-Control-Allow-Origin: *\r\n\r\n",
        )
    }

    /// The answer to the question a browser asks before a request
    /// across origins.
    pub fn cors_preflight() -> (s: String)
        ensures
            s@ == "HTTP/1.1 200 OK\r\nAccess-Control-Allow-Origin: *\r\nAccess-Control-Allow-Methods: GET, POST, OPTIONS\r\nAccess-Control-Allow-Headers: Content-Type\r\nContent-Length: 0\r\n\r\n"@,
    {
        String::from_str(
            "HTTP/1.1 200 OK\r\nAccess-Control-Allow-Origin: *\r\nAccess-Control-Allow-Methods: GET, POST, OPTIONS\r\nAccess-Control-Allow-Headers: Content-Type\r\nContent-Length: 0\r\n\r\n",
        )
    }
}

} // verus!
