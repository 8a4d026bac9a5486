//! The chat beside the game: what a client posts, and the mark that
//! tells the clients to clear their chat.

use crate::network::http::{first_word, next_word};
use crate::network::scan::{find, find_from, find_is_first, piece, piece_text};
use crate::text::{chars_of, push_char, space, strip_back, strip_front, trimmed};
use vstd::prelude::*;
use vstd::string::StringExecFns;

verus! {

/// A message that a client posts to the chat.
#[derive(Debug, PartialEq, Eq)]
pub struct ChatMessage {
    pub msg: String,
}

impl Clone for ChatMessage {
    fn clone(&self) -> (m: ChatMessage)
        ensures
            m == *self,
    {
        ChatMessage { msg: self.msg.clone() }
    }
}

/// What goes out to the clients for a posted message, or for the
/// clearing of the chat after a reset.
#[derive(Debug, PartialEq, Eq)]
pub enum ChatEvent {
    /// A line of chat.
    Line(String),
    /// The chat is to be emptied.
    Clear,
}

/// The text of the mark that empties the chat.
pub open spec fn clear_mark() -> Seq<char> {
    "__CLEAR__"@
}

impl ChatMessage {
    /// The text that goes out to the clients for this message: the
    /// message as it is.
    pub fn payload(&self) -> (text: String)
        ensures
            text@ == self.msg@,
    {
        self.msg.clone()
    }
}

impl ChatEvent {
    /// The text that goes out to the clients for this event.
    pub fn payload(&self) -> (text: String)
        ensures
            text@ == (match *self {
                ChatEvent::Line(line) => line@,
                ChatEvent::Clear => clear_mark(),
            }),
    {
        match self {
            ChatEvent::Line(line) => line.clone(),
            ChatEvent::Clear => String::from_str("__CLEAR__"),
        }
    }

    /// The event that a text from the chat channel stands for.
    pub fn read(text: &str) -> (event: ChatEvent)
        ensures
            text@ == clear_mark() ==> event == ChatEvent::Clear,
            text@ != clear_mark() ==> (event matches ChatEvent::Line(line) && line@ == text@),
    {
        if crate::text::text_eq(text, "__CLEAR__") {
            ChatEvent::Clear
        } else {
            ChatEvent::Line(text.to_string())
        }
    }
}

/// Whether `s` begins with `head`.
pub open spec fn begins_with(s: Seq<char>, head: Seq<char>) -> bool {
    s.len() >= head.len() && s.take(head.len() as int) == head
}

/// The position of the first place in `s` where `pattern` stands, or
/// the length of `s` if it stands nowhere.
pub open spec fn find_sub(s: Seq<char>, pattern: Seq<char>) -> int
    decreases s.len(),
{
    if s.len() < pattern.len() || s.len() == 0 {
        s.len() as int
    } else if s.take(pattern.len() as int) == pattern {
        0
    } else {
        1 + find_sub(s.drop_first(), pattern)
    }
}

/// `find_sub` stays within the text, and where it finds the pattern the
/// pattern fits.
pub proof fn find_sub_bounded(s: Seq<char>, pattern: Seq<char>)
    ensures
        0 <= find_sub(s, pattern) <= s.len(),
        find_sub(s, pattern) < s.len() ==> find_sub(s, pattern) + pattern.len() <= s.len(),
    decreases s.len(),
{
    if s.len() >= pattern.len() && s.len() > 0 && s.take(pattern.len() as int) != pattern {
        find_sub_bounded(s.drop_first(), pattern);
    }
}

/// What follows the last place in `s` where `pattern` stands; all of
/// `s` if it stands nowhere.
pub open spec fn after_last(s: Seq<char>, pattern: Seq<char>) -> Seq<char>
    decreases s.len(),
{
    let k = find_sub(s, pattern);
    if pattern.len() > 0 && 0 <= k && k + pattern.len() <= s.len() && k < s.len() {
        after_last(s.skip(k + pattern.len()), pattern)
    } else {
        s
    }
}

/// The text `s` with every carriage return that is followed by a line
/// feed left out.
pub open spec fn unix_lines(s: Seq<char>) -> Seq<char>
    decreases s.len(),
{
    if s.len() == 0 {
        Seq::empty()
    } else if s.len() >= 2 && s[0] == '\r' && s[1] == '\n' {
        unix_lines(s.drop_first())
    } else {
        seq![s[0]] + unix_lines(s.drop_first())
    }
}

/// The first line of `s`: what stands before the first line feed,
/// without a carriage return at its end.
pub open spec fn first_line(s: Seq<char>) -> Seq<char> {
    let line = s.take(find(s, '\n'));
    if line.len() > 0 && line.last() == '\r' {
        line.drop_last()
    } else {
        line
    }
}

/// What a client of the chat room asks for.
#[derive(Debug, PartialEq, Eq)]
pub enum ChatRequest {
    /// The events of the room, under the id given, if one is given.
    Events { client_id: Option<String> },
    /// To say `message` as the client `sender`.
    Send { sender: String, message: String },
    /// To say nothing: a post without an id or without a message.
    SendNothing,
    /// The page of the chat room.
    Page,
}

/// What a client of the chat room asks for, with texts in place of
/// strings.
pub enum ChatRequestView {
    Events { client_id: Option<Seq<char>> },
    Send { sender: Seq<char>, message: Seq<char> },
    SendNothing,
    Page,
}

impl View for ChatRequest {
    type V = ChatRequestView;

    open spec fn view(&self) -> ChatRequestView {
        match *self {
            ChatRequest::Events { client_id } => ChatRequestView::Events {
                client_id: match client_id {
                    Some(id) => Some(id@),
                    None => None,
                },
            },
            ChatRequest::Send { sender, message } => ChatRequestView::Send {
                sender: sender@,
                message: message@,
            },
            ChatRequest::SendNothing => ChatRequestView::SendNothing,
            ChatRequest::Page => ChatRequestView::Page,
        }
    }
}

/// The id that a request line gives for the client: the word after
/// `?id=`, or `unknown` if no word follows; none if the line has no
/// `?id=`.
pub open spec fn id_given(line: Seq<char>) -> Option<Seq<char>> {
    let k = find_sub(line, "?id="@);
    if k < line.len() {
        match first_word(line.skip(k + 4)) {
            Some(word) => Some(word),
            None => Some("unknown"@),
        }
    } else {
        None
    }
}

/// What a post says: the body is what follows the last empty line,
/// without the white space around it; its first line is the id of the
/// sender, the lines after it are the message.
pub open spec fn said(request: Seq<char>) -> ChatRequestView {
    let body = trimmed(after_last(request, "\r\n\r\n"@));
    let k = find(body, '\n');
    let sender = trimmed(body.take(k));
    let message = if k < body.len() {
        unix_lines(body.skip(k + 1))
    } else {
        Seq::empty()
    };
    if sender.len() == 0 || message.len() == 0 {
        ChatRequestView::SendNothing
    } else {
        ChatRequestView::Send { sender, message }
    }
}

/// What a request to the chat room asks for, judged by its first line.
pub open spec fn chat_request(request: Seq<char>) -> ChatRequestView {
    let line = first_line(request);
    if begins_with(line, "GET /events"@) {
        ChatRequestView::Events { client_id: id_given(line) }
    } else if begins_with(line, "POST /send"@) {
        said(request)
    } else {
        ChatRequestView::Page
    }
}

fn begins(s: &Vec<char>, head: &Vec<char>, at: usize) -> (b: bool)
    requires
        at <= s.len(),
    ensures
        b == begins_with(s@.skip(at as int), head@),
{
    if s.len() - at < head.len() {
        return false;
    }
    let mut i: usize = 0;
    while i < head.len()
        invariant
            i <= head.len(),
            at + head.len() <= s.len(),
            forall|j: int| 0 <= j < i ==> s@[at + j] == head@[j],
        decreases head.len() - i,
    {
        if s[at + i] != head[i] {
            proof {
                let taken = s@.skip(at as int).take(head.len() as int);
                assert(taken[i as int] == s@[at + i]);
            }
            return false;
        }
        i = i + 1;
    }
    proof {
        let taken = s@.skip(at as int).take(head.len() as int);
        assert(taken =~= head@) by {
            assert forall|j: int| 0 <= j < head.len() implies taken[j] == head@[j] by {
                assert(taken[j] == s@[at + j]);
            }
        }
    }
    true
}

/// The position of the first place in `s` at or after `from` where
/// `pattern` stands, or the length of `s` if it stands nowhere.
fn find_sub_from(s: &Vec<char>, pattern: &Vec<char>, from: usize) -> (at: usize)
    requires
        from <= s.len(),
    ensures
        from <= at <= s.len(),
        at == from + find_sub(s@.skip(from as int), pattern@),
{
    let mut at: usize = from;
    loop
        invariant
            from <= at <= s.len(),
            from + find_sub(s@.skip(from as int), pattern@) == at + find_sub(
                s@.skip(at as int),
                pattern@,
            ),
        decreases s.len() - at,
    {
        if s.len() - at < pattern.len() {
            return s.len();
        }
        if begins(s, pattern, at) {
            return at;
        }
        proof {
            // A pattern that does not stand here is not empty, so the
            // text goes on.
            if at == s.len() {
                assert(s@.skip(at as int).take(pattern.len() as int) =~= pattern@);
            }
            assert(s@.skip(at as int).drop_first() == s@.skip(at + 1));
        }
        at = at + 1;
    }
}

fn rest_after_last(s: &Vec<char>, pattern: &Vec<char>) -> (from: usize)
    requires
        pattern.len() > 0,
    ensures
        from <= s.len(),
        s@.skip(from as int) == after_last(s@, pattern@),
{
    let mut from: usize = 0;
    assert(s@.skip(0) == s@);
    loop
        invariant
            from <= s.len(),
            pattern.len() > 0,
            after_last(s@, pattern@) == after_last(s@.skip(from as int), pattern@),
        decreases s.len() - from,
    {
        let at = find_sub_from(s, pattern, from);
        proof {
            find_sub_bounded(s@.skip(from as int), pattern@);
        }
        if at >= s.len() {
            return from;
        }
        proof {
            assert(s@.skip(from as int).skip(at - from + pattern.len()) == s@.skip(
                at + pattern.len(),
            ));
        }
        from = at + pattern.len();
    }
}

/// The part of `s` between `from` and `to` without the white space
/// around it, as the positions where it begins and ends.
fn trim_between(s: &Vec<char>, from: usize, to: usize) -> (r: (usize, usize))
    requires
        from <= to <= s.len(),
    ensures
        from <= r.0 <= r.1 <= to,
        s@.subrange(r.0 as int, r.1 as int) == trimmed(s@.subrange(from as int, to as int)),
{
    let ghost part = s@.subrange(from as int, to as int);
    let mut begin: usize = from;
    assert(part.skip(0) == part);
    while begin < to && space(s[begin])
        invariant
            from <= begin <= to <= s.len(),
            part == s@.subrange(from as int, to as int),
            strip_front(part) == strip_front(part.skip(begin - from)),
        decreases to - begin,
    {
        assert(part.skip(begin - from)[0] == s@[begin as int]);
        assert(part.skip(begin - from).drop_first() == part.skip(begin + 1 - from));
        begin = begin + 1;
    }
    proof {
        if begin < to {
            assert(part.skip(begin - from)[0] == s@[begin as int]);
        }
        assert(strip_front(part) == part.skip(begin - from));
        assert(part.skip(begin - from) == s@.subrange(begin as int, to as int));
    }
    let mut end: usize = to;
    while end > begin && space(s[end - 1])
        invariant
            begin <= end <= to <= s.len(),
            trimmed(part) == strip_back(s@.subrange(begin as int, end as int)),
        decreases end,
    {
        assert(s@.subrange(begin as int, end as int).last() == s@[end - 1]);
        assert(s@.subrange(begin as int, end as int).drop_last() == s@.subrange(
            begin as int,
            end - 1,
        ));
        end = end - 1;
    }
    proof {
        if end > begin {
            assert(s@.subrange(begin as int, end as int).last() == s@[end - 1]);
        }
    }
    (begin, end)
}

fn unix(s: &Vec<char>, from: usize, to: usize) -> (text: String)
    requires
        from <= to <= s.len(),
    ensures
        text@ == unix_lines(s@.subrange(from as int, to as int)),
{
    let ghost part = s@.subrange(from as int, to as int);
    let mut text = String::new();
    let mut i: usize = from;
    assert(part.skip(0) == part);
    assert(Seq::<char>::empty() + unix_lines(part) == unix_lines(part));
    while i < to
        invariant
            from <= i <= to <= s.len(),
            part == s@.subrange(from as int, to as int),
            unix_lines(part) == text@ + unix_lines(part.skip(i - from)),
        decreases to - i,
    {
        let ghost rest = part.skip(i - from);
        let ghost before = text@;
        proof {
            assert(rest[0] == s@[i as int]);
            if i + 1 < to {
                assert(rest[1] == s@[i + 1]);
            }
            assert(rest.drop_first() == part.skip(i + 1 - from));
        }
        if s[i] == '\r' && i + 1 < to && s[i + 1] == '\n' {
        } else {
            push_char(&mut text, s[i]);
            assert(before + (seq![s@[i as int]] + unix_lines(rest.drop_first())) == before.push(
                s@[i as int],
            ) + unix_lines(rest.drop_first()));
        }
        i = i + 1;
    }
    proof {
        assert(part.skip(to - from) == Seq::<char>::empty());
        assert(text@ + Seq::<char>::empty() == text@);
    }
    text
}

/// Reads what a client of the chat room asks for.
pub fn read_chat_request(request: &str) -> (asked: ChatRequest)
    ensures
        asked@ == chat_request(request@),
{
    let chars = chars_of(request);
    let line_feed = find_from(&chars, '\n', 0);
    proof {
        assert(chars@.skip(0) == chars@);
        find_is_first(chars@, '\n');
        assert(chars@.subrange(0, line_feed as int) == chars@.take(line_feed as int));
    }
    let line_end = if line_feed > 0 && chars[line_feed - 1] == '\r' {
        line_feed - 1
    } else {
        line_feed
    };
    let line = piece(&chars, 0, line_end);
    proof {
        let whole = chars@.take(line_feed as int);
        if line_feed > 0 {
            assert(whole.last() == chars@[line_feed - 1]);
            assert(whole.drop_last() == chars@.subrange(0, line_feed - 1));
        }
        assert(line@ == first_line(request@));
        assert(line@.skip(0) == line@);
    }
    let events = chars_of("GET /events");
    let send = chars_of("POST /send");
    if begins(&line, &events, 0) {
        let mark = chars_of("?id=");
        proof {
            reveal_strlit("?id=");
        }
        let at = find_sub_from(&line, &mark, 0);
        proof {
            find_sub_bounded(line@, mark@);
        }
        if at < line.len() {
            let client_id = match next_word(&line, at + 4) {
                Some((begin, end)) => piece_text(&line, begin, end),
                None => String::from_str("unknown"),
            };
            ChatRequest::Events { client_id: Some(client_id) }
        } else {
            ChatRequest::Events { client_id: None }
        }
    } else if begins(&line, &send, 0) {
        let gap = chars_of("\r\n\r\n");
        proof {
            reveal_strlit("\r\n\r\n");
        }
        let body_from = rest_after_last(&chars, &gap);
        let (begin, end) = trim_between(&chars, body_from, chars.len());
        let body = piece(&chars, begin, end);
        proof {
            assert(chars@.subrange(body_from as int, chars.len() as int) == chars@.skip(
                body_from as int,
            ));
            assert(body@ == trimmed(after_last(request@, "\r\n\r\n"@)));
            assert(body@.skip(0) == body@);
            find_is_first(body@, '\n');
        }
        let cut = find_from(&body, '\n', 0);
        let (id_begin, id_end) = trim_between(&body, 0, cut);
        proof {
            assert(body@.subrange(0, cut as int) == body@.take(cut as int));
        }
        if id_begin == id_end || cut >= body.len() {
            proof {
                if cut < body.len() {
                    assert(body@.subrange(id_begin as int, id_end as int).len() == 0);
                }
            }
            return ChatRequest::SendNothing;
        }
        let message = unix(&body, cut + 1, body.len());
        proof {
            assert(body@.subrange(cut + 1, body.len() as int) == body@.skip(cut + 1));
        }
        if message.as_str().unicode_len() == 0 {
            return ChatRequest::SendNothing;
        }
        let sender = piece_text(&body, id_begin, id_end);
        ChatRequest::Send { sender, message }
    } else {
        ChatRequest::Page
    }
}

/// Whether `pattern` stands in `s` at the position `k`.
pub open spec fn stands_at(s: Seq<char>, pattern: Seq<char>, k: int) -> bool {
    0 <= k && k + pattern.len() <= s.len() && s.subrange(k, k + pattern.len()) == pattern
}

/// Whether `pattern` stands somewhere in `s`.
pub open spec fn stands_in(s: Seq<char>, pattern: Seq<char>) -> bool {
    exists|k: int| #[trigger] stands_at(s, pattern, k)
}

/// A pattern that is not empty stands in a text exactly where `find_sub`
/// finds it, and nowhere before that.
pub proof fn find_sub_finds(s: Seq<char>, pattern: Seq<char>)
    requires
        pattern.len() > 0,
    ensures
        stands_in(s, pattern) <==> find_sub(s, pattern) < s.len(),
        find_sub(s, pattern) < s.len() ==> stands_at(s, pattern, find_sub(s, pattern)),
        forall|k: int| 0 <= k < find_sub(s, pattern) ==> !stands_at(s, pattern, k),
    decreases s.len(),
{
    let n = pattern.len() as int;
    if s.len() < pattern.len() || s.len() == 0 {
    } else if s.take(n) == pattern {
        assert(s.subrange(0, n) == s.take(n));
        assert(stands_at(s, pattern, 0));
    } else {
        let rest = s.drop_first();
        find_sub_finds(rest, pattern);
        assert(s.subrange(0, n) == s.take(n));
        assert forall|k: int| stands_at(rest, pattern, k) == stands_at(s, pattern, k + 1) by {
            if 0 <= k && k + n <= rest.len() {
                assert(rest.subrange(k, k + n) == s.subrange(k + 1, k + 1 + n));
            }
        }
        if stands_in(s, pattern) {
            let k = choose|k: int| #[trigger] stands_at(s, pattern, k);
            assert(stands_at(rest, pattern, k - 1));
        }
        if stands_in(rest, pattern) {
            let k = choose|k: int| #[trigger] stands_at(rest, pattern, k);
            assert(stands_at(s, pattern, k + 1));
        }
        assert forall|k: int| 0 <= k < find_sub(s, pattern) implies !stands_at(s, pattern, k) by {
            if k > 0 {
                assert(stands_at(rest, pattern, k - 1) == stands_at(s, pattern, k));
            }
        }
    }
}

/// What a client of the relay asks for.
#[derive(Debug, PartialEq, Eq)]
pub enum RelayRequest {
    /// The messages that are posted from now on.
    Events,
    /// To pass `message` on to everybody who listens.
    Send { message: String },
    /// To pass nothing on: a post with an empty body.
    SendNothing,
    /// The page of the relay.
    Page,
}

/// What a client of the relay asks for, with a text in place of the
/// string.
pub enum RelayRequestView {
    Events,
    Send { message: Seq<char> },
    SendNothing,
    Page,
}

impl View for RelayRequest {
    type V = RelayRequestView;

    open spec fn view(&self) -> RelayRequestView {
        match *self {
            RelayRequest::Events => RelayRequestView::Events,
            RelayRequest::Send { message } => RelayRequestView::Send { message: message@ },
            RelayRequest::SendNothing => RelayRequestView::SendNothing,
            RelayRequest::Page => RelayRequestView::Page,
        }
    }
}

/// What a request to the relay asks for.  A request that holds
/// `GET /events` anywhere asks for the events; otherwise one that holds
/// `POST /send` posts what follows its last empty line; any other asks
/// for the page.
pub open spec fn relay_request(request: Seq<char>) -> RelayRequestView {
    if stands_in(request, "GET /events"@) {
        RelayRequestView::Events
    } else if stands_in(request, "POST /send"@) {
        let body = after_last(request, "\r\n\r\n"@);
        if body.len() == 0 {
            RelayRequestView::SendNothing
        } else {
            RelayRequestView::Send { message: body }
        }
    } else {
        RelayRequestView::Page
    }
}

/// Reads what a client of the relay asks for.
pub fn read_relay_request(request: &str) -> (asked: RelayRequest)
    ensures
        asked@ == relay_request(request@),
{
    let chars = chars_of(request);
    let events = chars_of("GET /events");
    let send = chars_of("POST /send");
    proof {
        reveal_strlit("GET /events");
        reveal_strlit("POST /send");
        assert(chars@.skip(0) == chars@);
        find_sub_finds(chars@, events@);
        find_sub_finds(chars@, send@);
    }
    if find_sub_from(&chars, &events, 0) < chars.len() {
        RelayRequest::Events
    } else if find_sub_from(&chars, &send, 0) < chars.len() {
        let gap = chars_of("\r\n\r\n");
        proof {
            reveal_strlit("\r\n\r\n");
        }
        let from = rest_after_last(&chars, &gap);
        if from == chars.len() {
            RelayRequest::SendNothing
        } else {
            proof {
                assert(chars@.subrange(from as int, chars.len() as int) == chars@.skip(from as int));
            }
            RelayRequest::Send { message: piece_text(&chars, from, chars.len()) }
        }
    } else {
        RelayRequest::Page
    }
}

} // verus!
