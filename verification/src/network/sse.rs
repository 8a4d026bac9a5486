//! Events for the clients: the frame of an event on a stream of
//! server-sent events, and the text of a typed event.

use crate::text::{chars_of, push_char};
use vstd::prelude::*;
use vstd::string::StringExecFns;

verus! {

/// The text `s` with `"data: "` put after every line feed.
pub open spec fn continued(s: Seq<char>) -> Seq<char>
    decreases s.len(),
{
    if s.len() == 0 {
        Seq::empty()
    } else if s.last() == '\n' {
        continued(s.drop_last()) + "\ndata: "@
    } else {
        continued(s.drop_last()).push(s.last())
    }
}

/// The frame of a message on an event stream: every line of the message
/// is a `data:` line, and an empty line ends the event.
pub open spec fn framed(message: Seq<char>) -> Seq<char> {
    "data: "@ + continued(message) + "\n\n"@
}

/// Puts a message into the frame of an event stream: `data: ` before
/// the message and after every line feed in it, and an empty line at
/// the end.
pub fn sse_frame(message: &str) -> (frame: String)
    ensures
        frame@ == framed(message@),
{
    let chars = chars_of(message);
    let mut frame = String::from_str("data: ");
    let mut i: usize = 0;
    assert(continued(chars@.take(0)) == Seq::<char>::empty());
    assert("data: "@ + Seq::<char>::empty() == "data: "@);
    while i < chars.len()
        invariant
            i <= chars.len(),
            frame@ == "data: "@ + continued(chars@.take(i as int)),
        decreases chars.len() - i,
    {
        proof {
            assert(chars@.take(i + 1).drop_last() == chars@.take(i as int));
            assert(chars@.take(i + 1).last() == chars@[i as int]);
        }
        let ghost so_far = continued(chars@.take(i as int));
        if chars[i] == '\n' {
            frame.append("\ndata: ");
            assert(("data: "@ + so_far) + "\ndata: "@ == "data: "@ + (so_far + "\ndata: "@));
        } else {
            push_char(&mut frame, chars[i]);
            assert(("data: "@ + so_far).push(chars@[i as int]) == "data: "@ + so_far.push(
                chars@[i as int],
            ));
        }
        i = i + 1;
    }
    assert(chars@.take(chars.len() as int) == chars@);
    frame.append("\n\n");
    frame
}

/// The text of an event of the given type with the given data.
pub open spec fn event_text(event_type: Seq<char>, data: Seq<char>) -> Seq<char> {
    "{\"type\":\""@ + event_type + "\",\"data\":\""@ + data + "\"}"@
}

/// An event as a JSON object with its type and its data.  Type and
/// data are put between quotes as they are.
pub fn format_event(event_type: &str, data: &str) -> (s: String)
    ensures
        s@ == event_text(event_type@, data@),
{
    let mut s = String::from_str("{\"type\":\"");
    s.append(event_type);
    s.append("\",\"data\":\"");
    s.append(data);
    s.append("\"}");
    s
}

} // verus!
