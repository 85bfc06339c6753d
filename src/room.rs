//! Decisions of the room commands: how a message is composed, which rooms a
//! listing shows, and how an attachment is named and typed.

use crate::error::Error;
use crate::record::option_view;
use vstd::prelude::*;

verus! {

/// The kind of message event to send.
#[derive(Clone, Copy, Debug, PartialEq, Eq, Structural)]
pub enum MessageKind {
    Text,
    Notice,
    Emote,
}

/// A notice wins over an emote; a plain text message is the default.
pub fn message_kind(notice: bool, emote: bool) -> (r: MessageKind)
    ensures
        r == (if notice {
            MessageKind::Notice
        } else if emote {
            MessageKind::Emote
        } else {
            MessageKind::Text
        }),
{
    if notice {
        MessageKind::Notice
    } else if emote {
        MessageKind::Emote
    } else {
        MessageKind::Text
    }
}

pub open spec fn fence() -> Seq<char> {
    seq!['`', '`', '`']
}

/// A message put in a code block: an opening fence tagged with the language,
/// the message, a line break unless the text already ends with one, and a
/// closing fence.
pub open spec fn fenced_spec(msg: Seq<char>, language: Seq<char>) -> Seq<char> {
    let body = fence() + language + seq!['\n'] + msg;
    if body.last() == '\n' {
        body + fence()
    } else {
        body + seq!['\n'] + fence()
    }
}

fn ends_with_line_break(s: &str) -> (r: bool)
    ensures
        r == (s@.len() > 0 && s@.last() == '\n'),
{
    let n = s.unicode_len();
    n > 0 && s.get_char(n - 1) == '\n'
}

/// Puts a message in a code block, tagged with the language if one is given.
pub fn fenced(msg: &str, language: Option<&str>) -> (r: String)
    ensures
        r@ == fenced_spec(
            msg@,
            match language {
                Some(l) => l@,
                None => Seq::<char>::empty(),
            },
        ),
{
    let mut out = String::new();
    out.append("```");
    proof {
        reveal_strlit("```");
        assert(out@ =~= fence());
    }
    match language {
        Some(l) => out.append(l),
        None => {},
    }
    out.append("\n");
    proof {
        reveal_strlit("\n");
    }
    out.append(msg);
    let ghost lang = match language {
        Some(l) => l@,
        None => Seq::<char>::empty(),
    };
    assert(out@ =~= fence() + lang + seq!['\n'] + msg@);
    if !ends_with_line_break(out.as_str()) {
        out.append("\n");
    }
    out.append("```");
    assert(out@ =~= fenced_spec(msg@, lang));
    out
}

/// The body to send and whether it is markdown. A code block is always
/// markdown; otherwise the message is sent as given.
pub fn compose(msg: String, code: Option<Option<String>>, markdown: bool) -> (r: (String, bool))
    ensures
        match code {
            Some(Some(l)) => r.0@ == fenced_spec(msg@, l@) && r.1,
            Some(None) => r.0@ == fenced_spec(msg@, Seq::<char>::empty()) && r.1,
            None => r.0@ == msg@ && r.1 == markdown,
        },
{
    match code {
        Some(Some(l)) => (fenced(msg.as_str(), Some(l.as_str())), true),
        Some(None) => (fenced(msg.as_str(), None), true),
        None => (msg, markdown),
    }
}

/// Which rooms a listing asks for.
#[derive(Clone, Copy, Debug, PartialEq, Eq, Structural)]
pub enum RoomFilter {
    All,
    Joined,
    Invited,
    Left,
}

/// The user's membership of a room.
#[derive(Clone, Copy, Debug, PartialEq, Eq, Structural)]
pub enum Membership {
    Joined,
    Invited,
    Left,
}

pub open spec fn filter_matches(f: RoomFilter, m: Membership) -> bool {
    match f {
        RoomFilter::All => true,
        RoomFilter::Joined => m == Membership::Joined,
        RoomFilter::Invited => m == Membership::Invited,
        RoomFilter::Left => m == Membership::Left,
    }
}

/// A room is listed when any of the requested filters matches it.
pub fn room_listed(filters: &Vec<RoomFilter>, m: Membership) -> (r: bool)
    ensures
        r == exists|i: int| 0 <= i < filters@.len() && filter_matches(#[trigger] filters@[i], m),
{
    let mut i: usize = 0;
    while i < filters.len()
        invariant
            i <= filters@.len(),
            forall|j: int| 0 <= j < i ==> !filter_matches(#[trigger] filters@[j], m),
        decreases filters@.len() - i,
    {
        let hit = match filters[i] {
            RoomFilter::All => true,
            RoomFilter::Joined => m == Membership::Joined,
            RoomFilter::Invited => m == Membership::Invited,
            RoomFilter::Left => m == Membership::Left,
        };
        if hit {
            return true;
        }
        i = i + 1;
    }
    false
}

/// What `mime_guess::from_path(p).first()` gives for a path, written out as
/// a media type.
pub uninterp spec fn guessed_mime(path: Seq<char>) -> Option<Seq<char>>;

/// What `Path::file_name` gives for a path, lossily made text.
pub uninterp spec fn file_name_of(path: Seq<char>) -> Option<Seq<char>>;

/// Relies on `mime_guess::from_path` and `MimeGuess::first`: the first media
/// type known for the path's extension, if any; it depends on the path alone.
#[verifier::external_body]
fn guess_mime(path: &str) -> (r: Option<String>)
    ensures
        option_view(r) == guessed_mime(path@),
{
    mime_guess::from_path(path).first().map(|m| m.to_string())
}

/// Relies on `std::path::Path::file_name` and `OsStr::to_string_lossy`: the
/// last component of the path, if it is a normal one.
#[verifier::external_body]
fn file_name(path: &str) -> (r: Option<String>)
    ensures
        option_view(r) == file_name_of(path@),
{
    std::path::Path::new(path).file_name().map(|n| n.to_string_lossy().into_owned())
}

/// The fallback media type.
pub open spec fn octet_stream() -> Seq<char> {
    "application/octet-stream"@
}

/// The media type of an attachment: the one given, else the one guessed
/// from the file's extension, else `application/octet-stream`.
pub fn attachment_mime(given: Option<String>, path: &str) -> (r: String)
    ensures
        r@ == match given {
            Some(m) => m@,
            None => match guessed_mime(path@) {
                Some(g) => g,
                None => octet_stream(),
            },
        },
{
    match given {
        Some(m) => m,
        None => match guess_mime(path) {
            Some(g) => g,
            None => String::from_str("application/octet-stream"),
        },
    }
}

/// The text shown for an attachment: the one given, else the file's name;
/// a path without a file name is refused.
pub fn attachment_name(given: Option<String>, path: &str) -> (r: Result<String, Error>)
    ensures
        match given {
            Some(t) => r matches Ok(n) && n@ == t@,
            None => match file_name_of(path@) {
                Some(f) => r matches Ok(n) && n@ == f,
                None => r == Err::<String, Error>(Error::InvalidFile),
            },
        },
{
    match given {
        Some(t) => Ok(t),
        None => match file_name(path) {
            Some(f) => Ok(f),
            None => Err(Error::InvalidFile),
        },
    }
}

} // verus!
