//! A stream of a broadcaster's catalogue, as it is shown for selection.

use vstd::prelude::*;
use vstd::string::StringExecFns;
use vstd::string::StrSliceExecFns;
use chrono::DateTime;
use chrono::Utc;
use crate::error::TwitchRecoverError;
use crate::streamer::ModelStream;
use crate::text::{decimal_nat, render_unsigned, views};

verus! {

/// The pieces of a text between its `|` characters. A text without one is
/// a single piece; a `|` at an end leaves an empty piece there.
pub open spec fn split_pipe(text: Seq<char>) -> Seq<Seq<char>>
    decreases text.len(),
{
    if text.len() == 0 {
        seq![Seq::empty()]
    } else {
        let front = split_pipe(text.drop_last());
        if text.last() == '|' {
            front.push(Seq::empty())
        } else {
            front.drop_last().push(front.last().push(text.last()))
        }
    }
}

/// The entries of a title: of the pieces, taken three by three, the first
/// of each complete group.
pub open spec fn title_entries(pieces: Seq<Seq<char>>) -> Seq<Seq<char>> {
    Seq::new(pieces.len() / 3, |k: int| pieces[3 * k])
}

/// A number in decimal, with a zero before a single digit.
pub open spec fn two_digits(n: nat) -> Seq<char> {
    if n < 10 {
        seq!['0'] + decimal_nat(n)
    } else {
        decimal_nat(n)
    }
}

/// A length in minutes, shown as hours and remaining minutes.
pub open spec fn minutes_text(minutes: nat) -> Seq<char> {
    two_digits(minutes / 60) + seq!['h'] + two_digits(minutes % 60) + seq!['s']
}

/// The seconds since the epoch of a start time given as text, where the
/// text is a date and time that `chrono` reads.
pub uninterp spec fn parsed_timestamp(date: Seq<char>) -> Option<i64>;

/// The same start time written out, month first, where the text is a date
/// and time that `chrono` reads.
pub uninterp spec fn parsed_date_text(date: Seq<char>) -> Option<Seq<char>>;

/// An optional text as its sequence of characters.
pub open spec fn text_view(text: Option<String>) -> Option<Seq<char>> {
    match text {
        Some(t) => Some(t@),
        None => None,
    }
}

/// Calls `DateTime::<Utc>::from_str` of the crate `chrono`, then
/// `DateTime::timestamp` on what was read. Trusted: the result is a
/// function of the text alone, which `parsed_timestamp` names; it is `None`
/// where the text cannot be read.
#[verifier::external_body]
fn start_timestamp(date: &str) -> (timestamp: Option<i64>)
    ensures
        timestamp == parsed_timestamp(date@),
{
    match <DateTime<Utc> as std::str::FromStr>::from_str(date) {
        Ok(start) => Some(start.timestamp()),
        Err(_) => None,
    }
}

/// Calls `DateTime::<Utc>::from_str` of the crate `chrono`, then
/// `DateTime::format` with `%B %d, %Y at %H:%M:%S` on what was read.
/// Trusted: the result is a function of the text alone, which
/// `parsed_date_text` names; it is `None` where the text cannot be read.
#[verifier::external_body]
fn start_date_text(date: &str) -> (text: Option<String>)
    ensures
        text_view(text) == parsed_date_text(date@),
{
    match <DateTime<Utc> as std::str::FromStr>::from_str(date) {
        Ok(start) => Some(start.format("%B %d, %Y at %H:%M:%S").to_string()),
        Err(_) => None,
    }
}

/// Splits a text at its `|` characters.
pub fn split_at_pipes(input: &str) -> (pieces: Vec<String>)
    ensures
        views(pieces@) == split_pipe(input@),
        pieces@.len() >= 1,
{
    let length = input.unicode_len();
    let mut pieces: Vec<String> = Vec::new();
    let mut start: usize = 0;
    let mut i: usize = 0;
    proof {
        assert(input@.take(0) =~= Seq::<char>::empty());
        assert(views(pieces@).push(input@.subrange(0, 0)) =~= split_pipe(input@.take(0)));
    }
    while i < length
        invariant
            length == input@.len(),
            0 <= start <= i <= length,
            views(pieces@).push(input@.subrange(start as int, i as int)) == split_pipe(
                input@.take(i as int),
            ),
        decreases length - i,
    {
        let c = input.get_char(i);
        proof {
            let before = input@.take(i as int);
            let now = input@.take(i + 1);
            assert(now.drop_last() =~= before);
            assert(now.last() == c);
            let front = split_pipe(before);
            assert(front.last() == input@.subrange(start as int, i as int));
            assert(front.drop_last() =~= views(pieces@));
            if c != '|' {
                assert(input@.subrange(start as int, i as int).push(c) =~= input@.subrange(
                    start as int,
                    i + 1,
                ));
            }
        }
        if c == '|' {
            let ghost old_pieces = pieces@;
            let ghost old_start = start;
            pieces.push(String::from_str(input.substring_char(start, i)));
            start = i + 1;
            proof {
                assert(views(pieces@) =~= views(old_pieces).push(
                    input@.subrange(old_start as int, i as int),
                ));
                assert(input@.subrange(start as int, i + 1) =~= Seq::<char>::empty());
            }
        }
        i += 1;
    }
    let ghost old_pieces = pieces@;
    pieces.push(String::from_str(input.substring_char(start, length)));
    proof {
        assert(input@.take(length as int) =~= input@);
        assert(views(pieces@) =~= views(old_pieces).push(
            input@.subrange(start as int, length as int),
        ));
    }
    pieces
}

/// Title of the stream: its entries, one for each game that was played.
#[derive(Debug)]
pub struct Title(pub Vec<String>);

impl View for Title {
    type V = Seq<Seq<char>>;

    open spec fn view(&self) -> Seq<Seq<char>> {
        views(self.0@)
    }
}

/// The text that shows a title: each entry on a line of its own.
pub open spec fn title_text(entries: Seq<Seq<char>>) -> Seq<char>
    decreases entries.len(),
{
    if entries.len() == 0 {
        Seq::empty()
    } else {
        title_text(entries.drop_last()) + "\n  📝 "@ + entries.last()
    }
}

impl Title {
    /// Try to instantiate `Title` from a text whose pieces, separated by
    /// `|`, come three by three: the first of each complete group is an
    /// entry. A text with fewer than three pieces holds no title.
    pub fn try_from(input: &str) -> (title: Result<Title, TwitchRecoverError>)
        ensures
            title is Ok <==> split_pipe(input@).len() >= 3,
            title matches Ok(t) ==> t@ == title_entries(split_pipe(input@)),
            title matches Err(e) ==> e == TwitchRecoverError::ParseStreamTitle,
    {
        let pieces = split_at_pipes(input);
        let mut output: Vec<String> = Vec::new();
        let mut i: usize = 0;
        while i < pieces.len() && pieces.len() - i > 2
            invariant
                0 <= i <= pieces@.len() + 2,
                i == 3 * output@.len(),
                output@.len() <= pieces@.len() / 3,
                forall|k: int|
                    0 <= k < output@.len() ==> (#[trigger] output@[k])@ == pieces@[3 * k]@,
            decreases pieces@.len() + 3 - i,
        {
            output.push(pieces[i].clone());
            i += 3;
        }
        if output.len() == 0 {
            return Err(TwitchRecoverError::ParseStreamTitle);
        }
        let title = Title(output);
        assert(title@ =~= title_entries(split_pipe(input@)));
        Ok(title)
    }

    /// The text that shows the title.
    pub fn to_text(&self) -> (text: String)
        ensures
            text@ == title_text(self@),
    {
        let mut text = String::new();
        let mut i: usize = 0;
        assert(self@.take(0) =~= Seq::empty());
        while i < self.0.len()
            invariant
                0 <= i <= self.0@.len(),
                text@ == title_text(self@.take(i as int)),
            decreases self.0@.len() - i,
        {
            proof {
                assert(self@.take(i + 1).drop_last() =~= self@.take(i as int));
                assert(self@.take(i + 1).last() == self.0@[i as int]@);
            }
            text.append("\n  📝 ");
            text.append(self.0[i].as_str());
            i += 1;
        }
        assert(self@.take(i as int) =~= self@);
        text
    }
}

/// Renders a number in decimal, with a zero before a single digit.
fn render_two_digits(n: u64) -> (text: String)
    ensures
        text@ == two_digits(n as nat),
{
    let digits = render_unsigned(n);
    if n < 10 {
        let mut text = String::from_str("0");
        text.append(digits.as_str());
        proof {
            reveal_strlit("0");
        }
        text
    } else {
        digits
    }
}

/// Convert minutes to hours:minutes
pub fn convert_minutes(minutes: usize) -> (text: String)
    ensures
        text@ == minutes_text(minutes as nat),
{
    let hours = render_two_digits((minutes / 60) as u64);
    let remaining = render_two_digits((minutes % 60) as u64);
    let mut text = hours;
    text.append("h");
    text.append(remaining.as_str());
    text.append("s");
    proof {
        reveal_strlit("h");
        reveal_strlit("s");
    }
    text
}

/// What a stream holds: the mathematical content of a `Stream`.
pub ghost struct StreamView {
    pub title: Seq<Seq<char>>,
    pub date: Seq<char>,
    pub stream_id: nat,
    pub timestamp: int,
}

/// Stream
#[derive(Debug)]
pub struct Stream {
    /// Stream Title
    title: Title,
    /// Stream Date
    date: String,
    /// Stream id
    stream_id: usize,
    /// Stream timestamp
    timestamp: i64,
}

impl View for Stream {
    type V = StreamView;

    closed spec fn view(&self) -> StreamView {
        StreamView {
            title: self.title@,
            date: self.date@,
            stream_id: self.stream_id as nat,
            timestamp: self.timestamp as int,
        }
    }
}

/// The date of a stream as it is shown: the start written out, then the
/// length in brackets.
pub open spec fn shown_date(start: Seq<char>, minutes: nat) -> Seq<char> {
    start + " ("@ + minutes_text(minutes) + ")"@
}

/// The stream that a record of the catalogue describes, where its start
/// reads as `timestamp` and is written out as `start`.
pub open spec fn stream_of(
    infos: Seq<char>,
    id: nat,
    minutes: nat,
    start: Seq<char>,
    timestamp: int,
) -> StreamView {
    StreamView {
        title: title_entries(split_pipe(infos)),
        date: shown_date(start, minutes),
        stream_id: id,
        timestamp,
    }
}

/// The text that shows a stream.
pub open spec fn stream_text(stream: StreamView) -> Seq<char> {
    "  ━━━━━━━━━━━━━━━━━━━━━━━━━━━━\n  📅 "@ + stream.date + title_text(stream.title)
}

impl Stream {
    /// Instantiate a new `Stream`
    pub fn new(title: Title, stream_id: usize, date: String, timestamp: i64) -> (stream: Self)
        ensures
            stream@ == (StreamView {
                title: title@,
                date: date@,
                stream_id: stream_id as nat,
                timestamp: timestamp as int,
            }),
    {
        Self { title, stream_id, date, timestamp }
    }

    /// Return the id
    pub fn id(&self) -> (id: usize)
        ensures
            id == self@.stream_id,
    {
        self.stream_id
    }

    /// Return the timestamp
    pub fn timestamp(&self) -> (timestamp: i64)
        ensures
            timestamp == self@.timestamp,
    {
        self.timestamp
    }

    /// Builds the stream of a record from its start as it was read: the
    /// title's entries, the start written out with the length, the id and
    /// the start in seconds. A record whose title holds no entry is refused.
    pub fn assemble(input: &ModelStream, start: &str, timestamp: i64) -> (stream: Result<
        Stream,
        TwitchRecoverError,
    >)
        ensures
            stream is Ok <==> split_pipe(input.infos@).len() >= 3,
            stream matches Ok(s) ==> s@ == stream_of(
                input.infos@,
                input.id as nat,
                input.length as nat,
                start@,
                timestamp as int,
            ),
            stream matches Err(e) ==> e == TwitchRecoverError::ParseStreamTitle,
    {
        match Title::try_from(input.infos.as_str()) {
            Ok(title) => {
                let length = convert_minutes(input.length);
                let mut date = String::from_str(start);
                date.append(" (");
                date.append(length.as_str());
                date.append(")");
                Ok(Stream::new(title, input.id, date, timestamp))
            },
            Err(e) => Err(e),
        }
    }

    /// Try to instantiate `Stream` from a given `ModelStream`, whose date
    /// is one that can be read.
    pub fn try_from(input: &ModelStream) -> (stream: Result<Stream, TwitchRecoverError>)
        requires
            parsed_timestamp(input.date@) is Some,
            parsed_date_text(input.date@) is Some,
        ensures
            stream is Ok <==> split_pipe(input.infos@).len() >= 3,
            stream matches Ok(s) ==> s@ == stream_of(
                input.infos@,
                input.id as nat,
                input.length as nat,
                parsed_date_text(input.date@)->0,
                parsed_timestamp(input.date@)->0 as int,
            ),
            stream matches Err(e) ==> e == TwitchRecoverError::ParseStreamTitle,
    {
        let timestamp = start_timestamp(input.date.as_str());
        let text = start_date_text(input.date.as_str());
        match (timestamp, text) {
            (Some(timestamp), Some(text)) => Stream::assemble(input, text.as_str(), timestamp),
            _ => Err(TwitchRecoverError::ParseStreamTitle),
        }
    }

    /// Reads a record of the catalogue: `None` where its date cannot be
    /// read, and else what `try_from` gives.
    pub fn read(input: &ModelStream) -> (stream: Option<Result<Stream, TwitchRecoverError>>)
        ensures
            stream is Some <==> parsed_timestamp(input.date@) is Some && parsed_date_text(
                input.date@,
            ) is Some,
            stream matches Some(r) ==> (r is Ok <==> split_pipe(input.infos@).len() >= 3),
            stream matches Some(Ok(s)) ==> s@ == stream_of(
                input.infos@,
                input.id as nat,
                input.length as nat,
                parsed_date_text(input.date@)->0,
                parsed_timestamp(input.date@)->0 as int,
            ),
            stream matches Some(Err(e)) ==> e == TwitchRecoverError::ParseStreamTitle,
    {
        let timestamp = start_timestamp(input.date.as_str());
        let text = start_date_text(input.date.as_str());
        if timestamp.is_some() && text.is_some() {
            Some(Stream::try_from(input))
        } else {
            None
        }
    }

    /// The text that shows the stream for selection.
    pub fn to_text(&self) -> (text: String)
        ensures
            text@ == stream_text(self@),
    {
        let mut text = String::from_str("  ━━━━━━━━━━━━━━━━━━━━━━━━━━━━\n  📅 ");
        text.append(self.date.as_str());
        let title = self.title.to_text();
        text.append(title.as_str());
        text
    }
}

} // verus!
