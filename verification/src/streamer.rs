//! A broadcaster and the reading of its catalogue of streams.

use vstd::prelude::*;
use vstd::string::StringExecFns;
use crate::error::TwitchRecoverError;
use crate::stream::{parsed_date_text, parsed_timestamp, split_pipe, stream_of, Stream, StreamView};
use crate::text::{decimal_nat, render_unsigned};
use crate::utils::ProgressBar;

verus! {

/// How far back the catalogue is read.
pub struct StreamerOpt {
    days: usize,
}

impl StreamerOpt {
    pub closed spec fn spec_days(&self) -> usize {
        self.days
    }

    pub fn new(days: usize) -> (options: Self)
        ensures
            options.spec_days() == days,
    {
        Self { days }
    }

    /// The number of days that the catalogue is read back.
    #[verifier::when_used_as_spec(spec_days)]
    pub fn days(&self) -> (days: usize)
        ensures
            days == self.spec_days(),
    {
        self.days
    }
}

impl Default for StreamerOpt {
    /// Thirty days: as long as the platform keeps a recording.
    fn default() -> (options: Self)
        ensures
            options.spec_days() == 30,
    {
        Self { days: 30 }
    }
}

/// Response model for a stream
#[derive(Debug)]
pub struct ModelStream {
    pub infos: String,
    pub id: usize,
    pub date: String,
    pub length: usize,
}

/// Response model for the `Streamer`
#[derive(Debug)]
pub struct ModelStreamer {
    pub name: String,
    pub id: usize,
}

/// The number of records that one page of the catalogue holds.
pub const PAGE_COUNT: usize = 50;

/// A text with each of its letters in lower case.
pub uninterp spec fn lowercase_of(text: Seq<char>) -> Seq<char>;

/// Calls `str::to_lowercase` of std. Trusted: the result is a function of
/// the text alone, which `lowercase_of` names.
#[verifier::external_body]
fn lowercase(text: &str) -> (lower: String)
    ensures
        lower@ == lowercase_of(text@),
{
    text.to_lowercase()
}

/// What a broadcaster holds: the mathematical content of a `Streamer`.
pub ghost struct StreamerView {
    pub name: Seq<char>,
    pub id: Option<usize>,
    pub streams: Seq<StreamView>,
    pub days: usize,
}

/// Informations of the streamer
pub struct Streamer {
    /// Name of the streamer
    name: String,
    /// Id of the streamer
    id: Option<usize>,
    /// Streams of the streamer
    streams: Vec<Stream>,
    /// Days
    options: StreamerOpt,
}

impl View for Streamer {
    type V = StreamerView;

    closed spec fn view(&self) -> StreamerView {
        StreamerView {
            name: self.name@,
            id: self.id,
            streams: Seq::new(self.streams@.len(), |i: int| self.streams@[i]@),
            days: self.options.spec_days(),
        }
    }
}

/// Whether a record of the catalogue's search is the broadcaster of a name:
/// its own name, in lower case, is that name.
pub open spec fn is_match(record: ModelStreamer, name: Seq<char>) -> bool {
    lowercase_of(record.name@) == name
}

/// The address at which the catalogue is searched for a broadcaster.
pub open spec fn search_url(name: Seq<char>) -> Seq<char> {
    "https://sullygnome.com/api/standardsearch/"@ + name + "/true/true/false/true"@
}

/// The address of one page of a broadcaster's streams.
pub open spec fn page_url(days: nat, id: nat, offset: nat) -> Seq<char> {
    "https://sullygnome.com/api/tables/channeltables/streams/"@ + decimal_nat(days) + "/"@
        + decimal_nat(id) + "/%20/1/1/desc/"@ + decimal_nat(offset) + "/"@ + decimal_nat(
        PAGE_COUNT as nat,
    )
}

/// Whether the date of a record can be read.
pub open spec fn is_readable(record: ModelStream) -> bool {
    parsed_timestamp(record.date@) is Some && parsed_date_text(record.date@) is Some
}

/// The stream of a record whose date can be read.
pub open spec fn record_stream(record: ModelStream) -> StreamView {
    stream_of(
        record.infos@,
        record.id as nat,
        record.length as nat,
        parsed_date_text(record.date@)->0,
        parsed_timestamp(record.date@)->0 as int,
    )
}

/// The streams of the records whose title holds an entry, in the records' order.
pub open spec fn kept_streams(records: Seq<ModelStream>) -> Seq<StreamView>
    decreases records.len(),
{
    if records.len() == 0 {
        Seq::empty()
    } else if split_pipe(records.last().infos@).len() >= 3 {
        kept_streams(records.drop_last()).push(record_stream(records.last()))
    } else {
        kept_streams(records.drop_last())
    }
}

impl Streamer {
    /// Instantiate a new `Streamer`: the name is kept in lower case, and
    /// the catalogue is read thirty days back.
    pub fn new(name: String) -> (streamer: Self)
        ensures
            streamer@ == (StreamerView {
                name: lowercase_of(name@),
                id: None,
                streams: Seq::empty(),
                days: 30,
            }),
    {
        Streamer::with_options(name, StreamerOpt::default())
    }

    /// Instantiate a new `Streamer` with options
    pub fn with_options(name: String, options: StreamerOpt) -> (streamer: Self)
        ensures
            streamer@ == (StreamerView {
                name: lowercase_of(name@),
                id: None,
                streams: Seq::empty(),
                days: options.spec_days(),
            }),
    {
        let streamer = Streamer {
            name: lowercase(name.as_str()),
            id: None,
            streams: Vec::new(),
            options,
        };
        assert(streamer@.streams =~= Seq::empty());
        streamer
    }

    /// Return the streams
    pub fn streams(&self) -> (streams: &Vec<Stream>)
        ensures
            streams@.len() == self@.streams.len(),
            forall|i: int| 0 <= i < streams@.len() ==> (#[trigger] streams@[i])@ == self@.streams[i],
    {
        &self.streams
    }

    /// Return the name
    pub fn name(&self) -> (name: &String)
        ensures
            name@ == self@.name,
    {
        &self.name
    }

    /// The address at which the catalogue is searched for this broadcaster.
    pub fn search_url(&self) -> (url: String)
        ensures
            url@ == search_url(self@.name),
    {
        let mut url = String::from_str("https://sullygnome.com/api/standardsearch/");
        url.append(self.name.as_str());
        url.append("/true/true/false/true");
        url
    }

    /// Takes the broadcaster's id from the records of a search: that of the
    /// first record whose name, in lower case, is the broadcaster's.
    pub fn select_id(&mut self, found: &Vec<ModelStreamer>) -> (selected: Result<
        (),
        TwitchRecoverError,
    >)
        ensures
            selected is Ok <==> exists|k: int|
                0 <= k < found@.len() && is_match(#[trigger] found@[k], old(self)@.name),
            selected is Ok ==> exists|k: int|
                0 <= k < found@.len() && is_match(#[trigger] found@[k], old(self)@.name)
                    && final(self)@ == (StreamerView { id: Some(found@[k].id), ..old(self)@ })
                    && forall|j: int| 0 <= j < k ==> !is_match(#[trigger] found@[j], old(self)@.name),
            selected matches Err(e) ==> final(self)@ == old(self)@ && (
            e matches TwitchRecoverError::StreamerNotFound(name) && name@ == old(self)@.name),
    {
        let mut i: usize = 0;
        while i < found.len()
            invariant
                0 <= i <= found@.len(),
                *self == *old(self),
                forall|j: int| 0 <= j < i ==> !is_match(#[trigger] found@[j], self@.name),
            decreases found@.len() - i,
        {
            let lower = lowercase(found[i].name.as_str());
            if lower == self.name {
                self.id = Some(found[i].id);
                assert(is_match(found@[i as int], old(self)@.name));
                assert(self@ == (StreamerView { id: Some(found@[i as int].id), ..old(self)@ }));
                return Ok(());
            }
            i += 1;
        }
        Err(TwitchRecoverError::StreamerNotFound(self.name.clone()))
    }

    /// The address of the page of this broadcaster's streams that starts at
    /// an offset. The broadcaster's id is known.
    pub fn page_url(&self, offset: usize) -> (url: String)
        requires
            self@.id is Some,
        ensures
            url@ == page_url(self@.days as nat, self@.id->0 as nat, offset as nat),
    {
        let id = match self.id {
            Some(id) => id,
            None => 0,
        };
        let days = render_unsigned(self.options.days() as u64);
        let id = render_unsigned(id as u64);
        let offset = render_unsigned(offset as u64);
        let count = render_unsigned(PAGE_COUNT as u64);
        let mut url = String::from_str("https://sullygnome.com/api/tables/channeltables/streams/");
        url.append(days.as_str());
        url.append("/");
        url.append(id.as_str());
        url.append("/%20/1/1/desc/");
        url.append(offset.as_str());
        url.append("/");
        url.append(count.as_str());
        url
    }

    /// Adds the streams of the catalogue's records, in their order, and
    /// says how many records were read. A record whose title holds no entry
    /// is passed over. A record whose date cannot be read stops the reading
    /// before it.
    pub fn add_streams(&mut self, records: &Vec<ModelStream>) -> (read: usize)
        ensures
            read <= records@.len(),
            forall|j: int| 0 <= j < read ==> is_readable(#[trigger] records@[j]),
            read < records@.len() ==> !is_readable(records@[read as int]),
            final(self)@ == (StreamerView {
                streams: old(self)@.streams + kept_streams(records@.take(read as int)),
                ..old(self)@
            }),
    {
        let mut i: usize = 0;
        proof {
            assert(records@.take(0) =~= Seq::<ModelStream>::empty());
            assert(self@.streams + kept_streams(records@.take(0)) =~= self@.streams);
        }
        while i < records.len()
            invariant
                0 <= i <= records@.len(),
                forall|j: int| 0 <= j < i ==> is_readable(#[trigger] records@[j]),
                self@ == (StreamerView {
                    streams: old(self)@.streams + kept_streams(records@.take(i as int)),
                    ..old(self)@
                }),
            decreases records@.len() - i,
        {
            proof {
                assert(records@.take(i + 1).drop_last() =~= records@.take(i as int));
                assert(records@.take(i + 1).last() == records@[i as int]);
            }
            let ghost before = self@;
            match Stream::read(&records[i]) {
                None => {
                    return i;
                },
                Some(Ok(stream)) => {
                    self.streams.push(stream);
                    assert(self@.streams =~= before.streams.push(stream@));
                    assert(self@.streams =~= old(self)@.streams + kept_streams(
                        records@.take(i + 1),
                    ));
                },
                Some(Err(_)) => {},
            }
            i += 1;
        }
        i
    }
}

/// What came back for one page of the catalogue.
#[derive(Debug)]
pub enum PageEvent {
    /// The page: how many records the catalogue says it holds in all, and
    /// the records of this page.
    Page { records: usize, data: Vec<ModelStream> },
    /// A reply that could not be read as a page.
    Unreadable,
    /// The request failed.
    Failed(TwitchRecoverError),
}

/// What to do after a page.
#[derive(Debug)]
pub enum PagerStep {
    /// Ask for the page that starts at this offset.
    Fetch(usize),
    /// Every record was collected: the reading is over.
    Done,
    /// The reading stops early: what was collected so far is the result.
    Stopped,
    /// The reading has failed.
    Fail(TwitchRecoverError),
}

/// The state of a reading: where the next page starts, the records
/// collected so far, and the number of the page that is asked for.
pub ghost struct PagerView {
    pub offset: nat,
    pub collected: Seq<ModelStream>,
    pub page: nat,
}

/// The reading of a broadcaster's streams, page by page.
pub struct StreamPager {
    offset: usize,
    collected: Vec<ModelStream>,
    bar: ProgressBar,
}

impl View for StreamPager {
    type V = PagerView;

    closed spec fn view(&self) -> PagerView {
        PagerView {
            offset: self.offset as nat,
            collected: self.collected@,
            page: self.bar.inc as nat,
        }
    }
}

impl StreamPager {
    /// A reading that has not begun: the first page starts at 0.
    pub fn start() -> (pager: Self)
        ensures
            pager@ == (PagerView { offset: 0, collected: Seq::empty(), page: 1 }),
    {
        StreamPager { offset: 0, collected: Vec::new(), bar: ProgressBar::default() }
    }

    /// Where the page that is asked for starts.
    pub fn offset(&self) -> (offset: usize)
        ensures
            offset == self@.offset,
    {
        self.offset
    }

    /// The number of the page that is asked for, counted from 1.
    pub fn page(&self) -> (page: usize)
        ensures
            page == self@.page,
    {
        self.bar.inc
    }

    /// Whether another page can be taken: the counters have room.
    pub fn has_room(&self) -> (room: bool)
        ensures
            room == (self@.offset + PAGE_COUNT <= usize::MAX && self@.page < usize::MAX),
    {
        self.offset <= usize::MAX - PAGE_COUNT && self.bar.inc < usize::MAX
    }

    /// Takes what came back for the page that was asked for. A page is
    /// added to what was collected; the reading is over once as many
    /// records were collected as the catalogue says it holds, and else goes
    /// on with the next page. A reply that cannot be read ends the reading
    /// with what was collected. A failed request fails the reading.
    pub fn on_event(&mut self, event: PageEvent) -> (step: PagerStep)
        requires
            old(self)@.offset + PAGE_COUNT <= usize::MAX,
            old(self)@.page < usize::MAX,
        ensures
            match event {
                PageEvent::Page { records, data } => {
                    &&& final(self)@.collected == old(self)@.collected + data@
                    &&& final(self)@.page == old(self)@.page + 1
                    &&& if final(self)@.collected.len() >= records {
                        step is Done && final(self)@.offset == old(self)@.offset
                    } else {
                        step == PagerStep::Fetch((old(self)@.offset + PAGE_COUNT) as usize)
                            && final(self)@.offset == old(self)@.offset + PAGE_COUNT
                    }
                },
                PageEvent::Unreadable => step is Stopped && final(self)@ == old(self)@,
                PageEvent::Failed(e) => step == PagerStep::Fail(e) && final(self)@ == old(self)@,
            },
    {
        match event {
            PageEvent::Page { records, data } => {
                let mut data = data;
                self.bar.inc = self.bar.inc + 1;
                self.collected.append(&mut data);
                if self.collected.len() >= records {
                    PagerStep::Done
                } else {
                    self.offset = self.offset + PAGE_COUNT;
                    PagerStep::Fetch(self.offset)
                }
            },
            PageEvent::Unreadable => PagerStep::Stopped,
            PageEvent::Failed(e) => PagerStep::Fail(e),
        }
    }

    /// Ends the reading and hands out what was collected.
    pub fn into_streams(self) -> (streams: Vec<ModelStream>)
        ensures
            streams@ == self@.collected,
    {
        self.collected
    }
}

} // verus!
