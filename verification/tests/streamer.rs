use twitch_recover::error::TwitchRecoverError;
use twitch_recover::streamer::{
    ModelStream, ModelStreamer, PageEvent, PagerStep, StreamPager, Streamer, StreamerOpt,
};

fn record(id: usize, infos: &str, date: &str) -> ModelStream {
    ModelStream { infos: infos.to_string(), id, date: date.to_string(), length: 10 }
}

fn found(name: &str, id: usize) -> ModelStreamer {
    ModelStreamer { name: name.to_string(), id }
}

#[test]
fn options_hold_the_days() {
    assert_eq!(StreamerOpt::new(7).days(), 7);
    assert_eq!(StreamerOpt::default().days(), 30);
}

#[test]
fn name_is_kept_in_lower_case() {
    let streamer = Streamer::new("SomeOne".to_string());
    assert_eq!(streamer.name(), "someone");
    assert!(streamer.streams().is_empty());
    let streamer = Streamer::with_options("ÉCOLE".to_string(), StreamerOpt::new(3));
    assert_eq!(streamer.name(), "école");
}

#[test]
fn addresses_of_the_catalogue() {
    let mut streamer = Streamer::with_options("SomeOne".to_string(), StreamerOpt::new(7));
    assert_eq!(
        streamer.search_url(),
        "https://sullygnome.com/api/standardsearch/someone/true/true/false/true"
    );
    assert_eq!(streamer.select_id(&vec![found("someone", 4242)]), Ok(()));
    assert_eq!(
        streamer.page_url(0),
        "https://sullygnome.com/api/tables/channeltables/streams/7/4242/%20/1/1/desc/0/50"
    );
    assert_eq!(
        streamer.page_url(150),
        "https://sullygnome.com/api/tables/channeltables/streams/7/4242/%20/1/1/desc/150/50"
    );
}

#[test]
fn id_is_that_of_the_first_match() {
    let mut streamer = Streamer::new("someone".to_string());
    let records = vec![found("someone_else", 1), found("SomeOne", 2), found("someone", 3)];
    assert_eq!(streamer.select_id(&records), Ok(()));
    assert_eq!(
        streamer.page_url(50),
        "https://sullygnome.com/api/tables/channeltables/streams/30/2/%20/1/1/desc/50/50"
    );
}

#[test]
fn unknown_streamer_is_reported() {
    let mut streamer = Streamer::new("Nobody".to_string());
    assert_eq!(
        streamer.select_id(&vec![found("someone", 1)]),
        Err(TwitchRecoverError::StreamerNotFound("nobody".to_string()))
    );
    assert_eq!(
        streamer.select_id(&vec![]),
        Err(TwitchRecoverError::StreamerNotFound("nobody".to_string()))
    );
}

#[test]
fn streams_are_added_in_order_and_untitled_ones_passed_over() {
    let mut streamer = Streamer::new("someone".to_string());
    let records = vec![
        record(1, "Game|a|b", "2023-01-15T18:30:00Z"),
        record(2, "untitled", "2023-01-16T18:30:00Z"),
        record(3, "Other|a|b", "2023-01-17T18:30:00Z"),
    ];
    assert_eq!(streamer.add_streams(&records), 3);
    assert_eq!(streamer.streams().len(), 2);
    assert_eq!(streamer.streams()[0].id(), 1);
    assert_eq!(streamer.streams()[0].timestamp(), 1673807400);
    assert_eq!(streamer.streams()[1].id(), 3);
}

#[test]
fn unreadable_date_stops_the_reading() {
    let mut streamer = Streamer::new("someone".to_string());
    let records = vec![
        record(1, "Game|a|b", "2023-01-15T18:30:00Z"),
        record(2, "Game|a|b", "no date"),
        record(3, "Other|a|b", "2023-01-17T18:30:00Z"),
    ];
    assert_eq!(streamer.add_streams(&records), 1);
    assert_eq!(streamer.streams().len(), 1);
}

#[test]
fn pages_are_turned_until_all_records_are_collected() {
    let mut pager = StreamPager::start();
    assert_eq!(pager.offset(), 0);
    assert_eq!(pager.page(), 1);
    assert!(pager.has_room());
    let data = vec![record(1, "a", "d"), record(2, "b", "d")];
    assert!(matches!(pager.on_event(PageEvent::Page { records: 5, data }), PagerStep::Fetch(50)));
    assert_eq!(pager.offset(), 50);
    assert_eq!(pager.page(), 2);
    let data = vec![record(3, "a", "d"), record(4, "b", "d")];
    assert!(matches!(pager.on_event(PageEvent::Page { records: 5, data }), PagerStep::Fetch(100)));
    let data = vec![record(5, "a", "d")];
    assert!(matches!(pager.on_event(PageEvent::Page { records: 5, data }), PagerStep::Done));
    assert_eq!(pager.offset(), 100);
    assert_eq!(pager.page(), 4);
    let streams = pager.into_streams();
    assert_eq!(streams.len(), 5);
    assert_eq!(streams[4].id, 5);
}

#[test]
fn empty_catalogue_ends_at_the_first_page() {
    let mut pager = StreamPager::start();
    assert!(matches!(pager.on_event(PageEvent::Page { records: 0, data: vec![] }), PagerStep::Done));
    assert!(pager.into_streams().is_empty());
}

#[test]
fn unreadable_page_ends_the_reading_with_what_was_collected() {
    let mut pager = StreamPager::start();
    let data = vec![record(1, "a", "d")];
    assert!(matches!(pager.on_event(PageEvent::Page { records: 3, data }), PagerStep::Fetch(50)));
    assert!(matches!(pager.on_event(PageEvent::Unreadable), PagerStep::Stopped));
    assert_eq!(pager.offset(), 50);
    assert_eq!(pager.into_streams().len(), 1);
}

#[test]
fn failed_request_fails_the_reading() {
    let mut pager = StreamPager::start();
    let event = PageEvent::Failed(TwitchRecoverError::HttpRequest("down".to_string()));
    match pager.on_event(event) {
        PagerStep::Fail(e) => assert_eq!(e, TwitchRecoverError::HttpRequest("down".to_string())),
        _ => panic!("the reading should have failed"),
    }
}
