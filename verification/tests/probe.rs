use twitch_recover::error::TwitchRecoverError;
use twitch_recover::probe::{classify, find_valid_url, Arrival, ProbeOutcome, ProbeRace, ProbeReply};
use twitch_recover::recover::Recover;

fn candidates() -> Vec<String> {
    vec!["a/x".to_string(), "b/x".to_string(), "c/x".to_string()]
}

fn arrival(candidate: usize, reply: ProbeReply) -> Arrival {
    Arrival { candidate, reply }
}

#[test]
fn only_status_200_is_a_hit() {
    assert_eq!(classify(ProbeReply::Status(200)), ProbeOutcome::Hit);
    assert_eq!(classify(ProbeReply::Status(404)), ProbeOutcome::Miss);
    assert_eq!(classify(ProbeReply::Status(201)), ProbeOutcome::Miss);
    assert_eq!(classify(ProbeReply::Status(500)), ProbeOutcome::Miss);
    assert_eq!(classify(ProbeReply::TransportFailure), ProbeOutcome::Error);
}

#[test]
fn single_hit_is_returned() {
    let arrivals = vec![
        arrival(2, ProbeReply::Status(404)),
        arrival(0, ProbeReply::TransportFailure),
        arrival(1, ProbeReply::Status(200)),
    ];
    assert_eq!(find_valid_url(&candidates(), &arrivals), Ok("b/x".to_string()));
}

#[test]
fn all_miss_is_stream_not_found() {
    let arrivals = vec![
        arrival(0, ProbeReply::Status(404)),
        arrival(1, ProbeReply::TransportFailure),
        arrival(2, ProbeReply::Status(403)),
    ];
    assert_eq!(find_valid_url(&candidates(), &arrivals), Err(TwitchRecoverError::StreamNotFound));
}

#[test]
fn all_transport_failures_is_stream_not_found() {
    let arrivals = vec![
        arrival(0, ProbeReply::TransportFailure),
        arrival(1, ProbeReply::TransportFailure),
        arrival(2, ProbeReply::TransportFailure),
    ];
    assert_eq!(find_valid_url(&candidates(), &arrivals), Err(TwitchRecoverError::StreamNotFound));
}

#[test]
fn no_arrivals_is_stream_not_found() {
    assert_eq!(find_valid_url(&candidates(), &vec![]), Err(TwitchRecoverError::StreamNotFound));
}

#[test]
fn transport_failure_counts_as_plain_miss() {
    let failing = vec![
        arrival(0, ProbeReply::TransportFailure),
        arrival(2, ProbeReply::Status(200)),
        arrival(1, ProbeReply::TransportFailure),
    ];
    let plain = vec![
        arrival(0, ProbeReply::Status(404)),
        arrival(2, ProbeReply::Status(200)),
        arrival(1, ProbeReply::Status(404)),
    ];
    assert_eq!(find_valid_url(&candidates(), &failing), find_valid_url(&candidates(), &plain));
    assert_eq!(find_valid_url(&candidates(), &failing), Ok("c/x".to_string()));
}

#[test]
fn earliest_hit_wins_whatever_its_rank() {
    let arrivals = vec![
        arrival(2, ProbeReply::Status(200)),
        arrival(0, ProbeReply::Status(200)),
        arrival(1, ProbeReply::Status(404)),
    ];
    assert_eq!(find_valid_url(&candidates(), &arrivals), Ok("c/x".to_string()));
}

#[test]
fn race_answers_at_the_first_join_after_a_hit() {
    let mut race = ProbeRace::launch(candidates());
    assert_eq!(race.candidates(), 3);
    assert_eq!(race.awaited(), Some(0));
    race.complete(1, ProbeReply::Status(200));
    assert!(race.has_landed(1));
    assert!(!race.has_landed(0));
    race.complete(0, ProbeReply::Status(404));
    assert_eq!(race.join_next(), Some(Ok("b/x".to_string())));
}

#[test]
fn race_first_writer_keeps_the_place() {
    let mut race = ProbeRace::launch(candidates());
    race.complete(2, ProbeReply::Status(200));
    race.complete(0, ProbeReply::Status(200));
    assert_eq!(race.join_next(), Some(Ok("c/x".to_string())));
}

#[test]
fn race_waits_until_all_are_joined() {
    let mut race = ProbeRace::launch(candidates());
    race.complete(0, ProbeReply::Status(404));
    assert_eq!(race.join_next(), None);
    assert_eq!(race.awaited(), Some(1));
    race.complete(1, ProbeReply::TransportFailure);
    assert_eq!(race.join_next(), None);
    race.complete(2, ProbeReply::Status(500));
    assert_eq!(race.join_next(), Some(Err(TwitchRecoverError::StreamNotFound)));
    assert_eq!(race.awaited(), None);
}

#[test]
fn get_url_gives_the_candidate_of_the_hit() {
    let recover = Recover::new("teststreamer".to_string(), 1600000000, 123);
    let domains = vec!["https://one/".to_string(), "https://two/".to_string()];
    let pool = vec!["agent".to_string()];
    let arrivals = vec![arrival(0, ProbeReply::Status(404)), arrival(1, ProbeReply::Status(200))];
    assert_eq!(
        recover.get_url(&domains, &pool, &arrivals),
        Ok("https://two/db12cf88538ae412a49d_teststreamer_123_1600000000/chunked/index-dvr.m3u8".to_string())
    );
    let misses = vec![arrival(0, ProbeReply::Status(404)), arrival(1, ProbeReply::TransportFailure)];
    assert_eq!(recover.get_url(&domains, &pool, &misses), Err(TwitchRecoverError::StreamNotFound));
}

#[test]
fn get_url_with_empty_pool_is_a_configuration_error() {
    let recover = Recover::new("teststreamer".to_string(), 1600000000, 123);
    let domains = vec!["https://one/".to_string()];
    let arrivals = vec![arrival(0, ProbeReply::Status(200))];
    assert_eq!(recover.get_url(&domains, &vec![], &arrivals), Err(TwitchRecoverError::UserAgent));
    assert_eq!(recover.get_url(&domains, &vec![], &vec![]), Err(TwitchRecoverError::UserAgent));
}
