use twitch_recover::error::TwitchRecoverError;
use twitch_recover::utils::{check_reply, get_random_header, plan_probes, HttpReply, ProgressBar};

fn pool() -> Vec<String> {
    vec!["agent-one".to_string(), "agent-two".to_string(), "agent-three".to_string()]
}

#[test]
fn empty_pool_is_a_configuration_error() {
    assert_eq!(get_random_header(&vec![]), Err(TwitchRecoverError::UserAgent));
    let urls = vec!["a".to_string(), "b".to_string()];
    assert_eq!(plan_probes(&urls, &vec![]).unwrap_err(), TwitchRecoverError::UserAgent);
    assert_eq!(plan_probes(&vec![], &vec![]).unwrap_err(), TwitchRecoverError::UserAgent);
}

#[test]
fn header_comes_from_the_pool() {
    let pool = pool();
    let mut round = 0;
    while round < 50 {
        let header = get_random_header(&pool).unwrap();
        assert!(pool.contains(&header));
        round += 1;
    }
}

#[test]
fn single_header_pool_gives_that_header() {
    let pool = vec!["only".to_string()];
    assert_eq!(get_random_header(&pool), Ok("only".to_string()));
}

#[test]
fn plan_holds_one_request_per_address() {
    let urls = vec!["a".to_string(), "b".to_string(), "c".to_string()];
    let plan = plan_probes(&urls, &pool()).unwrap();
    assert_eq!(plan.len(), 3);
    let mut i = 0;
    while i < 3 {
        assert_eq!(plan[i].url, urls[i]);
        assert!(pool().contains(&plan[i].user_agent));
        i += 1;
    }
}

#[test]
fn reply_with_status_200_is_accepted() {
    let reply = HttpReply::Response { status: 200, status_text: "200 OK".to_string() };
    assert_eq!(check_reply("https://x", reply), Ok(()));
}

#[test]
fn reply_with_other_status_is_reported() {
    let reply = HttpReply::Response { status: 404, status_text: "404 Not Found".to_string() };
    assert_eq!(
        check_reply("https://x", reply),
        Err(TwitchRecoverError::HttpResponseCode("404 Not Found".to_string(), "https://x".to_string()))
    );
}

#[test]
fn failed_request_is_reported() {
    let reply = HttpReply::Failed("connection refused".to_string());
    assert_eq!(
        check_reply("https://x", reply),
        Err(TwitchRecoverError::HttpRequest("connection refused".to_string()))
    );
}

#[test]
fn progress_bar_counts_from_one() {
    let mut bar = ProgressBar::default();
    assert_eq!(bar.inc, 1);
    assert_eq!(bar.progress("working"), "\rworking");
    assert_eq!(bar.inc, 2);
    assert_eq!(bar.progress(""), "\r");
    assert_eq!(bar.inc, 3);
    assert_eq!(bar.reset(), "\n");
}

#[test]
fn error_messages() {
    assert_eq!(TwitchRecoverError::UserAgent.message(), "User agent not found");
    assert_eq!(TwitchRecoverError::ParseStreamTitle.message(), "Failed to parse the stream title");
    assert_eq!(
        TwitchRecoverError::StreamerNotFound("someone".to_string()).message(),
        "The streamer 'someone' could not be found"
    );
    assert_eq!(TwitchRecoverError::StreamNotFound.message(), "The stream could not be found");
    assert_eq!(
        TwitchRecoverError::HttpRequest("x".to_string()).message(),
        "The request was unable to be performed correctly"
    );
    assert_eq!(
        TwitchRecoverError::HttpResponseCode("404 Not Found".to_string(), "u".to_string()).message(),
        "The response code 404 Not Found was received for 'u'"
    );
    assert_eq!(
        TwitchRecoverError::SerializeHttpResponse("x".to_string()).message(),
        "The HTTP response cannot be serialized"
    );
}
