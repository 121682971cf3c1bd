use cbutil::Streamer;
use cbutil::StreamerState;
use cbutil::state_from_json;
use cbutil::state_to_json;
use cbutil::streamer_to_json;
use cbutil::u64_to_dec;

#[test]
fn test_serialization() {
    let streamer_stopped = Streamer {
        profile_url: String::from("https://chaturbate.com/ehotlovea"),
        profile_name: String::from("ehotlovea"),
        profile_status: StreamerState::Stopped,
        download_size_mb: 0,
    };
    let streamer_error = Streamer {
        profile_url: String::from("https://chaturbate.com/killpretty"),
        profile_name: String::from("killpretty"),
        profile_status: StreamerState::Error(100),
        download_size_mb: 0,
    };
    let stopped_json: String = streamer_to_json(&streamer_stopped);
    let error_json: String = streamer_to_json(&streamer_error);
    assert_eq!(
        r#"{"profile_url":"https://chaturbate.com/ehotlovea","profile_name":"ehotlovea","profile_status":"stopped","download_size_mb":0}"#,
        stopped_json
    );
    assert_eq!(
        r#"{"profile_url":"https://chaturbate.com/killpretty","profile_name":"killpretty","profile_status":{"error":100},"download_size_mb":0}"#,
        error_json
    );
}

#[test]
fn state_tags_serialize_exactly() {
    assert_eq!(state_to_json(StreamerState::Added), "\"added\"");
    assert_eq!(state_to_json(StreamerState::Waiting), "\"waiting\"");
    assert_eq!(state_to_json(StreamerState::Downloading), "\"downloading\"");
    assert_eq!(state_to_json(StreamerState::Stopped), "\"stopped\"");
    assert_eq!(state_to_json(StreamerState::Stopping), "\"stopping\"");
    assert_eq!(state_to_json(StreamerState::Error(100)), "{\"error\":100}");
    assert_eq!(state_to_json(StreamerState::Error(0)), "{\"error\":0}");
}

#[test]
fn state_round_trips() {
    let states = [
        StreamerState::Added,
        StreamerState::Waiting,
        StreamerState::Downloading,
        StreamerState::Stopped,
        StreamerState::Stopping,
        StreamerState::Error(0),
        StreamerState::Error(100),
        StreamerState::Error(u32::MAX),
    ];
    for s in states {
        let json = state_to_json(s);
        assert_eq!(state_from_json(json.as_str()), Some(s));
    }
}

#[test]
fn state_parse_rejects_malformed() {
    assert_eq!(state_from_json("\"bogus\""), None);
    assert_eq!(state_from_json("added"), None);
    assert_eq!(state_from_json("\"error\""), None);
    assert_eq!(state_from_json("{\"error\":}"), None);
    assert_eq!(state_from_json("{\"error\":007}"), None);
    assert_eq!(state_from_json("{\"error\":12a}"), None);
    assert_eq!(state_from_json("{\"error\":100"), None);
    // One past the largest code that fits.
    assert_eq!(state_from_json("{\"error\":4294967296}"), None);
    assert_eq!(
        state_from_json("{\"error\":4294967295}"),
        Some(StreamerState::Error(u32::MAX))
    );
}

#[test]
fn decimal_formatting_is_exact() {
    assert_eq!(u64_to_dec(0), "0");
    assert_eq!(u64_to_dec(7), "7");
    assert_eq!(u64_to_dec(42), "42");
    assert_eq!(u64_to_dec(1000), "1000");
    assert_eq!(u64_to_dec(u64::MAX), "18446744073709551615");
}

#[test]
fn record_with_size_serializes_size() {
    let rec = Streamer {
        profile_url: String::from("https://chaturbate.com/ehotlovea"),
        profile_name: String::from("ehotlovea"),
        profile_status: StreamerState::Downloading,
        download_size_mb: 512,
    };
    assert_eq!(
        streamer_to_json(&rec),
        r#"{"profile_url":"https://chaturbate.com/ehotlovea","profile_name":"ehotlovea","profile_status":"downloading","download_size_mb":512}"#
    );
}
