use cbutil::HandlerError;
use cbutil::StateFilter;
use cbutil::Store;
use cbutil::StreamerState;
use cbutil::StreamerUpdateMessage;
use cbutil::http_status_of;
use cbutil::parse_state_filter;
use cbutil::profile_url_for;

#[test]
fn create_then_get_returns_waiting_with_size_zero() {
    let mut store = Store::new();
    let created = store.add_user("ehotlovea");
    assert!(matches!(created, Ok(StreamerState::Waiting)));
    let fetched = store.retrieve_user("ehotlovea").unwrap();
    assert_eq!(fetched.profile_name, "ehotlovea");
    assert_eq!(fetched.profile_url, "https://chaturbate.com/ehotlovea");
    assert_eq!(fetched.profile_status, StreamerState::Waiting);
    assert_eq!(fetched.download_size_mb, 0);
}

#[test]
fn duplicate_create_conflicts_and_keeps_first_record() {
    let mut store = Store::new();
    store.add_user("ehotlovea").unwrap();
    let update = StreamerUpdateMessage {
        profile_status: StreamerState::Downloading,
        download_size_mb: 77,
    };
    store.mutate_user("ehotlovea", &update).unwrap();
    let second = store.add_user("ehotlovea");
    assert_eq!(second, Err(HandlerError::Conflict));
    assert_eq!(store.len(), 1);
    let kept = store.retrieve_user("ehotlovea").unwrap();
    assert_eq!(kept.profile_status, StreamerState::Downloading);
    assert_eq!(kept.download_size_mb, 77);
}

#[test]
fn update_of_unknown_name_is_not_found_and_mutates_nothing() {
    let mut store = Store::new();
    store.add_user("ehotlovea").unwrap();
    let update = StreamerUpdateMessage {
        profile_status: StreamerState::Stopped,
        download_size_mb: 3,
    };
    let r = store.mutate_user("nobody", &update);
    assert_eq!(r, Err(HandlerError::NotFound));
    assert_eq!(store.len(), 1);
    let kept = store.retrieve_user("ehotlovea").unwrap();
    assert_eq!(kept.profile_status, StreamerState::Waiting);
}

#[test]
fn delete_of_unknown_name_is_not_found_and_mutates_nothing() {
    let mut store = Store::new();
    store.add_user("ehotlovea").unwrap();
    let r = store.delete_user("nobody");
    assert_eq!(r, Err(HandlerError::NotFound));
    assert_eq!(store.len(), 1);
}

#[test]
fn delete_removes_the_record_and_confirms() {
    let mut store = Store::new();
    store.add_user("ehotlovea").unwrap();
    let msg = store.delete_user("ehotlovea").unwrap();
    assert_eq!(msg, "Deleted ehotlovea");
    assert_eq!(store.len(), 0);
    assert!(matches!(
        store.retrieve_user("ehotlovea"),
        Err(HandlerError::NotFound)
    ));
}

#[test]
fn update_replaces_whole_record_and_confirms() {
    let mut store = Store::new();
    store.add_user("ehotlovea").unwrap();
    let update = StreamerUpdateMessage {
        profile_status: StreamerState::Error(100),
        download_size_mb: 9,
    };
    let msg = store.mutate_user("ehotlovea", &update).unwrap();
    assert_eq!(msg, "Updated ehotlovea to Error(100)");
    let rec = store.retrieve_user("ehotlovea").unwrap();
    assert_eq!(rec.profile_status, StreamerState::Error(100));
    assert_eq!(rec.download_size_mb, 9);
    assert_eq!(rec.profile_url, "https://chaturbate.com/ehotlovea");
}

#[test]
fn bulk_update_sets_every_state_and_resets_sizes() {
    let mut store = Store::new();
    store.add_user("ehotlovea").unwrap();
    store.add_user("killpretty").unwrap();
    let update = StreamerUpdateMessage {
        profile_status: StreamerState::Downloading,
        download_size_mb: 500,
    };
    store.mutate_user("killpretty", &update).unwrap();
    let msg = store.mutate_all_users(StreamerState::Stopping);
    assert_eq!(msg, "successfully updated all users' state");
    let all = store.retrieve_users();
    assert_eq!(all.len(), 2);
    for rec in &all {
        assert_eq!(rec.profile_status, StreamerState::Stopping);
        assert_eq!(rec.download_size_mb, 0);
    }
    assert_eq!(all[0].profile_name, "ehotlovea");
    assert_eq!(all[0].profile_url, "https://chaturbate.com/ehotlovea");
    assert_eq!(all[1].profile_name, "killpretty");
    assert_eq!(all[1].profile_url, "https://chaturbate.com/killpretty");
}

#[test]
fn list_by_bogus_state_is_invalid_argument() {
    let store = Store::new();
    let r = store.retrieve_stateful_users("bogus");
    assert!(matches!(r, Err(HandlerError::InvalidArgument)));
    // `added` is reachable only via creation, not queryable by name.
    let r2 = store.retrieve_stateful_users("added");
    assert!(matches!(r2, Err(HandlerError::InvalidArgument)));
}

#[test]
fn three_records_scenario_lists_and_filters() {
    let mut store = Store::new();
    store.add_user("ehotlovea").unwrap();
    store.add_user("killpretty").unwrap();
    let stop = StreamerUpdateMessage {
        profile_status: StreamerState::Stopped,
        download_size_mb: 0,
    };
    store.mutate_user("ehotlovea", &stop).unwrap();
    let err = StreamerUpdateMessage {
        profile_status: StreamerState::Error(100),
        download_size_mb: 0,
    };
    store.mutate_user("killpretty", &err).unwrap();

    let all = store.retrieve_users();
    assert_eq!(all.len(), 2);
    assert_eq!(all[0].profile_name, "ehotlovea");
    assert_eq!(all[0].profile_status, StreamerState::Stopped);
    assert_eq!(all[1].profile_name, "killpretty");
    assert_eq!(all[1].profile_status, StreamerState::Error(100));

    let errored = store.retrieve_stateful_users("error").unwrap();
    assert_eq!(errored.len(), 1);
    assert_eq!(errored[0].profile_name, "killpretty");
    assert_eq!(errored[0].profile_status, StreamerState::Error(100));

    let stopped = store.retrieve_stateful_users("stopped").unwrap();
    assert_eq!(stopped.len(), 1);
    assert_eq!(stopped[0].profile_name, "ehotlovea");
}

#[test]
fn empty_store_lists_nothing_and_bulk_update_is_a_no_op() {
    let mut store = Store::new();
    assert_eq!(store.len(), 0);
    assert!(store.retrieve_users().is_empty());
    let listed = store.retrieve_stateful_users("waiting").unwrap();
    assert!(listed.is_empty());
    let msg = store.mutate_all_users(StreamerState::Stopped);
    assert_eq!(msg, "successfully updated all users' state");
    assert_eq!(store.len(), 0);
}

#[test]
fn filtered_scan_keeps_storage_order() {
    let mut store = Store::new();
    store.add_user("first").unwrap();
    store.add_user("second").unwrap();
    store.add_user("third").unwrap();
    let waiting = store.retrieve_stateful_users("waiting").unwrap();
    assert_eq!(waiting.len(), 3);
    assert_eq!(waiting[0].profile_name, "first");
    assert_eq!(waiting[1].profile_name, "second");
    assert_eq!(waiting[2].profile_name, "third");
    // Records created but never transitioned are not matched by other names.
    let stopped = store.retrieve_stateful_users("stopped").unwrap();
    assert!(stopped.is_empty());
}

#[test]
fn state_filter_parses_exactly_five_literals() {
    assert_eq!(parse_state_filter("waiting"), Some(StateFilter::Waiting));
    assert_eq!(
        parse_state_filter("downloading"),
        Some(StateFilter::Downloading)
    );
    assert_eq!(parse_state_filter("stopped"), Some(StateFilter::Stopped));
    assert_eq!(parse_state_filter("stopping"), Some(StateFilter::Stopping));
    assert_eq!(parse_state_filter("error"), Some(StateFilter::Error));
    assert_eq!(parse_state_filter("added"), None);
    assert_eq!(parse_state_filter("Waiting"), None);
    assert_eq!(parse_state_filter(""), None);
}

#[test]
fn error_kinds_map_to_distinct_statuses() {
    assert_eq!(http_status_of(HandlerError::InvalidArgument), 400);
    assert_eq!(http_status_of(HandlerError::Conflict), 409);
    assert_eq!(http_status_of(HandlerError::NotFound), 404);
    assert_eq!(http_status_of(HandlerError::StoreUnavailable), 500);
}

#[test]
fn profile_url_is_base_plus_name() {
    assert_eq!(
        profile_url_for("ehotlovea"),
        "https://chaturbate.com/ehotlovea"
    );
    assert_eq!(profile_url_for(""), "https://chaturbate.com/");
}
