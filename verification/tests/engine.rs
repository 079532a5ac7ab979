use dropbox::dropbox::{list_matching, new_filter, DropBoxDir, DropBoxDirs, DropBoxError, DropBoxes};
use dropbox::monitor::{is_terminal, monitor_step, MonitorEvent, MonitorState, DEFAULT_SLEEP_INTERVAL};

fn names(v: &[&str]) -> Vec<String> {
    v.iter().map(|s| s.to_string()).collect()
}

#[test]
fn filter_selects_matching_names() {
    let filter = Some(".*\\.csv$".to_string());
    let listed = list_matching(
        "/data/in",
        &filter,
        &names(&["report.csv", "notes.txt", "data.csv"]),
    );
    assert_eq!(listed, vec!["/data/in/report.csv", "/data/in/data.csv"]);
}

#[test]
fn no_filter_selects_everything() {
    let listed = list_matching("/data/in", &None, &names(&["a", "b.txt"]));
    assert_eq!(listed, vec!["/data/in/a", "/data/in/b.txt"]);
}

#[test]
fn listing_is_idempotent() {
    let filter = Some("^r".to_string());
    let entries = names(&["report.csv", "zebra", "rest"]);
    let first = list_matching("/in", &filter, &entries);
    let second = list_matching("/in", &filter, &entries);
    assert_eq!(first, second);
    let mut first_sorted = first.clone();
    first_sorted.sort();
    let mut second_sorted = second;
    second_sorted.sort();
    assert_eq!(first_sorted, second_sorted);
}

#[test]
fn filter_validation() {
    assert!(matches!(new_filter(&None), Ok(None)));
    match new_filter(&Some(".*\\.csv$".to_string())) {
        Ok(Some(p)) => assert_eq!(p, ".*\\.csv$"),
        _ => panic!(),
    }
    assert!(matches!(
        new_filter(&Some("[".to_string())),
        Err(DropBoxError::Regex(_))
    ));
}

#[test]
fn resolve_validates_every_directory() {
    let dirs = DropBoxDirs {
        target: "/tmp",
        error: "/tmp",
        processing: "/tmp",
        processed: "/tmp",
        other: Some(vec![("logs", "/tmp")]),
    };
    let boxes = DropBoxes::resolve(&dirs).unwrap();
    assert_eq!(boxes.target, "/tmp");
    assert_eq!(boxes.processed, "/tmp");
    let other = boxes.other.unwrap();
    assert_eq!(other.len(), 1);
    assert_eq!(other[0].0, "logs");
    assert_eq!(other[0].1, "/tmp");

    let bad = DropBoxDirs {
        target: "/tmpdirprobablydoesnotexist",
        error: "/tmp",
        processing: "/tmp",
        processed: "/tmp",
        other: None,
    };
    assert!(matches!(
        DropBoxes::resolve(&bad),
        Err(DropBoxError::Path(_))
    ));
}

#[test]
fn dir_path_selects_the_right_directory() {
    let boxes = DropBoxes {
        target: "/t".to_string(),
        error: "/e".to_string(),
        processing: "/prc".to_string(),
        processed: "/done".to_string(),
        other: None,
    };
    assert_eq!(boxes.dir_path(&DropBoxDir::Target), "/t");
    assert_eq!(boxes.dir_path(&DropBoxDir::Error), "/e");
    assert_eq!(boxes.dir_path(&DropBoxDir::Processing), "/prc");
    assert_eq!(boxes.dir_path(&DropBoxDir::Processed), "/done");
    assert_eq!(
        boxes.dir_path(&DropBoxDir::Other("/extra".to_string())),
        "/extra"
    );
}

#[test]
fn default_interval_is_five_seconds() {
    assert_eq!(DEFAULT_SLEEP_INTERVAL, 5000);
}

#[test]
fn iteration_dispatches_once_for_a_batch() {
    let s = monitor_step(&MonitorState::Checking, &MonitorEvent::Cancelled(false));
    assert_eq!(s, MonitorState::Listing);
    let s = monitor_step(&s, &MonitorEvent::Listed(1));
    assert_eq!(s, MonitorState::Dispatching);
    let s = monitor_step(&s, &MonitorEvent::HandlerDone(true));
    assert_eq!(s, MonitorState::Sleeping);
    let s = monitor_step(&s, &MonitorEvent::SleepElapsed);
    assert_eq!(s, MonitorState::Checking);
}

#[test]
fn empty_listing_stays_idle() {
    let s = monitor_step(&MonitorState::Listing, &MonitorEvent::Listed(0));
    assert_eq!(s, MonitorState::Idle);
    let s = monitor_step(&s, &MonitorEvent::Proceed);
    assert_eq!(s, MonitorState::Sleeping);
}

#[test]
fn handler_failure_is_not_fatal() {
    let s = monitor_step(&MonitorState::Dispatching, &MonitorEvent::HandlerDone(false));
    assert_eq!(s, MonitorState::Sleeping);
    assert!(!is_terminal(&s));
}

#[test]
fn listing_failure_is_fatal() {
    let s = monitor_step(&MonitorState::Listing, &MonitorEvent::ListFailed);
    assert_eq!(s, MonitorState::Failed);
    assert!(is_terminal(&s));
}

#[test]
fn cancellation_during_sleep_stops_within_one_check() {
    let s = monitor_step(&MonitorState::Sleeping, &MonitorEvent::SleepElapsed);
    assert_eq!(s, MonitorState::Checking);
    let s = monitor_step(&s, &MonitorEvent::Cancelled(true));
    assert_eq!(s, MonitorState::Stopped);
    assert!(is_terminal(&s));
    // A terminal state never moves again.
    let s = monitor_step(&s, &MonitorEvent::SleepElapsed);
    assert_eq!(s, MonitorState::Stopped);
}

#[test]
fn end_to_end_csv_iteration() {
    // One loop iteration over a target that holds report.csv, with a csv
    // filter: the batch is dispatched, the handler receives the absolute
    // path, and the per-file plan names the three sibling destinations.
    let boxes = DropBoxes {
        target: "/data/target".to_string(),
        error: "/data/error".to_string(),
        processing: "/data/processing".to_string(),
        processed: "/data/processed".to_string(),
        other: None,
    };
    let filter = new_filter(&Some(".*\\.csv$".to_string())).unwrap();

    let mut state = MonitorState::Checking;
    state = monitor_step(&state, &MonitorEvent::Cancelled(false));
    let batch = list_matching(&boxes.target, &filter, &names(&["report.csv"]));
    assert_eq!(batch, vec!["/data/target/report.csv"]);
    state = monitor_step(&state, &MonitorEvent::Listed(batch.len()));
    assert_eq!(state, MonitorState::Dispatching);

    let (fp, op) = boxes.generate_filepaths(&batch[0]).unwrap();
    assert_eq!(fp.filename, "report.csv");
    assert_eq!(fp.processing, "/data/processing/report.csv");
    assert_eq!(fp.processed, "/data/processed/report.csv");
    assert_eq!(fp.error, "/data/error/report.csv");
    assert!(op.is_none());

    // The handler renames target -> processing -> processed; afterward the
    // target listing is empty and the next iteration stays idle.
    state = monitor_step(&state, &MonitorEvent::HandlerDone(true));
    state = monitor_step(&state, &MonitorEvent::SleepElapsed);
    state = monitor_step(&state, &MonitorEvent::Cancelled(false));
    let batch = list_matching(&boxes.target, &filter, &names(&[]));
    assert!(batch.is_empty());
    state = monitor_step(&state, &MonitorEvent::Listed(batch.len()));
    assert_eq!(state, MonitorState::Idle);
}
