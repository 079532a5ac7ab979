use dropbox::dropbox::{
    check_dest, move_to_error, plan_check_dest, plan_move_to_error, DropBoxError, DropBoxes,
};

#[test]
fn plan_unoccupied_archive_keeps_name() {
    let op = plan_move_to_error("/proc/in/report.csv", "/proc/err/report.csv", false, None)
        .unwrap();
    assert_eq!(op.from, "/proc/in/report.csv");
    assert_eq!(op.to, "/proc/err/report.csv");
}

#[test]
fn plan_occupied_archive_gets_epoch_suffix() {
    let op = plan_move_to_error(
        "/proc/in/report.csv",
        "/proc/err/report.csv",
        true,
        Some(1700000000),
    )
    .unwrap();
    assert_eq!(op.from, "/proc/in/report.csv");
    assert_eq!(op.to, "/proc/err/report.csv.1700000000");
}

#[test]
fn plan_suffix_edge_values() {
    let op = plan_move_to_error("a", "b", true, Some(0)).unwrap();
    assert_eq!(op.to, "b.0");
    let op = plan_move_to_error("a", "b", true, Some(18446744073709551615)).unwrap();
    assert_eq!(op.to, "b.18446744073709551615");
}

#[test]
fn plan_unreadable_clock_fails_with_time() {
    assert!(matches!(
        plan_move_to_error("a", "b", true, None),
        Err(DropBoxError::Time)
    ));
    assert!(matches!(
        plan_check_dest("a", "b", true, true, None),
        Err(DropBoxError::Time)
    ));
}

#[test]
fn plan_free_destination_needs_no_move() {
    let r = plan_check_dest("/done/report.csv", "/err/report.csv", false, false, None).unwrap();
    assert!(r.is_none());
}

#[test]
fn plan_collision_evacuates_then_promotes() {
    let op = plan_check_dest("/done/report.csv", "/err/report.csv", true, false, None)
        .unwrap()
        .unwrap();
    assert_eq!(op.from, "/done/report.csv");
    assert_eq!(op.to, "/err/report.csv");
    let op = plan_check_dest("/done/report.csv", "/err/report.csv", true, true, Some(99))
        .unwrap()
        .unwrap();
    assert_eq!(op.from, "/done/report.csv");
    assert_eq!(op.to, "/err/report.csv.99");
}

#[test]
fn archived_occupant_keeps_base_name() {
    // The suffix only extends the base filename: the evicted file stays in
    // the error directory, beside where it would have gone.
    let op = plan_check_dest("/done/report.csv", "/err/report.csv", true, true, Some(99))
        .unwrap()
        .unwrap();
    assert_eq!(dropbox::file::basename(&op.to), Some("report.csv.99"));
}

#[test]
fn move_to_error_probes_free_archive_slot() {
    let op = move_to_error("/tmp/input", "/tmpdirprobablydoesnotexist/input").unwrap();
    assert_eq!(op.from, "/tmp/input");
    assert_eq!(op.to, "/tmpdirprobablydoesnotexist/input");
}

#[test]
fn move_to_error_probes_occupied_archive_slot() {
    // "/tmp" itself exists, so the plan must disambiguate with a suffix.
    let op = move_to_error("/tmp/input", "/tmp").unwrap();
    assert_eq!(op.from, "/tmp/input");
    let suffix = op.to.strip_prefix("/tmp.").unwrap();
    assert!(!suffix.is_empty());
    assert!(suffix.bytes().all(|b| b.is_ascii_digit()));
}

#[test]
fn check_dest_leaves_free_slot_alone() {
    let r = check_dest("/tmpdirprobablydoesnotexist", "/tmp/archive").unwrap();
    assert!(r.is_none());
}

#[test]
fn check_dest_evacuates_occupied_slot() {
    // "/tmp" exists; the free archive path is used as given.
    let op = check_dest("/tmp", "/tmpdirprobablydoesnotexist/archive")
        .unwrap()
        .unwrap();
    assert_eq!(op.from, "/tmp");
    assert_eq!(op.to, "/tmpdirprobablydoesnotexist/archive");
}

fn boxes() -> DropBoxes {
    DropBoxes {
        target: "/data/target".to_string(),
        error: "/data/error".to_string(),
        processing: "/data/processing".to_string(),
        processed: "/data/processed".to_string(),
        other: None,
    }
}

#[test]
fn generate_filepaths_builds_sibling_plan() {
    let (fp, op) = boxes().generate_filepaths("/data/target/report.csv").unwrap();
    assert_eq!(fp.filename, "report.csv");
    assert_eq!(fp.error, "/data/error/report.csv");
    assert_eq!(fp.processing, "/data/processing/report.csv");
    assert_eq!(fp.processed, "/data/processed/report.csv");
    // "/data/processed/report.csv" names nothing on this machine.
    assert!(op.is_none());
}

#[test]
fn generate_filepaths_rejects_nameless_input() {
    match boxes().generate_filepaths("..") {
        Err(DropBoxError::Misc(m)) => assert_eq!(m, "basename from filename"),
        _ => panic!(),
    }
}

#[test]
fn generate_filepaths_archives_stale_occupant() {
    // The processed slot for this plan is "/tmp", which exists, so the plan
    // must evacuate it toward the error slot, which does not exist yet.
    let dirs = DropBoxes {
        target: "/data/target".to_string(),
        error: "/tmpdirprobablydoesnotexist".to_string(),
        processing: "/data/processing".to_string(),
        processed: "/".to_string(),
        other: None,
    };
    let (fp, op) = dirs.generate_filepaths("anywhere/tmp").unwrap();
    assert_eq!(fp.processed, "/tmp");
    let op = op.unwrap();
    assert_eq!(op.from, "/tmp");
    assert_eq!(op.to, "/tmpdirprobablydoesnotexist/tmp");
}
