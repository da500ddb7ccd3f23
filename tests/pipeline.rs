use kafka_dumper::dumper::{Action, DumpError, Event, KafkaDumper, Phase};
use kafka_dumper::slice::Record;
use kafka_dumper::upload::MAX_UPLOAD_ATTEMPTS;

// 2020-01-01T10:00:00Z in milliseconds.
const TEN_OCLOCK: i64 = 1_577_872_800_000;

fn record(offset: i64, event_time: Option<i64>, payload: &str) -> Record {
    Record {
        topic: "clicks".to_string(),
        partition: 0,
        offset,
        event_time,
        payload: payload.as_bytes().to_vec(),
    }
}

/// What a driver saw while running the manager.
#[derive(Default)]
struct Log {
    uploads: Vec<(String, String, u8)>,
    commits: Vec<Vec<(String, i32, i64)>>,
    staged: Vec<(String, bool, Vec<u8>)>,
    order: Vec<&'static str>,
    skipped: usize,
    failure: Option<String>,
    finished: bool,
}

/// Runs the manager over `records`, then the end of the feed; the uploader
/// answers `uploads` in turn and succeeds once they run out.
fn drive(records: Vec<Record>, uploads: &[bool]) -> (KafkaDumper, Log) {
    let mut d = KafkaDumper::new("clicks", "archive");
    let mut log = Log::default();
    let mut upload_answers = uploads.iter();
    let mut events: Vec<Event> = records.into_iter().map(Event::Message).collect();
    events.push(Event::FeedEnded);
    for ev in events {
        let mut next = Some(ev);
        while let Some(e) = next.take() {
            match d.step(e) {
                Action::Skip => log.skipped += 1,
                Action::Stage { staging_file, create, bytes } => {
                    log.staged.push((staging_file, create, bytes));
                    log.order.push("stage");
                }
                Action::Upload { bucket, key, attempt, .. } => {
                    log.uploads.push((bucket, key, attempt));
                    log.order.push("upload");
                    let ok = *upload_answers.next().unwrap_or(&true);
                    next = Some(Event::UploadResult(ok));
                }
                Action::Commit { offsets, .. } => {
                    log.commits.push(
                        offsets.into_iter().map(|o| (o.topic, o.partition, o.offset)).collect(),
                    );
                    log.order.push("commit");
                    next = Some(Event::CommitResult(true));
                }
                Action::Finish => log.finished = true,
                Action::Fail(e) => {
                    log.failure = Some(match e {
                        DumpError::UploadExhausted { staging_file } => staging_file,
                        DumpError::CommitFailed => "commit".to_string(),
                        DumpError::StagingFailed => "staging".to_string(),
                        DumpError::UnexpectedEvent => "unexpected".to_string(),
                    })
                }
                Action::Halted => {}
            }
        }
    }
    (d, log)
}

#[test]
fn three_records_make_two_slices() {
    let recs = vec![
        record(1, Some(TEN_OCLOCK), "a"),
        record(2, Some(TEN_OCLOCK + 150_000), "b"),
        record(3, Some(TEN_OCLOCK + 310_000), "c"),
    ];
    let (_, log) = drive(recs, &[]);
    assert_eq!(
        log.uploads,
        vec![
            ("archive/clicks/2020-01-01".to_string(), "10:00:00-clicks.gz".to_string(), 1),
            ("archive/clicks/2020-01-01".to_string(), "10:05:00-clicks.gz".to_string(), 1),
        ]
    );
    assert_eq!(
        log.commits,
        vec![vec![("clicks".to_string(), 0, 2)], vec![("clicks".to_string(), 0, 3)]]
    );
    assert_eq!(
        log.order,
        vec!["stage", "stage", "upload", "commit", "stage", "upload", "commit"]
    );
    assert_eq!(
        log.staged,
        vec![
            ("2020-01-01_10:00:00-clicks.gz".to_string(), true, b"a\n".to_vec()),
            ("2020-01-01_10:00:00-clicks.gz".to_string(), false, b"b\n".to_vec()),
            ("2020-01-01_10:05:00-clicks.gz".to_string(), true, b"c\n".to_vec()),
        ]
    );
    assert!(log.finished);
    assert!(log.failure.is_none());
}

#[test]
fn record_without_timestamp_is_skipped() {
    let recs = vec![
        record(1, Some(TEN_OCLOCK), "a"),
        record(2, None, "lost"),
        record(3, Some(TEN_OCLOCK + 1_000), "b"),
    ];
    let (_, log) = drive(recs, &[]);
    assert_eq!(log.skipped, 1);
    assert_eq!(log.uploads.len(), 1);
    assert_eq!(log.commits, vec![vec![("clicks".to_string(), 0, 3)]]);
    let staged: Vec<Vec<u8>> = log.staged.iter().map(|s| s.2.clone()).collect();
    assert_eq!(staged, vec![b"a\n".to_vec(), b"b\n".to_vec()]);
    assert!(log.finished);
}

#[test]
fn timestamp_out_of_range_is_skipped() {
    let recs = vec![record(1, Some(-5), "neg"), record(2, Some(i64::MAX), "far")];
    let (_, log) = drive(recs, &[]);
    assert_eq!(log.skipped, 2);
    assert!(log.uploads.is_empty());
    assert!(log.commits.is_empty());
}

#[test]
fn commit_follows_successful_upload_after_failures() {
    let recs = vec![record(7, Some(TEN_OCLOCK), "a")];
    let (_, log) = drive(recs, &[false, false, false]);
    let attempts: Vec<u8> = log.uploads.iter().map(|u| u.2).collect();
    assert_eq!(attempts, vec![1, 2, 3, 4]);
    assert_eq!(log.commits.len(), 1);
    assert_eq!(log.order, vec!["stage", "upload", "upload", "upload", "upload", "commit"]);
    assert!(log.finished);
}

#[test]
fn failing_uploader_is_tried_the_configured_number_of_times() {
    let recs = vec![record(7, Some(TEN_OCLOCK), "a")];
    let (d, log) = drive(recs, &[false; 20]);
    assert_eq!(log.uploads.len(), MAX_UPLOAD_ATTEMPTS as usize);
    assert_eq!(log.uploads.len(), 10);
    assert!(log.commits.is_empty());
    assert_eq!(log.failure, Some("2020-01-01_10:00:00-clicks.gz".to_string()));
    assert!(matches!(d.phase, Phase::Stopped));
}

#[test]
fn stopped_pipeline_leaves_staging_file_and_does_nothing() {
    let mut d = KafkaDumper::new("clicks", "archive");
    assert!(matches!(d.step(Event::Message(record(1, Some(TEN_OCLOCK), "a"))), Action::Stage { .. }));
    assert!(matches!(d.step(Event::FeedEnded), Action::Upload { attempt: 1, .. }));
    for _ in 1..10 {
        assert!(matches!(d.step(Event::UploadResult(false)), Action::Upload { .. }));
    }
    match d.step(Event::UploadResult(false)) {
        Action::Fail(DumpError::UploadExhausted { staging_file }) => {
            assert_eq!(staging_file, "2020-01-01_10:00:00-clicks.gz")
        }
        _ => panic!("expected the upload to be given up"),
    }
    // A second finalize attempt on the stopped pipeline neither uploads nor commits.
    assert!(matches!(d.step(Event::FeedEnded), Action::Halted));
    assert!(matches!(d.step(Event::UploadResult(true)), Action::Halted));
    assert!(matches!(d.step(Event::CommitResult(true)), Action::Halted));
    assert!(d.current.is_some());
}

#[test]
fn restarted_pipeline_uses_the_same_names() {
    let recs = || vec![record(1, Some(TEN_OCLOCK + 42), "a")];
    let (_, first) = drive(recs(), &[]);
    let (_, second) = drive(recs(), &[]);
    assert_eq!(first.uploads, second.uploads);
    assert_eq!(first.staged, second.staged);
}

#[test]
fn late_record_joins_the_open_slice() {
    let recs = vec![
        record(1, Some(TEN_OCLOCK), "a"),
        record(2, Some(TEN_OCLOCK + 300_000), "b"),
        record(3, Some(TEN_OCLOCK + 10), "late"),
    ];
    let (_, log) = drive(recs, &[]);
    assert_eq!(log.uploads.len(), 2);
    assert_eq!(log.uploads[1].1, "10:05:00-clicks.gz");
    assert_eq!(log.commits[1], vec![("clicks".to_string(), 0, 3)]);
}

#[test]
fn commit_failure_stops_the_pipeline() {
    let mut d = KafkaDumper::new("clicks", "archive");
    d.step(Event::Message(record(1, Some(TEN_OCLOCK), "a")));
    d.step(Event::FeedEnded);
    assert!(matches!(d.step(Event::UploadResult(true)), Action::Commit { .. }));
    assert!(matches!(d.step(Event::CommitResult(false)), Action::Fail(DumpError::CommitFailed)));
    assert!(matches!(d.step(Event::CommitResult(true)), Action::Halted));
}

#[test]
fn staging_failure_stops_the_pipeline() {
    let mut d = KafkaDumper::new("clicks", "archive");
    d.step(Event::Message(record(1, Some(TEN_OCLOCK), "a")));
    assert!(matches!(d.step(Event::StagingFailed), Action::Fail(DumpError::StagingFailed)));
}

#[test]
fn unexpected_event_stops_the_pipeline() {
    let mut d = KafkaDumper::new("clicks", "archive");
    assert!(matches!(d.step(Event::UploadResult(true)), Action::Fail(DumpError::UnexpectedEvent)));
    assert!(matches!(d.phase, Phase::Stopped));
}

#[test]
fn empty_feed_finishes_without_upload() {
    let (_, log) = drive(vec![], &[]);
    assert!(log.finished);
    assert!(log.uploads.is_empty());
}

#[test]
fn offsets_of_each_partition_are_committed() {
    let mut b = record(5, Some(TEN_OCLOCK + 1), "b");
    b.partition = 1;
    let recs = vec![record(3, Some(TEN_OCLOCK), "a"), b, record(4, Some(TEN_OCLOCK + 2), "c")];
    let (_, log) = drive(recs, &[]);
    let mut c = log.commits[0].clone();
    c.sort();
    assert_eq!(c, vec![("clicks".to_string(), 0, 4), ("clicks".to_string(), 1, 5)]);
}
