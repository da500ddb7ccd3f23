use kafka_dumper::guard::Guard;
use kafka_dumper::kafka::{consumer_settings, producer_settings};
use kafka_dumper::naming::archive_names;
use kafka_dumper::offsets::OffsetTable;
use kafka_dumper::settings::{AppEnv, KafkaAuthConfig, KafkaConfig};
use kafka_dumper::slice::{record_frame, Record, Slice};
use kafka_dumper::upload::{after_attempt, UploadDecision};
use kafka_dumper::window::{window_start, WINDOW_MILLIS};

#[test]
fn window_start_rounds_down_to_five_minutes() {
    assert_eq!(WINDOW_MILLIS, 300_000);
    assert_eq!(window_start(0), 0);
    assert_eq!(window_start(299_999), 0);
    assert_eq!(window_start(300_000), 300_000);
    assert_eq!(window_start(1_577_873_110_000), 1_577_873_100_000);
}

#[test]
fn records_of_one_window_share_its_start() {
    let w = 1_577_872_800_000;
    for t in [w, w + 1, w + 150_000, w + 299_999] {
        assert_eq!(window_start(t), w);
    }
    assert_eq!(window_start(w + 300_000), w + 300_000);
}

#[test]
fn archive_names_carry_date_time_and_topic() {
    let n = archive_names(1_577_872_800_000, &"clicks".to_string(), &"archive".to_string());
    assert_eq!(n.key, "10:00:00-clicks.gz");
    assert_eq!(n.bucket, "archive/clicks/2020-01-01");
    assert_eq!(n.staging_file, "2020-01-01_10:00:00-clicks.gz");
    let later = archive_names(1_577_923_200_000 + 3_723_000, &"t".to_string(), &"p".to_string());
    assert_eq!(later.key, "01:02:03-t.gz");
    assert_eq!(later.staging_file, "2020-01-02_01:02:03-t.gz");
}

#[test]
fn staging_names_differ_across_days() {
    let day = 86_400_000;
    let a = archive_names(1_577_872_800_000, &"clicks".to_string(), &"p".to_string());
    let b = archive_names(1_577_872_800_000 + day, &"clicks".to_string(), &"p".to_string());
    assert_eq!(a.key, b.key);
    assert_ne!(a.staging_file, b.staging_file);
}

#[test]
fn frame_appends_newline() {
    assert_eq!(record_frame(&b"hello".to_vec()), b"hello\n".to_vec());
    assert_eq!(record_frame(&Vec::new()), b"\n".to_vec());
}

#[test]
fn tracked_offset_is_the_latest() {
    let mut t = OffsetTable::new();
    let topic = "clicks".to_string();
    for off in [3, 8, 9, 15] {
        t.upsert(&topic, 2, off);
    }
    t.upsert(&topic, 1, 4);
    let mut v: Vec<(String, i32, i64)> =
        t.to_vec().into_iter().map(|o| (o.topic, o.partition, o.offset)).collect();
    v.sort();
    assert_eq!(v, vec![("clicks".to_string(), 1, 4), ("clicks".to_string(), 2, 15)]);
}

#[test]
fn slice_tracks_offsets_per_partition() {
    let rec = |p: i32, o: i64| Record {
        topic: "clicks".to_string(),
        partition: p,
        offset: o,
        event_time: Some(0),
        payload: vec![],
    };
    let mut s = Slice::new(0, &rec(0, 1), &"p".to_string());
    s.set_msg(&rec(0, 2));
    s.set_msg(&rec(3, 7));
    let mut v: Vec<(i32, i64)> = s.offsets.to_vec().iter().map(|o| (o.partition, o.offset)).collect();
    v.sort();
    assert_eq!(v, vec![(0, 2), (3, 7)]);
    assert_eq!(s.names.key, "00:00:00-clicks.gz");
    assert_eq!(s.names.bucket, "p/clicks/1970-01-01");
}

#[test]
fn retry_rule() {
    assert!(matches!(after_attempt(1, true), UploadDecision::Uploaded));
    assert!(matches!(after_attempt(1, false), UploadDecision::Retry));
    assert!(matches!(after_attempt(9, false), UploadDecision::Retry));
    assert!(matches!(after_attempt(10, false), UploadDecision::GiveUp));
    assert!(matches!(after_attempt(10, true), UploadDecision::Uploaded));
}

fn kafka_config(topics: &str) -> KafkaConfig {
    KafkaConfig {
        brokers: "b:9092".to_string(),
        topics: topics.to_string(),
        groupid: "g".to_string(),
        auth: KafkaAuthConfig { username: String::new(), password: String::new() },
    }
}

#[test]
fn topics_split_on_commas() {
    assert_eq!(kafka_config("clicks,views").topic_list(), vec!["clicks", "views"]);
    assert_eq!(kafka_config("a,,b,").topic_list(), vec!["a", "", "b", ""]);
    assert_eq!(kafka_config("").topic_list(), vec![""]);
    assert_eq!(kafka_config("one").topic_list(), vec!["one"]);
}

#[test]
fn consumer_settings_without_credentials() {
    let s = consumer_settings("b:9092", "g", "", "");
    assert_eq!(s.len(), 7);
    assert_eq!(s[0], ("group.id".to_string(), "g".to_string()));
    assert_eq!(s[1], ("bootstrap.servers".to_string(), "b:9092".to_string()));
    assert_eq!(s[6], ("enable.auto.offset.store".to_string(), "false".to_string()));
}

#[test]
fn consumer_settings_with_credentials() {
    let s = consumer_settings("b:9092", "g", "user", "SECRET-REDACTED");
    assert_eq!(s.len(), 11);
    assert_eq!(s[7], ("security.protocol".to_string(), "sasl_ssl".to_string()));
    assert_eq!(s[9], ("sasl.username".to_string(), "user".to_string()));
    assert_eq!(s[10], ("sasl.password".to_string(), "SECRET-REDACTED".to_string()));
}

#[test]
fn producer_does_not_buffer() {
    let s = producer_settings("b:9092");
    assert_eq!(
        s,
        vec![
            ("bootstrap.servers".to_string(), "b:9092".to_string()),
            ("queue.buffering.max.ms".to_string(), "0".to_string()),
        ]
    );
}

#[test]
fn app_env_names() {
    assert_eq!(AppEnv::Development.name(), "development");
    assert_eq!(AppEnv::Production.name(), "production");
}

#[test]
fn guard_reports_values() {
    assert!(Some(1).is_valid());
    assert!(!None::<i32>.is_valid());
    assert!(Ok::<i32, ()>(1).is_valid());
    assert!(!Err::<i32, ()>(()).is_valid());
}
