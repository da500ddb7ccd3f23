//! Client settings for the message broker.
use vstd::prelude::*;

verus! {

/// Context of the archiving consumer; its callbacks report offset stores.
pub struct LoggingConsumerContext;

/// A setting name with its value.
pub type Setting = (String, String);

pub open spec fn setting_views(v: Seq<Setting>) -> Seq<(Seq<char>, Seq<char>)> {
    v.map_values(|p: Setting| (p.0@, p.1@))
}

/// Consumer settings: the group and brokers, no end-of-partition events,
/// offsets stored only explicitly and committed every five seconds.
pub open spec fn spec_consumer_settings(brokers: Seq<char>, group_id: Seq<char>) -> Seq<
    (Seq<char>, Seq<char>),
> {
    seq![
        ("group.id"@, group_id),
        ("bootstrap.servers"@, brokers),
        ("enable.partition.eof"@, "false"@),
        ("session.timeout.ms"@, "6000"@),
        ("enable.auto.commit"@, "true"@),
        ("auto.commit.interval.ms"@, "5000"@),
        ("enable.auto.offset.store"@, "false"@),
    ]
}

/// SASL over TLS with a user name and password.
pub open spec fn spec_auth_settings(username: Seq<char>, password: Seq<char>) -> Seq<
    (Seq<char>, Seq<char>),
> {
    seq![
        ("security.protocol"@, "sasl_ssl"@),
        ("sasl.mechanism"@, "PLAIN"@),
        ("sasl.username"@, username),
        ("sasl.password"@, password),
    ]
}

fn setting(name: &str, value: &str) -> (r: Setting)
    ensures
        r.0@ == name@,
        r.1@ == value@,
{
    (String::from_str(name), String::from_str(value))
}

/// The settings of the archiving consumer; the credentials are added only
/// when a user name is given.
pub fn consumer_settings(brokers: &str, group_id: &str, username: &str, password: &str) -> (r:
    Vec<Setting>)
    ensures
        setting_views(r@) == spec_consumer_settings(brokers@, group_id@) + (if username@.len()
            == 0 {
            Seq::empty()
        } else {
            spec_auth_settings(username@, password@)
        }),
{
    let mut r: Vec<Setting> = Vec::new();
    r.push(setting("group.id", group_id));
    r.push(setting("bootstrap.servers", brokers));
    r.push(setting("enable.partition.eof", "false"));
    r.push(setting("session.timeout.ms", "6000"));
    r.push(setting("enable.auto.commit", "true"));
    r.push(setting("auto.commit.interval.ms", "5000"));
    r.push(setting("enable.auto.offset.store", "false"));
    let ghost base = r@;
    assert(setting_views(base) =~= spec_consumer_settings(brokers@, group_id@));
    if username.is_empty() {
        assert(setting_views(r@) =~= spec_consumer_settings(brokers@, group_id@) + Seq::empty());
    } else {
        r.push(setting("security.protocol", "sasl_ssl"));
        r.push(setting("sasl.mechanism", "PLAIN"));
        r.push(setting("sasl.username", username));
        r.push(setting("sasl.password", password));
        assert(setting_views(r@) =~= spec_consumer_settings(brokers@, group_id@)
            + spec_auth_settings(username@, password@));
    }
    r
}

/// The settings of a producer that sends without buffering.
pub fn producer_settings(brokers: &str) -> (r: Vec<Setting>)
    ensures
        setting_views(r@) == seq![
            ("bootstrap.servers"@, brokers@),
            ("queue.buffering.max.ms"@, "0"@),
        ],
{
    let mut r: Vec<Setting> = Vec::new();
    r.push(setting("bootstrap.servers", brokers));
    r.push(setting("queue.buffering.max.ms", "0"));
    assert(setting_views(r@) =~= seq![
        ("bootstrap.servers"@, brokers@),
        ("queue.buffering.max.ms"@, "0"@),
    ]);
    r
}

} // verus!
