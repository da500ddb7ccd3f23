//! The slice manager of one topic, as a state machine: the caller hands it
//! each event (a record, the result of an upload or of an offset store) and
//! performs the action it returns.
use vstd::prelude::*;
use crate::naming::ArchiveNames;
use crate::offsets::{lists_offsets, TopicPartitionOffset};
use crate::slice::{frame_bytes, record_frame, record_key, Record, Slice};
use crate::upload::{after_attempt, spec_after_attempt, UploadDecision, MAX_UPLOAD_ATTEMPTS};
use crate::window::{spec_window_start, usable_event_time, window_start, MAX_EVENT_MILLIS};

verus! {

/// What happened outside.
pub enum Event {
    /// The feed delivered a record.
    Message(Record),
    /// The feed is exhausted or was cancelled.
    FeedEnded,
    /// Creating or writing the staging file failed.
    StagingFailed,
    /// The last upload attempt succeeded (`true`) or failed.
    UploadResult(bool),
    /// Storing the offsets succeeded (`true`) or failed.
    CommitResult(bool),
}

/// Why a topic's pipeline stopped.
pub enum DumpError {
    /// Every upload attempt failed; the staging file is left for recovery.
    UploadExhausted { staging_file: String },
    /// The offsets could not be stored.
    CommitFailed,
    /// The staging file could not be written.
    StagingFailed,
    /// An event came that the current phase does not wait for.
    UnexpectedEvent,
}

/// What the caller does next.
pub enum Action {
    /// The record had no usable event time and was dropped.
    Skip,
    /// Append `bytes` to the staging file, creating it first if `create`.
    Stage { staging_file: String, create: bool, bytes: Vec<u8> },
    /// Close the staging file's archive and upload it under `bucket`/`key`.
    Upload { staging_file: String, bucket: String, key: String, attempt: u8 },
    /// The archive is stored: remove the staging file, then store `offsets`.
    Commit { staging_file: String, offsets: Vec<TopicPartitionOffset> },
    /// The feed ended and every slice is archived.
    Finish,
    /// Stop the pipeline with an error.
    Fail(DumpError),
    /// The pipeline has stopped; nothing is done any more.
    Halted,
}

/// Phase of the manager.
pub enum Phase {
    /// Taking records.
    Accepting,
    /// Uploading the archive of the current slice.
    Uploading,
    /// Storing the offsets of the current slice.
    Committing,
    /// Stopped for good.
    Stopped,
}

/// The window of a record, when its event time is usable.
pub open spec fn record_window(r: Record) -> Option<int> {
    match r.event_time {
        Some(t) => if usable_event_time(t as int) {
            Some(spec_window_start(t as int))
        } else {
            None
        },
        None => None,
    }
}

/// `a` appends the frame of `payload` to `names`' staging file.
pub open spec fn is_stage(a: Action, names: ArchiveNames, create: bool, payload: Seq<u8>) -> bool {
    a matches Action::Stage { staging_file, create: c, bytes } && staging_file@
        == names.staging_file@ && c == create && bytes@ == frame_bytes(payload)
}

/// `a` is attempt number `n` to upload the archive of `s`.
pub open spec fn is_upload(a: Action, s: Slice, n: int) -> bool {
    a matches Action::Upload { staging_file, bucket, key, attempt } && staging_file@
        == s.names.staging_file@ && bucket@ == s.names.bucket@ && key@ == s.names.key@ && attempt
        == n
}

/// `a` stores exactly the offsets tracked by `s`.
pub open spec fn is_commit(a: Action, s: Slice) -> bool {
    a matches Action::Commit { staging_file, offsets } && staging_file@ == s.names.staging_file@
        && lists_offsets(offsets@, s.offsets@)
}

/// The archiving pipeline of one topic.
pub struct KafkaDumper {
    pub topic: String,
    pub bucket_prefix: String,
    pub phase: Phase,
    /// The open slice.
    pub current: Option<Slice>,
    /// Number of the upload attempt under way.
    pub attempt: u8,
    /// The record that closed the current slice, held back until the slice
    /// is archived; none while the slice is archived because the feed ended.
    pub pending: Option<Record>,
}

impl KafkaDumper {
    pub open spec fn wf(&self) -> bool {
        &&& self.current matches Some(s) ==> s.wf() && s.prefix@ == self.bucket_prefix@
        &&& self.phase is Accepting ==> self.pending is None
        &&& (self.phase is Uploading || self.phase is Committing) ==> self.current is Some
        &&& self.phase is Uploading ==> 1 <= self.attempt <= MAX_UPLOAD_ATTEMPTS
        &&& self.pending matches Some(r) ==> record_window(r) is Some
    }

    /// A manager for `topic` with no slice open.
    pub fn new(topic: &str, bucket_prefix: &str) -> (r: KafkaDumper)
        ensures
            r.wf(),
            r.topic@ == topic@,
            r.bucket_prefix@ == bucket_prefix@,
            r.phase is Accepting,
            r.current is None,
    {
        KafkaDumper {
            topic: String::from_str(topic),
            bucket_prefix: String::from_str(bucket_prefix),
            phase: Phase::Accepting,
            current: None,
            attempt: 0,
            pending: None,
        }
    }

    /// The usable event time of a record, if it has one.
    fn usable_time(r: &Record) -> (t: Option<i64>)
        ensures
            match t {
                Some(t) => record_window(*r) == Some(spec_window_start(t as int))
                    && usable_event_time(t as int),
                None => record_window(*r) is None,
            },
    {
        match r.event_time {
            Some(t) => if 0 <= t && t <= MAX_EVENT_MILLIS {
                Some(t)
            } else {
                None
            },
            None => None,
        }
    }

    /// Opens a slice for `r` and stages its frame.
    fn open_with(&mut self, r: Record, window: i64) -> (a: Action)
        requires
            old(self).wf(),
            old(self).current is None,
            old(self).pending is None,
            usable_event_time(window as int),
        ensures
            final(self).wf(),
            final(self).phase is Accepting,
            final(self).topic == old(self).topic,
            final(self).bucket_prefix == old(self).bucket_prefix,
            final(self).pending is None,
            final(self).current matches Some(s) && s.slice == window && s.topic@ == r.topic@
                && s.offsets@ == Map::<(Seq<char>, i32), i64>::empty().insert(
                record_key(r),
                r.offset,
            ) && s.content@ == frame_bytes(r.payload@) && is_stage(a, s.names, true, r.payload@),
    {
        let s = Slice::new(window, &r, &self.bucket_prefix);
        let bytes = record_frame(&r.payload);
        let a = Action::Stage { staging_file: s.names.staging_file.clone(), create: true, bytes };
        self.current = Some(s);
        self.phase = Phase::Accepting;
        a
    }

    /// Stops with `e`.
    fn fail(&mut self, e: DumpError) -> (a: Action)
        requires
            old(self).wf(),
        ensures
            final(self).wf(),
            final(self).phase is Stopped,
            final(self).topic == old(self).topic,
            final(self).bucket_prefix == old(self).bucket_prefix,
            final(self).current == old(self).current,
            a == Action::Fail(e),
    {
        self.phase = Phase::Stopped;
        Action::Fail(e)
    }

    /// Takes one event and returns the action to perform.
    pub fn step(&mut self, event: Event) -> (a: Action)
        requires
            old(self).wf(),
        ensures
            Self::steps_to(*old(self), event, *final(self), a),
    {
        match self.phase {
            Phase::Stopped => Action::Halted,
            Phase::Accepting => self.step_accepting(event),
            Phase::Uploading => self.step_uploading(event),
            Phase::Committing => self.step_committing(event),
        }
    }

    /// One step of the manager: from `old`, on `event`, to `new`, with action `a`.
    pub open spec fn steps_to(old: KafkaDumper, event: Event, new: KafkaDumper, a: Action) -> bool {
        &&& new.wf()
        &&& new.topic == old.topic
        &&& new.bucket_prefix == old.bucket_prefix
        // A stopped pipeline stays as it is and does nothing.
        &&& old.phase is Stopped ==> a is Halted && new == old
        // Offsets are stored only once the upload of their slice succeeded.
        &&& a is Commit ==> old.phase is Uploading && event == Event::UploadResult(true)
            && new.phase is Committing
        &&& a is Upload ==> new.phase is Uploading
        &&& a is Fail ==> new.phase is Stopped
        &&& old.phase is Accepting ==> Self::accepting(old, event, new, a)
        &&& old.phase is Uploading ==> Self::uploading(old, event, new, a)
        &&& old.phase is Committing ==> Self::committing(old, event, new, a)
    }

    /// `new` has just opened the slice of window `w` with `r`, and `a` stages it.
    pub open spec fn opened_for(new: KafkaDumper, r: Record, w: int, a: Action) -> bool {
        &&& new.phase is Accepting
        &&& new.pending is None
        &&& new.current matches Some(s) && s.slice == w && s.offsets@ == Map::<
            (Seq<char>, i32),
            i64,
        >::empty().insert(record_key(r), r.offset) && s.content@ == frame_bytes(r.payload@)
            && is_stage(a, s.names, true, r.payload@)
    }

    /// `new` holds the slice `s` with `r` added, and `a` stages `r`.
    pub open spec fn appended_to(s: Slice, new: KafkaDumper, r: Record, a: Action) -> bool {
        &&& new.phase is Accepting
        &&& new.pending is None
        &&& new.current matches Some(n) && n.slice == s.slice && n.names == s.names && n.offsets@
            == s.offsets@.insert(record_key(r), r.offset) && n.content@ == s.content@ + frame_bytes(
            r.payload@,
        ) && is_stage(a, s.names, false, r.payload@)
    }

    /// While taking records: a record without a usable event time is
    /// skipped; one of a later window than the open slice starts the upload
    /// of that slice and is held back; any other is added to the open slice,
    /// or opens one. The end of the feed archives the open slice.
    pub open spec fn accepting(old: KafkaDumper, event: Event, new: KafkaDumper, a: Action) -> bool {
        match event {
            Event::Message(r) => match record_window(r) {
                None => a is Skip && new == old,
                Some(w) => match old.current {
                    None => Self::opened_for(new, r, w, a),
                    Some(s) => if w > s.slice {
                        new.phase is Uploading && new.current == Some(s) && new.pending == Some(r)
                            && new.attempt == 1 && is_upload(a, s, 1)
                    } else {
                        Self::appended_to(s, new, r, a)
                    },
                },
            },
            Event::FeedEnded => match old.current {
                None => a is Finish && new.phase is Stopped,
                Some(s) => new.phase is Uploading && new.current == Some(s) && new.pending is None
                    && new.attempt == 1 && is_upload(a, s, 1),
            },
            Event::StagingFailed => a == Action::Fail(DumpError::StagingFailed),
            _ => a == Action::Fail(DumpError::UnexpectedEvent),
        }
    }

    /// While uploading: each failed attempt before the last is followed by
    /// the next; the last failed one stops the pipeline with the staging file
    /// kept; success stores the slice's offsets.
    pub open spec fn uploading(old: KafkaDumper, event: Event, new: KafkaDumper, a: Action) -> bool {
        match event {
            Event::UploadResult(ok) => match old.current {
                Some(s) => match spec_after_attempt(old.attempt as int, ok) {
                    UploadDecision::Uploaded => is_commit(a, s) && new.current == old.current
                        && new.pending == old.pending,
                    UploadDecision::Retry => new.attempt == old.attempt + 1 && is_upload(
                        a,
                        s,
                        old.attempt + 1,
                    ) && new.current == old.current && new.pending == old.pending,
                    UploadDecision::GiveUp => {
                        &&& new.phase is Stopped
                        &&& a matches Action::Fail(DumpError::UploadExhausted { staging_file })
                            && staging_file@ == s.names.staging_file@
                    },
                },
                None => false,
            },
            _ => a == Action::Fail(DumpError::UnexpectedEvent),
        }
    }

    /// While storing offsets: success closes the slice and opens the next
    /// one with the held-back record, or finishes when the feed has ended.
    pub open spec fn committing(old: KafkaDumper, event: Event, new: KafkaDumper, a: Action) -> bool {
        match event {
            Event::CommitResult(true) => match old.pending {
                Some(r) => record_window(r) matches Some(w) && Self::opened_for(new, r, w, a),
                None => a is Finish && new.phase is Stopped && new.current is None,
            },
            Event::CommitResult(false) => a == Action::Fail(DumpError::CommitFailed),
            _ => a == Action::Fail(DumpError::UnexpectedEvent),
        }
    }

    fn step_accepting(&mut self, event: Event) -> (a: Action)
        requires
            old(self).wf(),
            old(self).phase is Accepting,
        ensures
            final(self).wf(),
            final(self).topic == old(self).topic,
            final(self).bucket_prefix == old(self).bucket_prefix,
            a is Upload ==> final(self).phase is Uploading,
            a is Fail ==> final(self).phase is Stopped,
            Self::accepting(*old(self), event, *final(self), a),
    {
        match event {
            Event::Message(r) => {
                let t = match Self::usable_time(&r) {
                    Some(t) => t,
                    None => {
                        return Action::Skip;
                    },
                };
                let w = window_start(t);
                match self.current.take() {
                    None => self.open_with(r, w),
                    Some(mut s) => {
                        if w > s.slice {
                            let a = Action::Upload {
                                staging_file: s.names.staging_file.clone(),
                                bucket: s.names.bucket.clone(),
                                key: s.names.key.clone(),
                                attempt: 1,
                            };
                            self.current = Some(s);
                            self.pending = Some(r);
                            self.attempt = 1;
                            self.phase = Phase::Uploading;
                            a
                        } else {
                            s.set_msg(&r);
                            let bytes = record_frame(&r.payload);
                            let a = Action::Stage {
                                staging_file: s.names.staging_file.clone(),
                                create: false,
                                bytes,
                            };
                            self.current = Some(s);
                            a
                        }
                    },
                }
            },
            Event::FeedEnded => {
                match &self.current {
                    None => {
                        self.phase = Phase::Stopped;
                        Action::Finish
                    },
                    Some(s) => {
                        let a = Action::Upload {
                            staging_file: s.names.staging_file.clone(),
                            bucket: s.names.bucket.clone(),
                            key: s.names.key.clone(),
                            attempt: 1,
                        };
                        self.attempt = 1;
                        self.phase = Phase::Uploading;
                        a
                    },
                }
            },
            Event::StagingFailed => self.fail(DumpError::StagingFailed),
            _ => self.fail(DumpError::UnexpectedEvent),
        }
    }

    fn step_uploading(&mut self, event: Event) -> (a: Action)
        requires
            old(self).wf(),
            old(self).phase is Uploading,
        ensures
            final(self).wf(),
            final(self).topic == old(self).topic,
            final(self).bucket_prefix == old(self).bucket_prefix,
            a is Commit ==> event == Event::UploadResult(true) && final(self).phase is Committing,
            a is Upload ==> final(self).phase is Uploading,
            a is Fail ==> final(self).phase is Stopped,
            Self::uploading(*old(self), event, *final(self), a),
    {
        match event {
            Event::UploadResult(ok) => {
                let s = match &self.current {
                    Some(s) => s,
                    None => {
                        return self.fail(DumpError::UnexpectedEvent);
                    },
                };
                match after_attempt(self.attempt, ok) {
                    UploadDecision::Uploaded => {
                        let a = Action::Commit {
                            staging_file: s.names.staging_file.clone(),
                            offsets: s.offsets.to_vec(),
                        };
                        self.phase = Phase::Committing;
                        a
                    },
                    UploadDecision::Retry => {
                        let a = Action::Upload {
                            staging_file: s.names.staging_file.clone(),
                            bucket: s.names.bucket.clone(),
                            key: s.names.key.clone(),
                            attempt: self.attempt + 1,
                        };
                        self.attempt = self.attempt + 1;
                        a
                    },
                    UploadDecision::GiveUp => {
                        let staging_file = s.names.staging_file.clone();
                        self.fail(DumpError::UploadExhausted { staging_file })
                    },
                }
            },
            _ => self.fail(DumpError::UnexpectedEvent),
        }
    }

    fn step_committing(&mut self, event: Event) -> (a: Action)
        requires
            old(self).wf(),
            old(self).phase is Committing,
        ensures
            final(self).wf(),
            final(self).topic == old(self).topic,
            final(self).bucket_prefix == old(self).bucket_prefix,
            !(a is Commit) && !(a is Upload),
            a is Fail ==> final(self).phase is Stopped,
            Self::committing(*old(self), event, *final(self), a),
    {
        match event {
            Event::CommitResult(ok) => {
                if !ok {
                    return self.fail(DumpError::CommitFailed);
                }
                self.current = None;
                match self.pending.take() {
                    Some(r) => {
                        let t = match Self::usable_time(&r) {
                            Some(t) => t,
                            None => {
                                return self.fail(DumpError::UnexpectedEvent);
                            },
                        };
                        let w = window_start(t);
                        self.phase = Phase::Accepting;
                        self.open_with(r, w)
                    },
                    None => {
                        self.phase = Phase::Stopped;
                        Action::Finish
                    },
                }
            },
            _ => self.fail(DumpError::UnexpectedEvent),
        }
    }
}

/// `ds[i]` steps to `ds[i + 1]` on `evs[i]` with action `acts[i]`.
pub open spec fn is_run(ds: Seq<KafkaDumper>, evs: Seq<Event>, acts: Seq<Action>) -> bool {
    &&& ds.len() == evs.len() + 1
    &&& acts.len() == evs.len()
    &&& ds[0].wf()
    &&& forall|i: int|
        0 <= i < evs.len() ==> KafkaDumper::steps_to(
            #[trigger] ds[i],
            evs[i],
            ds[i + 1],
            acts[i],
        )
}

/// Running from the first upload attempt of a slice while every attempt
/// fails: after `k` failures, fewer than the bound, the manager has asked
/// for attempts 2 to `k + 1` and is waiting on attempt `k + 1`.
proof fn lemma_failed_attempts(ds: Seq<KafkaDumper>, evs: Seq<Event>, acts: Seq<Action>, k: int)
    requires
        is_run(ds, evs, acts),
        ds[0].phase is Uploading,
        ds[0].attempt == 1,
        forall|i: int| 0 <= i < evs.len() ==> evs[i] == Event::UploadResult(false),
        0 <= k < MAX_UPLOAD_ATTEMPTS,
        k <= evs.len(),
    ensures
        ds[k].phase is Uploading,
        ds[k].attempt == k + 1,
        ds[k].current == ds[0].current,
        forall|j: int|
            0 <= j < k ==> (#[trigger] acts[j] matches Action::Upload { attempt, .. } && attempt
                == j + 2),
    decreases k,
{
    if k > 0 {
        lemma_failed_attempts(ds, evs, acts, k - 1);
        assert(KafkaDumper::steps_to(ds[k - 1], evs[k - 1], ds[k], acts[k - 1]));
    }
}

/// An upload that keeps failing is attempted `MAX_UPLOAD_ATTEMPTS` times in
/// all: from the first attempt the manager asks for attempts 2 to
/// `MAX_UPLOAD_ATTEMPTS`, then stops with the staging file kept, does
/// nothing more, and never asks for offsets to be stored.
pub proof fn lemma_failing_upload_stops_pipeline(
    ds: Seq<KafkaDumper>,
    evs: Seq<Event>,
    acts: Seq<Action>,
)
    requires
        is_run(ds, evs, acts),
        ds[0].phase is Uploading,
        ds[0].attempt == 1,
        forall|i: int| 0 <= i < evs.len() ==> evs[i] == Event::UploadResult(false),
        evs.len() >= MAX_UPLOAD_ATTEMPTS,
    ensures
        forall|i: int|
            0 <= i < MAX_UPLOAD_ATTEMPTS - 1 ==> (#[trigger] acts[i] matches Action::Upload {
                attempt,
                ..
            } && attempt == i + 2),
        acts[MAX_UPLOAD_ATTEMPTS - 1] matches Action::Fail(DumpError::UploadExhausted { .. }),
        forall|i: int| MAX_UPLOAD_ATTEMPTS <= i < acts.len() ==> #[trigger] acts[i] is Halted,
        forall|i: int| 0 <= i < acts.len() ==> !(#[trigger] acts[i] is Commit),
{
    let m = MAX_UPLOAD_ATTEMPTS - 1;
    lemma_failed_attempts(ds, evs, acts, m as int);
    assert(KafkaDumper::steps_to(ds[m as int], evs[m as int], ds[m + 1], acts[m as int]));
    lemma_stays_stopped(ds, evs, acts, m + 1);
    assert forall|i: int| 0 <= i < acts.len() implies !(#[trigger] acts[i] is Commit) by {
        assert(KafkaDumper::steps_to(ds[i], evs[i], ds[i + 1], acts[i]));
    }
}

/// Once stopped (an upload given up, with its staging file kept, or an offset
/// store failed), every later step is `Halted` and changes nothing: a second
/// attempt to finish the slice neither uploads nor stores offsets.
pub proof fn lemma_stays_stopped(ds: Seq<KafkaDumper>, evs: Seq<Event>, acts: Seq<Action>, s: int)
    requires
        is_run(ds, evs, acts),
        0 <= s <= evs.len(),
        ds[s].phase is Stopped,
    ensures
        forall|i: int| s <= i < acts.len() ==> #[trigger] acts[i] is Halted && ds[i + 1] == ds[s],
    decreases evs.len() - s,
{
    if s < evs.len() {
        assert(KafkaDumper::steps_to(ds[s], evs[s], ds[s + 1], acts[s]));
        lemma_stays_stopped(ds, evs, acts, s + 1);
    }
}

/// An upload that fails `n` times, fewer than the bound, and then succeeds:
/// the manager asks for attempts 2 to `n + 1`, and only after the success
/// asks, once, for exactly the slice's offsets to be stored.
pub proof fn lemma_commit_after_successful_upload(
    ds: Seq<KafkaDumper>,
    evs: Seq<Event>,
    acts: Seq<Action>,
    n: int,
)
    requires
        is_run(ds, evs, acts),
        ds[0].phase is Uploading,
        ds[0].attempt == 1,
        0 <= n < MAX_UPLOAD_ATTEMPTS,
        evs.len() == n + 1,
        forall|i: int| 0 <= i < n ==> evs[i] == Event::UploadResult(false),
        evs[n] == Event::UploadResult(true),
    ensures
        forall|j: int|
            0 <= j < n ==> (#[trigger] acts[j] matches Action::Upload { attempt, .. } && attempt
                == j + 2),
        ds[0].current matches Some(s) && is_commit(acts[n], s),
        ds[n + 1].phase is Committing,
{
    let fails = ds.subrange(0, n + 1);
    let fevs = evs.subrange(0, n);
    let facts = acts.subrange(0, n);
    assert forall|i: int| 0 <= i < fevs.len() implies KafkaDumper::steps_to(
        #[trigger] fails[i],
        fevs[i],
        fails[i + 1],
        facts[i],
    ) by {
        assert(KafkaDumper::steps_to(ds[i], evs[i], ds[i + 1], acts[i]));
    }
    lemma_failed_attempts(fails, fevs, facts, n);
    assert(KafkaDumper::steps_to(ds[n], evs[n], ds[n + 1], acts[n]));
    assert forall|j: int|
        0 <= j < n implies (#[trigger] acts[j] matches Action::Upload { attempt, .. } && attempt
        == j + 2) by {
        assert(facts[j] == acts[j]);
    }
}

} // verus!
