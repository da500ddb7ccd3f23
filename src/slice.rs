//! One window's worth of records: its archive names, the offsets it covers
//! and the bytes staged for its archive.
use vstd::prelude::*;
use crate::naming::{archive_names, ArchiveNames};
use crate::offsets::{OffsetTable, PartitionKey};
use crate::window::usable_event_time;

verus! {

/// A record of the feed.
pub struct Record {
    pub topic: String,
    pub partition: i32,
    pub offset: i64,
    /// Event time in milliseconds since the Unix epoch, when the record has one.
    pub event_time: Option<i64>,
    pub payload: Vec<u8>,
}

/// The (topic, partition) key of a record.
pub open spec fn record_key(r: Record) -> PartitionKey {
    (r.topic@, r.partition)
}

/// Bytes staged for one record: its payload and a newline.
pub open spec fn frame_bytes(payload: Seq<u8>) -> Seq<u8> {
    payload.push(10u8)
}

/// The payload followed by a newline separator.
pub fn record_frame(payload: &Vec<u8>) -> (r: Vec<u8>)
    ensures
        r@ == frame_bytes(payload@),
{
    let mut out: Vec<u8> = Vec::new();
    let mut i: usize = 0;
    while i < payload.len()
        invariant
            i <= payload@.len(),
            out@ == payload@.subrange(0, i as int),
        decreases payload@.len() - i,
    {
        out.push(payload[i]);
        i = i + 1;
    }
    assert(out@ =~= payload@);
    out.push(10u8);
    out
}

/// The open slice of one window.
pub struct Slice {
    /// Start of the window, in milliseconds since the Unix epoch.
    pub slice: i64,
    pub topic: String,
    pub names: ArchiveNames,
    pub offsets: OffsetTable,
    /// Bucket prefix the names were made with.
    pub prefix: Ghost<Seq<char>>,
    /// Uncompressed bytes staged so far.
    pub content: Ghost<Seq<u8>>,
}

impl Slice {
    pub open spec fn wf(&self) -> bool {
        &&& usable_event_time(self.slice as int)
        &&& self.offsets.wf()
        &&& self.names.names(self.prefix@, self.slice as int, self.topic@)
    }

    /// Opens the slice of window `slice` with its first record.
    pub fn new(slice: i64, first_msg: &Record, bucket_prefix: &String) -> (r: Slice)
        requires
            usable_event_time(slice as int),
        ensures
            r.wf(),
            r.slice == slice,
            r.topic@ == first_msg.topic@,
            r.prefix@ == bucket_prefix@,
            r.offsets@ == Map::<PartitionKey, i64>::empty().insert(
                record_key(*first_msg),
                first_msg.offset,
            ),
            r.content@ == frame_bytes(first_msg.payload@),
    {
        let names = archive_names(slice, &first_msg.topic, bucket_prefix);
        let mut s = Slice {
            slice,
            topic: first_msg.topic.clone(),
            names,
            offsets: OffsetTable::new(),
            prefix: Ghost(bucket_prefix@),
            content: Ghost(Seq::empty()),
        };
        s.set_msg(first_msg);
        assert(s.content@ =~= frame_bytes(first_msg.payload@));
        s
    }

    /// Adds a record: its offset becomes the one tracked for its key and its
    /// frame is staged.
    pub fn set_msg(&mut self, msg: &Record)
        requires
            old(self).wf(),
        ensures
            final(self).wf(),
            final(self).slice == old(self).slice,
            final(self).topic == old(self).topic,
            final(self).names == old(self).names,
            final(self).prefix == old(self).prefix,
            final(self).offsets@ == old(self).offsets@.insert(record_key(*msg), msg.offset),
            final(self).content@ == old(self).content@ + frame_bytes(msg.payload@),
    {
        self.offsets.upsert(&msg.topic, msg.partition, msg.offset);
        self.content = Ghost(self.content@ + frame_bytes(msg.payload@));
    }
}

} // verus!
