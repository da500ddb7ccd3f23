//! The highest offset seen for each (topic, partition) of a slice.
use vstd::prelude::*;

verus! {

/// A (topic, partition) key with its offset.
pub struct TopicPartitionOffset {
    pub topic: String,
    pub partition: i32,
    pub offset: i64,
}

/// Key of an offset entry, as plain values.
pub type PartitionKey = (Seq<char>, i32);

pub open spec fn entry_key(e: TopicPartitionOffset) -> PartitionKey {
    (e.topic@, e.partition)
}

/// `v` lists the map `m`: one entry per key of `m`, with its offset.
pub open spec fn lists_offsets(v: Seq<TopicPartitionOffset>, m: Map<PartitionKey, i64>) -> bool {
    &&& forall|i: int, j: int|
        0 <= i < j < v.len() ==> entry_key(#[trigger] v[i]) != entry_key(#[trigger] v[j])
    &&& forall|i: int|
        0 <= i < v.len() ==> {
            &&& m.contains_key(#[trigger] entry_key(v[i]))
            &&& m[entry_key(v[i])] == v[i].offset
        }
    &&& forall|k: PartitionKey|
        #[trigger] m.contains_key(k) ==> exists|i: int| 0 <= i < v.len() && entry_key(#[trigger] v[i]) == k
}

/// Offsets per (topic, partition), one entry per key.
pub struct OffsetTable {
    pub entries: Vec<TopicPartitionOffset>,
    pub map: Ghost<Map<PartitionKey, i64>>,
}

impl OffsetTable {
    /// The table as a map from key to offset.
    pub open spec fn view(&self) -> Map<PartitionKey, i64> {
        self.map@
    }

    /// Keys are unique and the entries list exactly the map.
    pub open spec fn wf(&self) -> bool {
        &&& forall|i: int, j: int|
            0 <= i < j < self.entries@.len() ==> entry_key(#[trigger] self.entries@[i])
                != entry_key(#[trigger] self.entries@[j])
        &&& forall|i: int|
            0 <= i < self.entries@.len() ==> {
                &&& self.map@.contains_key(#[trigger] entry_key(self.entries@[i]))
                &&& self.map@[entry_key(self.entries@[i])] == self.entries@[i].offset
            }
        &&& forall|k: PartitionKey|
            #[trigger] self.map@.contains_key(k) ==> exists|i: int|
                0 <= i < self.entries@.len() && entry_key(#[trigger] self.entries@[i]) == k
    }

    pub fn new() -> (r: OffsetTable)
        ensures
            r.wf(),
            r@ == Map::<PartitionKey, i64>::empty(),
    {
        OffsetTable { entries: Vec::new(), map: Ghost(Map::empty()) }
    }

    /// Index of the entry for `(topic, partition)`, if there is one.
    fn position(&self, topic: &String, partition: i32) -> (r: Option<usize>)
        requires
            self.wf(),
        ensures
            match r {
                Some(i) => i < self.entries@.len() && entry_key(self.entries@[i as int]) == (
                topic@, partition),
                None => !self@.contains_key((topic@, partition)),
            },
    {
        let mut i: usize = 0;
        while i < self.entries.len()
            invariant
                self.wf(),
                i <= self.entries@.len(),
                forall|j: int| 0 <= j < i ==> entry_key(#[trigger] self.entries@[j]) != (topic@, partition),
            decreases self.entries@.len() - i,
        {
            let e = &self.entries[i];
            if e.partition == partition && e.topic == *topic {
                return Some(i);
            }
            i = i + 1;
        }
        None
    }

    /// Records `offset` as the offset of `(topic, partition)`.
    pub fn upsert(&mut self, topic: &String, partition: i32, offset: i64)
        requires
            old(self).wf(),
        ensures
            final(self).wf(),
            final(self)@ == old(self)@.insert((topic@, partition), offset),
    {
        let ghost key = (topic@, partition);
        let ghost mut at: int = old(self).entries@.len() as int;
        match self.position(topic, partition) {
            Some(i) => {
                proof {
                    at = i as int;
                }
                let e = TopicPartitionOffset { topic: topic.clone(), partition, offset };
                self.entries.set(i, e);
            },
            None => {
                let e = TopicPartitionOffset { topic: topic.clone(), partition, offset };
                self.entries.push(e);
            },
        }
        self.map = Ghost(self.map@.insert(key, offset));
        assert forall|k: PartitionKey| #[trigger] self.map@.contains_key(k) implies exists|i: int|
            0 <= i < self.entries@.len() && entry_key(#[trigger] self.entries@[i]) == k by {
            if k != key {
                let i = choose|i: int|
                    0 <= i < old(self).entries@.len() && entry_key(
                        #[trigger] old(self).entries@[i],
                    ) == k;
                assert(entry_key(self.entries@[i]) == k);
            } else {
                assert(entry_key(self.entries@[at]) == k);
            }
        }
    }

    /// The entries, one per key, each with the offset the map holds for it.
    pub fn to_vec(&self) -> (r: Vec<TopicPartitionOffset>)
        requires
            self.wf(),
        ensures
            lists_offsets(r@, self@),
    {
        let mut out: Vec<TopicPartitionOffset> = Vec::new();
        let mut i: usize = 0;
        while i < self.entries.len()
            invariant
                i <= self.entries@.len(),
                out@.len() == i,
                forall|j: int|
                    0 <= j < i ==> #[trigger] entry_key(out@[j]) == entry_key(self.entries@[j])
                        && out@[j].offset == self.entries@[j].offset,
            decreases self.entries@.len() - i,
        {
            let e = &self.entries[i];
            out.push(TopicPartitionOffset { topic: e.topic.clone(), partition: e.partition, offset: e.offset });
            i = i + 1;
        }
        assert forall|k: PartitionKey| #[trigger] self@.contains_key(k) implies exists|i: int|
            0 <= i < out@.len() && entry_key(#[trigger] out@[i]) == k by {
            let i = choose|i: int|
                0 <= i < self.entries@.len() && entry_key(#[trigger] self.entries@[i]) == k;
            assert(entry_key(out@[i]) == k);
        }
        assert forall|i: int, j: int|
            0 <= i < j < out@.len() implies entry_key(#[trigger] out@[i]) != entry_key(
            #[trigger] out@[j],
        ) by {
            assert(entry_key(self.entries@[i]) != entry_key(self.entries@[j]));
        }
        out
    }
}

/// The table after each `(key, offset)` of `ups` is recorded in turn, as
/// `OffsetTable::upsert` does, starting from `m`.
pub open spec fn after_upserts(m: Map<PartitionKey, i64>, ups: Seq<(PartitionKey, i64)>) -> Map<
    PartitionKey,
    i64,
>
    decreases ups.len(),
{
    if ups.len() == 0 {
        m
    } else {
        after_upserts(m, ups.drop_last()).insert(ups.last().0, ups.last().1)
    }
}

/// When the offsets recorded for a key never decrease, the table holds for
/// that key the largest offset recorded for it.
pub proof fn lemma_tracked_offset_is_max(
    m: Map<PartitionKey, i64>,
    ups: Seq<(PartitionKey, i64)>,
    k: PartitionKey,
)
    requires
        forall|i: int, j: int|
            0 <= i < j < ups.len() && (#[trigger] ups[i]).0 == k && (#[trigger] ups[j]).0 == k
                ==> ups[i].1 <= ups[j].1,
        exists|i: int| 0 <= i < ups.len() && (#[trigger] ups[i]).0 == k,
    ensures
        after_upserts(m, ups).contains_key(k),
        forall|i: int|
            0 <= i < ups.len() && (#[trigger] ups[i]).0 == k ==> ups[i].1 <= after_upserts(
                m,
                ups,
            )[k],
        exists|i: int|
            0 <= i < ups.len() && (#[trigger] ups[i]).0 == k && ups[i].1 == after_upserts(m, ups)[k],
    decreases ups.len(),
{
    let n = ups.len() - 1;
    let prev = ups.drop_last();
    if ups[n].0 == k {
        assert(ups[n].1 == after_upserts(m, ups)[k]);
    } else {
        let w = choose|i: int| 0 <= i < ups.len() && (#[trigger] ups[i]).0 == k;
        assert(prev[w].0 == k);
        assert forall|i: int, j: int|
            0 <= i < j < prev.len() && (#[trigger] prev[i]).0 == k && (#[trigger] prev[j]).0
                == k implies prev[i].1 <= prev[j].1 by {
            assert(ups[i] == prev[i] && ups[j] == prev[j]);
        }
        lemma_tracked_offset_is_max(m, prev, k);
        let v = choose|i: int|
            0 <= i < prev.len() && (#[trigger] prev[i]).0 == k && prev[i].1 == after_upserts(
                m,
                prev,
            )[k];
        assert(ups[v] == prev[v]);
        assert forall|i: int|
            0 <= i < ups.len() && (#[trigger] ups[i]).0 == k implies ups[i].1 <= after_upserts(
            m,
            ups,
        )[k] by {
            assert(prev[i] == ups[i]);
        }
    }
}

} // verus!
