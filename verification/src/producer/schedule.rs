//! When the producer sends, and to which partition: records are gathered
//! into chunks; each full chunk is converted into Kafka records for the
//! current partition and sent, and the next chunk goes to the next
//! partition.

use vstd::prelude::*;

verus! {

/// What to do with the record just read.
#[derive(Debug, Clone, Copy, PartialEq, Eq, Structural)]
pub enum ChunkEvent {
    /// Keep gathering the current chunk.
    Gather,
    /// The chunk is full: convert its records for `partition` and send
    /// them.
    Send { partition: i32 },
}

/// The partition that follows `partition` among `partitions` (taken by its
/// absolute value, as the remainder of Rust's `%` is for a positive
/// dividend).
pub open spec fn next_partition(partition: int, partitions: int) -> int {
    (partition + 1) % (if partitions < 0 {
        -partitions
    } else {
        partitions
    })
}

/// The state of the chunking: the chunk size, the number of partitions of
/// the topic, how many records the current chunk holds, the partition of
/// the current chunk, and how many records were read and chunks sent so
/// far.
pub struct ChunkSchedule {
    chunk_size: usize,
    partitions: i32,
    pending: usize,
    partition: i32,
    read: Ghost<nat>,
    sent: Ghost<nat>,
}

/// The content of a [`ChunkSchedule`].
pub struct ScheduleState {
    pub chunk_size: nat,
    pub partitions: int,
    pub pending: nat,
    pub partition: int,
    pub read: nat,
    pub sent: nat,
}

impl View for ChunkSchedule {
    type V = ScheduleState;

    closed spec fn view(&self) -> ScheduleState {
        ScheduleState {
            chunk_size: self.chunk_size as nat,
            partitions: self.partitions as int,
            pending: self.pending as nat,
            partition: self.partition as int,
            read: self.read@,
            sent: self.sent@,
        }
    }
}

impl ChunkSchedule {
    /// The schedule's invariant: the records read are those of the chunks
    /// sent and of the current chunk, which never holds a full chunk's
    /// worth of records; the current chunk goes to the partition of its
    /// number.
    pub closed spec fn wf(&self) -> bool {
        &&& self.read@ == self.sent@ * self.chunk_size + self.pending
        &&& self.partition == partition_of_chunk(self.sent@, self.partitions as int)
        &&& 0 <= self.partition
        &&& (self.partitions != 0 ==> self.partition < (if self.partitions < 0 {
            -self.partitions
        } else {
            self.partitions as int
        }))
        &&& (self.partitions == 0 ==> self.partition == 0)
        &&& (self.chunk_size > 0 ==> self.pending < self.chunk_size)
    }

    /// The schedule before the first record: the first chunk goes to
    /// partition 0.
    pub fn new(chunk_size: usize, partitions: i32) -> (r: ChunkSchedule)
        ensures
            r.wf(),
            r@ == (ScheduleState {
                chunk_size: chunk_size as nat,
                partitions: partitions as int,
                pending: 0,
                partition: 0,
                read: 0,
                sent: 0,
            }),
    {
        ChunkSchedule {
            chunk_size,
            partitions,
            pending: 0,
            partition: 0,
            read: Ghost(0),
            sent: Ghost(0),
        }
    }

    /// Whether the record about to be read completes the current chunk.
    pub open spec fn completes_chunk(&self) -> bool {
        self@.pending + 1 == self@.chunk_size
    }

    /// Accounts for one more record read. When it completes the chunk, the
    /// chunk (exactly the records read since the previous chunk was sent)
    /// is sent to the current partition, and the schedule moves to the
    /// next partition, which needs a topic with partitions to divide by.
    pub fn record_read(&mut self) -> (r: ChunkEvent)
        requires
            old(self).wf(),
            old(self)@.pending < usize::MAX,
            old(self).completes_chunk() ==> old(self)@.partitions != 0,
        ensures
            final(self).wf(),
            final(self)@.chunk_size == old(self)@.chunk_size,
            final(self)@.partitions == old(self)@.partitions,
            final(self)@.read == old(self)@.read + 1,
            old(self).completes_chunk() ==> {
                &&& r == ChunkEvent::Send { partition: old(self)@.partition as i32 }
                &&& old(self)@.partition == partition_of_chunk(
                    old(self)@.sent,
                    old(self)@.partitions,
                )
                &&& final(self)@.pending == 0
                &&& final(self)@.sent == old(self)@.sent + 1
                &&& final(self)@.read == final(self)@.sent * final(self)@.chunk_size
                &&& final(self)@.partition == next_partition(
                    old(self)@.partition,
                    old(self)@.partitions,
                )
            },
            !old(self).completes_chunk() ==> {
                &&& r == ChunkEvent::Gather
                &&& final(self)@.pending == old(self)@.pending + 1
                &&& final(self)@.partition == old(self)@.partition
                &&& final(self)@.sent == old(self)@.sent
            },
    {
        if self.chunk_size > 0 && self.pending + 1 == self.chunk_size {
            let partition = self.partition;
            proof {
                let c = self.chunk_size as int;
                let k = self.sent@ as int;
                assert((k + 1) * c == k * c + c) by (nonlinear_arith);
                self.read = Ghost(self.read@ + 1);
                self.sent = Ghost(self.sent@ + 1);
            }
            self.pending = 0;
            let modulus: u64 = if self.partitions < 0 {
                (-(self.partitions as i64)) as u64
            } else {
                self.partitions as u64
            };
            self.partition = ((self.partition as u64 + 1) % modulus) as i32;
            ChunkEvent::Send { partition }
        } else {
            proof {
                self.read = Ghost(self.read@ + 1);
            }
            self.pending = self.pending + 1;
            ChunkEvent::Gather
        }
    }
}

/// The partition of the chunk numbered `k` (from 0): the first chunk goes
/// to partition 0, each next chunk to the next partition.
pub open spec fn partition_of_chunk(k: nat, partitions: int) -> int
    decreases k,
{
    if k == 0 {
        0
    } else {
        next_partition(partition_of_chunk((k - 1) as nat, partitions), partitions)
    }
}

/// The chunks go to the partitions in turn: the chunk numbered `k` goes to
/// partition `k` modulo the number of partitions.
pub proof fn lemma_chunks_round_robin(k: nat, partitions: int)
    requires
        partitions != 0,
    ensures
        partition_of_chunk(k, partitions) == (k as int) % (if partitions < 0 {
            -partitions
        } else {
            partitions
        }),
    decreases k,
{
    let m = if partitions < 0 {
        -partitions
    } else {
        partitions
    };
    if k == 0 {
        vstd::arithmetic::div_mod::lemma_small_mod(0, m as nat);
    } else {
        lemma_chunks_round_robin((k - 1) as nat, partitions);
        vstd::arithmetic::div_mod::lemma_add_mod_noop_right(1, (k - 1) as int, m);
        assert(((k - 1) as int % m + 1) % m == (k as int) % m);
    }
}

} // verus!
