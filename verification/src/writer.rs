//! The writer of one camera: it appends one frame at every tick.

use crate::clock;
use crate::latency::{peak, LatencyTracker};
use crate::storage::{read_conforms, FakeStorageImpl, FrameKey, Frames, StorageError};
use vstd::prelude::*;

verus! {

/// What one tick of a writer came to.
#[derive(Clone, Copy, Debug, PartialEq, Eq, Structural)]
pub enum WriteTick {
    /// Frame `index` was stored in `elapsed_nanos`; `raised` says whether
    /// that is the task's new maximum.
    Written { index: u64, elapsed_nanos: u128, raised: bool },
    /// The write failed, and the task has stopped for good.
    Failed(StorageError),
    /// The task had stopped before, or no index is left: nothing was written.
    Stopped,
}

/// The state of the writer of one camera.
pub struct WriterTask {
    camera: String,
    start: u64,
    cursor: u64,
    running: bool,
    latency: LatencyTracker,
}

impl WriterTask {
    #[verifier::type_invariant]
    spec fn well_formed(self) -> bool {
        self.start <= self.cursor
    }

    /// The camera that the task writes to.
    pub closed spec fn camera(&self) -> Seq<char> {
        self.camera@
    }

    /// The index that the task began at.
    pub closed spec fn start(&self) -> u64 {
        self.start
    }

    /// The index that the next tick writes.
    pub closed spec fn cursor(&self) -> u64 {
        self.cursor
    }

    /// Whether a tick still writes.
    pub closed spec fn running(&self) -> bool {
        self.running
    }

    /// The durations of the writes that succeeded, oldest first.
    pub closed spec fn latency_samples(&self) -> Seq<u128> {
        self.latency.samples()
    }

    /// The indices that the task has written, oldest first.
    pub open spec fn indices(&self) -> Seq<u64> {
        Seq::new(
            if self.cursor() >= self.start() {
                (self.cursor() - self.start()) as nat
            } else {
                0
            },
            |i: int| (self.start() + i) as u64,
        )
    }

    /// A writer for `camera` that begins at `start_index`.
    pub fn new(camera: String, start_index: u64) -> (task: WriterTask)
        ensures
            task.camera() == camera@,
            task.start() == start_index,
            task.cursor() == start_index,
            task.running(),
            task.latency_samples() == Seq::<u128>::empty(),
    {
        WriterTask {
            camera,
            start: start_index,
            cursor: start_index,
            running: true,
            latency: LatencyTracker::new(),
        }
    }

    /// The camera that the task writes to.
    pub fn camera_name(&self) -> (name: &str)
        ensures
            name@ == self.camera(),
    {
        self.camera.as_str()
    }

    /// The index that the next tick writes: never below the one that the
    /// writer began at.
    pub fn next_index(&self) -> (index: u64)
        ensures
            index == self.cursor(),
            self.start() <= index,
    {
        proof {
            use_type_invariant(self);
        }
        self.cursor
    }

    /// Whether a tick still writes.
    pub fn is_running(&self) -> (running: bool)
        ensures
            running == self.running(),
    {
        self.running
    }

    /// The longest that one of its writes has taken, in nanoseconds.
    pub fn max_latency_nanos(&self) -> (max: u128)
        ensures
            max == peak(self.latency_samples()),
    {
        self.latency.max_nanos()
    }

    /// Whether the next tick writes: the task runs and an index is left.
    pub fn is_due(&self) -> (due: bool)
        ensures
            due == (self.running() && self.cursor() < u64::MAX),
    {
        self.running && self.cursor < u64::MAX
    }

    /// Takes in what the write of frame `cursor` came to. A success moves the
    /// cursor on by one and records the duration; a failure stops the task.
    /// A task that was not due takes nothing in and stops.
    pub fn complete(&mut self, result: Result<(), StorageError>, elapsed_nanos: u128) -> (outcome:
        WriteTick)
        ensures
            final(self).camera() == old(self).camera(),
            final(self).start() == old(self).start(),
            if !(old(self).running() && old(self).cursor() < u64::MAX) {
                &&& outcome == WriteTick::Stopped
                &&& final(self).cursor() == old(self).cursor()
                &&& !final(self).running()
                &&& final(self).latency_samples() == old(self).latency_samples()
                &&& final(self).indices() == old(self).indices()
            } else {
                match result {
                    Ok(()) => {
                        &&& outcome == (WriteTick::Written {
                            index: old(self).cursor(),
                            elapsed_nanos,
                            raised: elapsed_nanos > peak(old(self).latency_samples()),
                        })
                        &&& final(self).cursor() == old(self).cursor() + 1
                        &&& final(self).running()
                        &&& final(self).latency_samples() == old(self).latency_samples().push(
                            elapsed_nanos,
                        )
                        &&& final(self).indices() == old(self).indices().push(old(self).cursor())
                    },
                    Err(e) => {
                        &&& outcome == WriteTick::Failed(e)
                        &&& final(self).cursor() == old(self).cursor()
                        &&& !final(self).running()
                        &&& final(self).latency_samples() == old(self).latency_samples()
                        &&& final(self).indices() == old(self).indices()
                    },
                }
            },
    {
        proof {
            use_type_invariant(&*self);
        }
        if !self.is_due() {
            self.running = false;
            return WriteTick::Stopped;
        }
        match result {
            Ok(()) => {
                let index = self.cursor;
                let raised = self.latency.record(elapsed_nanos);
                self.cursor = index + 1;
                assert(self.indices() =~= old(self).indices().push(index));
                WriteTick::Written { index, elapsed_nanos, raised }
            },
            Err(e) => {
                self.running = false;
                WriteTick::Failed(e)
            },
        }
    }

    /// One tick: writes `payload` as frame `cursor` of the task's camera,
    /// times the write, and takes the result in. A task that has stopped, or
    /// that has no index left, writes nothing.
    pub fn tick<S: FakeStorageImpl>(&mut self, db: &mut S, payload: &[u8]) -> (outcome: WriteTick)
        ensures
            final(self).camera() == old(self).camera(),
            final(self).start() == old(self).start(),
            final(db).namespaces() == old(db).namespaces(),
            outcome is Stopped <==> !(old(self).running() && old(self).cursor() < u64::MAX),
            match outcome {
                WriteTick::Written { index, elapsed_nanos, raised } => {
                    &&& index == old(self).cursor()
                    &&& final(self).cursor() == index + 1
                    &&& final(self).running()
                    &&& final(self).indices() == old(self).indices().push(index)
                    &&& final(self).latency_samples() == old(self).latency_samples().push(
                        elapsed_nanos,
                    )
                    &&& raised == (elapsed_nanos > peak(old(self).latency_samples()))
                    &&& old(db).namespaces().contains(old(self).camera())
                    &&& final(db).frames() == old(db).frames().insert(
                        (old(self).camera(), index),
                        payload@,
                    )
                },
                WriteTick::Failed(e) => {
                    &&& e == StorageError::WriteFailure
                    &&& final(self).cursor() == old(self).cursor()
                    &&& !final(self).running()
                    &&& final(self).indices() == old(self).indices()
                    &&& final(self).latency_samples() == old(self).latency_samples()
                    &&& final(db).frames().remove((old(self).camera(), old(self).cursor()))
                        == old(db).frames().remove((old(self).camera(), old(self).cursor()))
                },
                WriteTick::Stopped => {
                    &&& final(self).cursor() == old(self).cursor()
                    &&& !final(self).running()
                    &&& final(self).indices() == old(self).indices()
                    &&& final(self).latency_samples() == old(self).latency_samples()
                    &&& final(db).frames() == old(db).frames()
                },
            },
    {
        proof {
            use_type_invariant(&*self);
        }
        if !self.is_due() {
            self.running = false;
            return WriteTick::Stopped;
        }
        let begun = clock::now();
        let result = db.write_image(self.camera.as_str(), self.cursor, payload);
        let elapsed_nanos = clock::elapsed_nanos(&begun);
        self.complete(result, elapsed_nanos)
    }
}

/// The writers of a run: one for each camera, in the order of `cameras`, each
/// beginning at `start_index`.
pub fn spawn_writers(cameras: &[String], start_index: u64) -> (writers: Vec<WriterTask>)
    ensures
        writers.len() == cameras.len(),
        forall|i: int|
            0 <= i < writers.len() ==> {
                &&& (#[trigger] writers[i]).camera() == cameras[i]@
                &&& writers[i].start() == start_index
                &&& writers[i].cursor() == start_index
                &&& writers[i].running()
                &&& writers[i].latency_samples() == Seq::<u128>::empty()
            },
{
    let mut writers: Vec<WriterTask> = Vec::new();
    let mut i: usize = 0;
    while i < cameras.len()
        invariant
            i <= cameras.len(),
            writers.len() == i,
            forall|j: int|
                0 <= j < i ==> {
                    &&& (#[trigger] writers[j]).camera() == cameras[j]@
                    &&& writers[j].start() == start_index
                    &&& writers[j].cursor() == start_index
                    &&& writers[j].running()
                    &&& writers[j].latency_samples() == Seq::<u128>::empty()
                },
        decreases cameras.len() - i,
    {
        writers.push(WriterTask::new(cameras[i].clone(), start_index));
        i = i + 1;
    }
    writers
}

/// The indices that a writer has written are those from its start on, one
/// by one: each is one more than the one before, so they rise strictly, leave
/// no gap, and none comes twice.
pub proof fn lemma_indices_gap_free(task: WriterTask)
    ensures
        forall|i: int|
            0 <= i < task.indices().len() ==> #[trigger] task.indices()[i] == task.start() + i,
        forall|i: int|
            0 <= i < task.indices().len() - 1 ==> task.indices()[i + 1] == #[trigger] task.indices()[i]
                + 1,
        forall|i: int, j: int|
            0 <= i < j < task.indices().len() ==> #[trigger] task.indices()[i]
                < #[trigger] task.indices()[j],
{
}

/// A writer as the laws below see it: its camera, the index it begins at, and
/// the payload it writes.
pub struct Stream {
    pub camera: Seq<char>,
    pub start: u64,
    pub payload: Seq<u8>,
}

/// Whether `key` is the address of one of the first `count` frames that
/// `stream` writes.
pub open spec fn written_by(stream: Stream, count: nat, key: FrameKey) -> bool {
    key.0 == stream.camera && stream.start <= key.1 < stream.start + count
}

/// The store after `stream` alone has written `count` frames to `frames`.
pub open spec fn appended(frames: Frames, stream: Stream, count: nat) -> Frames {
    Map::new(
        |key: FrameKey| frames.contains_key(key) || written_by(stream, count, key),
        |key: FrameKey|
            if written_by(stream, count, key) {
                stream.payload
            } else {
                frames[key]
            },
    )
}

/// How many of the turns of `schedule` belong to `who`.
pub open spec fn turns(schedule: Seq<bool>, who: bool) -> nat
    decreases schedule.len(),
{
    if schedule.len() == 0 {
        0
    } else if schedule.last() == who {
        turns(schedule.drop_last(), who) + 1
    } else {
        turns(schedule.drop_last(), who)
    }
}

/// The store after two writers have ticked in the order that `schedule`
/// gives, each tick a write that succeeds: at `true` the first writes its
/// next frame, at `false` the second.
pub open spec fn interleaved(
    frames: Frames,
    first: Stream,
    second: Stream,
    schedule: Seq<bool>,
) -> Frames
    decreases schedule.len(),
{
    if schedule.len() == 0 {
        frames
    } else {
        let earlier = schedule.drop_last();
        let held = interleaved(frames, first, second, earlier);
        if schedule.last() {
            held.insert(
                (first.camera, (first.start + turns(earlier, true)) as u64),
                first.payload,
            )
        } else {
            held.insert(
                (second.camera, (second.start + turns(earlier, false)) as u64),
                second.payload,
            )
        }
    }
}

/// Writers of different cameras do not disturb each other: however their
/// ticks interleave, the store ends as if each had written alone. Every frame
/// that either wrote reads back as its payload, and nothing else has changed.
pub proof fn lemma_interleaving(frames: Frames, first: Stream, second: Stream, schedule: Seq<bool>)
    requires
        first.camera != second.camera,
        first.start + turns(schedule, true) <= u64::MAX,
        second.start + turns(schedule, false) <= u64::MAX,
    ensures
        interleaved(frames, first, second, schedule) == appended(
            appended(frames, first, turns(schedule, true)),
            second,
            turns(schedule, false),
        ),
    decreases schedule.len(),
{
    let alone = appended(
        appended(frames, first, turns(schedule, true)),
        second,
        turns(schedule, false),
    );
    if schedule.len() == 0 {
        assert(alone =~= frames);
    } else {
        let earlier = schedule.drop_last();
        lemma_interleaving(frames, first, second, earlier);
        assert(interleaved(frames, first, second, schedule) =~= alone);
    }
}

/// After writers of different cameras have ticked in any order, every frame
/// that the first of them wrote makes the round trip: a read of it, where it
/// does not fail, gives back that writer's payload. As the two may change
/// places, the same holds of the second.
pub proof fn lemma_interleaved_round_trip(
    namespaces: Set<Seq<char>>,
    frames: Frames,
    first: Stream,
    second: Stream,
    schedule: Seq<bool>,
    offset: nat,
    read: Result<Option<Vec<u8>>, StorageError>,
)
    requires
        first.camera != second.camera,
        first.start + turns(schedule, true) <= u64::MAX,
        second.start + turns(schedule, false) <= u64::MAX,
        offset < turns(schedule, true),
        read_conforms(
            namespaces,
            interleaved(frames, first, second, schedule),
            first.camera,
            (first.start + offset) as u64,
            read,
        ),
        read is Ok,
    ensures
        read matches Ok(Some(bytes)) && bytes@ == first.payload,
{
    lemma_interleaving(frames, first, second, schedule);
    let key = (first.camera, (first.start + offset) as u64);
    assert(written_by(first, turns(schedule, true), key));
    assert(!written_by(second, turns(schedule, false), key));
}

/// The order of two writers of different cameras in a schedule is a matter
/// of naming: with the writers and every turn exchanged, the store ends the
/// same.
pub proof fn lemma_interleaving_is_symmetric(
    frames: Frames,
    first: Stream,
    second: Stream,
    schedule: Seq<bool>,
)
    ensures
        interleaved(frames, first, second, schedule) == interleaved(
            frames,
            second,
            first,
            schedule.map_values(|turn: bool| !turn),
        ),
        turns(schedule, true) == turns(schedule.map_values(|turn: bool| !turn), false),
        turns(schedule, false) == turns(schedule.map_values(|turn: bool| !turn), true),
    decreases schedule.len(),
{
    let exchanged = schedule.map_values(|turn: bool| !turn);
    if schedule.len() > 0 {
        lemma_interleaving_is_symmetric(frames, first, second, schedule.drop_last());
        assert(exchanged.drop_last() =~= schedule.drop_last().map_values(|turn: bool| !turn));
        assert(exchanged.last() == !schedule.last());
    }
}

} // verus!
