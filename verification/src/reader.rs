//! A reader: bound to one camera, it reads one frame drawn at random at
//! every tick.

use crate::clock;
use crate::latency::{peak, LatencyTracker};
use crate::random;
use crate::storage::{covered, names, read_conforms, FakeStorageImpl, StorageError};
use vstd::prelude::*;

verus! {

/// What one tick of a reader came to.
#[derive(Debug, PartialEq, Eq)]
pub enum ReadTick {
    /// The read of frame `index` took `elapsed_nanos` and gave `frame`, which
    /// is `None` where no such frame was written; `raised` says whether the
    /// duration is the task's new maximum.
    Read { index: u64, frame: Option<Vec<u8>>, elapsed_nanos: u128, raised: bool },
    /// The read failed, and the task has stopped for good.
    Failed(StorageError),
    /// The task had stopped before: nothing was read.
    Stopped,
}

/// Whether a reader can draw from `start_index..end_index`: the range holds
/// an index, and no more of them than the machine can count.
pub open spec fn drawable(start_index: u64, end_index: u64) -> bool {
    start_index < end_index && end_index - start_index <= usize::MAX
}

/// The state of one reader.
pub struct ReaderTask {
    camera: String,
    start_index: u64,
    end_index: u64,
    running: bool,
    latency: LatencyTracker,
}

impl ReaderTask {
    #[verifier::type_invariant]
    spec fn well_formed(self) -> bool {
        drawable(self.start_index, self.end_index)
    }

    /// The camera that the task reads from.
    pub closed spec fn camera(&self) -> Seq<char> {
        self.camera@
    }

    /// The lowest index that the task draws.
    pub closed spec fn start_index(&self) -> u64 {
        self.start_index
    }

    /// The bound below which the task draws.
    pub closed spec fn end_index(&self) -> u64 {
        self.end_index
    }

    /// Whether a tick still reads.
    pub closed spec fn running(&self) -> bool {
        self.running
    }

    /// The durations of the reads that succeeded, oldest first.
    pub closed spec fn latency_samples(&self) -> Seq<u128> {
        self.latency.samples()
    }

    /// A reader of `camera` that draws from `start_index..end_index`, if it
    /// can draw from that range.
    pub fn new(camera: String, start_index: u64, end_index: u64) -> (task: Option<ReaderTask>)
        ensures
            task is Some <==> drawable(start_index, end_index),
            task matches Some(t) ==> {
                &&& t.camera() == camera@
                &&& t.start_index() == start_index
                &&& t.end_index() == end_index
                &&& t.running()
                &&& t.latency_samples() == Seq::<u128>::empty()
            },
    {
        if start_index < end_index && end_index - start_index <= usize::MAX as u64 {
            Some(
                ReaderTask {
                    camera,
                    start_index,
                    end_index,
                    running: true,
                    latency: LatencyTracker::new(),
                },
            )
        } else {
            None
        }
    }

    /// The camera that the task reads from.
    pub fn camera_name(&self) -> (name: &str)
        ensures
            name@ == self.camera(),
    {
        self.camera.as_str()
    }

    /// The range that the task draws from: its lowest index and the bound.
    pub fn range(&self) -> (bounds: (u64, u64))
        ensures
            bounds.0 == self.start_index(),
            bounds.1 == self.end_index(),
            drawable(bounds.0, bounds.1),
    {
        proof {
            use_type_invariant(self);
        }
        (self.start_index, self.end_index)
    }

    /// Whether a tick still reads.
    pub fn is_running(&self) -> (running: bool)
        ensures
            running == self.running(),
    {
        self.running
    }

    /// The longest that one of its reads has taken, in nanoseconds.
    pub fn max_latency_nanos(&self) -> (max: u128)
        ensures
            max == peak(self.latency_samples()),
    {
        self.latency.max_nanos()
    }

    /// Takes in what the read of frame `index` came to. A result, absent or
    /// not, is a success and its duration is recorded; a failure stops the
    /// task. A task that had stopped takes nothing in.
    pub fn complete(
        &mut self,
        index: u64,
        result: Result<Option<Vec<u8>>, StorageError>,
        elapsed_nanos: u128,
    ) -> (outcome: ReadTick)
        ensures
            final(self).camera() == old(self).camera(),
            final(self).start_index() == old(self).start_index(),
            final(self).end_index() == old(self).end_index(),
            if !old(self).running() {
                &&& outcome == ReadTick::Stopped
                &&& !final(self).running()
                &&& final(self).latency_samples() == old(self).latency_samples()
            } else {
                match result {
                    Ok(frame) => {
                        &&& outcome == (ReadTick::Read {
                            index,
                            frame,
                            elapsed_nanos,
                            raised: elapsed_nanos > peak(old(self).latency_samples()),
                        })
                        &&& final(self).running()
                        &&& final(self).latency_samples() == old(self).latency_samples().push(
                            elapsed_nanos,
                        )
                    },
                    Err(e) => {
                        &&& outcome == ReadTick::Failed(e)
                        &&& !final(self).running()
                        &&& final(self).latency_samples() == old(self).latency_samples()
                    },
                }
            },
    {
        proof {
            use_type_invariant(&*self);
        }
        if !self.running {
            return ReadTick::Stopped;
        }
        match result {
            Ok(frame) => {
                let raised = self.latency.record(elapsed_nanos);
                ReadTick::Read { index, frame, elapsed_nanos, raised }
            },
            Err(e) => {
                self.running = false;
                ReadTick::Failed(e)
            },
        }
    }

    /// One tick: draws an index of the task's range, reads that frame of the
    /// task's camera, times the read, and takes the result in. A task that
    /// has stopped reads nothing.
    pub fn tick<S: FakeStorageImpl>(&mut self, db: &S) -> (outcome: ReadTick)
        ensures
            final(self).camera() == old(self).camera(),
            final(self).start_index() == old(self).start_index(),
            final(self).end_index() == old(self).end_index(),
            outcome is Stopped <==> !old(self).running(),
            match outcome {
                ReadTick::Read { index, frame, elapsed_nanos, raised } => {
                    &&& old(self).start_index() <= index < old(self).end_index()
                    &&& read_conforms(
                        db.namespaces(),
                        db.frames(),
                        old(self).camera(),
                        index,
                        Ok(frame),
                    )
                    &&& covered(db.frames(), old(self).camera(), old(self).end_index())
                        ==> frame is Some
                    &&& final(self).running()
                    &&& final(self).latency_samples() == old(self).latency_samples().push(
                        elapsed_nanos,
                    )
                    &&& raised == (elapsed_nanos > peak(old(self).latency_samples()))
                },
                ReadTick::Failed(e) => {
                    &&& e == StorageError::ReadFailure
                    &&& !final(self).running()
                    &&& final(self).latency_samples() == old(self).latency_samples()
                },
                ReadTick::Stopped => {
                    &&& !final(self).running()
                    &&& final(self).latency_samples() == old(self).latency_samples()
                },
            },
    {
        proof {
            use_type_invariant(&*self);
        }
        if !self.running {
            return ReadTick::Stopped;
        }
        let index = match random::choose_index(self.start_index, self.end_index) {
            Some(index) => index,
            // The range holds an index, so one is always drawn.
            None => {
                return ReadTick::Stopped;
            },
        };
        let begun = clock::now();
        let result = db.read_image(self.camera.as_str(), index);
        let elapsed_nanos = clock::elapsed_nanos(&begun);
        self.complete(index, result, elapsed_nanos)
    }
}

/// The readers of a run: `n_readers` tasks, each bound to one of `cameras`
/// drawn at random, all drawing from `start_index..end_index`. There is no
/// such set of tasks where a reader is asked for and there is no camera to
/// bind it to or no range to draw from.
pub fn spawn_readers(cameras: &[String], start_index: u64, end_index: u64, n_readers: usize) -> (readers:
    Option<Vec<ReaderTask>>)
    ensures
        readers is None <==> n_readers > 0 && (cameras.len() == 0 || !drawable(
            start_index,
            end_index,
        )),
        readers matches Some(tasks) ==> {
            &&& tasks.len() == n_readers
            &&& forall|i: int|
                0 <= i < tasks.len() ==> {
                    &&& names(cameras@).contains((#[trigger] tasks[i]).camera())
                    &&& tasks[i].start_index() == start_index
                    &&& tasks[i].end_index() == end_index
                    &&& tasks[i].running()
                    &&& tasks[i].latency_samples() == Seq::<u128>::empty()
                }
        },
{
    let mut tasks: Vec<ReaderTask> = Vec::new();
    let mut i: usize = 0;
    while i < n_readers
        invariant
            i <= n_readers,
            tasks.len() == i,
            i > 0 ==> cameras.len() > 0 && drawable(start_index, end_index),
            forall|j: int|
                0 <= j < i ==> {
                    &&& names(cameras@).contains((#[trigger] tasks[j]).camera())
                    &&& tasks[j].start_index() == start_index
                    &&& tasks[j].end_index() == end_index
                    &&& tasks[j].running()
                    &&& tasks[j].latency_samples() == Seq::<u128>::empty()
                },
        decreases n_readers - i,
    {
        let position = match random::choose_index(0, cameras.len() as u64) {
            Some(position) => position as usize,
            // Without a camera there is none to bind the reader to.
            None => {
                return None;
            },
        };
        let task = match ReaderTask::new(cameras[position].clone(), start_index, end_index) {
            Some(task) => task,
            None => {
                return None;
            },
        };
        assert(names(cameras@)[position as int] == task.camera());
        tasks.push(task);
        i = i + 1;
    }
    Some(tasks)
}

} // verus!
