//! Setting a run up: the cameras, their namespaces, the seeding and the
//! tasks, in that order.

use crate::args::Arguments;
use crate::layout::{camera_name, camera_name_of, lemma_camera_name_injective};
use crate::reader::{drawable, spawn_readers, ReaderTask};
use crate::seeder::{lemma_seeded_covers, seed_db, seed_stopped_at, seeded};
use crate::storage::{
    covered, lemma_prefix_grows, names, registered, FakeStorageImpl, StorageError,
};
use crate::writer::{spawn_writers, WriterTask};
use vstd::prelude::*;

verus! {

/// Bytes in a MiB.
pub const MIB: usize = 1024 * 1024;

/// The names of the cameras of a run with `n_cameras` cameras: `camera0`,
/// `camera1` and so on.
pub open spec fn camera_names_of(n_cameras: usize) -> Seq<Seq<char>> {
    Seq::new(n_cameras as nat, |i: int| camera_name_of(i as usize))
}

/// The names of the cameras of a run with `n_cameras` cameras. No two are
/// alike.
pub fn camera_names(n_cameras: usize) -> (cameras: Vec<String>)
    ensures
        cameras.len() == n_cameras,
        names(cameras@) == camera_names_of(n_cameras),
        forall|i: int, j: int|
            0 <= i < j < n_cameras ==> (#[trigger] cameras[i])@ != (#[trigger] cameras[j])@,
{
    let mut cameras: Vec<String> = Vec::new();
    let mut position: usize = 0;
    while position < n_cameras
        invariant
            position <= n_cameras,
            cameras.len() == position,
            forall|i: int|
                0 <= i < position ==> (#[trigger] cameras[i])@ == camera_name_of(i as usize),
        decreases n_cameras - position,
    {
        cameras.push(camera_name(position));
        position = position + 1;
    }
    proof {
        assert forall|i: int, j: int| 0 <= i < j < n_cameras implies (#[trigger] cameras[i])@ != (
        #[trigger] cameras[j])@ by {
            if cameras[i]@ == cameras[j]@ {
                lemma_camera_name_injective(i as usize, j as usize);
            }
        }
        assert(names(cameras@) =~= camera_names_of(n_cameras));
    }
    cameras
}

/// Creates the namespace of every camera, in the order of `cameras`. No
/// frame is touched.
pub fn register_cameras<S: FakeStorageImpl>(db: &mut S, cameras: &[String])
    ensures
        final(db).namespaces() == registered(old(db).namespaces(), names(cameras@)),
        final(db).frames() == old(db).frames(),
{
    let ghost all = names(cameras@);
    let ghost before = db.namespaces();
    let mut position: usize = 0;
    assert(db.namespaces() =~= registered(before, all.take(0)));
    while position < cameras.len()
        invariant
            position <= cameras.len(),
            all == names(cameras@),
            before == old(db).namespaces(),
            db.namespaces() == registered(before, all.take(position as int)),
            db.frames() == old(db).frames(),
        decreases cameras.len() - position,
    {
        db.add_camera(cameras[position].as_str());
        proof {
            let longer = all.take(position + 1);
            assert forall|name: Seq<char>|
                #[trigger] longer.contains(name) <==> all.take(position as int).contains(name)
                    || name == all[position as int] by {
                lemma_prefix_grows(all, position as int, name);
            }
            assert(db.namespaces() =~= registered(before, longer));
        }
        position = position + 1;
    }
    assert(all.take(cameras.len() as int) =~= all);
}

/// The block that simulates memory pressure: `ram_buffer_mb` MiB, every byte
/// set. It is held for the length of the run and never used. There is none
/// where the size is more than a buffer can have.
pub fn pressure_block(ram_buffer_mb: usize) -> (block: Option<Vec<u8>>)
    ensures
        block is Some <==> ram_buffer_mb * MIB <= isize::MAX,
        block matches Some(bytes) ==> {
            &&& bytes.len() == ram_buffer_mb * MIB
            &&& forall|i: int| 0 <= i < bytes.len() ==> bytes[i] == 1
        },
{
    match ram_buffer_mb.checked_mul(MIB) {
        Some(size) => {
            if size > isize::MAX as usize {
                None
            } else {
                Some(vec![1u8; size])
            }
        },
        None => None,
    }
}

/// What stands ready when the load begins.
pub struct Workload {
    /// The cameras, all registered.
    pub cameras: Vec<String>,
    /// The number of frames that every camera holds: where the writers go on
    /// and below which the readers draw.
    pub baseline: u64,
    /// One writer for each camera.
    pub writers: Vec<WriterTask>,
    /// The readers, if there can be any.
    pub readers: Option<Vec<ReaderTask>>,
}

/// Sets a run up on `db`: names the cameras, registers every one of them,
/// then seeds them where `args` asks for it, and only then makes the tasks.
/// The writers begin at the baseline; the readers draw below it, where
/// seeding has left no gap. A seeding that fails ends the run before any task
/// exists.
pub fn prepare<S: FakeStorageImpl>(db: &mut S, args: &Arguments, payload: &[u8]) -> (run: Result<
    Workload,
    StorageError,
>)
    ensures
        final(db).namespaces() == registered(old(db).namespaces(), camera_names_of(args.n_cameras)),
        match run {
            Ok(workload) => {
                &&& names(workload.cameras@) == camera_names_of(args.n_cameras)
                &&& workload.baseline == args.seed_images_per_camera
                &&& final(db).frames() == if args.seed_db {
                    seeded(
                        old(db).frames(),
                        camera_names_of(args.n_cameras),
                        args.seed_images_per_camera,
                        payload@,
                    )
                } else {
                    old(db).frames()
                }
                &&& args.seed_db ==> forall|i: int|
                    0 <= i < args.n_cameras ==> covered(
                        final(db).frames(),
                        #[trigger] camera_names_of(args.n_cameras)[i],
                        workload.baseline,
                    )
                &&& workload.writers.len() == args.n_cameras
                &&& forall|i: int|
                    0 <= i < args.n_cameras ==> {
                        &&& (#[trigger] workload.writers[i]).camera() == camera_name_of(i as usize)
                        &&& workload.writers[i].start() == workload.baseline
                        &&& workload.writers[i].cursor() == workload.baseline
                        &&& workload.writers[i].running()
                        &&& workload.writers[i].latency_samples() == Seq::<u128>::empty()
                    }
                &&& workload.readers is None <==> args.n_readers > 0 && (args.n_cameras == 0
                    || !drawable(0, args.seed_images_per_camera))
                &&& workload.readers matches Some(tasks) ==> {
                    &&& tasks.len() == args.n_readers
                    &&& forall|i: int|
                        0 <= i < tasks.len() ==> {
                            &&& camera_names_of(args.n_cameras).contains(
                                (#[trigger] tasks[i]).camera(),
                            )
                            &&& tasks[i].start_index() == 0
                            &&& tasks[i].end_index() == workload.baseline
                            &&& tasks[i].running()
                            &&& tasks[i].latency_samples() == Seq::<u128>::empty()
                        }
                }
            },
            Err(e) => {
                &&& args.seed_db
                &&& e == StorageError::WriteFailure
                &&& exists|index: u64, position: int|
                    index < args.seed_images_per_camera && #[trigger] seed_stopped_at(
                        old(db).frames(),
                        final(db).frames(),
                        camera_names_of(args.n_cameras),
                        index,
                        position,
                        payload@,
                    )
            },
        },
{
    let cameras = camera_names(args.n_cameras);
    register_cameras(db, cameras.as_slice());
    let baseline = if args.seed_db {
        match seed_db(db, cameras.as_slice(), args.seed_images_per_camera, payload) {
            Ok(baseline) => baseline,
            Err(e) => {
                return Err(e);
            },
        }
    } else {
        args.seed_images_per_camera
    };
    let writers = spawn_writers(cameras.as_slice(), baseline);
    let readers = spawn_readers(cameras.as_slice(), 0, baseline, args.n_readers);
    proof {
        if args.seed_db {
            let all = camera_names_of(args.n_cameras);
            assert forall|i: int| 0 <= i < args.n_cameras implies covered(
                db.frames(),
                #[trigger] all[i],
                baseline,
            ) by {
                lemma_seeded_covers(old(db).frames(), all, baseline, payload@, all[i], 0);
            }
        }
    }
    assert forall|i: int| 0 <= i < args.n_cameras implies (#[trigger] writers[i]).camera()
        == camera_name_of(i as usize) by {
        assert(names(cameras@)[i] == cameras[i]@);
        assert(camera_names_of(args.n_cameras)[i] == camera_name_of(i as usize));
    }
    Ok(Workload { cameras, baseline, writers, readers })
}

} // verus!
