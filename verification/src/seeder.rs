//! Seeding: the frames that every camera holds before the load starts.

use crate::storage::{
    covered, lemma_prefix_grows, names, read_conforms, FakeStorageImpl, FrameKey, Frames,
    StorageError,
};
use vstd::prelude::*;

verus! {

/// Whether seeding has written to address `key` once every camera holds the
/// frames below `index` and the first `upto` cameras hold frame `index` too.
pub open spec fn reached(cameras: Seq<Seq<char>>, index: u64, upto: int, key: FrameKey) -> bool {
    (cameras.contains(key.0) && key.1 < index) || (cameras.take(upto).contains(key.0) && key.1
        == index)
}

/// The store at that point of seeding `frames` with `payload`: the addresses
/// reached hold `payload`, all others what they held.
pub open spec fn seeded_upto(
    frames: Frames,
    cameras: Seq<Seq<char>>,
    index: u64,
    upto: int,
    payload: Seq<u8>,
) -> Frames {
    Map::new(
        |key: FrameKey| frames.contains_key(key) || reached(cameras, index, upto, key),
        |key: FrameKey|
            if reached(cameras, index, upto, key) {
                payload
            } else {
                frames[key]
            },
    )
}

/// The store after seeding `frames`: each of `cameras` holds `payload` under
/// every index below `count`, and every other address holds what it held.
pub open spec fn seeded(
    frames: Frames,
    cameras: Seq<Seq<char>>,
    count: u64,
    payload: Seq<u8>,
) -> Frames {
    Map::new(
        |key: FrameKey| frames.contains_key(key) || (cameras.contains(key.0) && key.1 < count),
        |key: FrameKey|
            if cameras.contains(key.0) && key.1 < count {
                payload
            } else {
                frames[key]
            },
    )
}

proof fn lemma_seeded_is_last_point(
    frames: Frames,
    cameras: Seq<Seq<char>>,
    count: u64,
    payload: Seq<u8>,
)
    ensures
        seeded_upto(frames, cameras, count, 0, payload) == seeded(frames, cameras, count, payload),
{
    assert(cameras.take(0) =~= Seq::<Seq<char>>::empty());
    assert forall|key: FrameKey|
        #[trigger] reached(cameras, count, 0, key) == (cameras.contains(key.0) && key.1
            < count) by {}
    assert(seeded_upto(frames, cameras, count, 0, payload) =~= seeded(
        frames,
        cameras,
        count,
        payload,
    ));
}

/// Whether `after` is what a seeding of `before` leaves when the write of
/// frame `index` of camera number `position` fails: that address apart, the
/// store is as far as seeding had come, index by index and, within an index,
/// camera by camera.
pub open spec fn seed_stopped_at(
    before: Frames,
    after: Frames,
    cameras: Seq<Seq<char>>,
    index: u64,
    position: int,
    payload: Seq<u8>,
) -> bool {
    &&& 0 <= position < cameras.len()
    &&& after.remove((cameras[position], index)) == seeded_upto(
        before,
        cameras,
        index,
        position,
        payload,
    ).remove((cameras[position], index))
}

proof fn lemma_seed_step(
    frames: Frames,
    cameras: Seq<Seq<char>>,
    index: u64,
    position: int,
    payload: Seq<u8>,
)
    requires
        0 <= position < cameras.len(),
    ensures
        seeded_upto(frames, cameras, index, position, payload).insert(
            (cameras[position], index),
            payload,
        ) == seeded_upto(frames, cameras, index, position + 1, payload),
{
    let grown = seeded_upto(frames, cameras, index, position, payload).insert(
        (cameras[position], index),
        payload,
    );
    let next = seeded_upto(frames, cameras, index, position + 1, payload);
    assert forall|key: FrameKey|
        #[trigger] reached(cameras, index, position + 1, key) == (reached(
            cameras,
            index,
            position,
            key,
        ) || key == (cameras[position], index)) by {
        lemma_prefix_grows(cameras, position, key.0);
    }
    assert forall|key: FrameKey| grown.contains_key(key) == next.contains_key(key) by {
        assert(reached(cameras, index, position + 1, key) == (reached(
            cameras,
            index,
            position,
            key,
        ) || key == (cameras[position], index)));
    }
    assert forall|key: FrameKey| grown.contains_key(key) implies grown[key] == next[key] by {
        assert(reached(cameras, index, position + 1, key) == (reached(
            cameras,
            index,
            position,
            key,
        ) || key == (cameras[position], index)));
    }
    assert(grown =~= next);
}

proof fn lemma_seed_row(frames: Frames, cameras: Seq<Seq<char>>, index: u64, payload: Seq<u8>)
    requires
        index < u64::MAX,
    ensures
        seeded_upto(frames, cameras, index, cameras.len() as int, payload) == seeded_upto(
            frames,
            cameras,
            (index + 1) as u64,
            0,
            payload,
        ),
{
    assert(cameras.take(cameras.len() as int) =~= cameras);
    assert(cameras.take(0) =~= Seq::<Seq<char>>::empty());
    assert forall|key: FrameKey|
        reached(cameras, index, cameras.len() as int, key) <==> reached(
            cameras,
            (index + 1) as u64,
            0,
            key,
        ) by {}
    assert(seeded_upto(frames, cameras, index, cameras.len() as int, payload) =~= seeded_upto(
        frames,
        cameras,
        (index + 1) as u64,
        0,
        payload,
    ));
}

/// Writes `payload` as the frames `0..images_per_camera` of every camera:
/// index by index, and for each index to every camera in turn. Returns the
/// count, which is where the writers go on. The first write that fails ends
/// the seeding.
pub fn seed_db<S: FakeStorageImpl>(
    db: &mut S,
    cameras: &[String],
    images_per_camera: u64,
    payload: &[u8],
) -> (seeding: Result<u64, StorageError>)
    ensures
        final(db).namespaces() == old(db).namespaces(),
        images_per_camera == 0 || cameras.len() == 0 ==> seeding is Ok,
        match seeding {
            Ok(baseline) => {
                &&& baseline == images_per_camera
                &&& final(db).frames() == seeded(
                    old(db).frames(),
                    names(cameras@),
                    images_per_camera,
                    payload@,
                )
                &&& images_per_camera > 0 ==> forall|c: int|
                    0 <= c < cameras.len() ==> old(db).namespaces().contains(
                        #[trigger] names(cameras@)[c],
                    )
            },
            Err(e) => {
                &&& e == StorageError::WriteFailure
                &&& exists|index: u64, position: int|
                    index < images_per_camera && #[trigger] seed_stopped_at(
                        old(db).frames(),
                        final(db).frames(),
                        names(cameras@),
                        index,
                        position,
                        payload@,
                    )
            },
        },
{
    let ghost before = db.frames();
    let ghost spaces = db.namespaces();
    let ghost all = names(cameras@);
    let mut index: u64 = 0;
    proof {
        assert(seeded_upto(before, all, 0, 0, payload@) =~= before) by {
            assert(all.take(0) =~= Seq::<Seq<char>>::empty());
        }
    }
    while index < images_per_camera
        invariant
            index <= images_per_camera,
            all == names(cameras@),
            before == old(db).frames(),
            spaces == old(db).namespaces(),
            db.namespaces() == spaces,
            db.frames() == seeded_upto(before, all, index, 0, payload@),
            index > 0 ==> forall|c: int| 0 <= c < cameras.len() ==> spaces.contains(#[trigger] all[c]),
        decreases images_per_camera - index,
    {
        let mut position: usize = 0;
        while position < cameras.len()
            invariant
                index < images_per_camera,
                position <= cameras.len(),
                all == names(cameras@),
                before == old(db).frames(),
                spaces == old(db).namespaces(),
                db.namespaces() == spaces,
                db.frames() == seeded_upto(before, all, index, position as int, payload@),
                forall|c: int| 0 <= c < position ==> spaces.contains(#[trigger] all[c]),
            decreases cameras.len() - position,
        {
            match db.write_image(cameras[position].as_str(), index, payload) {
                Ok(()) => {
                    proof {
                        lemma_seed_step(before, all, index, position as int, payload@);
                    }
                },
                Err(e) => {
                    proof {
                        assert(seed_stopped_at(
                            before,
                            db.frames(),
                            all,
                            index,
                            position as int,
                            payload@,
                        ));
                    }
                    return Err(e);
                },
            }
            position = position + 1;
        }
        proof {
            lemma_seed_row(before, all, index, payload@);
        }
        index = index + 1;
    }
    proof {
        lemma_seeded_is_last_point(before, all, images_per_camera, payload@);
    }
    Ok(images_per_camera)
}

/// After seeding, a read of any seeded frame of any seeded camera, where it
/// does not fail, gives back exactly the payload that was written.
pub proof fn lemma_seeded_round_trip(
    namespaces: Set<Seq<char>>,
    frames: Frames,
    cameras: Seq<Seq<char>>,
    count: u64,
    payload: Seq<u8>,
    camera: Seq<char>,
    index: u64,
    read: Result<Option<Vec<u8>>, StorageError>,
)
    requires
        cameras.contains(camera),
        index < count,
        read_conforms(namespaces, seeded(frames, cameras, count, payload), camera, index, read),
        read is Ok,
    ensures
        read matches Ok(Some(bytes)) && bytes@ == payload,
{
}

/// After seeding, every seeded camera holds a gap-free sequence of `count`
/// frames, and what a camera held in sequence before, it still holds.
pub proof fn lemma_seeded_covers(
    frames: Frames,
    cameras: Seq<Seq<char>>,
    count: u64,
    payload: Seq<u8>,
    camera: Seq<char>,
    high: u64,
)
    ensures
        cameras.contains(camera) ==> covered(
            seeded(frames, cameras, count, payload),
            camera,
            count,
        ),
        covered(frames, camera, high) ==> covered(
            seeded(frames, cameras, count, payload),
            camera,
            high,
        ),
{
    let after = seeded(frames, cameras, count, payload);
    if cameras.contains(camera) {
        assert forall|index: u64| index < count implies #[trigger] after.contains_key(
            (camera, index),
        ) by {}
    }
    if covered(frames, camera, high) {
        assert forall|index: u64| index < high implies #[trigger] after.contains_key(
            (camera, index),
        ) by {
            assert(frames.contains_key((camera, index)));
        }
    }
}

/// Seeding touches no address but those of the seeded frames.
pub proof fn lemma_seeded_keeps_other_frames(
    frames: Frames,
    cameras: Seq<Seq<char>>,
    count: u64,
    payload: Seq<u8>,
    other: FrameKey,
)
    requires
        !(cameras.contains(other.0) && other.1 < count),
    ensures
        seeded(frames, cameras, count, payload).contains_key(other) == frames.contains_key(other),
        frames.contains_key(other) ==> seeded(frames, cameras, count, payload)[other]
            == frames[other],
{
}

} // verus!
