//! The contract that every storage back end meets.

use vstd::prelude::*;

verus! {

/// The ways in which a back end can fail. A frame that was never written is
/// no failure: a read reports it as `Ok(None)`.
#[derive(Clone, Copy, Debug, PartialEq, Eq, Structural)]
pub enum StorageError {
    /// The partition of a camera could not be created or opened.
    NamespaceCreationFailure,
    /// A payload could not be persisted.
    WriteFailure,
    /// A read hit a fault of the medium or a namespace that does not exist.
    ReadFailure,
}

impl StorageError {
    /// What the error says, in words.
    pub fn describe(&self) -> (text: &'static str)
        ensures
            text@ == match self {
                StorageError::NamespaceCreationFailure => {
                    "the namespace of a camera could not be created"@
                },
                StorageError::WriteFailure => "a frame could not be written"@,
                StorageError::ReadFailure => "a frame could not be read"@,
            },
    {
        match self {
            StorageError::NamespaceCreationFailure => {
                "the namespace of a camera could not be created"
            },
            StorageError::WriteFailure => "a frame could not be written",
            StorageError::ReadFailure => "a frame could not be read",
        }
    }
}

/// The address of one frame: the camera's name and the frame's index.
pub type FrameKey = (Seq<char>, u64);

/// What a store holds: the payload under each address that was written.
pub type Frames = Map<FrameKey, Seq<u8>>;

/// What a write may report and leave behind. Success needs the camera's
/// namespace and stores exactly the one frame; a failure is a write error and
/// touches no frame but, possibly, the one addressed.
pub open spec fn write_conforms(
    namespaces: Set<Seq<char>>,
    before: Frames,
    after: Frames,
    camera: Seq<char>,
    index: u64,
    image: Seq<u8>,
    outcome: Result<(), StorageError>,
) -> bool {
    match outcome {
        Ok(()) => namespaces.contains(camera) && after == before.insert((camera, index), image),
        Err(e) => e == StorageError::WriteFailure && after.remove((camera, index))
            == before.remove((camera, index)),
    }
}

/// What a read may report. A payload is the one stored under the address, an
/// absent result says that nothing is stored there, and both need the
/// camera's namespace; an error is a read error.
pub open spec fn read_conforms(
    namespaces: Set<Seq<char>>,
    frames: Frames,
    camera: Seq<char>,
    index: u64,
    outcome: Result<Option<Vec<u8>>, StorageError>,
) -> bool {
    match outcome {
        Ok(Some(bytes)) => namespaces.contains(camera) && frames.contains_key((camera, index))
            && bytes@ == frames[(camera, index)],
        Ok(None) => namespaces.contains(camera) && !frames.contains_key((camera, index)),
        Err(e) => e == StorageError::ReadFailure,
    }
}

/// The names of `cameras`, as the contracts speak of them.
pub open spec fn names(cameras: Seq<String>) -> Seq<Seq<char>> {
    Seq::new(cameras.len(), |i: int| cameras[i]@)
}

/// The namespaces of a store once `cameras` are registered with it.
pub open spec fn registered(namespaces: Set<Seq<char>>, cameras: Seq<Seq<char>>) -> Set<Seq<char>> {
    Set::new(|name: Seq<char>| namespaces.contains(name) || cameras.contains(name))
}

/// Whether `camera` holds every frame below `high`: a sequence from 0 without
/// a gap.
pub open spec fn covered(frames: Frames, camera: Seq<char>, high: u64) -> bool {
    forall|index: u64| index < high ==> #[trigger] frames.contains_key((camera, index))
}

/// A storage back end. Each call is one atomic step on the store that the
/// handle stands for: handles that share a store are one store to these
/// contracts, and keeping concurrent calls apart is the back end's business.
///
/// A back end written in verified code says what `namespaces` and `frames`
/// are and is held to the contracts below. One written outside of it cannot
/// say so and inherits the two bodies given here, of which nothing is known:
/// that it meets the contracts is then its author's word.
pub trait FakeStorageImpl {
    /// The cameras whose namespace exists.
    open spec fn namespaces(&self) -> Set<Seq<char>> {
        arbitrary()
    }

    /// The frames that the store holds.
    open spec fn frames(&self) -> Frames {
        arbitrary()
    }

    /// Creates the namespace of camera `name`, or opens it if it exists.
    fn add_camera(&mut self, name: &str)
        ensures
            final(self).namespaces() == old(self).namespaces().insert(name@),
            final(self).frames() == old(self).frames(),
    ;

    /// Persists `image` as frame `index` of `camera`, replacing what was there.
    fn write_image(&mut self, camera: &str, index: u64, image: &[u8]) -> (outcome: Result<
        (),
        StorageError,
    >)
        ensures
            final(self).namespaces() == old(self).namespaces(),
            write_conforms(
                old(self).namespaces(),
                old(self).frames(),
                final(self).frames(),
                camera@,
                index,
                image@,
                outcome,
            ),
    ;

    /// Reads frame `index` of `camera`, if it was written.
    fn read_image(&self, camera: &str, index: u64) -> (outcome: Result<
        Option<Vec<u8>>,
        StorageError,
    >)
        ensures
            read_conforms(self.namespaces(), self.frames(), camera@, index, outcome),
    ;
}

/// The back end of a run: one of the three kinds, chosen when the run is
/// configured.
pub enum SupportedDatabase<F, R, S> {
    Filesystem(F),
    RocksDB(R),
    Sled(S),
}

impl<F: Clone, R: Clone, S: Clone> Clone for SupportedDatabase<F, R, S> {
    /// Another handle of the same kind on the same back end.
    fn clone(&self) -> (handle: Self)
        ensures
            handle is Filesystem <==> self is Filesystem,
            handle is RocksDB <==> self is RocksDB,
            handle is Sled <==> self is Sled,
    {
        match self {
            SupportedDatabase::Filesystem(fs) => SupportedDatabase::Filesystem(fs.clone()),
            SupportedDatabase::RocksDB(rocks) => SupportedDatabase::RocksDB(rocks.clone()),
            SupportedDatabase::Sled(sled) => SupportedDatabase::Sled(sled.clone()),
        }
    }
}

impl<F: FakeStorageImpl, R: FakeStorageImpl, S: FakeStorageImpl> FakeStorageImpl
    for SupportedDatabase<F, R, S> {
    open spec fn namespaces(&self) -> Set<Seq<char>> {
        match self {
            SupportedDatabase::Filesystem(fs) => fs.namespaces(),
            SupportedDatabase::RocksDB(rocks) => rocks.namespaces(),
            SupportedDatabase::Sled(sled) => sled.namespaces(),
        }
    }

    open spec fn frames(&self) -> Frames {
        match self {
            SupportedDatabase::Filesystem(fs) => fs.frames(),
            SupportedDatabase::RocksDB(rocks) => rocks.frames(),
            SupportedDatabase::Sled(sled) => sled.frames(),
        }
    }

    fn add_camera(&mut self, name: &str) {
        match self {
            SupportedDatabase::Filesystem(fs) => fs.add_camera(name),
            SupportedDatabase::RocksDB(rocks) => rocks.add_camera(name),
            SupportedDatabase::Sled(sled) => sled.add_camera(name),
        }
    }

    fn write_image(&mut self, camera: &str, index: u64, image: &[u8]) -> (outcome: Result<
        (),
        StorageError,
    >) {
        match self {
            SupportedDatabase::Filesystem(fs) => fs.write_image(camera, index, image),
            SupportedDatabase::RocksDB(rocks) => rocks.write_image(camera, index, image),
            SupportedDatabase::Sled(sled) => sled.write_image(camera, index, image),
        }
    }

    fn read_image(&self, camera: &str, index: u64) -> (outcome: Result<
        Option<Vec<u8>>,
        StorageError,
    >) {
        match self {
            SupportedDatabase::Filesystem(fs) => fs.read_image(camera, index),
            SupportedDatabase::RocksDB(rocks) => rocks.read_image(camera, index),
            SupportedDatabase::Sled(sled) => sled.read_image(camera, index),
        }
    }
}

pub(crate) proof fn lemma_prefix_grows(items: Seq<Seq<char>>, upto: int, item: Seq<char>)
    requires
        0 <= upto < items.len(),
    ensures
        items.take(upto + 1).contains(item) <==> items.take(upto).contains(item) || item
            == items[upto],
        items.contains(items[upto]),
{
    let shorter = items.take(upto);
    let longer = items.take(upto + 1);
    assert(longer[upto] == items[upto]);
    if shorter.contains(item) {
        let at = choose|at: int| 0 <= at < shorter.len() && shorter[at] == item;
        assert(longer[at] == item);
    }
    if longer.contains(item) && item != items[upto] {
        let at = choose|at: int| 0 <= at < longer.len() && longer[at] == item;
        assert(shorter[at] == item);
    }
}

/// A write, whatever it comes to, touches no address but its own: what any
/// other camera holds, and any other frame of the same camera, stays as it
/// was.
pub proof fn lemma_write_keeps_other_frames(
    namespaces: Set<Seq<char>>,
    before: Frames,
    after: Frames,
    camera: Seq<char>,
    index: u64,
    image: Seq<u8>,
    outcome: Result<(), StorageError>,
    other: FrameKey,
)
    requires
        write_conforms(namespaces, before, after, camera, index, image, outcome),
        other != (camera, index),
    ensures
        after.contains_key(other) == before.contains_key(other),
        after.contains_key(other) ==> after[other] == before[other],
{
    let key = (camera, index);
    if outcome is Err {
        assert(after.remove(key).contains_key(other) == after.contains_key(other));
        assert(before.remove(key).contains_key(other) == before.contains_key(other));
        if after.contains_key(other) {
            assert(after.remove(key)[other] == after[other]);
            assert(before.remove(key)[other] == before[other]);
        }
    }
}

/// A write that succeeds is seen by the next read of the same address: the
/// read, where it does not fail, gives back the payload that was written.
pub proof fn lemma_read_your_writes(
    namespaces: Set<Seq<char>>,
    before: Frames,
    after: Frames,
    camera: Seq<char>,
    index: u64,
    image: Seq<u8>,
    read: Result<Option<Vec<u8>>, StorageError>,
)
    requires
        write_conforms(namespaces, before, after, camera, index, image, Ok(())),
        read_conforms(namespaces, after, camera, index, read),
        read is Ok,
    ensures
        read matches Ok(Some(bytes)) && bytes@ == image,
{
}

/// A frame that was never written reads as absent: the read gives no payload,
/// and where it gives a result at all, the result is the absent one. Absence
/// is a result of its own, and no error stands for it.
pub proof fn lemma_unwritten_reads_absent(
    namespaces: Set<Seq<char>>,
    frames: Frames,
    camera: Seq<char>,
    index: u64,
    read: Result<Option<Vec<u8>>, StorageError>,
)
    requires
        !frames.contains_key((camera, index)),
        read_conforms(namespaces, frames, camera, index, read),
    ensures
        read matches Ok(found) ==> found is None,
        read matches Err(e) ==> e == StorageError::ReadFailure,
{
}

/// A write at the top of a gap-free sequence keeps it gap-free and makes it
/// one frame longer; a write anywhere leaves every sequence at least as long
/// as it was.
pub proof fn lemma_write_extends_coverage(
    frames: Frames,
    camera: Seq<char>,
    cursor: u64,
    payload: Seq<u8>,
    other: Seq<char>,
    high: u64,
)
    requires
        cursor < u64::MAX,
    ensures
        covered(frames, camera, cursor) ==> covered(
            frames.insert((camera, cursor), payload),
            camera,
            (cursor + 1) as u64,
        ),
        covered(frames, other, high) ==> covered(
            frames.insert((camera, cursor), payload),
            other,
            high,
        ),
{
    let grown = frames.insert((camera, cursor), payload);
    if covered(frames, camera, cursor) {
        assert forall|index: u64| index < cursor + 1 implies #[trigger] grown.contains_key(
            (camera, index),
        ) by {
            if index < cursor {
                assert(frames.contains_key((camera, index)));
            }
        }
    }
    if covered(frames, other, high) {
        assert forall|index: u64| index < high implies #[trigger] grown.contains_key(
            (other, index),
        ) by {
            assert(frames.contains_key((other, index)));
        }
    }
}

/// Registering is idempotent: cameras that are registered again leave the
/// namespaces as they were. Every camera that was registered has its
/// namespace, and no namespace is lost by registering.
pub proof fn lemma_registering_is_idempotent(namespaces: Set<Seq<char>>, cameras: Seq<Seq<char>>)
    ensures
        registered(registered(namespaces, cameras), cameras) == registered(namespaces, cameras),
        forall|c: int|
            0 <= c < cameras.len() ==> registered(namespaces, cameras).contains(
                #[trigger] cameras[c],
            ),
        namespaces.subset_of(registered(namespaces, cameras)),
{
    assert(registered(registered(namespaces, cameras), cameras) =~= registered(
        namespaces,
        cameras,
    ));
}

} // verus!
