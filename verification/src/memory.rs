//! A store that lives in memory: the reference that the contract of a back
//! end is held against.

use crate::storage::{FakeStorageImpl, FrameKey, Frames, StorageError};
use std::collections::HashMap;
use vstd::prelude::*;
use vstd::slice::slice_to_vec;

verus! {

broadcast use vstd::std_specs::hash::group_hash_axioms;

/// The namespace of one camera.
struct Shelf {
    camera: String,
    frames: HashMap<u64, Vec<u8>>,
}

spec fn holds(shelves: Seq<Shelf>, camera: Seq<char>) -> bool {
    exists|p: int| 0 <= p < shelves.len() && (#[trigger] shelves[p]).camera@ == camera
}

spec fn shelf_of(shelves: Seq<Shelf>, camera: Seq<char>) -> int {
    choose|p: int| 0 <= p < shelves.len() && (#[trigger] shelves[p]).camera@ == camera
}

spec fn distinct(shelves: Seq<Shelf>) -> bool {
    forall|p: int, q: int|
        0 <= p < q < shelves.len() ==> (#[trigger] shelves[p]).camera@ != (
        #[trigger] shelves[q]).camera@
}

spec fn frames_of(shelves: Seq<Shelf>) -> Frames {
    Map::new(
        |key: FrameKey|
            holds(shelves, key.0) && shelves[shelf_of(shelves, key.0)].frames@.contains_key(key.1),
        |key: FrameKey| shelves[shelf_of(shelves, key.0)].frames@[key.1]@,
    )
}

proof fn lemma_shelf_of(shelves: Seq<Shelf>, p: int)
    requires
        distinct(shelves),
        0 <= p < shelves.len(),
    ensures
        holds(shelves, shelves[p].camera@),
        shelf_of(shelves, shelves[p].camera@) == p,
{
}

fn find(shelves: &Vec<Shelf>, camera: &String) -> (found: Option<usize>)
    ensures
        match found {
            Some(p) => p < shelves.len() && shelves[p as int].camera@ == camera@,
            None => !holds(shelves@, camera@),
        },
{
    let mut p: usize = 0;
    while p < shelves.len()
        invariant
            p <= shelves.len(),
            forall|q: int| 0 <= q < p ==> (#[trigger] shelves[q]).camera@ != camera@,
        decreases shelves.len() - p,
    {
        if shelves[p].camera == *camera {
            return Some(p);
        }
        p = p + 1;
    }
    None
}

/// A store in memory. It never fails but for a camera that was not
/// registered.
pub struct MemoryStorage {
    shelves: Vec<Shelf>,
}

impl MemoryStorage {
    #[verifier::type_invariant]
    spec fn well_formed(self) -> bool {
        distinct(self.shelves@)
    }

    /// A store without any camera.
    pub fn new() -> (storage: MemoryStorage)
        ensures
            storage.namespaces() == Set::<Seq<char>>::empty(),
            storage.frames() == Map::<FrameKey, Seq<u8>>::empty(),
    {
        let storage = MemoryStorage { shelves: Vec::new() };
        assert(storage.namespaces() =~= Set::<Seq<char>>::empty());
        assert(storage.frames() =~= Map::<FrameKey, Seq<u8>>::empty());
        storage
    }
}

impl FakeStorageImpl for MemoryStorage {
    closed spec fn namespaces(&self) -> Set<Seq<char>> {
        Set::new(|camera: Seq<char>| holds(self.shelves@, camera))
    }

    closed spec fn frames(&self) -> Frames {
        frames_of(self.shelves@)
    }

    fn add_camera(&mut self, name: &str) {
        proof {
            use_type_invariant(&*self);
        }
        let camera = name.to_owned();
        let ghost before = self.shelves@;
        if find(&self.shelves, &camera).is_none() {
            let mut shelves: Vec<Shelf> = Vec::new();
            std::mem::swap(&mut shelves, &mut self.shelves);
            shelves.push(Shelf { camera, frames: HashMap::new() });
            self.shelves = shelves;
            proof {
                let after = self.shelves@;
                let last = before.len() as int;
                assert forall|other: Seq<char>| holds(after, other) == (holds(before, other)
                    || other == name@) by {
                    if holds(before, other) {
                        let p = choose|p: int|
                            0 <= p < before.len() && (#[trigger] before[p]).camera@ == other;
                        assert(after[p].camera@ == other);
                    }
                    if other == name@ {
                        assert(after[last].camera@ == other);
                    }
                    if holds(after, other) && other != name@ {
                        let p = choose|p: int|
                            0 <= p < after.len() && (#[trigger] after[p]).camera@ == other;
                        assert(before[p].camera@ == other);
                    }
                }
                assert(self.namespaces() =~= old(self).namespaces().insert(name@));
                assert forall|key: FrameKey|
                    frames_of(after).contains_key(key) == frames_of(before).contains_key(key) by {
                    if holds(before, key.0) {
                        let p = shelf_of(before, key.0);
                        assert(after[p] == before[p]);
                        lemma_shelf_of(after, p);
                    } else if key.0 == name@ {
                        lemma_shelf_of(after, last);
                        assert(after[last].frames@ =~= Map::<u64, Vec<u8>>::empty());
                    }
                }
                assert forall|key: FrameKey| frames_of(before).contains_key(key) implies frames_of(
                    after,
                )[key] == frames_of(before)[key] by {
                    let p = shelf_of(before, key.0);
                    assert(after[p] == before[p]);
                    lemma_shelf_of(after, p);
                }
                assert(self.frames() =~= old(self).frames());
            }
        } else {
            proof {
                assert(self.namespaces() =~= old(self).namespaces().insert(name@));
            }
        }
    }

    fn write_image(&mut self, camera: &str, index: u64, image: &[u8]) -> (outcome: Result<
        (),
        StorageError,
    >)
        ensures
            outcome is Ok <==> old(self).namespaces().contains(camera@),
    {
        proof {
            use_type_invariant(&*self);
        }
        let name = camera.to_owned();
        let ghost before = self.shelves@;
        match find(&self.shelves, &name) {
            Some(p) => {
                let mut shelves: Vec<Shelf> = Vec::new();
                std::mem::swap(&mut shelves, &mut self.shelves);
                shelves[p].frames.insert(index, slice_to_vec(image));
                self.shelves = shelves;
                proof {
                    let after = self.shelves@;
                    assert forall|q: int| 0 <= q < after.len() implies (#[trigger] after[q]).camera
                        == before[q].camera by {}
                    assert forall|other: Seq<char>| holds(after, other) == holds(before, other) by {
                        if holds(before, other) {
                            let q = choose|q: int|
                                0 <= q < before.len() && (#[trigger] before[q]).camera@ == other;
                            assert(after[q].camera@ == other);
                        }
                        if holds(after, other) {
                            let q = choose|q: int|
                                0 <= q < after.len() && (#[trigger] after[q]).camera@ == other;
                            assert(before[q].camera@ == other);
                        }
                    }
                    assert(self.namespaces() =~= old(self).namespaces());
                    lemma_shelf_of(before, p as int);
                    lemma_shelf_of(after, p as int);
                    assert forall|key: FrameKey|
                        frames_of(after).contains_key(key) == frames_of(before).insert(
                            (camera@, index),
                            image@,
                        ).contains_key(key) by {
                        if holds(before, key.0) {
                            let q = shelf_of(before, key.0);
                            lemma_shelf_of(after, q);
                        }
                    }
                    assert forall|key: FrameKey| frames_of(after).contains_key(key) implies frames_of(
                        after,
                    )[key] == frames_of(before).insert((camera@, index), image@)[key] by {
                        let q = shelf_of(before, key.0);
                        lemma_shelf_of(after, q);
                    }
                    assert(self.frames() =~= old(self).frames().insert((camera@, index), image@));
                }
                Ok(())
            },
            None => Err(StorageError::WriteFailure),
        }
    }

    fn read_image(&self, camera: &str, index: u64) -> (outcome: Result<
        Option<Vec<u8>>,
        StorageError,
    >)
        ensures
            outcome is Ok <==> self.namespaces().contains(camera@),
    {
        proof {
            use_type_invariant(self);
        }
        let name = camera.to_owned();
        match find(&self.shelves, &name) {
            Some(p) => {
                proof {
                    lemma_shelf_of(self.shelves@, p as int);
                }
                match self.shelves[p].frames.get(&index) {
                    Some(bytes) => {
                        let copy = bytes.clone();
                        assert(copy@ =~= bytes@);
                        Ok(Some(copy))
                    },
                    None => Ok(None),
                }
            },
            None => Err(StorageError::ReadFailure),
        }
    }
}

} // verus!
