//! The store that keeps every frame in a file of its own.

use crate::layout::{camera_dir, camera_dir_of, frame_path, frame_path_of};
use vstd::prelude::*;

verus! {

/// A store that is a directory tree: under its root one directory for each
/// camera, and in it one file for each frame. This type says where things
/// are; reading and writing the files is left to the program.
#[derive(Debug)]
pub struct FilesystemStorage {
    path: String,
}

impl FilesystemStorage {
    /// The root of the tree.
    pub closed spec fn root(&self) -> Seq<char> {
        self.path@
    }

    /// The store rooted at `path`.
    pub fn new(path: &str) -> (storage: FilesystemStorage)
        ensures
            storage.root() == path@,
    {
        FilesystemStorage { path: path.to_owned() }
    }

    /// The root of the tree.
    pub fn root_path(&self) -> (path: &str)
        ensures
            path@ == self.root(),
    {
        self.path.as_str()
    }

    /// The directory that holds the frames of `camera`.
    pub fn camera_dir(&self, camera: &str) -> (dir: String)
        ensures
            dir@ == camera_dir_of(self.root(), camera@),
    {
        camera_dir(self.path.as_str(), camera)
    }

    /// The file that holds frame `index` of `camera`.
    pub fn frame_path(&self, camera: &str, index: u64) -> (path: String)
        ensures
            path@ == frame_path_of(self.root(), camera@, index),
    {
        frame_path(self.path.as_str(), camera, index)
    }
}

} // verus!
