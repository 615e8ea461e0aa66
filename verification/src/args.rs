//! The configuration of a run.

use vstd::prelude::*;

verus! {

/// The back ends that a run can be pointed at.
#[derive(Clone, Copy, Debug, PartialEq, Eq, Structural)]
pub enum DatabaseType {
    Filesystem,
    RocksDB,
    Sled,
}

/// Everything an operator can set.
#[derive(Debug)]
pub struct Arguments {
    /// Root path of the store.
    pub db_path: String,
    /// Which back end to run against.
    pub db_type: DatabaseType,
    /// Whether the store is seeded before the load starts.
    pub seed_db: bool,
    /// Number of frames that each camera holds before the load starts.
    pub seed_images_per_camera: u64,
    /// Size, in MiB, of the block that simulates memory pressure.
    pub ram_buffer_mb: usize,
    /// Number of cameras.
    pub n_cameras: usize,
    /// Number of reader tasks.
    pub n_readers: usize,
    /// Reads per second of each reader.
    pub readers_rate: usize,
    /// Writes per second of each writer.
    pub writers_rate: usize,
}

/// Writes per second of a writer, unless configured otherwise.
pub const DEFAULT_WRITERS_RATE: usize = 20;

impl Arguments {
    /// The configuration for back end `db_type` with every other option at
    /// its default.
    pub fn new(db_type: DatabaseType) -> (args: Arguments)
        ensures
            args.db_path@ == "./db"@,
            args.db_type == db_type,
            !args.seed_db,
            args.seed_images_per_camera == 150000,
            args.ram_buffer_mb == 8,
            args.n_cameras == 2,
            args.n_readers == 100,
            args.readers_rate == 10,
            args.writers_rate == DEFAULT_WRITERS_RATE,
    {
        Arguments {
            db_path: "./db".to_owned(),
            db_type,
            seed_db: false,
            seed_images_per_camera: 150000,
            ram_buffer_mb: 8,
            n_cameras: 2,
            n_readers: 100,
            readers_rate: 10,
            writers_rate: DEFAULT_WRITERS_RATE,
        }
    }
}

} // verus!
