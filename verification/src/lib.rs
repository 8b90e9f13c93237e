//! Motion-compensated accumulation of LiDAR sweeps.
//!
//! The verified core of a sweep accumulator: given per-row session and
//! timestamp metadata, it decides which sweeps contribute to an accumulated
//! point cloud, in which order they are concatenated, which sweeps need
//! motion compensation, and what each sweep's time offset from the query
//! is. It also resolves poses by exact timestamp and builds the on-disk
//! paths of sweep files. The floating-point point transforms and the file
//! reading themselves live outside this crate.

pub mod accumulate;
pub mod error;
pub mod paths;
pub mod pose;

pub use accumulate::plan_sweeps;
pub use accumulate::SweepTask;
pub use error::AccumError;
pub use paths::get_lidar_path;
pub use paths::get_log_dir;
pub use paths::get_split_dir;
pub use pose::resolve_pose_row;
