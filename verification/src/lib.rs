//! Verified core of a map-tile generation worker: quad-tree tile
//! addressing, raster split/merge for pyramid construction, a directory
//! archive codec, the shared download cache protocol, job dispatch and
//! the worker loop's control decisions.

pub mod cache;
pub mod codec;
pub mod imaging;
pub mod jobs;
pub mod lidar;
pub mod pyramid;
pub mod raster;
pub mod render;
pub mod strings;
pub mod transfer;
pub mod worker;
pub mod tiles;
