//! Shrinks and re-encodes the pages of zip archives: the arithmetic of the
//! resize, the quality search under a size budget, the per-file transcode
//! decisions, the naming of entries and outputs, and the repacking.
pub mod pack;
pub mod paths;
pub mod pipeline;
pub mod quality;
pub mod resize;
pub mod transcode;
