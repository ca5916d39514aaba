//! Wallpaper discovery and synchronisation: the image-of-the-day archive,
//! the local lock-screen asset cache, and the rules by which images from
//! both are named and brought into a destination directory.

pub mod bing;
pub mod spotlight;
pub mod sync;
pub mod text;
pub mod util;
