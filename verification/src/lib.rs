//! Cursor and crop-state manager for a collection of wallpaper images.
//!
//! The library keeps an ordered, navigable list of image paths, the crop
//! records for the image under the cursor, and a small preview-mode state
//! machine.  Navigation, deletion and geometry edits keep the cursor, the
//! file list and the loaded records mutually consistent.

pub mod cursor;
pub mod geometry;
pub mod preview;
pub mod store;
pub mod wallinfo;
