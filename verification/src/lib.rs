//! Planning for a small symlink farm manager: which entries of a directory to
//! link into a target directory, and which filesystem operations that takes.
//!
//! Nothing here touches the filesystem. A caller reads what is needed (file
//! contents, directory entries, what stands at a target path), hands it over
//! as plain values, and carries out the operations that come back.

pub mod cli;
pub mod entry;
pub mod ignore;
pub mod link;
pub mod model;
pub mod path;
pub mod pattern;
pub mod text;
pub mod walk;
