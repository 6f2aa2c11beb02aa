//! # dexloader
//!
//! The decision-making core of a MangaDex downloader: which page images to
//! request and when, what each response means for its page, what is reported
//! back to the image network, and how the pages of a work are laid out in an
//! EPUB. Nothing here touches the network or the file system; a caller performs
//! the requests this crate asks for and hands back what came of them.

pub mod connection;
pub mod epub;
pub mod manga;
pub mod plan;
pub mod text;
pub mod util;
