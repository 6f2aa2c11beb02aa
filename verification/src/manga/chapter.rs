//! Chapters and their pages.

pub mod at_home;
pub mod chapter;
pub mod chapter_list;
pub mod manga_image;

pub use at_home::AtHomeServerResponse;
pub use chapter::Chapter;
pub use chapter_list::ChapterList;
pub use manga_image::{ChapterImage, MangaImage};
