//! The catalog's records of a manga and what is assembled from them.

pub mod author;
pub mod chapter;
pub mod cover;
pub mod manga;
pub mod manga_data;

pub use author::AuthorData;
pub use chapter::AtHomeServerResponse;
pub use cover::CoverData;
pub use manga::Manga;
pub use manga_data::MangaData;
