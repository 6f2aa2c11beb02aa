//! Page images as the EPUB takes them.

use crate::connection::page::PageResult;
use vstd::prelude::*;

verus! {

/// A label for a chapter's number: the text it is written with, and a key
/// that orders chapters as their numbers do.
#[derive(Debug, PartialEq, Eq)]
pub struct ChapterNumber {
    pub key: i32,
    pub label: String,
}

impl Clone for ChapterNumber {
    fn clone(&self) -> (r: ChapterNumber)
        ensures
            r == *self,
    {
        ChapterNumber { key: self.key, label: self.label.clone() }
    }
}

/// The pages of one chapter, ready for the book.
#[derive(Debug, PartialEq, Eq)]
pub struct ChapterImage {
    pub chapter_no: Option<ChapterNumber>,
    pub chapter_title: String,
    /// Where the chapter's pages go in the book; see
    /// [`Chapter::generate_file_name`](super::chapter::Chapter::generate_file_name).
    pub target_name: String,
    pub images: Vec<MangaImage>,
}

/// The bytes of one page image, with the page's number.
#[derive(Debug, PartialEq, Eq)]
pub struct MangaImage {
    pub page_no: i32,
    pub image: Vec<u8>,
}

impl MangaImage {
    /// An image from its page number and its bytes.
    pub fn new(page_no: i32, image: Vec<u8>) -> (r: MangaImage)
        ensures
            r.page_no == page_no,
            r.image@ == image@,
    {
        MangaImage { page_no, image }
    }

    /// The image of a fetched page; `None` where the fetch failed, or where
    /// the page's index is beyond what a page number can hold.
    pub fn from_page(page: PageResult) -> (r: Option<MangaImage>)
        ensures
            r.is_some() == (page@.outcome is Success && page@.page_index <= i32::MAX),
            r matches Some(image) ==> image.page_no == page@.page_index && image.image@
                == page@.payload,
    {
        let index = page.page_index();
        if page.is_success() && index <= 2147483647 {
            Some(MangaImage { page_no: index as i32, image: page.into_payload() })
        } else {
            None
        }
    }
}

/// A chapter as it is once its pages have moved into a book: all that it
/// was, with every image in its place under its page number, but for the
/// bytes of the images, which are gone.
pub open spec fn moved_out(before: ChapterImage, after: ChapterImage) -> bool {
    &&& after.chapter_no == before.chapter_no
    &&& after.chapter_title == before.chapter_title
    &&& after.target_name == before.target_name
    &&& after.images@.len() == before.images@.len()
    &&& forall|i: int|
        0 <= i < after.images@.len() ==> (#[trigger] after.images@[i]).image@.len() == 0
            && after.images@[i].page_no == before.images@[i].page_no
}

} // verus!
