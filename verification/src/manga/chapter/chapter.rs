//! One chapter of a manga.

use super::at_home::AtHomeServerResponse;
use super::manga_image::{ChapterImage, ChapterNumber, MangaImage};
use crate::connection::batch::{locator_views, BatchFetcher, BatchView, ConfigurationError};
use vstd::prelude::*;

verus! {

/// A chapter as the catalog lists it.
#[derive(Debug, PartialEq, Eq)]
pub struct Chapter {
    pub id: String,
    pub attributes: ChapterAttribute,
}

/// A chapter's number, its page count and its title.
#[derive(Debug, PartialEq, Eq)]
pub struct ChapterAttribute {
    pub chapter: Option<ChapterNumber>,
    pub pages: i32,
    pub title: String,
}

/// Where the catalog tells which server holds a chapter's pages.
pub open spec fn at_home_url(chapter_id: Seq<char>) -> Seq<char> {
    "https://api.mangadex.org/at-home/server/"@ + chapter_id
}

/// The label of a chapter without a number.
pub open spec fn unnumbered_label() -> Seq<char> {
    "0"@
}

/// The path pattern of a chapter's pages in the book: the word `ORDER`
/// stands where each page's position goes.
pub open spec fn file_name_pattern(label: Seq<char>) -> Seq<char> {
    "Images/"@ + label + "_ORDER.jpg"@
}

/// The address of each page of a chapter, in reading order: the server's
/// base address, `/data/`, the chapter's hash, `/` and the page's file name.
pub open spec fn page_locators(
    base_url: Seq<char>,
    hash: Seq<char>,
    files: Seq<String>,
) -> Seq<Seq<char>> {
    Seq::new(files.len(), |i: int| base_url + "/data/"@ + hash + "/"@ + files[i]@)
}

impl Chapter {
    pub fn new(id: String, attributes: ChapterAttribute) -> (r: Chapter)
        ensures
            r.id == id,
            r.attributes == attributes,
    {
        Chapter { id, attributes }
    }

    /// The key that orders this chapter among others; 0 where it has no
    /// number.
    pub fn get_chapter_key(&self) -> (key: i32)
        ensures
            key == match self.attributes.chapter {
                Some(n) => n.key,
                None => 0,
            },
    {
        match &self.attributes.chapter {
            Some(n) => n.key,
            None => 0,
        }
    }

    /// The text of the chapter's number; `0` where it has none.
    pub fn get_chapter_label(&self) -> (label: String)
        ensures
            label@ == match self.attributes.chapter {
                Some(n) => n.label@,
                None => unnumbered_label(),
            },
    {
        match &self.attributes.chapter {
            Some(n) => n.label.clone(),
            None => String::from_str("0"),
        }
    }

    /// The chapter's number, if it has one.
    pub fn get_chapter(&self) -> (number: Option<ChapterNumber>)
        ensures
            number == self.attributes.chapter,
    {
        match &self.attributes.chapter {
            Some(n) => Some(n.clone()),
            None => None,
        }
    }

    /// The path pattern of the chapter's pages in the book.
    pub fn generate_file_name(&self) -> (name: String)
        ensures
            name@ == file_name_pattern(
                match self.attributes.chapter {
                    Some(n) => n.label@,
                    None => unnumbered_label(),
                },
            ),
    {
        let mut name = String::from_str("Images/");
        let label = self.get_chapter_label();
        name.append(label.as_str());
        name.append("_ORDER.jpg");
        name
    }

    /// The number of pages of the chapter.
    pub fn get_pages(&self) -> (pages: i32)
        ensures
            pages == self.attributes.pages,
    {
        self.attributes.pages
    }

    /// The chapter's title.
    pub fn get_name(&self) -> (name: &str)
        ensures
            name@ == self.attributes.title@,
    {
        self.attributes.title.as_str()
    }

    /// The chapter with its pages, ready for the book: its number, its
    /// title, the path pattern of its pages, and the pages as given.
    pub fn gathered(&self, images: Vec<MangaImage>) -> (chapter: ChapterImage)
        ensures
            chapter.chapter_no == self.attributes.chapter,
            chapter.chapter_title@ == self.attributes.title@,
            chapter.target_name@ == file_name_pattern(
                match self.attributes.chapter {
                    Some(n) => n.label@,
                    None => unnumbered_label(),
                },
            ),
            chapter.images == images,
    {
        ChapterImage {
            chapter_no: self.get_chapter(),
            chapter_title: String::from_str(self.get_name()),
            target_name: self.generate_file_name(),
            images,
        }
    }

    /// The address at which the catalog tells where this chapter's pages are.
    pub fn at_home_request_url(&self) -> (url: String)
        ensures
            url@ == at_home_url(self.id@),
    {
        let mut url = String::from_str("https://api.mangadex.org/at-home/server/");
        url.append(self.id.as_str());
        url
    }
}

impl AtHomeServerResponse {
    /// The address of each page of the chapter, in reading order.
    pub fn page_urls(&self) -> (urls: Vec<String>)
        ensures
            urls@.len() == self.chapter_data.data@.len(),
            urls@.map_values(|u: String| u@) == page_locators(
                self.base_url@,
                self.chapter_data.hash@,
                self.chapter_data.data@,
            ),
    {
        let mut prefix = self.base_url.clone();
        prefix.append("/data/");
        prefix.append(self.chapter_data.hash.as_str());
        prefix.append("/");
        let files = &self.chapter_data.data;
        let mut urls: Vec<String> = Vec::new();
        let mut i: usize = 0;
        while i < files.len()
            invariant
                i <= files.len(),
                urls.len() == i,
                prefix@ == self.base_url@ + "/data/"@ + self.chapter_data.hash@ + "/"@,
                forall|j: int| 0 <= j < i ==> (#[trigger] urls[j])@ == prefix@ + files[j]@,
            decreases files.len() - i,
        {
            let mut url = prefix.clone();
            url.append(files[i].as_str());
            urls.push(url);
            i = i + 1;
        }
        assert(urls@.map_values(|u: String| u@) =~= page_locators(
            self.base_url@,
            self.chapter_data.hash@,
            self.chapter_data.data@,
        ));
        urls
    }
}

/// How many pages of a chapter are fetched at once.
pub const CHAPTER_CONCURRENCY: usize = 5;

/// The batch that fetches the pages of a chapter: every page, in reading
/// order, five at a time, without reports. The address of a page is never
/// empty, so the batch is always to be had.
pub fn chapter_batch(answer: &AtHomeServerResponse) -> (fetcher: BatchFetcher)
    ensures
        fetcher@ == BatchView::initial(
            page_locators(
                answer.base_url@,
                answer.chapter_data.hash@,
                answer.chapter_data.data@,
            ),
            CHAPTER_CONCURRENCY as nat,
            false,
        ),
        fetcher@.inv(),
{
    let urls = answer.page_urls();
    let ghost locators = page_locators(
        answer.base_url@,
        answer.chapter_data.hash@,
        answer.chapter_data.data@,
    );
    proof {
        reveal_strlit("/data/");
        assert(locator_views(urls@) =~= locators) by {
            assert forall|i: int| 0 <= i < urls@.len() implies locator_views(urls@)[i]
                == locators[i] by {
                assert(urls@.map_values(|u: String| u@)[i] == urls@[i]@);
            }
        }
        assert forall|i: int| 0 <= i < locators.len() implies locators[i].len() > 0 by {
            assert(locators[i].len() >= "/data/"@.len());
        }
    }
    let ghost given = urls@;
    let made = BatchFetcher::new(urls, CHAPTER_CONCURRENCY, false);
    proof {
        match made {
            Err(ConfigurationError::MalformedLocator { index }) => {
                assert(locator_views(given)[index as int] == given[index as int]@);
                assert(locators[index as int].len() > 0);
            },
            _ => {},
        }
    }
    match made {
        Ok(fetcher) => fetcher,
        Err(_) => vstd::pervasive::unreached(),
    }
}

} // verus!
