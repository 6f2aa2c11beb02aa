//! Where the pages of a chapter are served from.

use vstd::prelude::*;

verus! {

/// The answer of the MangaDex@Home server for one chapter: the server that
/// holds the chapter's pages, and what is needed to address them.
#[derive(Debug, PartialEq, Eq)]
pub struct AtHomeServerResponse {
    pub base_url: String,
    pub chapter_data: ChapterData,
}

/// The chapter's hash and the file names of its pages.
#[derive(Debug, PartialEq, Eq)]
pub struct ChapterData {
    pub hash: String,
    pub data: Vec<String>,
    /// The same pages at a lower resolution.
    pub data_saver: Vec<String>,
}

impl AtHomeServerResponse {
    /// The chapter's hash.
    pub fn get_hash(&self) -> (hash: &str)
        ensures
            hash@ == self.chapter_data.hash@,
    {
        self.chapter_data.hash.as_str()
    }

    /// The file names of the chapter's pages, in reading order.
    pub fn get_data(&self) -> (data: &Vec<String>)
        ensures
            *data == self.chapter_data.data,
    {
        &self.chapter_data.data
    }

    /// The file names of the chapter's pages, to change in place.
    pub fn get_mut_data(&mut self) -> (data: &mut Vec<String>)
        ensures
            *data == old(self).chapter_data.data,
            *final(self) == (AtHomeServerResponse {
                base_url: old(self).base_url,
                chapter_data: ChapterData {
                    hash: old(self).chapter_data.hash,
                    data: *final(data),
                    data_saver: old(self).chapter_data.data_saver,
                },
            }),
    {
        &mut self.chapter_data.data
    }

    /// The file names of the chapter's pages at a lower resolution.
    pub fn get_data_save(&self) -> (data: &Vec<String>)
        ensures
            *data == self.chapter_data.data_saver,
    {
        &self.chapter_data.data_saver
    }

    /// The file names of the lower-resolution pages, to change in place.
    pub fn get_mut_data_save(&mut self) -> (data: &mut Vec<String>)
        ensures
            *data == old(self).chapter_data.data_saver,
            *final(self) == (AtHomeServerResponse {
                base_url: old(self).base_url,
                chapter_data: ChapterData {
                    hash: old(self).chapter_data.hash,
                    data: old(self).chapter_data.data,
                    data_saver: *final(data),
                },
            }),
    {
        &mut self.chapter_data.data_saver
    }
}

} // verus!
