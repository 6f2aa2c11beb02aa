//! A manga: where it is in the catalog, and what has been gathered of it.

use super::author::AuthorData;
use super::chapter::chapter_list::ChapterList;
use super::chapter::manga_image::{moved_out, ChapterImage};
use super::cover::CoverData;
use crate::connection::fetch::{FetchRequest, RequestView};
use super::manga_data::{related_id, relation_views, MangaData};
use crate::epub::{chapter_fits, chapter_pages, content_views, image_bytes, Book, ContentView};
use crate::text::{render_signed, signed_decimal};
use vstd::prelude::*;

verus! {

/// A manga, by the address of its page on the site.
#[derive(Debug, PartialEq, Eq)]
pub struct Manga {
    pub id: String,
    pub url: String,
    pub data: Option<MangaData>,
    pub title: String,
    pub chapter_list: Option<ChapterList>,
    pub chapter_images: Vec<ChapterImage>,
    pub author_name: String,
}

/// Where the first `/` at or after `from` stands in `s`; the length of `s`
/// where there is none.
pub open spec fn slash_after(s: Seq<char>, from: int) -> int
    decreases s.len() - from,
{
    if from >= s.len() {
        s.len() as int
    } else if s[from] == '/' {
        from
    } else {
        slash_after(s, from + 1)
    }
}

/// Where the `n`-th part of `s` starts, counting from 0, when `s` is cut at
/// each `/`; `None` where `s` has fewer parts.
pub open spec fn segment_start(s: Seq<char>, n: nat) -> Option<int>
    decreases n,
{
    if n == 0 {
        Some(0)
    } else {
        match segment_start(s, (n - 1) as nat) {
            Some(start) => if slash_after(s, start) < s.len() {
                Some(slash_after(s, start) + 1)
            } else {
                None
            },
            None => None,
        }
    }
}

/// The `n`-th part of `s`, counting from 0, when `s` is cut at each `/`.
pub open spec fn segment(s: Seq<char>, n: nat) -> Option<Seq<char>> {
    match segment_start(s, n) {
        Some(start) => Some(s.subrange(start, slash_after(s, start))),
        None => None,
    }
}

/// The id of the manga whose page has the address `url`: the fifth part of
/// the address, as in `https://mangadex.org/title/<id>/<name>`.
pub open spec fn manga_id(url: Seq<char>) -> Option<Seq<char>> {
    segment(url, 4)
}

/// The address that lists the English chapters of a manga: at most `limit`
/// of them where a limit is given, starting after the first `offset` where
/// the offset is not 0.
pub open spec fn chapter_request_url(id: Seq<char>, offset: int, limit: Option<int>) -> Seq<char> {
    "https://api.mangadex.org/chapter?manga="@ + id + "&translatedLanguage[]=en"@ + (match limit {
        Some(l) => "&limit="@ + signed_decimal(l),
        None => Seq::empty(),
    }) + (if offset != 0 {
        "&offset="@ + signed_decimal(offset)
    } else {
        Seq::empty()
    })
}

/// The address of a manga's record.
pub open spec fn manga_info_url(id: Seq<char>) -> Seq<char> {
    "https://api.mangadex.org/manga/"@ + id
}

/// The address of an author's record.
pub open spec fn author_url(author_id: Seq<char>) -> Seq<char> {
    "https://api.mangadex.org/author/"@ + author_id
}

/// The address of a cover's record.
pub open spec fn cover_url(cover_id: Seq<char>) -> Seq<char> {
    "https://api.mangadex.org/cover/"@ + cover_id
}

/// The address of a manga's cover image.
pub open spec fn cover_image_url(id: Seq<char>, file_name: Seq<char>) -> Seq<char> {
    "https://uploads.mangadex.org/covers/"@ + id + "/"@ + file_name
}

/// The pages of the first `n` chapters as contents of a book, in reading
/// order.
pub open spec fn book_pages(chapters: Seq<ChapterImage>, n: nat) -> Seq<ContentView>
    decreases n,
{
    if n == 0 {
        Seq::empty()
    } else {
        book_pages(chapters, (n - 1) as nat) + chapter_pages(
            chapters[n - 1].target_name@,
            image_bytes(chapters[n - 1].images@),
            (n - 1) as nat,
        )
    }
}

/// Every chapter's position and page positions fit a 32-bit number.
pub open spec fn chapters_fit(chapters: Seq<ChapterImage>) -> bool {
    forall|j: int| 0 <= j < chapters.len() ==> chapter_fits((#[trigger] chapters[j]).images@, j as nat)
}

/// The pages of the first `n` chapters have moved into a book: each of
/// these chapters is what it was, but for the bytes of its images.
pub open spec fn all_moved_out(before: Seq<ChapterImage>, after: Seq<ChapterImage>, n: nat) -> bool {
    forall|k: int| 0 <= k < n ==> moved_out(before[k], #[trigger] after[k])
}

/// Finds the first `/` at or after `from`.
fn find_slash(s: &str, from: usize, len: usize) -> (end: usize)
    requires
        len == s@.len(),
        from <= len,
    ensures
        end == slash_after(s@, from as int),
        from <= end <= len,
{
    let mut i: usize = from;
    while i < len
        invariant
            from <= i <= len,
            len == s@.len(),
            slash_after(s@, from as int) == slash_after(s@, i as int),
        decreases len - i,
    {
        if s.get_char(i) == '/' {
            return i;
        }
        i = i + 1;
    }
    i
}

/// The `n`-th part of `s` when it is cut at each `/`.
pub fn nth_segment(s: &str, n: usize) -> (part: Option<String>)
    ensures
        part.is_some() == segment(s@, n as nat).is_some(),
        part matches Some(p) ==> Some(p@) == segment(s@, n as nat),
{
    let len = s.unicode_len();
    let mut start: usize = 0;
    let mut k: usize = 0;
    while k < n
        invariant
            k <= n,
            len == s@.len(),
            start <= len,
            segment_start(s@, k as nat) == Some(start as int),
        decreases n - k,
    {
        let end = find_slash(s, start, len);
        if end >= len {
            proof {
                lemma_no_later_segment(s@, (k + 1) as nat, n as nat);
            }
            return None;
        }
        start = end + 1;
        k = k + 1;
    }
    let end = find_slash(s, start, len);
    Some(String::from_str(s.substring_char(start, end)))
}

/// Once an address runs out of parts, it has no later part either.
pub proof fn lemma_no_later_segment(s: Seq<char>, k: nat, n: nat)
    requires
        k <= n,
        segment_start(s, k) is None,
    ensures
        segment_start(s, n) is None,
    decreases n - k,
{
    if k < n {
        lemma_no_later_segment(s, k, (n - 1) as nat);
    }
}

impl Manga {
    /// Whether `url` holds a manga's id, which is its fifth part.
    pub fn addresses_manga(url: &str) -> (b: bool)
        ensures
            b == manga_id(url@).is_some(),
    {
        nth_segment(url, 4).is_some()
    }

    /// The manga whose page on the site has the address `url`, with nothing
    /// gathered yet. The address must hold the manga's id.
    pub fn from(url: &str) -> (manga: Manga)
        requires
            manga_id(url@) is Some,
        ensures
            Some(manga.id@) == manga_id(url@),
            manga.url@ == url@,
            manga.data is None,
            manga.title@.len() == 0,
            manga.chapter_list is None,
            manga.chapter_images@.len() == 0,
            manga.author_name@.len() == 0,
    {
        let id = match nth_segment(url, 4) {
            Some(id) => id,
            None => vstd::pervasive::unreached(),
        };
        Manga {
            id,
            url: String::from_str(url),
            data: None,
            title: String::new(),
            chapter_list: None,
            chapter_images: Vec::new(),
            author_name: String::new(),
        }
    }

    /// The address that lists the manga's chapters.
    pub fn construct_manga_chapter_request_url(&self, offset: i32, chapter_limit: Option<i32>) -> (url:
        String)
        ensures
            url@ == chapter_request_url(
                self.id@,
                offset as int,
                match chapter_limit {
                    Some(l) => Some(l as int),
                    None => None,
                },
            ),
    {
        let mut url = String::from_str("https://api.mangadex.org/chapter?manga=");
        url.append(self.id.as_str());
        url.append("&translatedLanguage[]=en");
        let ghost head = url@;
        match chapter_limit {
            Some(l) => {
                url.append("&limit=");
                let digits = render_signed(l as i64);
                url.append(digits.as_str());
                assert(url@ =~= head + ("&limit="@ + signed_decimal(l as int)));
            },
            None => {
                assert(url@ =~= head + Seq::<char>::empty());
            },
        }
        let ghost middle = url@;
        if offset != 0 {
            url.append("&offset=");
            let digits = render_signed(offset as i64);
            url.append(digits.as_str());
            assert(url@ =~= middle + ("&offset="@ + signed_decimal(offset as int)));
        } else {
            assert(url@ =~= middle + Seq::<char>::empty());
        }
        url
    }

    /// The address of the manga's record.
    pub fn info_url(&self) -> (url: String)
        ensures
            url@ == manga_info_url(self.id@),
    {
        let mut url = String::from_str("https://api.mangadex.org/manga/");
        url.append(self.id.as_str());
        url
    }

    /// Whether the manga's record and its author are still to be fetched:
    /// its title or its author's name is empty.
    pub fn needs_info(&self) -> (b: bool)
        ensures
            b == (self.title@.len() == 0 || self.author_name@.len() == 0),
    {
        self.title.as_str().is_empty() || self.author_name.as_str().is_empty()
    }

    /// Takes in the manga's record: the record is kept and its title is
    /// added to the manga's.
    pub fn set_data(&mut self, data: MangaData)
        ensures
            final(self).data == Some(data),
            final(self).title@ == old(self).title@ + data.data.attributes.title.en@,
            final(self).id == old(self).id,
            final(self).url == old(self).url,
            final(self).chapter_list == old(self).chapter_list,
            final(self).chapter_images == old(self).chapter_images,
            final(self).author_name == old(self).author_name,
    {
        self.title.append(data.get_title());
        self.data = Some(data);
    }

    /// The address of the record of the manga's author; `None` until the
    /// manga's own record is held.
    pub fn author_request_url(&self) -> (url: Option<String>)
        ensures
            url.is_some() == self.data.is_some(),
            url matches Some(u) ==> u@ == author_url(
                related_id(relation_views(self.data->0.data.relationships@), "author"@),
            ),
    {
        match &self.data {
            Some(data) => {
                let id = data.get_author_id();
                let mut url = String::from_str("https://api.mangadex.org/author/");
                url.append(id.as_str());
                Some(url)
            },
            None => None,
        }
    }

    /// Takes in the author's record: the author's name is added to the
    /// manga's.
    pub fn set_author(&mut self, author: &AuthorData)
        ensures
            final(self).author_name@ == old(self).author_name@ + author.name(),
            final(self).id == old(self).id,
            final(self).url == old(self).url,
            final(self).data == old(self).data,
            final(self).title == old(self).title,
            final(self).chapter_list == old(self).chapter_list,
            final(self).chapter_images == old(self).chapter_images,
    {
        self.author_name.append(author.get_name());
    }

    /// The address of the record of the manga's cover; `None` until the
    /// manga's own record is held.
    pub fn cover_request_url(&self) -> (url: Option<String>)
        ensures
            url.is_some() == self.data.is_some(),
            url matches Some(u) ==> u@ == cover_url(
                related_id(relation_views(self.data->0.data.relationships@), "cover_art"@),
            ),
    {
        match &self.data {
            Some(data) => {
                let id = data.get_cover_id();
                let mut url = String::from_str("https://api.mangadex.org/cover/");
                url.append(id.as_str());
                Some(url)
            },
            None => None,
        }
    }

    /// The address of the manga's cover image, given the cover's record.
    pub fn cover_image_request_url(&self, cover: &CoverData) -> (url: String)
        ensures
            url@ == cover_image_url(self.id@, cover.file_name()),
    {
        let mut url = String::from_str("https://uploads.mangadex.org/covers/");
        url.append(self.id.as_str());
        url.append("/");
        url.append(cover.get_file_name());
        url
    }

    /// The request for the manga's cover image, given the cover's record: a
    /// single page, not reported.
    pub fn cover_image_request(&self, cover: &CoverData) -> (request: FetchRequest)
        ensures
            request@ == (RequestView {
                locator: cover_image_url(self.id@, cover.file_name()),
                page_index: 0,
                report: false,
            }),
    {
        FetchRequest { locator: self.cover_image_request_url(cover), page_index: 0, report: false }
    }

    /// Makes room for a new round of chapters: with `clear_previous`, the
    /// chapters gathered before are let go.
    pub fn begin_chapters(&mut self, clear_previous: bool)
        ensures
            final(self).chapter_images@ == if clear_previous {
                Seq::<ChapterImage>::empty()
            } else {
                old(self).chapter_images@
            },
            final(self).id == old(self).id,
            final(self).url == old(self).url,
            final(self).data == old(self).data,
            final(self).title == old(self).title,
            final(self).chapter_list == old(self).chapter_list,
            final(self).author_name == old(self).author_name,
    {
        if clear_previous {
            self.chapter_images.clear();
        }
    }

    /// Files the pages of one more chapter after those gathered so far.
    pub fn push_chapter(&mut self, chapter: ChapterImage)
        ensures
            final(self).chapter_images@ == old(self).chapter_images@.push(chapter),
            final(self).id == old(self).id,
            final(self).url == old(self).url,
            final(self).data == old(self).data,
            final(self).title == old(self).title,
            final(self).chapter_list == old(self).chapter_list,
            final(self).author_name == old(self).author_name,
    {
        self.chapter_images.push(chapter);
    }

    /// Lays the gathered chapters out in `book`: every page of every chapter,
    /// in order, after what the book holds. The bytes of the pages move into
    /// the book and leave the manga's images empty. Where a chapter or a page
    /// stands further on than a 32-bit position can tell, nothing is done and
    /// the answer is `false`.
    pub fn fill_book(&mut self, book: &mut Book) -> (ok: bool)
        ensures
            ok == chapters_fit(old(self).chapter_images@),
            final(book).constructor == old(book).constructor,
            final(self).id == old(self).id,
            final(self).url == old(self).url,
            final(self).data == old(self).data,
            final(self).title == old(self).title,
            final(self).chapter_list == old(self).chapter_list,
            final(self).author_name == old(self).author_name,
            final(self).chapter_images@.len() == old(self).chapter_images@.len(),
            !ok ==> *final(self) == *old(self) && *final(book) == *old(book),
            ok ==> content_views(final(book).resources@) == content_views(old(book).resources@)
                + book_pages(old(self).chapter_images@, old(self).chapter_images@.len()),
            ok ==> all_moved_out(
                old(self).chapter_images@,
                final(self).chapter_images@,
                old(self).chapter_images@.len(),
            ),
    {
        let total = self.chapter_images.len();
        let mut j: usize = 0;
        while j < total
            invariant
                j <= total,
                total == self.chapter_images@.len(),
                *self == *old(self),
                *book == *old(book),
                forall|k: int|
                    0 <= k < j ==> chapter_fits((#[trigger] self.chapter_images@[k]).images@, k as nat),
            decreases total - j,
        {
            if self.chapter_images[j].images.len() > 2147483647 || j > 2147483647 {
                return false;
            }
            j = j + 1;
        }
        let ghost chapters = self.chapter_images@;
        let ghost held = content_views(book.resources@);
        let mut j: usize = 0;
        while j < total
            invariant
                j <= total,
                total == chapters.len(),
                total == self.chapter_images@.len(),
                chapters == old(self).chapter_images@,
                held == content_views(old(book).resources@),
                chapters_fit(chapters),
                book.constructor == old(book).constructor,
                self.id == old(self).id,
                self.url == old(self).url,
                self.data == old(self).data,
                self.title == old(self).title,
                self.chapter_list == old(self).chapter_list,
                self.author_name == old(self).author_name,
                content_views(book.resources@) == held + book_pages(chapters, j as nat),
                forall|k: int| j <= k < total ==> self.chapter_images@[k] == chapters[k],
                all_moved_out(chapters, self.chapter_images@, j as nat),
            decreases total - j,
        {
            let ghost before = self.chapter_images@;
            assert(chapter_fits(chapters[j as int].images@, j as nat));
            let ok = book.add_chapter_images(&mut self.chapter_images[j], j);
            proof {
                assert(ok);
                assert(content_views(book.resources@) =~= held + book_pages(
                    chapters,
                    (j + 1) as nat,
                ));
                assert forall|k: int| 0 <= k < j + 1 implies moved_out(
                    chapters[k],
                    #[trigger] self.chapter_images@[k],
                ) by {
                    if k < j {
                        assert(self.chapter_images@[k] == before[k]);
                    }
                }
            }
            j = j + 1;
        }
        true
    }

    /// The total number of chapters in the catalog's listing; `None` until a
    /// page of the listing is held.
    pub fn get_total(&self) -> (total: Option<i32>)
        ensures
            total == match self.chapter_list {
                Some(list) => Some(list.pagination.total),
                None => None,
            },
    {
        match &self.chapter_list {
            Some(c) => Some(c.pagination.total),
            None => None,
        }
    }
}

} // verus!
