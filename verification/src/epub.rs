//! Laying the pages of a manga out in an EPUB.
//!
//! A [`Book`] collects the pages in the order they are to be read and hands
//! them to the `epub_builder` crate, which writes the archive. Each page goes
//! in twice: as an image resource, and as a one-image document that shows it.

use crate::manga::chapter::manga_image::{moved_out, ChapterImage, MangaImage};
use crate::text::{decimal, render_decimal, render_signed, replace_all, replaced, signed_decimal};
use vstd::prelude::*;

verus! {

#[verifier::external_type_specification]
#[verifier::external_body]
pub struct ExZipLibrary(epub_builder::ZipLibrary);

#[verifier::external_type_specification]
#[verifier::external_body]
pub struct ExEpubError(epub_builder::Error);

/// An `epub_builder::EpubBuilder` that zips in memory.
#[verifier::external_body]
pub struct EpubWriter {
    inner: epub_builder::EpubBuilder<epub_builder::ZipLibrary>,
}

/// A file that a writer has taken in, with what was handed over for it.
pub enum Entry {
    /// A file outside the reading order: its path in the book, its media
    /// type and its bytes.
    Resource { path: Seq<char>, mime: Seq<char>, content: Seq<u8> },
    /// The cover image: its path in the book, its media type and its bytes.
    Cover { path: Seq<char>, mime: Seq<char>, content: Seq<u8> },
    /// A document of the reading order, which is XHTML and marked as text:
    /// its path in the book, its bytes and its title.
    Document { path: Seq<char>, content: Seq<u8>, title: Seq<char> },
    /// The table of contents inside the book, `toc.xhtml`, which the writer
    /// makes itself.
    Contents,
}

/// The files a writer has taken in so far, in the order they came: for each
/// file the writer lists, what it was given for it and copied into the
/// archive.
pub uninterp spec fn writer_entries(writer: EpubWriter) -> Seq<Entry>;

/// The longest path, in bytes, that a writer takes. The archive counts the
/// bytes of a file's name in sixteen bits, and the writer puts the six bytes
/// of `OEBPS/` before every path.
pub const MAX_PATH_BYTES: usize = 65529;

/// A path that a writer takes: its bytes are at most [`MAX_PATH_BYTES`].
pub open spec fn path_fits(path: Seq<char>) -> bool {
    vstd::utf8::encode_utf8(path).len() <= MAX_PATH_BYTES
}

/// The authors a writer has been told of, in the order they came.
pub uninterp spec fn writer_authors(writer: EpubWriter) -> Seq<Seq<char>>;

/// The title a writer has been given; empty until it is given one.
pub uninterp spec fn writer_title(writer: EpubWriter) -> Seq<char>;

/// A writer's authors and title are the same as another's.
pub open spec fn same_metadata(a: EpubWriter, b: EpubWriter) -> bool {
    writer_authors(a) == writer_authors(b) && writer_title(a) == writer_title(b)
}

/// The authors after one more was named: a name is added after those held,
/// and the empty name clears them.
pub open spec fn authors_with(held: Seq<Seq<char>>, name: Seq<char>) -> Seq<Seq<char>> {
    if name.len() == 0 {
        Seq::empty()
    } else {
        held.push(name)
    }
}

/// Why the book could not be written.
#[derive(Clone, Copy, Debug, PartialEq, Eq, Structural)]
pub enum BookError {
    Template,
    PageDirection,
    InvalidMetadata,
    Io,
    ZipCommand,
    Zip,
    InvalidPath,
    /// A path has more than [`MAX_PATH_BYTES`] bytes. The writer never says so
    /// itself: such a path is not handed to it.
    PathTooLong,
}

/// `epub_builder::ZipLibrary::new`: an empty archive in memory. Nothing is
/// claimed of it.
#[verifier::external_body]
fn new_zip() -> (r: Result<epub_builder::ZipLibrary, epub_builder::Error>) {
    epub_builder::ZipLibrary::new()
}

/// `epub_builder::EpubBuilder::new`: a builder over `zip`. Where it is made,
/// it has taken in no file of the caller's yet, knows of no author and has
/// the empty title.
#[verifier::external_body]
fn new_writer(zip: epub_builder::ZipLibrary) -> (r: Result<EpubWriter, epub_builder::Error>)
    ensures
        r matches Ok(w) ==> writer_entries(w) == Seq::<Entry>::empty(),
        r matches Ok(w) ==> writer_authors(w) == Seq::<Seq<char>>::empty(),
        r matches Ok(w) ==> writer_title(w) == Seq::<char>::empty(),
{
    Ok(EpubWriter { inner: epub_builder::EpubBuilder::new(zip)? })
}

/// `epub_builder::EpubBuilder::metadata`: sets one item of metadata.
/// Whether it succeeds or not, the files taken in stay as they were. The
/// keys `author` and `title` take any value, so setting them succeeds:
/// `author` adds the value to the authors, or clears them where the value is
/// empty, and leaves the title; `title` replaces the title and leaves the
/// authors. Of other keys no more is claimed.
#[verifier::external_body]
fn writer_metadata(writer: &mut EpubWriter, key: &str, value: &str) -> (r: Result<
    (),
    epub_builder::Error,
>)
    ensures
        writer_entries(*final(writer)) == writer_entries(*old(writer)),
        key@ == "author"@ || key@ == "title"@ ==> r is Ok,
        key@ == "author"@ ==> writer_authors(*final(writer)) == authors_with(
            writer_authors(*old(writer)),
            value@,
        ) && writer_title(*final(writer)) == writer_title(*old(writer)),
        key@ == "title"@ ==> writer_title(*final(writer)) == value@ && writer_authors(
            *final(writer),
        ) == writer_authors(*old(writer)),
{
    writer.inner.metadata(key, value)?;
    Ok(())
}

/// `epub_builder::EpubBuilder::inline_toc`: asks for a table of contents
/// inside the book, which is one more file, `toc.xhtml`. Authors and title
/// stay as they were.
#[verifier::external_body]
fn writer_inline_toc(writer: &mut EpubWriter)
    ensures
        writer_entries(*final(writer)) == writer_entries(*old(writer)).push(Entry::Contents),
        same_metadata(*final(writer), *old(writer)),
{
    writer.inner.inline_toc();
}

/// `epub_builder::EpubBuilder::add_resource`: takes in a file that is not
/// part of the reading order. On success the file, with all of its bytes, is
/// the last taken in; on failure none was. Authors and title stay as they
/// were. A path whose bytes the archive cannot count makes the zip writer
/// panic, so only a path that fits is admitted.
#[verifier::external_body]
fn writer_add_resource(writer: &mut EpubWriter, path: &str, content: &[u8], mime: &str) -> (r:
    Result<(), epub_builder::Error>)
    requires
        path_fits(path@),
    ensures
        r is Ok ==> writer_entries(*final(writer)) == writer_entries(*old(writer)).push(
            Entry::Resource { path: path@, mime: mime@, content: content@ },
        ),
        r is Err ==> writer_entries(*final(writer)) == writer_entries(*old(writer)),
        same_metadata(*final(writer), *old(writer)),
{
    writer.inner.add_resource(path, content, mime)?;
    Ok(())
}

/// `epub_builder::EpubBuilder::add_cover_image`: takes in the cover image.
/// On success the file, with all of its bytes, is the last taken in, as the
/// cover; on failure none was. Authors and title stay as they were. Only a
/// path that fits is admitted, as for a resource.
#[verifier::external_body]
fn writer_add_cover_image(writer: &mut EpubWriter, path: &str, content: &[u8], mime: &str) -> (r:
    Result<(), epub_builder::Error>)
    requires
        path_fits(path@),
    ensures
        r is Ok ==> writer_entries(*final(writer)) == writer_entries(*old(writer)).push(
            Entry::Cover { path: path@, mime: mime@, content: content@ },
        ),
        r is Err ==> writer_entries(*final(writer)) == writer_entries(*old(writer)),
        same_metadata(*final(writer), *old(writer)),
{
    writer.inner.add_cover_image(path, content, mime)?;
    Ok(())
}

/// `epub_builder::EpubBuilder::add_content`, with an `EpubContent` marked as
/// text: takes in a document of the reading order, titled `title`. On
/// success the document, with all of its bytes and its title, is the last
/// file taken in; on failure none was. Authors and title of the book stay as
/// they were. Only a path that fits is admitted, as for a resource.
#[verifier::external_body]
fn writer_add_content(writer: &mut EpubWriter, path: &str, content: &[u8], title: &str) -> (r:
    Result<(), epub_builder::Error>)
    requires
        path_fits(path@),
    ensures
        r is Ok ==> writer_entries(*final(writer)) == writer_entries(*old(writer)).push(
            Entry::Document { path: path@, content: content@, title: title@ },
        ),
        r is Err ==> writer_entries(*final(writer)) == writer_entries(*old(writer)),
        same_metadata(*final(writer), *old(writer)),
{
    let page = epub_builder::EpubContent::new(path, content).title(title).reftype(
        epub_builder::ReferenceType::Text,
    );
    writer.inner.add_content(page)?;
    Ok(())
}

/// `epub_builder::EpubBuilder::generate`, into memory: the bytes of the
/// finished archive. They hold the time of writing and a fresh identifier,
/// so they have no name; but an archive is never empty, for it holds at
/// least the member that says what kind of file it is.
#[verifier::external_body]
fn writer_generate(writer: EpubWriter) -> (r: Result<Vec<u8>, epub_builder::Error>)
    ensures
        r matches Ok(bytes) ==> bytes@.len() > 0,
{
    let mut bytes: Vec<u8> = Vec::new();
    writer.inner.generate(&mut bytes)?;
    Ok(bytes)
}

/// Tells the variants of `epub_builder::Error` apart. None of them is a
/// path found too long before it was handed over.
#[verifier::external_body]
fn error_kind(error: &epub_builder::Error) -> (kind: BookError)
    ensures
        !(kind is PathTooLong),
{
    match error {
        epub_builder::Error::TemplateError { .. } => BookError::Template,
        epub_builder::Error::PageDirectionError(_) => BookError::PageDirection,
        epub_builder::Error::InvalidMetadataError(_) => BookError::InvalidMetadata,
        epub_builder::Error::IoError { .. } => BookError::Io,
        epub_builder::Error::ZipCommandError(_) => BookError::ZipCommand,
        epub_builder::Error::ZipError(_) => BookError::Zip,
        epub_builder::Error::ZipErrorWithMessage { .. } => BookError::Zip,
        epub_builder::Error::InvalidPath(_) => BookError::InvalidPath,
    }
}

/// A book in the making: the writer that will zip it, and the pages to hand
/// to the writer, in reading order.
pub struct Book {
    pub constructor: EpubWriter,
    pub resources: Vec<BookContent>,
}

/// One thing to put in the book.
#[derive(Debug, PartialEq, Eq)]
pub struct BookContent {
    /// The position of a page in its chapter; -1 for a chapter partition.
    pub order: i32,
    /// The position of the page's chapter in the book; -1 for a partition.
    pub chapter_order: i32,
    pub target_path: String,
    pub content: Content,
    pub content_type: String,
}

/// What a [`BookContent`] holds: the bytes of a page image, or the title of
/// a chapter partition.
#[derive(Debug, PartialEq, Eq)]
pub enum Content {
    Image(Vec<u8>),
    Text(String),
}

/// What contracts say of a [`Content`].
pub enum ContentKind {
    Image(Seq<u8>),
    Text(Seq<char>),
}

/// What contracts say of a [`BookContent`].
pub struct ContentView {
    pub order: int,
    pub chapter_order: int,
    pub target_path: Seq<char>,
    pub content: ContentKind,
    pub content_type: Seq<char>,
}

impl View for BookContent {
    type V = ContentView;

    open spec fn view(&self) -> ContentView {
        ContentView {
            order: self.order as int,
            chapter_order: self.chapter_order as int,
            target_path: self.target_path@,
            content: match self.content {
                Content::Image(bytes) => ContentKind::Image(bytes@),
                Content::Text(title) => ContentKind::Text(title@),
            },
            content_type: self.content_type@,
        }
    }
}

/// The contents of a book as contracts see them.
pub open spec fn content_views(resources: Seq<BookContent>) -> Seq<ContentView> {
    Seq::new(resources.len(), |i: int| resources[i]@)
}

/// A page of the book: the image `image`, which is page `order` of chapter
/// `chapter_order` and goes to `target_path`.
pub open spec fn image_content(
    image: Seq<u8>,
    order: int,
    target_path: Seq<char>,
    chapter_order: int,
) -> ContentView {
    ContentView {
        order,
        chapter_order,
        target_path,
        content: ContentKind::Image(image),
        content_type: "image/jpeg"@,
    }
}

/// A chapter partition of the book, titled `title`, at `target_path`.
pub open spec fn partition_content(title: Seq<char>, target_path: Seq<char>) -> ContentView {
    ContentView {
        order: -1,
        chapter_order: -1,
        target_path,
        content: ContentKind::Text(title),
        content_type: "chapter"@,
    }
}

/// Where page `order` of chapter `chapter_order` goes in the book: the
/// chapter's path pattern, with `ORDER` replaced by the two positions.
pub open spec fn page_target(target_name: Seq<char>, chapter_order: nat, order: nat) -> Seq<char> {
    replaced(target_name, "ORDER"@, decimal(chapter_order) + "_"@ + decimal(order))
}

/// The bytes of each image, in order.
pub open spec fn image_bytes(images: Seq<MangaImage>) -> Seq<Seq<u8>> {
    Seq::new(images.len(), |i: int| images[i].image@)
}

/// The pages of one chapter as contents of the book, in reading order.
pub open spec fn chapter_pages(
    target_name: Seq<char>,
    images: Seq<Seq<u8>>,
    chapter_order: nat,
) -> Seq<ContentView> {
    Seq::new(
        images.len(),
        |i: int|
            image_content(
                images[i],
                i,
                page_target(target_name, chapter_order, i as nat),
                chapter_order as int,
            ),
    )
}

/// A chapter whose position and page positions all fit a 32-bit number.
pub open spec fn chapter_fits(images: Seq<MangaImage>, chapter_order: nat) -> bool {
    images.len() <= i32::MAX && chapter_order <= i32::MAX
}

/// What precedes the image's address in the document that shows a page.
pub open spec fn page_head() -> Seq<char> {
    "<?xml version=\"1.0\" encoding=\"UTF-8\"?>\n<html xmlns=\"http://www.w3.org/1999/xhtml\" xmlns:epub=\"http://www.idpf.org/2007/ops\">\n\n<head>\n    <link rel=\"stylesheet\" type=\"text/css\" href=\"../Styles/page.css\"/>\n    <meta name=\"viewport\" content = \"width = 1600, height = 2400\" />\n</head>\n\n<body>\n    <div class=\"pagediv\">\n        <img src=\""@
}

/// What follows the image's address in the document that shows a page.
pub open spec fn page_tail() -> Seq<char> {
    "\" class=\"bkgImg\">\n    </div>\n</body>\n</html>"@
}

/// The document that shows the image at `target_path`: one page, filled by
/// the image, which it reaches from its own directory by `../`.
pub open spec fn page_document(target_path: Seq<char>) -> Seq<char> {
    page_head() + "../"@ + target_path + page_tail()
}

/// The path of the document that shows page `order` of chapter
/// `chapter_order`.
pub open spec fn page_document_path(chapter_order: int, order: int) -> Seq<char> {
    "Text/"@ + signed_decimal(chapter_order) + "_"@ + signed_decimal(order) + ".xhtml"@
}

/// The bytes of a text as a document holds them.
pub open spec fn text_bytes(text: Seq<char>) -> Seq<u8> {
    vstd::utf8::encode_utf8(text)
}

/// The files that one content of the book becomes. A page becomes its
/// image, under the page's path, and the untitled document that shows it. A
/// partition becomes one empty document with the partition's title.
pub open spec fn content_entries(content: BookContent) -> Seq<Entry> {
    match content.content {
        Content::Image(bytes) => seq![
            Entry::Resource { path: content.target_path@, mime: "image/jpeg"@, content: bytes@ },
            Entry::Document {
                path: page_document_path(content.chapter_order as int, content.order as int),
                content: text_bytes(page_document(content.target_path@)),
                title: Seq::empty(),
            },
        ],
        Content::Text(title) => seq![
            Entry::Document { path: content.target_path@, content: Seq::empty(), title: title@ },
        ],
    }
}

/// Every path that the content is handed over under fits.
pub open spec fn content_fits(content: BookContent) -> bool {
    &&& path_fits(content.target_path@)
    &&& content.content is Image ==> path_fits(
        page_document_path(content.chapter_order as int, content.order as int),
    )
}

/// Every path of the first `n` contents fits.
pub open spec fn contents_fit(resources: Seq<BookContent>, n: nat) -> bool {
    forall|k: int| 0 <= k < n ==> content_fits(#[trigger] resources[k])
}

/// What a writer holds once a book has been handed over to it: what the
/// book's writer held, then the table of contents, then the files of every
/// content in order, with the authors and the title of the book's writer.
pub open spec fn handed_over(book: Book, writer: EpubWriter) -> bool {
    &&& writer_entries(writer) == writer_entries(book.constructor).push(Entry::Contents)
        + planned_entries(book.resources@, book.resources@.len())
    &&& same_metadata(writer, book.constructor)
}

/// The files that the first `n` contents become, in order.
pub open spec fn planned_entries(resources: Seq<BookContent>, n: nat) -> Seq<Entry>
    decreases n,
{
    if n == 0 {
        Seq::empty()
    } else {
        planned_entries(resources, (n - 1) as nat) + content_entries(resources[n - 1])
    }
}

/// The writer took every file of the first `n` contents and the first `k`
/// files of the next, and no more.
pub open spec fn stopped_at(
    held: Seq<Entry>,
    resources: Seq<BookContent>,
    entries: Seq<Entry>,
    n: nat,
    k: int,
) -> bool {
    &&& n < resources.len()
    &&& 0 <= k < content_entries(resources[n as int]).len()
    &&& entries == held + planned_entries(resources, n) + content_entries(resources[n as int]).take(
        k,
    )
}

/// The writer, which held `held`, took the files of `resources` in order up
/// to some file that it refused, and holds `entries` now.
pub open spec fn stopped_short(
    held: Seq<Entry>,
    resources: Seq<BookContent>,
    entries: Seq<Entry>,
) -> bool {
    exists|n: nat, k: int| stopped_at(held, resources, entries, n, k)
}

/// Writes the document that shows the image at `target_path`.
pub fn render_page_document(target_path: &str) -> (html: String)
    ensures
        html@ == page_document(target_path@),
{
    let mut html = String::from_str(
        "<?xml version=\"1.0\" encoding=\"UTF-8\"?>\n<html xmlns=\"http://www.w3.org/1999/xhtml\" xmlns:epub=\"http://www.idpf.org/2007/ops\">\n\n<head>\n    <link rel=\"stylesheet\" type=\"text/css\" href=\"../Styles/page.css\"/>\n    <meta name=\"viewport\" content = \"width = 1600, height = 2400\" />\n</head>\n\n<body>\n    <div class=\"pagediv\">\n        <img src=\"",
    );
    html.append("../");
    html.append(target_path);
    html.append("\" class=\"bkgImg\">\n    </div>\n</body>\n</html>");
    html
}

/// Writes the path of the document that shows page `order` of chapter
/// `chapter_order`.
pub fn render_page_document_path(chapter_order: i32, order: i32) -> (path: String)
    ensures
        path@ == page_document_path(chapter_order as int, order as int),
{
    let mut path = String::from_str("Text/");
    let chapter = render_signed(chapter_order as i64);
    path.append(chapter.as_str());
    path.append("_");
    let page = render_signed(order as i64);
    path.append(page.as_str());
    path.append(".xhtml");
    path
}

impl Book {
    /// An empty book, without author or title. It fails where the writer
    /// cannot be set up.
    pub fn new() -> (r: Result<Book, BookError>)
        ensures
            r matches Ok(book) ==> book.resources@.len() == 0 && writer_entries(book.constructor)
                == Seq::<Entry>::empty(),
            r matches Ok(book) ==> writer_authors(book.constructor) == Seq::<Seq<char>>::empty()
                && writer_title(book.constructor) == Seq::<char>::empty(),
    {
        let zip = match new_zip() {
            Ok(zip) => zip,
            Err(e) => {
                return Err(error_kind(&e));
            },
        };
        match new_writer(zip) {
            Ok(constructor) => Ok(Book { constructor, resources: Vec::new() }),
            Err(e) => Err(error_kind(&e)),
        }
    }

    /// Names an author of the book, after those already named; the empty
    /// name clears the authors. The title and the pages are left as they are.
    pub fn add_author(&mut self, name: &str) -> (r: Result<(), BookError>)
        ensures
            r is Ok,
            writer_authors(final(self).constructor) == authors_with(
                writer_authors(old(self).constructor),
                name@,
            ),
            writer_title(final(self).constructor) == writer_title(old(self).constructor),
            final(self).resources == old(self).resources,
            writer_entries(final(self).constructor) == writer_entries(old(self).constructor),
    {
        match writer_metadata(&mut self.constructor, "author", name) {
            Ok(()) => Ok(()),
            Err(e) => Err(error_kind(&e)),
        }
    }

    /// Gives the book its title, in place of the one it had. The authors and
    /// the pages are left as they are.
    pub fn add_title(&mut self, title: &str) -> (r: Result<(), BookError>)
        ensures
            r is Ok,
            writer_title(final(self).constructor) == title@,
            writer_authors(final(self).constructor) == writer_authors(old(self).constructor),
            final(self).resources == old(self).resources,
            writer_entries(final(self).constructor) == writer_entries(old(self).constructor),
    {
        match writer_metadata(&mut self.constructor, "title", title) {
            Ok(()) => Ok(()),
            Err(e) => Err(error_kind(&e)),
        }
    }

    /// Puts the style sheet `css` in the book, at `target`. A path that is
    /// too long is refused before the writer sees it. Where the path or the
    /// writer is refused, the book is as it was.
    pub fn add_css(&mut self, css: &[u8], target: &str) -> (r: Result<(), BookError>)
        ensures
            r == Err::<(), BookError>(BookError::PathTooLong) <==> !path_fits(target@),
            final(self).resources == old(self).resources,
            same_metadata(final(self).constructor, old(self).constructor),
            r is Ok ==> writer_entries(final(self).constructor) == writer_entries(
                old(self).constructor,
            ).push(Entry::Resource { path: target@, mime: "text/css"@, content: css@ }),
            r is Err ==> writer_entries(final(self).constructor) == writer_entries(
                old(self).constructor,
            ),
    {
        if target.as_bytes().len() > MAX_PATH_BYTES {
            return Err(BookError::PathTooLong);
        }
        match writer_add_resource(&mut self.constructor, target, css, "text/css") {
            Ok(()) => Ok(()),
            Err(e) => Err(error_kind(&e)),
        }
    }

    /// Adds a page after those the book holds. The image's bytes move into
    /// the book; the image is left empty.
    pub fn add_image(&mut self, img: &mut MangaImage, order: i32, target_path: &str, chapter_order: i32)
        ensures
            content_views(final(self).resources@) == content_views(old(self).resources@).push(
                image_content(old(img).image@, order as int, target_path@, chapter_order as int),
            ),
            final(self).constructor == old(self).constructor,
            final(img).image@.len() == 0,
            final(img).page_no == old(img).page_no,
    {
        let ghost before = content_views(self.resources@);
        let mut bytes: Vec<u8> = Vec::new();
        core::mem::swap(&mut img.image, &mut bytes);
        let resource = BookContent {
            order,
            chapter_order,
            target_path: String::from_str(target_path),
            content: Content::Image(bytes),
            content_type: String::from_str("image/jpeg"),
        };
        self.resources.push(resource);
        assert(content_views(self.resources@) =~= before.push(
            image_content(old(img).image@, order as int, target_path@, chapter_order as int),
        ));
    }

    /// Adds the pages of `chapter`, which is chapter `chapter_order` of the
    /// book, after those the book holds. The bytes of every page move into
    /// the book and leave the chapter's images empty. Where the chapter has
    /// more pages, or stands further on, than a 32-bit position can tell,
    /// nothing is done and the answer is `false`.
    pub fn add_chapter_images(&mut self, chapter: &mut ChapterImage, chapter_order: usize) -> (ok:
        bool)
        ensures
            ok == chapter_fits(old(chapter).images@, chapter_order as nat),
            final(self).constructor == old(self).constructor,
            final(chapter).chapter_no == old(chapter).chapter_no,
            final(chapter).chapter_title == old(chapter).chapter_title,
            final(chapter).target_name == old(chapter).target_name,
            final(chapter).images@.len() == old(chapter).images@.len(),
            !ok ==> *final(self) == *old(self) && *final(chapter) == *old(chapter),
            ok ==> content_views(final(self).resources@) == content_views(old(self).resources@)
                + chapter_pages(
                old(chapter).target_name@,
                image_bytes(old(chapter).images@),
                chapter_order as nat,
            ),
            ok ==> moved_out(*old(chapter), *final(chapter)),
    {
        let total = chapter.images.len();
        if total > 2147483647 || chapter_order > 2147483647 {
            return false;
        }
        let ghost held = content_views(self.resources@);
        let ghost bytes = image_bytes(chapter.images@);
        let ghost name = chapter.target_name@;
        let ghost pages = chapter_pages(name, bytes, chapter_order as nat);
        let mut i: usize = 0;
        assert(held + pages.take(0) =~= held);
        while i < total
            invariant
                i <= total <= i32::MAX,
                chapter_order <= i32::MAX,
                total == chapter.images@.len(),
                total == old(chapter).images@.len(),
                self.constructor == old(self).constructor,
                chapter.chapter_no == old(chapter).chapter_no,
                chapter.chapter_title == old(chapter).chapter_title,
                chapter.target_name == old(chapter).target_name,
                name == chapter.target_name@,
                held == content_views(old(self).resources@),
                bytes == image_bytes(old(chapter).images@),
                pages == chapter_pages(name, bytes, chapter_order as nat),
                content_views(self.resources@) == held + pages.take(i as int),
                forall|k: int|
                    0 <= k < i ==> (#[trigger] chapter.images@[k]).image@.len() == 0
                        && chapter.images@[k].page_no == old(chapter).images@[k].page_no,
                forall|k: int| i <= k < total ==> chapter.images@[k] == old(chapter).images@[k],
            decreases total - i,
        {
            let mut position = render_decimal(chapter_order as u64);
            position.append("_");
            let page = render_decimal(i as u64);
            position.append(page.as_str());
            let path = replace_all(chapter.target_name.as_str(), "ORDER", position.as_str());
            let ghost before = chapter.images@;
            let ghost was = content_views(self.resources@);
            self.add_image(&mut chapter.images[i], i as i32, path.as_str(), chapter_order as i32);
            proof {
                assert(before[i as int].image@ == bytes[i as int]);
                assert(pages.take(i + 1) =~= pages.take(i as int).push(pages[i as int]));
                assert(content_views(self.resources@) =~= held + pages.take(i + 1));
            }
            i = i + 1;
        }
        assert(pages.take(total as int) =~= pages);
        true
    }

    /// Adds a chapter partition, titled `title`, after what the book holds.
    pub fn add_chapter_partition(&mut self, title: &str, target_path: &str)
        ensures
            content_views(final(self).resources@) == content_views(old(self).resources@).push(
                partition_content(title@, target_path@),
            ),
            final(self).constructor == old(self).constructor,
    {
        let resource = BookContent {
            order: -1,
            chapter_order: -1,
            target_path: String::from_str(target_path),
            content: Content::Text(String::from_str(title)),
            content_type: String::from_str("chapter"),
        };
        let ghost before = content_views(self.resources@);
        self.resources.push(resource);
        assert(content_views(self.resources@) =~= before.push(
            partition_content(title@, target_path@),
        ));
    }

    /// Makes `img` the book's cover. The image's bytes are used up; the image
    /// is left empty.
    pub fn add_cover_image(&mut self, img: &mut MangaImage) -> (r: Result<(), BookError>)
        ensures
            final(self).resources == old(self).resources,
            same_metadata(final(self).constructor, old(self).constructor),
            final(img).image@.len() == 0,
            final(img).page_no == old(img).page_no,
            r is Ok ==> writer_entries(final(self).constructor) == writer_entries(
                old(self).constructor,
            ).push(
                Entry::Cover {
                    path: "Images/cover.jpg"@,
                    mime: "image/jpeg"@,
                    content: old(img).image@,
                },
            ),
            r is Err ==> writer_entries(final(self).constructor) == writer_entries(
                old(self).constructor,
            ),
    {
        let mut bytes: Vec<u8> = Vec::new();
        core::mem::swap(&mut img.image, &mut bytes);
        proof {
            reveal_strlit("Images/cover.jpg");
            assert(vstd::string::is_ascii("Images/cover.jpg"));
            vstd::string::is_ascii_spec_bytes("Images/cover.jpg");
        }
        match writer_add_cover_image(
            &mut self.constructor,
            "Images/cover.jpg",
            bytes.as_slice(),
            "image/jpeg",
        ) {
            Ok(()) => Ok(()),
            Err(e) => Err(error_kind(&e)),
        }
    }

    /// Hands the book's contents to the writer, in order, and stops at the
    /// first that the writer refuses. Where a path of some content is too
    /// long, nothing is handed over. On success the writer holds, after what
    /// it held, the files of every content; where the writer refused a file,
    /// those it took before. The contents themselves, and the authors and
    /// title, are left as they are.
    pub fn stage(&mut self) -> (r: Result<(), BookError>)
        ensures
            r == Err::<(), BookError>(BookError::PathTooLong) <==> !contents_fit(
                old(self).resources@,
                old(self).resources@.len(),
            ),
            final(self).resources == old(self).resources,
            same_metadata(final(self).constructor, old(self).constructor),
            r == Err::<(), BookError>(BookError::PathTooLong) ==> writer_entries(
                final(self).constructor,
            ) == writer_entries(old(self).constructor),
            r is Ok ==> writer_entries(final(self).constructor) == writer_entries(
                old(self).constructor,
            ) + planned_entries(old(self).resources@, old(self).resources@.len()),
            r is Err && r != Err::<(), BookError>(BookError::PathTooLong) ==> stopped_short(
                writer_entries(old(self).constructor),
                old(self).resources@,
                writer_entries(final(self).constructor),
            ),
    {
        let ghost start = writer_entries(self.constructor);
        let ghost all = self.resources@;
        let total = self.resources.len();
        let mut i: usize = 0;
        while i < total
            invariant
                i <= total,
                total == all.len(),
                *self == *old(self),
                all == self.resources@,
                contents_fit(all, i as nat),
            decreases total - i,
        {
            if !fits(&self.resources[i]) {
                return Err(BookError::PathTooLong);
            }
            i = i + 1;
        }
        let mut i: usize = 0;
        while i < total
            invariant
                i <= total,
                total == all.len(),
                self.resources@ == all,
                self.resources == old(self).resources,
                contents_fit(all, total as nat),
                start == writer_entries(old(self).constructor),
                same_metadata(self.constructor, old(self).constructor),
                writer_entries(self.constructor) == start + planned_entries(all, i as nat),
            decreases total - i,
        {
            let ghost held = writer_entries(self.constructor);
            let ghost whole = content_entries(all[i as int]);
            let outcome = stage_one(&mut self.constructor, &self.resources[i]);
            match outcome {
                Ok(()) => {
                    assert(writer_entries(self.constructor) =~= start + planned_entries(
                        all,
                        (i + 1) as nat,
                    ));
                },
                Err(e) => {
                    proof {
                        let k = choose|k: int|
                            0 <= k < whole.len() && writer_entries(self.constructor) == held
                                + whole.take(k);
                        assert(stopped_at(start, all, writer_entries(self.constructor), i as nat, k));
                    }
                    return Err(e);
                },
            }
            i = i + 1;
        }
        Ok(())
    }

    /// Writes the book: a table of contents first, then every content in
    /// order, then the archive. The result is the bytes of the EPUB. Where a
    /// path of some content is too long, or the writer refuses a file, no
    /// archive is made and the result is the error. The bytes themselves
    /// hold the time of writing, so no more is said of them than that there
    /// are some, and that the writer had been handed the whole book.
    pub fn generate(self) -> (r: Result<Vec<u8>, BookError>)
        ensures
            r == Err::<Vec<u8>, BookError>(BookError::PathTooLong) <==> !contents_fit(
                self.resources@,
                self.resources@.len(),
            ),
            r is Ok ==> exists|writer: EpubWriter| handed_over(self, writer),
            r matches Ok(bytes) ==> bytes@.len() > 0,
    {
        let mut book = self;
        writer_inline_toc(&mut book.constructor);
        match book.stage() {
            Ok(()) => {},
            Err(e) => {
                return Err(e);
            },
        }
        proof {
            assert(handed_over(self, book.constructor));
        }
        match writer_generate(book.constructor) {
            Ok(bytes) => Ok(bytes),
            Err(e) => Err(error_kind(&e)),
        }
    }
}

/// Whether every path that `content` is handed over under fits.
fn fits(content: &BookContent) -> (b: bool)
    ensures
        b == content_fits(*content),
{
    if content.target_path.as_str().as_bytes().len() > MAX_PATH_BYTES {
        return false;
    }
    match &content.content {
        Content::Image(_) => {
            let path = render_page_document_path(content.chapter_order, content.order);
            path.as_str().as_bytes().len() <= MAX_PATH_BYTES
        },
        Content::Text(_) => true,
    }
}

/// Hands one content to the writer: a page as its image and then the
/// document that shows it, a partition as one titled document.
fn stage_one(writer: &mut EpubWriter, content: &BookContent) -> (r: Result<(), BookError>)
    requires
        content_fits(*content),
    ensures
        same_metadata(*final(writer), *old(writer)),
        r != Err::<(), BookError>(BookError::PathTooLong),
        r is Ok ==> writer_entries(*final(writer)) == writer_entries(*old(writer))
            + content_entries(*content),
        r is Err ==> exists|k: int|
            0 <= k < content_entries(*content).len() && writer_entries(*final(writer))
                == writer_entries(*old(writer)) + content_entries(*content).take(k),
{
    let ghost held = writer_entries(*writer);
    let ghost whole = content_entries(*content);
    let nothing: Vec<u8> = Vec::new();
    proof {
        reveal_strlit("");
        assert(""@ =~= Seq::<char>::empty());
    }
    match &content.content {
        Content::Image(data) => {
            match writer_add_resource(
                writer,
                content.target_path.as_str(),
                data.as_slice(),
                "image/jpeg",
            ) {
                Ok(()) => {},
                Err(e) => {
                    assert(writer_entries(*writer) =~= held + whole.take(0));
                    return Err(error_kind(&e));
                },
            }
            let html = render_page_document(content.target_path.as_str());
            let path = render_page_document_path(content.chapter_order, content.order);
            match writer_add_content(writer, path.as_str(), html.as_str().as_bytes(), "") {
                Ok(()) => {
                    assert(writer_entries(*writer) =~= held + whole);
                    Ok(())
                },
                Err(e) => {
                    assert(writer_entries(*writer) =~= held + whole.take(1));
                    Err(error_kind(&e))
                },
            }
        },
        Content::Text(title) => {
            match writer_add_content(
                writer,
                content.target_path.as_str(),
                nothing.as_slice(),
                title.as_str(),
            ) {
                Ok(()) => {
                    assert(writer_entries(*writer) =~= held + whole);
                    Ok(())
                },
                Err(e) => {
                    assert(writer_entries(*writer) =~= held + whole.take(0));
                    Err(error_kind(&e))
                },
            }
        },
    }
}

} // verus!
