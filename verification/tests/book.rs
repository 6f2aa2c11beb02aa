use dexloader::epub::{
    render_page_document, render_page_document_path, Book, BookContent, BookError, Content,
    MAX_PATH_BYTES,
};
use dexloader::manga::chapter::manga_image::MangaImage;

const PAGE_TEMPLATE: &str = r#"<?xml version="1.0" encoding="UTF-8"?>
<html xmlns="http://www.w3.org/1999/xhtml" xmlns:epub="http://www.idpf.org/2007/ops">

<head>
    <link rel="stylesheet" type="text/css" href="../Styles/page.css"/>
    <meta name="viewport" content = "width = 1600, height = 2400" />
</head>

<body>
    <div class="pagediv">
        <img src="IMAGE_SOURCE" class="bkgImg">
    </div>
</body>
</html>"#;

/// Letters and digits in no pattern, so that they take room even when
/// deflated.
fn noise(len: usize, seed: u64) -> String {
    let alphabet = b"ABCDEFGHIJKLMNOPQRSTUVWXYZabcdefghijklmnopqrstuvwxyz0123456789";
    let mut state = seed;
    let mut out = String::new();
    for _ in 0..len {
        state = state.wrapping_mul(6364136223846793005).wrapping_add(1442695040888963407);
        out.push(alphabet[((state >> 33) % alphabet.len() as u64) as usize] as char);
    }
    out
}

fn archive_len(author: &[&str], title: Option<&str>) -> usize {
    let mut book = Book::new().expect("a writer in memory");
    for name in author {
        book.add_author(name).expect("an author");
    }
    if let Some(title) = title {
        book.add_title(title).expect("a title");
    }
    book.generate().expect("an archive").len()
}

fn contains(haystack: &[u8], needle: &[u8]) -> bool {
    haystack.windows(needle.len()).any(|w| w == needle)
}

#[test]
fn a_page_document_shows_its_image() {
    assert_eq!(
        render_page_document("Images/12.5_0_3.jpg"),
        PAGE_TEMPLATE.replace("IMAGE_SOURCE", "../Images/12.5_0_3.jpg")
    );
    assert_eq!(render_page_document(""), PAGE_TEMPLATE.replace("IMAGE_SOURCE", "../"));
}

#[test]
fn a_page_document_is_named_by_chapter_and_page() {
    assert_eq!(render_page_document_path(0, 0), "Text/0_0.xhtml");
    assert_eq!(render_page_document_path(3, 17), "Text/3_17.xhtml");
    assert_eq!(render_page_document_path(-1, -1), "Text/-1_-1.xhtml");
    assert_eq!(render_page_document_path(i32::MAX, i32::MIN), "Text/2147483647_-2147483648.xhtml");
}

#[test]
fn an_image_moves_into_the_book() {
    let mut book = Book::new().expect("a writer in memory");
    assert!(book.resources.is_empty());
    let mut image = MangaImage::new(5, vec![1, 2, 3]);
    book.add_image(&mut image, 2, "Images/1_0_2.jpg", 0);
    assert!(image.image.is_empty());
    assert_eq!(image.page_no, 5);
    assert_eq!(
        book.resources,
        vec![BookContent {
            order: 2,
            chapter_order: 0,
            target_path: String::from("Images/1_0_2.jpg"),
            content: Content::Image(vec![1, 2, 3]),
            content_type: String::from("image/jpeg"),
        }]
    );
    book.add_chapter_partition("Chapter 1", "Text/Chapter_1.xhtml");
    assert_eq!(book.resources.len(), 2);
    assert_eq!(
        book.resources[1],
        BookContent {
            order: -1,
            chapter_order: -1,
            target_path: String::from("Text/Chapter_1.xhtml"),
            content: Content::Text(String::from("Chapter 1")),
            content_type: String::from("chapter"),
        }
    );
}

#[test]
fn the_book_is_written_as_an_archive_of_its_pages() {
    let mut book = Book::new().expect("a writer in memory");
    book.add_author("Kotoyama").expect("an author");
    book.add_title("Call of the Night").expect("a title");
    book.add_css(b"body { margin: 0 }", "Styles/page.css").expect("a style sheet");
    let mut cover = MangaImage::new(0, vec![0xFF, 0xD8, 0xFF]);
    book.add_cover_image(&mut cover).expect("a cover");
    assert!(cover.image.is_empty());
    let mut first = MangaImage::new(0, vec![10, 11]);
    let mut second = MangaImage::new(1, vec![12]);
    book.add_image(&mut first, 0, "Images/1_0_0.jpg", 0);
    book.add_image(&mut second, 1, "Images/1_0_1.jpg", 0);
    book.add_chapter_partition("Afterword", "Text/after.xhtml");
    let bytes = book.generate().expect("an archive");
    assert_eq!(&bytes[0..2], b"PK");
    assert!(contains(&bytes, b"mimetype"));
    assert!(contains(&bytes, b"application/epub+zip"));
    for name in [
        "OEBPS/Styles/page.css",
        "OEBPS/Images/cover.jpg",
        "OEBPS/Images/1_0_0.jpg",
        "OEBPS/Images/1_0_1.jpg",
        "OEBPS/Text/0_0.xhtml",
        "OEBPS/Text/0_1.xhtml",
        "OEBPS/Text/after.xhtml",
        "OEBPS/toc.xhtml",
        "OEBPS/content.opf",
    ] {
        assert!(contains(&bytes, name.as_bytes()), "{} is in the archive", name);
    }
    assert!(!contains(&bytes, b"OEBPS/Text/0_2.xhtml"));
}

#[test]
fn an_empty_book_is_still_an_archive() {
    let book = Book::new().expect("a writer in memory");
    let bytes = book.generate().expect("an archive");
    assert_eq!(&bytes[0..2], b"PK");
    assert!(contains(&bytes, b"OEBPS/toc.xhtml"));
    assert!(!contains(&bytes, b"OEBPS/Images"));
}

#[test]
fn the_same_path_twice_is_refused() {
    let mut book = Book::new().expect("a writer in memory");
    let mut first = MangaImage::new(0, vec![1]);
    let mut second = MangaImage::new(1, vec![2]);
    book.add_image(&mut first, 0, "Images/same.jpg", 0);
    book.add_image(&mut second, 1, "Images/same.jpg", 0);
    assert!(book.generate().is_err());
}

#[test]
fn a_title_reaches_the_archive() {
    let plain = archive_len(&[], None);
    let titled = archive_len(&[], Some(&noise(6000, 1)));
    assert!(titled > plain + 2000);
    // A later title takes the place of an earlier one.
    let mut book = Book::new().expect("a writer in memory");
    book.add_title(&noise(6000, 2)).expect("a title");
    book.add_title("Short").expect("a title");
    let replaced = book.generate().expect("an archive").len();
    assert!(replaced + 2000 < titled);
}

#[test]
fn an_author_reaches_the_archive() {
    let plain = archive_len(&[], None);
    let one = archive_len(&[&noise(6000, 3)], None);
    assert!(one > plain + 2000);
    let two = archive_len(&[&noise(6000, 3), &noise(6000, 4)], None);
    assert!(two > one + 2000);
    // The empty name clears the authors named before it.
    let cleared = archive_len(&[&noise(6000, 3), ""], None);
    assert!(cleared + 2000 < one);
}

#[test]
fn a_path_too_long_is_refused_before_the_writer_sees_it() {
    let long = "p".repeat(MAX_PATH_BYTES + 1);
    let longest = "p".repeat(MAX_PATH_BYTES);
    let wide = "東".repeat(MAX_PATH_BYTES / 3);
    let too_wide = "東".repeat(MAX_PATH_BYTES / 3 + 1);
    assert_eq!(MAX_PATH_BYTES, 65529);
    assert_eq!(wide.len(), MAX_PATH_BYTES);
    let mut book = Book::new().expect("a writer in memory");
    assert_eq!(book.add_css(b"x", &long), Err(BookError::PathTooLong));
    assert_eq!(book.add_css(b"x", &too_wide), Err(BookError::PathTooLong));
    assert_eq!(book.add_css(b"x", &"q".repeat(70_000)), Err(BookError::PathTooLong));
    assert_eq!(book.add_css(b"x", &longest), Ok(()));
    assert_eq!(book.add_css(b"x", &wide), Ok(()));
    let mut page = MangaImage::new(0, vec![1]);
    book.add_image(&mut page, 0, "Images/0_0_0.jpg", 0);
    assert_eq!(book.stage(), Ok(()));

    let mut book = Book::new().expect("a writer in memory");
    let mut first = MangaImage::new(0, vec![1]);
    let mut second = MangaImage::new(1, vec![2]);
    book.add_image(&mut first, 0, "Images/0_0_0.jpg", 0);
    book.add_image(&mut second, 1, &long, 0);
    assert_eq!(book.stage(), Err(BookError::PathTooLong));
    assert_eq!(book.resources.len(), 2);
    assert_eq!(book.generate(), Err(BookError::PathTooLong));

    let mut book = Book::new().expect("a writer in memory");
    book.add_chapter_partition("Part", &"t".repeat(70_000));
    assert_eq!(book.generate(), Err(BookError::PathTooLong));

    let mut book = Book::new().expect("a writer in memory");
    book.add_chapter_partition("Part", &longest);
    assert!(book.generate().is_ok());
}

#[test]
fn a_long_path_that_fits_is_taken() {
    let mut book = Book::new().expect("a writer in memory");
    let mut page = MangaImage::new(0, vec![1, 2, 3]);
    let path = "i".repeat(20_000);
    book.add_image(&mut page, 0, &path, 0);
    let bytes = book.generate().expect("an archive");
    assert!(!bytes.is_empty());
    assert!(contains(&bytes, format!("OEBPS/{}", path).as_bytes()));
}
