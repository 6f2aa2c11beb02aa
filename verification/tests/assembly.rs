use dexloader::epub::{Book, BookContent, Content};
use dexloader::manga::chapter::chapter::{Chapter, ChapterAttribute};
use dexloader::manga::chapter::chapter_list::{ChapterList, Pagination};
use dexloader::manga::chapter::manga_image::{ChapterImage, ChapterNumber, MangaImage};
use dexloader::manga::manga::Manga;
use dexloader::plan::{batch_file_name, next_start, next_step, page_number, Step};
use dexloader::text::replace_all;

fn chapter(id: &str, number: Option<(i32, &str)>) -> Chapter {
    Chapter::new(
        String::from(id),
        ChapterAttribute {
            chapter: number.map(|(key, label)| ChapterNumber { key, label: String::from(label) }),
            pages: 1,
            title: String::from(id),
        },
    )
}

fn ids(list: &ChapterList) -> Vec<String> {
    list.data.iter().map(|c| c.id.clone()).collect()
}

fn pages(label: &str, images: Vec<Vec<u8>>) -> ChapterImage {
    ChapterImage {
        chapter_no: Some(ChapterNumber { key: 1, label: String::from(label) }),
        chapter_title: String::from("t"),
        target_name: format!("Images/{}_ORDER.jpg", label),
        images: images
            .into_iter()
            .enumerate()
            .map(|(i, bytes)| MangaImage::new(i as i32, bytes))
            .collect(),
    }
}

#[test]
fn every_pattern_is_replaced() {
    assert_eq!(replace_all("Images/12.5_ORDER.jpg", "ORDER", "3_7"), "Images/12.5_3_7.jpg");
    assert_eq!(replace_all("ORDERORDER", "ORDER", "x"), "xx");
    assert_eq!(replace_all("aaa", "aa", "b"), "ba");
    assert_eq!(replace_all("abc", "d", "x"), "abc");
    assert_eq!(replace_all("abc", "", "x"), "abc");
    assert_eq!(replace_all("", "a", "x"), "");
    assert_eq!(replace_all("abc", "abcd", "x"), "abc");
    assert_eq!(replace_all("ORDE", "ORDER", "x"), "ORDE");
    assert_eq!(replace_all("xORDERy", "ORDER", ""), "xy");
    assert_eq!(replace_all("東京ORDER東京", "ORDER", "と"), "東京と東京");
    for (s, p, w) in [("abababa", "aba", "X"), ("mississippi", "ss", "SS"), ("aaaa", "a", "aa")] {
        assert_eq!(replace_all(s, p, w), s.replace(p, w));
    }
}

#[test]
fn chapters_are_sorted_by_number_and_keep_their_order() {
    let mut list = ChapterList {
        data: vec![
            chapter("c", Some((30, "3"))),
            chapter("a1", Some((10, "1"))),
            chapter("none", None),
            chapter("b", Some((20, "2"))),
            chapter("a2", Some((10, "1"))),
            chapter("neg", Some((-5, "-1"))),
            chapter("zero", Some((0, "0"))),
            chapter("a3", Some((10, "1"))),
        ],
        pagination: Pagination { limit: 6, offset: 0, total: 8 },
    };
    list.sort_chapters();
    assert_eq!(ids(&list), vec!["neg", "none", "zero", "a1", "a2", "a3", "b", "c"]);
    assert_eq!(list.pagination, Pagination { limit: 6, offset: 0, total: 8 });
    list.sort_chapters();
    assert_eq!(ids(&list), vec!["neg", "none", "zero", "a1", "a2", "a3", "b", "c"]);
}

#[test]
fn sorting_few_chapters_is_harmless() {
    let mut empty = ChapterList { data: Vec::new(), pagination: Pagination { limit: 1, offset: 0, total: 0 } };
    empty.sort_chapters();
    assert!(empty.data.is_empty());
    let mut one = ChapterList {
        data: vec![chapter("only", Some((7, "7")))],
        pagination: Pagination { limit: 1, offset: 0, total: 1 },
    };
    one.sort_chapters();
    assert_eq!(ids(&one), vec!["only"]);
    let mut two = ChapterList {
        data: vec![chapter("late", Some((9, "9"))), chapter("early", Some((-9, "-9")))],
        pagination: Pagination { limit: 2, offset: 0, total: 2 },
    };
    two.sort_chapters();
    assert_eq!(ids(&two), vec!["early", "late"]);
}

#[test]
fn a_chapter_goes_into_the_book_page_by_page() {
    let mut book = Book::new().expect("a writer in memory");
    let mut chapter = pages("12.5", vec![vec![1], vec![2, 2], vec![3]]);
    assert!(book.add_chapter_images(&mut chapter, 4));
    assert_eq!(chapter.images.len(), 3);
    for (i, image) in chapter.images.iter().enumerate() {
        assert!(image.image.is_empty());
        assert_eq!(image.page_no, i as i32);
    }
    assert_eq!(chapter.target_name, "Images/12.5_ORDER.jpg");
    let expected: Vec<BookContent> = vec![
        (0, "Images/12.5_4_0.jpg", vec![1u8]),
        (1, "Images/12.5_4_1.jpg", vec![2, 2]),
        (2, "Images/12.5_4_2.jpg", vec![3]),
    ]
    .into_iter()
    .map(|(order, path, bytes)| BookContent {
        order,
        chapter_order: 4,
        target_path: String::from(path),
        content: Content::Image(bytes),
        content_type: String::from("image/jpeg"),
    })
    .collect();
    assert_eq!(book.resources, expected);
}

#[test]
fn the_gathered_chapters_fill_the_book_in_order() {
    let mut manga = Manga::from("https://mangadex.org/title/id-1/name");
    manga.push_chapter(pages("1", vec![vec![10], vec![11]]));
    manga.push_chapter(pages("2", Vec::new()));
    manga.push_chapter(pages("3", vec![vec![30]]));
    let mut book = Book::new().expect("a writer in memory");
    book.add_chapter_partition("Front", "Text/front.xhtml");
    assert!(manga.fill_book(&mut book));
    let paths: Vec<&str> = book.resources.iter().map(|r| r.target_path.as_str()).collect();
    assert_eq!(
        paths,
        vec!["Text/front.xhtml", "Images/1_0_0.jpg", "Images/1_0_1.jpg", "Images/3_2_0.jpg"]
    );
    let orders: Vec<(i32, i32)> = book.resources.iter().map(|r| (r.chapter_order, r.order)).collect();
    assert_eq!(orders, vec![(-1, -1), (0, 0), (0, 1), (2, 0)]);
    assert_eq!(book.resources[3].content, Content::Image(vec![30]));
    assert_eq!(manga.chapter_images.len(), 3);
    let counts: Vec<usize> = manga.chapter_images.iter().map(|c| c.images.len()).collect();
    assert_eq!(counts, vec![2, 0, 1]);
    for (chapter, label) in manga.chapter_images.iter().zip(["1", "2", "3"]) {
        assert_eq!(chapter.target_name, format!("Images/{}_ORDER.jpg", label));
        assert_eq!(chapter.chapter_title, "t");
        assert_eq!(chapter.chapter_no, Some(ChapterNumber { key: 1, label: String::from(label) }));
        for (i, image) in chapter.images.iter().enumerate() {
            assert!(image.image.is_empty());
            assert_eq!(image.page_no, i as i32);
        }
    }
    let bytes = book.generate().expect("an archive");
    let name = b"OEBPS/Images/3_2_0.jpg";
    assert!(bytes.windows(name.len()).any(|w| w == name));
}

#[test]
fn the_listing_is_walked_until_it_is_passed() {
    assert_eq!(next_step(0, 0, None, false), Step::Fetch);
    assert_eq!(next_step(0, 500, None, false), Step::Fetch);
    assert_eq!(next_step(20, 18, None, false), Step::Fetch);
    assert_eq!(next_step(20, 20, None, false), Step::Fetch);
    assert_eq!(next_step(20, 21, None, false), Step::Stop { save: false });
    assert_eq!(next_step(20, 24, None, true), Step::Stop { save: true });
    assert_eq!(next_step(0, 6, Some(6), true), Step::Stop { save: false });
    assert_eq!(next_step(0, 6, Some(5), false), Step::Stop { save: false });
    assert_eq!(next_step(0, 6, Some(7), false), Step::Fetch);
    assert_eq!(next_step(20, 24, Some(3), true), Step::Stop { save: true });
    assert_eq!(next_step(-1, 0, None, true), Step::Stop { save: true });
}

#[test]
fn each_page_of_the_listing_names_its_book() {
    assert_eq!(batch_file_name(0, 6, ".epub"), Some(String::from("File_0_.epub")));
    assert_eq!(batch_file_name(6, 6, "out.epub"), Some(String::from("File_1_out.epub")));
    assert_eq!(batch_file_name(17, 6, "out.epub"), Some(String::from("File_2_out.epub")));
    assert_eq!(batch_file_name(-7, 2, "x"), Some(String::from("File_-3_x")));
    assert_eq!(batch_file_name(7, -2, "x"), Some(String::from("File_-3_x")));
    assert_eq!(batch_file_name(-7, -2, "x"), Some(String::from("File_3_x")));
    assert_eq!(batch_file_name(5, 0, "x"), None);
    assert_eq!(page_number(i32::MIN, -1), Some(2147483648));
    assert_eq!(page_number(i32::MAX, 1), Some(2147483647));
    for (a, b) in [(0, 1), (1, 3), (-1, 3), (100, 7), (-100, 7), (100, -7), (-100, -7), (6, 6)] {
        assert_eq!(page_number(a, b), Some((a / b) as i64));
    }
}

#[test]
fn the_next_page_starts_one_limit_on() {
    assert_eq!(next_start(0, 6), Some(6));
    assert_eq!(next_start(12, 6), Some(18));
    assert_eq!(next_start(5, -6), Some(-1));
    assert_eq!(next_start(i32::MAX, 1), None);
    assert_eq!(next_start(i32::MAX - 6, 6), Some(i32::MAX));
    assert_eq!(next_start(i32::MIN, -1), None);
    assert_eq!(next_start(i32::MIN, 0), Some(i32::MIN));
}
