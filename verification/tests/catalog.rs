use dexloader::connection::page::{FailureReason, PageResult};
use dexloader::manga::author::AuthorData;
use dexloader::manga::chapter::at_home::{AtHomeServerResponse, ChapterData};
use dexloader::manga::chapter::chapter::{
    chapter_batch, Chapter, ChapterAttribute, CHAPTER_CONCURRENCY,
};
use dexloader::manga::chapter::manga_image::{ChapterImage, ChapterNumber, MangaImage};
use dexloader::manga::cover::CoverData;
use dexloader::manga::manga::{nth_segment, Manga};
use dexloader::manga::manga_data::{
    MangaData, MangaDataInner, MangaEnglishTitle, MangaRelation, MangaTitle,
};
use dexloader::text::{render_decimal, render_signed};
use dexloader::util::title_or_empty;

fn manga_data(relations: Vec<(&str, &str)>) -> MangaData {
    MangaData {
        data: MangaDataInner {
            attributes: MangaTitle { title: MangaEnglishTitle { en: String::from("Call of the Night") } },
            relationships: relations
                .into_iter()
                .map(|(id, kind)| MangaRelation::new(String::from(id), String::from(kind)))
                .collect(),
        },
    }
}

fn at_home() -> AtHomeServerResponse {
    AtHomeServerResponse {
        base_url: String::from("https://node.example"),
        chapter_data: ChapterData {
            hash: String::from("abc123"),
            data: vec![String::from("1-a.jpg"), String::from("2-b.jpg"), String::from("3-c.png")],
            data_saver: vec![String::from("1-s.jpg")],
        },
    }
}

const PAGE: &str = "https://mangadex.org/title/259dfd8a-f06a-4825-8fa6-a2dcd7274230/yofukashi-no-uta";

#[test]
fn numbers_are_written_in_decimal() {
    assert_eq!(render_decimal(0), "0");
    assert_eq!(render_decimal(7), "7");
    assert_eq!(render_decimal(10), "10");
    assert_eq!(render_decimal(1234567890), "1234567890");
    assert_eq!(render_decimal(u64::MAX), "18446744073709551615");
    assert_eq!(render_signed(0), "0");
    assert_eq!(render_signed(-1), "-1");
    assert_eq!(render_signed(-907), "-907");
    assert_eq!(render_signed(i64::MAX), "9223372036854775807");
    assert_eq!(render_signed(i64::MIN), "-9223372036854775808");
    for v in [-100i64, -11, -10, -9, 9, 10, 11, 99, 100, 101, 65535] {
        assert_eq!(render_signed(v), v.to_string());
    }
}

#[test]
fn an_address_is_cut_at_each_slash() {
    assert_eq!(nth_segment("a/b/c", 0), Some(String::from("a")));
    assert_eq!(nth_segment("a/b/c", 1), Some(String::from("b")));
    assert_eq!(nth_segment("a/b/c", 2), Some(String::from("c")));
    assert_eq!(nth_segment("a/b/c", 3), None);
    assert_eq!(nth_segment("a/b/", 2), Some(String::new()));
    assert_eq!(nth_segment("a/b/", 3), None);
    assert_eq!(nth_segment("//x", 0), Some(String::new()));
    assert_eq!(nth_segment("//x", 1), Some(String::new()));
    assert_eq!(nth_segment("//x", 2), Some(String::from("x")));
    assert_eq!(nth_segment("", 0), Some(String::new()));
    assert_eq!(nth_segment("", 1), None);
    assert_eq!(nth_segment("näme/ü/東京", 2), Some(String::from("東京")));
    for n in 0..8 {
        assert_eq!(nth_segment(PAGE, n), PAGE.split("/").nth(n).map(String::from));
    }
}

#[test]
fn a_manga_is_known_by_the_id_in_its_address() {
    let manga = Manga::from(PAGE);
    assert_eq!(manga.id, "259dfd8a-f06a-4825-8fa6-a2dcd7274230");
    assert_eq!(manga.url, PAGE);
    assert!(manga.data.is_none());
    assert_eq!(manga.title, "");
    assert!(manga.chapter_list.is_none());
    assert!(manga.chapter_images.is_empty());
    assert_eq!(manga.author_name, "");
    assert_eq!(manga.get_total(), None);
    assert!(manga.needs_info());
}

#[test]
fn an_address_without_an_id_is_no_manga() {
    assert!(Manga::addresses_manga(PAGE));
    assert!(!Manga::addresses_manga("https://mangadex.org/title"));
    assert!(!Manga::addresses_manga(""));
    assert!(!Manga::addresses_manga("mangadex"));
    assert!(Manga::addresses_manga("https://mangadex.org/title/"));
    let short = Manga::from("https://mangadex.org/title/");
    assert_eq!(short.id, "");
}

#[test]
fn the_cover_is_one_page_without_report() {
    let manga = Manga::from(PAGE);
    let request = manga.cover_image_request(&CoverData::named(String::from("front.jpg")));
    assert_eq!(
        request.locator,
        "https://uploads.mangadex.org/covers/259dfd8a-f06a-4825-8fa6-a2dcd7274230/front.jpg"
    );
    assert_eq!(request.page_index, 0);
    assert!(!request.report);
}

#[test]
fn a_chapter_is_fetched_five_pages_at_a_time_without_reports() {
    let mut answer = at_home();
    for i in 0..9 {
        answer.get_mut_data().push(format!("more-{}.jpg", i));
    }
    let mut fetcher = chapter_batch(&answer);
    assert_eq!(fetcher.total(), 12);
    assert_eq!(fetcher.concurrency_limit(), 5);
    let wave = fetcher.next_wave();
    assert_eq!(wave.len(), 5);
    assert_eq!(wave[0].locator, "https://node.example/data/abc123/1-a.jpg");
    assert_eq!(wave[4].locator, "https://node.example/data/abc123/more-1.jpg");
    for (i, request) in wave.iter().enumerate() {
        assert_eq!(request.page_index, i);
        assert!(!request.report);
    }
    assert_eq!(CHAPTER_CONCURRENCY, 5);
    // Even a chapter of unnamed files has addresses to ask for.
    let mut bare = at_home();
    bare.base_url = String::new();
    bare.chapter_data.hash = String::new();
    bare.chapter_data.data = vec![String::new()];
    let mut fetcher = chapter_batch(&bare);
    assert_eq!(fetcher.next_wave()[0].locator, "/data//");
}

#[test]
fn a_chapter_takes_its_pages_along() {
    let chapter = Chapter::new(
        String::from("ch-1"),
        ChapterAttribute {
            chapter: Some(ChapterNumber { key: 7, label: String::from("3.5") }),
            pages: 2,
            title: String::from("Dawn"),
        },
    );
    let gathered = chapter.gathered(vec![MangaImage::new(0, vec![1]), MangaImage::new(1, vec![2])]);
    assert_eq!(
        gathered,
        ChapterImage {
            chapter_no: Some(ChapterNumber { key: 7, label: String::from("3.5") }),
            chapter_title: String::from("Dawn"),
            target_name: String::from("Images/3.5_ORDER.jpg"),
            images: vec![MangaImage::new(0, vec![1]), MangaImage::new(1, vec![2])],
        }
    );
    let plain = Chapter::new(
        String::from("ch-2"),
        ChapterAttribute { chapter: None, pages: 0, title: String::new() },
    );
    let gathered = plain.gathered(Vec::new());
    assert_eq!(gathered.chapter_no, None);
    assert_eq!(gathered.target_name, "Images/0_ORDER.jpg");
    assert!(gathered.images.is_empty());
}

#[test]
fn a_lost_page_is_a_transport_failure() {
    assert_eq!(PageResult::lost(6), PageResult::failure(6, FailureReason::Transport));
}

#[test]
fn the_chapter_listing_is_asked_for_by_limit_and_offset() {
    let manga = Manga::from(PAGE);
    let base = "https://api.mangadex.org/chapter?manga=259dfd8a-f06a-4825-8fa6-a2dcd7274230&translatedLanguage[]=en";
    assert_eq!(manga.construct_manga_chapter_request_url(0, None), base);
    assert_eq!(manga.construct_manga_chapter_request_url(0, Some(6)), format!("{}&limit=6", base));
    assert_eq!(manga.construct_manga_chapter_request_url(12, None), format!("{}&offset=12", base));
    assert_eq!(
        manga.construct_manga_chapter_request_url(18, Some(6)),
        format!("{}&limit=6&offset=18", base)
    );
    assert_eq!(
        manga.construct_manga_chapter_request_url(-3, Some(-1)),
        format!("{}&limit=-1&offset=-3", base)
    );
    assert_eq!(
        manga.construct_manga_chapter_request_url(i32::MIN, Some(i32::MAX)),
        format!("{}&limit=2147483647&offset=-2147483648", base)
    );
    assert_eq!(manga.info_url(), "https://api.mangadex.org/manga/259dfd8a-f06a-4825-8fa6-a2dcd7274230");
}

#[test]
fn the_first_relation_of_a_kind_gives_the_id() {
    let data = manga_data(vec![
        ("tag-1", "tag"),
        ("cover-1", "cover_art"),
        ("author-1", "author"),
        ("author-2", "author"),
        ("cover-2", "cover_art"),
    ]);
    assert_eq!(data.get_title(), "Call of the Night");
    assert_eq!(data.get_author_id(), "author-1");
    assert_eq!(data.get_cover_id(), "cover-1");
    let none = manga_data(vec![("artist-1", "artist"), ("x", "Author"), ("y", "author ")]);
    assert_eq!(none.get_author_id(), "");
    assert_eq!(none.get_cover_id(), "");
    assert_eq!(manga_data(Vec::new()).get_author_id(), "");
}

#[test]
fn the_records_are_fetched_in_turn() {
    let mut manga = Manga::from(PAGE);
    assert_eq!(manga.author_request_url(), None);
    assert_eq!(manga.cover_request_url(), None);
    manga.set_data(manga_data(vec![("c9", "cover_art"), ("a7", "author")]));
    assert_eq!(manga.title, "Call of the Night");
    assert!(manga.needs_info());
    assert_eq!(manga.author_request_url(), Some(String::from("https://api.mangadex.org/author/a7")));
    assert_eq!(manga.cover_request_url(), Some(String::from("https://api.mangadex.org/cover/c9")));
    let author = AuthorData::named(String::from("Kotoyama"));
    assert_eq!(author.get_name(), "Kotoyama");
    manga.set_author(&author);
    assert_eq!(manga.author_name, "Kotoyama");
    assert!(!manga.needs_info());
    let cover = CoverData::named(String::from("front.jpg"));
    assert_eq!(cover.get_file_name(), "front.jpg");
    assert_eq!(
        manga.cover_image_request_url(&cover),
        "https://uploads.mangadex.org/covers/259dfd8a-f06a-4825-8fa6-a2dcd7274230/front.jpg"
    );
}

#[test]
fn chapters_are_gathered_in_order() {
    let mut manga = Manga::from(PAGE);
    let chapter = |title: &str| ChapterImage {
        chapter_no: None,
        chapter_title: String::from(title),
        target_name: String::from("Images/0_ORDER.jpg"),
        images: vec![MangaImage::new(0, vec![1])],
    };
    manga.begin_chapters(true);
    manga.push_chapter(chapter("one"));
    manga.push_chapter(chapter("two"));
    assert_eq!(manga.chapter_images.len(), 2);
    manga.begin_chapters(false);
    assert_eq!(manga.chapter_images.len(), 2);
    manga.push_chapter(chapter("three"));
    assert_eq!(manga.chapter_images[2].chapter_title, "three");
    assert_eq!(manga.chapter_images[0].chapter_title, "one");
    manga.begin_chapters(true);
    assert!(manga.chapter_images.is_empty());
}

#[test]
fn a_chapter_server_answer_gives_the_page_addresses() {
    let mut answer = at_home();
    assert_eq!(answer.get_hash(), "abc123");
    assert_eq!(answer.get_data().len(), 3);
    assert_eq!(answer.get_data_save(), &vec![String::from("1-s.jpg")]);
    assert_eq!(
        answer.page_urls(),
        vec![
            String::from("https://node.example/data/abc123/1-a.jpg"),
            String::from("https://node.example/data/abc123/2-b.jpg"),
            String::from("https://node.example/data/abc123/3-c.png"),
        ]
    );
    answer.get_mut_data().pop();
    answer.get_mut_data_save().push(String::from("2-s.jpg"));
    assert_eq!(answer.get_data().len(), 2);
    assert_eq!(answer.get_data_save().len(), 2);
    assert_eq!(answer.page_urls().len(), 2);
    answer.get_mut_data().clear();
    assert!(answer.page_urls().is_empty());
}

#[test]
fn a_chapter_names_its_pages_by_its_number() {
    let numbered = Chapter::new(
        String::from("ch-1"),
        ChapterAttribute {
            chapter: Some(ChapterNumber { key: 1095237632, label: String::from("12.5") }),
            pages: 18,
            title: String::from("Night Walk"),
        },
    );
    assert_eq!(numbered.generate_file_name(), "Images/12.5_ORDER.jpg");
    assert_eq!(numbered.get_chapter_label(), "12.5");
    assert_eq!(numbered.get_chapter_key(), 1095237632);
    assert_eq!(numbered.get_pages(), 18);
    assert_eq!(numbered.get_name(), "Night Walk");
    assert_eq!(numbered.at_home_request_url(), "https://api.mangadex.org/at-home/server/ch-1");
    let plain = Chapter::new(
        String::from("ch-2"),
        ChapterAttribute { chapter: None, pages: 0, title: String::new() },
    );
    assert_eq!(plain.generate_file_name(), "Images/0_ORDER.jpg");
    assert_eq!(plain.get_chapter_key(), 0);
    assert_eq!(plain.get_chapter(), None);
}

#[test]
fn a_fetched_page_becomes_an_image() {
    let image = MangaImage::from_page(PageResult::success(4, vec![9, 8, 7])).expect("a page");
    assert_eq!(image.page_no, 4);
    assert_eq!(image.image, vec![9, 8, 7]);
    assert_eq!(MangaImage::from_page(PageResult::failure(4, FailureReason::Transport)), None);
    assert_eq!(MangaImage::from_page(PageResult::failure(0, FailureReason::Decode)), None);
    assert_eq!(MangaImage::new(3, vec![1]), MangaImage { page_no: 3, image: vec![1] });
}

#[test]
fn a_missing_title_is_empty() {
    assert_eq!(title_or_empty(None), "");
    assert_eq!(title_or_empty(Some(String::from("Epilogue"))), "Epilogue");
    assert_eq!(title_or_empty(Some(String::new())), "");
}
