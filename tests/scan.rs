use swadloon::{
    decimal_string, get_chapter_index, get_manga_chapters, get_sorted_pages, page_number,
    parse_chapter_dir_name, parse_decimal, ChapterDirName, DirEntry, ScanError,
};

fn names(list: &[&str]) -> Vec<String> {
    list.iter().map(|s| s.to_string()).collect()
}

fn chapter_dir(name: &str, files: &[&str]) -> DirEntry {
    DirEntry { name: name.to_string(), is_dir: true, files: names(files) }
}

#[test]
fn parse_decimal_reads_digits_only() {
    assert_eq!(parse_decimal("0"), Some(0));
    assert_eq!(parse_decimal("1203"), Some(1203));
    assert_eq!(parse_decimal(""), None);
    assert_eq!(parse_decimal("12a"), None);
    assert_eq!(parse_decimal("+5"), None);
    assert_eq!(parse_decimal("99999999999999999999999"), None);
}

#[test]
fn decimal_string_spells_numbers() {
    assert_eq!(decimal_string(0), "0");
    assert_eq!(decimal_string(7), "7");
    assert_eq!(decimal_string(1203), "1203");
    assert_eq!(decimal_string(usize::MAX), usize::MAX.to_string());
}

#[test]
fn chapter_index_from_directory_names() {
    assert_eq!(get_chapter_index("12"), Some(12));
    assert_eq!(get_chapter_index("12: The Duel"), Some(12));
    assert_eq!(get_chapter_index("cover.png"), None);
    assert_eq!(get_chapter_index("12x"), None);
    assert_eq!(get_chapter_index("7.zip"), Some(7));
    assert_eq!(get_chapter_index("7.5"), Some(7));
    assert_eq!(get_chapter_index("12: Part.2"), Some(12));
    assert_eq!(get_chapter_index("12x.zip"), None);
    assert_eq!(get_chapter_index(""), None);
}

#[test]
fn chapter_names_from_directory_names() {
    assert_eq!(
        parse_chapter_dir_name("7:  The End"),
        ChapterDirName::Chapter { index: 7, name: "Chapter The End".to_string() }
    );
    assert_eq!(
        parse_chapter_dir_name("7"),
        ChapterDirName::Chapter { index: 7, name: "Chapter 7".to_string() }
    );
    assert_eq!(parse_chapter_dir_name("extras"), ChapterDirName::NotChapter);
    assert_eq!(
        parse_chapter_dir_name("7.zip"),
        ChapterDirName::Chapter { index: 7, name: "Chapter 7".to_string() }
    );
    assert_eq!(
        parse_chapter_dir_name("7: Part.2"),
        ChapterDirName::Chapter { index: 7, name: "Chapter Part".to_string() }
    );
    assert_eq!(parse_chapter_dir_name(".7"), ChapterDirName::NotChapter);
    assert_eq!(parse_chapter_dir_name("7b.zip"), ChapterDirName::Malformed);
    assert_eq!(parse_chapter_dir_name("99999999999999999999999"), ChapterDirName::Malformed);
}

#[test]
fn page_numbers_from_file_names() {
    assert_eq!(page_number("10.png"), Some(10));
    assert_eq!(page_number("0.jpeg"), Some(0));
    assert_eq!(page_number("a.png"), None);
    assert_eq!(page_number("10"), None);
    assert_eq!(page_number(".png"), None);
}

#[test]
fn pages_come_out_in_numeric_order() {
    let files = names(&["10.png", "2.png", "0.png", "1.png", "3.png"]);
    let pages = get_sorted_pages(&files).unwrap();
    assert_eq!(pages, names(&["0.png", "1.png", "2.png", "3.png", "10.png"]));
}

#[test]
fn pages_order_is_independent_of_listing_order() {
    let a = get_sorted_pages(&names(&["2.png", "0.png", "1.png"])).unwrap();
    let b = get_sorted_pages(&names(&["1.png", "2.png", "0.png"])).unwrap();
    assert_eq!(a, names(&["0.png", "1.png", "2.png"]));
    assert_eq!(a, b);
}

#[test]
fn malformed_page_name_is_an_error() {
    let files = names(&["0.png", "notes.txt", "1.png"]);
    assert_eq!(
        get_sorted_pages(&files),
        Err(ScanError::MalformedPageName("notes.txt".to_string()))
    );
}

#[test]
fn empty_page_list_sorts_to_empty() {
    assert_eq!(get_sorted_pages(&Vec::new()), Ok(Vec::new()));
}

#[test]
fn scan_orders_chapters_and_skips_other_entries() {
    let listing = vec![
        chapter_dir("2", &["1.png", "0.png"]),
        DirEntry { name: "cover.png".to_string(), is_dir: false, files: Vec::new() },
        chapter_dir("extras", &["x.txt"]),
        chapter_dir("1: Start", &["0.png"]),
    ];
    let chapters = get_manga_chapters("/m/chapters", Some(listing)).unwrap();
    assert_eq!(chapters.len(), 2);
    assert_eq!(chapters[0].index, 1);
    assert_eq!(chapters[0].name, "Chapter Start");
    assert_eq!(chapters[0].source_path, "/m/chapters/1: Start");
    assert_eq!(chapters[0].pages, names(&["0.png"]));
    assert_eq!(chapters[1].index, 2);
    assert_eq!(chapters[1].name, "Chapter 2");
    assert_eq!(chapters[1].pages, names(&["0.png", "1.png"]));
}

#[test]
fn scan_of_missing_directory_fails() {
    assert_eq!(get_manga_chapters("/m/chapters", None), Err(ScanError::DirectoryMissing));
}

#[test]
fn scan_of_empty_directory_is_empty() {
    assert_eq!(get_manga_chapters("/m/chapters", Some(Vec::new())), Ok(Vec::new()));
}

#[test]
fn scan_rejects_malformed_chapter_name() {
    let listing = vec![chapter_dir("1", &["0.png"]), chapter_dir("3b", &["0.png"])];
    assert_eq!(
        get_manga_chapters("r", Some(listing)),
        Err(ScanError::MalformedChapterName("3b".to_string()))
    );
}

#[test]
fn scan_rejects_malformed_page_name() {
    let listing = vec![chapter_dir("1", &["0.png", "cover.jpg"])];
    assert_eq!(
        get_manga_chapters("r", Some(listing)),
        Err(ScanError::MalformedPageName("cover.jpg".to_string()))
    );
}

#[test]
fn scan_rejects_empty_chapter() {
    let listing = vec![chapter_dir("1", &["0.png"]), chapter_dir("4", &[])];
    assert_eq!(get_manga_chapters("r", Some(listing)), Err(ScanError::EmptyChapter(4)));
}

#[test]
fn scan_rejects_duplicate_index() {
    let listing = vec![chapter_dir("5", &["0.png"]), chapter_dir("5: Again", &["0.png"])];
    assert_eq!(get_manga_chapters("r", Some(listing)), Err(ScanError::DuplicateChapterIndex(5)));
}

#[test]
fn scan_reads_index_from_the_stem() {
    let listing = vec![chapter_dir("3.cbz", &["0.png"])];
    let chapters = get_manga_chapters("r", Some(listing)).unwrap();
    assert_eq!(chapters.len(), 1);
    assert_eq!(chapters[0].index, 3);
    assert_eq!(chapters[0].name, "Chapter 3");
    assert_eq!(chapters[0].source_path, "r/3.cbz");
}

#[test]
fn scan_rejects_duplicate_index_across_stems() {
    let listing = vec![chapter_dir("5", &["0.png"]), chapter_dir("5.x", &["0.png"])];
    assert_eq!(get_manga_chapters("r", Some(listing)), Err(ScanError::DuplicateChapterIndex(5)));
}

#[test]
fn numbered_pages_come_out_as_zero_to_m() {
    let files = names(&["7.png", "10.png", "0.png", "3.png", "11.png", "1.png", "9.png", "2.png", "8.png", "5.png", "4.png", "6.png"]);
    let pages = get_sorted_pages(&files).unwrap();
    assert_eq!(pages.len(), 12);
    for (i, p) in pages.iter().enumerate() {
        assert_eq!(p, &format!("{}.png", i));
    }
}
