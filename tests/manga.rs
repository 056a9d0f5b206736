use swadloon::{
    manga_form, manga_lookup, manga_record, metadata_from_anilist, resolve_manga, LookupError,
    Manga, Metadata, MetadataCoverImage, MetadataDate, MetadataTitle, ResolvedImages,
};

fn date(year: Option<usize>, month: Option<usize>, day: Option<usize>) -> MetadataDate {
    MetadataDate { day, month, year }
}

fn metadata(english: Option<&str>) -> Metadata {
    Metadata {
        id: 105778,
        mal_id: Some(116778),
        title: MetadataTitle {
            english: english.map(|s| s.to_string()),
            native: "チェンソーマン".to_string(),
            romaji: "Chainsaw Man".to_string(),
        },
        status: "RELEASING".to_string(),
        typ: "MANGA".to_string(),
        format: "MANGA".to_string(),
        description: "Denji".to_string(),
        genres: vec!["Action".to_string()],
        chapters: None,
        volumes: None,
        banner_image: None,
        cover_image: MetadataCoverImage {
            color: "#e4a143".to_string(),
            medium: "m".to_string(),
            large: "l".to_string(),
            extra_large: "xl".to_string(),
        },
        start_date: date(Some(2018), Some(12), Some(3)),
        end_date: date(None, None, None),
    }
}

fn images(banner: Option<&str>) -> ResolvedImages {
    ResolvedImages {
        banner: banner.map(|s| s.to_string()),
        cover_medium: "i/cover_medium.png".to_string(),
        cover_large: "i/cover_large.png".to_string(),
        cover_extra_large: "i/cover_extra_large.png".to_string(),
    }
}

fn manga(id: &str) -> Manga {
    Manga {
        id: id.to_string(),
        mal_id: 1,
        anilist_id: 2,
        english_title: String::new(),
        native_title: String::new(),
        romaji_title: String::new(),
        mal_url: String::new(),
        anilist_url: String::new(),
        description: String::new(),
        banner: String::new(),
        cover_medium: String::new(),
        cover_large: String::new(),
        cover_extra_large: String::new(),
        created: String::new(),
        updated: String::new(),
        collection_id: String::new(),
        collection_name: String::new(),
    }
}

#[test]
fn dates_in_iso_form() {
    assert_eq!(date(Some(2020), Some(4), Some(2)).to_iso8601(), "2020-04-02");
    assert_eq!(date(Some(1999), Some(11), Some(30)).to_iso8601(), "1999-11-30");
    assert_eq!(date(Some(2020), None, Some(2)).to_iso8601(), "");
    assert_eq!(date(None, None, None).to_iso8601(), "");
}

#[test]
fn record_from_catalog_entry() {
    let m = metadata_from_anilist(metadata(Some("Chainsaw Man EN")), images(None));
    assert_eq!(m.mal_id, 116778);
    assert_eq!(m.anilist_id, 105778);
    assert_eq!(m.english_title, "Chainsaw Man EN");
    assert_eq!(m.romaji_title, "Chainsaw Man");
    assert_eq!(m.native_title, "チェンソーマン");
    assert_eq!(m.anilist_url, "https://anilist.co/manga/105778");
    assert_eq!(m.mal_url, "https://myanimelist.net/manga/116778");
    assert_eq!(m.start_date, "2018-12-03");
    assert_eq!(m.end_date, "");
    assert_eq!(m.color, "#e4a143");
    assert_eq!(m.images, images(None));
}

#[test]
fn english_title_falls_back_to_romaji() {
    let m = metadata_from_anilist(metadata(None), images(None));
    assert_eq!(m.english_title, "Chainsaw Man");
}

#[test]
fn manga_form_for_create_and_update() {
    let m = metadata_from_anilist(metadata(None), images(Some("i/banner.png")));
    let create = manga_form(&m, true);
    assert_eq!(create.texts.len(), 11);
    assert_eq!(create.texts[0], ("malId".to_string(), "116778".to_string()));
    assert_eq!(create.texts[1], ("anilistId".to_string(), "105778".to_string()));
    assert_eq!(create.files.len(), 4);
    assert_eq!(create.files[3], ("banner".to_string(), "i/banner.png".to_string()));
    let update = manga_form(&m, false);
    assert_eq!(update.texts.len(), 9);
    assert_eq!(update.texts[0], ("englishTitle".to_string(), "Chainsaw Man".to_string()));
    let no_banner = manga_form(&metadata_from_anilist(metadata(None), images(None)), false);
    assert_eq!(no_banner.files.len(), 3);
}

#[test]
fn manga_addresses() {
    assert_eq!(
        manga_lookup("http://db", 116778),
        "http://db/api/collections/mangas/records?filter=%28malId%3D%27116778%27%29"
    );
    assert_eq!(manga_record("http://db", "x1"), "http://db/api/collections/mangas/records/x1");
}

#[test]
fn lookup_answers() {
    assert_eq!(resolve_manga(vec![manga("a")], 1), Ok(manga("a")));
    assert_eq!(resolve_manga(Vec::new(), 0), Err(LookupError::NoRecord));
    assert_eq!(resolve_manga(vec![manga("a"), manga("b")], 2), Err(LookupError::WrongItemCount));
}

#[test]
fn manga_selection_by_directory_name() {
    assert!(swadloon::manga_selected("Chainsaw Man", &None));
    assert!(swadloon::manga_selected("Chainsaw Man", &Some("Chainsaw Man".to_string())));
    assert!(!swadloon::manga_selected("Dandadan", &Some("Chainsaw Man".to_string())));
}
