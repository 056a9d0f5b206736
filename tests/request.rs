use swadloon::{chapter_listing, create_form_from_metadata, ChapterMetadata};

fn pair(a: &str, b: &str) -> (String, String) {
    (a.to_string(), b.to_string())
}

#[test]
fn chapter_form_holds_fields_cover_and_pages() {
    let c = ChapterMetadata::new(
        12,
        "Chapter 12".to_string(),
        "/m/chapters/12".to_string(),
        vec!["0.png".to_string(), "1.png".to_string()],
    );
    let form = create_form_from_metadata(&c, "m42");
    assert_eq!(form.texts, vec![pair("idx", "12"), pair("name", "Chapter 12"), pair("manga", "m42")]);
    assert_eq!(
        form.files,
        vec![
            pair("cover", "/m/chapters/12/0.png"),
            pair("pages", "/m/chapters/12/0.png"),
            pair("pages", "/m/chapters/12/1.png"),
        ]
    );
}

#[test]
fn chapter_listing_address_encodes_the_filter() {
    assert_eq!(
        chapter_listing("http://db", "abc", 2),
        "http://db/api/collections/chapters/records?page=2&perPage=999&sort=idx&filter=%28manga%3D%27abc%27%29"
    );
}

#[test]
fn chapter_listing_address_encodes_non_ascii() {
    let url = chapter_listing("h", "é z", 1);
    assert!(url.ends_with("filter=%28manga%3D%27%C3%A9%20z%27%29"));
}
