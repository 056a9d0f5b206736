//! The manga record that a batch of chapters belongs to: catalog metadata,
//! the record built from it, and finding the existing record.
use vstd::prelude::*;
use vstd::string::StringSliceAdditionalSpecFns;
use vstd::utf8::encode_utf8;

use crate::model::Manga;
use crate::request::{pair_views, percent_encode, url_encode, UploadForm};
use crate::text::{decimal_repr, decimal_string};

verus! {

/// Cover image addresses and theme colour from the metadata catalog.
#[derive(Debug, PartialEq, Eq)]
pub struct MetadataCoverImage {
    pub color: String,
    pub medium: String,
    pub large: String,
    pub extra_large: String,
}

/// A publication date; any part may be unknown.
#[derive(Debug, PartialEq, Eq)]
pub struct MetadataDate {
    pub day: Option<usize>,
    pub month: Option<usize>,
    pub year: Option<usize>,
}

/// Title variants; the English one may be missing.
#[derive(Debug, PartialEq, Eq)]
pub struct MetadataTitle {
    pub english: Option<String>,
    pub native: String,
    pub romaji: String,
}

/// One manga as the metadata catalog describes it.
#[derive(Debug, PartialEq, Eq)]
pub struct Metadata {
    pub id: usize,
    pub mal_id: Option<usize>,
    pub title: MetadataTitle,
    pub status: String,
    pub typ: String,
    pub format: String,
    pub description: String,
    pub genres: Vec<String>,
    pub chapters: Option<usize>,
    pub volumes: Option<usize>,
    pub banner_image: Option<String>,
    pub cover_image: MetadataCoverImage,
    pub start_date: MetadataDate,
    pub end_date: MetadataDate,
}

/// The local image files of a manga.
#[derive(Debug, PartialEq, Eq)]
pub struct ResolvedImages {
    pub banner: Option<String>,
    pub cover_medium: String,
    pub cover_large: String,
    pub cover_extra_large: String,
}

/// What the record store keeps of a manga, ready to upload.
#[derive(Debug, PartialEq, Eq)]
pub struct MangaMetadata {
    pub mal_id: usize,
    pub anilist_id: usize,
    pub english_title: String,
    pub native_title: String,
    pub romaji_title: String,
    pub anilist_url: String,
    pub mal_url: String,
    pub description: String,
    pub start_date: String,
    pub end_date: String,
    pub color: String,
    pub images: ResolvedImages,
}

/// Why the manga record could not be found.
#[derive(Debug, PartialEq, Eq)]
pub enum LookupError {
    NoRecord,
    WrongItemCount,
}

/// `d` written with at least two digits.
pub open spec fn two_digits(d: nat) -> Seq<char> {
    if d < 10 {
        seq!['0'] + decimal_repr(d)
    } else {
        decimal_repr(d)
    }
}

/// `YYYY-MM-DD` when the whole date is known, else empty.
pub open spec fn iso_date(date: MetadataDate) -> Seq<char> {
    match (date.year, date.month, date.day) {
        (Some(y), Some(m), Some(d)) => decimal_repr(y as nat) + seq!['-'] + two_digits(m as nat)
            + seq!['-'] + two_digits(d as nat),
        _ => Seq::empty(),
    }
}

fn two_digit_string(d: usize) -> (r: String)
    ensures
        r@ == two_digits(d as nat),
{
    proof {
        reveal_strlit("0");
    }
    if d < 10 {
        let mut r = String::from_str("0");
        let digits = decimal_string(d);
        r.append(digits.as_str());
        r
    } else {
        decimal_string(d)
    }
}

impl MetadataDate {
    /// The date as `YYYY-MM-DD`, month and day zero-padded; empty when a part
    /// is unknown.
    pub fn to_iso8601(&self) -> (r: String)
        ensures
            r@ == iso_date(*self),
    {
        proof {
            reveal_strlit("-");
        }
        match (self.year, self.month, self.day) {
            (Some(y), Some(m), Some(d)) => {
                let mut r = decimal_string(y);
                r.append("-");
                let month = two_digit_string(m);
                r.append(month.as_str());
                r.append("-");
                let day = two_digit_string(d);
                r.append(day.as_str());
                r
            },
            _ => String::new(),
        }
    }
}

/// The catalog page of a manga.
pub open spec fn anilist_url_of(id: nat) -> Seq<char> {
    "https://anilist.co/manga/"@ + decimal_repr(id)
}

/// The MyAnimeList page of a manga.
pub open spec fn mal_url_of(id: nat) -> Seq<char> {
    "https://myanimelist.net/manga/"@ + decimal_repr(id)
}

/// `m` is the record that catalog entry `meta` with local images `images`
/// gives.
pub open spec fn is_record_of(meta: Metadata, images: ResolvedImages, m: MangaMetadata) -> bool {
    &&& m.mal_id == meta.mal_id->0
    &&& m.anilist_id == meta.id
    &&& m.english_title@ == match meta.title.english {
        Some(e) => e@,
        None => meta.title.romaji@,
    }
    &&& m.native_title == meta.title.native
    &&& m.romaji_title == meta.title.romaji
    &&& m.anilist_url@ == anilist_url_of(meta.id as nat)
    &&& m.mal_url@ == mal_url_of(meta.mal_id->0 as nat)
    &&& m.description == meta.description
    &&& m.start_date@ == iso_date(meta.start_date)
    &&& m.end_date@ == iso_date(meta.end_date)
    &&& m.color == meta.cover_image.color
    &&& m.images == images
}

/// Builds the manga record from its catalog entry and its downloaded images.
/// The English title falls back to the romanised one.
pub fn metadata_from_anilist(metadata: Metadata, images: ResolvedImages) -> (r: MangaMetadata)
    requires
        metadata.mal_id is Some,
    ensures
        is_record_of(metadata, images, r),
{
    let ghost meta = metadata;
    let mal_id = match metadata.mal_id {
        Some(id) => id,
        None => 0,
    };
    let start_date = metadata.start_date.to_iso8601();
    let end_date = metadata.end_date.to_iso8601();
    let mut anilist_url = String::from_str("https://anilist.co/manga/");
    let anilist_number = decimal_string(metadata.id);
    anilist_url.append(anilist_number.as_str());
    let mut mal_url = String::from_str("https://myanimelist.net/manga/");
    let mal_number = decimal_string(mal_id);
    mal_url.append(mal_number.as_str());
    let english_title = match metadata.title.english {
        Some(e) => e,
        None => metadata.title.romaji.clone(),
    };
    MangaMetadata {
        mal_id,
        anilist_id: metadata.id,
        english_title,
        native_title: metadata.title.native,
        romaji_title: metadata.title.romaji,
        anilist_url,
        mal_url,
        description: metadata.description,
        start_date,
        end_date,
        color: metadata.cover_image.color,
        images,
    }
}

/// The text fields of a manga's form; the catalog ids go only into a new
/// record.
pub open spec fn manga_texts(m: MangaMetadata, with_ids: bool) -> Seq<(Seq<char>, Seq<char>)> {
    let ids = if with_ids {
        seq![("malId"@, decimal_repr(m.mal_id as nat)), ("anilistId"@, decimal_repr(m.anilist_id as nat))]
    } else {
        Seq::empty()
    };
    ids + seq![
        ("englishTitle"@, m.english_title@),
        ("nativeTitle"@, m.native_title@),
        ("romajiTitle"@, m.romaji_title@),
        ("malUrl"@, m.mal_url@),
        ("anilistUrl"@, m.anilist_url@),
        ("description"@, m.description@),
        ("startDate"@, m.start_date@),
        ("endDate"@, m.end_date@),
        ("color"@, m.color@),
    ]
}

/// The files of a manga's form: the three covers, then the banner if any.
pub open spec fn manga_files(images: ResolvedImages) -> Seq<(Seq<char>, Seq<char>)> {
    let covers = seq![
        ("coverMedium"@, images.cover_medium@),
        ("coverLarge"@, images.cover_large@),
        ("coverExtraLarge"@, images.cover_extra_large@),
    ];
    match images.banner {
        Some(b) => covers.push(("banner"@, b@)),
        None => covers,
    }
}

/// The multipart body that creates (`with_ids`) or updates a manga record.
pub fn manga_form(metadata: &MangaMetadata, with_ids: bool) -> (r: UploadForm)
    ensures
        pair_views(r.texts@) == manga_texts(*metadata, with_ids),
        pair_views(r.files@) == manga_files(metadata.images),
{
    let mut texts: Vec<(String, String)> = Vec::new();
    if with_ids {
        texts.push((String::from_str("malId"), decimal_string(metadata.mal_id)));
        texts.push((String::from_str("anilistId"), decimal_string(metadata.anilist_id)));
    }
    texts.push((String::from_str("englishTitle"), metadata.english_title.clone()));
    texts.push((String::from_str("nativeTitle"), metadata.native_title.clone()));
    texts.push((String::from_str("romajiTitle"), metadata.romaji_title.clone()));
    texts.push((String::from_str("malUrl"), metadata.mal_url.clone()));
    texts.push((String::from_str("anilistUrl"), metadata.anilist_url.clone()));
    texts.push((String::from_str("description"), metadata.description.clone()));
    texts.push((String::from_str("startDate"), metadata.start_date.clone()));
    texts.push((String::from_str("endDate"), metadata.end_date.clone()));
    texts.push((String::from_str("color"), metadata.color.clone()));
    assert(pair_views(texts@) =~= manga_texts(*metadata, with_ids));
    let images = &metadata.images;
    let mut files: Vec<(String, String)> = Vec::new();
    files.push((String::from_str("coverMedium"), images.cover_medium.clone()));
    files.push((String::from_str("coverLarge"), images.cover_large.clone()));
    files.push((String::from_str("coverExtraLarge"), images.cover_extra_large.clone()));
    match &images.banner {
        Some(b) => files.push((String::from_str("banner"), b.clone())),
        None => {},
    }
    assert(pair_views(files@) =~= manga_files(metadata.images));
    UploadForm { texts, files }
}

/// A manga directory takes part in a run when no single manga was asked for,
/// or when it is the one asked for.
pub fn manga_selected(dir_name: &str, only: &Option<String>) -> (r: bool)
    ensures
        r == match only {
            None => true,
            Some(name) => name@ == dir_name@,
        },
{
    match only {
        None => true,
        Some(name) => *name == String::from_str(dir_name),
    }
}

/// The manga collection of the record store at `endpoint`.
pub open spec fn mangas_url(endpoint: Seq<char>) -> Seq<char> {
    endpoint + "/api/collections/mangas/records"@
}

/// The search for the record of the manga with MyAnimeList id `mal_id`.
pub open spec fn manga_lookup_url(endpoint: Seq<char>, mal_id: nat) -> Seq<char> {
    mangas_url(endpoint) + "?filter="@ + percent_encode(
        encode_utf8("(malId='"@ + decimal_repr(mal_id) + "')"@),
    )
}

fn mangas_collection(endpoint: &str) -> (r: String)
    ensures
        r@ == mangas_url(endpoint@),
{
    let mut r = String::from_str(endpoint);
    r.append("/api/collections/mangas/records");
    r
}

/// The address that searches for a manga record by MyAnimeList id.
pub fn manga_lookup(endpoint: &str, mal_id: usize) -> (r: String)
    ensures
        r@ == manga_lookup_url(endpoint@, mal_id as nat),
{
    let mut filter = String::from_str("(malId='");
    let number = decimal_string(mal_id);
    filter.append(number.as_str());
    filter.append("')");
    let encoded = url_encode(filter.as_str());
    let mut r = mangas_collection(endpoint);
    r.append("?filter=");
    r.append(encoded.as_str());
    r
}

/// The address of the manga collection, where new records are created.
pub fn manga_collection(endpoint: &str) -> (r: String)
    ensures
        r@ == mangas_url(endpoint@),
{
    mangas_collection(endpoint)
}

/// The address of one manga record.
pub fn manga_record(endpoint: &str, id: &str) -> (r: String)
    ensures
        r@ == mangas_url(endpoint@) + seq!['/'] + id@,
{
    proof {
        reveal_strlit("/");
    }
    let mut r = mangas_collection(endpoint);
    r.append("/");
    r.append(id);
    r
}

/// Picks the manga record out of a lookup answer: more than one match is an
/// error, as is none.
pub fn resolve_manga(items: Vec<Manga>, total_items: usize) -> (r: Result<Manga, LookupError>)
    ensures
        total_items > 1 ==> r == Err::<Manga, LookupError>(LookupError::WrongItemCount),
        total_items <= 1 && items.len() == 0 ==> r == Err::<Manga, LookupError>(
            LookupError::NoRecord,
        ),
        total_items <= 1 && items.len() > 0 ==> r == Ok::<Manga, LookupError>(items@[0]),
{
    if total_items > 1 {
        return Err(LookupError::WrongItemCount);
    }
    let mut items = items;
    if items.len() == 0 {
        return Err(LookupError::NoRecord);
    }
    Ok(items.swap_remove(0))
}

} // verus!
