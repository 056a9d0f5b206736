//! The records that the engine reads and produces.
use vstd::prelude::*;

verus! {

/// A chapter found on local disk.
///
/// `pages` holds the page file names inside `source_path`, in reading order.
#[derive(Debug, PartialEq, Eq)]
pub struct ChapterMetadata {
    pub index: usize,
    pub name: String,
    pub source_path: String,
    pub pages: Vec<String>,
}

impl ChapterMetadata {
    pub fn new(index: usize, name: String, source_path: String, pages: Vec<String>) -> (r: Self)
        ensures
            r.index == index,
            r.name == name,
            r.source_path == source_path,
            r.pages == pages,
    {
        ChapterMetadata { index, name, source_path, pages }
    }
}

/// A chapter record as the record store holds it.
#[derive(Debug, PartialEq, Eq)]
pub struct Chapter {
    pub id: String,
    pub idx: usize,
    pub name: String,
    pub manga: String,
    pub pages: Vec<String>,
    pub created: String,
    pub updated: String,
    pub collection_id: String,
    pub collection_name: String,
}

/// A manga record as the record store holds it.
#[derive(Debug, PartialEq, Eq)]
pub struct Manga {
    pub id: String,
    pub mal_id: usize,
    pub anilist_id: usize,
    pub english_title: String,
    pub native_title: String,
    pub romaji_title: String,
    pub mal_url: String,
    pub anilist_url: String,
    pub description: String,
    pub banner: String,
    pub cover_medium: String,
    pub cover_large: String,
    pub cover_extra_large: String,
    pub created: String,
    pub updated: String,
    pub collection_id: String,
    pub collection_name: String,
}

/// The record-store operation that a request performs.
#[derive(Clone, Copy, Debug, PartialEq, Eq)]
pub enum ServerKind {
    GetManga,
    UpdateManga,
    CreateManga,
    GetChapterPage,
    AddChapter,
    UpdateChapter,
}

/// One page of the record store's chapter listing.
#[derive(Debug, PartialEq, Eq)]
pub struct ChapterPage {
    pub items: Vec<Chapter>,
    pub page: usize,
    pub total_items: usize,
    pub total_pages: usize,
}

} // verus!
