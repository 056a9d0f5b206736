//! Reconciliation and upload planning for a manga record store.
//!
//! The library scans a local chapter inventory, follows the record store's
//! paginated chapter listing, plans which chapters to create or update, and
//! hands the planned jobs to workers through a drain-only work queue.

pub mod dispatch;
pub mod download;
pub mod fetch;
pub mod manga;
pub mod model;
pub mod reconcile;
pub mod request;
pub mod scan;
pub mod text;

pub use dispatch::{worker_count, Job, JobStatus, Progress, RunReport, WorkQueue};
pub use download::{download_jobs, image_extension, ChapterEntry, DownloadJob};
pub use fetch::{ChapterFetch, FetchError};
pub use manga::{
    manga_collection, manga_form, manga_lookup, manga_record, manga_selected, metadata_from_anilist,
    resolve_manga,
    LookupError, MangaMetadata, Metadata, MetadataCoverImage, MetadataDate, MetadataTitle,
    ResolvedImages,
};
pub use model::{Chapter, ChapterMetadata, ChapterPage, Manga, ServerKind};
pub use reconcile::{reconcile, Action, PlanEntry, ReconciliationPlan};
pub use request::{
    chapter_listing, chapter_requests, create_form_from_metadata, ChapterRequest, JobRun, UploadForm,
};
pub use scan::{
    get_chapter_index, get_manga_chapters, get_sorted_pages, page_number, parse_chapter_dir_name,
    ChapterDirName, DirEntry, ScanError,
};
pub use text::{decimal_string, parse_decimal};
