//! The record-store requests that carry out one job.
//!
//! A create is one multipart request. An update first clears the record's
//! page list and then attaches the new pages, because the store adds
//! multipart files to what a record already holds.
use vstd::prelude::*;
use vstd::string::StringSliceAdditionalSpecFns;
use vstd::utf8::encode_utf8;

use crate::model::{ChapterMetadata, ServerKind};
use crate::reconcile::{Action, PlanEntry};
use crate::scan::path_join;
use crate::text::{decimal_repr, decimal_string};

verus! {

/// A byte that percent-encoding leaves as it is.
pub open spec fn is_unreserved(b: u8) -> bool {
    ||| 48 <= b <= 57
    ||| 65 <= b <= 90
    ||| 97 <= b <= 122
    ||| b == 45
    ||| b == 46
    ||| b == 95
    ||| b == 126
}

/// An upper-case hex digit for `d < 16`.
pub open spec fn hex_digit(d: u8) -> char {
    if d < 10 {
        (48 + d) as char
    } else {
        (55 + d) as char
    }
}

/// Percent-encoding of a byte string.
pub open spec fn percent_encode(bytes: Seq<u8>) -> Seq<char>
    decreases bytes.len(),
{
    if bytes.len() == 0 {
        Seq::empty()
    } else {
        let b = bytes[0];
        let head = if is_unreserved(b) {
            seq![b as char]
        } else {
            seq!['%', hex_digit(b / 16), hex_digit(b % 16)]
        };
        head + percent_encode(bytes.drop_first())
    }
}

/// Relies on urlencoding::encode: it percent-encodes every byte of the
/// UTF-8 text except ASCII letters, digits and `-`, `.`, `_`, `~`, with
/// upper-case hex digits.
#[verifier::external_body]
pub(crate) fn url_encode(s: &str) -> (r: String)
    ensures
        r@ == percent_encode(s.spec_bytes()),
{
    urlencoding::encode(s).into_owned()
}

/// The chapters collection of the record store at `endpoint`.
pub open spec fn chapters_url(endpoint: Seq<char>) -> Seq<char> {
    endpoint + "/api/collections/chapters/records"@
}

/// One chapter record.
pub open spec fn chapter_record_url(endpoint: Seq<char>, id: Seq<char>) -> Seq<char> {
    chapters_url(endpoint) + seq!['/'] + id
}

/// One page of the chapters of manga `manga_id`, by ascending index.
pub open spec fn chapter_listing_url(endpoint: Seq<char>, manga_id: Seq<char>, page: nat) -> Seq<
    char,
> {
    chapters_url(endpoint) + "?page="@ + decimal_repr(page) + "&perPage=999&sort=idx&filter="@
        + percent_encode(encode_utf8("(manga='"@ + manga_id + "')"@))
}

/// A multipart body: text fields and files to attach, each as
/// `(field name, value or path)`, in order.
#[derive(Debug, PartialEq, Eq)]
pub struct UploadForm {
    pub texts: Vec<(String, String)>,
    pub files: Vec<(String, String)>,
}

/// One request of a job.
#[derive(Debug, PartialEq, Eq)]
pub enum ChapterRequest {
    Create { url: String, form: UploadForm },
    ClearPages { url: String },
    Update { url: String, form: UploadForm },
}

impl ChapterRequest {
    /// The record-store operation this request performs, for reporting.
    pub fn kind(&self) -> (r: ServerKind)
        ensures
            self is Create ==> r is AddChapter,
            !(self is Create) ==> r is UpdateChapter,
    {
        match self {
            ChapterRequest::Create { .. } => ServerKind::AddChapter,
            _ => ServerKind::UpdateChapter,
        }
    }
}

/// One job being carried out: its requests go out in order, and the job
/// stops at the first one that fails.
pub struct JobRun {
    requests: Vec<ChapterRequest>,
    sent: usize,
    failed: bool,
}

/// A job run: its requests, how many went through, and whether one failed.
pub struct JobRunView {
    pub requests: Seq<ChapterRequest>,
    pub sent: nat,
    pub failed: bool,
}

impl View for JobRun {
    type V = JobRunView;

    closed spec fn view(&self) -> JobRunView {
        JobRunView { requests: self.requests@, sent: self.sent as nat, failed: self.failed }
    }
}

/// The run still has a request to send.
pub open spec fn run_pending(v: JobRunView) -> bool {
    !v.failed && v.sent < v.requests.len()
}

impl JobRun {
    /// A run over `requests`, none sent yet.
    pub fn new(requests: Vec<ChapterRequest>) -> (r: Self)
        ensures
            r@ == (JobRunView { requests: requests@, sent: 0, failed: false }),
    {
        JobRun { requests, sent: 0, failed: false }
    }

    /// The request to send next, if the run goes on.
    pub fn next_request(&self) -> (r: Option<&ChapterRequest>)
        ensures
            run_pending(self@) ==> r is Some && *r->0 == self@.requests[self@.sent as int],
            !run_pending(self@) ==> r is None,
    {
        if !self.failed && self.sent < self.requests.len() {
            Some(&self.requests[self.sent])
        } else {
            None
        }
    }

    /// Takes in whether the request just sent went through.
    pub fn on_response(&mut self, ok: bool)
        requires
            run_pending(old(self)@),
        ensures
            final(self)@ == (JobRunView {
                requests: old(self)@.requests,
                sent: if ok {
                    old(self)@.sent + 1
                } else {
                    old(self)@.sent
                },
                failed: !ok,
            }),
    {
        let n = self.requests.len();
        if ok {
            assert(self.sent < n);
            self.sent = self.sent + 1;
        } else {
            self.failed = true;
        }
    }

    /// The job succeeded: every request went through.
    pub fn succeeded(&self) -> (r: bool)
        ensures
            r == (!self@.failed && self@.sent == self@.requests.len()),
    {
        !self.failed && self.sent == self.requests.len()
    }
}

pub open spec fn pair_views(s: Seq<(String, String)>) -> Seq<(Seq<char>, Seq<char>)> {
    s.map_values(|p: (String, String)| (p.0@, p.1@))
}

/// The text fields of a chapter's form: index, name and parent manga.
pub open spec fn chapter_texts(c: ChapterMetadata, manga_id: Seq<char>) -> Seq<(Seq<char>, Seq<char>)> {
    seq![
        ("idx"@, decimal_repr(c.index as nat)),
        ("name"@, c.name@),
        ("manga"@, manga_id),
    ]
}

/// The files of a chapter's form: the first page as cover, then every page
/// in order.
pub open spec fn chapter_files(c: ChapterMetadata) -> Seq<(Seq<char>, Seq<char>)> {
    seq![("cover"@, path_join(c.source_path@, c.pages@[0]@))] + Seq::new(
        c.pages@.len(),
        |k: int| ("pages"@, path_join(c.source_path@, c.pages@[k]@)),
    )
}

/// `form` is the multipart body for chapter `c` of manga `manga_id`.
pub open spec fn is_chapter_form(form: UploadForm, c: ChapterMetadata, manga_id: Seq<char>) -> bool {
    &&& pair_views(form.texts@) == chapter_texts(c, manga_id)
    &&& pair_views(form.files@) == chapter_files(c)
}

fn path_in(dir: &String, name: &String) -> (r: String)
    ensures
        r@ == path_join(dir@, name@),
{
    proof {
        reveal_strlit("/");
    }
    let mut r = dir.clone();
    r.append("/");
    r.append(name.as_str());
    r
}

/// The multipart body that creates or updates a chapter: its index, name and
/// parent manga, its first page as cover, and all its pages in reading order.
pub fn create_form_from_metadata(chapter: &ChapterMetadata, manga_id: &str) -> (r: UploadForm)
    requires
        chapter.pages.len() > 0,
    ensures
        is_chapter_form(r, *chapter, manga_id@),
{
    let mut texts: Vec<(String, String)> = Vec::new();
    texts.push((String::from_str("idx"), decimal_string(chapter.index)));
    texts.push((String::from_str("name"), chapter.name.clone()));
    texts.push((String::from_str("manga"), String::from_str(manga_id)));
    assert(pair_views(texts@) =~= chapter_texts(*chapter, manga_id@));
    let mut files: Vec<(String, String)> = Vec::new();
    files.push((String::from_str("cover"), path_in(&chapter.source_path, &chapter.pages[0])));
    let mut k: usize = 0;
    while k < chapter.pages.len()
        invariant
            k <= chapter.pages@.len(),
            files@.len() == k + 1,
            pair_views(files@) =~= chapter_files(*chapter).subrange(0, k + 1),
        decreases chapter.pages@.len() - k,
    {
        files.push((String::from_str("pages"), path_in(&chapter.source_path, &chapter.pages[k])));
        k = k + 1;
    }
    assert(chapter_files(*chapter).subrange(0, k + 1) =~= chapter_files(*chapter));
    UploadForm { texts, files }
}

fn chapters_collection(endpoint: &str) -> (r: String)
    ensures
        r@ == chapters_url(endpoint@),
{
    let mut r = String::from_str(endpoint);
    r.append("/api/collections/chapters/records");
    r
}

fn chapter_record(endpoint: &str, id: &String) -> (r: String)
    ensures
        r@ == chapter_record_url(endpoint@, id@),
{
    proof {
        reveal_strlit("/");
    }
    let mut r = chapters_collection(endpoint);
    r.append("/");
    r.append(id.as_str());
    r
}

/// The address of page `page` of the chapter listing of manga `manga_id`.
pub fn chapter_listing(endpoint: &str, manga_id: &str, page: usize) -> (r: String)
    ensures
        r@ == chapter_listing_url(endpoint@, manga_id@, page as nat),
{
    let mut filter = String::from_str("(manga='");
    filter.append(manga_id);
    filter.append("')");
    let encoded = url_encode(filter.as_str());
    let mut r = chapters_collection(endpoint);
    r.append("?page=");
    let number = decimal_string(page);
    r.append(number.as_str());
    r.append("&perPage=999&sort=idx&filter=");
    r.append(encoded.as_str());
    r
}

/// The requests of one job, to be sent in order, stopping at the first
/// failure: a create, or a clear of the old pages followed by an update of
/// the remote record.
pub fn chapter_requests(entry: &PlanEntry, endpoint: &str, manga_id: &str) -> (r: Vec<
    ChapterRequest,
>)
    requires
        entry.chapter.pages.len() > 0,
    ensures
        match entry.action {
            Action::Create => r@.len() == 1 && match r@[0] {
                ChapterRequest::Create { url, form } => url@ == chapters_url(endpoint@)
                    && is_chapter_form(form, entry.chapter, manga_id@),
                _ => false,
            },
            Action::Update { remote_id } => r@.len() == 2 && match (r@[0], r@[1]) {
                (ChapterRequest::ClearPages { url: clear }, ChapterRequest::Update { url, form }) => {
                    &&& clear@ == chapter_record_url(endpoint@, remote_id@)
                    &&& url@ == chapter_record_url(endpoint@, remote_id@)
                    &&& is_chapter_form(form, entry.chapter, manga_id@)
                },
                _ => false,
            },
        },
{
    let form = create_form_from_metadata(&entry.chapter, manga_id);
    let mut r: Vec<ChapterRequest> = Vec::new();
    match &entry.action {
        Action::Create => {
            r.push(ChapterRequest::Create { url: chapters_collection(endpoint), form });
        },
        Action::Update { remote_id } => {
            r.push(ChapterRequest::ClearPages { url: chapter_record(endpoint, remote_id) });
            r.push(ChapterRequest::Update { url: chapter_record(endpoint, remote_id), form });
        },
    }
    r
}

} // verus!
