//! The local inventory: chapter directories and their page files.
use vstd::prelude::*;

use crate::model::ChapterMetadata;
use crate::text::{decimal_repr, decimal_value, digit_char, digit_value, is_decimal, is_digit, parse_decimal};

verus! {

/// `k` is where the run of leading digits of `s` ends.
pub open spec fn is_digit_run_end(s: Seq<char>, k: int) -> bool {
    &&& 0 <= k <= s.len()
    &&& forall|i: int| 0 <= i < k ==> is_digit(#[trigger] s[i])
    &&& k < s.len() ==> !is_digit(s[k])
}

/// The length of the run of leading digits of `s`.
pub open spec fn digit_run(s: Seq<char>) -> int {
    choose|k: int| is_digit_run_end(s, k)
}

/// `k` is where the run of leading spaces of `s` ends.
pub open spec fn is_space_run_end(s: Seq<char>, k: int) -> bool {
    &&& 0 <= k <= s.len()
    &&& forall|i: int| 0 <= i < k ==> #[trigger] s[i] == ' '
    &&& k < s.len() ==> s[k] != ' '
}

/// `s` without its leading spaces.
pub open spec fn trim_leading_spaces(s: Seq<char>) -> Seq<char> {
    s.subrange(choose|k: int| is_space_run_end(s, k), s.len() as int)
}

/// A directory entry whose name starts with a digit is meant as a chapter.
pub open spec fn names_chapter(s: Seq<char>) -> bool {
    s.len() > 0 && is_digit(s[0])
}

/// `d` ends the stem of file name `s`: the name up to its last dot, or the
/// whole name when no dot follows its first character.
pub open spec fn is_stem_end(s: Seq<char>, d: int) -> bool {
    ||| (0 < d < s.len() && s[d] == '.' && forall|j: int| d < j < s.len() ==> #[trigger] s[j] != '.')
    ||| (d == s.len() && forall|j: int| 0 < j < s.len() ==> #[trigger] s[j] != '.')
}

/// The stem of a file name, the part that names a chapter: `7.zip` gives `7`.
pub open spec fn file_stem(s: Seq<char>) -> Seq<char> {
    s.subrange(0, choose|d: int| is_stem_end(s, d))
}

/// A chapter stem: an index, alone or followed by `:` and a title.
pub open spec fn is_chapter_stem(t: Seq<char>) -> bool {
    let k = digit_run(t);
    &&& names_chapter(t)
    &&& (k == t.len() || t[k] == ':')
    &&& decimal_value(t.subrange(0, k)) <= usize::MAX
}

/// The index that a chapter stem carries.
pub open spec fn stem_index(t: Seq<char>) -> nat {
    decimal_value(t.subrange(0, digit_run(t)))
}

/// The display name of a chapter stem: "Chapter " and the title after the
/// colon, or the stem itself when it has no title.
pub open spec fn stem_title(t: Seq<char>) -> Seq<char> {
    let k = digit_run(t);
    if k == t.len() {
        "Chapter "@ + t
    } else {
        "Chapter "@ + trim_leading_spaces(t.subrange(k + 1, t.len() as int))
    }
}

/// A chapter directory name: its stem is a chapter stem.
pub open spec fn is_chapter_name(s: Seq<char>) -> bool {
    names_chapter(s) && is_chapter_stem(file_stem(s))
}

/// The chapter index that a chapter directory name carries in its stem.
pub open spec fn chapter_index_of(s: Seq<char>) -> nat {
    stem_index(file_stem(s))
}

/// The display name of the chapter that a directory name gives.
pub open spec fn chapter_title(s: Seq<char>) -> Seq<char> {
    stem_title(file_stem(s))
}

/// A page file name: a page number, a dot, and an extension.
pub open spec fn is_page_name(s: Seq<char>) -> bool {
    let k = digit_run(s);
    &&& 0 < k < s.len()
    &&& s[k] == '.'
    &&& decimal_value(s.subrange(0, k)) <= usize::MAX
}

/// The page number that orders a page file.
pub open spec fn page_key(s: Seq<char>) -> nat {
    decimal_value(s.subrange(0, digit_run(s)))
}

/// Page files in ascending page-number order.
pub open spec fn pages_ascending(p: Seq<String>) -> bool {
    forall|a: int, b: int| 0 <= a < b < p.len() ==> page_key(p[a]@) <= page_key(p[b]@)
}

/// A path below `root`.
pub open spec fn path_join(root: Seq<char>, name: Seq<char>) -> Seq<char> {
    root + seq!['/'] + name
}

/// One entry of the chapters directory, with the file names inside it when
/// it is a directory.
#[derive(Debug, PartialEq, Eq)]
pub struct DirEntry {
    pub name: String,
    pub is_dir: bool,
    pub files: Vec<String>,
}

/// The entry is a directory meant as a chapter.
pub open spec fn is_chapter_entry(e: DirEntry) -> bool {
    e.is_dir && names_chapter(e.name@)
}

/// A chapter entry that cannot be read as a chapter.
pub open spec fn is_defective(e: DirEntry) -> bool {
    &&& is_chapter_entry(e)
    &&& {
        ||| !is_chapter_name(e.name@)
        ||| e.files.len() == 0
        ||| exists|j: int| 0 <= j < e.files.len() && !is_page_name(#[trigger] e.files@[j]@)
    }
}

/// Two well-named chapter entries carry one index.
pub open spec fn is_duplicate_pair(es: Seq<DirEntry>, a: int, b: int) -> bool {
    &&& 0 <= a < es.len()
    &&& 0 <= b < es.len()
    &&& a != b
    &&& is_chapter_entry(es[a])
    &&& is_chapter_entry(es[b])
    &&& is_chapter_name(es[a].name@)
    &&& is_chapter_name(es[b].name@)
    &&& chapter_index_of(es[a].name@) == chapter_index_of(es[b].name@)
}

/// The listing can drive an upload: every chapter entry reads cleanly and no
/// index occurs twice.
pub open spec fn inventory_ok(es: Seq<DirEntry>) -> bool {
    &&& forall|i: int| 0 <= i < es.len() ==> !is_defective(#[trigger] es[i])
    &&& !exists|a: int, b: int| is_duplicate_pair(es, a, b)
}

/// `c` is the chapter that entry `e` below `root` describes.
pub open spec fn chapter_from_entry(root: Seq<char>, e: DirEntry, c: ChapterMetadata) -> bool {
    &&& c.index == chapter_index_of(e.name@)
    &&& c.name@ == chapter_title(e.name@)
    &&& c.source_path@ == path_join(root, e.name@)
    &&& c.pages@.to_multiset() == e.files@.to_multiset()
    &&& pages_ascending(c.pages@)
}

/// `chs` is the inventory that listing `es` below `root` describes: each
/// chapter comes from a chapter entry, each chapter entry gave a chapter, and
/// the chapters ascend strictly by index.
pub open spec fn is_scan_of(root: Seq<char>, es: Seq<DirEntry>, chs: Seq<ChapterMetadata>) -> bool {
    &&& forall|k: int|
        #![trigger chs[k]]
        0 <= k < chs.len() ==> exists|i: int|
            #![trigger es[i]]
            0 <= i < es.len() && is_chapter_entry(es[i]) && chapter_from_entry(root, es[i], chs[k])
    &&& forall|i: int|
        0 <= i < es.len() && #[trigger] is_chapter_entry(es[i]) ==> exists|k: int|
            0 <= k < chs.len() && chs[k].index == chapter_index_of(es[i].name@)
    &&& forall|a: int, b: int| 0 <= a < b < chs.len() ==> chs[a].index < chs[b].index
}

/// What a scan error points at in the listing.
pub open spec fn error_evidence(es: Seq<DirEntry>, e: ScanError) -> bool {
    match e {
        ScanError::DirectoryMissing => false,
        ScanError::MalformedChapterName(n) => exists|i: int|
            0 <= i < es.len() && is_chapter_entry(es[i]) && !is_chapter_name(n@) && (
            #[trigger] es[i]).name == n,
        ScanError::MalformedPageName(f) => exists|i: int, j: int|
            0 <= i < es.len() && is_chapter_entry(es[i]) && is_chapter_name(es[i].name@) && 0 <= j
                < es[i].files.len() && !is_page_name(f@) && (#[trigger] es[i].files@[j]) == f,
        ScanError::EmptyChapter(index) => exists|i: int|
            0 <= i < es.len() && is_chapter_entry(#[trigger] es[i]) && is_chapter_name(es[i].name@)
                && es[i].files.len() == 0 && index == chapter_index_of(es[i].name@),
        ScanError::DuplicateChapterIndex(index) => exists|a: int, b: int|
            is_duplicate_pair(es, a, b) && index == chapter_index_of(es[a].name@),
    }
}

/// What a directory name says about the chapter it may hold.
#[derive(Debug, PartialEq, Eq)]
pub enum ChapterDirName {
    NotChapter,
    Malformed,
    Chapter { index: usize, name: String },
}

/// Why a scan of the local inventory failed.
#[derive(Debug, PartialEq, Eq)]
pub enum ScanError {
    DirectoryMissing,
    MalformedChapterName(String),
    MalformedPageName(String),
    EmptyChapter(usize),
    DuplicateChapterIndex(usize),
}

fn digit_run_end(s: &str) -> (k: usize)
    ensures
        is_digit_run_end(s@, k as int),
        digit_run(s@) == k,
{
    let n = s.unicode_len();
    let mut k: usize = 0;
    while k < n
        invariant
            n == s@.len(),
            k <= n,
            forall|i: int| 0 <= i < k ==> is_digit(#[trigger] s@[i]),
        ensures
            is_digit_run_end(s@, k as int),
        decreases n - k,
    {
        let c = s.get_char(k);
        if !('0' <= c && c <= '9') {
            break;
        }
        k = k + 1;
    }
    k
}

fn space_run_end(s: &str) -> (k: usize)
    ensures
        is_space_run_end(s@, k as int),
{
    let n = s.unicode_len();
    let mut k: usize = 0;
    while k < n
        invariant
            n == s@.len(),
            k <= n,
            forall|i: int| 0 <= i < k ==> #[trigger] s@[i] == ' ',
        ensures
            is_space_run_end(s@, k as int),
        decreases n - k,
    {
        if s.get_char(k) != ' ' {
            break;
        }
        k = k + 1;
    }
    k
}

fn parse_chapter_stem(dir_name: &str) -> (r: ChapterDirName)
    ensures
        match r {
            ChapterDirName::NotChapter => !names_chapter(dir_name@),
            ChapterDirName::Malformed => names_chapter(dir_name@) && !is_chapter_stem(dir_name@),
            ChapterDirName::Chapter { index, name } => {
                &&& is_chapter_stem(dir_name@)
                &&& index == stem_index(dir_name@)
                &&& name@ == stem_title(dir_name@)
            },
        },
{
    let ghost s = dir_name@;
    let n = dir_name.unicode_len();
    let k = digit_run_end(dir_name);
    if k == 0 {
        return ChapterDirName::NotChapter;
    }
    if k < n && dir_name.get_char(k) != ':' {
        return ChapterDirName::Malformed;
    }
    let digits = dir_name.substring_char(0, k);
    match parse_decimal(digits) {
        None => ChapterDirName::Malformed,
        Some(index) => {
            let mut name = String::from_str("Chapter ");
            if k == n {
                name.append(dir_name);
            } else {
                let rest = dir_name.substring_char(k + 1, n);
                let t = space_run_end(rest);
                let m = rest.unicode_len();
                name.append(rest.substring_char(t, m));
                proof {
                    let kk = choose|j: int| is_space_run_end(rest@, j);
                    assert(is_space_run_end(rest@, kk));
                    if kk < t {
                        assert(rest@[kk] == ' ');
                    } else if kk > t {
                        assert(rest@[t as int] == ' ');
                    }
                    assert(trim_leading_spaces(rest@) == rest@.subrange(t as int, m as int));
                }
            }
            ChapterDirName::Chapter { index, name }
        },
    }
}

fn stem_end(s: &str) -> (d: usize)
    ensures
        is_stem_end(s@, d as int),
        file_stem(s@) == s@.subrange(0, d as int),
{
    let n = s.unicode_len();
    let mut i: usize = n;
    while i > 1
        invariant
            n == s@.len(),
            i <= n,
            forall|j: int| i <= j < n ==> #[trigger] s@[j] != '.',
        decreases i,
    {
        if s.get_char(i - 1) == '.' {
            proof {
                lemma_stem_end_unique(s@, (i - 1) as int);
            }
            return i - 1;
        }
        i = i - 1;
    }
    proof {
        lemma_stem_end_unique(s@, n as int);
    }
    n
}

proof fn lemma_stem_end_unique(s: Seq<char>, d: int)
    requires
        is_stem_end(s, d),
    ensures
        file_stem(s) == s.subrange(0, d),
{
    let e = choose|e: int| is_stem_end(s, e);
    assert(is_stem_end(s, e));
    if e < d {
        assert(s[d] != '.' || e == 0 || s[e] != '.' || d == s.len());
        if d < s.len() {
            assert(s[d] == '.');
        }
    } else if e > d {
        if e < s.len() {
            assert(s[e] == '.');
        }
    }
}

/// Reads a chapter directory name by its stem: `7`, `7.zip` and
/// `7: Title` name chapter 7.
pub fn parse_chapter_dir_name(dir_name: &str) -> (r: ChapterDirName)
    ensures
        match r {
            ChapterDirName::NotChapter => !names_chapter(dir_name@),
            ChapterDirName::Malformed => names_chapter(dir_name@) && !is_chapter_name(dir_name@),
            ChapterDirName::Chapter { index, name } => {
                &&& is_chapter_name(dir_name@)
                &&& index == chapter_index_of(dir_name@)
                &&& name@ == chapter_title(dir_name@)
            },
        },
{
    let d = stem_end(dir_name);
    let stem = dir_name.substring_char(0, d);
    proof {
        if dir_name@.len() > 0 {
            assert(d > 0);
            assert(stem@[0] == dir_name@[0]);
        }
    }
    parse_chapter_stem(stem)
}

/// The index that a chapter directory name carries, if it is one.
pub fn get_chapter_index(dir_name: &str) -> (r: Option<usize>)
    ensures
        r == (if is_chapter_name(dir_name@) {
            Some(chapter_index_of(dir_name@) as usize)
        } else {
            None
        }),
{
    match parse_chapter_dir_name(dir_name) {
        ChapterDirName::Chapter { index, name: _ } => Some(index),
        _ => None,
    }
}

/// The page number of a page file name, if it is one.
pub fn page_number(file_name: &str) -> (r: Option<usize>)
    ensures
        r == (if is_page_name(file_name@) {
            Some(page_key(file_name@) as usize)
        } else {
            None
        }),
{
    let n = file_name.unicode_len();
    let k = digit_run_end(file_name);
    if k == 0 || k == n {
        return None;
    }
    if file_name.get_char(k) != '.' {
        return None;
    }
    parse_decimal(file_name.substring_char(0, k))
}

/// Orders the page files of one chapter by page number.
///
/// Fails on the first file name that is not a page name; no page is dropped.
pub fn get_sorted_pages(files: &Vec<String>) -> (r: Result<Vec<String>, ScanError>)
    ensures
        r is Ok <==> forall|j: int| 0 <= j < files.len() ==> is_page_name(#[trigger] files@[j]@),
        match r {
            Ok(pages) => pages@.to_multiset() == files@.to_multiset() && pages_ascending(pages@),
            Err(e) => exists|j: int|
                0 <= j < files.len() && !is_page_name(files@[j]@) && e
                    == ScanError::MalformedPageName(#[trigger] files@[j]),
        },
{
    let mut out: Vec<String> = Vec::new();
    let mut keys: Vec<usize> = Vec::new();
    let mut i: usize = 0;
    assert(files@.subrange(0, 0) =~= out@);
    while i < files.len()
        invariant
            i <= files.len(),
            out.len() == keys.len(),
            forall|j: int| 0 <= j < out.len() ==> keys@[j] == page_key(#[trigger] out@[j]@),
            forall|a: int, b: int| 0 <= a < b < keys.len() ==> keys@[a] <= keys@[b],
            out@.to_multiset() == files@.subrange(0, i as int).to_multiset(),
            forall|j: int| 0 <= j < i ==> is_page_name(#[trigger] files@[j]@),
        decreases files.len() - i,
    {
        let f = &files[i];
        match page_number(f.as_str()) {
            None => {
                return Err(ScanError::MalformedPageName(f.clone()));
            },
            Some(key) => {
                let mut p: usize = 0;
                while p < keys.len() && keys[p] <= key
                    invariant
                        p <= keys.len(),
                        forall|j: int| 0 <= j < p ==> keys@[j] <= key,
                    decreases keys.len() - p,
                {
                    p = p + 1;
                }
                let ghost old_out = out@;
                keys.insert(p, key);
                out.insert(p, f.clone());
                proof {
                    assert(files@.subrange(0, i + 1) =~= files@.subrange(0, i as int).push(files@[i as int]));
                    vstd::seq_lib::to_multiset_insert(old_out, p as int, files@[i as int]);
                    vstd::seq_lib::to_multiset_build(files@.subrange(0, i as int), files@[i as int]);
                }
                i = i + 1;
            },
        }
    }
    proof {
        assert(files@.subrange(0, i as int) =~= files@);
    }
    Ok(out)
}

fn join_path(root: &str, name: &str) -> (r: String)
    ensures
        r@ == path_join(root@, name@),
{
    proof {
        reveal_strlit("/");
    }
    let mut r = String::from_str(root);
    r.append("/");
    r.append(name);
    r
}

/// Scans the chapters directory of one manga.
///
/// `listing` is `None` when the directory is missing. Entries that are not
/// directories, or whose names do not start with a digit, are skipped. Any
/// other defect fails the whole scan. The chapters come out in ascending
/// index order, each with its pages in page-number order.
pub fn get_manga_chapters(root: &str, listing: Option<Vec<DirEntry>>) -> (r: Result<
    Vec<ChapterMetadata>,
    ScanError,
>)
    ensures
        r is Ok <==> (listing is Some && inventory_ok(listing->0@)),
        match r {
            Ok(chs) => is_scan_of(root@, listing->0@, chs@),
            Err(e) => match listing {
                None => e is DirectoryMissing,
                Some(es) => error_evidence(es@, e),
            },
        },
{
    match listing {
        None => Err(ScanError::DirectoryMissing),
        Some(es) => scan_listing(root, &es),
    }
}

fn scan_listing(root: &str, es: &Vec<DirEntry>) -> (r: Result<Vec<ChapterMetadata>, ScanError>)
    ensures
        r is Ok <==> inventory_ok(es@),
        match r {
            Ok(chs) => is_scan_of(root@, es@, chs@),
            Err(e) => error_evidence(es@, e),
        },
{
    let mut found: Vec<ChapterMetadata> = Vec::new();
    let ghost mut src: Seq<int> = Seq::empty();
    let mut i: usize = 0;
    while i < es.len()
        invariant
            i <= es.len(),
            src.len() == found.len(),
            forall|k: int|
                0 <= k < found.len() ==> {
                    &&& 0 <= #[trigger] src[k] < i
                    &&& is_chapter_entry(es@[src[k]])
                    &&& is_chapter_name(es@[src[k]].name@)
                    &&& chapter_from_entry(root@, es@[src[k]], found@[k])
                },
            forall|a: int, b: int| 0 <= a < b < found.len() ==> src[a] < src[b],
            forall|j: int|
                0 <= j < i && #[trigger] is_chapter_entry(es@[j]) ==> exists|k: int|
                    0 <= k < src.len() && src[k] == j,
            forall|j: int| 0 <= j < i ==> !is_defective(#[trigger] es@[j]),
        decreases es.len() - i,
    {
        let e = &es[i];
        if e.is_dir {
            match parse_chapter_dir_name(e.name.as_str()) {
                ChapterDirName::NotChapter => {},
                ChapterDirName::Malformed => {
                    assert(is_defective(es@[i as int]));
                    assert(error_evidence(es@, ScanError::MalformedChapterName(e.name)));
                    return Err(ScanError::MalformedChapterName(e.name.clone()));
                },
                ChapterDirName::Chapter { index, name } => {
                    let pages = match get_sorted_pages(&e.files) {
                        Ok(pages) => pages,
                        Err(err) => {
                            proof {
                                let j = choose|j: int|
                                    0 <= j < e.files.len() && !is_page_name(e.files@[j]@) && err
                                        == ScanError::MalformedPageName(#[trigger] e.files@[j]);
                                assert(es@[i as int].files@[j] == e.files@[j]);
                                assert(is_defective(es@[i as int]));
                            }
                            return Err(err);
                        },
                    };
                    proof {
                        vstd::seq_lib::to_multiset_len(pages@);
                        vstd::seq_lib::to_multiset_len(e.files@);
                    }
                    if pages.len() == 0 {
                        assert(error_evidence(es@, ScanError::EmptyChapter(index)));
                        assert(is_defective(es@[i as int]));
                        return Err(ScanError::EmptyChapter(index));
                    }
                    let source_path = join_path(root, e.name.as_str());
                    let c = ChapterMetadata::new(index, name, source_path, pages);
                    let ghost old_src = src;
                    found.push(c);
                    proof {
                        src = src.push(i as int);
                        assert forall|j: int|
                            0 <= j < i && #[trigger] is_chapter_entry(es@[j]) implies exists|k: int|
                            0 <= k < src.len() && src[k] == j by {
                            let k = choose|k: int| 0 <= k < old_src.len() && old_src[k] == j;
                            assert(src[k] == j);
                        }
                    }
                },
            }
        }
        proof {
            assert forall|j: int|
                0 <= j < i + 1 && #[trigger] is_chapter_entry(es@[j]) implies exists|k: int|
                0 <= k < src.len() && src[k] == j by {
                if j == i {
                    assert(src[src.len() - 1] == j);
                }
            }
        }
        i = i + 1;
    }
    proof {
        assert forall|j: int| 0 <= j < es.len() implies !is_defective(#[trigger] es@[j]) by {
        }
    }
    sort_chapters(root, es, found, Ghost(src))
}

/// Sorts the chapters found by a scan by index and rejects a repeated index.
fn sort_chapters(
    root: &str,
    es: &Vec<DirEntry>,
    found: Vec<ChapterMetadata>,
    src: Ghost<Seq<int>>,
) -> (r: Result<Vec<ChapterMetadata>, ScanError>)
    requires
        src@.len() == found.len(),
        forall|k: int|
            0 <= k < found.len() ==> {
                &&& 0 <= #[trigger] src@[k] < es.len()
                &&& is_chapter_entry(es@[src@[k]])
                &&& is_chapter_name(es@[src@[k]].name@)
                &&& chapter_from_entry(root@, es@[src@[k]], found@[k])
            },
        forall|a: int, b: int| 0 <= a < b < found.len() ==> src@[a] < src@[b],
        forall|j: int|
            0 <= j < es.len() && #[trigger] is_chapter_entry(es@[j]) ==> exists|k: int|
                0 <= k < src@.len() && src@[k] == j,
        forall|j: int| 0 <= j < es.len() ==> !is_defective(#[trigger] es@[j]),
    ensures
        r is Ok <==> inventory_ok(es@),
        match r {
            Ok(chs) => is_scan_of(root@, es@, chs@),
            Err(e) => error_evidence(es@, e),
        },
{
    let ghost all = found@;
    let ghost n = found.len() as int;
    let mut rest = found;
    let mut chs: Vec<ChapterMetadata> = Vec::new();
    assert(all.subrange(n, n) =~= chs@);
    while rest.len() > 0
        invariant
            rest@ == all.subrange(0, rest.len() as int),
            rest.len() <= n,
            n == all.len(),
            chs@.to_multiset() == all.subrange(rest.len() as int, n).to_multiset(),
            forall|a: int, b: int| 0 <= a < b < chs.len() ==> chs@[a].index < chs@[b].index,
            forall|a: int, b: int|
                rest.len() <= a < n && rest.len() <= b < n && a != b ==> all[a].index
                    != all[b].index,
            src@.len() == n,
            forall|k: int|
                0 <= k < n ==> {
                    &&& 0 <= #[trigger] src@[k] < es.len()
                    &&& is_chapter_entry(es@[src@[k]])
                    &&& is_chapter_name(es@[src@[k]].name@)
                    &&& chapter_from_entry(root@, es@[src@[k]], all[k])
                },
            forall|a: int, b: int| 0 <= a < b < n ==> src@[a] < src@[b],
        decreases rest.len(),
    {
        let ghost m = rest.len() as int;
        let c = rest.pop().unwrap();
        assert(c == all[m - 1]);
        let mut p: usize = 0;
        while p < chs.len() && chs[p].index < c.index
            invariant
                p <= chs.len(),
                forall|j: int| 0 <= j < p ==> chs@[j].index < c.index,
            decreases chs.len() - p,
        {
            p = p + 1;
        }
        if p < chs.len() && chs[p].index == c.index {
            proof {
                let other = chs@[p as int];
                let tail = all.subrange(m, n);
                vstd::seq_lib::to_multiset_contains(chs@, other);
                vstd::seq_lib::to_multiset_contains(tail, other);
                assert(tail.contains(other));
                let a = choose|a: int| 0 <= a < tail.len() && tail[a] == other;
                assert(all[m + a] == other);
                assert(is_duplicate_pair(es@, src@[m - 1], src@[m + a]));
            }
            return Err(ScanError::DuplicateChapterIndex(c.index));
        }
        let ghost old_chs = chs@;
        chs.insert(p, c);
        proof {
            vstd::seq_lib::to_multiset_insert(old_chs, p as int, c);
            assert(all.subrange(m - 1, n) =~= all.subrange(m, n).insert(0, c));
            vstd::seq_lib::to_multiset_insert(all.subrange(m, n), 0, c);
            assert forall|a: int| m <= a < n implies all[a].index != c.index by {
                let tail = all.subrange(m, n);
                assert(tail[a - m] == all[a]);
                vstd::seq_lib::to_multiset_contains(tail, all[a]);
                vstd::seq_lib::to_multiset_contains(old_chs, all[a]);
                let q = choose|q: int| 0 <= q < old_chs.len() && old_chs[q] == all[a];
                if q >= p {
                    assert(old_chs[p as int].index > c.index);
                }
            }
        }
    }
    proof {
        assert(all.subrange(0, n) =~= all);
        lemma_sorted_result(root@, es@, all, src@, chs@);
    }
    Ok(chs)
}

proof fn lemma_sorted_result(
    root: Seq<char>,
    es: Seq<DirEntry>,
    all: Seq<ChapterMetadata>,
    src: Seq<int>,
    chs: Seq<ChapterMetadata>,
)
    requires
        src.len() == all.len(),
        forall|k: int|
            0 <= k < all.len() ==> {
                &&& 0 <= #[trigger] src[k] < es.len()
                &&& is_chapter_entry(es[src[k]])
                &&& is_chapter_name(es[src[k]].name@)
                &&& chapter_from_entry(root, es[src[k]], all[k])
            },
        forall|j: int|
            0 <= j < es.len() && #[trigger] is_chapter_entry(es[j]) ==> exists|k: int|
                0 <= k < src.len() && src[k] == j,
        chs.to_multiset() == all.to_multiset(),
        forall|a: int, b: int| 0 <= a < all.len() && 0 <= b < all.len() && a != b ==> all[a].index
            != all[b].index,
        forall|a: int, b: int| 0 <= a < b < chs.len() ==> chs[a].index < chs[b].index,
    ensures
        is_scan_of(root, es, chs),
        forall|a: int, b: int| !is_duplicate_pair(es, a, b),
{
    broadcast use vstd::seq_lib::group_to_multiset_ensures;

    assert forall|k: int| #![trigger chs[k]] 0 <= k < chs.len() implies exists|i: int|
        #![trigger es[i]]
        0 <= i < es.len() && is_chapter_entry(es[i]) && chapter_from_entry(root, es[i], chs[k]) by {
        assert(chs.to_multiset().count(chs[k]) > 0);
        assert(all.contains(chs[k]));
        let a = choose|a: int| 0 <= a < all.len() && all[a] == chs[k];
        assert(is_chapter_entry(es[src[a]]));
    }
    assert forall|i: int| 0 <= i < es.len() && #[trigger] is_chapter_entry(es[i]) implies exists|
        k: int,
    | 0 <= k < chs.len() && chs[k].index == chapter_index_of(es[i].name@) by {
        let a = choose|a: int| 0 <= a < src.len() && src[a] == i;
        assert(all.to_multiset().count(all[a]) > 0);
        assert(chs.contains(all[a]));
        let k = choose|k: int| 0 <= k < chs.len() && chs[k] == all[a];
    }
    assert forall|a: int, b: int| !is_duplicate_pair(es, a, b) by {
        if is_duplicate_pair(es, a, b) {
            let ka = choose|k: int| 0 <= k < src.len() && src[k] == a;
            let kb = choose|k: int| 0 <= k < src.len() && src[k] == b;
            assert(all[ka].index == all[kb].index);
        }
    }
}

/// The page file `i.png`.
pub open spec fn numbered_png(i: nat) -> Seq<char> {
    decimal_repr(i) + ".png"@
}

proof fn lemma_decimal_repr(n: nat)
    ensures
        is_decimal(decimal_repr(n)),
        decimal_value(decimal_repr(n)) == n,
    decreases n,
{
    if n < 10 {
        assert(digit_value(digit_char(n)) == n);
        assert(decimal_repr(n).drop_last() =~= Seq::<char>::empty());
        assert(decimal_repr(n).last() == digit_char(n));
        assert(decimal_value(Seq::<char>::empty()) == 0);
    } else {
        lemma_decimal_repr(n / 10);
        let r = decimal_repr(n / 10);
        assert(decimal_repr(n).drop_last() =~= r);
        assert(decimal_repr(n).last() == digit_char(n % 10));
        assert(digit_value(digit_char(n % 10)) == n % 10);
        assert(decimal_value(decimal_repr(n)) == (n / 10) * 10 + n % 10);
        assert forall|i: int| 0 <= i < decimal_repr(n).len() implies is_digit(
            #[trigger] decimal_repr(n)[i],
        ) by {
            if i < r.len() {
                assert(decimal_repr(n)[i] == r[i]);
            }
        }
    }
}

proof fn lemma_png_key(i: nat)
    ensures
        page_key(numbered_png(i)) == i,
{
    reveal_strlit(".png");
    lemma_decimal_repr(i);
    let r = decimal_repr(i);
    let s = numbered_png(i);
    assert(s[r.len() as int] == '.');
    assert forall|j: int| 0 <= j < r.len() implies is_digit(#[trigger] s[j]) by {
        assert(s[j] == r[j]);
    }
    assert(is_digit_run_end(s, r.len() as int));
    let k = digit_run(s);
    assert(is_digit_run_end(s, k));
    if k < r.len() {
        assert(is_digit(s[k]));
    } else if k > r.len() {
        assert(is_digit(s[r.len() as int]));
    }
    assert(s.subrange(0, k) =~= r);
}

proof fn lemma_strictly_increasing_range(k: Seq<int>)
    requires
        forall|a: int, b: int| 0 <= a < b < k.len() ==> k[a] < k[b],
        forall|a: int| 0 <= a < k.len() ==> 0 <= #[trigger] k[a] < k.len(),
    ensures
        forall|a: int| 0 <= a < k.len() ==> #[trigger] k[a] == a,
    decreases k.len(),
{
    if k.len() > 0 {
        let m = k.len() - 1;
        let front = k.drop_last();
        assert forall|a: int| 0 <= a < front.len() implies 0 <= #[trigger] front[a] < front.len() by {
            assert(k[a] < k[m]);
        }
        lemma_strictly_increasing_range(front);
        if m > 0 {
            assert(front[m - 1] == m - 1);
        }
        assert forall|a: int| 0 <= a < k.len() implies #[trigger] k[a] == a by {
            if a < m {
                assert(front[a] == k[a]);
            }
        }
    }
}

/// Pages named `0.png` to `(m-1).png`, each once and listed in any order,
/// come out of the page sort as `0.png`, `1.png`, ... in that order.
/// File `j` is named after number `nums[j]`.
pub proof fn lemma_numbered_pages_in_order(files: Seq<String>, nums: Seq<nat>, pages: Seq<String>)
    requires
        nums.len() == files.len(),
        forall|j: int|
            0 <= j < files.len() ==> nums[j] < files.len() && (#[trigger] files[j])@
                == numbered_png(nums[j]),
        forall|a: int, b: int| 0 <= a < b < files.len() ==> files[a]@ != files[b]@,
        pages.to_multiset() == files.to_multiset(),
        pages_ascending(pages),
    ensures
        pages.len() == files.len(),
        forall|i: int| 0 <= i < pages.len() ==> (#[trigger] pages[i])@ == numbered_png(i as nat),
{
    broadcast use vstd::seq_lib::group_to_multiset_ensures;

    let m = files.len();
    vstd::seq_lib::to_multiset_len(pages);
    vstd::seq_lib::to_multiset_len(files);
    assert(pages.len() == m);
    assert forall|a: int| 0 <= a < pages.len() implies 0 <= page_key(pages[a]@) < m && (
    #[trigger] pages[a])@ == numbered_png(page_key(pages[a]@)) by {
        assert(pages.to_multiset().count(pages[a]) > 0);
        assert(files.contains(pages[a]));
        let j = choose|j: int| 0 <= j < files.len() && files[j] == pages[a];
        assert(files[j] == pages[a]);
        lemma_png_key(nums[j]);
    }
    assert(files.no_duplicates());
    files.lemma_multiset_has_no_duplicates();
    pages.lemma_multiset_has_no_duplicates_conv();
    let keys = Seq::new(pages.len(), |a: int| page_key(pages[a]@) as int);
    assert forall|a: int, b: int| 0 <= a < b < keys.len() implies keys[a] < keys[b] by {
        if keys[a] == keys[b] {
            assert(pages[a]@ == pages[b]@);
            assert(pages.to_multiset().count(pages[a]) > 0);
            assert(pages.to_multiset().count(pages[b]) > 0);
            assert(files.contains(pages[a]));
            assert(files.contains(pages[b]));
            let ja = choose|j: int| 0 <= j < files.len() && files[j] == pages[a];
            let jb = choose|j: int| 0 <= j < files.len() && files[j] == pages[b];
            assert(ja != jb);
            if ja < jb {
                assert(files[ja]@ != files[jb]@);
            } else {
                assert(files[jb]@ != files[ja]@);
            }
        }
    }
    assert forall|a: int| 0 <= a < keys.len() implies 0 <= #[trigger] keys[a] < keys.len() by {
        assert(0 <= page_key(pages[a]@) < m);
    }
    lemma_strictly_increasing_range(keys);
    assert forall|i: int| 0 <= i < pages.len() implies (#[trigger] pages[i])@ == numbered_png(
        i as nat,
    ) by {
        assert(keys[i] == i);
    }
}

} // verus!
