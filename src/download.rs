//! Planning the download of chapter images: one job per page of every
//! chapter not yet on disk, and the file extension a downloaded image gets.
use vstd::prelude::*;

use crate::scan::path_join;
use crate::text::{decimal_repr, decimal_string};

verus! {

/// A chapter as the scraper lists it: its page image addresses in order.
#[derive(Debug, PartialEq, Eq)]
pub struct ChapterEntry {
    pub index: usize,
    pub name: String,
    pub url: String,
    pub pages: Vec<String>,
}

/// Fetch `url`, sent with `referer`, into `dest` (the extension is added once
/// the content type is known).
#[derive(Debug, PartialEq, Eq)]
pub struct DownloadJob {
    pub referer: String,
    pub url: String,
    pub dest: String,
}

/// A job as plain text: referer, address, destination.
pub open spec fn job_view(j: DownloadJob) -> (Seq<char>, Seq<char>, Seq<char>) {
    (j.referer@, j.url@, j.dest@)
}

/// The directory of chapter `index` below `root`.
pub open spec fn chapter_dest(root: Seq<char>, index: nat) -> Seq<char> {
    path_join(root, decimal_repr(index))
}

/// The jobs of the first `n` pages of chapter `c`; page `k` goes to file `k`
/// of the chapter's directory.
pub open spec fn page_jobs(root: Seq<char>, c: ChapterEntry, n: nat) -> Seq<(Seq<char>, Seq<char>, Seq<char>)> {
    Seq::new(
        n,
        |k: int| (c.url@, c.pages@[k]@, path_join(chapter_dest(root, c.index as nat), decimal_repr(k as nat))),
    )
}

/// The jobs for `chapters`, in order, skipping those whose directory is
/// already `present`.
pub open spec fn download_plan(
    root: Seq<char>,
    chapters: Seq<ChapterEntry>,
    present: Seq<bool>,
) -> Seq<(Seq<char>, Seq<char>, Seq<char>)>
    decreases chapters.len(),
{
    if chapters.len() == 0 {
        Seq::empty()
    } else {
        let n = (chapters.len() - 1) as int;
        download_plan(root, chapters.subrange(0, n), present.subrange(0, n)) + if present[n] {
            Seq::empty()
        } else {
            page_jobs(root, chapters[n], chapters[n].pages.len() as nat)
        }
    }
}

fn join(dir: &String, name: &String) -> (r: String)
    ensures
        r@ == path_join(dir@, name@),
{
    proof {
        reveal_strlit("/");
    }
    let mut r = dir.clone();
    r.append("/");
    r.append(name.as_str());
    r
}

/// Lists the page downloads of every chapter whose directory below `root`
/// is not already present; `present[i]` tells whether chapter `i`'s is.
pub fn download_jobs(root: &String, chapters: &Vec<ChapterEntry>, present: &Vec<bool>) -> (r: Vec<
    DownloadJob,
>)
    requires
        present.len() == chapters.len(),
    ensures
        r@.map_values(|j: DownloadJob| job_view(j)) == download_plan(root@, chapters@, present@),
{
    let mut jobs: Vec<DownloadJob> = Vec::new();
    let mut i: usize = 0;
    while i < chapters.len()
        invariant
            i <= chapters.len(),
            present.len() == chapters.len(),
            jobs@.map_values(|j: DownloadJob| job_view(j)) == download_plan(
                root@,
                chapters@.subrange(0, i as int),
                present@.subrange(0, i as int),
            ),
        decreases chapters.len() - i,
    {
        let ghost before = jobs@.map_values(|j: DownloadJob| job_view(j));
        let c = &chapters[i];
        proof {
            let cs = chapters@.subrange(0, i + 1);
            let ps = present@.subrange(0, i + 1);
            assert(cs.subrange(0, i as int) =~= chapters@.subrange(0, i as int));
            assert(ps.subrange(0, i as int) =~= present@.subrange(0, i as int));
        }
        if !present[i] {
            let number = decimal_string(c.index);
            let dir = join(root, &number);
            let mut k: usize = 0;
            while k < c.pages.len()
                invariant
                    k <= c.pages.len(),
                    dir@ == chapter_dest(root@, c.index as nat),
                    jobs@.map_values(|j: DownloadJob| job_view(j)) == before + page_jobs(
                        root@,
                        *c,
                        k as nat,
                    ),
                decreases c.pages.len() - k,
            {
                let page = decimal_string(k);
                let dest = join(&dir, &page);
                let job = DownloadJob { referer: c.url.clone(), url: c.pages[k].clone(), dest };
                let ghost old_jobs = jobs@;
                let ghost new_view = job_view(job);
                jobs.push(job);
                proof {
                    assert(jobs@.map_values(|j: DownloadJob| job_view(j)) =~= old_jobs.map_values(
                        |j: DownloadJob| job_view(j),
                    ).push(new_view));
                    assert(page_jobs(root@, *c, (k + 1) as nat) =~= page_jobs(root@, *c, k as nat).push(
                        new_view,
                    ));
                    assert(jobs@.map_values(|j: DownloadJob| job_view(j)) =~= before + page_jobs(
                        root@,
                        *c,
                        (k + 1) as nat,
                    ));
                }
                k = k + 1;
            }
        } else {
            proof {
                assert(before + Seq::empty() =~= before);
            }
        }
        i = i + 1;
    }
    proof {
        assert(chapters@.subrange(0, i as int) =~= chapters@);
        assert(present@.subrange(0, i as int) =~= present@);
    }
    jobs
}

/// The file extension for a downloaded image's content type, if it is one
/// the store accepts.
pub fn image_extension(content_type: &str) -> (r: Option<String>)
    ensures
        content_type@ == "image/jpeg"@ ==> r is Some && r->0@ == "jpeg"@,
        content_type@ == "image/png"@ ==> r is Some && r->0@ == "png"@,
        content_type@ != "image/jpeg"@ && content_type@ != "image/png"@ ==> r is None,
{
    proof {
        reveal_strlit("image/jpeg");
        reveal_strlit("image/png");
        assert("image/jpeg"@.len() != "image/png"@.len());
    }
    let given = String::from_str(content_type);
    if given == String::from_str("image/jpeg") {
        Some(String::from_str("jpeg"))
    } else if given == String::from_str("image/png") {
        Some(String::from_str("png"))
    } else {
        None
    }
}

} // verus!
