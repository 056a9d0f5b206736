use swadloon::{download_jobs, image_extension, ChapterEntry, DownloadJob};

fn entry(index: usize, pages: &[&str]) -> ChapterEntry {
    ChapterEntry {
        index,
        name: format!("Chapter {}", index),
        url: format!("https://site/c/{}", index),
        pages: pages.iter().map(|s| s.to_string()).collect(),
    }
}

fn job(referer: &str, url: &str, dest: &str) -> DownloadJob {
    DownloadJob { referer: referer.to_string(), url: url.to_string(), dest: dest.to_string() }
}

#[test]
fn jobs_for_missing_chapters_only() {
    let chapters = vec![entry(1, &["a", "b"]), entry(2, &["c"]), entry(10, &["d", "e"])];
    let jobs = download_jobs(&"/m/chapters".to_string(), &chapters, &vec![false, true, false]);
    assert_eq!(
        jobs,
        vec![
            job("https://site/c/1", "a", "/m/chapters/1/0"),
            job("https://site/c/1", "b", "/m/chapters/1/1"),
            job("https://site/c/10", "d", "/m/chapters/10/0"),
            job("https://site/c/10", "e", "/m/chapters/10/1"),
        ]
    );
}

#[test]
fn no_jobs_when_everything_is_present() {
    let chapters = vec![entry(1, &["a"])];
    assert!(download_jobs(&"r".to_string(), &chapters, &vec![true]).is_empty());
    assert!(download_jobs(&"r".to_string(), &Vec::new(), &Vec::new()).is_empty());
}

#[test]
fn image_extensions_by_content_type() {
    assert_eq!(image_extension("image/jpeg"), Some("jpeg".to_string()));
    assert_eq!(image_extension("image/png"), Some("png".to_string()));
    assert_eq!(image_extension("text/html"), None);
    assert_eq!(image_extension(""), None);
}
