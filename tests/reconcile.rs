use swadloon::{reconcile, Action, Chapter, ChapterMetadata};

fn local(index: usize, pages: usize) -> ChapterMetadata {
    let pages = (0..pages).map(|p| format!("{}.png", p)).collect();
    ChapterMetadata::new(index, format!("Chapter {}", index), format!("/c/{}", index), pages)
}

fn remote(index: usize, id: &str) -> Chapter {
    Chapter {
        id: id.to_string(),
        idx: index,
        name: format!("Chapter {}", index),
        manga: "m1".to_string(),
        pages: Vec::new(),
        created: String::new(),
        updated: String::new(),
        collection_id: "c".to_string(),
        collection_name: "chapters".to_string(),
    }
}

#[test]
fn chapter_metadata_new_keeps_fields() {
    let c = ChapterMetadata::new(3, "Three".to_string(), "/x".to_string(), vec!["0.png".to_string()]);
    assert_eq!(c.index, 3);
    assert_eq!(c.name, "Three");
    assert_eq!(c.source_path, "/x");
    assert_eq!(c.pages, vec!["0.png".to_string()]);
}

#[test]
fn empty_remote_gives_creates_in_order() {
    let n = 5;
    let locals: Vec<ChapterMetadata> = (1..=n).map(|i| local(i, 2)).collect();
    let plan = reconcile(locals, &Vec::new());
    assert_eq!(plan.entries.len(), n);
    for (i, e) in plan.entries.iter().enumerate() {
        assert_eq!(e.action, Action::Create);
        assert_eq!(e.chapter.index, i + 1);
    }
    assert!(plan.duplicate_remote_indices.is_empty());
}

#[test]
fn all_present_gives_only_updates() {
    let locals: Vec<ChapterMetadata> = (1..=3).map(|i| local(i, 1)).collect();
    let remotes = vec![remote(3, "c3"), remote(1, "c1"), remote(2, "c2"), remote(9, "c9")];
    let plan = reconcile(locals, &remotes);
    assert_eq!(plan.entries.len(), 3);
    assert!(plan.entries.iter().all(|e| matches!(e.action, Action::Update { .. })));
    assert_eq!(plan.entries[0].action, Action::Update { remote_id: "c1".to_string() });
    assert_eq!(plan.entries[1].action, Action::Update { remote_id: "c2".to_string() });
    assert_eq!(plan.entries[2].action, Action::Update { remote_id: "c3".to_string() });
}

#[test]
fn reconciling_twice_gives_the_same_plan() {
    let remotes = vec![remote(2, "b"), remote(4, "d")];
    let first = reconcile((1..=4).map(|i| local(i, 1)).collect(), &remotes);
    let second = reconcile((1..=4).map(|i| local(i, 1)).collect(), &remotes);
    assert_eq!(first, second);
}

#[test]
fn duplicate_remote_index_uses_first_and_warns() {
    let remotes = vec![remote(1, "first"), remote(2, "two"), remote(1, "second")];
    let plan = reconcile(vec![local(1, 1)], &remotes);
    assert_eq!(plan.entries[0].action, Action::Update { remote_id: "first".to_string() });
    assert_eq!(plan.duplicate_remote_indices, vec![1]);
}

#[test]
fn example_plan_update_then_create() {
    let plan = reconcile(vec![local(1, 3), local(2, 5)], &vec![remote(1, "abc")]);
    assert_eq!(plan.entries.len(), 2);
    assert_eq!(plan.entries[0].action, Action::Update { remote_id: "abc".to_string() });
    assert_eq!(plan.entries[0].chapter.index, 1);
    assert_eq!(plan.entries[0].chapter.pages.len(), 3);
    assert_eq!(plan.entries[1].action, Action::Create);
    assert_eq!(plan.entries[1].chapter.index, 2);
    assert_eq!(plan.entries[1].chapter.pages.len(), 5);
}
