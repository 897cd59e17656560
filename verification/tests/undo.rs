use codex_tui::drafts::{
    utf8_bytes, ByteRange, EditableDraft, EditableDraftContent, ImagePath, MentionBinding,
    TextElement,
};
use codex_tui::undo::ComposerUndoHistory;

fn draft(text: &str) -> EditableDraft {
    EditableDraft {
        content: EditableDraftContent {
            text: text.to_string(),
            text_elements: Vec::new(),
            local_image_paths: Vec::new(),
            remote_image_urls: Vec::new(),
            mention_bindings: Vec::new(),
            pending_pastes: Vec::new(),
        },
        cursor: text.len(),
    }
}

#[test]
fn undo_and_redo_walk_drafts_in_reverse_order() {
    let mut history = ComposerUndoHistory::default();
    history.record(draft(""));
    history.record(draft("a"));

    assert_eq!(history.undo(draft("ab")), Some(draft("a")));
    assert_eq!(history.undo(draft("a")), Some(draft("")));
    assert_eq!(history.redo(draft("")), Some(draft("a")));
    assert_eq!(history.redo(draft("a")), Some(draft("ab")));
}

#[test]
fn divergent_edit_discards_redo_history() {
    let mut history = ComposerUndoHistory::default();
    history.record(draft(""));
    assert_eq!(history.undo(draft("a")), Some(draft("")));

    history.record(draft(""));

    assert_eq!(history.redo(draft("b")), None);
}

#[test]
fn entry_limit_evicts_oldest_drafts_first() {
    let mut history = ComposerUndoHistory::with_limits(2, usize::MAX);
    history.record(draft(""));
    history.record(draft("a"));
    history.record(draft("ab"));

    assert_eq!(history.undo(draft("abc")), Some(draft("ab")));
    assert_eq!(history.undo(draft("ab")), Some(draft("a")));
    assert_eq!(history.undo(draft("a")), None);
}

#[test]
fn byte_limit_keeps_the_newest_draft_that_fits() {
    let newest = draft("newest");
    let limit = newest.estimated_retained_bytes();
    let mut history = ComposerUndoHistory::with_limits(10, limit);
    history.record(draft("old"));

    assert!(history.record(newest.clone()));

    assert_eq!(history.undo(draft("current")), Some(newest));
    assert_eq!(history.undo(draft("newest")), None);
}

#[test]
fn oversized_draft_clears_older_history() {
    let small = draft("small");
    let mut history = ComposerUndoHistory::with_limits(10, small.estimated_retained_bytes());
    history.record(small);

    assert!(!history.record(draft("a draft that cannot fit")));
    assert_eq!(history.undo(draft("current")), None);
}

#[test]
fn the_epoch_moves_with_the_history_and_with_nothing_else() {
    let mut history = ComposerUndoHistory::default();
    assert_eq!(history.mutation_epoch(), 0);
    assert_eq!(history.undo(draft("a")), None);
    assert_eq!(history.redo(draft("a")), None);
    assert_eq!(history.mutation_epoch(), 0);

    history.record(draft(""));
    let recorded = history.mutation_epoch();
    assert_ne!(recorded, 0);
    assert!(history.undo(draft("a")).is_some());
    let undone = history.mutation_epoch();
    assert_ne!(undone, recorded);
    assert!(history.redo(draft("")).is_some());
    assert_ne!(history.mutation_epoch(), undone);
}

#[test]
fn redo_returns_the_draft_that_undo_replaced() {
    let mut history = ComposerUndoHistory::default();
    history.record(draft("before"));
    assert_eq!(history.undo(draft("after")), Some(draft("before")));
    assert_eq!(history.redo(draft("before")), Some(draft("after")));
    assert_eq!(history.undo(draft("after")), Some(draft("before")));
}

#[test]
fn provisional_edits_are_discarded_up_to_their_boundary() {
    let mut history = ComposerUndoHistory::default();
    history.record(draft("old"));
    history.record(draft("base"));
    history.record(draft("base1"));

    assert!(!history.try_discard_provisional_edits(3, &draft("base")));
    assert!(!history.try_discard_provisional_edits(2, &draft("other")));
    assert!(history.try_discard_provisional_edits(2, &draft("base")));

    assert_eq!(history.undo(draft("base")), Some(draft("old")));
    assert_eq!(history.undo(draft("old")), None);
}

#[test]
fn clearing_leaves_nothing_to_undo_or_redo() {
    let mut history = ComposerUndoHistory::default();
    history.record(draft("a"));
    history.record(draft("b"));
    assert!(history.undo(draft("c")).is_some());
    history.clear();
    assert_eq!(history.undo(draft("c")), None);
    assert_eq!(history.redo(draft("c")), None);
}

#[test]
fn a_history_without_room_records_nothing() {
    let mut history = ComposerUndoHistory::with_limits(0, usize::MAX);
    assert!(!history.record(draft("a")));
    assert_eq!(history.undo(draft("b")), None);
}

#[test]
fn an_estimate_counts_every_text_of_a_draft() {
    let plain = draft("abc").estimated_retained_bytes();
    assert_eq!(draft("").estimated_retained_bytes() + 3, plain);

    let mut pasted = draft("abc");
    pasted.content.pending_pastes.push(("[p]".to_string(), "long text".to_string()));
    assert_eq!(
        pasted.estimated_retained_bytes(),
        plain + std::mem::size_of::<(String, String)>() + 3 + 9
    );

    let mut mentioned = draft("abc");
    mentioned.content.mention_bindings.push(MentionBinding {
        mention: "@a".to_string(),
        path: "/a/b".to_string(),
    });
    assert_eq!(
        mentioned.estimated_retained_bytes(),
        plain + std::mem::size_of::<MentionBinding>() + 2 + 4
    );

    let mut linked = draft("abc");
    linked.content.remote_image_urls.push("https://x".to_string());
    assert_eq!(
        linked.estimated_retained_bytes(),
        plain + std::mem::size_of::<String>() + 9
    );

    let mut attached = draft("abc");
    attached.content.local_image_paths.push(ImagePath { encoded: b"C:/a.png".to_vec() });
    assert_eq!(
        attached.estimated_retained_bytes(),
        plain + std::mem::size_of::<std::path::PathBuf>() + 8
    );
}

#[test]
fn an_element_counts_the_label_that_it_shows() {
    let mut labelled = draft("a[image]b");
    labelled.content.text_elements.push(TextElement {
        byte_range: ByteRange { start: 1, end: 8 },
        placeholder: Some("label".to_string()),
    });
    let mut covering = draft("a[image]b");
    covering.content.text_elements.push(TextElement {
        byte_range: ByteRange { start: 1, end: 8 },
        placeholder: None,
    });
    assert_eq!(
        labelled.estimated_retained_bytes() + 2,
        covering.estimated_retained_bytes()
    );

    let mut split = draft("\u{754c}");
    split.content.text_elements.push(TextElement {
        byte_range: ByteRange { start: 0, end: 1 },
        placeholder: None,
    });
    assert_eq!(
        split.estimated_retained_bytes(),
        draft("\u{754c}").estimated_retained_bytes() + std::mem::size_of::<TextElement>()
    );
}

#[test]
fn content_is_compared_without_the_cursor() {
    let mut moved = draft("abc");
    moved.cursor = 1;
    assert!(moved.has_same_content(&draft("abc")));
    assert!(!draft("abd").has_same_content(&draft("abc")));

    let mut with_image = draft("abc");
    with_image.content.local_image_paths.push(ImagePath { encoded: b"C:/a.png".to_vec() });
    assert!(!with_image.has_same_content(&draft("abc")));
}

#[test]
fn bytes_are_those_of_the_encoding() {
    assert_eq!(utf8_bytes(""), 0);
    assert_eq!(utf8_bytes("a\u{754c}\u{1f600}"), 8);
}
