use codex_tui::composer::{
    ChatComposer, ComposerEffect, HistoryDirection, HistoryNavigation, InputResult, RetroGrab,
};
use codex_tui::drafts::{ByteRange, EditableDraft, EditableDraftContent, ImagePath, TextElement};
use codex_tui::vim_history::{VimMode, VimNormalKeyPresses};

const MINIMUM_NON_ASCII_RETRO_CAPTURE_INPUT: &str = "界\u{3000}界";

const NO_BINDING: VimNormalKeyPresses = VimNormalKeyPresses {
    move_left: false,
    move_right: false,
    move_up: false,
    move_down: false,
    move_word_forward: false,
    move_word_backward: false,
    move_word_end: false,
    move_line_start: false,
    move_line_end: false,
    find_forward: false,
    find_backward: false,
    jump_top: false,
    jump_bottom: false,
    search: false,
    yank_line: false,
    start_yank_operator: false,
    cancel_operator: false,
};

fn draft(text: &str) -> EditableDraft {
    EditableDraft {
        content: EditableDraftContent {
            text: text.to_string(),
            text_elements: Vec::new(),
            local_image_paths: Vec::new(),
            remote_image_urls: Vec::new(),
            mention_bindings: Vec::new(),
            pending_pastes: Vec::new(),
        },
        cursor: text.len(),
    }
}

fn new_composer() -> ChatComposer {
    ChatComposer::new(draft(""))
}

fn current_text(composer: &ChatComposer) -> &str {
    &composer.draft.content.text
}

fn insert(draft: &mut EditableDraft, text: &str) {
    draft.content.text.insert_str(draft.cursor, text);
    draft.cursor += text.len();
}

/// A key that types a character.
fn press_char(composer: &mut ChatComposer, ch: char) -> bool {
    composer
        .dispatch_with_undo_history(|composer: &mut ChatComposer| {
            insert(&mut composer.draft, &ch.to_string());
            (InputResult::Nothing, true)
        })
        .1
}

fn press_undo(composer: &mut ChatComposer) -> bool {
    composer
        .dispatch_with_undo_history(|composer: &mut ChatComposer| {
            (InputResult::Nothing, composer.undo_edit())
        })
        .1
}

fn press_redo(composer: &mut ChatComposer) -> bool {
    composer
        .dispatch_with_undo_history(|composer: &mut ChatComposer| {
            (InputResult::Nothing, composer.redo_edit())
        })
        .1
}

fn press_left(composer: &mut ChatComposer) -> bool {
    composer
        .dispatch_with_undo_history(|composer: &mut ChatComposer| {
            composer.draft.cursor = composer.draft.cursor.saturating_sub(1);
            (InputResult::Nothing, true)
        })
        .1
}

/// A key that recalls a prompt.
fn press_recall(
    composer: &mut ChatComposer,
    recalled: EditableDraft,
    direction: HistoryDirection,
) -> bool {
    composer
        .dispatch_with_undo_history(|composer: &mut ChatComposer| {
            composer.apply_history_navigation(HistoryNavigation { recalled, direction });
            (InputResult::Nothing, true)
        })
        .1
}

/// Text that the terminal hands over as a paste.
fn handle_paste(composer: &mut ChatComposer, text: &str) {
    let before_edit = composer.snapshot_draft();
    insert(&mut composer.draft, text);
    composer.record_edit_since(before_edit);
}

fn set_draft(composer: &mut ChatComposer, draft: EditableDraft) {
    composer.draft = draft;
    composer.establish_undo_baseline();
}

/// Clear the prompt. Returns its text where there was anything to clear.
fn clear_for_ctrl_c(composer: &mut ChatComposer) -> Option<String> {
    let before_edit = composer.snapshot_draft();
    composer.draft = draft("");
    if before_edit.has_same_content(&composer.draft) {
        return None;
    }
    let text = before_edit.content.text.clone();
    composer.record_edit_since(before_edit);
    Some(text)
}

/// A key of a burst. The third one shows that the first two were pasted.
fn press_in_burst(composer: &mut ChatComposer, index: usize) -> bool {
    let chars = MINIMUM_NON_ASCII_RETRO_CAPTURE_INPUT.chars().collect::<Vec<_>>();
    if index < 2 {
        return press_char(composer, chars[index]);
    }
    composer
        .dispatch_with_undo_history(|composer: &mut ChatComposer| {
            let grabbed = chars[..2].iter().collect::<String>();
            let end_byte = composer.draft.cursor;
            let start_byte = end_byte - grabbed.len();
            composer.paste_burst.active = true;
            composer.paste_burst.buffer = grabbed.chars().collect();
            composer.move_retro_capture_to_paste_buffer(
                RetroGrab { start_byte, grabbed },
                end_byte,
                chars[2],
                0,
            );
            (InputResult::Nothing, true)
        })
        .1
}

fn flush_burst(composer: &mut ChatComposer) -> bool {
    let pasted = composer.paste_burst.buffer.iter().collect::<String>();
    composer.paste_burst.clear_after_explicit_paste();
    handle_paste(composer, &pasted);
    !pasted.is_empty()
}

fn at_history_boundary(mut draft: EditableDraft) -> EditableDraft {
    draft.cursor = draft.content.text.len();
    draft
}

#[test]
fn undo_walks_typing_then_explicit_paste_in_reverse_order() {
    let mut composer = new_composer();
    set_draft(&mut composer, draft("existing prompt"));
    let before_paste = composer.snapshot_draft();

    handle_paste(&mut composer, "\npasted line");
    let after_paste = composer.snapshot_draft();
    press_char(&mut composer, '!');
    let after_typing = composer.snapshot_draft();

    assert!(press_undo(&mut composer));
    assert_eq!(composer.snapshot_draft(), after_paste);
    assert!(press_undo(&mut composer));
    assert_eq!(composer.snapshot_draft(), before_paste);
    assert!(press_redo(&mut composer));
    assert_eq!(composer.snapshot_draft(), after_paste);
    assert!(press_redo(&mut composer));
    assert_eq!(composer.snapshot_draft(), after_typing);
}

#[test]
fn key_dispatch_does_not_record_a_nested_edit_twice() {
    let mut composer = new_composer();

    let (_, handled) = composer.dispatch_with_undo_history(|composer: &mut ChatComposer| {
        handle_paste(composer, "x");
        (InputResult::Nothing, true)
    });
    assert!(handled);
    assert!(press_undo(&mut composer));
    assert_eq!(current_text(&composer), "");
    assert!(!press_undo(&mut composer));
}

#[test]
fn ctrl_c_undo_restores_the_complete_draft_and_redo_clears_it() {
    let mut composer = new_composer();
    let mut rich = draft("!echo ");
    rich.content.remote_image_urls = vec!["https://example.test/remote.png".to_string()];
    let placeholder = "[Pasted Content 1001 chars]".to_string();
    insert(&mut rich, &placeholder);
    rich.content.pending_pastes.push((placeholder, "x".repeat(1001)));
    rich.content.local_image_paths.push(ImagePath { encoded: b"C:/images/local.png".to_vec() });
    rich.cursor = 2;
    set_draft(&mut composer, rich);
    composer.establish_undo_baseline();
    let before_clear = composer.snapshot_draft();

    assert!(clear_for_ctrl_c(&mut composer).is_some());
    let after_clear = composer.snapshot_draft();
    assert!(press_undo(&mut composer));
    assert_eq!(composer.snapshot_draft(), before_clear);
    assert!(press_redo(&mut composer));
    assert_eq!(composer.snapshot_draft(), after_clear);
}

#[test]
fn history_up_reuses_ctrl_c_undo_lineage_without_becoming_an_undo_step() {
    let mut composer = new_composer();
    assert!(press_char(&mut composer, 'a'));
    let before_second_edit = composer.snapshot_draft();
    assert!(press_char(&mut composer, 'b'));
    composer.draft.cursor = 1;
    let before_clear = composer.snapshot_draft();

    assert!(clear_for_ctrl_c(&mut composer).is_some());
    let after_clear = composer.snapshot_draft();
    assert!(press_recall(&mut composer, draft("ab"), HistoryDirection::Older));
    let recalled = at_history_boundary(before_clear);
    assert_eq!(composer.snapshot_draft(), recalled);

    assert!(press_undo(&mut composer));
    assert_eq!(composer.snapshot_draft(), before_second_edit);
    assert!(press_redo(&mut composer));
    assert_eq!(composer.snapshot_draft(), recalled);
    assert!(press_redo(&mut composer));
    assert_eq!(composer.snapshot_draft(), after_clear);
}

#[test]
fn matching_history_recall_keeps_repeated_navigation_at_the_history_boundary() {
    let mut composer = new_composer();
    assert!(press_char(&mut composer, 'a'));
    assert!(press_char(&mut composer, 'b'));
    composer.draft.cursor = 1;
    assert!(clear_for_ctrl_c(&mut composer).is_some());

    assert!(press_recall(&mut composer, draft("ab"), HistoryDirection::Older));
    assert_eq!((current_text(&composer), composer.draft.cursor), ("ab", 2));
    assert!(press_recall(&mut composer, draft("older prompt"), HistoryDirection::Older));
    assert_eq!(current_text(&composer), "older prompt");
}

#[test]
fn history_down_reuses_ctrl_c_redo_lineage() {
    let mut composer = new_composer();
    assert!(press_char(&mut composer, 'a'));
    let before_second_edit = composer.snapshot_draft();
    assert!(press_char(&mut composer, 'b'));
    let before_clear = composer.snapshot_draft();

    assert!(clear_for_ctrl_c(&mut composer).is_some());
    let after_clear = composer.snapshot_draft();
    assert!(press_recall(&mut composer, draft("ab"), HistoryDirection::Older));
    assert_eq!(composer.snapshot_draft(), before_clear);
    assert!(press_recall(&mut composer, draft(""), HistoryDirection::Newer));
    assert_eq!(composer.snapshot_draft(), after_clear);

    assert!(press_undo(&mut composer));
    assert_eq!(composer.snapshot_draft(), before_clear);
    assert!(press_undo(&mut composer));
    assert_eq!(composer.snapshot_draft(), before_second_edit);
}

#[test]
fn unrelated_history_recall_starts_a_new_undo_baseline() {
    let mut composer = new_composer();
    assert!(press_char(&mut composer, 'a'));
    assert!(press_char(&mut composer, 'b'));
    assert!(clear_for_ctrl_c(&mut composer).is_some());

    assert!(press_recall(&mut composer, draft("unrelated prompt"), HistoryDirection::Older));
    assert_eq!(current_text(&composer), "unrelated prompt");
    assert!(!press_undo(&mut composer));
}

#[test]
fn equal_text_without_rich_draft_state_does_not_reuse_undo_lineage() {
    let mut composer = new_composer();
    let mut rich = draft("same text");
    rich.content.remote_image_urls = vec!["https://example.test/remote.png".to_string()];
    set_draft(&mut composer, rich);
    assert!(clear_for_ctrl_c(&mut composer).is_some());

    assert!(press_recall(&mut composer, draft("same text"), HistoryDirection::Older));
    assert_eq!(current_text(&composer), "same text");
    assert!(composer.draft.content.remote_image_urls.is_empty());
    assert!(!press_undo(&mut composer));
}

#[test]
fn async_history_recall_uses_the_same_undo_lineage_transition() {
    let mut composer = new_composer();
    assert!(press_char(&mut composer, 'a'));
    let before_second_edit = composer.snapshot_draft();
    assert!(press_char(&mut composer, 'b'));
    composer.draft.cursor = 1;
    let before_clear = composer.snapshot_draft();
    assert!(clear_for_ctrl_c(&mut composer).is_some());

    // The entry arrives after the key that asked for it was dispatched.
    composer.apply_history_navigation(HistoryNavigation {
        recalled: draft("ab"),
        direction: HistoryDirection::Older,
    });
    assert_eq!(composer.snapshot_draft(), at_history_boundary(before_clear));
    assert!(press_undo(&mut composer));
    assert_eq!(composer.snapshot_draft(), before_second_edit);
}

#[test]
fn cursor_motion_preserves_redo_but_a_divergent_edit_discards_it() {
    let mut composer = new_composer();
    handle_paste(&mut composer, "ab");
    let edited = composer.snapshot_draft();

    assert!(press_undo(&mut composer));
    assert!(press_left(&mut composer));
    assert!(press_redo(&mut composer));
    assert_eq!(composer.snapshot_draft(), edited);

    assert!(press_undo(&mut composer));
    assert!(press_char(&mut composer, 'x'));
    assert!(!press_redo(&mut composer));
    assert_eq!(current_text(&composer), "x");
}

#[test]
fn external_edit_is_reversible_but_submission_starts_a_new_history() {
    let mut composer = new_composer();
    set_draft(&mut composer, draft("before"));
    let before_edit = composer.snapshot_draft();

    let before_external_edit = composer.snapshot_draft();
    composer.restore_draft(draft("after"));
    composer.record_edit_since(before_external_edit);
    assert!(press_undo(&mut composer));
    assert_eq!(composer.snapshot_draft(), before_edit);
    assert!(press_redo(&mut composer));
    assert_eq!(current_text(&composer), "after");

    let (result, _) = composer.dispatch_with_undo_history(|composer: &mut ChatComposer| {
        let text = composer.draft.content.text.clone();
        composer.draft = draft("");
        (InputResult::Submitted { text }, true)
    });
    assert!(matches!(result, InputResult::Submitted { .. }));
    assert!(!press_undo(&mut composer));
}

#[test]
fn every_result_that_ends_the_prompt_starts_a_new_history() {
    let results = [
        InputResult::Queued { text: "a".to_string() },
        InputResult::Command("clear".to_string()),
        InputResult::ServiceTierCommand("fast".to_string()),
        InputResult::CommandWithArgs(
            "review".to_string(),
            "this".to_string(),
            vec![element(0, 4)],
        ),
    ];
    for result in results {
        let mut composer = new_composer();
        assert!(press_char(&mut composer, 'a'));
        composer.dispatch_with_undo_history(|_composer: &mut ChatComposer| (result, true));
        assert!(!press_undo(&mut composer));
        assert!(!press_redo(&mut composer));
    }
}

#[test]
fn detected_paste_burst_is_one_undo_step() {
    let mut composer = new_composer();
    set_draft(&mut composer, draft("existing prompt"));
    let before_paste = composer.snapshot_draft();

    for index in 0..3 {
        assert!(press_in_burst(&mut composer, index));
    }
    assert!(composer.paste_burst.active);
    assert!(flush_burst(&mut composer));
    let after_paste = composer.snapshot_draft();
    assert_eq!(
        current_text(&composer),
        format!("existing prompt{MINIMUM_NON_ASCII_RETRO_CAPTURE_INPUT}")
    );

    assert!(press_undo(&mut composer));
    assert_eq!(composer.snapshot_draft(), before_paste);
    assert!(!press_undo(&mut composer));
    assert!(press_redo(&mut composer));
    assert_eq!(composer.snapshot_draft(), after_paste);
}

#[test]
fn detected_paste_burst_joins_an_active_vim_insert_transaction() {
    let mut composer = new_composer();
    composer.vim.enabled = true;
    composer.vim.mode = VimMode::Normal;
    composer.begin_vim_edit(NO_BINDING);
    composer.vim.mode = VimMode::Insert;
    composer.vim.insert_session_open = true;
    composer.finish_vim_edit();
    assert!(composer.vim_edit_transaction.is_active());

    for index in 0..3 {
        assert!(press_in_burst(&mut composer, index));
    }
    assert!(composer.paste_burst.active);
    assert!(flush_burst(&mut composer));
    composer.vim.enter_normal_mode();
    composer.finish_vim_edit();
    let after_paste = composer.snapshot_draft();
    assert_eq!(current_text(&composer), MINIMUM_NON_ASCII_RETRO_CAPTURE_INPUT);

    assert!(press_undo(&mut composer));
    assert_eq!(current_text(&composer), "");
    assert!(!press_undo(&mut composer));
    assert!(press_redo(&mut composer));
    assert_eq!(composer.snapshot_draft(), after_paste);
}

#[test]
fn missing_provisional_boundary_falls_back_without_losing_older_history() {
    let mut composer = new_composer();
    set_draft(&mut composer, draft("base"));
    let mut chars = MINIMUM_NON_ASCII_RETRO_CAPTURE_INPUT.chars();
    let first = chars.next().expect("first provisional character");
    let second = chars.next().expect("second provisional character");

    assert!(press_in_burst(&mut composer, 0));
    assert!(press_in_burst(&mut composer, 1));
    let current = composer.snapshot_draft();
    assert!(composer.undo_history.undo(current).is_some());

    assert!(press_in_burst(&mut composer, 2));
    assert!(!composer.paste_burst.active);
    assert_eq!(
        current_text(&composer),
        format!("base{MINIMUM_NON_ASCII_RETRO_CAPTURE_INPUT}")
    );
    assert!(press_undo(&mut composer));
    assert_eq!(current_text(&composer), format!("base{first}{second}"));
    assert!(press_undo(&mut composer));
    assert_eq!(current_text(&composer), "base");
}

#[test]
fn disabled_paste_burst_keeps_plain_keys_as_individual_undo_steps() {
    let mut composer = new_composer();

    for ch in MINIMUM_NON_ASCII_RETRO_CAPTURE_INPUT.chars() {
        assert!(press_char(&mut composer, ch));
    }
    assert!(!composer.paste_burst.active);
    assert_eq!(current_text(&composer), MINIMUM_NON_ASCII_RETRO_CAPTURE_INPUT);

    assert!(press_undo(&mut composer));
    assert_eq!(
        current_text(&composer),
        MINIMUM_NON_ASCII_RETRO_CAPTURE_INPUT
            .chars()
            .take(MINIMUM_NON_ASCII_RETRO_CAPTURE_INPUT.chars().count() - 1)
            .collect::<String>()
    );
    assert!(press_undo(&mut composer));
    assert_eq!(current_text(&composer), "界");
}

#[test]
fn a_dispatched_key_asks_for_the_vim_mode_and_the_popups() {
    let mut composer = new_composer();
    press_char(&mut composer, 'a');
    assert_eq!(
        composer.effects,
        vec![ComposerEffect::ResetVimModeAfterDispatch, ComposerEffect::SyncPopups]
    );
}

#[test]
fn undo_closes_a_vim_edit_under_way_and_keeps_what_vim_remembers() {
    let mut composer = new_composer();
    composer.vim.enabled = true;
    composer.vim.mode = VimMode::Insert;
    composer.vim.insert_session_open = true;
    composer.vim.persistent.register = "yanked".to_string();
    composer.begin_vim_edit_transaction();
    press_char(&mut composer, 'a');
    press_char(&mut composer, 'b');

    assert!(composer.undo_edit());
    assert_eq!(current_text(&composer), "");
    assert_eq!(composer.vim.mode, VimMode::Normal);
    assert!(!composer.vim.insert_session_open);
    assert_eq!(composer.vim.persistent.register, "yanked");
    assert!(composer.redo_edit());
    assert_eq!(current_text(&composer), "ab");
}

#[test]
fn the_vim_undo_key_needs_normal_mode_and_no_popup() {
    let mut composer = new_composer();
    press_char(&mut composer, 'a');
    assert!(!composer.handle_vim_history_key(true));
    composer.vim.enabled = true;
    composer.vim.mode = VimMode::Normal;
    assert!(!composer.handle_vim_history_key(false));
    composer.popups_active = true;
    assert!(!composer.handle_vim_history_key(true));
    composer.popups_active = false;
    composer.vim.operator_pending = true;
    assert!(!composer.handle_vim_history_key(true));
    composer.vim.operator_pending = false;
    assert_eq!(current_text(&composer), "a");
    assert!(composer.handle_vim_history_key(true));
    assert_eq!(current_text(&composer), "");
}

#[test]
fn keys_that_only_move_begin_no_vim_edit() {
    let mut composer = new_composer();
    composer.vim.enabled = true;
    composer.vim.mode = VimMode::Normal;
    composer.begin_vim_edit(VimNormalKeyPresses { jump_bottom: true, ..NO_BINDING });
    assert!(!composer.vim_edit_transaction.is_active());
    composer.begin_vim_edit(VimNormalKeyPresses { search: true, ..NO_BINDING });
    assert!(!composer.vim_edit_transaction.is_active());
    composer.begin_vim_edit(NO_BINDING);
    assert!(composer.vim_edit_transaction.is_active());
}

#[test]
fn a_direct_vim_edit_cannot_be_repeated() {
    let mut composer = new_composer();
    assert!(!composer.begin_direct_vim_edit());
    composer.vim.enabled = true;
    composer.vim.persistent.commands.last_change = vec!['d', 'd'];
    composer.vim.persistent.register = "line".to_string();
    composer.history_search_active = true;
    assert!(!composer.begin_direct_vim_edit());
    composer.history_search_active = false;
    assert!(composer.begin_direct_vim_edit());
    assert!(composer.vim.persistent.commands.last_change.is_empty());
    assert_eq!(composer.vim.persistent.register, "line");
    assert!(!composer.begin_direct_vim_edit());
}

fn element(start: usize, end: usize) -> TextElement {
    TextElement { byte_range: ByteRange { start, end }, placeholder: None }
}

#[test]
fn a_capture_takes_its_bytes_out_of_the_middle_of_the_text() {
    let mut composer = new_composer();
    let mut rich = draft("[a] 界x tail [b]");
    rich.content.text_elements = vec![element(0, 3), element(14, 17)];
    rich.cursor = 8;
    set_draft(&mut composer, rich.clone());
    composer.begin_vim_edit_transaction();

    composer.move_retro_capture_to_paste_buffer(
        RetroGrab { start_byte: 4, grabbed: "界x".to_string() },
        8,
        'y',
        7,
    );
    assert_eq!(current_text(&composer), "[a]  tail [b]");
    assert_eq!(composer.draft.cursor, 4);
    assert_eq!(composer.draft.content.text_elements, vec![element(0, 3), element(10, 13)]);
    assert_eq!(composer.paste_burst.buffer, vec!['y']);
    assert_eq!(composer.paste_burst.last_char_at, Some(7));

    composer.draft.type_text("界x");
    assert_eq!(composer.draft, rich);
}

#[test]
fn a_capture_that_the_timeline_does_not_show_types_the_next_character() {
    let mut composer = new_composer();
    let mut rich = draft("ab[c]");
    rich.content.text_elements = vec![element(2, 5)];
    rich.cursor = 2;
    set_draft(&mut composer, rich);
    composer.paste_burst.active = true;
    composer.paste_burst.buffer = vec!['a', 'b'];

    composer.move_retro_capture_to_paste_buffer(
        RetroGrab { start_byte: 0, grabbed: "ab".to_string() },
        2,
        '界',
        9,
    );
    assert_eq!(current_text(&composer), "ab界[c]");
    assert_eq!(composer.draft.cursor, 5);
    assert_eq!(composer.draft.content.text_elements, vec![element(5, 8)]);
    assert!(!composer.paste_burst.active);
    assert!(composer.paste_burst.buffer.is_empty());
    assert_eq!(composer.effects, vec![ComposerEffect::SyncPopups]);
    assert!(!composer.undo_edit());
}

#[test]
fn a_cut_takes_elements_with_it_or_shortens_them() {
    let mut cut = draft("0123456789");
    cut.content.text_elements = vec![element(0, 3), element(3, 5), element(5, 8), element(8, 9)];
    cut.cut_bytes(ByteRange { start: 2, end: 6 });
    assert_eq!(cut.content.text, "016789");
    assert_eq!(cut.cursor, 6);
    assert_eq!(
        cut.content.text_elements,
        vec![element(0, 2), element(2, 4), element(4, 5)]
    );
    let before = cut.clone();
    cut.cut_bytes(ByteRange { start: 2, end: 2 });
    assert_eq!(cut, before);
}

#[test]
fn typing_inside_an_element_makes_it_longer() {
    let mut typed = draft("[ab]cd");
    typed.content.text_elements = vec![element(0, 4), element(4, 6)];
    typed.cursor = 2;
    typed.type_text("é");
    assert_eq!(typed.content.text, "[aéb]cd");
    assert_eq!(typed.cursor, 4);
    assert_eq!(typed.content.text_elements, vec![element(0, 6), element(6, 8)]);
}

#[test]
fn a_redo_after_an_undone_vim_edit_brings_the_whole_edit_back() {
    let mut composer = new_composer();
    set_draft(&mut composer, draft("base"));
    composer.vim.enabled = true;
    composer.begin_vim_edit_transaction();
    insert(&mut composer.draft, " and more");
    let edited = composer.snapshot_draft();

    assert!(composer.undo_edit());
    assert_eq!(current_text(&composer), "base");
    assert!(composer.redo_edit());
    assert_eq!(composer.snapshot_draft(), edited);
}
