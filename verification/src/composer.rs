//! Composer-level coordination for shared undo and redo history.
//!
//! Storage and byte bounds live in [`crate::undo`]. This module owns the transitions that must
//! keep rich drafts, Vim transactions, history recall, and detected paste bursts on one timeline.

use vstd::prelude::*;

use crate::content::Content;
use crate::drafts::{ByteRange, DraftView, EditableDraft, TextElement};
use crate::text::char_text;
use crate::undo::{ComposerUndoHistory, UndoHistoryView};
use crate::vim_history::{VimEditTransaction, VimMode, VimPersistentState, VimState, VimView};

verus! {

/// What the composer asks its surroundings to do once it has changed.
#[derive(Clone, Copy, Debug, PartialEq, Eq, Structural)]
pub enum ComposerEffect {
    /// Open or close the popups that belong to the current text.
    SyncPopups,
    /// Let the editor choose its Vim mode for the result of a dispatched key.
    ResetVimModeAfterDispatch,
}

/// What a dispatched key led to.
#[derive(Clone, Debug, PartialEq, Eq)]
pub enum InputResult {
    Submitted { text: String },
    Queued { text: String },
    Command(String),
    ServiceTierCommand(String),
    /// The command, its arguments, and the elements of the text of the arguments.
    CommandWithArgs(String, String, Vec<TextElement>),
    /// The prompt stays in the composer.
    Nothing,
}

/// The way in which recall walks the prompts sent earlier.
#[derive(Clone, Copy, Debug, PartialEq, Eq, Structural)]
pub enum HistoryDirection {
    Older,
    Newer,
}

/// A recalled prompt, as the draft it turns into once the editor shows it.
#[derive(Clone, Debug, PartialEq, Eq)]
pub struct HistoryNavigation {
    pub recalled: EditableDraft,
    pub direction: HistoryDirection,
}

/// Typed characters held back while they look like a paste.
#[derive(Clone, Debug, PartialEq, Eq)]
pub struct PasteBurst {
    pub active: bool,
    pub buffer: Vec<char>,
    /// When the newest character arrived, in milliseconds.
    pub last_char_at: Option<u64>,
}

/// Characters that turned out to be the start of a paste after they were typed into the draft.
#[derive(Clone, Debug, PartialEq, Eq)]
pub struct RetroGrab {
    /// Where they begin in the text.
    pub start_byte: usize,
    pub grabbed: String,
}

/// The prompt editor, as far as its undo history depends on it.
#[derive(Clone, Debug)]
pub struct ChatComposer {
    /// What the editor, its attachments and its pending pastes hold.
    pub draft: EditableDraft,
    pub vim: VimState,
    pub paste_burst: PasteBurst,
    pub history_search_active: bool,
    pub popups_active: bool,
    pub undo_history: ComposerUndoHistory,
    pub vim_edit_transaction: VimEditTransaction,
    /// What is left to do, oldest first.
    pub effects: Vec<ComposerEffect>,
}

pub struct PasteBurstView {
    pub active: bool,
    pub buffer: Seq<char>,
    pub last_char_at: Option<u64>,
}

#[verifier::ext_equal]
pub struct ComposerView {
    pub draft: DraftView,
    pub vim: VimView,
    pub paste_burst: PasteBurstView,
    pub history_search_active: bool,
    pub popups_active: bool,
    pub undo_history: UndoHistoryView,
    /// The draft before the Vim edit that is under way.
    pub pending_vim_edit: Option<DraftView>,
    pub effects: Seq<ComposerEffect>,
}

impl View for PasteBurst {
    type V = PasteBurstView;

    open spec fn view(&self) -> PasteBurstView {
        PasteBurstView {
            active: self.active,
            buffer: self.buffer@,
            last_char_at: self.last_char_at,
        }
    }
}

impl View for ChatComposer {
    type V = ComposerView;

    open spec fn view(&self) -> ComposerView {
        ComposerView {
            draft: self.draft@,
            vim: self.vim@,
            paste_burst: self.paste_burst@,
            history_search_active: self.history_search_active,
            popups_active: self.popups_active,
            undo_history: self.undo_history@,
            pending_vim_edit: self.vim_edit_transaction@,
            effects: self.effects@,
        }
    }
}

impl PasteBurstView {
    pub open spec fn cleared(self) -> Self {
        PasteBurstView { active: false, buffer: Seq::empty(), last_char_at: None }
    }

    pub open spec fn extended(self, next_char: char, now: u64) -> Self {
        PasteBurstView {
            buffer: self.buffer.push(next_char),
            last_char_at: Some(now),
            ..self
        }
    }
}

impl InputResult {
    /// Whether the prompt left the composer, so that what follows is a new prompt.
    pub open spec fn ends_the_prompt(&self) -> bool {
        !(self is Nothing)
    }
}

impl ComposerView {
    pub open spec fn requesting(self, effect: ComposerEffect) -> Self {
        ComposerView { effects: self.effects.push(effect), ..self }
    }

    pub open spec fn with_history(self, undo_history: UndoHistoryView) -> Self {
        ComposerView { undo_history, ..self }
    }

    /// The editor shows `draft`.
    pub open spec fn restored(self, draft: DraftView) -> Self {
        ComposerView { draft, ..self }.requesting(ComposerEffect::SyncPopups)
    }

    /// The edit that led from `before_edit` to the present draft is recorded, unless it belongs to
    /// a Vim edit under way or changed no content.
    pub open spec fn edit_recorded(self, before_edit: DraftView) -> Self {
        if self.pending_vim_edit is Some || before_edit.content == self.draft.content {
            self
        } else {
            self.with_history(self.undo_history.recorded(before_edit))
        }
    }

    /// Neither an undo nor a Vim edit reaches back beyond the present draft.
    pub open spec fn at_undo_baseline(self) -> Self {
        ComposerView { pending_vim_edit: None, ..self }.with_history(
            self.undo_history.emptied().advanced(),
        )
    }

    /// The Vim edit under way is recorded as one step.
    pub open spec fn vim_edit_committed(self) -> Self {
        match self.pending_vim_edit {
            Some(before_edit) => ComposerView { pending_vim_edit: None, ..self }.edit_recorded(
                before_edit,
            ),
            None => self,
        }
    }

    /// No Vim edit is under way any more, so that undo and redo see all of it.
    pub open spec fn ready_for_history_action(self) -> Self {
        if self.pending_vim_edit is Some {
            ComposerView {
                vim: VimView { insert_session_open: false, ..self.vim },
                ..self
            }.vim_edit_committed()
        } else {
            self
        }
    }

    /// The editor shows `draft` in Vim's normal mode.
    pub open spec fn restored_in_normal_mode(self, draft: DraftView) -> Self {
        let restored = self.restored(draft);
        ComposerView { vim: VimView { mode: VimMode::Normal, ..restored.vim }, ..restored }
    }

    /// One step back, where there is one.
    pub open spec fn edit_undone(self) -> Self {
        let ready = self.ready_for_history_action();
        match crate::undo::newest(ready.undo_history.undo) {
            Some(draft) => ready.with_history(
                ready.undo_history.undone(ready.draft),
            ).restored_in_normal_mode(draft),
            None => ready,
        }
    }

    pub open spec fn can_undo(self) -> bool {
        self.ready_for_history_action().undo_history.undo.len() > 0
    }

    /// One step forward, where there is one.
    pub open spec fn edit_redone(self) -> Self {
        let ready = self.ready_for_history_action();
        match crate::undo::newest(ready.undo_history.redo) {
            Some(draft) => ready.with_history(
                ready.undo_history.redone(ready.draft),
            ).restored_in_normal_mode(draft),
            None => ready,
        }
    }

    pub open spec fn can_redo(self) -> bool {
        self.ready_for_history_action().undo_history.redo.len() > 0
    }

    /// The draft next to the present one on the timeline, in the direction of recall.
    pub open spec fn adjacent_draft(self, direction: HistoryDirection) -> Option<DraftView> {
        match direction {
            HistoryDirection::Older => crate::undo::newest(self.undo_history.undo),
            HistoryDirection::Newer => crate::undo::newest(self.undo_history.redo),
        }
    }

    pub open spec fn stepped(self, direction: HistoryDirection) -> UndoHistoryView {
        match direction {
            HistoryDirection::Older => self.undo_history.undone(self.draft),
            HistoryDirection::Newer => self.undo_history.redone(self.draft),
        }
    }

    /// Recall shows a prompt. One that equals the adjacent draft is a step on the timeline, with
    /// the cursor at the end of the text; any other one starts a new timeline.
    pub open spec fn recalled(self, recalled: DraftView, direction: HistoryDirection) -> Self {
        let stepped = ComposerView { draft: recalled, ..self }.with_history(
            self.stepped(direction),
        );
        match self.adjacent_draft(direction) {
            Some(draft) => if draft.content == recalled.content {
                let restored = stepped.restored(draft);
                ComposerView {
                    draft: DraftView {
                        cursor: crate::drafts::utf8_len(draft.content.text) as usize,
                        ..restored.draft
                    },
                    ..restored
                }
            } else {
                stepped.at_undo_baseline()
            },
            None => stepped.at_undo_baseline(),
        }
    }

    /// The composer after a key whose handler turned `before` into `self`.
    pub open spec fn dispatched_from(self, before: Self, ended_the_prompt: bool) -> Self {
        let handled = self.requesting(ComposerEffect::ResetVimModeAfterDispatch);
        let recorded = if ended_the_prompt {
            handled.at_undo_baseline()
        } else if handled.undo_history.mutation_epoch == before.undo_history.mutation_epoch {
            handled.edit_recorded(before.draft)
        } else {
            handled
        };
        recorded.requesting(ComposerEffect::SyncPopups)
    }

    /// Whether the characters of `count` provisional edits can leave the timeline.
    pub open spec fn can_capture(self, count: nat, remaining: DraftView) -> bool {
        self.pending_vim_edit is Some || self.undo_history.has_provisional_edits(count, remaining)
    }

    /// The characters typed last, `grabbed` at the bytes of `cut`, move from the draft into the
    /// paste buffer, and their edits leave the timeline; where the timeline does not show those
    /// edits, the paste is given up and the next character is typed as any other.
    pub open spec fn retro_captured(
        self,
        grabbed: Seq<char>,
        cut: ByteRange,
        next_char: char,
        now: u64,
    ) -> Self {
        let remaining = self.draft.without(cut);
        if self.pending_vim_edit is Some {
            ComposerView {
                draft: remaining,
                paste_burst: self.paste_burst.extended(next_char, now),
                ..self
            }
        } else if self.undo_history.has_provisional_edits(grabbed.len(), remaining) {
            ComposerView {
                draft: remaining,
                paste_burst: self.paste_burst.extended(next_char, now),
                ..self
            }.with_history(self.undo_history.without_provisional_edits(grabbed.len()))
        } else {
            let restored = self.restored(self.draft);
            ComposerView {
                draft: self.draft.with_typed(seq![next_char]),
                paste_burst: self.paste_burst.cleared(),
                ..restored
            }
        }
    }
}

impl PasteBurst {
    /// Give up on the burst.
    pub fn clear_after_explicit_paste(&mut self)
        ensures
            final(self)@ == old(self)@.cleared(),
    {
        self.active = false;
        self.buffer.clear();
        self.last_char_at = None;
        assert(self@.buffer =~= Seq::empty());
    }

    /// Hold back one more character.
    pub fn append_char_to_buffer(&mut self, next_char: char, now: u64)
        ensures
            final(self)@ == old(self)@.extended(next_char, now),
    {
        self.buffer.push(next_char);
        self.last_char_at = Some(now);
    }
}

impl ChatComposer {
    /// The undo history keeps to its limits.
    pub open spec fn wf(&self) -> bool {
        self.undo_history.wf()
    }

    /// An editor that shows `draft` and has no history.
    pub fn new(draft: EditableDraft) -> (composer: Self)
        ensures
            composer.wf(),
            composer@.draft == draft@,
            composer@.vim == (VimView {
                enabled: false,
                mode: VimMode::Insert,
                operator_pending: false,
                insert_session_open: false,
                last_change: Seq::empty(),
                register: Seq::empty(),
            }),
            composer@.paste_burst == (PasteBurstView {
                active: false,
                buffer: Seq::empty(),
                last_char_at: None,
            }),
            !composer@.history_search_active,
            !composer@.popups_active,
            composer@.undo_history.undo.len() == 0,
            composer@.undo_history.redo.len() == 0,
            composer@.undo_history.max_entries == crate::undo::MAX_HISTORY_ENTRIES,
            composer@.undo_history.max_retained_bytes == crate::undo::MAX_RETAINED_BYTES,
            composer@.undo_history.mutation_epoch == 0,
            composer@.pending_vim_edit is None,
            composer@.effects.len() == 0,
    {
        let paste_burst = PasteBurst { active: false, buffer: Vec::new(), last_char_at: None };
        assert(paste_burst@.buffer =~= Seq::empty());
        ChatComposer {
            draft,
            vim: VimState::new(),
            paste_burst,
            history_search_active: false,
            popups_active: false,
            undo_history: ComposerUndoHistory::default(),
            vim_edit_transaction: VimEditTransaction::default(),
            effects: Vec::new(),
        }
    }

    /// The draft as it stands.
    pub fn snapshot_draft(&self) -> (draft: EditableDraft)
        ensures
            draft@ == self@.draft,
    {
        self.draft.duplicate()
    }

    /// Show `draft` in the editor.
    pub fn restore_draft(&mut self, draft: EditableDraft)
        requires
            old(self).wf(),
        ensures
            final(self).wf(),
            final(self)@ == old(self)@.restored(draft@),
    {
        self.draft = draft;
        self.effects.push(ComposerEffect::SyncPopups);
    }

    /// Record the edit that led from `before_edit` to the present draft, if it was one.
    pub fn record_edit_since(&mut self, before_edit: EditableDraft)
        requires
            old(self).wf(),
        ensures
            final(self).wf(),
            final(self)@ == old(self)@.edit_recorded(before_edit@),
    {
        if self.vim_edit_transaction.is_active() {
            return;
        }
        if before_edit.has_same_content(&self.draft) {
            return;
        }
        let _ = self.undo_history.record(before_edit);
    }

    /// Start a new timeline at the present draft.
    pub fn establish_undo_baseline(&mut self)
        requires
            old(self).wf(),
        ensures
            final(self).wf(),
            final(self)@ == old(self)@.at_undo_baseline(),
    {
        self.vim_edit_transaction = VimEditTransaction::default();
        self.undo_history.clear();
    }

    /// Step back. Returns whether there was anything to undo.
    pub fn undo_edit(&mut self) -> (undone: bool)
        requires
            old(self).wf(),
        ensures
            final(self).wf(),
            undone == old(self)@.can_undo(),
            final(self)@ == old(self)@.edit_undone(),
    {
        self.finish_pending_vim_edit_for_history_action();
        let current = self.snapshot_draft();
        match self.undo_history.undo(current) {
            None => {
                false
            },
            Some(draft) => {
                self.restore_draft_preserving_vim_state(draft);
                self.vim.enter_normal_mode();
                true
            },
        }
    }

    /// Step forward. Returns whether there was anything to redo.
    pub fn redo_edit(&mut self) -> (redone: bool)
        requires
            old(self).wf(),
        ensures
            final(self).wf(),
            redone == old(self)@.can_redo(),
            final(self)@ == old(self)@.edit_redone(),
    {
        self.finish_pending_vim_edit_for_history_action();
        let current = self.snapshot_draft();
        match self.undo_history.redo(current) {
            None => {
                false
            },
            Some(draft) => {
                self.restore_draft_preserving_vim_state(draft);
                self.vim.enter_normal_mode();
                true
            },
        }
    }

    /// Close a Vim edit under way, so that undo and redo treat it as one step.
    pub fn finish_pending_vim_edit_for_history_action(&mut self)
        requires
            old(self).wf(),
        ensures
            final(self).wf(),
            final(self)@ == old(self)@.ready_for_history_action(),
    {
        if self.vim_edit_transaction.is_active() {
            self.vim.finish_insert_session();
            self.commit_pending_vim_edit();
        }
    }

    /// Show `draft` without touching what Vim remembers across edits.
    fn restore_draft_preserving_vim_state(&mut self, draft: EditableDraft)
        requires
            old(self).wf(),
        ensures
            final(self).wf(),
            final(self)@ == old(self)@.restored(draft@),
    {
        let mut vim_state = VimPersistentState::default();
        self.vim.swap_persistent_state(&mut vim_state);
        self.restore_draft(draft);
        self.vim.swap_persistent_state(&mut vim_state);
    }

    /// Show a recalled prompt, as a step on the timeline where it is one.
    pub fn apply_history_navigation(&mut self, navigation: HistoryNavigation)
        requires
            old(self).wf(),
        ensures
            final(self).wf(),
            final(self)@ == old(self)@.recalled(navigation.recalled@, navigation.direction),
    {
        let current = self.snapshot_draft();
        self.draft = navigation.recalled;
        let recalled = self.snapshot_draft();
        let adjacent_draft = match navigation.direction {
            HistoryDirection::Older => self.undo_history.undo(current),
            HistoryDirection::Newer => self.undo_history.redo(current),
        };
        match adjacent_draft {
            Some(draft) => {
                if draft.has_same_content(&recalled) {
                    self.restore_draft_preserving_vim_state(draft);
                    self.move_cursor_to_history_entry_end();
                } else {
                    self.establish_undo_baseline();
                }
            },
            None => {
                self.establish_undo_baseline();
            },
        }
    }

    fn move_cursor_to_history_entry_end(&mut self)
        requires
            old(self).wf(),
        ensures
            final(self).wf(),
            final(self)@ == (ComposerView {
                draft: DraftView {
                    cursor: crate::drafts::utf8_len(old(self)@.draft.content.text) as usize,
                    ..old(self)@.draft
                },
                ..old(self)@
            }),
    {
        self.draft.cursor = crate::drafts::utf8_bytes(self.draft.content.text.as_str());
    }

    /// Run a key handler and record what it changed as one undo step, unless the handler recorded
    /// it already or the prompt left the composer.
    pub fn dispatch_with_undo_history<F: FnOnce(&mut ChatComposer) -> (InputResult, bool)>(
        &mut self,
        dispatch: F,
    ) -> (result: (InputResult, bool))
        requires
            old(self).wf(),
            forall|handled: &mut ChatComposer|
                *handled == *old(self) ==> #[trigger] dispatch.requires((handled,)),
            forall|handled: &mut ChatComposer, outcome: (InputResult, bool)|
                *handled == *old(self) && #[trigger] dispatch.ensures((handled,), outcome)
                    ==> final(handled).wf(),
        ensures
            final(self).wf(),
            exists|handled: &mut ChatComposer|
                #![trigger dispatch.ensures((handled,), result)]
                {
                    &&& *handled == *old(self)
                    &&& dispatch.ensures((handled,), result)
                    &&& final(self)@ == final(handled)@.dispatched_from(
                        old(self)@,
                        result.0.ends_the_prompt(),
                    )
                },
    {
        let before_edit = self.snapshot_draft();
        let history_epoch_before_dispatch: u64 = self.undo_history.mutation_epoch();
        let result = dispatch(self);
        self.effects.push(ComposerEffect::ResetVimModeAfterDispatch);
        // Direct paste and Vim handlers may already have recorded the same user action.
        let nested_handler_mutated_history = self.undo_history.mutation_epoch()
            != history_epoch_before_dispatch;
        let ended_the_prompt = match &result.0 {
            InputResult::Nothing => false,
            _ => true,
        };
        if ended_the_prompt {
            self.establish_undo_baseline();
        } else if !nested_handler_mutated_history {
            self.record_edit_since(before_edit);
        }
        self.effects.push(ComposerEffect::SyncPopups);
        result
    }

    /// Move the characters from `grab.start_byte` to `end_byte` out of the draft to the paste
    /// buffer, with `next_char` behind them. The paste buffer holds the grabbed characters already.
    pub fn move_retro_capture_to_paste_buffer(
        &mut self,
        grab: RetroGrab,
        end_byte: usize,
        next_char: char,
        now: u64,
    )
        requires
            old(self).wf(),
            (ByteRange { start: grab.start_byte, end: end_byte }).lies_in(
                old(self)@.draft.content.text,
            ),
            old(self)@.draft.cursor_is_placed(),
        ensures
            final(self).wf(),
            final(self)@ == old(self)@.retro_captured(
                grab.grabbed@,
                ByteRange { start: grab.start_byte, end: end_byte },
                next_char,
                now,
            ),
    {
        let draft_before_retro_capture = if self.vim_edit_transaction.is_active() {
            None
        } else {
            Some(self.snapshot_draft())
        };
        let provisional_edit_count: usize = grab.grabbed.as_str().unicode_len();
        self.draft.cut_bytes(ByteRange { start: grab.start_byte, end: end_byte });

        match draft_before_retro_capture {
            Some(draft_before_retro_capture) => {
                let expected_before_provisional_edits = self.snapshot_draft();
                if !self.undo_history.try_discard_provisional_edits(
                    provisional_edit_count,
                    &expected_before_provisional_edits,
                ) {
                    self.restore_draft(draft_before_retro_capture);
                    self.paste_burst.clear_after_explicit_paste();
                    self.draft.type_text(char_text(next_char).as_str());
                    return;
                }
            },
            None => {},
        }

        self.paste_burst.append_char_to_buffer(next_char, now);
    }
}

/// Undoing an edit that was just recorded brings back the draft before it.
pub proof fn law_undo_restores_the_draft_before_the_edit(
    composer: ComposerView,
    before_edit: DraftView,
)
    requires
        composer.pending_vim_edit is None,
        before_edit.content != composer.draft.content,
        composer.undo_history.accepts(before_edit),
    ensures
        composer.edit_recorded(before_edit).can_undo(),
        composer.edit_recorded(before_edit).edit_undone().draft == before_edit,
{
    crate::undo::law_record_keeps_the_newest_drafts(composer.undo_history, before_edit);
}

/// A redo right after an undo brings back the draft that was undone, also where the undo closed a
/// Vim edit. There is something to redo wherever the history has room for that draft.
pub proof fn law_redo_restores_the_undone_draft(composer: ComposerView)
    requires
        composer.can_undo(),
    ensures
        composer.edit_undone().can_redo() ==> composer.edit_undone().edit_redone().draft
            == composer.draft,
        ({
            let history = composer.ready_for_history_action().undo_history;
            history.with_undo(history.undo.drop_last()).with_redo(
                history.redo.push(composer.draft),
            ).within_limits()
        }) ==> composer.edit_undone().can_redo(),
{
    crate::undo::law_redo_returns_what_undo_replaced(
        composer.ready_for_history_action().undo_history,
        composer.draft,
    );
}

/// A change of the cursor alone is no undo step, and leaves everything redoable.
pub proof fn law_cursor_motion_keeps_the_timeline(composer: ComposerView, cursor: usize)
    ensures
        composer.edit_recorded(DraftView { cursor, ..composer.draft }) == composer,
{
}

/// An edit that diverges from the undone one leaves nothing to redo.
pub proof fn law_a_divergent_edit_discards_redo(composer: ComposerView, before_edit: DraftView)
    requires
        composer.pending_vim_edit is None,
        before_edit.content != composer.draft.content,
    ensures
        !composer.edit_recorded(before_edit).can_redo(),
{
    crate::undo::law_trimming_drops_only_the_oldest(
        composer.undo_history.with_undo(
            composer.undo_history.undo.push(before_edit),
        ).with_redo(Seq::empty()),
    );
}

/// A prompt that left the composer cannot be undone into the next one.
pub proof fn law_submission_starts_a_new_history(before: ComposerView, handled: ComposerView)
    ensures
        !handled.dispatched_from(before, true).can_undo(),
        !handled.dispatched_from(before, true).can_redo(),
        handled.dispatched_from(before, true).draft == handled.draft,
{
}

/// What a key handler recorded itself is not recorded a second time.
pub proof fn law_a_nested_edit_is_recorded_once(before: ComposerView, handled: ComposerView)
    requires
        handled.undo_history.mutation_epoch != before.undo_history.mutation_epoch,
    ensures
        handled.dispatched_from(before, false).undo_history == handled.undo_history,
{
}

/// Edits inside a Vim edit stay off the timeline, and completing it adds one step that undo
/// reverses as a whole.
pub proof fn law_a_vim_edit_is_one_step(
    begun: ComposerView,
    inside: DraftView,
    edited: ComposerView,
)
    requires
        begun.pending_vim_edit is None,
        edited.pending_vim_edit == Some(begun.draft),
        edited.undo_history == begun.undo_history,
        edited.draft.content != begun.draft.content,
        begun.undo_history.accepts(begun.draft),
    ensures
        edited.edit_recorded(inside) == edited,
        edited.vim_edit_committed().pending_vim_edit is None,
        edited.vim_edit_committed().undo_history == begun.undo_history.recorded(begun.draft),
        edited.edit_undone().draft == begun.draft,
{
    crate::undo::law_record_keeps_the_newest_drafts(begun.undo_history, begun.draft);
}

/// Recalling the adjacent draft is a step on the timeline, and no undo step of its own: its content
/// comes back with the cursor at the end of the text.
pub proof fn law_matching_recall_reuses_the_timeline(
    composer: ComposerView,
    recalled: DraftView,
    direction: HistoryDirection,
)
    requires
        composer.adjacent_draft(direction) matches Some(draft) && draft.content == recalled.content,
    ensures
        composer.recalled(recalled, direction).draft.content == recalled.content,
        composer.recalled(recalled, direction).draft.cursor == crate::drafts::utf8_len(
            recalled.content.text,
        ) as usize,
        composer.recalled(recalled, direction).undo_history == composer.stepped(direction),
{
}

/// Recalling anything else starts a new timeline at the recalled prompt.
pub proof fn law_unrelated_recall_starts_a_new_timeline(
    composer: ComposerView,
    recalled: DraftView,
    direction: HistoryDirection,
)
    requires
        composer.adjacent_draft(direction) matches Some(draft) ==> draft.content
            != recalled.content,
    ensures
        composer.recalled(recalled, direction).draft == recalled,
        !composer.recalled(recalled, direction).can_undo(),
        !composer.recalled(recalled, direction).can_redo(),
{
}

/// A detected paste is one undo step: moving its first characters to the paste buffer takes their
/// edits off the timeline, which then ends where the paste began.
pub proof fn law_a_detected_paste_leaves_no_steps_behind(
    typed: ComposerView,
    history: UndoHistoryView,
    drafts: Seq<DraftView>,
    grabbed: Seq<char>,
    cut: ByteRange,
    next_char: char,
    now: u64,
)
    requires
        drafts.len() > 0,
        grabbed.len() == drafts.len(),
        typed.draft.without(cut) == drafts[0],
        typed.pending_vim_edit is None,
        typed.undo_history == history.recorded_all(drafts),
        history.with_undo(history.undo + drafts).with_redo(Seq::empty()).within_limits(),
    ensures
        typed.retro_captured(grabbed, cut, next_char, now).undo_history.undo == history.undo,
        typed.retro_captured(grabbed, cut, next_char, now).draft == drafts[0],
{
    crate::undo::law_discarding_provisional_edits_reverses_their_recording(history, drafts);
}

/// Where the timeline does not show the typed characters, no step is lost and the draft keeps
/// every character, the next one included.
pub proof fn law_a_missed_paste_loses_no_history(
    typed: ComposerView,
    grabbed: Seq<char>,
    cut: ByteRange,
    next_char: char,
    now: u64,
)
    requires
        !typed.can_capture(grabbed.len(), typed.draft.without(cut)),
    ensures
        typed.retro_captured(grabbed, cut, next_char, now).undo_history == typed.undo_history,
        typed.retro_captured(grabbed, cut, next_char, now).draft == typed.draft.with_typed(
            seq![next_char],
        ),
{
}

/// Every key that changes what the draft holds, and leaves the prompt in the composer, is one step on
/// the timeline: undoing it brings back the draft before the key, be it longer or shorter, and what
/// had been undone before cannot be redone any more. It is stated of keys that no Vim edit is under
/// way for and whose handler recorded nothing itself.
pub proof fn law_a_dispatched_edit_is_one_step(
    before: ComposerView,
    handled: ComposerView,
    result: InputResult,
)
    requires
        result is Nothing,
        handled.pending_vim_edit is None,
        handled.undo_history.mutation_epoch == before.undo_history.mutation_epoch,
        handled.draft.content != before.draft.content,
        handled.undo_history.max_entries > 0,
        before.draft.retained_bytes() <= handled.undo_history.max_retained_bytes,
    ensures
        ({
            let after = handled.dispatched_from(before, result.ends_the_prompt());
            let undone = after.edit_undone();
            &&& after.draft == handled.draft
            &&& after.can_undo()
            &&& !after.can_redo()
            &&& undone.draft == before.draft
            &&& handled.undo_history.with_undo(
                handled.undo_history.undo.push(before.draft),
            ).with_redo(Seq::empty()).within_limits() ==> after.undo_history.undo
                == handled.undo_history.undo.push(before.draft)
        }),
{
    crate::undo::law_record_keeps_the_newest_drafts(handled.undo_history, before.draft);
}

/// A key that changes nothing that the draft holds is no step, wherever it leaves the cursor, and a
/// key inside a Vim edit is a step of that edit alone.
pub proof fn law_a_dispatch_without_an_edit_keeps_the_timeline(
    before: ComposerView,
    handled: ComposerView,
    result: InputResult,
)
    requires
        result is Nothing,
        handled.draft.content == before.draft.content || handled.pending_vim_edit is Some,
    ensures
        handled.dispatched_from(before, result.ends_the_prompt()).undo_history
            == handled.undo_history,
{
}

/// Whatever a key leads to, dispatching it takes nothing from what its handler made of the composer,
/// and asks for the Vim mode and then for the popups to be brought up to date.
pub proof fn law_a_dispatch_keeps_what_its_handler_did(
    before: ComposerView,
    handled: ComposerView,
    result: InputResult,
)
    ensures
        ({
            let after = handled.dispatched_from(before, result.ends_the_prompt());
            &&& after.draft == handled.draft
            &&& after.vim == handled.vim
            &&& after.paste_burst == handled.paste_burst
            &&& after.history_search_active == handled.history_search_active
            &&& after.popups_active == handled.popups_active
            &&& after.effects == handled.effects + seq![
                ComposerEffect::ResetVimModeAfterDispatch,
                ComposerEffect::SyncPopups,
            ]
            &&& result is Nothing ==> after.pending_vim_edit == handled.pending_vim_edit
        }),
{
    let after = handled.dispatched_from(before, result.ends_the_prompt());
    assert(after.effects =~= handled.effects + seq![
        ComposerEffect::ResetVimModeAfterDispatch,
        ComposerEffect::SyncPopups,
    ]);
}

/// Whatever takes the prompt out of the composer, be it submitted, queued or run as a command, leaves
/// neither an undo nor a redo nor a Vim edit that reaches back to it.
pub proof fn law_a_prompt_that_left_cannot_be_brought_back(
    before: ComposerView,
    handled: ComposerView,
    result: InputResult,
)
    requires
        result is Submitted || result is Queued || result is Command || result is ServiceTierCommand
            || result is CommandWithArgs,
    ensures
        ({
            let after = handled.dispatched_from(before, result.ends_the_prompt());
            &&& after.undo_history.undo.len() == 0
            &&& after.undo_history.redo.len() == 0
            &&& after.pending_vim_edit is None
            &&& after.edit_undone() == after
            &&& after.edit_redone() == after
        }),
{
}

/// Undoing shows the newest draft of the timeline in Vim's normal mode and asks for the popups. What
/// Vim remembers stays, and so does everything else but the timeline. Without a draft to go back to
/// nothing is shown at all.
pub proof fn law_an_undo_shows_a_draft_and_nothing_else(composer: ComposerView)
    requires
        composer.pending_vim_edit is None,
    ensures
        composer.undo_history.undo.len() == 0 ==> !composer.can_undo() && composer.edit_undone()
            == composer,
        composer.undo_history.undo.len() > 0 ==> {
            let undone = composer.edit_undone();
            &&& composer.can_undo()
            &&& undone.draft == composer.undo_history.undo.last()
            &&& undone.vim.mode == VimMode::Normal
            &&& undone.vim.enabled == composer.vim.enabled
            &&& undone.vim.operator_pending == composer.vim.operator_pending
            &&& undone.vim.insert_session_open == composer.vim.insert_session_open
            &&& undone.vim.last_change == composer.vim.last_change
            &&& undone.vim.register == composer.vim.register
            &&& undone.paste_burst == composer.paste_burst
            &&& undone.history_search_active == composer.history_search_active
            &&& undone.popups_active == composer.popups_active
            &&& undone.pending_vim_edit is None
            &&& undone.effects == composer.effects.push(ComposerEffect::SyncPopups)
        },
{
}

/// Redoing shows the draft that was undone last, in the same manner.
pub proof fn law_a_redo_shows_a_draft_and_nothing_else(composer: ComposerView)
    requires
        composer.pending_vim_edit is None,
    ensures
        composer.undo_history.redo.len() == 0 ==> !composer.can_redo() && composer.edit_redone()
            == composer,
        composer.undo_history.redo.len() > 0 ==> {
            let redone = composer.edit_redone();
            &&& composer.can_redo()
            &&& redone.draft == composer.undo_history.redo.last()
            &&& redone.vim.mode == VimMode::Normal
            &&& redone.vim.enabled == composer.vim.enabled
            &&& redone.vim.operator_pending == composer.vim.operator_pending
            &&& redone.vim.insert_session_open == composer.vim.insert_session_open
            &&& redone.vim.last_change == composer.vim.last_change
            &&& redone.vim.register == composer.vim.register
            &&& redone.paste_burst == composer.paste_burst
            &&& redone.history_search_active == composer.history_search_active
            &&& redone.popups_active == composer.popups_active
            &&& redone.pending_vim_edit is None
            &&& redone.effects == composer.effects.push(ComposerEffect::SyncPopups)
        },
{
}

/// An undo right after a redo brings back the draft that the redo replaced. There is something to
/// undo wherever the history has room for that draft.
pub proof fn law_undo_restores_the_redone_draft(composer: ComposerView)
    requires
        composer.can_redo(),
    ensures
        composer.edit_redone().can_undo() ==> composer.edit_redone().edit_undone().draft
            == composer.draft,
        ({
            let history = composer.ready_for_history_action().undo_history;
            history.with_redo(history.redo.drop_last()).with_undo(
                history.undo.push(composer.draft),
            ).within_limits()
        }) ==> composer.edit_redone().can_undo(),
{
    crate::undo::law_undo_returns_what_redo_replaced(
        composer.ready_for_history_action().undo_history,
        composer.draft,
    );
}

/// An undo or a redo in the middle of a Vim edit closes it first, as one step that starts at the
/// draft before the edit, and shuts the insert session. A Vim edit that changed nothing is no step.
pub proof fn law_a_history_action_closes_the_vim_edit(composer: ComposerView, before_edit: DraftView)
    requires
        composer.pending_vim_edit == Some(before_edit),
    ensures
        ({
            let ready = composer.ready_for_history_action();
            &&& ready.pending_vim_edit is None
            &&& !ready.vim.insert_session_open
            &&& ready.vim.mode == composer.vim.mode
            &&& ready.vim.register == composer.vim.register
            &&& ready.vim.last_change == composer.vim.last_change
            &&& ready.draft == composer.draft
            &&& ready.effects == composer.effects
            &&& composer.draft.content == before_edit.content ==> ready.undo_history
                == composer.undo_history
            &&& composer.draft.content != before_edit.content
                && composer.undo_history.max_entries > 0 && before_edit.retained_bytes()
                <= composer.undo_history.max_retained_bytes ==> {
                &&& composer.can_undo()
                &&& composer.edit_undone().draft == before_edit
                &&& !composer.can_redo()
            }
        }),
{
    if composer.undo_history.max_entries > 0 && before_edit.retained_bytes()
        <= composer.undo_history.max_retained_bytes {
        crate::undo::law_record_keeps_the_newest_drafts(composer.undo_history, before_edit);
    }
}

/// Showing a draft shows all of it, and neither records a step nor touches what Vim remembers.
pub proof fn law_restoring_shows_the_whole_draft(composer: ComposerView, draft: DraftView)
    ensures
        composer.restored(draft).draft == draft,
        composer.restored(draft).undo_history == composer.undo_history,
        composer.restored(draft).vim == composer.vim,
        composer.restored(draft).pending_vim_edit == composer.pending_vim_edit,
        composer.restored(draft).paste_burst == composer.paste_burst,
        composer.restored(draft).effects == composer.effects.push(ComposerEffect::SyncPopups),
{
}

/// A new timeline starts at the draft as it stands: there is nothing to undo, to redo or to complete,
/// and nothing else changes.
pub proof fn law_a_baseline_forgets_only_the_timeline(composer: ComposerView)
    ensures
        ({
            let fresh = composer.at_undo_baseline();
            &&& fresh.undo_history.undo.len() == 0
            &&& fresh.undo_history.redo.len() == 0
            &&& fresh.undo_history.max_entries == composer.undo_history.max_entries
            &&& fresh.undo_history.max_retained_bytes == composer.undo_history.max_retained_bytes
            &&& fresh.undo_history.mutation_epoch != composer.undo_history.mutation_epoch
            &&& fresh.pending_vim_edit is None
            &&& fresh.draft == composer.draft
            &&& fresh.vim == composer.vim
            &&& fresh.paste_burst == composer.paste_burst
            &&& fresh.effects == composer.effects
        }),
{
}

/// Recalling the older prompt that the newest undo step holds is that undo step, and recalling the
/// newer one that the newest redo step holds is that redo step: the timeline goes the same way.
pub proof fn law_recall_walks_the_timeline_in_its_direction(
    composer: ComposerView,
    recalled: DraftView,
)
    ensures
        composer.undo_history.undo.len() > 0 && composer.undo_history.undo.last().content
            == recalled.content ==> {
            let shown = composer.recalled(recalled, HistoryDirection::Older);
            &&& shown.draft.content == recalled.content
            &&& shown.undo_history == composer.undo_history.undone(composer.draft)
        },
        composer.undo_history.redo.len() > 0 && composer.undo_history.redo.last().content
            == recalled.content ==> {
            let shown = composer.recalled(recalled, HistoryDirection::Newer);
            &&& shown.draft.content == recalled.content
            &&& shown.undo_history == composer.undo_history.redone(composer.draft)
        },
        composer.undo_history.undo.len() == 0 || composer.undo_history.undo.last().content
            != recalled.content ==> {
            let shown = composer.recalled(recalled, HistoryDirection::Older);
            &&& shown.draft == recalled
            &&& shown.undo_history.undo.len() == 0
            &&& shown.undo_history.redo.len() == 0
        },
        composer.undo_history.redo.len() == 0 || composer.undo_history.redo.last().content
            != recalled.content ==> {
            let shown = composer.recalled(recalled, HistoryDirection::Newer);
            &&& shown.draft == recalled
            &&& shown.undo_history.undo.len() == 0
            &&& shown.undo_history.redo.len() == 0
        },
{
}

/// Recall keeps what Vim remembers and the characters of a burst.
pub proof fn law_recall_keeps_vim_and_the_burst(
    composer: ComposerView,
    recalled: DraftView,
    direction: HistoryDirection,
)
    ensures
        composer.recalled(recalled, direction).vim == composer.vim,
        composer.recalled(recalled, direction).paste_burst == composer.paste_burst,
        composer.recalled(recalled, direction).history_search_active
            == composer.history_search_active,
        composer.recalled(recalled, direction).popups_active == composer.popups_active,
{
}

/// Characters leave the draft for the paste buffer where the timeline has a step for each of them
/// that starts at the draft without them, and then exactly these steps go. The next character joins
/// them in the buffer, and what could be redone stays.
pub proof fn law_a_capture_takes_one_step_for_each_character(
    typed: ComposerView,
    grabbed: Seq<char>,
    cut: ByteRange,
    next_char: char,
    now: u64,
)
    requires
        typed.pending_vim_edit is None,
        0 < grabbed.len() <= typed.undo_history.undo.len(),
        typed.undo_history.undo[typed.undo_history.undo.len() - grabbed.len()]
            == typed.draft.without(cut),
    ensures
        ({
            let captured = typed.retro_captured(grabbed, cut, next_char, now);
            &&& captured.draft == typed.draft.without(cut)
            &&& captured.undo_history.undo == typed.undo_history.undo.take(
                typed.undo_history.undo.len() - grabbed.len(),
            )
            &&& captured.undo_history.redo == typed.undo_history.redo
            &&& captured.paste_burst.buffer == typed.paste_burst.buffer.push(next_char)
            &&& captured.paste_burst.active == typed.paste_burst.active
            &&& captured.paste_burst.last_char_at == Some(now)
            &&& captured.vim == typed.vim
            &&& captured.effects == typed.effects
        }),
{
}

/// Inside a Vim edit the characters leave the draft for the paste buffer as well, and the timeline
/// stays as it is: the edit as a whole will be one step of it.
pub proof fn law_a_capture_inside_a_vim_edit_keeps_the_timeline(
    typed: ComposerView,
    grabbed: Seq<char>,
    cut: ByteRange,
    next_char: char,
    now: u64,
)
    requires
        typed.pending_vim_edit is Some,
    ensures
        ({
            let captured = typed.retro_captured(grabbed, cut, next_char, now);
            &&& captured.draft == typed.draft.without(cut)
            &&& captured.undo_history == typed.undo_history
            &&& captured.pending_vim_edit == typed.pending_vim_edit
            &&& captured.paste_burst.buffer == typed.paste_burst.buffer.push(next_char)
            &&& captured.paste_burst.last_char_at == Some(now)
        }),
{
}

/// Where the timeline lacks a step for one of the characters, or does not start at the draft without
/// them, the draft keeps them and takes the next one, and the burst is over.
pub proof fn law_a_given_up_capture_types_on(
    typed: ComposerView,
    grabbed: Seq<char>,
    cut: ByteRange,
    next_char: char,
    now: u64,
)
    requires
        typed.pending_vim_edit is None,
        grabbed.len() == 0 || grabbed.len() > typed.undo_history.undo.len()
            || typed.undo_history.undo[typed.undo_history.undo.len() - grabbed.len()]
            != typed.draft.without(cut),
    ensures
        ({
            let typed_on = typed.retro_captured(grabbed, cut, next_char, now);
            &&& typed_on.draft == typed.draft.with_typed(seq![next_char])
            &&& typed_on.undo_history == typed.undo_history
            &&& !typed_on.paste_burst.active
            &&& typed_on.paste_burst.buffer.len() == 0
            &&& typed_on.paste_burst.last_char_at is None
            &&& typed_on.vim == typed.vim
            &&& typed_on.effects == typed.effects.push(ComposerEffect::SyncPopups)
        }),
{
}

/// Composers that are told apart by nothing in their views hold the same draft in the same state.
pub proof fn law_the_view_of_a_composer_is_all_of_it(left: ChatComposer, right: ChatComposer)
    requires
        left@ == right@,
    ensures
        left.draft@ == right.draft@,
        left.vim@ == right.vim@,
        left.paste_burst.active == right.paste_burst.active,
        left.paste_burst.buffer@ == right.paste_burst.buffer@,
        left.paste_burst.last_char_at == right.paste_burst.last_char_at,
        left.history_search_active == right.history_search_active,
        left.popups_active == right.popups_active,
        left.undo_history@ == right.undo_history@,
        left.vim_edit_transaction@ == right.vim_edit_transaction@,
        left.effects@ == right.effects@,
{
}

/// Recording an edit, or committing one that Vim has finished, changes the timeline and nothing that the
/// composer shows.
pub proof fn law_recording_changes_only_the_timeline(composer: ComposerView, before_edit: DraftView)
    ensures
        ({
            let recorded = composer.edit_recorded(before_edit);
            &&& recorded.draft == composer.draft
            &&& recorded.vim == composer.vim
            &&& recorded.paste_burst == composer.paste_burst
            &&& recorded.history_search_active == composer.history_search_active
            &&& recorded.popups_active == composer.popups_active
            &&& recorded.pending_vim_edit == composer.pending_vim_edit
            &&& recorded.effects == composer.effects
        }),
        ({
            let committed = composer.vim_edit_committed();
            &&& committed.draft == composer.draft
            &&& committed.vim == composer.vim
            &&& committed.paste_burst == composer.paste_burst
            &&& committed.history_search_active == composer.history_search_active
            &&& committed.popups_active == composer.popups_active
            &&& committed.pending_vim_edit is None
            &&& committed.effects == composer.effects
            &&& composer.pending_vim_edit is None ==> committed.undo_history
                == composer.undo_history
        }),
{
}

/// Starting over and showing a draft leave alone whatever is searched for or popped up.
pub proof fn law_a_search_and_popups_stay_open(composer: ComposerView, draft: DraftView)
    ensures
        composer.at_undo_baseline().history_search_active == composer.history_search_active,
        composer.at_undo_baseline().popups_active == composer.popups_active,
        composer.restored(draft).history_search_active == composer.history_search_active,
        composer.restored(draft).popups_active == composer.popups_active,
        composer.ready_for_history_action().history_search_active == composer.history_search_active,
        composer.ready_for_history_action().popups_active == composer.popups_active,
        composer.ready_for_history_action().paste_burst == composer.paste_burst,
{
}

/// A recalled prompt that stands on the timeline has the popups follow the draft and leaves an open edit
/// of Vim open; any other one closes it and asks for nothing.
pub proof fn law_a_recalled_prompt_is_shown_like_an_edit(
    composer: ComposerView,
    recalled: DraftView,
    direction: HistoryDirection,
)
    ensures
        ({
            let stack = match direction {
                HistoryDirection::Older => composer.undo_history.undo,
                HistoryDirection::Newer => composer.undo_history.redo,
            };
            let shown = composer.recalled(recalled, direction);
            if stack.len() > 0 && stack.last().content == recalled.content {
                &&& shown.effects == composer.effects.push(ComposerEffect::SyncPopups)
                &&& shown.pending_vim_edit == composer.pending_vim_edit
                &&& shown.draft.content == stack.last().content
                &&& shown.draft.cursor == crate::drafts::utf8_len(recalled.content.text) as usize
            } else {
                &&& shown.effects == composer.effects
                &&& shown.pending_vim_edit is None
                &&& shown.undo_history.max_entries == composer.undo_history.max_entries
                &&& shown.undo_history.max_retained_bytes
                    == composer.undo_history.max_retained_bytes
            }
        }),
{
    crate::undo::law_a_step_moves_one_draft_between_the_stacks(
        composer.undo_history,
        composer.draft,
    );
}

/// However a paste that was typed so far is dealt with, whatever is searched for or popped up stays as
/// it is, and so does an open edit of Vim.
pub proof fn law_a_capture_keeps_search_popups_and_vim(
    typed: ComposerView,
    grabbed: Seq<char>,
    cut: ByteRange,
    next_char: char,
    now: u64,
)
    ensures
        ({
            let captured = typed.retro_captured(grabbed, cut, next_char, now);
            &&& captured.history_search_active == typed.history_search_active
            &&& captured.popups_active == typed.popups_active
            &&& captured.pending_vim_edit == typed.pending_vim_edit
            &&& captured.vim == typed.vim
            &&& typed.pending_vim_edit is Some ==> captured.effects == typed.effects
                && captured.paste_burst.active == typed.paste_burst.active
        }),
        typed.can_capture(grabbed.len(), typed.draft.without(cut)) <==> typed.pending_vim_edit is Some
            || (0 < grabbed.len() <= typed.undo_history.undo.len()
            && typed.undo_history.undo[typed.undo_history.undo.len() - grabbed.len()]
            == typed.draft.without(cut)),
{
}

} // verus!
