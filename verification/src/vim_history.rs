//! Vim transaction boundaries for the shared composer undo history.
//!
//! The composer owns rich draft state that the editor cannot restore by itself. Vim editing
//! therefore contributes complete draft snapshots to the same bounded history as ordinary editor
//! actions, while this module owns only the pending transaction needed to group a complete Vim
//! command or insert session into one step.

use vstd::prelude::*;

use crate::composer::{ChatComposer, ComposerView};
use crate::drafts::{DraftView, EditableDraft};

verus! {

#[derive(Clone, Copy, Debug, PartialEq, Eq, Structural)]
pub enum VimMode {
    Normal,
    Insert,
}

/// What the repeat command would do again.
#[derive(Clone, Debug, PartialEq, Eq)]
pub struct VimCommands {
    pub last_change: Vec<char>,
}

/// What Vim remembers across drafts.
#[derive(Clone, Debug, PartialEq, Eq)]
pub struct VimPersistentState {
    pub commands: VimCommands,
    pub register: String,
}

/// The Vim side of the editor.
#[derive(Clone, Debug, PartialEq, Eq)]
pub struct VimState {
    pub enabled: bool,
    pub mode: VimMode,
    pub operator_pending: bool,
    pub insert_session_open: bool,
    pub persistent: VimPersistentState,
}

/// The draft before a Vim edit that is not complete yet.
#[derive(Clone, Debug)]
pub struct VimEditTransaction {
    pub pending: Option<EditableDraft>,
}

/// Which normal-mode bindings a key presses.
#[derive(Clone, Copy, Debug, PartialEq, Eq, Structural)]
pub struct VimNormalKeyPresses {
    pub move_left: bool,
    pub move_right: bool,
    pub move_up: bool,
    pub move_down: bool,
    pub move_word_forward: bool,
    pub move_word_backward: bool,
    pub move_word_end: bool,
    pub move_line_start: bool,
    pub move_line_end: bool,
    pub find_forward: bool,
    pub find_backward: bool,
    pub jump_top: bool,
    pub jump_bottom: bool,
    /// Whether the editor takes the key for a search.
    pub search: bool,
    pub yank_line: bool,
    pub start_yank_operator: bool,
    pub cancel_operator: bool,
}

pub struct VimView {
    pub enabled: bool,
    pub mode: VimMode,
    pub operator_pending: bool,
    pub insert_session_open: bool,
    pub last_change: Seq<char>,
    pub register: Seq<char>,
}

impl View for VimState {
    type V = VimView;

    open spec fn view(&self) -> VimView {
        VimView {
            enabled: self.enabled,
            mode: self.mode,
            operator_pending: self.operator_pending,
            insert_session_open: self.insert_session_open,
            last_change: self.persistent.commands.last_change@,
            register: self.persistent.register@,
        }
    }
}

impl View for VimEditTransaction {
    type V = Option<DraftView>;

    open spec fn view(&self) -> Option<DraftView> {
        self.pending.deep_view()
    }
}

impl VimNormalKeyPresses {
    /// Whether the key can only move, search, yank or cancel.
    pub open spec fn leaves_the_draft_alone(self) -> bool {
        ||| self.move_left
        ||| self.move_right
        ||| self.move_up
        ||| self.move_down
        ||| self.move_word_forward
        ||| self.move_word_backward
        ||| self.move_word_end
        ||| self.move_line_start
        ||| self.move_line_end
        ||| self.find_forward
        ||| self.find_backward
        ||| self.jump_top
        ||| self.jump_bottom
        ||| self.search
        ||| self.yank_line
        ||| self.start_yank_operator
        ||| self.cancel_operator
    }
}

impl VimView {
    pub open spec fn in_normal_mode(self) -> bool {
        self.enabled && self.mode == VimMode::Normal
    }
}

impl ComposerView {
    /// A Vim edit is under way that began at the present draft.
    pub open spec fn vim_edit_begun(self) -> Self {
        ComposerView { pending_vim_edit: Some(self.draft), ..self }
    }

    /// Whether a key starts a Vim edit.
    pub open spec fn key_begins_vim_edit(self, key: VimNormalKeyPresses) -> bool {
        &&& self.vim.enabled
        &&& self.pending_vim_edit is None
        &&& !self.vim.operator_pending
        &&& !(self.vim.in_normal_mode() && key.leaves_the_draft_alone())
    }

    /// Whether an edit that comes from outside the Vim commands can be a Vim edit of its own.
    pub open spec fn direct_vim_edit_can_begin(self) -> bool {
        &&& self.vim.enabled
        &&& !self.vim.operator_pending
        &&& self.pending_vim_edit is None
        &&& !self.history_search_active
    }

    /// Whether the key that presses the undo binding undoes.
    pub open spec fn vim_undo_applies(self, undo_pressed: bool) -> bool {
        &&& self.vim.in_normal_mode()
        &&& !self.vim.operator_pending
        &&& !self.popups_active
        &&& undo_pressed
    }

    /// Whether no Vim command is half typed and no insert session runs.
    pub open spec fn vim_edit_is_complete(self) -> bool {
        self.vim.in_normal_mode() && !self.vim.operator_pending
    }
}

impl Default for VimPersistentState {
    fn default() -> (state: Self)
        ensures
            state.commands.last_change@ == Seq::<char>::empty(),
            state.register@ == Seq::<char>::empty(),
    {
        VimPersistentState {
            commands: VimCommands { last_change: Vec::new() },
            register: String::new(),
        }
    }
}

impl VimState {
    pub fn new() -> (state: Self)
        ensures
            state@ == (VimView {
                enabled: false,
                mode: VimMode::Insert,
                operator_pending: false,
                insert_session_open: false,
                last_change: Seq::empty(),
                register: Seq::empty(),
            }),
    {
        VimState {
            enabled: false,
            mode: VimMode::Insert,
            operator_pending: false,
            insert_session_open: false,
            persistent: VimPersistentState::default(),
        }
    }

    pub fn is_normal_mode(&self) -> (normal: bool)
        ensures
            normal == self@.in_normal_mode(),
    {
        self.enabled && self.mode == VimMode::Normal
    }

    pub fn enter_normal_mode(&mut self)
        ensures
            final(self)@ == (VimView { mode: VimMode::Normal, ..old(self)@ }),
    {
        self.mode = VimMode::Normal;
    }

    pub fn finish_insert_session(&mut self)
        ensures
            final(self)@ == (VimView { insert_session_open: false, ..old(self)@ }),
    {
        self.insert_session_open = false;
    }

    /// Exchange what Vim remembers across drafts.
    pub fn swap_persistent_state(&mut self, state: &mut VimPersistentState)
        ensures
            *final(self) == (VimState { persistent: *old(state), ..*old(self) }),
            *final(state) == old(self).persistent,
    {
        std::mem::swap(&mut self.persistent, state);
    }
}

impl Default for VimEditTransaction {
    fn default() -> (transaction: Self)
        ensures
            transaction@ is None,
    {
        VimEditTransaction { pending: None }
    }
}

impl VimEditTransaction {
    pub fn is_active(&self) -> (active: bool)
        ensures
            active == (self@ is Some),
    {
        self.pending.is_some()
    }
}

impl ChatComposer {
    /// Apply the Vim normal-mode undo binding to the shared composer history. Returns whether the
    /// key was taken.
    pub fn handle_vim_history_key(&mut self, undo_pressed: bool) -> (handled: bool)
        requires
            old(self).wf(),
        ensures
            final(self).wf(),
            handled == old(self)@.vim_undo_applies(undo_pressed),
            final(self)@ == if handled {
                old(self)@.edit_undone()
            } else {
                old(self)@
            },
    {
        if !self.vim.is_normal_mode() || self.vim.operator_pending || self.popups_active
            || !undo_pressed {
            return false;
        }
        let _ = self.undo_edit();
        true
    }

    /// Snapshot only keys that can begin or complete a Vim edit transaction.
    pub fn begin_vim_edit(&mut self, key: VimNormalKeyPresses)
        requires
            old(self).wf(),
        ensures
            final(self).wf(),
            final(self)@ == if old(self)@.key_begins_vim_edit(key) {
                old(self)@.vim_edit_begun()
            } else {
                old(self)@
            },
    {
        if !self.vim.enabled || self.vim_edit_transaction.is_active() || self.vim.operator_pending {
            return;
        }
        if self.vim.is_normal_mode() && (key.move_left || key.move_right || key.move_up
            || key.move_down || key.move_word_forward || key.move_word_backward || key.move_word_end
            || key.move_line_start || key.move_line_end || key.find_forward || key.find_backward
            || key.jump_top || key.jump_bottom || key.search || key.yank_line
            || key.start_yank_operator || key.cancel_operator) {
            return;
        }
        self.begin_vim_edit_transaction();
    }

    /// Start one standalone draft edit without splitting an active Vim command. Such an edit is
    /// nothing that the repeat command could do again.
    pub fn begin_direct_vim_edit(&mut self) -> (begun: bool)
        requires
            old(self).wf(),
        ensures
            final(self).wf(),
            begun == old(self)@.direct_vim_edit_can_begin(),
            final(self)@ == if begun {
                let started = old(self)@.vim_edit_begun();
                ComposerView {
                    vim: VimView { last_change: Seq::empty(), ..started.vim },
                    ..started
                }
            } else {
                old(self)@
            },
    {
        if !self.vim.enabled || self.vim.operator_pending || self.vim_edit_transaction.is_active()
            || self.history_search_active {
            return false;
        }
        self.begin_vim_edit_transaction();
        let mut vim_state = VimPersistentState::default();
        self.vim.swap_persistent_state(&mut vim_state);
        vim_state.commands.last_change.clear();
        self.vim.swap_persistent_state(&mut vim_state);
        assert(self@.vim.last_change =~= Seq::empty());
        true
    }

    /// Remember the present draft as the one before the edit.
    pub fn begin_vim_edit_transaction(&mut self)
        requires
            old(self).wf(),
        ensures
            final(self).wf(),
            final(self)@ == old(self)@.vim_edit_begun(),
    {
        self.vim_edit_transaction.pending = Some(self.snapshot_draft());
    }

    /// Commit a complete normal-mode command or one insert-mode session.
    pub fn finish_vim_edit(&mut self)
        requires
            old(self).wf(),
        ensures
            final(self).wf(),
            final(self)@ == if old(self)@.vim_edit_is_complete() {
                old(self)@.vim_edit_committed()
            } else {
                old(self)@
            },
    {
        if !self.vim.is_normal_mode() || self.vim.operator_pending {
            return;
        }
        self.commit_pending_vim_edit();
    }

    /// Record the edit under way as one step.
    pub fn commit_pending_vim_edit(&mut self)
        requires
            old(self).wf(),
        ensures
            final(self).wf(),
            final(self)@ == old(self)@.vim_edit_committed(),
    {
        match self.vim_edit_transaction.pending.take() {
            None => {},
            Some(before_edit) => {
                self.record_edit_since(before_edit);
            },
        }
    }
}

/// From where nothing is under way, a key that begins a Vim edit, changes to the draft, and the
/// completion of the edit are one step: undoing it brings back exactly the draft that stood when the
/// edit began, with its elements, images, mentions, pastes and cursor, and nothing that was undone
/// before can be redone. An edit that changed nothing that the draft holds leaves the timeline alone.
///
/// `edited` is any state that the changes lead to: it holds what beginning the edit noted down.
pub proof fn law_a_vim_edit_is_undone_as_a_whole(
    idle: ComposerView,
    key: VimNormalKeyPresses,
    edited: ComposerView,
)
    requires
        idle.pending_vim_edit is None,
        idle.vim.enabled,
        !idle.vim.operator_pending,
        idle.vim.mode == VimMode::Insert || !(key.move_left || key.move_right || key.move_up
            || key.move_down || key.move_word_forward || key.move_word_backward
            || key.move_word_end || key.move_line_start || key.move_line_end || key.find_forward
            || key.find_backward || key.jump_top || key.jump_bottom || key.search || key.yank_line
            || key.start_yank_operator || key.cancel_operator),
        edited.pending_vim_edit == if idle.key_begins_vim_edit(key) {
            idle.vim_edit_begun()
        } else {
            idle
        }.pending_vim_edit,
        edited.undo_history == idle.undo_history,
        edited.vim.enabled,
        edited.vim.mode == VimMode::Normal,
        !edited.vim.operator_pending,
    ensures
        edited.pending_vim_edit is Some,
        ({
            let finished = if edited.vim_edit_is_complete() {
                edited.vim_edit_committed()
            } else {
                edited
            };
            &&& finished.pending_vim_edit is None
            &&& finished.draft == edited.draft
            &&& edited.draft.content == idle.draft.content ==> finished.undo_history
                == idle.undo_history
            &&& edited.draft.content != idle.draft.content && idle.undo_history.max_entries > 0
                && idle.draft.retained_bytes() <= idle.undo_history.max_retained_bytes ==> {
                &&& finished.can_undo()
                &&& finished.edit_undone().draft == idle.draft
                &&& !finished.can_redo()
            }
        }),
{
    if idle.undo_history.max_entries > 0 && idle.draft.retained_bytes()
        <= idle.undo_history.max_retained_bytes {
        crate::undo::law_record_keeps_the_newest_drafts(idle.undo_history, idle.draft);
    }
}

/// The same holds of an edit that comes from outside the Vim commands.
pub proof fn law_a_direct_vim_edit_is_undone_as_a_whole(idle: ComposerView, edited: ComposerView)
    requires
        idle.pending_vim_edit is None,
        idle.vim.enabled,
        !idle.vim.operator_pending,
        !idle.history_search_active,
        edited.pending_vim_edit == if idle.direct_vim_edit_can_begin() {
            idle.vim_edit_begun()
        } else {
            idle
        }.pending_vim_edit,
        edited.undo_history == idle.undo_history,
        edited.vim.enabled,
        edited.vim.mode == VimMode::Normal,
        !edited.vim.operator_pending,
    ensures
        edited.pending_vim_edit is Some,
        ({
            let finished = if edited.vim_edit_is_complete() {
                edited.vim_edit_committed()
            } else {
                edited
            };
            &&& finished.pending_vim_edit is None
            &&& finished.draft == edited.draft
            &&& edited.draft.content == idle.draft.content ==> finished.undo_history
                == idle.undo_history
            &&& edited.draft.content != idle.draft.content && idle.undo_history.max_entries > 0
                && idle.draft.retained_bytes() <= idle.undo_history.max_retained_bytes ==> {
                &&& finished.can_undo()
                &&& finished.edit_undone().draft == idle.draft
                &&& !finished.can_redo()
            }
        }),
{
    if idle.undo_history.max_entries > 0 && idle.draft.retained_bytes()
        <= idle.undo_history.max_retained_bytes {
        crate::undo::law_record_keeps_the_newest_drafts(idle.undo_history, idle.draft);
    }
}

/// Beginning a Vim edit notes the present draft down and changes nothing else.
pub proof fn law_beginning_a_vim_edit_changes_nothing(composer: ComposerView)
    ensures
        ({
            let begun = composer.vim_edit_begun();
            &&& begun.pending_vim_edit == Some(composer.draft)
            &&& begun.draft == composer.draft
            &&& begun.undo_history == composer.undo_history
            &&& begun.vim == composer.vim
            &&& begun.paste_burst == composer.paste_burst
            &&& begun.history_search_active == composer.history_search_active
            &&& begun.popups_active == composer.popups_active
            &&& begun.effects == composer.effects
        }),
{
}

/// In normal mode, a key that can only move, search, yank or cancel begins no edit. Nor does any key
/// outside of Vim, behind an operator, or inside an edit that is under way.
pub proof fn law_keys_that_change_nothing_begin_no_edit(
    composer: ComposerView,
    key: VimNormalKeyPresses,
)
    requires
        ({
            ||| !composer.vim.enabled
            ||| composer.vim.operator_pending
            ||| composer.pending_vim_edit is Some
            ||| composer.vim.mode == VimMode::Normal && (key.move_left || key.move_right
                || key.move_up || key.move_down || key.move_word_forward || key.move_word_backward
                || key.move_word_end || key.move_line_start || key.move_line_end
                || key.find_forward || key.find_backward || key.jump_top || key.jump_bottom
                || key.search || key.yank_line || key.start_yank_operator || key.cancel_operator)
        }),
    ensures
        !composer.key_begins_vim_edit(key),
{
}

/// A Vim edit goes on until the editor is back in normal mode with no operator pending.
pub proof fn law_a_vim_edit_goes_on_until_normal_mode(composer: ComposerView)
    ensures
        composer.vim_edit_is_complete() <==> composer.vim.enabled && composer.vim.mode
            == VimMode::Normal && !composer.vim.operator_pending,
{
}

/// The undo key of normal mode undoes there alone: not while text is inserted, behind an operator or
/// below a popup. Every other key is left to others.
pub proof fn law_the_undo_key_belongs_to_normal_mode(composer: ComposerView, undo_pressed: bool)
    ensures
        composer.vim_undo_applies(undo_pressed) <==> undo_pressed && composer.vim.enabled
            && composer.vim.mode == VimMode::Normal && !composer.vim.operator_pending
            && !composer.popups_active,
{
}

/// The states of Vim that are told apart by nothing in their views are the same.
pub proof fn law_the_view_of_vim_is_all_of_it(
    left: VimState,
    right: VimState,
    edit: VimEditTransaction,
    other_edit: VimEditTransaction,
)
    ensures
        left@ == right@ ==> left.enabled == right.enabled && left.mode == right.mode
            && left.operator_pending == right.operator_pending && left.insert_session_open
            == right.insert_session_open && left.persistent.commands.last_change@
            == right.persistent.commands.last_change@ && left.persistent.register@
            == right.persistent.register@,
        edit@ == other_edit@ ==> edit.pending is Some == other_edit.pending is Some && (
        edit.pending matches Some(draft) ==> draft@ == other_edit.pending->0@),
{
    if edit@ == other_edit@ {
        if let Some(draft) = edit.pending {
            assert(edit@ == Some(draft.deep_view()));
            assert(other_edit@ == Some(other_edit.pending->0.deep_view()));
        }
    }
}

/// An edit that is made without a key of Vim's own begins exactly where Vim is on, waits for nothing, no
/// edit is open and nothing is searched for.
pub proof fn law_a_direct_vim_edit_begins_only_where_none_is_open(composer: ComposerView)
    ensures
        composer.direct_vim_edit_can_begin() <==> composer.vim.enabled
            && !composer.vim.operator_pending && composer.pending_vim_edit is None
            && !composer.history_search_active,
{
}

} // verus!
