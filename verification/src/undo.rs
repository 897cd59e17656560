//! Bounded undo and redo history for complete composer drafts.

use std::collections::VecDeque;

use vstd::prelude::*;

use crate::content::Content;
use crate::drafts::{DraftView, EditableDraft};

verus! {

/// Drafts that a history keeps at most.
pub const MAX_HISTORY_ENTRIES: usize = 100;

/// Bytes that the drafts of a history may keep alive.
pub const MAX_RETAINED_BYTES: usize = 33554432;

/// A draft with the bytes it was counted with.
#[derive(Clone, Debug)]
struct StoredDraft {
    retained_bytes: usize,
    draft: EditableDraft,
}

/// Undo and redo stacks that stay within a number of entries and a number of bytes.
#[derive(Clone, Debug)]
pub struct ComposerUndoHistory {
    undo: VecDeque<StoredDraft>,
    redo: VecDeque<StoredDraft>,
    /// Wider than a machine word: one draft over the limit must not overflow it.
    retained_bytes: u128,
    max_entries: usize,
    max_retained_bytes: usize,
    /// Changes whenever an operation mutates either history stack.
    mutation_epoch: u64,
}

/// The stacks, newest draft last, and the limits they keep to.
#[verifier::ext_equal]
pub struct UndoHistoryView {
    pub undo: Seq<DraftView>,
    pub redo: Seq<DraftView>,
    pub max_entries: usize,
    pub max_retained_bytes: usize,
    pub mutation_epoch: u64,
}

/// The bytes that a stack of drafts keeps alive.
pub open spec fn stack_bytes(stack: Seq<DraftView>) -> nat {
    crate::numbers::sum(stack.map_values(|draft: DraftView| draft.retained_bytes()))
}

/// The epoch that follows `epoch`.
pub open spec fn next_epoch(epoch: u64) -> u64 {
    if epoch == u64::MAX {
        0
    } else {
        (epoch + 1) as u64
    }
}

impl UndoHistoryView {
    pub open spec fn retained_bytes(self) -> nat {
        stack_bytes(self.undo) + stack_bytes(self.redo)
    }

    pub open spec fn within_limits(self) -> bool {
        &&& self.undo.len() + self.redo.len() <= self.max_entries
        &&& self.retained_bytes() <= self.max_retained_bytes
    }

    /// Whether `draft` alone is small enough to be kept.
    pub open spec fn fits(self, draft: DraftView) -> bool {
        draft.retained_bytes() <= self.max_retained_bytes
    }

    pub open spec fn with_undo(self, undo: Seq<DraftView>) -> Self {
        UndoHistoryView { undo, ..self }
    }

    pub open spec fn with_redo(self, redo: Seq<DraftView>) -> Self {
        UndoHistoryView { redo, ..self }
    }

    pub open spec fn advanced(self) -> Self {
        UndoHistoryView { mutation_epoch: next_epoch(self.mutation_epoch), ..self }
    }

    /// The history without its least useful draft: the oldest redo while there are several, then
    /// the oldest undo while there are several, then what is left, redo first.
    pub open spec fn without_least_useful(self) -> Self {
        if self.redo.len() > 1 {
            self.with_redo(self.redo.drop_first())
        } else if self.undo.len() > 1 {
            self.with_undo(self.undo.drop_first())
        } else if self.redo.len() > 0 {
            self.with_redo(self.redo.drop_first())
        } else {
            self.with_undo(self.undo.drop_first())
        }
    }

    /// The history after dropping as few drafts as bring it within its limits.
    pub open spec fn trimmed(self) -> Self
        decreases self.undo.len() + self.redo.len(),
    {
        if self.within_limits() || self.undo.len() + self.redo.len() == 0 {
            self
        } else {
            self.without_least_useful().trimmed()
        }
    }

    pub open spec fn emptied(self) -> Self {
        self.with_undo(Seq::empty()).with_redo(Seq::empty())
    }

    /// Whether a draft taken immediately before an edit is kept at all.
    pub open spec fn accepts(self, before_edit: DraftView) -> bool {
        self.max_entries > 0 && self.fits(before_edit)
    }

    /// The history once `before_edit` is recorded: nothing can be redone, and a draft that cannot
    /// be kept leaves nothing to be undone either.
    pub open spec fn recorded(self, before_edit: DraftView) -> Self {
        if self.accepts(before_edit) {
            self.with_undo(self.undo.push(before_edit)).with_redo(
                Seq::empty(),
            ).trimmed().advanced()
        } else {
            self.emptied().advanced()
        }
    }

    /// The history once its newest undo draft took the place of `current`.
    pub open spec fn undone(self, current: DraftView) -> Self {
        if self.undo.len() == 0 {
            self
        } else {
            let redo = if self.fits(current) {
                self.redo.push(current)
            } else {
                Seq::empty()
            };
            self.with_undo(self.undo.drop_last()).with_redo(redo).trimmed().advanced()
        }
    }

    /// The history once its newest redo draft took the place of `current`.
    pub open spec fn redone(self, current: DraftView) -> Self {
        if self.redo.len() == 0 {
            self
        } else {
            let undo = if self.fits(current) {
                self.undo.push(current)
            } else {
                Seq::empty()
            };
            self.with_redo(self.redo.drop_last()).with_undo(undo).trimmed().advanced()
        }
    }

    /// Whether the newest `count` undo drafts start at `expected`.
    pub open spec fn has_provisional_edits(self, count: nat, expected: DraftView) -> bool {
        &&& 0 < count <= self.undo.len()
        &&& self.undo[self.undo.len() - count] == expected
    }

    pub open spec fn without_provisional_edits(self, count: nat) -> Self {
        self.with_undo(self.undo.take(self.undo.len() - count)).advanced()
    }
}

/// The newest draft of a stack, if there is one.
pub open spec fn newest(stack: Seq<DraftView>) -> Option<DraftView> {
    if stack.len() == 0 {
        None
    } else {
        Some(stack.last())
    }
}

spec fn drafts_of(stack: Seq<StoredDraft>) -> Seq<DraftView> {
    stack.map_values(|stored: StoredDraft| stored.draft@)
}

spec fn counted(stack: Seq<StoredDraft>) -> bool {
    forall|i: int|
        0 <= i < stack.len() ==> (#[trigger] stack[i]).retained_bytes
            == stack[i].draft@.retained_bytes()
}

proof fn lemma_stack_push(stack: Seq<DraftView>, draft: DraftView)
    ensures
        stack_bytes(stack.push(draft)) == stack_bytes(stack) + draft.retained_bytes(),
{
    let bytes = |draft: DraftView| draft.retained_bytes();
    assert(stack.push(draft).map_values(bytes).drop_last() =~= stack.map_values(bytes));
}

proof fn lemma_stack_pop(stack: Seq<DraftView>)
    requires
        stack.len() > 0,
    ensures
        stack_bytes(stack) == stack_bytes(stack.drop_last()) + stack.last().retained_bytes(),
{
    lemma_stack_push(stack.drop_last(), stack.last());
    assert(stack.drop_last().push(stack.last()) =~= stack);
}

proof fn lemma_stack_pop_front(stack: Seq<DraftView>)
    requires
        stack.len() > 0,
    ensures
        stack_bytes(stack) == stack[0].retained_bytes() + stack_bytes(stack.drop_first()),
{
    let bytes = |draft: DraftView| draft.retained_bytes();
    crate::numbers::lemma_sum_drop_first(stack.map_values(bytes));
    assert(stack.map_values(bytes).drop_first() =~= stack.drop_first().map_values(bytes));
}

impl StoredDraft {
    fn new(draft: EditableDraft) -> (stored: Self)
        ensures
            stored.draft == draft,
            stored.retained_bytes == draft@.retained_bytes(),
    {
        StoredDraft { retained_bytes: draft.estimated_retained_bytes(), draft }
    }
}

/// The bytes that a stack of drafts was counted with.
fn counted_bytes(stack: &VecDeque<StoredDraft>) -> (bytes: u128)
    requires
        counted(stack@),
        stack_bytes(drafts_of(stack@)) <= u128::MAX,
    ensures
        bytes == stack_bytes(drafts_of(stack@)),
{
    let ghost each = drafts_of(stack@).map_values(|draft: DraftView| draft.retained_bytes());
    let mut bytes: u128 = 0;
    let mut index: usize = 0;
    while index < stack.len()
        invariant
            index <= stack@.len(),
            counted(stack@),
            each == drafts_of(stack@).map_values(|draft: DraftView| draft.retained_bytes()),
            crate::numbers::sum(each) <= u128::MAX,
            bytes == crate::numbers::sum(each.take(index as int)),
        decreases stack@.len() - index,
    {
        proof {
            crate::numbers::lemma_sum_step(each, index as int);
            crate::numbers::lemma_sum_prefix(each, index + 1);
        }
        bytes = bytes + stack[index].retained_bytes as u128;
        index += 1;
    }
    assert(each.take(index as int) =~= each);
    bytes
}

impl View for ComposerUndoHistory {
    type V = UndoHistoryView;

    closed spec fn view(&self) -> UndoHistoryView {
        UndoHistoryView {
            undo: drafts_of(self.undo@),
            redo: drafts_of(self.redo@),
            max_entries: self.max_entries,
            max_retained_bytes: self.max_retained_bytes,
            mutation_epoch: self.mutation_epoch,
        }
    }
}

impl Default for ComposerUndoHistory {
    fn default() -> (history: Self)
        ensures
            history.wf(),
            history@ == (UndoHistoryView {
                undo: Seq::empty(),
                redo: Seq::empty(),
                max_entries: MAX_HISTORY_ENTRIES,
                max_retained_bytes: MAX_RETAINED_BYTES,
                mutation_epoch: 0,
            }),
    {
        ComposerUndoHistory::with_limits(MAX_HISTORY_ENTRIES, MAX_RETAINED_BYTES)
    }
}

impl ComposerUndoHistory {
    /// The bytes are those of the stored drafts.
    closed spec fn accounted(&self) -> bool {
        &&& counted(self.undo@)
        &&& counted(self.redo@)
        &&& self.retained_bytes == self@.retained_bytes()
    }

    /// The accounting is right and the limits hold.
    pub closed spec fn wf(&self) -> bool {
        &&& self.accounted()
        &&& self@.within_limits()
    }

    /// A history keeps to its limits, whatever was recorded, undone or redone.
    pub proof fn law_a_history_keeps_to_its_limits(&self)
        requires
            self.wf(),
        ensures
            self@.within_limits(),
            self@.undo.len() + self@.redo.len() <= self@.max_entries,
            stack_bytes(self@.undo) + stack_bytes(self@.redo) <= self@.max_retained_bytes,
    {
    }

    pub fn with_limits(max_entries: usize, max_retained_bytes: usize) -> (history: Self)
        ensures
            history.wf(),
            history@ == (UndoHistoryView {
                undo: Seq::empty(),
                redo: Seq::empty(),
                max_entries,
                max_retained_bytes,
                mutation_epoch: 0,
            }),
    {
        let history = ComposerUndoHistory {
            undo: VecDeque::new(),
            redo: VecDeque::new(),
            retained_bytes: 0,
            max_entries,
            max_retained_bytes,
            mutation_epoch: 0,
        };
        assert(drafts_of(history.undo@) =~= Seq::empty());
        assert(drafts_of(history.redo@) =~= Seq::empty());
        history
    }

    /// A number that differs before and after every change of the stacks.
    pub fn mutation_epoch(&self) -> (epoch: u64)
        ensures
            epoch == self@.mutation_epoch,
    {
        self.mutation_epoch
    }

    /// Record the state immediately before one content-changing user action.
    pub fn record(&mut self, before_edit: EditableDraft) -> (recorded: bool)
        requires
            old(self).wf(),
        ensures
            final(self).wf(),
            recorded == old(self)@.accepts(before_edit@),
            final(self)@ == old(self)@.recorded(before_edit@),
    {
        self.clear_redo();
        let before_edit = StoredDraft::new(before_edit);
        if self.max_entries == 0 || before_edit.retained_bytes > self.max_retained_bytes {
            self.clear_stacks();
            self.advance_mutation_epoch();
            return false;
        }
        let ghost stored = before_edit;
        let ghost stack = self.undo@;
        proof {
            lemma_stack_push(drafts_of(stack), stored.draft@);
        }
        self.retained_bytes = self.retained_bytes + before_edit.retained_bytes as u128;
        self.undo.push_back(before_edit);
        assert(drafts_of(stack.push(stored)) =~= drafts_of(stack).push(stored.draft@));
        self.trim_to_limits();
        self.advance_mutation_epoch();
        true
    }

    /// Step back: hand out the newest undo draft and keep `current` for redo.
    pub fn undo(&mut self, current: EditableDraft) -> (target: Option<EditableDraft>)
        requires
            old(self).wf(),
        ensures
            final(self).wf(),
            target.deep_view() == newest(old(self)@.undo),
            final(self)@ == old(self)@.undone(current@),
    {
        match self.pop_undo() {
            None => None,
            Some(target) => {
                self.push_redo_if_it_fits(current);
                self.trim_to_limits();
                self.advance_mutation_epoch();
                Some(target.draft)
            },
        }
    }

    /// Step forward: hand out the newest redo draft and keep `current` for undo.
    pub fn redo(&mut self, current: EditableDraft) -> (target: Option<EditableDraft>)
        requires
            old(self).wf(),
        ensures
            final(self).wf(),
            target.deep_view() == newest(old(self)@.redo),
            final(self)@ == old(self)@.redone(current@),
    {
        match self.pop_redo() {
            None => None,
            Some(target) => {
                self.push_undo_if_it_fits(current);
                self.trim_to_limits();
                self.advance_mutation_epoch();
                Some(target.draft)
            },
        }
    }

    /// Forget every draft.
    pub fn clear(&mut self)
        requires
            old(self).wf(),
        ensures
            final(self).wf(),
            final(self)@ == old(self)@.emptied().advanced(),
    {
        self.clear_stacks();
        self.advance_mutation_epoch();
    }

    /// Drop the newest undo drafts when they are the expected run of provisional edits.
    pub fn try_discard_provisional_edits(
        &mut self,
        provisional_edit_count: usize,
        expected_before_provisional_edits: &EditableDraft,
    ) -> (discarded: bool)
        requires
            old(self).wf(),
        ensures
            final(self).wf(),
            discarded == old(self)@.has_provisional_edits(
                provisional_edit_count as nat,
                expected_before_provisional_edits@,
            ),
            final(self)@ == if discarded {
                old(self)@.without_provisional_edits(provisional_edit_count as nat)
            } else {
                old(self)@
            },
    {
        if self.undo.len() < provisional_edit_count {
            return false;
        }
        let first_provisional_edit_index: usize = self.undo.len() - provisional_edit_count;
        if first_provisional_edit_index >= self.undo.len() {
            return false;
        }
        if !self.undo[first_provisional_edit_index].draft.same_as(
            expected_before_provisional_edits,
        ) {
            return false;
        }
        let ghost before = self@;
        let mut popped: usize = 0;
        while popped < provisional_edit_count
            invariant
                popped <= provisional_edit_count <= before.undo.len(),
                before == old(self)@,
                self.accounted(),
                self@ == before.with_undo(before.undo.take(before.undo.len() - popped)),
                self@.within_limits(),
            decreases provisional_edit_count - popped,
        {
            let ghost remaining = self@.undo;
            let _ = self.pop_undo();
            proof {
                lemma_stack_pop(remaining);
                assert(remaining.drop_last() =~= before.undo.take(
                    before.undo.len() - popped - 1,
                ));
            }
            popped += 1;
        }
        self.advance_mutation_epoch();
        true
    }

    fn push_undo_if_it_fits(&mut self, draft: EditableDraft)
        requires
            old(self).accounted(),
            old(self)@.retained_bytes() <= usize::MAX,
        ensures
            final(self).accounted(),
            final(self)@ == old(self)@.with_undo(
                if old(self)@.fits(draft@) {
                    old(self)@.undo.push(draft@)
                } else {
                    Seq::empty()
                },
            ),
    {
        let draft = StoredDraft::new(draft);
        if draft.retained_bytes > self.max_retained_bytes {
            self.clear_undo();
            return;
        }
        let ghost stored = draft;
        let ghost stack = self.undo@;
        proof {
            lemma_stack_push(drafts_of(stack), stored.draft@);
        }
        self.retained_bytes = self.retained_bytes + draft.retained_bytes as u128;
        self.undo.push_back(draft);
        assert(drafts_of(stack.push(stored)) =~= drafts_of(stack).push(stored.draft@));
    }

    fn push_redo_if_it_fits(&mut self, draft: EditableDraft)
        requires
            old(self).accounted(),
            old(self)@.retained_bytes() <= usize::MAX,
        ensures
            final(self).accounted(),
            final(self)@ == old(self)@.with_redo(
                if old(self)@.fits(draft@) {
                    old(self)@.redo.push(draft@)
                } else {
                    Seq::empty()
                },
            ),
    {
        let draft = StoredDraft::new(draft);
        if draft.retained_bytes > self.max_retained_bytes {
            self.clear_redo();
            return;
        }
        let ghost stored = draft;
        let ghost stack = self.redo@;
        proof {
            lemma_stack_push(drafts_of(stack), stored.draft@);
        }
        self.retained_bytes = self.retained_bytes + draft.retained_bytes as u128;
        self.redo.push_back(draft);
        assert(drafts_of(stack.push(stored)) =~= drafts_of(stack).push(stored.draft@));
    }

    fn pop_undo(&mut self) -> (popped: Option<StoredDraft>)
        requires
            old(self).accounted(),
        ensures
            final(self).accounted(),
            match popped {
                Some(stored) => {
                    &&& old(self)@.undo.len() > 0
                    &&& stored.draft@ == old(self)@.undo.last()
                    &&& final(self)@ == old(self)@.with_undo(old(self)@.undo.drop_last())
                    &&& final(self)@.retained_bytes() <= old(self)@.retained_bytes()
                },
                None => old(self)@.undo.len() == 0 && final(self)@ == old(self)@,
            },
    {
        let ghost stack = self.undo@;
        match self.undo.pop_back() {
            None => {
                None
            },
            Some(draft) => {
                proof {
                    lemma_stack_pop(drafts_of(stack));
                    assert(drafts_of(self.undo@) =~= drafts_of(stack).drop_last());
                }
                self.subtract_retained_bytes(draft.retained_bytes as u128);
                Some(draft)
            },
        }
    }

    fn pop_redo(&mut self) -> (popped: Option<StoredDraft>)
        requires
            old(self).accounted(),
        ensures
            final(self).accounted(),
            match popped {
                Some(stored) => {
                    &&& old(self)@.redo.len() > 0
                    &&& stored.draft@ == old(self)@.redo.last()
                    &&& final(self)@ == old(self)@.with_redo(old(self)@.redo.drop_last())
                    &&& final(self)@.retained_bytes() <= old(self)@.retained_bytes()
                },
                None => old(self)@.redo.len() == 0 && final(self)@ == old(self)@,
            },
    {
        let ghost stack = self.redo@;
        match self.redo.pop_back() {
            None => {
                None
            },
            Some(draft) => {
                proof {
                    lemma_stack_pop(drafts_of(stack));
                    assert(drafts_of(self.redo@) =~= drafts_of(stack).drop_last());
                }
                self.subtract_retained_bytes(draft.retained_bytes as u128);
                Some(draft)
            },
        }
    }

    fn trim_to_limits(&mut self)
        requires
            old(self).accounted(),
        ensures
            final(self).wf(),
            final(self)@ == old(self)@.trimmed(),
    {
        while self.undo.len() as u128 + self.redo.len() as u128 > self.max_entries as u128
            || self.retained_bytes > self.max_retained_bytes as u128
            invariant
                self.accounted(),
                self@.trimmed() == old(self)@.trimmed(),
            ensures
                self.wf(),
                self@ == old(self)@.trimmed(),
            decreases self@.undo.len() + self@.redo.len(),
        {
            let ghost before = *self;
            let removed = if self.redo.len() > 1 {
                self.redo.pop_front()
            } else if self.undo.len() > 1 {
                self.undo.pop_front()
            } else if self.redo.len() != 0 {
                self.redo.pop_front()
            } else {
                self.undo.pop_front()
            };
            proof {
                if before.redo@.len() > 0 {
                    lemma_stack_pop_front(before@.redo);
                    assert(drafts_of(before.redo@.subrange(1, before.redo@.len() as int))
                        =~= before@.redo.drop_first());
                }
                if before.undo@.len() > 0 {
                    lemma_stack_pop_front(before@.undo);
                    assert(drafts_of(before.undo@.subrange(1, before.undo@.len() as int))
                        =~= before@.undo.drop_first());
                }
            }
            match removed {
                None => {
                    break;
                },
                Some(removed) => {
                    self.subtract_retained_bytes(removed.retained_bytes as u128);
                },
            }
        }
    }

    fn clear_stacks(&mut self)
        requires
            old(self).accounted(),
        ensures
            final(self).accounted(),
            final(self)@ == old(self)@.emptied(),
            final(self)@.retained_bytes() == 0,
    {
        self.clear_undo();
        self.clear_redo();
    }

    fn clear_undo(&mut self)
        requires
            old(self).accounted(),
        ensures
            final(self).accounted(),
            final(self)@ == old(self)@.with_undo(Seq::empty()),
            final(self)@.retained_bytes() == stack_bytes(old(self)@.redo),
    {
        let removed_bytes: u128 = counted_bytes(&self.undo);
        self.subtract_retained_bytes(removed_bytes);
        self.undo.clear();
        assert(drafts_of(self.undo@) =~= Seq::empty());
        assert(self@.undo.map_values(|draft: DraftView| draft.retained_bytes()) =~= Seq::empty());
    }

    fn clear_redo(&mut self)
        requires
            old(self).accounted(),
        ensures
            final(self).accounted(),
            final(self)@ == old(self)@.with_redo(Seq::empty()),
            final(self)@.retained_bytes() == stack_bytes(old(self)@.undo),
    {
        let removed_bytes: u128 = counted_bytes(&self.redo);
        self.subtract_retained_bytes(removed_bytes);
        self.redo.clear();
        assert(drafts_of(self.redo@) =~= Seq::empty());
        assert(self@.redo.map_values(|draft: DraftView| draft.retained_bytes()) =~= Seq::empty());
    }

    fn subtract_retained_bytes(&mut self, removed_bytes: u128)
        requires
            removed_bytes <= old(self).retained_bytes,
        ensures
            *final(self) == (ComposerUndoHistory {
                retained_bytes: (old(self).retained_bytes - removed_bytes) as u128,
                ..*old(self)
            }),
    {
        self.retained_bytes = self.retained_bytes - removed_bytes;
    }

    fn advance_mutation_epoch(&mut self)
        ensures
            *final(self) == (ComposerUndoHistory {
                mutation_epoch: next_epoch(old(self).mutation_epoch),
                ..*old(self)
            }),
    {
        self.mutation_epoch = self.mutation_epoch.wrapping_add(1);
    }
}

/// Whether `part` is what remains of `whole` after dropping older drafts.
pub open spec fn is_newer_part(part: Seq<DraftView>, whole: Seq<DraftView>) -> bool {
    part.len() <= whole.len() && part == whole.skip(whole.len() - part.len())
}

/// Trimming brings every history within its limits, drops only the oldest drafts of each stack,
/// and leaves a history alone that keeps to its limits already.
pub proof fn law_trimming_drops_only_the_oldest(history: UndoHistoryView)
    ensures
        history.trimmed().within_limits(),
        is_newer_part(history.trimmed().undo, history.undo),
        is_newer_part(history.trimmed().redo, history.redo),
        history.within_limits() ==> history.trimmed() == history,
        history.trimmed().max_entries == history.max_entries,
        history.trimmed().max_retained_bytes == history.max_retained_bytes,
        history.trimmed().mutation_epoch == history.mutation_epoch,
    decreases history.undo.len() + history.redo.len(),
{
    assert(history.undo.skip(0) =~= history.undo);
    assert(history.redo.skip(0) =~= history.redo);
    if history.within_limits() {
    } else if history.undo.len() + history.redo.len() == 0 {
        assert(history.undo.map_values(|draft: DraftView| draft.retained_bytes()) =~= Seq::empty());
        assert(history.redo.map_values(|draft: DraftView| draft.retained_bytes()) =~= Seq::empty());
    } else {
        let fewer = history.without_least_useful();
        law_trimming_drops_only_the_oldest(fewer);
        let trimmed = history.trimmed();
        assert(trimmed.undo =~= history.undo.skip(history.undo.len() - trimmed.undo.len()));
        assert(trimmed.redo =~= history.redo.skip(history.redo.len() - trimmed.redo.len()));
    }
}

/// With nothing to redo, trimming keeps as many of the newest drafts as the limits allow.
proof fn lemma_trim_keeps_the_longest_newer_part(history: UndoHistoryView)
    requires
        history.redo.len() == 0,
    ensures
        history.trimmed().redo.len() == 0,
        forall|kept: nat|
            history.trimmed().undo.len() < kept <= history.undo.len()
                ==> !(#[trigger] history.with_undo(
                history.undo.skip(history.undo.len() - kept),
            )).within_limits(),
    decreases history.undo.len(),
{
    if !history.within_limits() && history.undo.len() > 0 {
        let fewer = history.without_least_useful();
        lemma_trim_keeps_the_longest_newer_part(fewer);
        assert forall|kept: nat|
            history.trimmed().undo.len() < kept <= history.undo.len() implies !(
        #[trigger] history.with_undo(
            history.undo.skip(history.undo.len() - kept),
        )).within_limits() by {
            if kept == history.undo.len() {
                assert(history.undo.skip(0) =~= history.undo);
            } else {
                assert(history.undo.skip(history.undo.len() - kept) =~= fewer.undo.skip(
                    fewer.undo.len() - kept,
                ));
                assert(!fewer.with_undo(fewer.undo.skip(fewer.undo.len() - kept)).within_limits());
            }
        }
    }
}

proof fn lemma_single_draft_fits(history: UndoHistoryView, draft: DraftView)
    requires
        history.accepts(draft),
    ensures
        history.with_undo(seq![draft]).with_redo(Seq::empty()).within_limits(),
{
    let single = history.with_undo(seq![draft]).with_redo(Seq::empty());
    lemma_stack_push(Seq::empty(), draft);
    assert(Seq::<DraftView>::empty().push(draft) =~= seq![draft]);
    assert(Seq::<DraftView>::empty().map_values(|draft: DraftView| draft.retained_bytes())
        =~= Seq::empty());
    assert(single.retained_bytes() == draft.retained_bytes());
}

/// The limits hold for both stacks together: for the number of their drafts, and for the bytes that
/// every one of them keeps alive.
pub proof fn law_the_limits_hold_for_both_stacks(
    history: UndoHistoryView,
    stack: Seq<DraftView>,
    draft: DraftView,
)
    ensures
        history.within_limits() <==> history.undo.len() + history.redo.len() <= history.max_entries
            && stack_bytes(history.undo) + stack_bytes(history.redo) <= history.max_retained_bytes,
        stack_bytes(Seq::empty()) == 0,
        stack_bytes(stack.push(draft)) == stack_bytes(stack) + draft.retained_bytes(),
{
    lemma_stack_push(stack, draft);
    assert(Seq::<DraftView>::empty().map_values(|draft: DraftView| draft.retained_bytes())
        =~= Seq::empty());
}

/// A composer's history holds a hundred drafts and thirty-two mebibytes.
pub proof fn law_a_history_is_bounded_by_entries_and_bytes()
    ensures
        MAX_HISTORY_ENTRIES == 100,
        MAX_RETAINED_BYTES == 32 * 1024 * 1024,
{
}

/// Trimming takes redo drafts before undo drafts: an undo draft goes only where at most one redo draft
/// is left, and the last redo draft goes only where at most one undo draft is left. And no more goes
/// than has to: with the draft that went last the history would not keep to its limits.
pub proof fn law_trimming_takes_redo_drafts_first(history: UndoHistoryView)
    ensures
        ({
            let trimmed = history.trimmed();
            &&& trimmed.undo.len() < history.undo.len() ==> trimmed.redo.len() <= 1
            &&& trimmed.redo.len() == 0 && history.redo.len() > 0 ==> trimmed.undo.len() <= 1
            &&& !history.within_limits() && history.undo.len() + history.redo.len() > 0 ==> exists|
                last: UndoHistoryView,
            |
                !(#[trigger] last.within_limits()) && is_newer_part(last.undo, history.undo)
                    && is_newer_part(last.redo, history.redo) && last.undo.len()
                    + last.redo.len() == trimmed.undo.len() + trimmed.redo.len() + 1
                    && last.max_entries == history.max_entries && last.max_retained_bytes
                    == history.max_retained_bytes
        }),
    decreases history.undo.len() + history.redo.len(),
{
    if !history.within_limits() && history.undo.len() + history.redo.len() > 0 {
        let fewer = history.without_least_useful();
        law_trimming_takes_redo_drafts_first(fewer);
        law_trimming_drops_only_the_oldest(fewer);
        assert(history.undo.skip(0) =~= history.undo);
        assert(history.redo.skip(0) =~= history.redo);
        if fewer.within_limits() || fewer.undo.len() + fewer.redo.len() == 0 {
            assert(!history.within_limits());
        } else {
            let last = choose|last: UndoHistoryView|
                !(#[trigger] last.within_limits()) && is_newer_part(last.undo, fewer.undo)
                    && is_newer_part(last.redo, fewer.redo) && last.undo.len() + last.redo.len()
                    == fewer.trimmed().undo.len() + fewer.trimmed().redo.len() + 1
                    && last.max_entries == fewer.max_entries && last.max_retained_bytes
                    == fewer.max_retained_bytes;
            assert(last.undo =~= history.undo.skip(history.undo.len() - last.undo.len()));
            assert(last.redo =~= history.redo.skip(history.redo.len() - last.redo.len()));
            assert(!last.within_limits());
        }
    }
}

/// An undo takes just the newest undo draft and leaves the draft that it replaced to be redone, and a
/// redo the other way round, as long as the history has room. A draft that is too large by itself
/// leaves nothing on the stack that it would go to.
pub proof fn law_a_step_moves_one_draft_between_the_stacks(
    history: UndoHistoryView,
    current: DraftView,
)
    ensures
        history.undo.len() > 0 && history.with_undo(history.undo.drop_last()).with_redo(
            history.redo.push(current),
        ).within_limits() ==> {
            &&& history.undone(current).undo == history.undo.drop_last()
            &&& history.undone(current).redo == history.redo.push(current)
        },
        history.redo.len() > 0 && history.with_redo(history.redo.drop_last()).with_undo(
            history.undo.push(current),
        ).within_limits() ==> {
            &&& history.redone(current).redo == history.redo.drop_last()
            &&& history.redone(current).undo == history.undo.push(current)
        },
        history.undo.len() > 0 && current.retained_bytes() > history.max_retained_bytes
            ==> history.undone(current).redo.len() == 0,
        history.redo.len() > 0 && current.retained_bytes() > history.max_retained_bytes
            ==> history.redone(current).undo.len() == 0,
        history.undone(current).max_entries == history.max_entries,
        history.undone(current).max_retained_bytes == history.max_retained_bytes,
        history.redone(current).max_entries == history.max_entries,
        history.redone(current).max_retained_bytes == history.max_retained_bytes,
{
    lemma_stack_push(history.redo, current);
    lemma_stack_push(history.undo, current);
    law_trimming_drops_only_the_oldest(
        history.with_undo(history.undo.drop_last()).with_redo(history.redo.push(current)),
    );
    law_trimming_drops_only_the_oldest(
        history.with_undo(history.undo.drop_last()).with_redo(Seq::empty()),
    );
    law_trimming_drops_only_the_oldest(
        history.with_redo(history.redo.drop_last()).with_undo(history.undo.push(current)),
    );
    law_trimming_drops_only_the_oldest(
        history.with_redo(history.redo.drop_last()).with_undo(Seq::empty()),
    );
}

/// A draft is recorded whenever it fits into the bytes of a history that holds drafts at all; one that
/// does not leaves nothing to undo or redo. Either way nothing can be redone.
pub proof fn law_a_draft_that_fits_is_recorded(history: UndoHistoryView, before_edit: DraftView)
    ensures
        history.max_entries > 0 && before_edit.retained_bytes() <= history.max_retained_bytes ==> {
            &&& history.recorded(before_edit).undo.len() > 0
            &&& history.recorded(before_edit).undo.last() == before_edit
        },
        history.max_entries == 0 || before_edit.retained_bytes() > history.max_retained_bytes
            ==> history.recorded(before_edit).undo.len() == 0,
        history.recorded(before_edit).redo.len() == 0,
        history.with_undo(history.undo.push(before_edit)).with_redo(Seq::empty()).within_limits()
            ==> history.recorded(before_edit).undo == history.undo.push(before_edit),
        history.recorded(before_edit).max_entries == history.max_entries,
        history.recorded(before_edit).max_retained_bytes == history.max_retained_bytes,
{
    law_trimming_drops_only_the_oldest(
        history.with_undo(history.undo.push(before_edit)).with_redo(Seq::empty()),
    );
    lemma_stack_push(history.undo, before_edit);
    if history.accepts(before_edit) {
        law_record_keeps_the_newest_drafts(history, before_edit);
    }
}

/// Recording a draft that can be kept makes it the next one to undo, leaves nothing to redo, and
/// evicts the oldest drafts first and no more of them than the limits ask for.
pub proof fn law_record_keeps_the_newest_drafts(history: UndoHistoryView, before_edit: DraftView)
    requires
        history.accepts(before_edit),
    ensures
        newest(history.recorded(before_edit).undo) == Some(before_edit),
        history.recorded(before_edit).redo.len() == 0,
        history.recorded(before_edit).within_limits(),
        is_newer_part(history.recorded(before_edit).undo, history.undo.push(before_edit)),
        forall|kept: nat|
            history.recorded(before_edit).undo.len() < kept <= history.undo.len() + 1
                ==> !(#[trigger] history.with_undo(
                history.undo.push(before_edit).skip(history.undo.len() + 1 - kept),
            ).with_redo(Seq::empty())).within_limits(),
{
    let pushed = history.with_undo(history.undo.push(before_edit)).with_redo(Seq::empty());
    law_trimming_drops_only_the_oldest(pushed);
    lemma_trim_keeps_the_longest_newer_part(pushed);
    lemma_single_draft_fits(history, before_edit);
    assert(pushed.undo.skip(pushed.undo.len() - 1) =~= seq![before_edit]);
    if pushed.trimmed().undo.len() == 0 {
        assert(pushed.with_undo(pushed.undo.skip(pushed.undo.len() - 1nat))
            == history.with_undo(seq![before_edit]).with_redo(Seq::empty()));
        assert(!pushed.with_undo(pushed.undo.skip(pushed.undo.len() - 1nat)).within_limits());
    }
    assert forall|kept: nat|
        history.recorded(before_edit).undo.len() < kept <= history.undo.len() + 1 implies !(
    #[trigger] history.with_undo(
        history.undo.push(before_edit).skip(history.undo.len() + 1 - kept),
    ).with_redo(Seq::empty())).within_limits() by {
        assert(history.with_undo(
            history.undo.push(before_edit).skip(history.undo.len() + 1 - kept),
        ).with_redo(Seq::empty()) == pushed.with_undo(
            pushed.undo.skip(pushed.undo.len() - kept),
        ));
    }
}

/// A draft that cannot be kept clears everything older: an undo could no longer reach it without
/// skipping the edit.
pub proof fn law_an_oversized_draft_clears_the_history(
    history: UndoHistoryView,
    before_edit: DraftView,
)
    requires
        !history.accepts(before_edit),
    ensures
        history.recorded(before_edit).undo.len() == 0,
        history.recorded(before_edit).redo.len() == 0,
{
}

/// After an undo, what can be redone first is the draft that it replaced. There is something to
/// redo wherever the history has room for that draft.
pub proof fn law_redo_returns_what_undo_replaced(history: UndoHistoryView, current: DraftView)
    requires
        history.undo.len() > 0,
    ensures
        history.undone(current).redo.len() > 0 ==> newest(history.undone(current).redo) == Some(
            current,
        ),
        history.with_undo(history.undo.drop_last()).with_redo(
            history.redo.push(current),
        ).within_limits() ==> history.undone(current).redo.len() > 0,
{
    let moved = history.with_undo(history.undo.drop_last()).with_redo(history.redo.push(current));
    law_trimming_drops_only_the_oldest(moved);
    law_trimming_drops_only_the_oldest(moved.with_redo(Seq::empty()));
    lemma_stack_push(history.redo, current);
}

/// After a redo, what can be undone first is the draft that it replaced. There is something to undo
/// wherever the history has room for that draft.
pub proof fn law_undo_returns_what_redo_replaced(history: UndoHistoryView, current: DraftView)
    requires
        history.redo.len() > 0,
    ensures
        history.redone(current).undo.len() > 0 ==> newest(history.redone(current).undo) == Some(
            current,
        ),
        history.with_redo(history.redo.drop_last()).with_undo(
            history.undo.push(current),
        ).within_limits() ==> history.redone(current).undo.len() > 0,
{
    let moved = history.with_redo(history.redo.drop_last()).with_undo(history.undo.push(current));
    law_trimming_drops_only_the_oldest(moved);
    law_trimming_drops_only_the_oldest(moved.with_undo(Seq::empty()));
    lemma_stack_push(history.undo, current);
}

/// Undo and redo are inverse to each other while nothing has to be evicted: the stacks come back
/// exactly as they were.
pub proof fn law_redo_reverses_undo(history: UndoHistoryView, current: DraftView)
    requires
        history.within_limits(),
        history.undo.len() > 0,
        history.with_undo(history.undo.drop_last()).with_redo(
            history.redo.push(current),
        ).within_limits(),
    ensures
        newest(history.undone(current).redo) == Some(current),
        history.undone(current).redone(history.undo.last()).undo == history.undo,
        history.undone(current).redone(history.undo.last()).redo == history.redo,
{
    let undone = history.undone(current);
    lemma_stack_pop(history.undo);
    lemma_stack_push(history.redo, current);
    assert(undone.redo == history.redo.push(current));
    assert(undone.redo.drop_last() =~= history.redo);
    assert(undone.undo.push(history.undo.last()) =~= history.undo);
}

/// Redo and undo are inverse to each other while nothing has to be evicted.
pub proof fn law_undo_reverses_redo(history: UndoHistoryView, current: DraftView)
    requires
        history.within_limits(),
        history.redo.len() > 0,
        history.with_redo(history.redo.drop_last()).with_undo(
            history.undo.push(current),
        ).within_limits(),
    ensures
        newest(history.redone(current).undo) == Some(current),
        history.redone(current).undone(history.redo.last()).undo == history.undo,
        history.redone(current).undone(history.redo.last()).redo == history.redo,
{
    let redone = history.redone(current);
    lemma_stack_pop(history.redo);
    lemma_stack_push(history.undo, current);
    assert(redone.undo == history.undo.push(current));
    assert(redone.undo.drop_last() =~= history.undo);
    assert(redone.redo.push(history.redo.last()) =~= history.redo);
}

/// Every operation that changes a stack changes the mutation epoch, and one that changes none
/// keeps it.
pub proof fn law_the_epoch_tells_whether_the_history_changed(
    history: UndoHistoryView,
    draft: DraftView,
    count: nat,
)
    requires
        history.within_limits(),
    ensures
        history.recorded(draft).mutation_epoch != history.mutation_epoch,
        history.emptied().advanced().mutation_epoch != history.mutation_epoch,
        history.without_provisional_edits(count).mutation_epoch != history.mutation_epoch,
        history.undone(draft).mutation_epoch != history.mutation_epoch <==> history.undo.len() > 0,
        history.redone(draft).mutation_epoch != history.mutation_epoch <==> history.redo.len() > 0,
        history.undo.len() == 0 ==> history.undone(draft) == history,
        history.redo.len() == 0 ==> history.redone(draft) == history,
{
    law_trimming_drops_only_the_oldest(
        history.with_undo(history.undo.push(draft)).with_redo(Seq::empty()),
    );
    let redo = if history.fits(draft) {
        history.redo.push(draft)
    } else {
        Seq::empty()
    };
    law_trimming_drops_only_the_oldest(
        history.with_undo(history.undo.drop_last()).with_redo(redo),
    );
    let undo = if history.fits(draft) {
        history.undo.push(draft)
    } else {
        Seq::empty()
    };
    law_trimming_drops_only_the_oldest(
        history.with_redo(history.redo.drop_last()).with_undo(undo),
    );
}

impl UndoHistoryView {
    /// The history once each of `drafts` is recorded in turn.
    pub open spec fn recorded_all(self, drafts: Seq<DraftView>) -> Self
        decreases drafts.len(),
    {
        if drafts.len() == 0 {
            self
        } else {
            self.recorded_all(drafts.drop_last()).recorded(drafts.last())
        }
    }
}

proof fn lemma_recorded_all_without_eviction(history: UndoHistoryView, drafts: Seq<DraftView>)
    requires
        drafts.len() > 0,
        history.with_undo(history.undo + drafts).with_redo(Seq::empty()).within_limits(),
    ensures
        history.recorded_all(drafts).undo == history.undo + drafts,
        history.recorded_all(drafts).redo.len() == 0,
        history.recorded_all(drafts).max_entries == history.max_entries,
        history.recorded_all(drafts).max_retained_bytes == history.max_retained_bytes,
    decreases drafts.len(),
{
    let earlier = history.undo + drafts.drop_last();
    assert(history.undo + drafts =~= earlier.push(drafts.last()));
    lemma_stack_push(earlier, drafts.last());
    assert(Seq::<DraftView>::empty().map_values(|draft: DraftView| draft.retained_bytes())
        =~= Seq::empty());
    assert(stack_bytes(Seq::empty()) == 0);
    if drafts.len() == 1 {
        assert(drafts.drop_last() =~= Seq::empty());
        assert(history.recorded_all(drafts.drop_last()) == history);
        assert(earlier =~= history.undo);
    } else {
        lemma_recorded_all_without_eviction(history, drafts.drop_last());
    }
    let before = history.recorded_all(drafts.drop_last());
    let pushed = before.with_undo(before.undo.push(drafts.last())).with_redo(Seq::empty());
    assert(pushed.within_limits());
}

/// Discarding a run of provisional edits brings the undo stack back to where the run began, as
/// long as none of it was evicted meanwhile.
pub proof fn law_discarding_provisional_edits_reverses_their_recording(
    history: UndoHistoryView,
    drafts: Seq<DraftView>,
)
    requires
        drafts.len() > 0,
        history.with_undo(history.undo + drafts).with_redo(Seq::empty()).within_limits(),
    ensures
        history.recorded_all(drafts).has_provisional_edits(drafts.len(), drafts[0]),
        history.recorded_all(drafts).without_provisional_edits(drafts.len()).undo == history.undo,
{
    lemma_recorded_all_without_eviction(history, drafts);
    assert((history.undo + drafts).take(history.undo.len() as int) =~= history.undo);
}

/// Epochs count on, and start again behind the last one: no two of as many changes as a `u64` can count
/// have the same.
pub proof fn law_epochs_count_on(epoch: u64)
    ensures
        next_epoch(epoch) as int == (epoch + 1) % 0x1_0000_0000_0000_0000int,
{
}

/// A step takes from its own stack just the draft that it shows. What it gives up for the limits are
/// the oldest drafts, and a draft that no history could hold costs the other stack and nothing else.
pub proof fn law_a_step_takes_just_what_it_shows(history: UndoHistoryView, current: DraftView)
    requires
        history.within_limits(),
    ensures
        history.undo.len() > 0 ==> {
            let after = history.undone(current);
            &&& is_newer_part(after.undo, history.undo.drop_last())
            &&& is_newer_part(after.redo, history.redo.push(current)) || after.redo.len() == 0
            &&& after.within_limits()
            &&& current.retained_bytes() > history.max_retained_bytes ==> after.undo
                == history.undo.drop_last()
            &&& after.redo.len() > 0 ==> after.redo.last() == current
            &&& after.undo.len() + 1 < history.undo.len() ==> after.redo.len() <= 1
        },
        history.redo.len() > 0 ==> {
            let after = history.redone(current);
            &&& is_newer_part(after.redo, history.redo.drop_last())
            &&& is_newer_part(after.undo, history.undo.push(current)) || after.undo.len() == 0
            &&& after.within_limits()
            &&& current.retained_bytes() > history.max_retained_bytes ==> after.redo
                == history.redo.drop_last()
            &&& after.undo.len() > 0 ==> after.undo.last() == current
            &&& after.undo.len() < history.undo.len() + 1 && current.retained_bytes()
                <= history.max_retained_bytes ==> after.redo.len() <= 1
        },
{
    if history.undo.len() > 0 {
        let rest = history.undo.drop_last();
        law_the_limits_hold_for_both_stacks(history, rest, history.undo.last());
        assert(rest.push(history.undo.last()) =~= history.undo);
        let fitting = history.with_undo(rest).with_redo(history.redo.push(current));
        let emptied = history.with_undo(rest).with_redo(Seq::empty());
        law_the_limits_hold_for_both_stacks(emptied, rest, current);
        law_trimming_drops_only_the_oldest(fitting);
        law_trimming_takes_redo_drafts_first(fitting);
        law_trimming_drops_only_the_oldest(emptied);
    }
    if history.redo.len() > 0 {
        let rest = history.redo.drop_last();
        law_the_limits_hold_for_both_stacks(history, rest, history.redo.last());
        assert(rest.push(history.redo.last()) =~= history.redo);
        let fitting = history.with_redo(rest).with_undo(history.undo.push(current));
        let emptied = history.with_redo(rest).with_undo(Seq::empty());
        law_the_limits_hold_for_both_stacks(emptied, rest, current);
        law_trimming_drops_only_the_oldest(fitting);
        law_trimming_takes_redo_drafts_first(fitting);
        law_trimming_drops_only_the_oldest(emptied);
    }
}

/// The last draft that can be undone is given up only after every draft that can be redone.
pub proof fn law_the_last_undo_draft_goes_last(history: UndoHistoryView)
    ensures
        history.undo.len() > 0 && history.trimmed().undo.len() == 0 ==> history.trimmed().redo.len()
            == 0,
    decreases history.undo.len() + history.redo.len(),
{
    if !history.within_limits() && history.undo.len() + history.redo.len() > 0 {
        let next = history.without_least_useful();
        if next.undo.len() > 0 {
            law_the_last_undo_draft_goes_last(next);
        } else if history.undo.len() > 0 {
            law_trimming_drops_only_the_oldest(next);
        }
    }
}

} // verus!
