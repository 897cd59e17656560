//! Update visible terminal-history tails without discarding terminal scrollback.

use vstd::prelude::*;

use crate::content::Content;
use crate::geometry::{Position, Rect};
use crate::history_lines::{
    history_row_count, mode_for_policy, prepare_history_hyperlink_lines, HistoryLineWrapPolicy,
    HistoryTailReplacement, HyperlinkLine, InsertHistoryMode, LineView,
};
use crate::inline_append::history_wrap_width;
use crate::inline_history::PlacementView;
use crate::inline_viewport::{InlineViewportState, ViewportView};
use crate::terminal::{
    insert_prepared_history_hyperlink_lines_with_mode, CommandView, Terminal, TerminalError,
    TerminalView,
};
use crate::transcript_replay::{copy_pending_lines, PendingBatchView, PendingHistoryLines};
use crate::windows_viewport::WindowsViewportView;

verus! {

/// The interface with its terminal.
#[derive(Clone, Debug, PartialEq, Eq)]
pub struct Tui {
    pub terminal: Terminal,
    pub inline_viewport: InlineViewportState,
    pub pending_history_lines: Vec<PendingHistoryLines>,
    pub is_zellij: bool,
    /// Another frame is to be drawn.
    pub frame_scheduled: bool,
}

#[verifier::ext_equal]
pub struct TuiView {
    pub terminal: TerminalView,
    pub inline_viewport: ViewportView,
    pub pending_history_lines: Seq<PendingBatchView>,
    pub is_zellij: bool,
    pub frame_scheduled: bool,
}

impl View for Tui {
    type V = TuiView;

    open spec fn view(&self) -> TuiView {
        TuiView {
            terminal: self.terminal@,
            inline_viewport: self.inline_viewport@,
            pending_history_lines: self.pending_history_lines.deep_view(),
            is_zellij: self.is_zellij,
            frame_scheduled: self.frame_scheduled,
        }
    }
}

/// The rows that a tail takes beside the viewport.
pub open spec fn tail_rows(terminal: TerminalView, lines: Seq<LineView>) -> nat {
    crate::history_lines::total_rows(
        lines,
        crate::history_lines::wrap_width_of(terminal.viewport_area.width) as nat,
    )
}

/// Whether a tail stands on the screen directly above the viewport, as far as its rows tell.
pub open spec fn tail_is_visible(terminal: TerminalView, previous: Seq<LineView>) -> bool {
    0 < tail_rows(terminal, previous) <= terminal.viewport_area.y
}

/// The viewport in the place of the tail above it.
pub open spec fn area_over_tail(terminal: TerminalView, previous: Seq<LineView>) -> Rect {
    Rect {
        y: (terminal.viewport_area.y - tail_rows(terminal, previous)) as u16,
        ..terminal.viewport_area
    }
}

/// The tail above the viewport is cleared together with the viewport, which takes its place, and
/// the new lines are put above it.
pub open spec fn replace_tail_step(
    terminal: TerminalView,
    previous: Seq<LineView>,
    replacement: Seq<LineView>,
    mode: InsertHistoryMode,
) -> (TerminalView, bool) {
    if !tail_is_visible(terminal, previous) {
        (terminal, true)
    } else {
        let area = area_over_tail(terminal, previous);
        let cleared = terminal.cleared_after(Position { x: 0, y: area.y });
        if !terminal.accepts(2) {
            (cleared, false)
        } else {
            let moved = cleared.with_viewport_area(area).with_invalid_viewport();
            let prepared = crate::history_lines::prepared_lines(
                replacement,
                crate::history_lines::wrap_width_of(terminal.viewport_area.width),
            );
            (moved.inserted(prepared, mode), moved.accepts(1))
        }
    }
}

/// What an operation leaves behind of the interface, and what came of it: nothing, where the
/// backend failed.
#[verifier::ext_equal]
pub struct TuiStep {
    pub tui: TuiView,
    pub outcome: Option<HistoryTailReplacement>,
}

impl TuiView {
    /// A frame is scheduled once something was replaced.
    pub open spec fn after_replacement(self, outcome: HistoryTailReplacement) -> TuiStep {
        TuiStep {
            tui: TuiView {
                frame_scheduled: self.frame_scheduled || outcome
                    == HistoryTailReplacement::Replaced,
                ..self
            },
            outcome: Some(outcome),
        }
    }

    /// The history that waits is written.
    pub open spec fn flushed(self, wrapped: Seq<Seq<LineView>>) -> (TuiView, bool) {
        let step = crate::inline_viewport::batches_step(
            self.terminal,
            self.inline_viewport.windows,
            crate::transcript_replay::prepared_batches(
                self.pending_history_lines,
                wrapped,
                crate::history_lines::wrap_width_of(self.terminal.viewport_area.width),
                self.is_zellij,
            ),
        );
        (
            TuiView {
                terminal: step.terminal,
                inline_viewport: self.inline_viewport.with_windows(step.windows),
                pending_history_lines: if step.completed {
                    Seq::empty()
                } else {
                    self.pending_history_lines
                },
                ..self
            },
            step.completed,
        )
    }

    /// The end of the history is replaced where it is tracked, and otherwise directly above the
    /// viewport.
    pub open spec fn tail_replaced(
        self,
        previous: Seq<LineView>,
        replacement: Seq<LineView>,
        wrap_policy: HistoryLineWrapPolicy,
    ) -> TuiStep {
        let step = self.inline_viewport.replace_step(self.terminal, previous, replacement);
        let followed = TuiView {
            terminal: step.terminal,
            inline_viewport: self.inline_viewport.with_windows(step.windows),
            ..self
        };
        if !step.completed {
            TuiStep { tui: followed, outcome: None }
        } else {
            match self.inline_viewport.replacement_outcome(self.terminal, previous) {
                Some(outcome) => followed.after_replacement(outcome),
                None => {
                    let mode = crate::history_lines::insert_mode(self.is_zellij, wrap_policy);
                    let (terminal, completed) = replace_tail_step(
                        followed.terminal,
                        previous,
                        replacement,
                        mode,
                    );
                    let replaced = TuiView { terminal, ..followed };
                    if !completed {
                        TuiStep { tui: replaced, outcome: None }
                    } else {
                        replaced.after_replacement(
                            if tail_is_visible(followed.terminal, previous) {
                                HistoryTailReplacement::Replaced
                            } else {
                                HistoryTailReplacement::NotVisible
                            },
                        )
                    }
                },
            }
        }
    }

    /// The end of the history is replaced, once what waits has been written before it. A transcript
    /// that waits to be written anew holds the new lines already.
    pub open spec fn replace_step(
        self,
        pending_wrapped: Seq<Seq<LineView>>,
        previous: Seq<LineView>,
        replacement: Seq<LineView>,
        wrap_policy: HistoryLineWrapPolicy,
    ) -> TuiStep {
        if self.inline_viewport.pending is Some {
            TuiStep { tui: self, outcome: Some(HistoryTailReplacement::RequiresTranscriptReflow) }
        } else {
            let (flushed, completed) = self.flushed(pending_wrapped);
            if completed {
                flushed.tail_replaced(previous, replacement, wrap_policy)
            } else {
                TuiStep { tui: flushed, outcome: None }
            }
        }
    }
}

/// A tail that gives way to one of as many rows leaves the viewport in its place.
pub proof fn law_a_tail_of_the_same_height_keeps_the_viewport_in_place(
    terminal: TerminalView,
    previous: Seq<LineView>,
    replacement: Seq<LineView>,
    mode: InsertHistoryMode,
)
    requires
        terminal.viewport_area.y + terminal.viewport_area.height <= terminal.screen_size.height,
        tail_is_visible(terminal, previous),
        tail_rows(terminal, replacement) == tail_rows(terminal, previous),
        replace_tail_step(terminal, previous, replacement, mode).1,
    ensures
        replace_tail_step(terminal, previous, replacement, mode).0.viewport_area
            == terminal.viewport_area,
{
}

/// A tail directly above the viewport gives way to its replacement: everything from its first row on
/// is cleared, the viewport takes its place, and just the new lines, wrapped for the viewport's
/// columns, are put above the viewport, which is written in full.
pub proof fn law_a_visible_tail_gives_way_to_its_replacement(
    terminal: TerminalView,
    previous: Seq<LineView>,
    replacement: Seq<LineView>,
    mode: InsertHistoryMode,
)
    requires
        terminal.operations_left is None,
        terminal.viewport_area.width > 0,
        0 < crate::history_lines::total_rows(previous, terminal.viewport_area.width as nat)
            <= terminal.viewport_area.y,
    ensures
        ({
            let rows = crate::history_lines::total_rows(
                previous,
                terminal.viewport_area.width as nat,
            );
            let top = (terminal.viewport_area.y - rows) as u16;
            let (after, completed) = replace_tail_step(terminal, previous, replacement, mode);
            let added = after.commands.skip(terminal.commands.len() as int);
            &&& tail_is_visible(terminal, previous)
            &&& completed
            &&& terminal.commands.is_prefix_of(after.commands)
            &&& added.len() == 3
            &&& added[0] == CommandView::MoveTo(Position { x: 0, y: top })
            &&& added[1] == CommandView::ClearAfterCursor
            &&& added[2] matches CommandView::InsertHistory { area, prepared, mode: manner }
                && area == (Rect { y: top, ..terminal.viewport_area }) && prepared.lines
                == replacement && prepared.wrap_width == terminal.viewport_area.width && manner
                == mode
            &&& crate::terminal::written_lines(added) == replacement
            &&& after.viewport_invalidated
            &&& after.viewport_area.width == terminal.viewport_area.width
            &&& after.viewport_area.height == terminal.viewport_area.height
            &&& after.viewport_area.x == terminal.viewport_area.x
            &&& top <= after.viewport_area.y
            &&& after.operations_left is None
        }),
{
    let area = area_over_tail(terminal, previous);
    let prepared = crate::history_lines::prepared_lines(
        replacement,
        crate::history_lines::wrap_width_of(terminal.viewport_area.width),
    );
    let (after, completed) = replace_tail_step(terminal, previous, replacement, mode);
    let added = after.commands.skip(terminal.commands.len() as int);
    let expected = seq![
        CommandView::MoveTo(Position { x: 0, y: area.y }),
        CommandView::ClearAfterCursor,
        CommandView::InsertHistory { area, prepared, mode },
    ];
    assert(after.commands =~= terminal.commands + expected);
    assert(added =~= expected);
    assert(terminal.commands =~= after.commands.subrange(0, terminal.commands.len() as int));
    reveal_with_fuel(crate::terminal::written_lines, 4);
    assert(expected.drop_last().drop_last().drop_last() =~= Seq::<CommandView>::empty());
    assert(crate::terminal::written_lines(expected) =~= replacement);
}

/// A tail without rows, or with more of them than there are above the viewport, is not there to be
/// replaced, and nothing at all happens.
pub proof fn law_a_tail_that_is_not_on_the_screen_is_left_alone(
    terminal: TerminalView,
    previous: Seq<LineView>,
    replacement: Seq<LineView>,
    mode: InsertHistoryMode,
)
    requires
        terminal.viewport_area.width > 0,
        ({
            let rows = crate::history_lines::total_rows(
                previous,
                terminal.viewport_area.width as nat,
            );
            rows == 0 || rows > terminal.viewport_area.y
        }),
    ensures
        !tail_is_visible(terminal, previous),
        replace_tail_step(terminal, previous, replacement, mode) == (terminal, true),
{
}

/// Where nothing is tracked, what waits is written before the tail is replaced, every batch with its
/// own lines, and behind it just the replacement, if the tail is still on the screen then. Nothing
/// waits any more, and the outcome tells what came of the tail.
pub proof fn law_what_waits_is_written_before_the_tail_is_replaced(
    tui: TuiView,
    pending_wrapped: Seq<Seq<LineView>>,
    previous: Seq<LineView>,
    replacement: Seq<LineView>,
    wrap_policy: HistoryLineWrapPolicy,
)
    requires
        tui.inline_viewport.pending is None,
        tui.inline_viewport.windows is None,
        tui.terminal.operations_left is None,
        tui.terminal.viewport_area.width > 0,
        pending_wrapped.len() == tui.pending_history_lines.len(),
    ensures
        ({
            let flushed = tui.flushed(pending_wrapped).0;
            let step = tui.replace_step(pending_wrapped, previous, replacement, wrap_policy);
            let added = step.tui.terminal.commands.skip(tui.terminal.commands.len() as int);
            let rows = crate::history_lines::total_rows(
                previous,
                tui.terminal.viewport_area.width as nat,
            );
            let visible = 0 < rows <= flushed.terminal.viewport_area.y;
            &&& step.tui.pending_history_lines.len() == 0
            &&& step.tui.inline_viewport == tui.inline_viewport
            &&& step.tui.is_zellij == tui.is_zellij
            &&& visible ==> step.outcome == Some(HistoryTailReplacement::Replaced)
            &&& !visible ==> step.outcome == Some(HistoryTailReplacement::NotVisible)
            &&& crate::terminal::written_lines(added) == pending_wrapped.flatten_alt() + if visible {
                replacement
            } else {
                Seq::empty()
            }
        }),
{
    let flushed = tui.flushed(pending_wrapped).0;
    let step = tui.replace_step(pending_wrapped, previous, replacement, wrap_policy);
    let mode = crate::history_lines::insert_mode(tui.is_zellij, wrap_policy);
    let added = step.tui.terminal.commands.skip(tui.terminal.commands.len() as int);
    crate::inline_viewport::law_a_flush_writes_what_waits(
        tui.terminal,
        None,
        tui.pending_history_lines,
        pending_wrapped,
        tui.is_zellij,
    );
    let prepared = crate::transcript_replay::prepared_batches(
        tui.pending_history_lines,
        pending_wrapped,
        crate::history_lines::wrap_width_of(tui.terminal.viewport_area.width),
        tui.is_zellij,
    );
    crate::inline_viewport::lemma_batches_keep_the_width(tui.terminal, None, prepared);
    crate::inline_viewport::law_every_batch_is_inserted_once(tui.terminal, None, prepared);
    let written = flushed.terminal.commands.skip(tui.terminal.commands.len() as int);
    if tail_is_visible(flushed.terminal, previous) {
        law_a_visible_tail_gives_way_to_its_replacement(
            flushed.terminal,
            previous,
            replacement,
            mode,
        );
        let more = step.tui.terminal.commands.skip(flushed.terminal.commands.len() as int);
        crate::terminal::lemma_added_in_two_parts(
            tui.terminal.commands,
            flushed.terminal.commands,
            step.tui.terminal.commands,
        );
        crate::terminal::lemma_written_lines_join(written, more);
    } else {
        assert(added =~= written);
        assert(pending_wrapped.flatten_alt() + Seq::<LineView>::empty()
            =~= pending_wrapped.flatten_alt());
    }
}

/// Nothing is replaced while a transcript waits to be written anew.
pub proof fn law_a_pending_transcript_absorbs_the_replacement(
    tui: TuiView,
    pending_wrapped: Seq<Seq<LineView>>,
    previous: Seq<LineView>,
    replacement: Seq<LineView>,
    wrap_policy: HistoryLineWrapPolicy,
)
    requires
        tui.inline_viewport.pending is Some,
    ensures
        tui.replace_step(pending_wrapped, previous, replacement, wrap_policy) == (TuiStep {
            tui,
            outcome: Some(HistoryTailReplacement::RequiresTranscriptReflow),
        }),
{
}

/// A replacement is drawn: whenever something was replaced, a frame is scheduled.
pub proof fn law_a_replacement_schedules_a_frame(
    tui: TuiView,
    pending_wrapped: Seq<Seq<LineView>>,
    previous: Seq<LineView>,
    replacement: Seq<LineView>,
    wrap_policy: HistoryLineWrapPolicy,
)
    ensures
        ({
            let step = tui.replace_step(pending_wrapped, previous, replacement, wrap_policy);
            &&& step.outcome == Some(HistoryTailReplacement::Replaced) ==> step.tui.frame_scheduled
            &&& step.outcome != Some(HistoryTailReplacement::Replaced) ==> step.tui.frame_scheduled
                == tui.frame_scheduled
        }),
{
}

/// Replace the tail directly above the viewport of `terminal`. Both the lines to replace and the
/// new ones are wrapped to the viewport's width.
pub fn replace_visible_terminal_history_tail(
    terminal: &mut Terminal,
    wrapped_previous: &Vec<HyperlinkLine>,
    wrapped_replacement: &Vec<HyperlinkLine>,
    mode: InsertHistoryMode,
) -> (result: Result<HistoryTailReplacement, TerminalError>)
    ensures
        ({
            let (after, completed) = replace_tail_step(
                old(terminal)@,
                wrapped_previous.deep_view(),
                wrapped_replacement.deep_view(),
                mode,
            );
            &&& final(terminal)@ == after
            &&& result is Ok <==> completed
        }),
        result matches Ok(outcome) ==> outcome == if tail_is_visible(
            old(terminal)@,
            wrapped_previous.deep_view(),
        ) {
            HistoryTailReplacement::Replaced
        } else {
            HistoryTailReplacement::NotVisible
        },
{
    let mut viewport = terminal.viewport_area;
    let wrap_width: usize = history_wrap_width(terminal);
    let row_count: usize = history_row_count(wrapped_previous, wrap_width);
    if row_count > u16::MAX as usize {
        return Ok(HistoryTailReplacement::NotVisible);
    }
    let previous_rows: u16 = row_count as u16;
    if previous_rows == 0 || previous_rows > viewport.top() {
        return Ok(HistoryTailReplacement::NotVisible);
    }
    viewport.y = viewport.y - previous_rows;
    terminal.clear_after_position(Position::new(0, viewport.y))?;
    terminal.set_viewport_area(viewport);
    terminal.invalidate_viewport();
    let prepared = prepare_history_hyperlink_lines(wrapped_replacement.duplicate(), wrap_width);
    insert_prepared_history_hyperlink_lines_with_mode(terminal, &prepared, mode)?;
    Ok(HistoryTailReplacement::Replaced)
}

impl Tui {
    /// A copy of all lines that wait, those of a transcript first.
    pub fn pending_history_lines_for_test(&self) -> (lines: Vec<HyperlinkLine>)
        ensures
            lines.deep_view() == match self@.inline_viewport.pending {
                Some(replay) => crate::transcript_replay::all_lines(replay.history),
                None => Seq::empty(),
            } + crate::transcript_replay::all_lines(self@.pending_history_lines),
    {
        let mut lines = self.inline_viewport.pending_transcript_replay_lines_for_test();
        let ghost replayed = lines.deep_view();
        let mut waiting = copy_pending_lines(&self.pending_history_lines);
        let ghost added = waiting.deep_view();
        lines.append(&mut waiting);
        assert(lines.deep_view() =~= replayed + added);
        lines
    }

    pub fn transcript_replay_is_pending_for_test(&self) -> (pending: bool)
        ensures
            pending == (self@.inline_viewport.pending is Some),
    {
        self.inline_viewport.has_pending_transcript_replay()
    }

    /// The lines that a placement retains.
    pub fn tracked_history_source_for_test(&self) -> (lines: Option<&Vec<HyperlinkLine>>)
        ensures
            lines is Some <==> (self@.inline_viewport.windows matches Some(state)
                && state.placement is Some),
            lines matches Some(lines) ==> lines.deep_view()
                == self@.inline_viewport.windows->0.placement->0.retained_lines,
    {
        self.inline_viewport.retained_source_for_test()
    }

    /// Replace the end of the history. What waits is written first, each batch with its lines
    /// wrapped as its policy asks; both the lines to replace and the new ones are wrapped to the
    /// viewport's width.
    pub fn replace_visible_history_tail(
        &mut self,
        pending_wrapped: &Vec<Vec<HyperlinkLine>>,
        wrapped_previous: &Vec<HyperlinkLine>,
        wrapped_replacement: &Vec<HyperlinkLine>,
        wrap_policy: HistoryLineWrapPolicy,
    ) -> (result: Result<HistoryTailReplacement, TerminalError>)
        requires
            old(self)@.inline_viewport.is_valid(),
            pending_wrapped.len() == old(self).pending_history_lines.len(),
        ensures
            ({
                let step = old(self)@.replace_step(
                    pending_wrapped.deep_view(),
                    wrapped_previous.deep_view(),
                    wrapped_replacement.deep_view(),
                    wrap_policy,
                );
                &&& final(self)@ == step.tui
                &&& result is Ok <==> step.outcome is Some
                &&& result matches Ok(outcome) ==> Some(outcome) == step.outcome
            }),
    {
        if self.inline_viewport.has_pending_transcript_replay() {
            return Ok(HistoryTailReplacement::RequiresTranscriptReflow);
        }
        proof {
            crate::inline_viewport::lemma_batches_keep_the_state_valid(
                self.terminal@,
                self.inline_viewport@.windows,
                crate::transcript_replay::prepared_batches(
                    self.pending_history_lines.deep_view(),
                    pending_wrapped.deep_view(),
                    crate::history_lines::wrap_width_of(self.terminal@.viewport_area.width),
                    self.is_zellij,
                ),
            );
        }
        self.inline_viewport.flush_pending_history_lines(
            &mut self.terminal,
            &mut self.pending_history_lines,
            pending_wrapped,
            self.is_zellij,
        )?;
        let followed = self.inline_viewport.replace_visible_history_tail(
            &mut self.terminal,
            wrapped_previous,
            wrapped_replacement,
        )?;
        let outcome = match followed {
            Some(outcome) => outcome,
            None => {
                let mode = mode_for_policy(self.is_zellij, wrap_policy);
                replace_visible_terminal_history_tail(
                    &mut self.terminal,
                    wrapped_previous,
                    wrapped_replacement,
                    mode,
                )?
            },
        };
        if outcome == HistoryTailReplacement::Replaced {
            self.frame_scheduled = true;
        }
        Ok(outcome)
    }
}

/// Interfaces that are told apart by nothing in their views are in the same state.
pub proof fn law_the_view_of_an_interface_is_all_of_it(left: Tui, right: Tui)
    requires
        left@ == right@,
    ensures
        left.terminal@ == right.terminal@,
        left.inline_viewport@ == right.inline_viewport@,
        left.pending_history_lines.deep_view() == right.pending_history_lines.deep_view(),
        left.is_zellij == right.is_zellij,
        left.frame_scheduled == right.frame_scheduled,
{
}

/// What waits is let go of once it is written, and is kept where the backend fails.
pub proof fn law_a_failed_flush_keeps_what_waits(
    tui: TuiView,
    pending_wrapped: Seq<Seq<LineView>>,
    previous: Seq<LineView>,
    replacement: Seq<LineView>,
    wrap_policy: HistoryLineWrapPolicy,
)
    ensures
        ({
            let (flushed, completed) = tui.flushed(pending_wrapped);
            let step = tui.replace_step(pending_wrapped, previous, replacement, wrap_policy);
            &&& completed ==> flushed.pending_history_lines.len() == 0
            &&& !completed ==> flushed.pending_history_lines == tui.pending_history_lines
            &&& flushed.is_zellij == tui.is_zellij
            &&& flushed.frame_scheduled == tui.frame_scheduled
            &&& flushed.inline_viewport.pending == tui.inline_viewport.pending
            &&& !completed && tui.inline_viewport.pending is None ==> step.outcome is None
                && step.tui == flushed
        }),
{
}

/// Where the history is followed, its tail is replaced if it is known and on the screen, and any other
/// tail asks for the whole transcript and is left alone.
pub proof fn law_a_followed_tail_is_replaced_where_it_is_known(
    tui: TuiView,
    placement: PlacementView,
    previous: Seq<LineView>,
    replacement: Seq<LineView>,
    wrap_policy: HistoryLineWrapPolicy,
)
    requires
        tui.inline_viewport.windows == Some(WindowsViewportView { placement: Some(placement) }),
        tui.terminal.operations_left is None,
    ensures
        ({
            let known = crate::inline_append::tail_is_replaceable(
                tui.terminal,
                placement,
                previous,
            );
            let step = tui.tail_replaced(previous, replacement, wrap_policy);
            &&& known ==> {
                &&& step.outcome == Some(HistoryTailReplacement::Replaced)
                &&& step.tui.frame_scheduled
                &&& step.tui.inline_viewport.windows matches Some(windows)
                    && windows.placement matches Some(after) && after.retained_lines
                    == placement.retained_lines.take(
                    placement.retained_lines.len() - previous.len(),
                ) + replacement
            }
            &&& !known ==> {
                &&& step.outcome == Some(HistoryTailReplacement::RequiresTranscriptReflow)
                &&& step.tui == tui
            }
            &&& step.tui.inline_viewport.pending == tui.inline_viewport.pending
            &&& step.tui.pending_history_lines == tui.pending_history_lines
        }),
{
    crate::inline_append::law_a_working_backend_completes_every_append(
        tui.terminal,
        placement,
        crate::history_lines::prepared_lines(replacement, 1),
        previous,
        replacement,
    );
    if crate::inline_append::tail_is_replaceable(tui.terminal, placement, previous) {
        crate::inline_append::law_a_replaced_tail_ends_in_the_replacement(
            tui.terminal,
            placement,
            previous,
            replacement,
        );
    } else {
        crate::inline_append::law_an_unknown_tail_is_left_alone(
            tui.terminal,
            placement,
            previous,
            replacement,
        );
        assert(tui.inline_viewport.with_windows(tui.inline_viewport.windows)
            == tui.inline_viewport);
    }
}

} // verus!
