//! Platform-specific source-backed placement and history insertion for an inline viewport.

use vstd::prelude::*;

use crate::covered_history::CoveredHistoryPolicy;
use crate::geometry::{Position, Rect, Size};
use crate::history_lines::{
    mode_for_policy, prepare_history_hyperlink_lines, HistoryLineWrapPolicy,
    HistoryTailReplacement, HyperlinkLine, InsertHistoryMode, LineView,
};
use crate::inline_append::history_wrap_width;
use crate::inline_history::PlacementView;
use crate::content::Content;
use crate::terminal::{
    insert_prepared_history_hyperlink_lines_with_mode, CommandView, Terminal, TerminalCommand,
    TerminalError, TerminalView,
};
use crate::transcript_replay::{
    PendingHistoryLines, PendingTranscriptReplay, PreparedBatchView, PreparedHistoryBatch,
    PreparedTranscriptReplay, ReplayView, TranscriptReplayTarget,
};
use crate::windows_viewport::{WindowsInlineViewportState, WindowsViewportView};

verus! {

/// The kind of console that the viewport is drawn on.
#[derive(Clone, Copy, Debug, PartialEq, Eq, Structural)]
pub enum Platform {
    Windows,
    Other,
}

/// An inline viewport with what waits to be written above it. Only on Windows is the placement of
/// the history tracked.
#[derive(Clone, Debug, PartialEq, Eq)]
pub struct InlineViewportState {
    pub pending_transcript_replay: Option<PendingTranscriptReplay>,
    pub windows: Option<WindowsInlineViewportState>,
}

#[verifier::ext_equal]
pub struct ViewportView {
    pub pending: Option<ReplayView>,
    pub windows: Option<WindowsViewportView>,
}

impl View for InlineViewportState {
    type V = ViewportView;

    open spec fn view(&self) -> ViewportView {
        ViewportView {
            pending: self.pending_transcript_replay.deep_view(),
            windows: self.windows.deep_view(),
        }
    }
}

/// What an operation leaves behind of the terminal and of what is tracked, and whether the backend
/// performed all that was asked of it.
#[verifier::ext_equal]
pub struct ViewportStep {
    pub terminal: TerminalView,
    pub windows: Option<WindowsViewportView>,
    pub completed: bool,
}

impl ViewportStep {
    /// A step of a viewport on Windows.
    pub open spec fn on_windows(step: crate::windows_viewport::WindowsStep) -> Self {
        ViewportStep {
            terminal: step.terminal,
            windows: Some(step.state),
            completed: step.completed,
        }
    }
}

/// A batch is written above the viewport. Only what is inserted in the standard manner can follow
/// a placement.
pub open spec fn batch_step(
    terminal: TerminalView,
    windows: Option<WindowsViewportView>,
    batch: PreparedBatchView,
) -> ViewportStep {
    match windows {
        Some(state) if batch.mode == InsertHistoryMode::Standard => ViewportStep::on_windows(
            state.append_step(terminal, batch.lines),
        ),
        _ => ViewportStep {
            terminal: terminal.inserted(batch.lines, batch.mode),
            windows,
            completed: terminal.accepts(1),
        },
    }
}

/// Batches are written in their order, up to the one that fails.
pub open spec fn batches_step(
    terminal: TerminalView,
    windows: Option<WindowsViewportView>,
    batches: Seq<PreparedBatchView>,
) -> ViewportStep
    decreases batches.len(),
{
    if batches.len() == 0 {
        ViewportStep { terminal, windows, completed: true }
    } else {
        let first = batch_step(terminal, windows, batches[0]);
        if first.completed {
            batches_step(first.terminal, first.windows, batches.drop_first())
        } else {
            first
        }
    }
}

/// Whether lines can be written at a placement, as far as one is tracked: they are prepared for the
/// viewport's width.
pub open spec fn is_prepared_for(
    terminal: TerminalView,
    windows: Option<WindowsViewportView>,
    batches: Seq<PreparedBatchView>,
) -> bool {
    windows matches Some(state) && state.placement is Some ==> forall|index: int|
        0 <= index < batches.len() ==> (#[trigger] batches[index]).lines.wrap_width
            == crate::history_lines::wrap_width_of(terminal.viewport_area.width)
}

/// What clears the screen for a transcript.
pub open spec fn clear_command(target: TranscriptReplayTarget) -> CommandView {
    match target {
        TranscriptReplayTarget::AlternateScreen => CommandView::ClearVisibleScreen,
        TranscriptReplayTarget::InlineViewport => CommandView::ClearScrollbackAndVisibleScreen,
    }
}

/// The viewport at the top of the screen.
pub open spec fn anchored(terminal: TerminalView) -> TerminalView {
    terminal.with_viewport_area(Rect { y: 0, ..terminal.viewport_area })
}

/// Where a viewport without tracked history belongs: it is moved up where it has no room, and stays
/// at the bottom of a screen that grows.
pub open spec fn requested_area(terminal: TerminalView, height: u16, screen_size: Size) -> Rect {
    let area = crate::windows_viewport::extended_area(terminal, height, screen_size);
    if area.bottom_row() > screen_size.height || (screen_size.height
        > terminal.last_known_screen_size.height && crate::windows_viewport::was_bottom_aligned(
        terminal,
    )) {
        crate::windows_viewport::bottom_aligned(area, screen_size)
    } else {
        area
    }
}

/// What moves rows out of the way of a viewport that has no room. A screen that has become shorter
/// has moved them by itself.
pub open spec fn make_room_commands(terminal: TerminalView, height: u16, screen_size: Size) -> Seq<
    CommandView,
> {
    let area = crate::windows_viewport::extended_area(terminal, height, screen_size);
    if area.bottom_row() > screen_size.height && screen_size.height
        >= terminal.last_known_screen_size.height {
        seq![
            CommandView::ScrollRegionUp {
                end: area.y,
                rows: (area.bottom_row() - screen_size.height) as u16,
            },
        ]
    } else {
        Seq::empty()
    }
}

/// A viewport without tracked history is resized.
pub open spec fn resize_step(terminal: TerminalView, height: u16, screen_size: Size) -> (
    TerminalView,
    bool,
) {
    let commands = make_room_commands(terminal, height, screen_size);
    let roomy = terminal.sent(commands);
    let previous = terminal.viewport_area;
    let area = requested_area(terminal, height, screen_size);
    if !terminal.accepts(commands.len()) {
        (roomy, false)
    } else if area == previous {
        (roomy, true)
    } else {
        let moved = roomy.with_viewport_area(area);
        let position = Position {
            x: 0,
            y: crate::geometry::lower_row(previous.y as int, area.y as int),
        };
        (moved.cleared_after(position), moved.accepts(2))
    }
}

impl ViewportView {
    pub open spec fn is_valid(self) -> bool {
        self.windows matches Some(state) ==> state.is_valid()
    }

    /// Nothing is tracked any more.
    pub open spec fn without_placement(self) -> Self {
        ViewportView {
            windows: match self.windows {
                Some(_) => Some(WindowsViewportView { placement: None }),
                None => None,
            },
            ..self
        }
    }

    pub open spec fn with_windows(self, windows: Option<WindowsViewportView>) -> Self {
        ViewportView { windows, ..self }
    }

    /// The viewport gets another number of rows, or another screen.
    pub open spec fn update_step(self, terminal: TerminalView, height: u16, screen_size: Size) -> ViewportStep {
        match self.windows {
            Some(state) => ViewportStep::on_windows(
                state.update_step(terminal, height, screen_size),
            ),
            None => ViewportStep {
                terminal: resize_step(terminal, height, screen_size).0,
                windows: None,
                completed: resize_step(terminal, height, screen_size).1,
            },
        }
    }

    /// Whether what waits is written before the viewport is resized: it follows a history of which
    /// nothing is covered, and the viewport does not move down.
    pub open spec fn history_precedes_resize(
        self,
        viewport_height: u16,
        screen_size: Size,
        current_top: u16,
    ) -> bool {
        &&& self.pending is None
        &&& self.windows matches Some(state)
        &&& state.placement matches Some(placement)
        &&& placement.covered_rows == 0
        &&& crate::geometry::rows_left(screen_size.height as int, viewport_height as int)
            <= current_top
    }

    /// The area that the viewport gets.
    pub open spec fn resized_area(self, terminal: TerminalView, height: u16, screen_size: Size) -> Rect {
        match self.windows {
            Some(state) => state.resize_step(terminal, height, screen_size).area,
            None => requested_area(terminal, height, screen_size),
        }
    }

    /// The end of the history is replaced where it is tracked.
    pub open spec fn replace_step(
        self,
        terminal: TerminalView,
        previous: Seq<LineView>,
        replacement: Seq<LineView>,
    ) -> ViewportStep {
        match self.windows {
            Some(state) => ViewportStep::on_windows(
                state.replace_step(terminal, previous, replacement),
            ),
            None => ViewportStep { terminal, windows: None, completed: true },
        }
    }

    pub open spec fn replacement_outcome(self, terminal: TerminalView, previous: Seq<LineView>) -> Option<
        HistoryTailReplacement,
    > {
        match self.windows {
            Some(state) => state.replacement_outcome(terminal, previous),
            None => None,
        }
    }
}

/// Writing a batch keeps the viewport's width, and keeps a placement valid and tracked.
#[verifier::rlimit(40)]
pub proof fn lemma_a_batch_keeps_the_width(
    terminal: TerminalView,
    windows: Option<WindowsViewportView>,
    batch: PreparedBatchView,
)
    requires
        windows matches Some(state) ==> state.is_valid(),
        windows matches Some(state) && state.placement is Some ==> batch.lines.wrap_width > 0,
    ensures
        ({
            let step = batch_step(terminal, windows, batch);
            &&& step.terminal.viewport_area.width == terminal.viewport_area.width
            &&& step.windows is Some <==> windows is Some
            &&& step.windows matches Some(state) ==> {
                &&& state.is_valid()
                &&& state.placement is Some <==> windows->0.placement is Some
            }
        }),
{
}

/// Writing batches keeps a placement valid.
pub proof fn lemma_batches_keep_the_state_valid(
    terminal: TerminalView,
    windows: Option<WindowsViewportView>,
    batches: Seq<PreparedBatchView>,
)
    requires
        windows matches Some(state) ==> state.is_valid(),
        forall|index: int|
            0 <= index < batches.len() ==> (#[trigger] batches[index]).lines.wrap_width > 0,
    ensures
        batches_step(terminal, windows, batches).windows matches Some(state) ==> state.is_valid(),
    decreases batches.len(),
{
    if batches.len() > 0 {
        lemma_a_batch_keeps_the_width(terminal, windows, batches[0]);
        let step = batch_step(terminal, windows, batches[0]);
        assert forall|index: int| 0 <= index < batches.len() - 1 implies (
        #[trigger] batches.drop_first()[index]).lines.wrap_width > 0 by {
            assert(batches[index + 1].lines.wrap_width > 0);
        }
        if step.completed {
            lemma_batches_keep_the_state_valid(step.terminal, step.windows, batches.drop_first());
        }
    }
}

/// Writing batches keeps the viewport's width.
pub proof fn lemma_batches_keep_the_width(
    terminal: TerminalView,
    windows: Option<WindowsViewportView>,
    batches: Seq<PreparedBatchView>,
)
    requires
        windows matches Some(state) ==> state.is_valid(),
        forall|index: int|
            0 <= index < batches.len() ==> (#[trigger] batches[index]).lines.wrap_width > 0,
    ensures
        batches_step(terminal, windows, batches).terminal.viewport_area.width
            == terminal.viewport_area.width,
    decreases batches.len(),
{
    if batches.len() > 0 {
        lemma_a_batch_keeps_the_width(terminal, windows, batches[0]);
        let step = batch_step(terminal, windows, batches[0]);
        assert forall|index: int| 0 <= index < batches.len() - 1 implies (
        #[trigger] batches.drop_first()[index]).lines.wrap_width > 0 by {
            assert(batches[index + 1].lines.wrap_width > 0);
        }
        if step.completed {
            lemma_batches_keep_the_width(step.terminal, step.windows, batches.drop_first());
        }
    }
}

/// A viewport without tracked history stays on the screen as well.
pub proof fn law_a_resized_viewport_stays_on_the_screen(
    state: ViewportView,
    terminal: TerminalView,
    height: u16,
    screen_size: Size,
)
    requires
        state.update_step(terminal, height, screen_size).completed,
    ensures
        state.update_step(terminal, height, screen_size).terminal.viewport_area.bottom_row()
            <= screen_size.height,
{
    if state.windows is Some {
        crate::windows_viewport::law_a_resized_viewport_stays_on_the_screen(
            state.windows->0,
            terminal,
            height,
            screen_size,
        );
    }
}

/// A screen that becomes shorter scrolls no rows of the transcript: the viewport only moves up.
pub proof fn law_a_shorter_screen_scrolls_nothing(
    terminal: TerminalView,
    height: u16,
    screen_size: Size,
)
    requires
        screen_size.height < terminal.last_known_screen_size.height,
    ensures
        make_room_commands(terminal, height, screen_size).len() == 0,
        resize_step(terminal, height, screen_size).0.viewport_area.y <= terminal.viewport_area.y,
{
}

/// Batches written in two parts are batches written at once.
pub proof fn law_batches_can_be_written_in_parts(
    terminal: TerminalView,
    windows: Option<WindowsViewportView>,
    first: Seq<PreparedBatchView>,
    second: Seq<PreparedBatchView>,
)
    ensures
        ({
            let step = batches_step(terminal, windows, first);
            batches_step(terminal, windows, first + second) == if step.completed {
                batches_step(step.terminal, step.windows, second)
            } else {
                step
            }
        }),
    decreases first.len(),
{
    if first.len() == 0 {
        assert(first + second =~= second);
    } else {
        let step = batch_step(terminal, windows, first[0]);
        assert((first + second).drop_first() =~= first.drop_first() + second);
        if step.completed {
            law_batches_can_be_written_in_parts(
                step.terminal,
                step.windows,
                first.drop_first(),
                second,
            );
        }
    }
}

/// Writing prepared batches where no history is tracked asks for one insertion for each batch, in
/// their order, with the lines and in the manner of that batch and no other. A backend that fails
/// has performed the first of them.
pub proof fn law_every_batch_is_inserted_once(
    terminal: TerminalView,
    windows: Option<WindowsViewportView>,
    batches: Seq<PreparedBatchView>,
)
    requires
        windows matches Some(state) ==> state.placement is None,
    ensures
        ({
            let step = batches_step(terminal, windows, batches);
            let added = step.terminal.commands.skip(terminal.commands.len() as int);
            let performed = match terminal.operations_left {
                Some(left) if left < batches.len() => left as nat,
                _ => batches.len(),
            };
            &&& terminal.commands.is_prefix_of(step.terminal.commands)
            &&& added.len() == performed
            &&& step.completed <==> performed == batches.len()
            &&& step.windows == windows
            &&& forall|index: int|
                0 <= index < performed ==> (#[trigger] added[index] matches
                    CommandView::InsertHistory { prepared, mode, .. } && prepared
                    == batches[index].lines && mode == batches[index].mode)
            &&& crate::terminal::written_lines(added) == batches.take(performed as int).map_values(
                |batch: PreparedBatchView| batch.lines.lines,
            ).flatten_alt()
            &&& terminal.operations_left is None ==> step.terminal.operations_left is None
        }),
{
    let step = batches_step(terminal, windows, batches);
    let added = step.terminal.commands.skip(terminal.commands.len() as int);
    let performed = lemma_batches_are_inserted(terminal, windows, batches, step);
    reveal(inserts);
    assert forall|index: int| 0 <= index < performed implies (#[trigger] added[index] matches
        CommandView::InsertHistory { prepared, mode, .. } && prepared == batches[index].lines
        && mode == batches[index].mode) by {
        assert(batches.take(performed as int)[index] == batches[index]);
    }
}

/// How many batches are inserted, and that the commands insert just these.
#[verifier::spinoff_prover]
#[verifier::rlimit(60)]
proof fn lemma_batches_are_inserted(
    terminal: TerminalView,
    windows: Option<WindowsViewportView>,
    batches: Seq<PreparedBatchView>,
    step: ViewportStep,
) -> (performed: nat)
    requires
        windows matches Some(state) ==> state.placement is None,
        step == batches_step(terminal, windows, batches),
    ensures
        performed == match terminal.operations_left {
            Some(left) if left < batches.len() => left as nat,
            _ => batches.len(),
        },
        terminal.commands.is_prefix_of(step.terminal.commands),
        inserts(
            step.terminal.commands.skip(terminal.commands.len() as int),
            batches.take(performed as int),
        ),
        step.completed <==> performed == batches.len(),
        step.windows == windows,
        terminal.operations_left is None ==> step.terminal.operations_left is None,
    decreases batches.len(),
{
    if batches.len() == 0 {
        assert(step.terminal.commands.skip(terminal.commands.len() as int)
            =~= Seq::<CommandView>::empty());
        assert(terminal.commands =~= terminal.commands.subrange(
            0,
            terminal.commands.len() as int,
        ));
        lemma_nothing_is_inserted(batches.take(0));
        0
    } else {
        let command = CommandView::InsertHistory {
            area: terminal.viewport_area,
            prepared: batches[0].lines,
            mode: batches[0].mode,
        };
        let first = batch_step(terminal, windows, batches[0]);
        lemma_a_batch_is_inserted(terminal, windows, batches[0]);
        if first.completed {
            let rest = batches.drop_first();
            let more = lemma_batches_are_inserted(first.terminal, windows, rest, step);
            crate::terminal::lemma_added_in_two_parts(
                terminal.commands,
                first.terminal.commands,
                step.terminal.commands,
            );
            lemma_one_more_is_inserted(
                command,
                batches[0],
                step.terminal.commands.skip(first.terminal.commands.len() as int),
                rest.take(more as int),
            );
            assert(seq![batches[0]] + rest.take(more as int) =~= batches.take((more + 1) as int));
            more + 1
        } else {
            assert(step.terminal.commands.skip(terminal.commands.len() as int)
                =~= Seq::<CommandView>::empty());
            lemma_nothing_is_inserted(batches.take(0));
            0
        }
    }
}

/// Whether commands insert batches, one by one.
#[verifier::opaque]
spec fn inserts(commands: Seq<CommandView>, batches: Seq<PreparedBatchView>) -> bool {
    &&& commands.len() == batches.len()
    &&& forall|index: int|
        0 <= index < commands.len() ==> (#[trigger] commands[index] matches
            CommandView::InsertHistory { prepared, mode, .. } && prepared == batches[index].lines
            && mode == batches[index].mode)
    &&& crate::terminal::written_lines(commands) == batches.map_values(
        |batch: PreparedBatchView| batch.lines.lines,
    ).flatten_alt()
}

proof fn lemma_nothing_is_inserted(batches: Seq<PreparedBatchView>)
    requires
        batches.len() == 0,
    ensures
        inserts(Seq::empty(), batches),
{
    reveal(inserts);
    assert(batches.map_values(|batch: PreparedBatchView| batch.lines.lines)
        =~= Seq::<Seq<LineView>>::empty());
}

proof fn lemma_one_more_is_inserted(
    command: CommandView,
    batch: PreparedBatchView,
    more: Seq<CommandView>,
    batches: Seq<PreparedBatchView>,
)
    requires
        command matches CommandView::InsertHistory { prepared, mode, .. } && prepared == batch.lines
            && mode == batch.mode,
        crate::terminal::written_lines(seq![command]) == batch.lines.lines,
        inserts(more, batches),
    ensures
        inserts(seq![command] + more, seq![batch] + batches),
{
    reveal(inserts);
    let written = |batch: PreparedBatchView| batch.lines.lines;
    let all = seq![batch] + batches;
    crate::terminal::lemma_written_lines_join(seq![command], more);
    assert(all.map_values(written) =~= seq![batch.lines.lines] + batches.map_values(written));
    crate::text::lemma_flattened_first(batch.lines.lines, batches.map_values(written));
}

/// A batch that follows no placement is inserted, where the backend still performs anything.
proof fn lemma_a_batch_is_inserted(
    terminal: TerminalView,
    windows: Option<WindowsViewportView>,
    batch: PreparedBatchView,
)
    requires
        windows matches Some(state) ==> state.placement is None,
    ensures
        ({
            let step = batch_step(terminal, windows, batch);
            let command = CommandView::InsertHistory {
                area: terminal.viewport_area,
                prepared: batch.lines,
                mode: batch.mode,
            };
            &&& step.windows == windows
            &&& step.completed <==> terminal.accepts(1)
            &&& terminal.commands.is_prefix_of(step.terminal.commands)
            &&& crate::terminal::written_lines(seq![command]) == batch.lines.lines
            &&& step.completed ==> {
                &&& step.terminal.commands.skip(terminal.commands.len() as int) == seq![command]
                &&& step.terminal.operations_left == match terminal.operations_left {
                    Some(left) => Some((left - 1) as usize),
                    None => None,
                }
            }
            &&& !step.completed ==> step.terminal.commands == terminal.commands
                && step.terminal.operations_left == Some(0usize)
        }),
{
    let step = batch_step(terminal, windows, batch);
    let command = CommandView::InsertHistory {
        area: terminal.viewport_area,
        prepared: batch.lines,
        mode: batch.mode,
    };
    reveal_with_fuel(crate::terminal::written_lines, 2);
    assert(seq![command].drop_last() =~= Seq::<CommandView>::empty());
    assert(crate::terminal::written_lines(seq![command]) =~= batch.lines.lines);
    if step.completed {
        assert(step.terminal.commands =~= terminal.commands + seq![command]);
        assert(step.terminal.commands.skip(terminal.commands.len() as int) =~= seq![command]);
        assert(terminal.commands =~= step.terminal.commands.subrange(
            0,
            terminal.commands.len() as int,
        ));
    } else {
        assert(step.terminal.commands =~= terminal.commands);
        assert(terminal.commands =~= step.terminal.commands.subrange(
            0,
            terminal.commands.len() as int,
        ));
    }
}

/// Writing counted batches behind a history that is tracked, and of which nothing is covered, writes
/// each line of each batch once and in their order, and retains them in the same order behind what was
/// retained for the same width.
pub proof fn law_every_batch_is_appended_once(
    terminal: TerminalView,
    placement: PlacementView,
    batches: Seq<PreparedBatchView>,
    wrap_width: usize,
)
    requires
        placement.covered_rows == 0,
        placement.retained_wrap_width == Some(wrap_width),
        forall|index: int|
            0 <= index < batches.len() ==> {
                &&& (#[trigger] batches[index]).mode == InsertHistoryMode::Standard
                &&& crate::inline_append::is_counted(batches[index].lines)
                &&& batches[index].lines.wrap_width == wrap_width
            },
        batches_step(
            terminal,
            Some(WindowsViewportView { placement: Some(placement) }),
            batches,
        ).completed,
    ensures
        ({
            let step = batches_step(
                terminal,
                Some(WindowsViewportView { placement: Some(placement) }),
                batches,
            );
            let added = step.terminal.commands.skip(terminal.commands.len() as int);
            let lines = batches.map_values(
                |batch: PreparedBatchView| batch.lines.lines,
            ).flatten_alt();
            &&& terminal.commands.is_prefix_of(step.terminal.commands)
            &&& crate::terminal::written_lines(added) == lines
            &&& step.windows matches Some(state) && state.placement matches Some(followed)
                && followed.retained_lines == placement.retained_lines + lines
                && followed.covered_rows == 0
        }),
    decreases batches.len(),
{
    let windows = Some(WindowsViewportView { placement: Some(placement) });
    let step = batches_step(terminal, windows, batches);
    let added = step.terminal.commands.skip(terminal.commands.len() as int);
    let written = |batch: PreparedBatchView| batch.lines.lines;
    if batches.len() == 0 {
        assert(added =~= Seq::<CommandView>::empty());
        assert(batches.map_values(written) =~= Seq::<Seq<LineView>>::empty());
        assert(placement.retained_lines + Seq::<LineView>::empty() =~= placement.retained_lines);
    } else {
        assert(batches[0].mode == InsertHistoryMode::Standard);
        let first = batch_step(terminal, windows, batches[0]);
        crate::inline_append::law_an_append_writes_each_line_once(
            terminal,
            placement,
            batches[0].lines,
        );
        let followed = first.windows->0.placement->0;
        let rest = batches.drop_first();
        assert forall|index: int| 0 <= index < rest.len() implies {
            &&& (#[trigger] rest[index]).mode == InsertHistoryMode::Standard
            &&& crate::inline_append::is_counted(rest[index].lines)
            &&& rest[index].lines.wrap_width == wrap_width
        } by {
            assert(rest[index] == batches[index + 1]);
        }
        assert(first.windows == Some(WindowsViewportView { placement: Some(followed) }));
        assert(followed.retained_lines =~= placement.retained_lines + batches[0].lines.lines);
        law_every_batch_is_appended_once(first.terminal, followed, rest, wrap_width);
        let before = first.terminal.commands.skip(terminal.commands.len() as int);
        let more = step.terminal.commands.skip(first.terminal.commands.len() as int);
        crate::terminal::lemma_added_in_two_parts(
            terminal.commands,
            first.terminal.commands,
            step.terminal.commands,
        );
        crate::terminal::lemma_written_lines_join(before, more);
        let later = rest.map_values(written);
        assert(batches.map_values(written) =~= seq![batches[0].lines.lines] + later);
        crate::text::lemma_flattened_first(batches[0].lines.lines, later);
        assert(Seq::<LineView>::empty() + batches[0].lines.lines =~= batches[0].lines.lines);
        assert(placement.retained_lines + batches[0].lines.lines + later.flatten_alt()
            =~= placement.retained_lines + (batches[0].lines.lines + later.flatten_alt()));
    }
}

/// A flush of the history that waits hands the terminal the wrapped lines of every waiting batch, each
/// batch its own and in their order, wrapped for the viewport's columns: none is lost, none is written
/// twice. With a backend that never fails the flush is complete.
pub proof fn law_a_flush_writes_what_waits(
    terminal: TerminalView,
    windows: Option<WindowsViewportView>,
    waiting: Seq<crate::transcript_replay::PendingBatchView>,
    wrapped: Seq<Seq<LineView>>,
    is_zellij: bool,
)
    requires
        windows matches Some(state) ==> state.placement is None,
        wrapped.len() == waiting.len(),
        terminal.operations_left is None,
        terminal.viewport_area.width > 0,
    ensures
        ({
            let step = batches_step(
                terminal,
                windows,
                crate::transcript_replay::prepared_batches(
                    waiting,
                    wrapped,
                    crate::history_lines::wrap_width_of(terminal.viewport_area.width),
                    is_zellij,
                ),
            );
            let added = step.terminal.commands.skip(terminal.commands.len() as int);
            &&& step.completed
            &&& terminal.commands.is_prefix_of(step.terminal.commands)
            &&& added.len() == waiting.len()
            &&& crate::terminal::written_lines(added) == wrapped.flatten_alt()
            &&& forall|index: int|
                0 <= index < waiting.len() ==> (#[trigger] added[index] matches
                    CommandView::InsertHistory { prepared, mode, .. } && prepared.lines
                    == wrapped[index] && prepared.wrap_width == terminal.viewport_area.width
                    && mode == if is_zellij && waiting[index].wrap_policy
                    == HistoryLineWrapPolicy::Terminal {
                    InsertHistoryMode::ZellijRaw
                } else {
                    InsertHistoryMode::Standard
                })
        }),
{
    let wrap_width = crate::history_lines::wrap_width_of(terminal.viewport_area.width);
    let prepared = crate::transcript_replay::prepared_batches(
        waiting,
        wrapped,
        wrap_width,
        is_zellij,
    );
    crate::transcript_replay::law_every_batch_is_prepared_with_its_own_lines(
        waiting,
        wrapped,
        wrap_width,
        is_zellij,
    );
    law_every_batch_is_inserted_once(terminal, windows, prepared);
    assert(prepared.take(prepared.len() as int) =~= prepared);
    let step = batches_step(terminal, windows, prepared);
    let added = step.terminal.commands.skip(terminal.commands.len() as int);
    assert forall|index: int| 0 <= index < waiting.len() implies (#[trigger] added[index] matches
        CommandView::InsertHistory { prepared, mode, .. } && prepared.lines == wrapped[index]
        && prepared.wrap_width == terminal.viewport_area.width && mode == if is_zellij
        && waiting[index].wrap_policy == HistoryLineWrapPolicy::Terminal {
        InsertHistoryMode::ZellijRaw
    } else {
        InsertHistoryMode::Standard
    }) by {
        assert(prepared[index].lines.lines == wrapped[index]);
    }
}

/// With a tracked history that covers nothing and was wrapped for the viewport's columns, a flush
/// writes the wrapped lines of every waiting batch behind it, each once and in their order.
pub proof fn law_a_followed_flush_writes_what_waits(
    terminal: TerminalView,
    placement: PlacementView,
    waiting: Seq<crate::transcript_replay::PendingBatchView>,
    wrapped: Seq<Seq<LineView>>,
)
    requires
        placement.covered_rows == 0,
        placement.retained_wrap_width == Some(terminal.viewport_area.width as usize),
        wrapped.len() == waiting.len(),
        terminal.operations_left is None,
        terminal.viewport_area.width > 0,
    ensures
        ({
            let step = batches_step(
                terminal,
                Some(WindowsViewportView { placement: Some(placement) }),
                crate::transcript_replay::prepared_batches(
                    waiting,
                    wrapped,
                    crate::history_lines::wrap_width_of(terminal.viewport_area.width),
                    false,
                ),
            );
            let added = step.terminal.commands.skip(terminal.commands.len() as int);
            &&& step.completed
            &&& crate::terminal::written_lines(added) == wrapped.flatten_alt()
            &&& step.windows matches Some(state) && state.placement matches Some(followed)
                && followed.retained_lines == placement.retained_lines + wrapped.flatten_alt()
        }),
{
    let wrap_width = crate::history_lines::wrap_width_of(terminal.viewport_area.width);
    let prepared = crate::transcript_replay::prepared_batches(waiting, wrapped, wrap_width, false);
    crate::transcript_replay::law_every_batch_is_prepared_with_its_own_lines(
        waiting,
        wrapped,
        wrap_width,
        false,
    );
    assert forall|index: int| 0 <= index < prepared.len() implies {
        &&& (#[trigger] prepared[index]).mode == InsertHistoryMode::Standard
        &&& crate::inline_append::is_counted(prepared[index].lines)
        &&& prepared[index].lines.wrap_width == wrap_width
    } by {}
    let windows = Some(WindowsViewportView { placement: Some(placement) });
    law_a_working_backend_writes_every_batch(terminal, windows, prepared);
    law_every_batch_is_appended_once(terminal, placement, prepared, wrap_width);
}

/// A backend that never fails writes every batch.
pub proof fn law_a_working_backend_writes_every_batch(
    terminal: TerminalView,
    windows: Option<WindowsViewportView>,
    batches: Seq<PreparedBatchView>,
)
    requires
        terminal.operations_left is None,
    ensures
        batches_step(terminal, windows, batches).completed,
        batches_step(terminal, windows, batches).terminal.operations_left is None,
    decreases batches.len(),
{
    if batches.len() > 0 {
        let step = batch_step(terminal, windows, batches[0]);
        if windows matches Some(state) && state.placement is Some {
            crate::inline_append::law_a_working_backend_completes_every_append(
                terminal,
                windows->0.placement->0,
                batches[0].lines,
                Seq::empty(),
                Seq::empty(),
            );
        }
        assert(step.completed && step.terminal.operations_left is None);
        law_a_working_backend_writes_every_batch(
            step.terminal,
            step.windows,
            batches.drop_first(),
        );
    }
}

/// A transcript is replayed onto a clear screen: the viewport goes to its top with the size that it
/// has, nothing counts as history, and what is cleared is what the transcript is shown on, with what
/// had been scrolled out of it wherever that is part of the transcript.
pub proof fn law_a_replay_starts_on_a_clear_screen(
    terminal: TerminalView,
    target: TranscriptReplayTarget,
)
    requires
        terminal.operations_left is None,
    ensures
        ({
            let cleared = anchored(terminal).screen_cleared(clear_command(target));
            &&& cleared.viewport_area.y == 0
            &&& cleared.viewport_area.x == terminal.viewport_area.x
            &&& cleared.viewport_area.width == terminal.viewport_area.width
            &&& cleared.viewport_area.height == terminal.viewport_area.height
            &&& cleared.visible_history_rows == 0
            &&& cleared.viewport_invalidated
            &&& target == TranscriptReplayTarget::AlternateScreen ==> cleared.commands
                == terminal.commands.push(CommandView::ClearVisibleScreen)
            &&& target == TranscriptReplayTarget::InlineViewport ==> cleared.commands
                == terminal.commands.push(CommandView::ClearScrollbackAndVisibleScreen)
        }),
{
    assert(terminal.commands + seq![clear_command(target)] =~= terminal.commands.push(
        clear_command(target),
    ));
}

/// Forgetting the placement forgets nothing else, and leaves the kind of console what it is.
pub proof fn law_forgetting_the_placement_keeps_what_waits(state: ViewportView)
    ensures
        state.without_placement().pending == state.pending,
        state.windows is None ==> state.without_placement().windows is None,
        state.windows is Some ==> (state.without_placement().windows matches Some(windows)
            && windows.placement is None),
{
}

/// A resized viewport without tracked history takes the width of the screen and the rows that are
/// asked for, as far as the screen has them. It stays where it is where it has room there; it ends with
/// the screen where it has not, and where the screen grew below a viewport that ended with it. It has
/// to be written in full whenever its area changes, so in particular whenever the screen is wider or
/// narrower than it was.
pub proof fn law_a_resized_viewport_takes_the_width_of_the_screen(
    terminal: TerminalView,
    height: u16,
    screen_size: Size,
)
    requires
        resize_step(terminal, height, screen_size).1,
        terminal.viewport_area.y + height <= u16::MAX,
        terminal.viewport_area.y + terminal.viewport_area.height <= u16::MAX,
    ensures
        ({
            let previous = terminal.viewport_area;
            let area = resize_step(terminal, height, screen_size).0.viewport_area;
            let fits = previous.y + area.height <= screen_size.height;
            let grew_below = screen_size.height > terminal.last_known_screen_size.height
                && previous.y + previous.height == terminal.last_known_screen_size.height;
            &&& area.width == screen_size.width
            &&& area.x == previous.x
            &&& height <= screen_size.height ==> area.height == height
            &&& height > screen_size.height ==> area.height == screen_size.height
            &&& fits && !grew_below ==> area.y == previous.y
            &&& !fits || grew_below ==> area.y + area.height == screen_size.height
            &&& requested_area(terminal, height, screen_size) == area
            &&& previous.width != screen_size.width ==> requested_area(
                terminal,
                height,
                screen_size,
            ) != previous
        }),
{
}

/// A viewport without tracked history that has no room scrolls just as many rows above it away as it
/// lacks, unless the screen became shorter and did so by itself. Where its area changes, everything
/// from the higher of its two places on is cleared and the next frame is written in full; where it
/// does not, nothing else is asked for. A backend that never fails completes it.
pub proof fn law_a_resize_scrolls_and_clears_what_it_has_to(
    terminal: TerminalView,
    height: u16,
    screen_size: Size,
)
    requires
        terminal.operations_left is None,
        terminal.viewport_area.y + height <= u16::MAX,
    ensures
        ({
            let previous = terminal.viewport_area;
            let step = resize_step(terminal, height, screen_size);
            let area = step.0.viewport_area;
            let added = step.0.commands.skip(terminal.commands.len() as int);
            let lacking = previous.y + area.height - screen_size.height;
            let scrolling = if lacking > 0 && screen_size.height
                >= terminal.last_known_screen_size.height {
                seq![CommandView::ScrollRegionUp { end: previous.y, rows: lacking as u16 }]
            } else {
                Seq::empty()
            };
            let top = if previous.y < area.y {
                previous.y
            } else {
                area.y
            };
            let clearing = if area == previous {
                Seq::empty()
            } else {
                seq![
                    CommandView::MoveTo(Position { x: 0, y: top }),
                    CommandView::ClearAfterCursor,
                ]
            };
            &&& step.1
            &&& terminal.commands.is_prefix_of(step.0.commands)
            &&& added == scrolling + clearing
            &&& area != previous ==> step.0.viewport_invalidated
            &&& area == previous ==> step.0.viewport_invalidated == terminal.viewport_invalidated
            &&& step.0.visible_history_rows <= terminal.visible_history_rows
            &&& area != previous ==> step.0.visible_history_rows <= area.y
            &&& area == previous || terminal.visible_history_rows <= area.y
                ==> step.0.visible_history_rows == terminal.visible_history_rows
        }),
{
    let previous = terminal.viewport_area;
    let step = resize_step(terminal, height, screen_size);
    let commands = make_room_commands(terminal, height, screen_size);
    let area = requested_area(terminal, height, screen_size);
    let added = step.0.commands.skip(terminal.commands.len() as int);
    if area == previous {
        assert(step.0.commands =~= terminal.commands + commands);
        assert(added =~= commands);
        assert(commands + Seq::<CommandView>::empty() =~= commands);
    } else {
        let clearing = seq![
            CommandView::MoveTo(
                Position { x: 0, y: crate::geometry::lower_row(previous.y as int, area.y as int) },
            ),
            CommandView::ClearAfterCursor,
        ];
        assert(step.0.commands =~= terminal.commands + commands + clearing);
        assert(added =~= commands + clearing);
    }
}

/// Resize the viewport without scrolling transcript rows during shrink reflow. Returns whether it
/// has to be written in full.
pub fn update_non_windows_for_resize_reflow(
    terminal: &mut Terminal,
    height: u16,
    screen_size: Size,
) -> (result: Result<bool, TerminalError>)
    ensures
        final(terminal)@ == resize_step(old(terminal)@, height, screen_size).0,
        result is Ok <==> resize_step(old(terminal)@, height, screen_size).1,
        result matches Ok(needs_full_repaint) ==> needs_full_repaint == (requested_area(
            old(terminal)@,
            height,
            screen_size,
        ) != old(terminal)@.viewport_area),
{
    let terminal_height_shrank = screen_size.height < terminal.last_known_screen_size.height;
    let terminal_height_grew = screen_size.height > terminal.last_known_screen_size.height;
    let viewport_was_bottom_aligned = terminal.viewport_area.bottom()
        == terminal.last_known_screen_size.height;
    let previous_area = terminal.viewport_area;

    let mut area = previous_area;
    area.height = if height < screen_size.height {
        height
    } else {
        screen_size.height
    };
    area.width = screen_size.width;
    proof {
        crate::terminal::lemma_sent_nothing(terminal@);
    }
    if area.bottom() > screen_size.height {
        let scroll_by: u16 = area.bottom() - screen_size.height;
        if !terminal_height_shrank {
            terminal.send(TerminalCommand::ScrollRegionUp { end: area.top(), rows: scroll_by })?;
        }
        area.y = screen_size.height - area.height;
    } else if terminal_height_grew && viewport_was_bottom_aligned {
        area.y = screen_size.height - area.height;
    }
    let needs_full_repaint = area != previous_area;
    if needs_full_repaint {
        let clear_y: u16 = if previous_area.y < area.y {
            previous_area.y
        } else {
            area.y
        };
        terminal.set_viewport_area(area);
        terminal.clear_after_position(Position::new(0, clear_y))?;
    }
    Ok(needs_full_repaint)
}

impl InlineViewportState {
    pub fn new(platform: Platform) -> (state: Self)
        ensures
            state@ == (ViewportView {
                pending: None,
                windows: match platform {
                    Platform::Windows => Some(WindowsViewportView { placement: None }),
                    Platform::Other => None,
                },
            }),
    {
        InlineViewportState {
            pending_transcript_replay: None,
            windows: match platform {
                Platform::Windows => Some(WindowsInlineViewportState::default()),
                Platform::Other => None,
            },
        }
    }

    /// Forget what waits and what is tracked.
    pub fn reset(&mut self)
        ensures
            final(self)@ == (ViewportView { pending: None, ..old(self)@.without_placement() }),
    {
        self.pending_transcript_replay = None;
        self.reset_platform_state();
    }

    pub fn reset_platform_state(&mut self)
        ensures
            final(self)@ == old(self)@.without_placement(),
    {
        if self.windows.is_some() {
            self.windows = Some(WindowsInlineViewportState::default());
        }
    }

    /// Have a transcript written anew, in place of one that waits.
    pub fn queue_transcript_replay(
        &mut self,
        target: TranscriptReplayTarget,
        lines: Vec<HyperlinkLine>,
        wrap_policy: HistoryLineWrapPolicy,
    )
        ensures
            final(self)@ == (ViewportView {
                pending: Some(
                    ReplayView {
                        target,
                        history: crate::transcript_replay::with_lines(
                            Seq::empty(),
                            lines.deep_view(),
                            wrap_policy,
                        ),
                    },
                ),
                ..old(self)@
            }),
    {
        self.pending_transcript_replay = Some(
            PendingTranscriptReplay::new(target, lines, wrap_policy),
        );
    }

    pub fn has_pending_transcript_replay(&self) -> (pending: bool)
        ensures
            pending == (self@.pending is Some),
    {
        self.pending_transcript_replay.is_some()
    }

    /// Put more lines behind the transcript that waits.
    pub fn append_to_pending_transcript_replay(
        &mut self,
        lines: Vec<HyperlinkLine>,
        wrap_policy: HistoryLineWrapPolicy,
    )
        requires
            old(self)@.pending is Some,
        ensures
            final(self)@ == (ViewportView {
                pending: Some(
                    ReplayView {
                        history: crate::transcript_replay::with_lines(
                            old(self)@.pending->0.history,
                            lines.deep_view(),
                            wrap_policy,
                        ),
                        ..old(self)@.pending->0
                    },
                ),
                ..old(self)@
            }),
    {
        match self.pending_transcript_replay.take() {
            Some(mut replay) => {
                replay.append(lines, wrap_policy);
                self.pending_transcript_replay = Some(replay);
            },
            None => {},
        }
    }

    /// Get the transcript that waits ready for a viewport of `wrap_width` columns. The lines of
    /// each batch are handed over as its policy has them wrapped.
    pub fn prepare_pending_transcript_replay(
        &self,
        wrapped: Vec<Vec<HyperlinkLine>>,
        wrap_width: u16,
        is_zellij: bool,
    ) -> (prepared: Option<PreparedTranscriptReplay>)
        requires
            self@.pending matches Some(replay) ==> wrapped.len() == replay.history.len(),
        ensures
            prepared.deep_view() == match self@.pending {
                Some(replay) => Some(
                    crate::transcript_replay::prepared_batches(
                        replay.history,
                        wrapped.deep_view(),
                        crate::history_lines::wrap_width_of(wrap_width),
                        is_zellij,
                    ),
                ),
                None => None,
            },
    {
        match &self.pending_transcript_replay {
            Some(replay) => {
                let columns: usize = if wrap_width == 0 {
                    1
                } else {
                    wrap_width as usize
                };
                Some(replay.prepare(wrapped, columns, is_zellij))
            },
            None => None,
        }
    }

    /// Clear the screen that the transcript is written to, from its top on.
    pub fn begin_transcript_replay(&mut self, terminal: &mut Terminal) -> (result: Result<
        (),
        TerminalError,
    >)
        ensures
            old(self)@.pending is None ==> final(self)@ == old(self)@ && final(terminal)@ == old(
                terminal,
            )@ && result is Ok,
            old(self)@.pending matches Some(replay) ==> {
                &&& final(self)@ == old(self)@.without_placement()
                &&& final(terminal)@ == anchored(old(terminal)@).screen_cleared(
                    clear_command(replay.target),
                )
                &&& result is Ok <==> old(terminal)@.accepts(1)
            },
    {
        let target = match &self.pending_transcript_replay {
            Some(replay) => replay.target,
            None => {
                return Ok(());
            },
        };
        self.reset_platform_state();
        self.anchor_viewport_for_transcript_replay(terminal);
        match target {
            TranscriptReplayTarget::AlternateScreen => terminal.clear_visible_screen(),
            TranscriptReplayTarget::InlineViewport => {
                terminal.clear_scrollback_and_visible_screen_ansi()
            },
        }
    }

    fn anchor_viewport_for_transcript_replay(&self, terminal: &mut Terminal)
        ensures
            final(terminal)@ == anchored(old(terminal)@),
    {
        let mut area = terminal.viewport_area;
        area.y = 0;
        terminal.set_viewport_area(area);
    }

    /// Write a transcript that is ready.
    pub fn write_prepared_transcript_replay(
        &mut self,
        terminal: &mut Terminal,
        prepared: Option<&PreparedTranscriptReplay>,
    ) -> (result: Result<(), TerminalError>)
        requires
            old(self)@.is_valid(),
            prepared matches Some(replay) ==> is_prepared_for(
                old(terminal)@,
                old(self)@.windows,
                replay.deep_view(),
            ),
        ensures
            ({
                let step = batches_step(
                    old(terminal)@,
                    old(self)@.windows,
                    match prepared {
                        Some(replay) => replay.deep_view(),
                        None => Seq::empty(),
                    },
                );
                &&& final(terminal)@ == step.terminal
                &&& final(self)@ == old(self)@.with_windows(step.windows)
                &&& result is Ok <==> step.completed
            }),
    {
        match prepared {
            Some(replay) => self.write_prepared_history_batches(terminal, &replay.history),
            None => Ok(()),
        }
    }

    /// The transcript that waited has been written.
    pub fn complete_transcript_replay(&mut self)
        ensures
            final(self)@ == (ViewportView { pending: None, ..old(self)@ }),
    {
        self.pending_transcript_replay = None;
    }

    /// Write the history that waits, each batch with its lines wrapped as its policy asks. It waits
    /// on where the backend fails.
    pub fn flush_pending_history_lines(
        &mut self,
        terminal: &mut Terminal,
        pending_history: &mut Vec<PendingHistoryLines>,
        wrapped: &Vec<Vec<HyperlinkLine>>,
        is_zellij: bool,
    ) -> (result: Result<(), TerminalError>)
        requires
            old(self)@.is_valid(),
            wrapped.len() == old(pending_history).len(),
        ensures
            ({
                let step = batches_step(
                    old(terminal)@,
                    old(self)@.windows,
                    crate::transcript_replay::prepared_batches(
                        old(pending_history).deep_view(),
                        wrapped.deep_view(),
                        crate::history_lines::wrap_width_of(old(terminal)@.viewport_area.width),
                        is_zellij,
                    ),
                );
                &&& final(terminal)@ == step.terminal
                &&& final(self)@ == old(self)@.with_windows(step.windows)
                &&& result is Ok <==> step.completed
                &&& final(pending_history).deep_view() == if step.completed {
                    Seq::empty()
                } else {
                    old(pending_history).deep_view()
                }
            }),
    {
        self.write_history_batches(terminal, pending_history, wrapped, is_zellij)?;
        pending_history.clear();
        assert(pending_history.deep_view() =~= Seq::empty());
        Ok(())
    }

    /// Write a batch that is ready.
    fn write_prepared_history_batch(
        &mut self,
        terminal: &mut Terminal,
        batch: &PreparedHistoryBatch,
    ) -> (result: Result<(), TerminalError>)
        requires
            old(self)@.is_valid(),
            is_prepared_for(old(terminal)@, old(self)@.windows, seq![batch.deep_view()]),
        ensures
            ({
                let step = batch_step(old(terminal)@, old(self)@.windows, batch.deep_view());
                &&& final(terminal)@ == step.terminal
                &&& final(self)@ == old(self)@.with_windows(step.windows)
                &&& result is Ok <==> step.completed
            }),
    {
        assert(seq![batch.deep_view()][0] == batch.deep_view());
        if batch.mode == InsertHistoryMode::Standard {
            match self.windows.take() {
                Some(mut windows) => {
                    let result = windows.append_prepared_standard_history(terminal, &batch.lines);
                    self.windows = Some(windows);
                    result
                },
                None => insert_prepared_history_hyperlink_lines_with_mode(
                    terminal,
                    &batch.lines,
                    batch.mode,
                ),
            }
        } else {
            insert_prepared_history_hyperlink_lines_with_mode(terminal, &batch.lines, batch.mode)
        }
    }

    fn write_history_batches(
        &mut self,
        terminal: &mut Terminal,
        batches: &Vec<PendingHistoryLines>,
        wrapped: &Vec<Vec<HyperlinkLine>>,
        is_zellij: bool,
    ) -> (result: Result<(), TerminalError>)
        requires
            old(self)@.is_valid(),
            wrapped.len() == batches.len(),
        ensures
            ({
                let step = batches_step(
                    old(terminal)@,
                    old(self)@.windows,
                    crate::transcript_replay::prepared_batches(
                        batches.deep_view(),
                        wrapped.deep_view(),
                        crate::history_lines::wrap_width_of(old(terminal)@.viewport_area.width),
                        is_zellij,
                    ),
                );
                &&& final(terminal)@ == step.terminal
                &&& final(self)@ == old(self)@.with_windows(step.windows)
                &&& result is Ok <==> step.completed
            }),
    {
        let wrap_width: usize = history_wrap_width(terminal);
        let mut prepared: Vec<PreparedHistoryBatch> = Vec::new();
        let ghost expected = crate::transcript_replay::prepared_batches(
            batches.deep_view(),
            wrapped.deep_view(),
            wrap_width,
            is_zellij,
        );
        let mut index: usize = 0;
        while index < batches.len()
            invariant
                wrap_width > 0,
                index <= batches.len(),
                wrapped.len() == batches.len(),
                expected == crate::transcript_replay::prepared_batches(
                    batches.deep_view(),
                    wrapped.deep_view(),
                    wrap_width,
                    is_zellij,
                ),
                prepared.deep_view() == expected.take(index as int),
            decreases batches.len() - index,
        {
            let ghost before = prepared.deep_view();
            let batch = PreparedHistoryBatch {
                lines: prepare_history_hyperlink_lines(wrapped[index].duplicate(), wrap_width),
                mode: mode_for_policy(is_zellij, batches[index].wrap_policy),
            };
            let ghost pushed = batch.deep_view();
            prepared.push(batch);
            proof {
                assert(batches.deep_view()[index as int] == batches@[index as int].deep_view());
                assert(wrapped.deep_view()[index as int] == wrapped@[index as int].deep_view());
                assert(pushed =~= expected[index as int]);
                assert(prepared.deep_view() =~= before.push(pushed));
                assert(prepared.deep_view() =~= expected.take(index + 1));
            }
            index += 1;
        }
        assert(prepared.deep_view() =~= expected);
        self.write_prepared_history_batches(terminal, &prepared)
    }

    fn write_prepared_history_batches(
        &mut self,
        terminal: &mut Terminal,
        batches: &Vec<PreparedHistoryBatch>,
    ) -> (result: Result<(), TerminalError>)
        requires
            old(self)@.is_valid(),
            is_prepared_for(old(terminal)@, old(self)@.windows, batches.deep_view()),
        ensures
            ({
                let step = batches_step(
                    old(terminal)@,
                    old(self)@.windows,
                    batches.deep_view(),
                );
                &&& final(terminal)@ == step.terminal
                &&& final(self)@ == old(self)@.with_windows(step.windows)
                &&& result is Ok <==> step.completed
            }),
    {
        let ghost all = batches.deep_view();
        let ghost step = batches_step(terminal@, self@.windows, all);
        let mut index: usize = 0;
        assert(all.skip(0) =~= all);
        while index < batches.len()
            invariant
                index <= batches.len(),
                all == batches.deep_view(),
                step == batches_step(old(terminal)@, old(self)@.windows, all),
                step == batches_step(terminal@, self@.windows, all.skip(index as int)),
                self@ == old(self)@.with_windows(self@.windows),
                self@.is_valid(),
                is_prepared_for(terminal@, self@.windows, all),
            decreases batches.len() - index,
        {
            let ghost rest = all.skip(index as int);
            proof {
                assert(rest[0] == batches@[index as int].deep_view());
                assert(rest[0] == all[index as int]);
                assert(rest.drop_first() =~= all.skip(index + 1));
                lemma_a_batch_keeps_the_width(terminal@, self@.windows, rest[0]);
            }
            self.write_prepared_history_batch(terminal, &batches[index])?;
            index += 1;
        }
        assert(all.skip(index as int) =~= Seq::empty());
        Ok(())
    }

    /// A copy of the lines of the transcript that waits.
    pub fn pending_transcript_replay_lines_for_test(&self) -> (lines: Vec<HyperlinkLine>)
        ensures
            lines.deep_view() == match self@.pending {
                Some(replay) => crate::transcript_replay::all_lines(replay.history),
                None => Seq::empty(),
            },
    {
        match &self.pending_transcript_replay {
            Some(replay) => replay.lines(),
            None => {
                let lines: Vec<HyperlinkLine> = Vec::new();
                assert(lines.deep_view() =~= Seq::<LineView>::empty());
                lines
            },
        }
    }

    /// Append lines that are wrapped to the viewport's width.
    pub fn append_standard_history(
        &mut self,
        terminal: &mut Terminal,
        wrapped: Vec<HyperlinkLine>,
    ) -> (result: Result<(), TerminalError>)
        requires
            old(self)@.is_valid(),
        ensures
            ({
                let step = batch_step(
                    old(terminal)@,
                    old(self)@.windows,
                    PreparedBatchView {
                        lines: crate::history_lines::prepared_lines(
                            wrapped.deep_view(),
                            crate::history_lines::wrap_width_of(
                                old(terminal)@.viewport_area.width,
                            ),
                        ),
                        mode: InsertHistoryMode::Standard,
                    },
                );
                &&& final(terminal)@ == step.terminal
                &&& final(self)@ == old(self)@.with_windows(step.windows)
                &&& result is Ok <==> step.completed
            }),
    {
        let wrap_width: usize = history_wrap_width(terminal);
        let batch = PreparedHistoryBatch {
            lines: prepare_history_hyperlink_lines(wrapped, wrap_width),
            mode: InsertHistoryMode::Standard,
        };
        self.write_prepared_history_batch(terminal, &batch)
    }

    /// Replace the end of the history where it is tracked. Both the lines to replace and the new
    /// ones are wrapped to the viewport's width.
    pub fn replace_visible_history_tail(
        &mut self,
        terminal: &mut Terminal,
        wrapped_previous: &Vec<HyperlinkLine>,
        wrapped_replacement: &Vec<HyperlinkLine>,
    ) -> (result: Result<Option<HistoryTailReplacement>, TerminalError>)
        requires
            old(self)@.is_valid(),
        ensures
            ({
                let step = old(self)@.replace_step(
                    old(terminal)@,
                    wrapped_previous.deep_view(),
                    wrapped_replacement.deep_view(),
                );
                &&& final(terminal)@ == step.terminal
                &&& final(self)@ == old(self)@.with_windows(step.windows)
                &&& result is Ok <==> step.completed
            }),
            result matches Ok(outcome) ==> outcome == old(self)@.replacement_outcome(
                old(terminal)@,
                wrapped_previous.deep_view(),
            ),
    {
        match self.windows.take() {
            Some(mut windows) => {
                let result = windows.replace_visible_history_tail(
                    terminal,
                    wrapped_previous,
                    wrapped_replacement,
                );
                self.windows = Some(windows);
                result
            },
            None => Ok(None),
        }
    }

    /// The lines that a placement retains.
    pub fn retained_source_for_test(&self) -> (lines: Option<&Vec<HyperlinkLine>>)
        ensures
            lines is Some <==> (self@.windows matches Some(state) && state.placement is Some),
            lines matches Some(lines) ==> lines.deep_view()
                == self@.windows->0.placement->0.retained_lines,
    {
        match &self.windows {
            Some(windows) => windows.retained_source_for_test(),
            None => None,
        }
    }

    /// Whether history that waits has to be written before the viewport gets `viewport_height`
    /// rows.
    pub fn pending_history_precedes_resize(
        &self,
        viewport_height: u16,
        screen_size: Size,
        current_top: u16,
    ) -> (precedes: bool)
        ensures
            precedes == self@.history_precedes_resize(viewport_height, screen_size, current_top),
            precedes == (self@.pending is None && (self@.windows matches Some(state)
                && state.placement matches Some(placement) && placement.covered_rows == 0
                && crate::geometry::rows_left(screen_size.height as int, viewport_height as int)
                <= current_top)),
    {
        if self.has_pending_transcript_replay() {
            return false;
        }
        match &self.windows {
            Some(windows) => {
                let requested_top: u16 = screen_size.height.saturating_sub(viewport_height);
                windows.pending_history_precedes_resize(requested_top, current_top)
            },
            None => false,
        }
    }

    /// Clear the viewport if this platform's history insertion bypasses the frame's own
    /// bookkeeping. Returns whether it does.
    pub fn clear_viewport_after_history_flush(&self, terminal: &mut Terminal) -> (result: Result<
        bool,
        TerminalError,
    >)
        ensures
            self@.windows is None ==> final(terminal)@ == old(terminal)@ && result == Ok::<
                bool,
                TerminalError,
            >(false),
            self@.windows is Some ==> {
                &&& final(terminal)@ == old(terminal)@.viewport_cleared()
                &&& result is Ok <==> old(terminal)@.accepts(1)
                &&& result matches Ok(cleared) ==> cleared
            },
    {
        if self.windows.is_some() {
            terminal.clear()?;
            Ok(true)
        } else {
            Ok(false)
        }
    }

    /// Bring a completed frame and the history that it covers together.
    pub fn reconcile_after_draw(
        &mut self,
        terminal: &mut Terminal,
        policy: CoveredHistoryPolicy,
    ) -> (result: Result<(), TerminalError>)
        requires
            old(self)@.is_valid(),
        ensures
            old(self)@.windows is None ==> final(self)@ == old(self)@ && final(terminal)@ == old(
                terminal,
            )@ && result is Ok,
            old(self)@.windows matches Some(state) ==> {
                let step = state.reconcile_step(old(terminal)@, policy);
                &&& final(terminal)@ == step.terminal
                &&& final(self)@ == old(self)@.with_windows(Some(step.state))
                &&& result is Ok <==> step.completed
            },
    {
        match self.windows.take() {
            Some(mut windows) => {
                let result = windows.reconcile_after_draw(terminal, policy);
                self.windows = Some(windows);
                result
            },
            None => Ok(()),
        }
    }

    /// Resize the inline viewport for transcript reflow. Returns whether it has to be written in
    /// full.
    pub fn update_for_resize_reflow(
        &mut self,
        terminal: &mut Terminal,
        height: u16,
        screen_size: Size,
    ) -> (result: Result<bool, TerminalError>)
        requires
            old(self)@.is_valid(),
        ensures
            ({
                let step = old(self)@.update_step(old(terminal)@, height, screen_size);
                &&& final(terminal)@ == step.terminal
                &&& final(self)@ == old(self)@.with_windows(step.windows)
                &&& result is Ok <==> step.completed
            }),
            result matches Ok(needs_full_repaint) ==> needs_full_repaint == (
            old(self)@.resized_area(old(terminal)@, height, screen_size) != old(
                terminal,
            )@.viewport_area),
    {
        match self.windows.take() {
            Some(mut windows) => {
                let result = windows.update_for_resize_reflow(terminal, height, screen_size);
                self.windows = Some(windows);
                result
            },
            None => update_non_windows_for_resize_reflow(terminal, height, screen_size),
        }
    }
}

/// Viewports that are told apart by nothing in their views wait for the same replay and follow the same
/// placement.
pub proof fn law_the_view_of_a_viewport_is_all_of_it(
    left: InlineViewportState,
    right: InlineViewportState,
)
    requires
        left@ == right@,
    ensures
        left.pending_transcript_replay is Some == right.pending_transcript_replay is Some,
        left.pending_transcript_replay matches Some(replay) ==> replay.deep_view()
            == right.pending_transcript_replay->0.deep_view(),
        left.windows is Some == right.windows is Some,
        left.windows matches Some(windows) ==> {
            let other = right.windows->0;
            &&& windows.placement is Some == other.placement is Some
            &&& windows.placement matches Some(placement) ==> placement@ == other.placement->0@
        },
{
    if let Some(replay) = left.pending_transcript_replay {
        assert(left@.pending == Some(replay.deep_view()));
        assert(right@.pending == Some(right.pending_transcript_replay->0.deep_view()));
    }
    if let Some(windows) = left.windows {
        let other = right.windows->0;
        assert(left@.windows == Some(windows.deep_view()));
        assert(right@.windows == Some(other.deep_view()));
        if let Some(placement) = windows.placement {
            assert(windows.deep_view().placement == Some(placement@));
            assert(other.deep_view().placement == Some(other.placement->0@));
        }
    }
}

/// Where history is not followed, the viewport is resized on its own and has no tail to replace; where it
/// is, the viewport on Windows does both. Neither changes a transcript that waits.
pub proof fn law_a_viewport_does_what_its_platform_does(
    state: ViewportView,
    windows: WindowsViewportView,
    terminal: TerminalView,
    height: u16,
    screen_size: Size,
    previous: Seq<LineView>,
    replacement: Seq<LineView>,
)
    ensures
        state.with_windows(Some(windows)).pending == state.pending,
        state.with_windows(Some(windows)).windows == Some(windows),
        state.with_windows(None).windows is None,
        state.windows is None ==> {
            let resized = state.update_step(terminal, height, screen_size);
            let replaced = state.replace_step(terminal, previous, replacement);
            &&& resized.terminal == resize_step(terminal, height, screen_size).0
            &&& resized.completed == resize_step(terminal, height, screen_size).1
            &&& resized.windows is None
            &&& state.resized_area(terminal, height, screen_size) == requested_area(
                terminal,
                height,
                screen_size,
            )
            &&& replaced.completed && replaced.terminal == terminal && replaced.windows is None
            &&& state.replacement_outcome(terminal, previous) is None
        },
        state.windows == Some(windows) ==> {
            let resized = state.update_step(terminal, height, screen_size);
            let replaced = state.replace_step(terminal, previous, replacement);
            let moved = windows.update_step(terminal, height, screen_size);
            let changed = windows.replace_step(terminal, previous, replacement);
            &&& resized.terminal == moved.terminal
            &&& resized.windows == Some(moved.state)
            &&& resized.completed == moved.completed
            &&& state.resized_area(terminal, height, screen_size) == windows.resize_step(
                terminal,
                height,
                screen_size,
            ).area
            &&& replaced.terminal == changed.terminal
            &&& replaced.windows == Some(changed.state)
            &&& replaced.completed == changed.completed
            &&& state.replacement_outcome(terminal, previous) == windows.replacement_outcome(
                terminal,
                previous,
            )
        },
{
}

/// Where the backend fails to scroll, the viewport stays where it was and nothing is cleared.
pub proof fn law_a_failed_scroll_leaves_the_viewport(
    terminal: TerminalView,
    height: u16,
    screen_size: Size,
)
    requires
        terminal.operations_left == Some(0usize),
    ensures
        ({
            let step = resize_step(terminal, height, screen_size);
            let scrolling = make_room_commands(terminal, height, screen_size).len() > 0;
            &&& scrolling ==> !step.1 && step.0 == terminal
            &&& !scrolling ==> (step.1 <==> requested_area(terminal, height, screen_size)
                == terminal.viewport_area)
            &&& step.0.commands == terminal.commands
            &&& step.0.viewport_invalidated == terminal.viewport_invalidated
        }),
{
    let commands = make_room_commands(terminal, height, screen_size);
    assert(terminal.commands + commands.take(0) =~= terminal.commands);
    assert(commands.len() == 0 ==> terminal.commands + commands =~= terminal.commands);
    let area = requested_area(terminal, height, screen_size);
    let position = Position {
        x: 0,
        y: crate::geometry::lower_row(terminal.viewport_area.y as int, area.y as int),
    };
    let clearing = seq![CommandView::MoveTo(position), CommandView::ClearAfterCursor];
    assert(terminal.commands + clearing.take(0) =~= terminal.commands);
}

/// What waits is written before a resize exactly where no transcript waits, the history is followed,
/// nothing of it is covered, and a viewport of that height at the bottom of the screen does not start
/// below the present one.
pub proof fn law_history_precedes_a_resize_that_takes_no_rows_from_it(
    state: ViewportView,
    placement: PlacementView,
    viewport_height: u16,
    screen_size: Size,
    current_top: u16,
)
    ensures
        state.pending is Some || state.windows is None || state.windows->0.placement is None
            ==> !state.history_precedes_resize(viewport_height, screen_size, current_top),
        state.pending is None && state.windows == Some(
            WindowsViewportView { placement: Some(placement) },
        ) ==> (state.history_precedes_resize(viewport_height, screen_size, current_top)
            <==> placement.covered_rows == 0 && screen_size.height <= current_top
            + viewport_height),
{
}

} // verus!
