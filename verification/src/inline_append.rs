//! Appends source-backed history at an inline placement boundary.

use vstd::prelude::*;

use crate::content::Content;
use crate::history_lines::{
    history_row_count, prepare_history_hyperlink_lines, HistoryTailReplacement, HyperlinkLine,
    InsertHistoryMode, LineView, PreparedHistoryLines, PreparedView,
};
use crate::history_painting::{clear_history_rows, paint_history_lines};
use crate::inline_history::{
    scroll_repainted_history, sync_terminal_visible_history_rows, InlineHistoryPlacement,
    PlacementView,
};
use crate::terminal::{
    insert_prepared_history_hyperlink_lines_with_mode, rows_on_screen, CommandView, Terminal,
    TerminalError, TerminalView,
};

verus! {

/// What an operation on the terminal and on the placement of its history leaves behind, and whether
/// the backend performed all that was asked of it.
#[verifier::ext_equal]
pub struct PlacementStep {
    pub terminal: TerminalView,
    pub placement: PlacementView,
    pub completed: bool,
}

impl PlacementStep {
    /// The operation is complete, and the terminal knows the visible rows of the placement.
    pub open spec fn synchronized(terminal: TerminalView, placement: PlacementView) -> Self {
        PlacementStep {
            terminal: terminal.with_visible_history_rows(placement.visible_rows),
            placement,
            completed: true,
        }
    }
}

/// What brings the covered rows above the viewport.
pub open spec fn expose_commands(terminal: TerminalView, placement: PlacementView) -> Seq<
    CommandView,
> {
    crate::inline_history::scroll_commands(
        terminal,
        placement,
        placement.exposing_scroll(terminal.viewport_area.y),
    )
}

/// Covered rows come out above the viewport before anything is appended to them.
pub open spec fn expose_step(terminal: TerminalView, placement: PlacementView) -> PlacementStep {
    let top = terminal.viewport_area.y;
    if placement.exposing_scroll(top) == 0 {
        PlacementStep { terminal, placement, completed: true }
    } else {
        let commands = expose_commands(terminal, placement);
        if terminal.accepts(commands.len()) {
            PlacementStep::synchronized(
                terminal.sent(commands).with_invalid_viewport(),
                placement.exposed(top),
            )
        } else {
            PlacementStep { terminal: terminal.sent(commands), placement, completed: false }
        }
    }
}

/// The row that the next line of history is written to.
pub open spec fn append_row(terminal: TerminalView, placement: PlacementView) -> u16 {
    crate::geometry::lower_row(
        placement.history_bottom as int,
        terminal.viewport_area.y as int,
    )
}

/// Whether there is room for so many rows between the history and the viewport.
pub open spec fn fits_into_gap(terminal: TerminalView, placement: PlacementView, rows: u16) -> bool {
    append_row(terminal, placement) + rows <= terminal.viewport_area.y
}

/// How lines are put above the viewport where there is no room for them.
pub open spec fn overflow_mode(terminal: TerminalView, placement: PlacementView) -> InsertHistoryMode {
    let row = append_row(terminal, placement);
    if 0 < row < terminal.viewport_area.y {
        InsertHistoryMode::StandardAtHistoryBoundary { history_bottom: row }
    } else {
        InsertHistoryMode::Standard
    }
}

/// What writes lines into the gap between the history and the viewport.
pub open spec fn gap_commands(
    terminal: TerminalView,
    placement: PlacementView,
    prepared: PreparedView,
) -> Seq<CommandView> {
    crate::history_painting::paint_commands(
        prepared.lines,
        prepared.wrap_width,
        append_row(terminal, placement),
        terminal.last_known_cursor_pos,
    )
}

/// Lines go into the gap where they fit, and otherwise scroll older rows away.
pub open spec fn place_step(
    terminal: TerminalView,
    placement: PlacementView,
    prepared: PreparedView,
) -> PlacementStep {
    let rows = crate::terminal::screen_rows(prepared.row_count);
    if fits_into_gap(terminal, placement, rows) {
        let commands = gap_commands(terminal, placement, prepared);
        if terminal.accepts(commands.len()) {
            PlacementStep::synchronized(
                terminal.sent(commands),
                placement.gap_appended(rows, prepared.lines, prepared.wrap_width),
            )
        } else {
            PlacementStep { terminal: terminal.sent(commands), placement, completed: false }
        }
    } else {
        let inserted = terminal.inserted(prepared, overflow_mode(terminal, placement));
        if terminal.accepts(1) {
            PlacementStep::synchronized(
                inserted,
                placement.scrolling_appended(
                    inserted.viewport_area.y,
                    rows,
                    prepared.lines,
                    prepared.wrap_width,
                ),
            )
        } else {
            PlacementStep { terminal: inserted, placement, completed: false }
        }
    }
}

/// Lines are appended to the history: covered rows come out first, and without rows nothing
/// happens at all.
pub open spec fn append_step(
    terminal: TerminalView,
    placement: PlacementView,
    prepared: PreparedView,
) -> PlacementStep {
    if prepared.row_count == 0 {
        PlacementStep { terminal, placement, completed: true }
    } else {
        let exposed = expose_step(terminal, placement);
        if exposed.completed {
            place_step(exposed.terminal, exposed.placement, prepared)
        } else {
            exposed
        }
    }
}

/// Whether the end of the history can be replaced where it stands: everything on the screen is
/// retained as it is wrapped now, the retained lines end in those to replace, and those can be
/// brought above the viewport.
pub open spec fn tail_is_replaceable(
    terminal: TerminalView,
    placement: PlacementView,
    previous: Seq<LineView>,
) -> bool {
    let wrap_width = crate::history_lines::wrap_width_of(terminal.viewport_area.width);
    &&& placement.has_complete_source(wrap_width)
    &&& placement.ends_in(previous)
    &&& crate::history_lines::total_rows(previous, wrap_width as nat) <= placement.screen_rows()
    &&& crate::history_lines::total_rows(previous, wrap_width as nat) <= terminal.viewport_area.y
}

/// What clears the last rows of the history.
pub open spec fn clear_tail_commands(
    terminal: TerminalView,
    placement: PlacementView,
    rows: u16,
) -> Seq<CommandView> {
    let start = crate::geometry::rows_left(placement.history_bottom as int, rows as int);
    crate::history_painting::clear_commands(
        start,
        crate::geometry::rows_joined(start as int, rows as int),
    ) + crate::history_painting::closing_commands(terminal.last_known_cursor_pos)
}

/// The last lines of the history are cleared and taken away.
pub open spec fn remove_tail_step(
    terminal: TerminalView,
    placement: PlacementView,
    previous: Seq<LineView>,
) -> PlacementStep {
    let wrap_width = crate::history_lines::wrap_width_of(terminal.viewport_area.width);
    let rows = crate::history_lines::total_rows(previous, wrap_width as nat) as u16;
    let commands = clear_tail_commands(terminal, placement, rows);
    if terminal.accepts(commands.len()) {
        PlacementStep::synchronized(
            terminal.sent(commands),
            placement.tail_removed(previous.len(), rows),
        )
    } else {
        PlacementStep { terminal: terminal.sent(commands), placement, completed: false }
    }
}

/// The end of the history is replaced: covered rows come out, the last lines are taken away, and
/// the new ones are appended.
pub open spec fn replace_step(
    terminal: TerminalView,
    placement: PlacementView,
    previous: Seq<LineView>,
    replacement: Seq<LineView>,
) -> PlacementStep {
    if !tail_is_replaceable(terminal, placement, previous) {
        PlacementStep { terminal, placement, completed: true }
    } else {
        let exposed = expose_step(terminal, placement);
        if !exposed.completed {
            exposed
        } else {
            let removed = remove_tail_step(exposed.terminal, exposed.placement, previous);
            if !removed.completed {
                removed
            } else {
                append_step(
                    removed.terminal,
                    removed.placement,
                    crate::history_lines::prepared_lines(
                        replacement,
                        crate::history_lines::wrap_width_of(terminal.viewport_area.width),
                    ),
                )
            }
        }
    }
}

/// Whether prepared lines are counted as they are.
pub open spec fn is_counted(prepared: PreparedView) -> bool {
    &&& prepared.wrap_width > 0
    &&& prepared == crate::history_lines::prepared_lines(prepared.lines, prepared.wrap_width)
}

/// Lines that fit between the history and the viewport are written there, above the viewport and
/// without scrolling anything: every row of history stays visible.
pub proof fn law_the_gap_is_filled_before_anything_scrolls(
    terminal: TerminalView,
    placement: PlacementView,
    prepared: PreparedView,
)
    requires
        is_counted(prepared),
        0 < prepared.row_count <= u16::MAX,
        placement.matches_viewport(terminal.viewport_area.y),
        placement.covered_rows == 0,
        fits_into_gap(
            terminal,
            placement,
            crate::terminal::screen_rows(prepared.row_count),
        ),
        append_step(terminal, placement, prepared).completed,
    ensures
        ({
            let step = append_step(terminal, placement, prepared);
            let row = append_row(terminal, placement);
            let commands = gap_commands(terminal, placement, prepared);
            &&& step.terminal.commands == terminal.commands + commands
            &&& step.terminal.viewport_area == terminal.viewport_area
            &&& forall|index: int|
                0 <= index < commands.len() ==> !crate::history_painting::scrolls(
                    #[trigger] commands[index],
                )
            &&& crate::history_painting::painted_above(
                prepared.lines,
                prepared.wrap_width,
                row,
                terminal.viewport_area.y,
            )
            &&& placement.history_bottom <= terminal.viewport_area.y ==> {
                &&& step.placement.history_bottom == placement.history_bottom + prepared.row_count
                &&& step.placement.visible_rows == placement.visible_rows + prepared.row_count
                &&& step.placement.screen_start() == placement.screen_start()
            }
        }),
{
    let rows = crate::history_lines::total_rows(prepared.lines, prepared.wrap_width as nat);
    assert(prepared.row_count == rows);
    crate::history_painting::lemma_painting_does_not_scroll(
        prepared.lines,
        prepared.wrap_width,
        append_row(terminal, placement),
        terminal.last_known_cursor_pos,
    );
    crate::history_painting::lemma_painted_above(
        prepared.lines,
        prepared.wrap_width,
        append_row(terminal, placement),
        terminal.viewport_area.y,
    );
}

/// Where lines do not fit, they are inserted behind the last row of history, or above the viewport
/// where there is no gap, and the history then reaches down to the viewport.
pub proof fn law_overflow_is_inserted_above_the_viewport(
    terminal: TerminalView,
    placement: PlacementView,
    prepared: PreparedView,
)
    requires
        prepared.row_count > 0,
        placement.matches_viewport(terminal.viewport_area.y),
        placement.covered_rows == 0,
        !fits_into_gap(
            terminal,
            placement,
            crate::terminal::screen_rows(prepared.row_count),
        ),
        append_step(terminal, placement, prepared).completed,
    ensures
        ({
            let step = append_step(terminal, placement, prepared);
            let mode = overflow_mode(terminal, placement);
            &&& step.terminal.commands == terminal.commands.push(
                CommandView::InsertHistory { area: terminal.viewport_area, prepared, mode },
            )
            &&& mode matches InsertHistoryMode::StandardAtHistoryBoundary {
                history_bottom,
            } ==> history_bottom < terminal.viewport_area.y && history_bottom
                == placement.history_bottom
            &&& step.placement.history_bottom == step.terminal.viewport_area.y
            &&& step.terminal.viewport_area.y >= terminal.viewport_area.y
        }),
{
}

/// An append that is complete leaves nothing covered, retains the lines, and keeps the terminal's
/// copy of the visible rows in step with the placement.
#[verifier::rlimit(40)]
pub proof fn law_an_append_keeps_the_placement_in_step(
    terminal: TerminalView,
    placement: PlacementView,
    prepared: PreparedView,
)
    requires
        prepared.row_count > 0,
        placement.matches_viewport(terminal.viewport_area.y),
        placement.screen_start() <= terminal.viewport_area.y,
        append_step(terminal, placement, prepared).completed,
    ensures
        ({
            let step = append_step(terminal, placement, prepared);
            &&& step.placement.covered_rows == 0
            &&& step.placement.matches_viewport(step.terminal.viewport_area.y)
            &&& step.placement.history_bottom <= step.terminal.viewport_area.y
            &&& step.placement.retained_lines == placement.with_source(
                prepared.lines,
                prepared.wrap_width,
            ).retained_lines
            &&& step.terminal.visible_history_rows == step.placement.visible_rows
        }),
{
    crate::inline_history::law_exposed_history_is_not_covered(
        placement,
        terminal.viewport_area.y,
    );
}

/// An operation that the backend breaks off leaves the placement as far as it got: the history of
/// the screen is never taken for more than was written.
pub proof fn law_a_failed_append_records_no_lines(
    terminal: TerminalView,
    placement: PlacementView,
    prepared: PreparedView,
)
    requires
        !append_step(terminal, placement, prepared).completed,
    ensures
        append_step(terminal, placement, prepared).placement.retained_lines
            == placement.retained_lines,
        append_step(terminal, placement, prepared).placement.history_bottom
            <= placement.history_bottom,
{
}

/// Replacing the end of the history takes exactly the last lines away and puts the new ones in
/// their place.
pub proof fn law_a_replaced_tail_ends_in_the_replacement(
    terminal: TerminalView,
    placement: PlacementView,
    previous: Seq<LineView>,
    replacement: Seq<LineView>,
)
    requires
        tail_is_replaceable(terminal, placement, previous),
        replace_step(terminal, placement, previous, replacement).completed,
    ensures
        replace_step(terminal, placement, previous, replacement).placement.retained_lines
            == placement.retained_lines.take(placement.retained_lines.len() - previous.len())
            + replacement,
{
    let wrap_width = crate::history_lines::wrap_width_of(terminal.viewport_area.width);
    let kept = placement.retained_lines.take(placement.retained_lines.len() - previous.len());
    if crate::history_lines::prepared_lines(replacement, wrap_width).row_count == 0 {
        crate::history_lines::lemma_total_rows(replacement, wrap_width as nat);
        assert(kept + replacement =~= kept);
    }
}

/// A tail that cannot be replaced is left alone, and the transcript has to be written anew.
pub proof fn law_an_unknown_tail_is_left_alone(
    terminal: TerminalView,
    placement: PlacementView,
    previous: Seq<LineView>,
    replacement: Seq<LineView>,
)
    requires
        !tail_is_replaceable(terminal, placement, previous),
    ensures
        replace_step(terminal, placement, previous, replacement) == (PlacementStep {
            terminal,
            placement,
            completed: true,
        }),
{
}

/// Appending lines writes each of them once, in their order, and retains them behind those that were
/// wrapped for the same width. Only where the viewport covers history are retained lines written
/// before them, so that none of those is lost. Without rows nothing is asked of the terminal.
pub proof fn law_an_append_writes_each_line_once(
    terminal: TerminalView,
    placement: PlacementView,
    prepared: PreparedView,
)
    requires
        is_counted(prepared),
        append_step(terminal, placement, prepared).completed,
    ensures
        ({
            let step = append_step(terminal, placement, prepared);
            let added = step.terminal.commands.skip(terminal.commands.len() as int);
            let repainted = if prepared.lines.len() == 0 || placement.exposing_scroll(
                terminal.viewport_area.y,
            ) == 0 {
                Seq::empty()
            } else {
                placement.lines_to_repaint(placement.covered_rows)
            };
            &&& terminal.commands.is_prefix_of(step.terminal.commands)
            &&& crate::terminal::written_lines(added) == repainted + prepared.lines
            &&& prepared.lines.len() == 0 ==> step.terminal == terminal && step.placement
                == placement
            &&& prepared.lines.len() > 0 ==> {
                &&& step.placement.retained_wrap_width == Some(prepared.wrap_width)
                &&& placement.retained_wrap_width == Some(prepared.wrap_width)
                    ==> step.placement.retained_lines == placement.retained_lines + prepared.lines
                &&& placement.retained_wrap_width != Some(prepared.wrap_width)
                    ==> step.placement.retained_lines == prepared.lines
            }
            &&& placement.covered_rows == 0 ==> repainted.len() == 0
                && step.placement.covered_rows == 0
        }),
{
    let step = append_step(terminal, placement, prepared);
    let added = step.terminal.commands.skip(terminal.commands.len() as int);
    crate::history_lines::lemma_total_rows(prepared.lines, prepared.wrap_width as nat);
    reveal_with_fuel(crate::terminal::written_lines, 4);
    if prepared.row_count == 0 {
        assert(prepared.lines =~= Seq::<LineView>::empty());
        assert(added =~= Seq::<CommandView>::empty());
        assert(Seq::<LineView>::empty() + prepared.lines =~= Seq::<LineView>::empty());
    } else {
        let exposed = expose_step(terminal, placement);
        let exposing = if placement.exposing_scroll(terminal.viewport_area.y) == 0 {
            Seq::empty()
        } else {
            expose_commands(terminal, placement)
        };
        let repainted = if placement.exposing_scroll(terminal.viewport_area.y) == 0 {
            Seq::empty()
        } else {
            placement.lines_to_repaint(placement.covered_rows)
        };
        assert(exposed.terminal.commands =~= terminal.commands + exposing);
        assert(crate::terminal::written_lines(exposing) == repainted) by {
            if exposing.len() > 0 {
                let painting = placement.repaint_commands(
                    placement.covered_rows,
                    terminal.last_known_cursor_pos,
                );
                let scrolling = exposing.skip(painting.len() as int);
                crate::history_painting::law_painting_writes_each_line_once(
                    repainted,
                    placement.source_width(),
                    placement.repaint_start(),
                    terminal.last_known_cursor_pos,
                );
                assert(exposing =~= painting + scrolling);
                assert(scrolling.drop_last().drop_last().drop_last()
                    =~= Seq::<CommandView>::empty());
                crate::terminal::lemma_written_lines_join(painting, scrolling);
                assert(crate::terminal::written_lines(scrolling) =~= Seq::<LineView>::empty());
                assert(repainted + Seq::<LineView>::empty() =~= repainted);
            }
        }
        let rows = crate::terminal::screen_rows(prepared.row_count);
        let placing = if fits_into_gap(exposed.terminal, exposed.placement, rows) {
            gap_commands(exposed.terminal, exposed.placement, prepared)
        } else {
            seq![
                CommandView::InsertHistory {
                    area: exposed.terminal.viewport_area,
                    prepared,
                    mode: overflow_mode(exposed.terminal, exposed.placement),
                },
            ]
        };
        assert(step.terminal.commands =~= exposed.terminal.commands + placing);
        assert(crate::terminal::written_lines(placing) == prepared.lines) by {
            if fits_into_gap(exposed.terminal, exposed.placement, rows) {
                crate::history_painting::law_painting_writes_each_line_once(
                    prepared.lines,
                    prepared.wrap_width,
                    append_row(exposed.terminal, exposed.placement),
                    exposed.terminal.last_known_cursor_pos,
                );
            } else {
                assert(placing.drop_last() =~= Seq::<CommandView>::empty());
                assert(crate::terminal::written_lines(placing) =~= prepared.lines);
            }
        }
        assert(added =~= exposing + placing);
        crate::terminal::lemma_written_lines_join(exposing, placing);
    }
}

/// Whatever is asked of a backend that never fails is complete: lines that are appended, covered rows
/// that come out, and a tail that is replaced.
pub proof fn law_a_working_backend_completes_every_append(
    terminal: TerminalView,
    placement: PlacementView,
    prepared: PreparedView,
    previous: Seq<LineView>,
    replacement: Seq<LineView>,
)
    requires
        terminal.operations_left is None,
    ensures
        expose_step(terminal, placement).completed,
        append_step(terminal, placement, prepared).completed,
        append_step(terminal, placement, prepared).terminal.operations_left is None,
        replace_step(terminal, placement, previous, replacement).completed,
{
}

/// A tail is replaced where it stands whenever it is known to: the retained lines are wrapped for the
/// viewport's columns and fill all the history on the screen, they end in the tail, and the tail has
/// room both among the rows of that history and above the viewport.
pub proof fn law_a_known_tail_is_replaced(
    terminal: TerminalView,
    placement: PlacementView,
    older: Seq<LineView>,
    previous: Seq<LineView>,
)
    requires
        terminal.viewport_area.width > 0,
        placement.retained_wrap_width == Some(terminal.viewport_area.width as usize),
        placement.retained_lines == older + previous,
        placement.visible_rows + placement.covered_rows <= u16::MAX,
        placement.visible_rows + placement.covered_rows <= crate::history_lines::total_rows(
            placement.retained_lines,
            terminal.viewport_area.width as nat,
        ),
        crate::history_lines::total_rows(previous, terminal.viewport_area.width as nat)
            <= placement.visible_rows + placement.covered_rows,
        crate::history_lines::total_rows(previous, terminal.viewport_area.width as nat)
            <= terminal.viewport_area.y,
    ensures
        tail_is_replaceable(terminal, placement, previous),
{
    assert(placement.retained_lines.skip(placement.retained_lines.len() - previous.len())
        =~= previous);
}

/// A tail is never replaced where another one stands, where the lines were wrapped for other columns,
/// or where it does not fit above the viewport.
pub proof fn law_another_tail_is_never_replaced(
    terminal: TerminalView,
    placement: PlacementView,
    previous: Seq<LineView>,
)
    requires
        terminal.viewport_area.width > 0,
        ({
            ||| placement.retained_wrap_width != Some(terminal.viewport_area.width as usize)
            ||| previous.len() > placement.retained_lines.len()
            ||| exists|index: int|
                0 <= index < previous.len() && previous.len() <= placement.retained_lines.len()
                    && #[trigger] previous[index]
                    != placement.retained_lines[placement.retained_lines.len() - previous.len()
                    + index]
            ||| crate::history_lines::total_rows(
                previous,
                terminal.viewport_area.width as nat,
            ) > terminal.viewport_area.y
        }),
    ensures
        !tail_is_replaceable(terminal, placement, previous),
{
    if tail_is_replaceable(terminal, placement, previous) {
        let tail = placement.retained_lines.skip(
            placement.retained_lines.len() - previous.len(),
        );
        assert forall|index: int| 0 <= index < previous.len() implies #[trigger] previous[index]
            == placement.retained_lines[placement.retained_lines.len() - previous.len()
            + index] by {
            assert(tail[index] == previous[index]);
        }
    }
}

/// The width that history is wrapped to beside the viewport of `terminal`.
pub fn history_wrap_width(terminal: &Terminal) -> (wrap_width: usize)
    ensures
        wrap_width == crate::history_lines::wrap_width_of(terminal@.viewport_area.width),
        wrap_width > 0,
{
    if terminal.viewport_area.width == 0 {
        1
    } else {
        terminal.viewport_area.width as usize
    }
}

/// Append history into rows exposed by a viewport shrink before scrolling the terminal. The lines
/// are wrapped to the viewport's width.
///
/// New rows consume the gap between history and the viewport first. Only overflow moves older
/// visible rows into scrollback, and no write crosses into the viewport.
pub fn append_history_hyperlink_lines_at_placement(
    terminal: &mut Terminal,
    wrapped: &Vec<HyperlinkLine>,
    placement: &mut InlineHistoryPlacement,
) -> (result: Result<(), TerminalError>)
    requires
        old(placement)@.is_valid(),
    ensures
        ({
            let step = append_step(
                old(terminal)@,
                old(placement)@,
                crate::history_lines::prepared_lines(
                    wrapped.deep_view(),
                    crate::history_lines::wrap_width_of(old(terminal)@.viewport_area.width),
                ),
            );
            &&& final(terminal)@ == step.terminal
            &&& final(placement)@ == step.placement
            &&& result is Ok <==> step.completed
        }),
{
    let wrap_width: usize = history_wrap_width(terminal);
    let prepared = prepare_history_hyperlink_lines(wrapped.duplicate(), wrap_width);
    append_prepared_history_hyperlink_lines_at_placement(terminal, &prepared, placement)
}

/// Append lines that were prepared for the viewport's width.
pub fn append_prepared_history_hyperlink_lines_at_placement(
    terminal: &mut Terminal,
    prepared: &PreparedHistoryLines,
    placement: &mut InlineHistoryPlacement,
) -> (result: Result<(), TerminalError>)
    requires
        old(placement)@.is_valid(),
        prepared.wrap_width == crate::history_lines::wrap_width_of(
            old(terminal)@.viewport_area.width,
        ),
    ensures
        ({
            let step = append_step(old(terminal)@, old(placement)@, prepared.deep_view());
            &&& final(terminal)@ == step.terminal
            &&& final(placement)@ == step.placement
            &&& result is Ok <==> step.completed
        }),
{
    let viewport_top: u16 = terminal.viewport_area.top();
    let appended_rows: u16 = rows_on_screen(prepared.row_count);
    if appended_rows == 0 {
        return Ok(());
    }
    expose_covered_rows_before_append(terminal, placement)?;

    let history_bottom: u16 = if placement.history_bottom < viewport_top {
        placement.history_bottom
    } else {
        viewport_top
    };
    let available_rows: u16 = viewport_top - history_bottom;
    if appended_rows > available_rows {
        let mode = if history_bottom > 0 && history_bottom < viewport_top {
            InsertHistoryMode::StandardAtHistoryBoundary { history_bottom }
        } else {
            InsertHistoryMode::Standard
        };
        insert_prepared_history_hyperlink_lines_with_mode(terminal, prepared, mode)?;
        placement.record_scrolling_append(
            terminal.viewport_area.top(),
            appended_rows,
            &prepared.lines,
            prepared.wrap_width,
        );
        sync_terminal_visible_history_rows(terminal, placement);
        return Ok(());
    }
    paint_history_into_gap(terminal, history_bottom, &prepared.lines, prepared.wrap_width)?;
    placement.record_gap_append(appended_rows, &prepared.lines, prepared.wrap_width);
    sync_terminal_visible_history_rows(terminal, placement);
    Ok(())
}

/// Replace a retained history suffix through the same placement boundary used by appends. Both
/// the lines to replace and the new ones are wrapped to the viewport's width.
pub fn replace_history_tail_at_placement(
    terminal: &mut Terminal,
    wrapped_previous: &Vec<HyperlinkLine>,
    wrapped_replacement: &Vec<HyperlinkLine>,
    placement: &mut InlineHistoryPlacement,
) -> (result: Result<HistoryTailReplacement, TerminalError>)
    requires
        old(placement)@.is_valid(),
    ensures
        ({
            let step = replace_step(
                old(terminal)@,
                old(placement)@,
                wrapped_previous.deep_view(),
                wrapped_replacement.deep_view(),
            );
            &&& final(terminal)@ == step.terminal
            &&& final(placement)@ == step.placement
            &&& result is Ok <==> step.completed
        }),
        result matches Ok(outcome) ==> outcome == if tail_is_replaceable(
            old(terminal)@,
            old(placement)@,
            wrapped_previous.deep_view(),
        ) {
            HistoryTailReplacement::Replaced
        } else {
            HistoryTailReplacement::RequiresTranscriptReflow
        },
{
    let viewport_top: u16 = terminal.viewport_area.top();
    let wrap_width: usize = history_wrap_width(terminal);
    let row_count: usize = history_row_count(wrapped_previous, wrap_width);
    if row_count > u16::MAX as usize {
        return Ok(HistoryTailReplacement::RequiresTranscriptReflow);
    }
    let previous_rows: u16 = row_count as u16;
    if !placement.has_complete_retained_source(wrap_width) || !placement.retained_tail_matches(
        wrapped_previous,
    ) || previous_rows > placement.retained_screen_rows() || previous_rows > viewport_top {
        return Ok(HistoryTailReplacement::RequiresTranscriptReflow);
    }
    expose_covered_rows_before_append(terminal, placement)?;
    let tail_start: u16 = placement.history_bottom.saturating_sub(previous_rows);
    clear_history_rows(terminal, tail_start, previous_rows)?;
    placement.record_visible_history_tail_removal(wrapped_previous.len(), previous_rows);
    sync_terminal_visible_history_rows(terminal, placement);
    append_history_hyperlink_lines_at_placement(terminal, wrapped_replacement, placement)?;
    Ok(HistoryTailReplacement::Replaced)
}

/// Write `lines` below the history.
pub fn paint_history_into_gap(
    terminal: &mut Terminal,
    history_bottom: u16,
    lines: &Vec<HyperlinkLine>,
    wrap_width: usize,
) -> (result: Result<(), TerminalError>)
    requires
        wrap_width > 0,
    ensures
        final(terminal)@ == old(terminal)@.sent(
            crate::history_painting::paint_commands(
                lines.deep_view(),
                wrap_width,
                history_bottom,
                old(terminal)@.last_known_cursor_pos,
            ),
        ),
        result is Ok <==> old(terminal)@.accepts(
            crate::history_painting::paint_commands(
                lines.deep_view(),
                wrap_width,
                history_bottom,
                old(terminal)@.last_known_cursor_pos,
            ).len(),
        ),
{
    assert(lines.deep_view().subrange(0, lines.len() as int) =~= lines.deep_view());
    paint_history_lines(terminal, lines, 0, lines.len(), wrap_width, history_bottom)
}

/// Bring covered rows above the viewport.
pub fn expose_covered_rows_before_append(
    terminal: &mut Terminal,
    placement: &mut InlineHistoryPlacement,
) -> (result: Result<(), TerminalError>)
    requires
        old(placement)@.is_valid(),
    ensures
        ({
            let step = expose_step(old(terminal)@, old(placement)@);
            &&& final(terminal)@ == step.terminal
            &&& final(placement)@ == step.placement
            &&& result is Ok <==> step.completed
        }),
{
    let viewport_top: u16 = terminal.viewport_area.top();
    let scroll_rows: u16 = placement.exposing_scroll_rows(viewport_top);
    if scroll_rows == 0 {
        return Ok(());
    }
    scroll_repainted_history(terminal, placement, scroll_rows)?;
    placement.record_covered_rows_exposed(viewport_top);
    sync_terminal_visible_history_rows(terminal, placement);
    terminal.invalidate_viewport();
    Ok(())
}

/// Lines go into the gap above the viewport exactly where it has rows for all of them. Where it has not,
/// they are inserted behind the history as long as there is a gap, and directly above the viewport
/// otherwise.
pub proof fn law_a_gap_takes_the_lines_that_it_has_rows_for(
    terminal: TerminalView,
    placement: PlacementView,
    rows: u16,
)
    ensures
        placement.history_bottom <= terminal.viewport_area.y ==> {
            &&& append_row(terminal, placement) == placement.history_bottom
            &&& fits_into_gap(terminal, placement, rows) <==> rows <= terminal.viewport_area.y
                - placement.history_bottom
        },
        placement.history_bottom > terminal.viewport_area.y ==> {
            &&& append_row(terminal, placement) == terminal.viewport_area.y
            &&& fits_into_gap(terminal, placement, rows) <==> rows == 0
        },
        0 < placement.history_bottom < terminal.viewport_area.y ==> overflow_mode(
            terminal,
            placement,
        ) == (InsertHistoryMode::StandardAtHistoryBoundary {
            history_bottom: placement.history_bottom,
        }),
        placement.history_bottom == 0 || placement.history_bottom >= terminal.viewport_area.y
            ==> overflow_mode(terminal, placement) == InsertHistoryMode::Standard,
{
}

/// Exposing covered history has the next frame written in full and tells the terminal how many rows of
/// history are visible. Where the backend fails, and where nothing is covered, the placement is what it
/// was.
pub proof fn law_exposing_has_the_next_frame_written(terminal: TerminalView, placement: PlacementView)
    ensures
        ({
            let step = expose_step(terminal, placement);
            let scrolled = placement.exposing_scroll(terminal.viewport_area.y) > 0;
            &&& scrolled && step.completed ==> {
                &&& step.terminal.viewport_invalidated
                &&& step.terminal.visible_history_rows == step.placement.visible_rows
                &&& step.terminal.commands.last() == CommandView::AppendLines(
                    placement.exposing_scroll(terminal.viewport_area.y),
                )
            }
            &&& !step.completed ==> step.placement == placement && step.terminal.viewport_invalidated
                == terminal.viewport_invalidated
            &&& !scrolled ==> step.placement == placement && step.terminal == terminal
            &&& step.terminal.viewport_area == terminal.viewport_area
        }),
{
    let rows = placement.exposing_scroll(terminal.viewport_area.y);
    crate::inline_history::law_the_screen_scrolls_from_its_last_row(terminal, placement, rows);
}

/// Removing a tail clears just its rows, which are the last rows of the history, brings the cursor back
/// and writes nothing.
pub proof fn law_the_rows_of_a_tail_are_cleared(
    terminal: TerminalView,
    placement: PlacementView,
    rows: u16,
    row: u16,
)
    requires
        rows <= placement.history_bottom,
    ensures
        ({
            let commands = clear_tail_commands(terminal, placement, rows);
            let start = placement.history_bottom - rows;
            &&& commands.len() == 2 * rows + 3
            &&& start <= row < placement.history_bottom ==> {
                &&& commands[2 * (row - start)] == CommandView::MoveTo(
                    crate::geometry::Position { x: 0, y: row },
                )
                &&& commands[2 * (row - start) + 1] == CommandView::ClearCurrentLine
            }
            &&& commands[2 * rows as int] == CommandView::MoveTo(terminal.last_known_cursor_pos)
            &&& commands[2 * rows + 1] == CommandView::ResetStyle
            &&& commands[2 * rows + 2] == CommandView::Flush
        }),
{
    let start = (placement.history_bottom - rows) as u16;
    crate::history_painting::law_every_row_is_cleared_once(start, placement.history_bottom, row);
}

/// A tail of which a part has left the screen, or whose history is not known in full, is not replaced.
pub proof fn law_a_tail_that_is_not_all_there_is_never_replaced(
    terminal: TerminalView,
    placement: PlacementView,
    previous: Seq<LineView>,
)
    requires
        terminal.viewport_area.width > 0,
        placement.visible_rows + placement.covered_rows <= u16::MAX,
        crate::history_lines::total_rows(previous, terminal.viewport_area.width as nat)
            > placement.visible_rows + placement.covered_rows || crate::history_lines::total_rows(
            placement.retained_lines,
            terminal.viewport_area.width as nat,
        ) < placement.visible_rows + placement.covered_rows,
    ensures
        !tail_is_replaceable(terminal, placement, previous),
{
}

} // verus!
