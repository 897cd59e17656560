//! Post-draw reconciliation for history covered by the inline viewport.

use vstd::prelude::*;

use crate::inline_append::PlacementStep;
use crate::inline_history::{
    record_inline_history_terminal_scroll, repaint_inline_history_with_covered_rows,
    scroll_repainted_history, update_inline_history_for_viewport, InlineHistoryPlacement, PlacementView,
};
use crate::terminal::{CommandView, Terminal, TerminalCommand, TerminalError, TerminalView};

verus! {

/// Controls what happens when a completed frame conflicts with retained history.
#[derive(Clone, Copy, Debug, PartialEq, Eq, Structural)]
pub enum CoveredHistoryPolicy {
    MoveConflictsToScrollback,
    RestoreAfterViewportShrinks,
}

/// The covered rows that the last frame leaves free.
pub open spec fn free_rows(terminal: TerminalView, placement: PlacementView) -> u16 {
    crate::terminal::blank_prefix(terminal.frame, placement.covered_rows as nat) as u16
}

/// The covered rows that the last frame writes to.
pub open spec fn conflicting_rows(terminal: TerminalView, placement: PlacementView) -> u16 {
    crate::geometry::rows_left(
        placement.covered_rows as int,
        free_rows(terminal, placement) as int,
    )
}

/// How far the screen is scrolled to resolve the conflicts: entirely, or only as far as no row of
/// history leaves the screen.
pub open spec fn resolving_scroll(
    terminal: TerminalView,
    placement: PlacementView,
    policy: CoveredHistoryPolicy,
) -> u16 {
    match policy {
        CoveredHistoryPolicy::MoveConflictsToScrollback => conflicting_rows(terminal, placement),
        CoveredHistoryPolicy::RestoreAfterViewportShrinks => crate::geometry::lower_row(
            conflicting_rows(terminal, placement) as int,
            placement.screen_start() as int,
        ),
    }
}

/// The screen is scrolled below the viewport, which is then written again.
pub open spec fn scroll_step(
    terminal: TerminalView,
    placement: PlacementView,
    rows: u16,
) -> PlacementStep {
    let commands = crate::inline_history::scroll_commands(terminal, placement, rows);
    if rows == 0 {
        PlacementStep { terminal, placement, completed: true }
    } else if !terminal.accepts(commands.len()) {
        PlacementStep { terminal: terminal.sent(commands), placement, completed: false }
    } else {
        let moved = PlacementStep::synchronized(
            terminal.sent(commands),
            placement.scrolled(rows).for_viewport(terminal.viewport_area.y),
        );
        PlacementStep {
            terminal: moved.terminal.sent(seq![CommandView::RepaintViewport]),
            completed: moved.terminal.accepts(1),
            ..moved
        }
    }
}

/// The rows of history that the frame leaves free are written.
pub open spec fn overlay_step(terminal: TerminalView, placement: PlacementView) -> PlacementStep {
    let commands = placement.repaint_commands(
        free_rows(terminal, placement),
        terminal.last_known_cursor_pos,
    );
    if placement.covered_rows == 0 {
        PlacementStep { terminal, placement, completed: true }
    } else {
        PlacementStep {
            terminal: terminal.sent(commands),
            placement,
            completed: terminal.accepts(commands.len()),
        }
    }
}

/// A completed frame and the history that it covers are brought together.
pub open spec fn reconcile_step(
    terminal: TerminalView,
    placement: PlacementView,
    policy: CoveredHistoryPolicy,
) -> PlacementStep {
    let scrolled = scroll_step(
        terminal,
        placement,
        resolving_scroll(terminal, placement, policy),
    );
    if scrolled.completed {
        overlay_step(scrolled.terminal, scrolled.placement)
    } else {
        scrolled
    }
}

/// Bring a completed frame and the history that it covers together.
pub fn reconcile_after_draw(
    terminal: &mut Terminal,
    placement: &mut InlineHistoryPlacement,
    policy: CoveredHistoryPolicy,
) -> (result: Result<(), TerminalError>)
    requires
        old(placement)@.is_valid(),
    ensures
        ({
            let step = reconcile_step(old(terminal)@, old(placement)@, policy);
            &&& final(terminal)@ == step.terminal
            &&& final(placement)@ == step.placement
            &&& result is Ok <==> step.completed
        }),
{
    let mut blank_rows: u16 = terminal.rendered_viewport_blank_prefix_rows(
        placement.covered_rows(),
    );
    let conflicting_rows: u16 = placement.covered_rows().saturating_sub(blank_rows);
    let scroll_rows: u16 = match policy {
        CoveredHistoryPolicy::MoveConflictsToScrollback => conflicting_rows,
        CoveredHistoryPolicy::RestoreAfterViewportShrinks => {
            let rows_before_retained_history: u16 = placement.screen_start();
            if conflicting_rows < rows_before_retained_history {
                conflicting_rows
            } else {
                rows_before_retained_history
            }
        },
    };
    if scroll_rows > 0 {
        scroll_repainted_history(terminal, placement, scroll_rows)?;
        record_inline_history_terminal_scroll(terminal, placement, scroll_rows);
        let viewport_top: u16 = terminal.viewport_area.top();
        update_inline_history_for_viewport(terminal, placement, viewport_top);
        terminal.send(TerminalCommand::RepaintViewport)?;
        blank_rows = terminal.rendered_viewport_blank_prefix_rows(placement.covered_rows());
    }
    if placement.has_covered_rows() {
        repaint_inline_history_with_covered_rows(terminal, placement, blank_rows)?;
    }
    Ok(())
}

/// A frame leaves no more rows free than are counted, and as many as before where fewer are
/// counted.
pub proof fn lemma_free_rows(
    frame: Seq<Seq<crate::terminal::CellView>>,
    max_rows: nat,
    fewer_rows: nat,
)
    requires
        fewer_rows <= max_rows,
    ensures
        crate::terminal::blank_prefix(frame, max_rows) <= max_rows,
        crate::terminal::blank_prefix(frame, fewer_rows) == crate::numbers::least(
            crate::terminal::blank_prefix(frame, max_rows) as int,
            fewer_rows as int,
        ),
    decreases max_rows,
{
    if max_rows > 0 && frame.len() > 0 {
        lemma_free_rows(
            frame.drop_first(),
            (max_rows - 1) as nat,
            crate::numbers::greatest(fewer_rows - 1, 0) as nat,
        );
    }
}

/// Where conflicts move to scrollback, the frame leaves every row free that is still covered, and
/// as many rows of history have left the screen as had no room above the history. The viewport
/// must not reach above the history.
pub proof fn law_conflicting_rows_move_out_of_the_frame(
    terminal: TerminalView,
    placement: PlacementView,
)
    requires
        placement.matches_viewport(terminal.viewport_area.y),
        placement.screen_start() <= terminal.viewport_area.y,
        reconcile_step(
            terminal,
            placement,
            CoveredHistoryPolicy::MoveConflictsToScrollback,
        ).completed,
    ensures
        ({
            let step = reconcile_step(
                terminal,
                placement,
                CoveredHistoryPolicy::MoveConflictsToScrollback,
            );
            let conflicts = conflicting_rows(terminal, placement);
            &&& conflicting_rows(step.terminal, step.placement) == 0
            &&& step.placement.covered_rows <= free_rows(terminal, placement)
            &&& step.placement.screen_rows() == placement.screen_rows()
                - crate::geometry::rows_left(conflicts as int, placement.screen_start() as int)
            &&& step.placement.matches_viewport(terminal.viewport_area.y)
        }),
{
    lemma_free_rows(terminal.frame, placement.covered_rows as nat, 0);
    let conflicts = conflicting_rows(terminal, placement);
    if conflicts > 0 {
        let moved = placement.scrolled(conflicts).for_viewport(terminal.viewport_area.y);
        assert(moved.covered_rows <= placement.covered_rows);
        lemma_free_rows(
            terminal.frame,
            placement.covered_rows as nat,
            moved.covered_rows as nat,
        );
    }
}

/// Where covered history is restored later, no row of it leaves the screen.
pub proof fn law_restored_history_stays_on_the_screen(
    terminal: TerminalView,
    placement: PlacementView,
)
    requires
        placement.matches_viewport(terminal.viewport_area.y),
    ensures
        ({
            let step = reconcile_step(
                terminal,
                placement,
                CoveredHistoryPolicy::RestoreAfterViewportShrinks,
            );
            &&& step.placement.screen_rows() == placement.screen_rows()
            &&& step.placement.retained_lines == placement.retained_lines
            &&& step.placement.matches_viewport(terminal.viewport_area.y)
        }),
{
}

/// A frame is in the way of just the covered rows that it does not leave blank at its top, and the
/// screen is scrolled by as many rows: by all of them where conflicts move to scrollback, and otherwise
/// by no more than there are above the history, so that none of it leaves the screen.
pub proof fn law_conflicts_are_scrolled_as_the_policy_asks(
    terminal: TerminalView,
    placement: PlacementView,
)
    ensures
        ({
            let blank = crate::terminal::blank_prefix(
                terminal.frame,
                placement.covered_rows as nat,
            );
            let conflicts = placement.covered_rows - blank;
            let above = placement.history_bottom - placement.visible_rows - placement.covered_rows;
            &&& blank <= placement.covered_rows
            &&& conflicting_rows(terminal, placement) == conflicts
            &&& free_rows(terminal, placement) == blank
            &&& resolving_scroll(
                terminal,
                placement,
                CoveredHistoryPolicy::MoveConflictsToScrollback,
            ) == conflicts
            &&& placement.is_on_screen() ==> resolving_scroll(
                terminal,
                placement,
                CoveredHistoryPolicy::RestoreAfterViewportShrinks,
            ) == if conflicts < above {
                conflicts
            } else {
                above
            }
        }),
{
    lemma_free_rows(terminal.frame, placement.covered_rows as nat, 0);
}

/// A backend that never fails completes every reconciliation.
pub proof fn law_a_working_backend_completes_every_reconciliation(
    terminal: TerminalView,
    placement: PlacementView,
    policy: CoveredHistoryPolicy,
)
    requires
        terminal.operations_left is None,
    ensures
        reconcile_step(terminal, placement, policy).completed,
        reconcile_step(terminal, placement, policy).terminal.operations_left is None,
        reconcile_step(terminal, placement, policy).terminal.viewport_area
            == terminal.viewport_area,
        reconcile_step(terminal, placement, policy).placement.retained_lines
            == placement.retained_lines,
{
}

/// Reconciling writes retained lines and no others: every row of history that is scrolled is written
/// before it, and what the frame leaves free is written behind it. A frame that was scrolled under is
/// written again.
pub proof fn law_reconciling_writes_only_retained_lines(
    terminal: TerminalView,
    placement: PlacementView,
    policy: CoveredHistoryPolicy,
)
    requires
        terminal.operations_left is None,
    ensures
        ({
            let step = reconcile_step(terminal, placement, policy);
            let added = step.terminal.commands.skip(terminal.commands.len() as int);
            let rows = resolving_scroll(terminal, placement, policy);
            let before = if rows == 0 {
                Seq::empty()
            } else {
                placement.lines_to_repaint(placement.covered_rows)
            };
            let behind = if step.placement.covered_rows == 0 {
                Seq::empty()
            } else {
                step.placement.lines_to_repaint(free_rows(terminal, step.placement))
            };
            &&& terminal.commands.is_prefix_of(step.terminal.commands)
            &&& crate::terminal::written_lines(added) == before + behind
            &&& rows > 0 ==> added.contains(CommandView::RepaintViewport) && added.contains(
                CommandView::AppendLines(rows),
            )
        }),
{
    let step = reconcile_step(terminal, placement, policy);
    let added = step.terminal.commands.skip(terminal.commands.len() as int);
    let rows = resolving_scroll(terminal, placement, policy);
    let cursor = terminal.last_known_cursor_pos;
    let painting = placement.repaint_commands(placement.covered_rows, cursor);
    let scrolling = if rows == 0 {
        Seq::empty()
    } else {
        crate::inline_history::scroll_commands(terminal, placement, rows) + seq![
            CommandView::RepaintViewport,
        ]
    };
    let overlaying = if step.placement.covered_rows == 0 {
        Seq::empty()
    } else {
        step.placement.repaint_commands(free_rows(terminal, step.placement), cursor)
    };
    assert(step.terminal.commands =~= terminal.commands + scrolling + overlaying);
    assert(added =~= scrolling + overlaying);
    assert(terminal.commands =~= step.terminal.commands.subrange(
        0,
        terminal.commands.len() as int,
    ));
    crate::terminal::lemma_written_lines_join(scrolling, overlaying);
    if rows > 0 {
        let closing = scrolling.skip(painting.len() as int);
        assert(scrolling =~= painting + closing);
        crate::history_painting::law_painting_writes_each_line_once(
            placement.lines_to_repaint(placement.covered_rows),
            placement.source_width(),
            placement.repaint_start(),
            cursor,
        );
        crate::terminal::lemma_written_lines_join(painting, closing);
        reveal_with_fuel(crate::terminal::written_lines, 5);
        assert(closing.drop_last().drop_last().drop_last().drop_last()
            =~= Seq::<CommandView>::empty());
        assert(crate::terminal::written_lines(closing)
            =~= Seq::<crate::history_lines::LineView>::empty());
        assert(crate::terminal::written_lines(scrolling) =~= placement.lines_to_repaint(
            placement.covered_rows,
        ));
        assert(added[scrolling.len() - 1] == CommandView::RepaintViewport);
        assert(added[scrolling.len() - 2] == CommandView::AppendLines(rows));
    }
    if step.placement.covered_rows > 0 {
        crate::history_painting::law_painting_writes_each_line_once(
            step.placement.lines_to_repaint(free_rows(terminal, step.placement)),
            step.placement.source_width(),
            step.placement.repaint_start(),
            cursor,
        );
    }
}

/// A frame that leaves every covered row free scrolls nothing.
pub proof fn law_a_blank_frame_scrolls_nothing(
    terminal: TerminalView,
    placement: PlacementView,
    policy: CoveredHistoryPolicy,
)
    requires
        conflicting_rows(terminal, placement) == 0,
    ensures
        reconcile_step(terminal, placement, policy).placement == placement,
        reconcile_step(terminal, placement, policy) == overlay_step(terminal, placement),
{
}

/// Scrolling conflicts away tells the terminal how many rows of history are visible and follows the
/// viewport where it stands. Where the backend fails before the rows have moved, the placement is what it
/// was.
pub proof fn law_a_scroll_is_recorded_once_it_is_performed(
    terminal: TerminalView,
    placement: PlacementView,
    rows: u16,
)
    requires
        rows > 0,
    ensures
        ({
            let commands = crate::inline_history::scroll_commands(terminal, placement, rows);
            let step = scroll_step(terminal, placement, rows);
            let performed = terminal.operations_left is None || commands.len()
                <= terminal.operations_left->0;
            &&& performed ==> {
                &&& step.placement == placement.scrolled(rows).for_viewport(
                    terminal.viewport_area.y,
                )
                &&& step.terminal.visible_history_rows == step.placement.visible_rows
                &&& step.completed ==> step.terminal.commands == terminal.commands + commands.push(
                    CommandView::RepaintViewport,
                )
            }
            &&& !performed ==> !step.completed && step.placement == placement
                && step.terminal.visible_history_rows == terminal.visible_history_rows
            &&& step.terminal.viewport_area == terminal.viewport_area
        }),
{
    let commands = crate::inline_history::scroll_commands(terminal, placement, rows);
    let step = scroll_step(terminal, placement, rows);
    if step.completed {
        assert(terminal.commands + commands + seq![CommandView::RepaintViewport] =~= terminal.commands
            + commands.push(CommandView::RepaintViewport));
    }
}

} // verus!
