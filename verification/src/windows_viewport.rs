//! An inline viewport whose history is tracked row by row, as consoles on Windows need it.

use vstd::prelude::*;

use crate::covered_history::{reconcile_after_draw, CoveredHistoryPolicy};
use crate::geometry::{Position, Rect, Size};
use crate::history_lines::{
    HistoryTailReplacement, HyperlinkLine, InsertHistoryMode, LineView, PreparedHistoryLines,
    PreparedView,
};
use crate::inline_append::{
    append_prepared_history_hyperlink_lines_at_placement, history_wrap_width,
    replace_history_tail_at_placement,
};
use crate::inline_history::{
    record_inline_history_terminal_scroll, repaint_inline_history_tail,
    update_inline_history_for_viewport, InlineHistoryPlacement, PlacementView,
};
use crate::terminal::{
    insert_prepared_history_hyperlink_lines_with_mode, CommandView, Terminal, TerminalCommand,
    TerminalError, TerminalView,
};

verus! {

/// The placement of the history, once a viewport has been reserved.
#[derive(Clone, Debug, PartialEq, Eq)]
pub struct WindowsInlineViewportState {
    pub placement: Option<InlineHistoryPlacement>,
}

#[verifier::ext_equal]
pub struct WindowsViewportView {
    pub placement: Option<PlacementView>,
}

impl View for WindowsInlineViewportState {
    type V = WindowsViewportView;

    open spec fn view(&self) -> WindowsViewportView {
        WindowsViewportView { placement: self.placement.deep_view() }
    }
}

impl DeepView for WindowsInlineViewportState {
    type V = WindowsViewportView;

    open spec fn deep_view(&self) -> WindowsViewportView {
        self@
    }
}

impl WindowsViewportView {
    pub open spec fn is_valid(self) -> bool {
        self.placement matches Some(placement) ==> placement.is_valid()
    }
}

/// What an operation leaves behind of the terminal and of the placement, and whether the backend
/// performed all that was asked of it.
#[verifier::ext_equal]
pub struct WindowsStep {
    pub terminal: TerminalView,
    pub state: WindowsViewportView,
    pub completed: bool,
}

impl WindowsStep {
    /// A step of a placement that is tracked.
    pub open spec fn placed(step: crate::inline_append::PlacementStep) -> Self {
        WindowsStep {
            terminal: step.terminal,
            state: WindowsViewportView { placement: Some(step.placement) },
            completed: step.completed,
        }
    }
}

impl WindowsViewportView {
    /// Lines are appended at the placement or, as long as nothing is tracked, above the viewport.
    pub open spec fn append_step(self, terminal: TerminalView, prepared: PreparedView) -> WindowsStep {
        match self.placement {
            Some(placement) => WindowsStep::placed(
                crate::inline_append::append_step(terminal, placement, prepared),
            ),
            None => WindowsStep {
                terminal: terminal.inserted(prepared, InsertHistoryMode::Standard),
                state: self,
                completed: terminal.accepts(1),
            },
        }
    }

    /// The end of a tracked history is replaced.
    pub open spec fn replace_step(
        self,
        terminal: TerminalView,
        previous: Seq<LineView>,
        replacement: Seq<LineView>,
    ) -> WindowsStep {
        match self.placement {
            Some(placement) => WindowsStep::placed(
                crate::inline_append::replace_step(terminal, placement, previous, replacement),
            ),
            None => WindowsStep { terminal, state: self, completed: true },
        }
    }

    /// What becomes of a request to replace the end of the history: nothing, where none is tracked.
    pub open spec fn replacement_outcome(
        self,
        terminal: TerminalView,
        previous: Seq<LineView>,
    ) -> Option<HistoryTailReplacement> {
        match self.placement {
            Some(placement) => Some(
                if crate::inline_append::tail_is_replaceable(terminal, placement, previous) {
                    HistoryTailReplacement::Replaced
                } else {
                    HistoryTailReplacement::RequiresTranscriptReflow
                },
            ),
            None => None,
        }
    }

    /// A completed frame and the history that it covers are brought together.
    pub open spec fn reconcile_step(
        self,
        terminal: TerminalView,
        policy: CoveredHistoryPolicy,
    ) -> WindowsStep {
        match self.placement {
            Some(placement) if placement.covered_rows > 0 => WindowsStep::placed(
                crate::covered_history::reconcile_step(terminal, placement, policy),
            ),
            _ => WindowsStep { terminal, state: self, completed: true },
        }
    }
}

/// The viewport with its new extent, where it stood.
pub open spec fn extended_area(terminal: TerminalView, height: u16, screen_size: Size) -> Rect {
    Rect {
        width: screen_size.width,
        height: crate::geometry::lower_row(height as int, screen_size.height as int),
        ..terminal.viewport_area
    }
}

/// The viewport at the bottom of the screen.
pub open spec fn bottom_aligned(area: Rect, screen_size: Size) -> Rect {
    Rect { y: (screen_size.height - area.height) as u16, ..area }
}

/// Whether the viewport ended with the screen when that was last measured.
pub open spec fn was_bottom_aligned(terminal: TerminalView) -> bool {
    terminal.viewport_area.bottom_row() == terminal.last_known_screen_size.height
}

/// Where a viewport of so many rows belongs. The first one goes to the bottom of the screen, as
/// does one that has no room where it stands. One that ended with the screen stays there when the
/// screen grows or the viewport shrinks.
pub open spec fn requested_area(terminal: TerminalView, height: u16, screen_size: Size) -> Rect {
    let area = extended_area(terminal, height, screen_size);
    if terminal.viewport_area.height == 0 || area.bottom_row() > screen_size.height || (
    was_bottom_aligned(terminal) && (screen_size.height > terminal.last_known_screen_size.height
        || area.height < terminal.viewport_area.height)) {
        bottom_aligned(area, screen_size)
    } else {
        area
    }
}

/// What makes room for the first viewport.
pub open spec fn reserve_commands(terminal: TerminalView, height: u16, screen_size: Size) -> Seq<
    CommandView,
> {
    let area = extended_area(terminal, height, screen_size);
    if terminal.viewport_area.height == 0 && area.bottom_row() > screen_size.height {
        seq![CommandView::AppendLines(crate::geometry::rows_left(area.height as int, 1))]
    } else {
        Seq::empty()
    }
}

/// A viewport on its way to a new area.
#[verifier::ext_equal]
pub struct ResizeStep {
    pub terminal: TerminalView,
    pub placement: Option<PlacementView>,
    pub area: Rect,
    pub completed: bool,
}

/// The rows that a viewport at the bottom of the screen may have above the placement.
pub open spec fn safe_height(placement: PlacementView, screen_size: Size) -> u16 {
    crate::geometry::rows_left(
        screen_size.height as int,
        placement.viewport_growth_start as int,
    )
}

/// What scrolls a screen without history to make room for the viewport.
pub open spec fn growth_commands(rows: u16, screen_size: Size) -> Seq<CommandView> {
    seq![
        CommandView::MoveTo(
            Position { x: 0, y: crate::geometry::rows_left(screen_size.height as int, 1) },
        ),
        CommandView::AppendLines(rows),
    ]
}

/// A viewport that would grow beyond what the placement allows scrolls the screen, as long as there
/// is no history on it and something of the screen is left; otherwise it stays smaller.
pub open spec fn growth_step(
    terminal: TerminalView,
    placement: PlacementView,
    area: Rect,
    screen_size: Size,
) -> ResizeStep {
    let safe = safe_height(placement, screen_size);
    if area.height <= safe {
        ResizeStep { terminal, placement: Some(placement), area, completed: true }
    } else if area.height < screen_size.height && placement.visible_rows == 0
        && placement.covered_rows == 0 {
        let missing = (area.height - safe) as u16;
        let commands = growth_commands(missing, screen_size);
        if terminal.accepts(commands.len()) {
            let scrolled = placement.scrolled(missing);
            ResizeStep {
                terminal: terminal.sent(commands).with_visible_history_rows(scrolled.visible_rows),
                placement: Some(scrolled),
                area,
                completed: true,
            }
        } else {
            ResizeStep {
                terminal: terminal.sent(commands),
                placement: Some(placement),
                area,
                completed: false,
            }
        }
    } else {
        ResizeStep {
            terminal,
            placement: Some(placement),
            area: bottom_aligned(Rect { height: safe, ..area }, screen_size),
            completed: true,
        }
    }
}

/// Where clearing starts when the viewport moves from one area to another.
pub open spec fn clear_position(previous: Rect, area: Rect) -> Position {
    Position {
        x: 0,
        y: if previous.height == 0 {
            area.y
        } else {
            crate::geometry::lower_row(previous.y as int, area.y as int)
        },
    }
}

/// The viewport is moved, and everything that it leaves or takes is cleared.
pub open spec fn move_step(terminal: TerminalView, area: Rect) -> (TerminalView, bool) {
    if area == terminal.viewport_area {
        (terminal, true)
    } else {
        let moved = terminal.with_viewport_area(area);
        let position = clear_position(terminal.viewport_area, area);
        (moved.cleared_after(position), moved.accepts(2))
    }
}

/// A tracked history follows the viewport, and what is visible of it is written again where other
/// rows are covered than before.
pub open spec fn follow_step(terminal: TerminalView, placement: PlacementView) -> WindowsStep {
    let followed = placement.for_viewport(terminal.viewport_area.y);
    let synchronized = terminal.with_visible_history_rows(followed.visible_rows);
    let commands = followed.repaint_commands(0, terminal.last_known_cursor_pos);
    let state = WindowsViewportView { placement: Some(followed) };
    if followed.covered_rows == placement.covered_rows {
        WindowsStep { terminal: synchronized, state, completed: true }
    } else {
        WindowsStep {
            terminal: synchronized.sent(commands),
            state,
            completed: synchronized.accepts(commands.len()),
        }
    }
}

/// Tracking starts with what the terminal knows to be visible. The first viewport may grow back to
/// the row that it was reserved at.
pub open spec fn started_placement(terminal: TerminalView, previous: Rect) -> PlacementView {
    let top = terminal.viewport_area.y;
    let placement = crate::inline_history::fresh_placement(
        top,
        crate::geometry::lower_row(terminal.visible_history_rows as int, top as int),
    );
    if previous.height == 0 && previous.y <= top {
        placement.with_growth_to(previous.y)
    } else {
        placement
    }
}

/// The viewport takes its new place, with its history behind it.
pub open spec fn settle_step(
    terminal: TerminalView,
    placement: Option<PlacementView>,
    area: Rect,
) -> WindowsStep {
    let previous = terminal.viewport_area;
    let (moved, completed) = move_step(terminal, area);
    if !completed {
        WindowsStep { terminal: moved, state: WindowsViewportView { placement }, completed: false }
    } else {
        match placement {
            Some(placement) => follow_step(moved, placement),
            None => {
                let started = started_placement(moved, previous);
                WindowsStep {
                    terminal: moved.with_visible_history_rows(started.visible_rows),
                    state: WindowsViewportView { placement: Some(started) },
                    completed: true,
                }
            },
        }
    }
}

impl WindowsViewportView {
    /// The viewport on its way to the area that it gets.
    pub open spec fn resize_step(self, terminal: TerminalView, height: u16, screen_size: Size) -> ResizeStep {
        let commands = reserve_commands(terminal, height, screen_size);
        let reserved = terminal.sent(commands);
        let area = requested_area(terminal, height, screen_size);
        if !terminal.accepts(commands.len()) {
            ResizeStep {
                terminal: reserved,
                placement: self.placement,
                area,
                completed: false,
            }
        } else {
            match self.placement {
                Some(placement) => growth_step(reserved, placement, area, screen_size),
                None => ResizeStep { terminal: reserved, placement: None, area, completed: true },
            }
        }
    }

    /// The viewport gets its area. A screen of another size has to be written anew, so nothing of
    /// the old placement holds on it.
    pub open spec fn update_step(self, terminal: TerminalView, height: u16, screen_size: Size) -> WindowsStep {
        let resized = self.resize_step(terminal, height, screen_size);
        if !resized.completed {
            WindowsStep {
                terminal: resized.terminal,
                state: WindowsViewportView { placement: resized.placement },
                completed: false,
            }
        } else {
            settle_step(
                resized.terminal,
                if screen_size == terminal.last_known_screen_size {
                    resized.placement
                } else {
                    None
                },
                resized.area,
            )
        }
    }
}

/// A resized viewport lies on the screen.
pub proof fn law_a_resized_viewport_stays_on_the_screen(
    state: WindowsViewportView,
    terminal: TerminalView,
    height: u16,
    screen_size: Size,
)
    requires
        state.update_step(terminal, height, screen_size).completed,
    ensures
        state.update_step(terminal, height, screen_size).terminal.viewport_area.bottom_row()
            <= screen_size.height,
{
}

/// The first viewport ends with the screen, below everything that was there before it.
pub proof fn law_the_first_viewport_ends_with_the_screen(
    terminal: TerminalView,
    height: u16,
    screen_size: Size,
)
    requires
        terminal.viewport_area.height == 0,
        (WindowsViewportView { placement: None }).update_step(
            terminal,
            height,
            screen_size,
        ).completed,
    ensures
        ({
            let step = (WindowsViewportView { placement: None }).update_step(
                terminal,
                height,
                screen_size,
            );
            let area = step.terminal.viewport_area;
            &&& area.height == crate::geometry::lower_row(height as int, screen_size.height as int)
            &&& area.width == screen_size.width
            &&& area.y + area.height == screen_size.height
            &&& step.state.placement matches Some(placement) && placement.history_bottom == area.y
        }),
{
}

/// A resized viewport takes the width of the screen, and the rows that are asked for as far as the
/// screen has them and the placement leaves them to it: history on the screen is never pushed out for
/// them, so the viewport may then get only the rows below the place that it may grow to. It stays
/// where it is unless it is the first, has no room there, ended with a screen that grew, ended with
/// the screen and gets fewer rows, or is held smaller; then it ends with the screen.
pub proof fn law_a_resized_viewport_takes_the_width_of_the_screen(
    state: WindowsViewportView,
    terminal: TerminalView,
    height: u16,
    screen_size: Size,
)
    requires
        state.update_step(terminal, height, screen_size).completed,
        terminal.viewport_area.y + height <= u16::MAX,
        terminal.viewport_area.y + terminal.viewport_area.height <= u16::MAX,
    ensures
        ({
            let previous = terminal.viewport_area;
            let area = state.update_step(terminal, height, screen_size).terminal.viewport_area;
            let wanted = if height < screen_size.height {
                height
            } else {
                screen_size.height
            };
            let held = state.placement matches Some(placement) && wanted > 0 && wanted
                + placement.viewport_growth_start > screen_size.height && (wanted
                == screen_size.height || placement.visible_rows > 0 || placement.covered_rows > 0);
            let ended_with_screen = previous.y + previous.height
                == terminal.last_known_screen_size.height;
            let goes_down = previous.height == 0 || previous.y + wanted > screen_size.height || (
            ended_with_screen && (screen_size.height > terminal.last_known_screen_size.height
                || wanted < previous.height));
            &&& area.width == screen_size.width
            &&& area.x == previous.x
            &&& !held ==> area.height == wanted
            &&& held && state.placement->0.viewport_growth_start <= screen_size.height
                ==> area.height == screen_size.height - state.placement->0.viewport_growth_start
            &&& held && state.placement->0.viewport_growth_start > screen_size.height
                ==> area.height == 0
            &&& held || goes_down ==> area.y + area.height == screen_size.height
            &&& !held && !goes_down ==> area.y == previous.y
            &&& state.resize_step(terminal, height, screen_size).area == area
        }),
{
}

/// A backend that never fails completes every resize.
pub proof fn law_a_working_backend_completes_every_resize(
    state: WindowsViewportView,
    terminal: TerminalView,
    height: u16,
    screen_size: Size,
)
    requires
        terminal.operations_left is None,
    ensures
        state.update_step(terminal, height, screen_size).completed,
        state.update_step(terminal, height, screen_size).terminal.operations_left is None,
{
}

/// The first viewport makes just the room that it needs: where it does not fit below the cursor, the
/// screen is scrolled by line breaks, one fewer than it has rows; then it is cleared, and the rows
/// above it stay.
pub proof fn law_the_first_viewport_makes_just_its_room(
    terminal: TerminalView,
    height: u16,
    screen_size: Size,
)
    requires
        terminal.operations_left is None,
        terminal.viewport_area.height == 0,
        0 < height <= screen_size.height,
        terminal.viewport_area.y + height <= u16::MAX,
    ensures
        ({
            let step = (WindowsViewportView { placement: None }).update_step(
                terminal,
                height,
                screen_size,
            );
            let top = (screen_size.height - height) as u16;
            let added = step.terminal.commands.skip(terminal.commands.len() as int);
            let clearing = seq![
                CommandView::MoveTo(Position { x: 0, y: top }),
                CommandView::ClearAfterCursor,
            ];
            &&& terminal.commands.is_prefix_of(step.terminal.commands)
            &&& terminal.viewport_area.y + height <= screen_size.height ==> added == clearing
            &&& terminal.viewport_area.y + height > screen_size.height ==> added == seq![
                CommandView::AppendLines((height - 1) as u16),
            ] + clearing
            &&& step.terminal.viewport_invalidated
        }),
{
    let state = WindowsViewportView { placement: None };
    let step = state.update_step(terminal, height, screen_size);
    let commands = reserve_commands(terminal, height, screen_size);
    let top = (screen_size.height - height) as u16;
    let clearing = seq![
        CommandView::MoveTo(Position { x: 0, y: top }),
        CommandView::ClearAfterCursor,
    ];
    assert(step.terminal.commands =~= terminal.commands + commands + clearing);
    assert(step.terminal.commands.skip(terminal.commands.len() as int) =~= commands + clearing);
    assert(Seq::<CommandView>::empty() + clearing =~= clearing);
    assert(terminal.commands =~= step.terminal.commands.subrange(
        0,
        terminal.commands.len() as int,
    ));
}

/// Tracking starts with the rows above the viewport that are known to be history and with no others,
/// directly above it and with nothing covered or retained. Only the first viewport may grow over them,
/// up to the row where it was reserved.
pub proof fn law_tracking_starts_with_what_is_known(terminal: TerminalView, previous: Rect)
    ensures
        ({
            let started = started_placement(terminal, previous);
            let top = terminal.viewport_area.y;
            &&& started.history_bottom == top
            &&& started.covered_rows == 0
            &&& started.retained_lines.len() == 0
            &&& started.retained_wrap_width is None
            &&& terminal.visible_history_rows <= top ==> started.visible_rows
                == terminal.visible_history_rows
            &&& terminal.visible_history_rows > top ==> started.visible_rows == top
            &&& previous.height > 0 || previous.y > top || previous.y + started.visible_rows >= top
                ==> started.viewport_growth_start + started.visible_rows == top
            &&& previous.height == 0 && previous.y + started.visible_rows < top
                ==> started.viewport_growth_start == previous.y
        }),
{
}

/// A viewport that grows on a screen without history scrolls the screen by just the rows that the
/// placement lacks for it, from the last row on, and nothing else is asked for on that account.
pub proof fn law_growth_without_history_scrolls_what_is_missing(
    terminal: TerminalView,
    placement: PlacementView,
    area: Rect,
    screen_size: Size,
)
    requires
        terminal.operations_left is None,
        placement.visible_rows == 0,
        placement.covered_rows == 0,
        placement.viewport_growth_start <= screen_size.height,
        area.height < screen_size.height,
    ensures
        ({
            let step = growth_step(terminal, placement, area, screen_size);
            let missing = area.height + placement.viewport_growth_start - screen_size.height;
            &&& step.area == area
            &&& missing <= 0 ==> step.terminal == terminal && step.placement == Some(placement)
            &&& missing > 0 ==> {
                &&& step.terminal.commands == terminal.commands.push(
                    CommandView::MoveTo(
                        Position { x: 0, y: (screen_size.height - 1) as u16 },
                    ),
                ).push(CommandView::AppendLines(missing as u16))
                &&& step.placement matches Some(scrolled) && scrolled.viewport_growth_start
                    + area.height == screen_size.height && scrolled.visible_rows == 0
            }
        }),
{
    let missing = area.height + placement.viewport_growth_start - screen_size.height;
    if missing > 0 {
        assert(terminal.commands + growth_commands(missing as u16, screen_size)
            =~= terminal.commands.push(
            CommandView::MoveTo(Position { x: 0, y: (screen_size.height - 1) as u16 }),
        ).push(CommandView::AppendLines(missing as u16)));
    }
}

/// A viewport that has settled has a placement that belongs to it.
proof fn lemma_a_settled_placement_is_in_step(
    terminal: TerminalView,
    placement: Option<PlacementView>,
    area: Rect,
)
    requires
        placement matches Some(placement) ==> placement.is_on_screen(),
        settle_step(terminal, placement, area).completed,
    ensures
        ({
            let step = settle_step(terminal, placement, area);
            &&& step.state.placement matches Some(placement)
            &&& placement.matches_viewport(step.terminal.viewport_area.y)
            &&& step.terminal.visible_history_rows == placement.visible_rows
        }),
{
}

/// A viewport that is held to what the placement allows leaves the placement on the screen.
proof fn lemma_growth_keeps_the_placement_on_the_screen(
    terminal: TerminalView,
    placement: PlacementView,
    area: Rect,
    screen_size: Size,
)
    requires
        placement.is_on_screen(),
    ensures
        growth_step(terminal, placement, area, screen_size).placement matches Some(placement)
            && placement.is_on_screen(),
{
    crate::inline_history::law_a_scroll_keeps_the_rows_that_have_room(
        placement,
        (area.height - safe_height(placement, screen_size)) as u16,
    );
}

/// A resize leaves a placement behind that belongs to the viewport, and the terminal's copy of the
/// visible rows in step with it.
pub proof fn law_a_resize_keeps_the_placement_in_step(
    state: WindowsViewportView,
    terminal: TerminalView,
    height: u16,
    screen_size: Size,
)
    requires
        state.placement matches Some(placement) ==> placement.is_on_screen(),
        state.update_step(terminal, height, screen_size).completed,
    ensures
        ({
            let step = state.update_step(terminal, height, screen_size);
            &&& step.state.placement matches Some(placement)
            &&& placement.matches_viewport(step.terminal.viewport_area.y)
            &&& step.terminal.visible_history_rows == placement.visible_rows
        }),
{
    let resized = state.resize_step(terminal, height, screen_size);
    if state.placement is Some {
        lemma_growth_keeps_the_placement_on_the_screen(
            terminal.sent(reserve_commands(terminal, height, screen_size)),
            state.placement->0,
            requested_area(terminal, height, screen_size),
            screen_size,
        );
    }
    lemma_a_settled_placement_is_in_step(
        resized.terminal,
        if screen_size == terminal.last_known_screen_size {
            resized.placement
        } else {
            None
        },
        resized.area,
    );
}

/// A screen of another size starts with a placement that retains nothing.
pub proof fn law_a_screen_of_another_size_starts_anew(
    state: WindowsViewportView,
    terminal: TerminalView,
    height: u16,
    screen_size: Size,
)
    requires
        screen_size != terminal.last_known_screen_size,
        state.update_step(terminal, height, screen_size).completed,
    ensures
        state.update_step(terminal, height, screen_size).state.placement matches Some(placement)
            && placement.retained_lines.len() == 0 && placement.covered_rows == 0
            && placement.history_bottom == state.update_step(
            terminal,
            height,
            screen_size,
        ).terminal.viewport_area.y,
{
}

/// A resize on a screen of the same size takes no row of history from it.
pub proof fn law_a_resize_loses_no_history(
    placement: PlacementView,
    terminal: TerminalView,
    height: u16,
)
    requires
        placement.is_on_screen(),
        terminal.viewport_area.height > 0,
        (WindowsViewportView { placement: Some(placement) }).update_step(
            terminal,
            height,
            terminal.last_known_screen_size,
        ).completed,
    ensures
        (WindowsViewportView { placement: Some(placement) }).update_step(
            terminal,
            height,
            terminal.last_known_screen_size,
        ).state.placement matches Some(resized) && resized.screen_rows() == placement.screen_rows()
            && resized.retained_lines == placement.retained_lines,
{
    crate::terminal::lemma_sent_nothing(terminal);
}

/// A viewport that grows over its history and shrinks again stands where it stood, and its history
/// is as visible as it was.
#[verifier::rlimit(40)]
pub proof fn law_growing_and_shrinking_restores_the_history(
    placement: PlacementView,
    terminal: TerminalView,
    height: u16,
)
    requires
        terminal.last_known_screen_size == terminal.screen_size,
        terminal.viewport_area.width == terminal.screen_size.width,
        terminal.viewport_area.y + terminal.viewport_area.height == terminal.screen_size.height,
        0 < terminal.viewport_area.height <= height <= safe_height(placement, terminal.screen_size),
        placement.matches_viewport(terminal.viewport_area.y),
        ({
            let state = WindowsViewportView { placement: Some(placement) };
            let grown = state.update_step(terminal, height, terminal.screen_size);
            &&& grown.completed
            &&& grown.state.update_step(
                grown.terminal,
                terminal.viewport_area.height,
                terminal.screen_size,
            ).completed
        }),
    ensures
        ({
            let state = WindowsViewportView { placement: Some(placement) };
            let grown = state.update_step(terminal, height, terminal.screen_size);
            let shrunk = grown.state.update_step(
                grown.terminal,
                terminal.viewport_area.height,
                terminal.screen_size,
            );
            &&& grown.terminal.viewport_area.height == height
            &&& shrunk.terminal.viewport_area == terminal.viewport_area
            &&& shrunk.state == state
        }),
{
    let state = WindowsViewportView { placement: Some(placement) };
    let screen_size = terminal.screen_size;
    crate::terminal::lemma_sent_nothing(terminal);
    let grown = state.update_step(terminal, height, screen_size);
    crate::terminal::lemma_sent_nothing(grown.terminal);
    crate::inline_history::law_covered_history_is_restored(
        placement,
        terminal.viewport_area.y,
        grown.terminal.viewport_area.y,
    );
}

/// Scroll or shrink a viewport that would grow beyond what `placement` allows. Returns the area
/// that it gets.
fn limit_viewport_growth(
    terminal: &mut Terminal,
    placement: &mut InlineHistoryPlacement,
    area: Rect,
    screen_size: Size,
) -> (result: Result<Rect, TerminalError>)
    requires
        area.height <= screen_size.height,
    ensures
        ({
            let step = growth_step(old(terminal)@, old(placement)@, area, screen_size);
            &&& final(terminal)@ == step.terminal
            &&& Some(final(placement)@) == step.placement
            &&& result is Ok <==> step.completed
            &&& result matches Ok(limited) ==> limited == step.area
        }),
{
    let max_safe_height: u16 = screen_size.height.saturating_sub(placement.viewport_growth_start());
    if area.height <= max_safe_height {
        return Ok(area);
    }
    let missing_rows: u16 = area.height - max_safe_height;
    if area.height < screen_size.height && placement.visible_rows() == 0
        && !placement.has_covered_rows() {
        proof {
            let commands = growth_commands(missing_rows, screen_size);
            let first = seq![commands[0]];
            let second = seq![commands[1]];
            assert(first + second =~= commands);
            crate::terminal::lemma_sent_join(terminal@, first, second);
        }
        terminal.send(
            TerminalCommand::MoveTo(Position::new(0, screen_size.height.saturating_sub(1))),
        )?;
        terminal.send(TerminalCommand::AppendLines(missing_rows))?;
        record_inline_history_terminal_scroll(terminal, placement, missing_rows);
        Ok(area)
    } else {
        Ok(
            Rect {
                x: area.x,
                y: screen_size.height - max_safe_height,
                width: area.width,
                height: max_safe_height,
            },
        )
    }
}

/// Move the viewport of `terminal` to `area` and clear what it leaves or takes.
fn move_viewport(terminal: &mut Terminal, area: Rect) -> (result: Result<(), TerminalError>)
    ensures
        final(terminal)@ == move_step(old(terminal)@, area).0,
        result is Ok <==> move_step(old(terminal)@, area).1,
{
    let previous_area = terminal.viewport_area;
    if area == previous_area {
        return Ok(());
    }
    let clear_y: u16 = if previous_area.height == 0 || area.y < previous_area.y {
        area.y
    } else {
        previous_area.y
    };
    terminal.set_viewport_area(area);
    terminal.clear_after_position(Position::new(0, clear_y))
}

impl Default for WindowsInlineViewportState {
    fn default() -> (state: Self)
        ensures
            state@ == (WindowsViewportView { placement: None }),
    {
        WindowsInlineViewportState { placement: None }
    }
}

impl WindowsInlineViewportState {
    pub fn reset(&mut self)
        ensures
            final(self)@ == (WindowsViewportView { placement: None }),
    {
        self.placement = None;
    }

    /// The lines that the placement retains.
    pub fn retained_source_for_test(&self) -> (lines: Option<&Vec<HyperlinkLine>>)
        ensures
            lines is Some <==> self@.placement is Some,
            lines matches Some(lines) ==> lines.deep_view() == self@.placement->0.retained_lines,
    {
        match &self.placement {
            Some(placement) => Some(placement.retained_lines()),
            None => None,
        }
    }

    /// Whether history that waits has to be written before the viewport is resized: where the
    /// viewport does not move down, and covers nothing.
    pub fn pending_history_precedes_resize(&self, requested_top: u16, current_top: u16) -> (precedes:
        bool)
        ensures
            precedes == (self@.placement matches Some(placement) && placement.covered_rows == 0
                && requested_top <= current_top),
    {
        match &self.placement {
            Some(placement) => !placement.has_covered_rows() && requested_top <= current_top,
            None => false,
        }
    }

    /// Replace the end of the history where it is tracked. Both the lines to replace and the new
    /// ones are wrapped to the viewport's width.
    pub fn replace_visible_history_tail(
        &mut self,
        terminal: &mut Terminal,
        wrapped_previous: &Vec<HyperlinkLine>,
        wrapped_replacement: &Vec<HyperlinkLine>,
    ) -> (result: Result<Option<HistoryTailReplacement>, TerminalError>)
        requires
            old(self)@.is_valid(),
        ensures
            ({
                let step = old(self)@.replace_step(
                    old(terminal)@,
                    wrapped_previous.deep_view(),
                    wrapped_replacement.deep_view(),
                );
                &&& final(terminal)@ == step.terminal
                &&& final(self)@ == step.state
                &&& result is Ok <==> step.completed
            }),
            result matches Ok(outcome) ==> outcome == old(self)@.replacement_outcome(
                old(terminal)@,
                wrapped_previous.deep_view(),
            ),
    {
        match self.placement.take() {
            None => Ok(None),
            Some(mut placement) => {
                let outcome = replace_history_tail_at_placement(
                    terminal,
                    wrapped_previous,
                    wrapped_replacement,
                    &mut placement,
                );
                self.placement = Some(placement);
                match outcome {
                    Ok(outcome) => Ok(Some(outcome)),
                    Err(error) => Err(error),
                }
            },
        }
    }

    /// Append lines that are wrapped to the viewport's width.
    pub fn append_standard_history(
        &mut self,
        terminal: &mut Terminal,
        wrapped: Vec<HyperlinkLine>,
    ) -> (result: Result<(), TerminalError>)
        requires
            old(self)@.is_valid(),
        ensures
            ({
                let step = old(self)@.append_step(
                    old(terminal)@,
                    crate::history_lines::prepared_lines(
                        wrapped.deep_view(),
                        crate::history_lines::wrap_width_of(old(terminal)@.viewport_area.width),
                    ),
                );
                &&& final(terminal)@ == step.terminal
                &&& final(self)@ == step.state
                &&& result is Ok <==> step.completed
            }),
    {
        let wrap_width: usize = history_wrap_width(terminal);
        let prepared = crate::history_lines::prepare_history_hyperlink_lines(wrapped, wrap_width);
        self.append_prepared_standard_history(terminal, &prepared)
    }

    /// Append lines that were prepared for the viewport's width.
    pub fn append_prepared_standard_history(
        &mut self,
        terminal: &mut Terminal,
        prepared: &PreparedHistoryLines,
    ) -> (result: Result<(), TerminalError>)
        requires
            old(self)@.is_valid(),
            old(self)@.placement is Some ==> prepared.wrap_width
                == crate::history_lines::wrap_width_of(old(terminal)@.viewport_area.width),
        ensures
            ({
                let step = old(self)@.append_step(old(terminal)@, prepared.deep_view());
                &&& final(terminal)@ == step.terminal
                &&& final(self)@ == step.state
                &&& result is Ok <==> step.completed
            }),
    {
        match self.placement.take() {
            None => insert_prepared_history_hyperlink_lines_with_mode(
                terminal,
                prepared,
                InsertHistoryMode::Standard,
            ),
            Some(mut placement) => {
                let result = append_prepared_history_hyperlink_lines_at_placement(
                    terminal,
                    prepared,
                    &mut placement,
                );
                self.placement = Some(placement);
                result
            },
        }
    }

    /// Bring a completed frame and the history that it covers together.
    pub fn reconcile_after_draw(
        &mut self,
        terminal: &mut Terminal,
        policy: CoveredHistoryPolicy,
    ) -> (result: Result<(), TerminalError>)
        requires
            old(self)@.is_valid(),
        ensures
            ({
                let step = old(self)@.reconcile_step(old(terminal)@, policy);
                &&& final(terminal)@ == step.terminal
                &&& final(self)@ == step.state
                &&& result is Ok <==> step.completed
            }),
    {
        match self.placement.take() {
            None => Ok(()),
            Some(mut placement) => {
                let result = if placement.has_covered_rows() {
                    reconcile_after_draw(terminal, &mut placement, policy)
                } else {
                    Ok(())
                };
                self.placement = Some(placement);
                result
            },
        }
    }

    /// Make room for the first viewport and hold it to what the placement allows. Returns the area
    /// that the viewport gets.
    fn reserve_viewport(
        &mut self,
        terminal: &mut Terminal,
        height: u16,
        screen_size: Size,
    ) -> (result: Result<Rect, TerminalError>)
        ensures
            ({
                let step = old(self)@.resize_step(old(terminal)@, height, screen_size);
                &&& final(terminal)@ == step.terminal
                &&& final(self)@.placement == step.placement
                &&& result is Ok <==> step.completed
                &&& result matches Ok(area) ==> area == step.area
            }),
    {
        let terminal_height_grew = screen_size.height > terminal.last_known_screen_size.height;
        let previous_area = terminal.viewport_area;
        let viewport_was_bottom_aligned = previous_area.bottom()
            == terminal.last_known_screen_size.height;
        let first_viewport_reservation = previous_area.height == 0;

        let mut area = previous_area;
        area.height = if height < screen_size.height {
            height
        } else {
            screen_size.height
        };
        area.width = screen_size.width;
        let viewport_height_shrank = area.height < previous_area.height;
        proof {
            crate::terminal::lemma_sent_nothing(terminal@);
        }
        if first_viewport_reservation {
            if area.bottom() > screen_size.height {
                terminal.send(TerminalCommand::AppendLines(area.height.saturating_sub(1)))?;
            }
            area.y = screen_size.height - area.height;
        } else if area.bottom() > screen_size.height || (viewport_was_bottom_aligned && (
        terminal_height_grew || viewport_height_shrank)) {
            area.y = screen_size.height - area.height;
        }
        match self.placement.take() {
            None => Ok(area),
            Some(mut placement) => {
                let result = limit_viewport_growth(terminal, &mut placement, area, screen_size);
                self.placement = Some(placement);
                result
            },
        }
    }

    /// Move the viewport to `area`, with its history behind it. The placement starts anew where
    /// none is tracked.
    fn settle_viewport(&mut self, terminal: &mut Terminal, area: Rect) -> (result: Result<
        (),
        TerminalError,
    >)
        requires
            old(self)@.is_valid(),
        ensures
            ({
                let step = settle_step(old(terminal)@, old(self)@.placement, area);
                &&& final(terminal)@ == step.terminal
                &&& final(self)@ == step.state
                &&& result is Ok <==> step.completed
            }),
    {
        let previous_area = terminal.viewport_area;
        move_viewport(terminal, area)?;
        match self.placement.take() {
            Some(mut placement) => {
                let needs_history_repaint = update_inline_history_for_viewport(
                    terminal,
                    &mut placement,
                    area.top(),
                );
                let result = if needs_history_repaint {
                    repaint_inline_history_tail(terminal, &placement)
                } else {
                    Ok(())
                };
                self.placement = Some(placement);
                result
            },
            None => {
                let visible: u16 = terminal.visible_history_rows();
                let mut placement = InlineHistoryPlacement::new(
                    area.top(),
                    if visible < area.top() {
                        visible
                    } else {
                        area.top()
                    },
                );
                if previous_area.height == 0 && previous_area.y <= area.y {
                    placement.allow_viewport_growth_to(previous_area.y);
                }
                update_inline_history_for_viewport(terminal, &mut placement, area.top());
                self.placement = Some(placement);
                Ok(())
            },
        }
    }

    /// Resize the viewport for transcript reflow. Returns whether it has to be written in full.
    pub fn update_for_resize_reflow(
        &mut self,
        terminal: &mut Terminal,
        height: u16,
        screen_size: Size,
    ) -> (result: Result<bool, TerminalError>)
        requires
            old(self)@.is_valid(),
        ensures
            ({
                let step = old(self)@.update_step(old(terminal)@, height, screen_size);
                &&& final(terminal)@ == step.terminal
                &&& final(self)@ == step.state
                &&& result is Ok <==> step.completed
            }),
            result matches Ok(needs_full_repaint) ==> needs_full_repaint == (
            old(self)@.resize_step(old(terminal)@, height, screen_size).area
                != old(terminal)@.viewport_area),
    {
        let terminal_size_changed = screen_size != terminal.last_known_screen_size;
        let previous_area = terminal.viewport_area;
        let area = self.reserve_viewport(terminal, height, screen_size)?;
        if terminal_size_changed {
            self.placement = None;
        }
        self.settle_viewport(terminal, area)?;
        Ok(area != previous_area)
    }
}

/// A viewport that stays where it is asks for nothing. One that moves is cleared from the higher of its
/// two places on, a first one from its own place on, and its next frame is written in full.
pub proof fn law_a_moved_viewport_is_cleared(terminal: TerminalView, area: Rect)
    requires
        terminal.operations_left is None,
    ensures
        ({
            let previous = terminal.viewport_area;
            let (moved, completed) = move_step(terminal, area);
            let row = if previous.height == 0 || area.y <= previous.y {
                area.y
            } else {
                previous.y
            };
            &&& completed
            &&& area == previous ==> moved == terminal
            &&& area != previous ==> {
                &&& moved.viewport_area == area
                &&& moved.viewport_invalidated
                &&& moved.commands == terminal.commands + seq![
                    CommandView::MoveTo(Position { x: 0, y: row }),
                    CommandView::ClearAfterCursor,
                ]
            }
            &&& moved.operations_left is None
        }),
{
}

/// A placement follows the viewport: the terminal learns how many rows of history are visible, and the
/// lines that are on the screen are written again where other rows of them are covered than before.
pub proof fn law_a_followed_placement_is_written_again(
    terminal: TerminalView,
    placement: PlacementView,
)
    requires
        terminal.operations_left is None,
    ensures
        ({
            let followed = placement.for_viewport(terminal.viewport_area.y);
            let step = follow_step(terminal, placement);
            let added = step.terminal.commands.skip(terminal.commands.len() as int);
            &&& step.completed
            &&& step.state.placement == Some(followed)
            &&& step.terminal.visible_history_rows == followed.visible_rows
            &&& step.terminal.viewport_area == terminal.viewport_area
            &&& terminal.commands.is_prefix_of(step.terminal.commands)
            &&& followed.covered_rows == placement.covered_rows ==> added.len() == 0
            &&& followed.covered_rows != placement.covered_rows ==> {
                &&& crate::terminal::written_lines(added) == followed.lines_to_repaint(0)
                &&& added.last() == CommandView::Flush
            }
        }),
{
    let followed = placement.for_viewport(terminal.viewport_area.y);
    let step = follow_step(terminal, placement);
    let commands = followed.repaint_commands(0, terminal.last_known_cursor_pos);
    let added = step.terminal.commands.skip(terminal.commands.len() as int);
    crate::history_painting::law_painting_writes_each_line_once(
        followed.lines_to_repaint(0),
        followed.source_width(),
        followed.repaint_start(),
        terminal.last_known_cursor_pos,
    );
    if followed.covered_rows == placement.covered_rows {
        assert(added =~= Seq::<CommandView>::empty());
        assert(terminal.commands =~= step.terminal.commands.subrange(
            0,
            terminal.commands.len() as int,
        ));
    } else {
        assert(added =~= commands);
        assert(terminal.commands =~= step.terminal.commands.subrange(
            0,
            terminal.commands.len() as int,
        ));
    }
}

/// A viewport without a placement has nothing to reconcile and no tail to replace. With one, covered
/// history is reconciled, and a tail is replaced exactly where it is known and on the screen; any other
/// one asks for the whole transcript.
pub proof fn law_only_a_placement_is_reconciled_and_replaced(
    terminal: TerminalView,
    placement: PlacementView,
    policy: CoveredHistoryPolicy,
    previous: Seq<LineView>,
    replacement: Seq<LineView>,
)
    ensures
        ({
            let untold = WindowsViewportView { placement: None };
            let reconciled = untold.reconcile_step(terminal, policy);
            let replaced = untold.replace_step(terminal, previous, replacement);
            &&& reconciled.completed && reconciled.terminal == terminal && reconciled.state
                == untold
            &&& replaced.completed && replaced.terminal == terminal && replaced.state == untold
            &&& untold.replacement_outcome(terminal, previous) is None
        }),
        ({
            let tracking = WindowsViewportView { placement: Some(placement) };
            let reconciled = tracking.reconcile_step(terminal, policy);
            let replaced = tracking.replace_step(terminal, previous, replacement);
            let known = crate::inline_append::tail_is_replaceable(terminal, placement, previous);
            &&& placement.covered_rows == 0 ==> reconciled.completed && reconciled.terminal
                == terminal && reconciled.state == tracking
            &&& placement.covered_rows > 0 ==> {
                let step = crate::covered_history::reconcile_step(terminal, placement, policy);
                &&& reconciled.completed == step.completed
                &&& reconciled.terminal == step.terminal
                &&& reconciled.state.placement == Some(step.placement)
            }
            &&& known ==> tracking.replacement_outcome(terminal, previous) == Some(
                HistoryTailReplacement::Replaced,
            )
            &&& !known ==> tracking.replacement_outcome(terminal, previous) == Some(
                HistoryTailReplacement::RequiresTranscriptReflow,
            )
            &&& !known ==> replaced.completed && replaced.terminal == terminal && replaced.state
                == tracking
            &&& known && replaced.completed ==> {
                &&& replaced.state.placement is Some
                &&& replaced.state.placement->0.retained_lines == placement.retained_lines.take(
                    placement.retained_lines.len() - previous.len(),
                ) + replacement
            }
        }),
{
    if crate::inline_append::tail_is_replaceable(terminal, placement, previous) {
        let step = crate::inline_append::replace_step(terminal, placement, previous, replacement);
        if step.completed {
            crate::inline_append::law_a_replaced_tail_ends_in_the_replacement(
                terminal,
                placement,
                previous,
                replacement,
            );
        }
    }
}

/// Where the backend fails to make room, nothing of the history counts as moved.
pub proof fn law_a_failed_resize_moves_no_history(
    state: WindowsViewportView,
    terminal: TerminalView,
    placement: Option<PlacementView>,
    area: Rect,
    height: u16,
    screen_size: Size,
)
    ensures
        !state.resize_step(terminal, height, screen_size).completed ==> {
            &&& state.resize_step(terminal, height, screen_size).placement == state.placement
            &&& state.resize_step(terminal, height, screen_size).terminal.viewport_area
                == terminal.viewport_area
            &&& state.update_step(terminal, height, screen_size).state == state
            &&& !state.update_step(terminal, height, screen_size).completed
        },
        !move_step(terminal, area).1 ==> {
            &&& !settle_step(terminal, placement, area).completed
            &&& settle_step(terminal, placement, area).state.placement == placement
            &&& move_step(terminal, area).0.viewport_invalidated == terminal.viewport_invalidated
        },
{
}

} // verus!
