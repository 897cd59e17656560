//! What the screen shows once the backend has performed what was asked of it, and how history stays
//! on it.

use vstd::prelude::*;

use crate::geometry::{Position, Rect, Size};
use crate::history_lines::{InsertHistoryMode, LineView, PreparedView};
use crate::inline_history::PlacementView;
use crate::terminal::{CommandView, TerminalView};
use crate::windows_viewport::WindowsViewportView;

verus! {

/// What a row of the screen shows.
pub enum ScreenRow {
    Blank,
    /// A row of a line of history.
    History { line: LineView, part: int },
    /// A row of the viewport's frame.
    Frame(int),
    /// Anything that was there before.
    Foreign(int),
}

/// The screen of a terminal.
#[verifier::ext_equal]
pub struct ScreenView {
    pub rows: Seq<ScreenRow>,
    pub cursor: Position,
}

/// Rows with others written over them from a place on.
pub open spec fn overwritten(rows: Seq<ScreenRow>, start: int, written: Seq<ScreenRow>) -> Seq<
    ScreenRow,
> {
    Seq::new(
        rows.len(),
        |row: int|
            if start <= row < start + written.len() {
                written[row - start]
            } else {
                rows[row]
            },
    )
}

/// Rows that show nothing.
pub open spec fn blank_rows(count: int) -> Seq<ScreenRow> {
    Seq::new(count as nat, |row: int| ScreenRow::Blank)
}

/// Rows scrolled up, as far as there are so many.
pub open spec fn scrolled_rows(rows: Seq<ScreenRow>, count: int) -> Seq<ScreenRow> {
    if count <= rows.len() {
        rows.skip(count) + blank_rows(count)
    } else {
        blank_rows(rows.len() as int)
    }
}

/// The rows of a line.
pub open spec fn line_parts(line: LineView, wrap_width: nat) -> Seq<ScreenRow> {
    Seq::new(
        crate::history_lines::line_rows(line, wrap_width),
        |part: int| ScreenRow::History { line, part },
    )
}

/// The rows of lines one below the other.
pub open spec fn lines_parts(lines: Seq<LineView>, wrap_width: nat) -> Seq<ScreenRow>
    decreases lines.len(),
{
    if lines.len() == 0 {
        Seq::empty()
    } else {
        line_parts(lines[0], wrap_width) + lines_parts(lines.drop_first(), wrap_width)
    }
}

/// The rows above a viewport that has `top` rows above it, once lines were put behind the first
/// `first` of them: what has no room at the bottom pushes the oldest rows out at the top.
pub open spec fn rows_with_inserted(
    rows: Seq<ScreenRow>,
    first: int,
    inserted: Seq<ScreenRow>,
    top: int,
) -> Seq<ScreenRow> {
    let filled = rows.take(first) + inserted;
    if filled.len() >= top {
        filled.skip(filled.len() - top)
    } else {
        filled + blank_rows(top - filled.len())
    }
}

/// Lines are put above a viewport at `area`, which gives way to them as far as the screen has rows
/// below it.
pub open spec fn screen_with_inserted(
    rows: Seq<ScreenRow>,
    area: Rect,
    prepared: PreparedView,
    mode: InsertHistoryMode,
) -> Seq<ScreenRow> {
    let inserted = lines_parts(prepared.lines, prepared.wrap_width as nat);
    let room = rows.len() - area.bottom_row();
    let given_way = if room <= 0 {
        0
    } else {
        crate::numbers::least(inserted.len() as int, room)
    };
    let first = match mode {
        InsertHistoryMode::StandardAtHistoryBoundary { history_bottom } => history_bottom,
        _ => area.y,
    };
    rows_with_inserted(rows, first as int, inserted, area.y + given_way) + rows.subrange(
        area.y as int,
        rows.len() - given_way,
    )
}

impl ScreenView {
    /// The screen after an operation. `viewport_top` is where the viewport starts.
    pub open spec fn after(self, command: CommandView, viewport_top: int) -> Self {
        match command {
            CommandView::MoveTo(position) => ScreenView { cursor: position, ..self },
            CommandView::ClearCurrentLine => ScreenView {
                rows: overwritten(self.rows, self.cursor.y as int, blank_rows(1)),
                ..self
            },
            CommandView::ClearAfterCursor => ScreenView {
                rows: overwritten(
                    self.rows,
                    self.cursor.y as int,
                    blank_rows(
                        crate::numbers::greatest(self.rows.len() - self.cursor.y, 0),
                    ),
                ),
                ..self
            },
            CommandView::WriteHistoryLine { line, wrap_width } => ScreenView {
                rows: overwritten(
                    self.rows,
                    self.cursor.y as int,
                    line_parts(line, wrap_width as nat),
                ),
                ..self
            },
            CommandView::AppendLines(count) => ScreenView {
                rows: scrolled_rows(
                    self.rows,
                    crate::numbers::greatest(self.cursor.y + count + 1 - self.rows.len(), 0),
                ),
                ..self
            },
            CommandView::ScrollRegionUp { end, rows } => ScreenView {
                rows: scrolled_rows(self.rows.take(end as int), rows as int) + self.rows.skip(
                    end as int,
                ),
                ..self
            },
            CommandView::InsertHistory { area, prepared, mode } => ScreenView {
                rows: screen_with_inserted(self.rows, area, prepared, mode),
                ..self
            },
            CommandView::RepaintViewport => ScreenView {
                rows: Seq::new(
                    self.rows.len(),
                    |row: int|
                        if row >= viewport_top {
                            ScreenRow::Frame(row - viewport_top)
                        } else {
                            self.rows[row]
                        },
                ),
                ..self
            },
            CommandView::ClearViewport => ScreenView {
                rows: overwritten(
                    self.rows,
                    viewport_top,
                    blank_rows(crate::numbers::greatest(self.rows.len() - viewport_top, 0)),
                ),
                ..self
            },
            CommandView::ClearVisibleScreen => ScreenView {
                rows: blank_rows(self.rows.len() as int),
                ..self
            },
            CommandView::ClearScrollbackAndVisibleScreen => ScreenView {
                rows: blank_rows(self.rows.len() as int),
                ..self
            },
            CommandView::ResetStyle => self,
            CommandView::Flush => self,
            CommandView::QuerySize => self,
        }
    }

    /// The screen after operations, one after the other.
    pub open spec fn after_all(self, commands: Seq<CommandView>, viewport_top: int) -> Self
        decreases commands.len(),
    {
        if commands.len() == 0 {
            self
        } else {
            self.after(commands[0], viewport_top).after_all(commands.drop_first(), viewport_top)
        }
    }

    /// Whether every visible row of history shows the retained line that belongs there, as far as
    /// lines are retained.
    pub open spec fn shows(self, placement: PlacementView) -> bool {
        let parts = lines_parts(placement.retained_lines, placement.source_width() as nat);
        forall|row: int|
            #![trigger self.rows[row]]
            placement.screen_start() <= row < placement.history_bottom - placement.covered_rows
                && placement.history_bottom - parts.len() <= row ==> self.rows[row]
                == parts[parts.len() - placement.history_bottom + row]
    }
}

/// What `after` was asked of the backend beyond what `before` had been.
pub open spec fn new_commands(before: TerminalView, after: TerminalView) -> Seq<CommandView> {
    after.commands.skip(before.commands.len() as int)
}

/// Lines take as many rows as are counted for them.
pub proof fn lemma_lines_parts_len(lines: Seq<LineView>, wrap_width: nat)
    ensures
        lines_parts(lines, wrap_width).len() == crate::history_lines::total_rows(
            lines,
            wrap_width,
        ),
    decreases lines.len(),
{
    if lines.len() > 0 {
        lemma_lines_parts_len(lines.drop_first(), wrap_width);
        crate::history_lines::lemma_total_rows_join(
            seq![lines[0]],
            lines.drop_first(),
            wrap_width,
        );
        assert(seq![lines[0]] + lines.drop_first() =~= lines);
        crate::inline_history::lemma_rows_of_one_line(lines[0], wrap_width);
    }
}

/// Lines joined show the rows of both.
pub proof fn lemma_lines_parts_join(left: Seq<LineView>, right: Seq<LineView>, wrap_width: nat)
    ensures
        lines_parts(left + right, wrap_width) == lines_parts(left, wrap_width) + lines_parts(
            right,
            wrap_width,
        ),
    decreases left.len(),
{
    if left.len() == 0 {
        assert(left + right =~= right);
        assert(lines_parts(left, wrap_width) + lines_parts(right, wrap_width) =~= lines_parts(
            right,
            wrap_width,
        ));
    } else {
        lemma_lines_parts_join(left.drop_first(), right, wrap_width);
        assert((left + right).drop_first() =~= left.drop_first() + right);
        assert(line_parts(left[0], wrap_width) + (lines_parts(left.drop_first(), wrap_width)
            + lines_parts(right, wrap_width)) =~= line_parts(left[0], wrap_width) + lines_parts(
            left.drop_first(),
            wrap_width,
        ) + lines_parts(right, wrap_width));
    }
}

/// Operations performed in two parts are operations performed at once.
pub proof fn lemma_after_all_join(
    screen: ScreenView,
    first: Seq<CommandView>,
    second: Seq<CommandView>,
    viewport_top: int,
)
    ensures
        screen.after_all(first + second, viewport_top) == screen.after_all(
            first,
            viewport_top,
        ).after_all(second, viewport_top),
    decreases first.len(),
{
    if first.len() == 0 {
        assert(first + second =~= second);
    } else {
        assert((first + second).drop_first() =~= first.drop_first() + second);
        lemma_after_all_join(
            screen.after(first[0], viewport_top),
            first.drop_first(),
            second,
            viewport_top,
        );
    }
}

/// Writing a line puts its rows there, and changes no other row.
proof fn lemma_painted_line(
    screen: ScreenView,
    line: LineView,
    wrap_width: usize,
    row: u16,
    viewport_top: int,
)
    requires
        wrap_width > 0,
    ensures
        screen.after_all(
            crate::history_painting::line_commands(line, wrap_width, row),
            viewport_top,
        ).rows == overwritten(screen.rows, row as int, line_parts(line, wrap_width as nat)),
{
    let commands = crate::history_painting::line_commands(line, wrap_width, row);
    crate::history_lines::lemma_line_has_a_row(line, wrap_width as nat);
    reveal_with_fuel(ScreenView::after_all, 4);
    let moved = screen.after(commands[0], viewport_top);
    let cleared = moved.after(commands[1], viewport_top);
    let written = cleared.after(commands[2], viewport_top);
    assert(commands.drop_first()[0] == commands[1]);
    assert(commands.drop_first().drop_first()[0] == commands[2]);
    assert(screen.after_all(commands, viewport_top) == written);
    assert(written.rows =~= overwritten(
        screen.rows,
        row as int,
        line_parts(line, wrap_width as nat),
    ));
}

/// Writing lines one below the other puts their rows there, and changes no other row.
pub proof fn lemma_painted_lines(
    screen: ScreenView,
    lines: Seq<LineView>,
    wrap_width: usize,
    row: u16,
    viewport_top: int,
)
    requires
        wrap_width > 0,
        screen.rows.len() <= u16::MAX,
        row + crate::history_lines::total_rows(lines, wrap_width as nat) <= screen.rows.len(),
    ensures
        screen.after_all(
            crate::history_painting::lines_commands(lines, wrap_width, row),
            viewport_top,
        ).rows == overwritten(screen.rows, row as int, lines_parts(lines, wrap_width as nat)),
    decreases lines.len(),
{
    let width = wrap_width as nat;
    if lines.len() == 0 {
        assert(overwritten(screen.rows, row as int, lines_parts(lines, width)) =~= screen.rows);
    } else {
        let first = crate::history_painting::line_commands(lines[0], wrap_width, row);
        let below = crate::history_painting::row_below(lines[0], wrap_width, row);
        let rest = crate::history_painting::lines_commands(lines.drop_first(), wrap_width, below);
        crate::history_lines::lemma_total_rows_join(seq![lines[0]], lines.drop_first(), width);
        assert(seq![lines[0]] + lines.drop_first() =~= lines);
        crate::inline_history::lemma_rows_of_one_line(lines[0], width);
        crate::history_lines::lemma_line_has_a_row(lines[0], width);
        lemma_lines_parts_len(lines.drop_first(), width);
        lemma_after_all_join(screen, first, rest, viewport_top);
        let written = screen.after_all(first, viewport_top);
        lemma_painted_line(screen, lines[0], wrap_width, row, viewport_top);
        lemma_painted_lines(written, lines.drop_first(), wrap_width, below, viewport_top);
        assert(overwritten(
            overwritten(screen.rows, row as int, line_parts(lines[0], width)),
            below as int,
            lines_parts(lines.drop_first(), width),
        ) =~= overwritten(screen.rows, row as int, lines_parts(lines, width)));
    }
}

/// Putting the cursor back changes no row.
pub proof fn lemma_closed_painting(screen: ScreenView, cursor: Position, viewport_top: int)
    ensures
        screen.after_all(
            crate::history_painting::closing_commands(cursor),
            viewport_top,
        ).rows == screen.rows,
{
    let commands = crate::history_painting::closing_commands(cursor);
    reveal_with_fuel(ScreenView::after_all, 4);
    assert(commands.drop_first()[0] == commands[1]);
    assert(commands.drop_first().drop_first()[0] == commands[2]);
}

/// Painting lines puts their rows there, and changes no other row.
pub proof fn law_painting_writes_exactly_its_rows(
    screen: ScreenView,
    lines: Seq<LineView>,
    wrap_width: usize,
    row: u16,
    cursor: Position,
    viewport_top: int,
)
    requires
        wrap_width > 0,
        screen.rows.len() <= u16::MAX,
        row + crate::history_lines::total_rows(lines, wrap_width as nat) <= screen.rows.len(),
    ensures
        screen.after_all(
            crate::history_painting::paint_commands(lines, wrap_width, row, cursor),
            viewport_top,
        ).rows == overwritten(screen.rows, row as int, lines_parts(lines, wrap_width as nat)),
{
    let painting = crate::history_painting::lines_commands(lines, wrap_width, row);
    let closing = crate::history_painting::closing_commands(cursor);
    lemma_after_all_join(screen, painting, closing, viewport_top);
    lemma_painted_lines(screen, lines, wrap_width, row, viewport_top);
    lemma_closed_painting(screen.after_all(painting, viewport_top), cursor, viewport_top);
}

/// Whether every line takes a single row, as lines do that were wrapped before they are written.
pub open spec fn single_rows(lines: Seq<LineView>, wrap_width: nat) -> bool {
    forall|index: int|
        0 <= index < lines.len() ==> crate::history_lines::line_rows(
            #[trigger] lines[index],
            wrap_width,
        ) == 1
}

/// Whether the screen belongs to a terminal whose viewport ends with it.
pub open spec fn is_screen_of(screen: ScreenView, terminal: TerminalView) -> bool {
    &&& screen.rows.len() == terminal.screen_size.height
    &&& terminal.viewport_area.y <= terminal.screen_size.height
    &&& terminal.viewport_area.bottom_row() >= terminal.screen_size.height
}

/// Lines of single rows are counted one by one.
pub proof fn lemma_single_rows(lines: Seq<LineView>, wrap_width: nat, rows: nat)
    requires
        single_rows(lines, wrap_width),
    ensures
        crate::history_lines::total_rows(lines, wrap_width) == lines.len(),
        lines_parts(lines, wrap_width).len() == lines.len(),
        crate::inline_history::lines_within(lines, wrap_width, rows) == crate::numbers::least(
            lines.len() as int,
            rows as int,
        ),
        crate::inline_history::lines_touching(lines, wrap_width, rows) == crate::numbers::least(
            lines.len() as int,
            rows as int,
        ),
    decreases lines.len(),
{
    lemma_lines_parts_len(lines, wrap_width);
    if lines.len() > 0 {
        let older = lines.drop_last();
        assert(single_rows(older, wrap_width)) by {
            assert forall|index: int| 0 <= index < older.len() implies
                crate::history_lines::line_rows(#[trigger] older[index], wrap_width) == 1 by {
                assert(older[index] == lines[index]);
            }
        }
        assert(crate::history_lines::line_rows(lines[lines.len() - 1], wrap_width) == 1);
        lemma_single_rows(older, wrap_width, crate::numbers::greatest(rows - 1, 0) as nat);
        assert(older + seq![lines.last()] =~= lines);
        crate::history_lines::lemma_total_rows_join(older, seq![lines.last()], wrap_width);
        crate::inline_history::lemma_rows_of_one_line(lines.last(), wrap_width);
    }
}

/// Lines that go into the gap below the history, or push older rows out above the viewport, show
/// behind the history, and the viewport keeps its rows.
#[verifier::rlimit(40)]
pub proof fn law_appended_lines_show_behind_the_history(
    screen: ScreenView,
    terminal: TerminalView,
    placement: PlacementView,
    prepared: PreparedView,
)
    requires
        is_screen_of(screen, terminal),
        screen.shows(placement),
        placement.is_valid(),
        placement.matches_viewport(terminal.viewport_area.y),
        placement.covered_rows == 0,
        crate::inline_append::is_counted(prepared),
        0 < prepared.row_count <= u16::MAX,
        crate::inline_append::place_step(terminal, placement, prepared).completed,
    ensures
        ({
            let step = crate::inline_append::place_step(terminal, placement, prepared);
            let top = terminal.viewport_area.y as int;
            let after = screen.after_all(new_commands(terminal, step.terminal), top);
            &&& after.shows(step.placement)
            &&& is_screen_of(after, step.terminal)
            &&& forall|row: int|
                top <= row < screen.rows.len() ==> #[trigger] after.rows[row] == screen.rows[row]
        }),
{
    let step = crate::inline_append::place_step(terminal, placement, prepared);
    let top = terminal.viewport_area.y as int;
    let commands = new_commands(terminal, step.terminal);
    let after = screen.after_all(commands, top);
    let width = prepared.wrap_width as nat;
    let rows = crate::terminal::screen_rows(prepared.row_count);
    let count = crate::history_lines::total_rows(prepared.lines, width) as int;
    let row = crate::inline_append::append_row(terminal, placement);
    assert(rows == count);
    lemma_lines_parts_len(prepared.lines, width);
    lemma_lines_parts_join(placement.retained_lines, prepared.lines, width);
    let added = lines_parts(prepared.lines, width);
    let old_parts = lines_parts(placement.retained_lines, placement.source_width() as nat);
    let parts = lines_parts(step.placement.retained_lines, step.placement.source_width() as nat);
    if crate::inline_append::fits_into_gap(terminal, placement, rows) {
        assert(commands =~= crate::inline_append::gap_commands(terminal, placement, prepared));
        law_painting_writes_exactly_its_rows(
            screen,
            prepared.lines,
            prepared.wrap_width,
            row,
            terminal.last_known_cursor_pos,
            top,
        );
        assert(after.rows == overwritten(screen.rows, row as int, added));
    } else {
        let mode = crate::inline_append::overflow_mode(terminal, placement);
        let area = terminal.viewport_area;
        assert(commands =~= seq![CommandView::InsertHistory { area, prepared, mode }]);
        reveal_with_fuel(ScreenView::after_all, 2);
        assert(after.rows == screen_with_inserted(screen.rows, area, prepared, mode));
    }
    assert forall|row: int|
        #![trigger after.rows[row]]
        step.placement.screen_start() <= row < step.placement.history_bottom
            - step.placement.covered_rows && step.placement.history_bottom - parts.len()
            <= row implies after.rows[row] == parts[parts.len() - step.placement.history_bottom
        + row] by {
        let fresh = row - (step.placement.history_bottom - count);
        if fresh < 0 {
            let earlier = placement.history_bottom + fresh;
            assert(screen.rows[earlier] == old_parts[old_parts.len() + fresh]);
        }
    }
}

/// Scrolling from the last row moves every row up.
pub proof fn lemma_scrolled_screen(
    screen: ScreenView,
    terminal: TerminalView,
    rows: u16,
    viewport_top: int,
)
    requires
        screen.rows.len() == terminal.screen_size.height,
        0 < screen.rows.len(),
        rows <= screen.rows.len(),
    ensures
        screen.after_all(
            seq![
                CommandView::QuerySize,
                CommandView::MoveTo(crate::inline_history::last_row(terminal)),
                CommandView::AppendLines(rows),
            ],
            viewport_top,
        ).rows == scrolled_rows(screen.rows, rows as int),
{
    let commands = seq![
        CommandView::QuerySize,
        CommandView::MoveTo(crate::inline_history::last_row(terminal)),
        CommandView::AppendLines(rows),
    ];
    reveal_with_fuel(ScreenView::after_all, 4);
    assert(commands.drop_first()[0] == commands[1]);
    assert(commands.drop_first().drop_first()[0] == commands[2]);
}

/// Where lines take single rows, writing the retained lines again with the covered rows puts every
/// one of them in its place.
pub proof fn lemma_repainted_screen(
    screen: ScreenView,
    placement: PlacementView,
    covered_rows: u16,
    cursor: Position,
    viewport_top: int,
)
    requires
        placement.is_valid(),
        placement.is_on_screen(),
        covered_rows <= placement.covered_rows,
        placement.history_bottom <= screen.rows.len() <= u16::MAX,
        single_rows(placement.retained_lines, placement.source_width() as nat),
    ensures
        ({
            let after = screen.after_all(
                placement.repaint_commands(covered_rows, cursor),
                viewport_top,
            );
            let parts = lines_parts(placement.retained_lines, placement.source_width() as nat);
            let end = placement.history_bottom - placement.covered_rows + covered_rows;
            &&& after.rows.len() == screen.rows.len()
            &&& forall|row: int|
                #![trigger after.rows[row]]
                0 <= row < screen.rows.len() ==> after.rows[row] == if placement.screen_start()
                    <= row < end && placement.history_bottom - parts.len() <= row {
                    parts[parts.len() - placement.history_bottom + row]
                } else {
                    screen.rows[row]
                }
        }),
{
    let lines = placement.retained_lines;
    let width = placement.source_width() as nat;
    let hidden = placement.covered_rows - covered_rows;
    let on_screen = placement.lines_on_screen();
    let under_cover = placement.lines_under_cover(covered_rows);
    let shown = placement.lines_to_repaint(covered_rows);
    let start = placement.repaint_start();
    lemma_single_rows(
        lines,
        width,
        (placement.history_bottom - placement.screen_start()) as nat,
    );
    lemma_single_rows(lines, width, hidden as nat);
    let tail = lines.skip(lines.len() - on_screen);
    lemma_single_rows_of_part(lines, lines.len() - on_screen, lines.len() as int, width);
    assert(tail =~= lines.subrange(lines.len() - on_screen, lines.len() as int));
    lemma_single_rows(tail, width, 0);
    let end = crate::numbers::greatest(lines.len() - on_screen, lines.len() - under_cover);
    lemma_single_rows_of_part(lines, lines.len() - on_screen, end, width);
    lemma_single_rows(shown, width, 0);
    law_painting_writes_exactly_its_rows(
        screen,
        shown,
        placement.source_width(),
        start,
        cursor,
        viewport_top,
    );
    let after = screen.after_all(placement.repaint_commands(covered_rows, cursor), viewport_top);
    let parts = lines_parts(lines, width);
    let shown_parts = lines_parts(shown, width);
    assert forall|row: int|
        #![trigger after.rows[row]]
        0 <= row < screen.rows.len() implies after.rows[row] == if placement.screen_start() <= row
        < placement.history_bottom - hidden && placement.history_bottom - parts.len() <= row {
        parts[parts.len() - placement.history_bottom + row]
    } else {
        screen.rows[row]
    } by {
        if start <= row < start + shown_parts.len() {
            lemma_single_part(shown, width, row - start);
            lemma_single_part(lines, width, parts.len() - placement.history_bottom + row);
        }
    }
}

/// A part of lines of single rows has lines of single rows.
pub proof fn lemma_single_rows_of_part(
    lines: Seq<LineView>,
    start: int,
    end: int,
    wrap_width: nat,
)
    requires
        single_rows(lines, wrap_width),
        0 <= start <= end <= lines.len(),
    ensures
        single_rows(lines.subrange(start, end), wrap_width),
{
    let part = lines.subrange(start, end);
    assert forall|index: int| 0 <= index < part.len() implies crate::history_lines::line_rows(
        #[trigger] part[index],
        wrap_width,
    ) == 1 by {
        assert(part[index] == lines[start + index]);
    }
}

/// The row of a line among lines of single rows.
pub proof fn lemma_single_part(lines: Seq<LineView>, wrap_width: nat, index: int)
    requires
        single_rows(lines, wrap_width),
        0 <= index < lines.len(),
    ensures
        lines_parts(lines, wrap_width).len() == lines.len(),
        lines_parts(lines, wrap_width)[index] == (ScreenRow::History { line: lines[index], part: 0 }),
    decreases lines.len(),
{
    assert(crate::history_lines::line_rows(lines[0], wrap_width) == 1);
    lemma_single_rows(lines, wrap_width, 0);
    let rest = lines.drop_first();
    lemma_single_rows_of_part(lines, 1, lines.len() as int, wrap_width);
    assert(rest =~= lines.subrange(1, lines.len() as int));
    if index > 0 {
        lemma_single_part(rest, wrap_width, index - 1);
    }
}

/// Covered rows that come out above the viewport show what belongs there.
pub proof fn law_exposed_rows_show_the_history(
    screen: ScreenView,
    terminal: TerminalView,
    placement: PlacementView,
)
    requires
        is_screen_of(screen, terminal),
        screen.shows(placement),
        placement.is_valid(),
        placement.matches_viewport(terminal.viewport_area.y),
        placement.screen_start() <= terminal.viewport_area.y,
        placement.history_bottom <= screen.rows.len(),
        single_rows(placement.retained_lines, placement.source_width() as nat),
        crate::inline_append::expose_step(terminal, placement).completed,
    ensures
        ({
            let step = crate::inline_append::expose_step(terminal, placement);
            let after = screen.after_all(
                new_commands(terminal, step.terminal),
                terminal.viewport_area.y as int,
            );
            &&& after.shows(step.placement)
            &&& is_screen_of(after, step.terminal)
        }),
{
    let step = crate::inline_append::expose_step(terminal, placement);
    let top = terminal.viewport_area.y as int;
    let commands = new_commands(terminal, step.terminal);
    let rows = placement.exposing_scroll(terminal.viewport_area.y);
    if rows == 0 {
        assert(commands =~= Seq::<CommandView>::empty());
    } else {
        lemma_scrolled_history(screen, terminal, placement, rows);
        assert(commands =~= crate::inline_history::scroll_commands(terminal, placement, rows));
        lemma_after_scroll_shows(screen, terminal, placement, rows);
    }
}

/// Scrolling a screen whose history was written again moves every row of the history up.
proof fn lemma_scrolled_history(
    screen: ScreenView,
    terminal: TerminalView,
    placement: PlacementView,
    rows: u16,
)
    requires
        screen.rows.len() == terminal.screen_size.height,
        placement.is_valid(),
        placement.is_on_screen(),
        placement.history_bottom <= screen.rows.len(),
        0 < rows <= screen.rows.len(),
        single_rows(placement.retained_lines, placement.source_width() as nat),
    ensures
        ({
            let after = screen.after_all(
                crate::inline_history::scroll_commands(terminal, placement, rows),
                terminal.viewport_area.y as int,
            );
            let parts = lines_parts(placement.retained_lines, placement.source_width() as nat);
            &&& after.rows.len() == screen.rows.len()
            &&& forall|row: int|
                #![trigger after.rows[row]]
                placement.screen_start() - rows <= row < placement.history_bottom - rows && 0 <= row
                    && placement.history_bottom - parts.len() - rows <= row ==> after.rows[row]
                    == parts[parts.len() - placement.history_bottom + rows + row]
        }),
{
    let top = terminal.viewport_area.y as int;
    let cursor = terminal.last_known_cursor_pos;
    let repaint = placement.repaint_commands(placement.covered_rows, cursor);
    let scroll = seq![
        CommandView::QuerySize,
        CommandView::MoveTo(crate::inline_history::last_row(terminal)),
        CommandView::AppendLines(rows),
    ];
    lemma_repainted_screen(screen, placement, placement.covered_rows, cursor, top);
    lemma_after_all_join(screen, repaint, scroll, top);
    let repainted = screen.after_all(repaint, top);
    lemma_scrolled_screen(repainted, terminal, rows, top);
    let after = screen.after_all(repaint + scroll, top);
    let parts = lines_parts(placement.retained_lines, placement.source_width() as nat);
    assert forall|row: int|
        #![trigger after.rows[row]]
        placement.screen_start() - rows <= row < placement.history_bottom - rows && 0 <= row
            && placement.history_bottom - parts.len() - rows <= row implies after.rows[row]
        == parts[parts.len() - placement.history_bottom + rows + row] by {
        assert(after.rows[row] == repainted.rows[row + rows]);
    }
}

/// A screen that was scrolled with its history shows the placement that was scrolled with it.
proof fn lemma_after_scroll_shows(
    screen: ScreenView,
    terminal: TerminalView,
    placement: PlacementView,
    rows: u16,
)
    requires
        screen.rows.len() == terminal.screen_size.height,
        placement.is_valid(),
        placement.is_on_screen(),
        placement.history_bottom <= screen.rows.len(),
        0 < rows <= placement.history_bottom,
        single_rows(placement.retained_lines, placement.source_width() as nat),
    ensures
        screen.after_all(
            crate::inline_history::scroll_commands(terminal, placement, rows),
            terminal.viewport_area.y as int,
        ).shows(placement.scrolled(rows).for_viewport(terminal.viewport_area.y)),
{
    lemma_scrolled_history(screen, terminal, placement, rows);
    let moved = placement.scrolled(rows).for_viewport(terminal.viewport_area.y);
    let after = screen.after_all(
        crate::inline_history::scroll_commands(terminal, placement, rows),
        terminal.viewport_area.y as int,
    );
    crate::inline_history::law_a_scroll_keeps_the_rows_that_have_room(placement, rows);
    assert(moved.history_bottom == placement.history_bottom - rows);
    assert(moved.screen_start() >= placement.screen_start() - rows);
}

/// Appended lines show behind the history, whether or not the viewport covered a part of it.
pub proof fn law_an_append_keeps_the_history_on_the_screen(
    screen: ScreenView,
    terminal: TerminalView,
    placement: PlacementView,
    prepared: PreparedView,
)
    requires
        is_screen_of(screen, terminal),
        screen.shows(placement),
        placement.is_valid(),
        placement.matches_viewport(terminal.viewport_area.y),
        placement.screen_start() <= terminal.viewport_area.y,
        placement.history_bottom <= screen.rows.len(),
        single_rows(placement.retained_lines, placement.source_width() as nat),
        crate::inline_append::is_counted(prepared),
        0 < prepared.row_count <= u16::MAX,
        crate::inline_append::append_step(terminal, placement, prepared).completed,
    ensures
        ({
            let step = crate::inline_append::append_step(terminal, placement, prepared);
            let after = screen.after_all(
                new_commands(terminal, step.terminal),
                terminal.viewport_area.y as int,
            );
            &&& after.shows(step.placement)
            &&& is_screen_of(after, step.terminal)
        }),
{
    let top = terminal.viewport_area.y as int;
    let exposed = crate::inline_append::expose_step(terminal, placement);
    let step = crate::inline_append::append_step(terminal, placement, prepared);
    law_exposed_rows_show_the_history(screen, terminal, placement);
    crate::inline_history::law_exposed_history_is_not_covered(placement, terminal.viewport_area.y);
    let first = new_commands(terminal, exposed.terminal);
    let second = new_commands(exposed.terminal, step.terminal);
    let between = screen.after_all(first, top);
    law_appended_lines_show_behind_the_history(
        between,
        exposed.terminal,
        exposed.placement,
        prepared,
    );
    assert(new_commands(terminal, step.terminal) =~= first + second);
    lemma_after_all_join(screen, first, second, top);
}

/// Bringing a frame and the history that it covers together keeps the history on the screen. Below
/// the rows that the frame leaves free, the viewport shows its frame where the screen was scrolled,
/// and otherwise what it showed before.
#[verifier::rlimit(40)]
pub proof fn law_reconciliation_keeps_the_history_on_the_screen(
    screen: ScreenView,
    terminal: TerminalView,
    placement: PlacementView,
    policy: crate::covered_history::CoveredHistoryPolicy,
)
    requires
        screen.rows.len() == terminal.screen_size.height,
        screen.shows(placement),
        placement.is_valid(),
        placement.matches_viewport(terminal.viewport_area.y),
        placement.screen_start() <= terminal.viewport_area.y,
        placement.history_bottom <= screen.rows.len(),
        single_rows(placement.retained_lines, placement.source_width() as nat),
        crate::covered_history::reconcile_step(terminal, placement, policy).completed,
    ensures
        ({
            let step = crate::covered_history::reconcile_step(terminal, placement, policy);
            let top = terminal.viewport_area.y as int;
            let after = screen.after_all(new_commands(terminal, step.terminal), top);
            let free = crate::covered_history::free_rows(step.terminal, step.placement);
            &&& after.shows(step.placement)
            &&& after.rows.len() == screen.rows.len()
            &&& forall|row: int|
                #![trigger after.rows[row]]
                top + free <= row < screen.rows.len() ==> after.rows[row]
                    == if crate::covered_history::resolving_scroll(terminal, placement, policy)
                    > 0 {
                    ScreenRow::Frame(row - top)
                } else {
                    screen.rows[row]
                }
        }),
{
    let top = terminal.viewport_area.y as int;
    let cursor = terminal.last_known_cursor_pos;
    let rows = crate::covered_history::resolving_scroll(terminal, placement, policy);
    let scrolled = crate::covered_history::scroll_step(terminal, placement, rows);
    let step = crate::covered_history::reconcile_step(terminal, placement, policy);
    let first = new_commands(terminal, scrolled.terminal);
    let second = new_commands(scrolled.terminal, step.terminal);
    assert(new_commands(terminal, step.terminal) =~= first + second);
    lemma_after_all_join(screen, first, second, top);
    let between = screen.after_all(first, top);
    crate::covered_history::lemma_free_rows(terminal.frame, placement.covered_rows as nat, 0);
    if rows == 0 {
        assert(first =~= Seq::<CommandView>::empty());
    } else {
        let scroll = crate::inline_history::scroll_commands(terminal, placement, rows);
        let repaint = seq![CommandView::RepaintViewport];
        assert(first =~= scroll + repaint);
        lemma_after_all_join(screen, scroll, repaint, top);
        lemma_scrolled_history(screen, terminal, placement, rows);
        lemma_after_scroll_shows(screen, terminal, placement, rows);
        let moved = screen.after_all(scroll, top);
        reveal_with_fuel(ScreenView::after_all, 2);
        assert(between == moved.after(CommandView::RepaintViewport, top));
        crate::inline_history::law_a_scroll_keeps_the_rows_that_have_room(placement, rows);
    }
    let settled = scrolled.placement;
    let free = crate::covered_history::free_rows(scrolled.terminal, settled);
    crate::covered_history::lemma_free_rows(
        scrolled.terminal.frame,
        settled.covered_rows as nat,
        0,
    );
    if settled.covered_rows == 0 {
        assert(second =~= Seq::<CommandView>::empty());
    } else {
        assert(second =~= settled.repaint_commands(free, cursor));
        lemma_repainted_screen(between, settled, free, cursor, top);
    }
}

/// A viewport that moves over its history, or away from it, leaves the visible part of it on the
/// screen.
pub proof fn law_a_moved_viewport_keeps_the_history_on_the_screen(
    screen: ScreenView,
    terminal: TerminalView,
    placement: PlacementView,
    area: Rect,
)
    requires
        screen.shows(placement),
        placement.is_valid(),
        placement.matches_viewport(terminal.viewport_area.y),
        placement.history_bottom <= screen.rows.len() <= u16::MAX,
        single_rows(placement.retained_lines, placement.source_width() as nat),
        crate::windows_viewport::settle_step(terminal, Some(placement), area).completed,
    ensures
        ({
            let step = crate::windows_viewport::settle_step(terminal, Some(placement), area);
            let after = screen.after_all(new_commands(terminal, step.terminal), area.y as int);
            &&& step.state.placement matches Some(followed)
            &&& after.shows(followed)
            &&& after.rows.len() == screen.rows.len()
            &&& area != terminal.viewport_area ==> forall|row: int|
                #![trigger after.rows[row]]
                area.y <= row < screen.rows.len() ==> after.rows[row] == ScreenRow::Blank
        }),
{
    let top = area.y as int;
    let step = crate::windows_viewport::settle_step(terminal, Some(placement), area);
    let (moved, _) = crate::windows_viewport::move_step(terminal, area);
    let first = new_commands(terminal, moved);
    let second = new_commands(moved, step.terminal);
    let followed = placement.for_viewport(area.y);
    assert(new_commands(terminal, step.terminal) =~= first + second);
    lemma_after_all_join(screen, first, second, top);
    let between = screen.after_all(first, top);
    let position = crate::windows_viewport::clear_position(terminal.viewport_area, area);
    if area == terminal.viewport_area {
        assert(first =~= Seq::<CommandView>::empty());
    } else {
        assert(first =~= seq![CommandView::MoveTo(position), CommandView::ClearAfterCursor]);
        reveal_with_fuel(ScreenView::after_all, 3);
        assert(first.drop_first()[0] == first[1]);
        let placed = screen.after(first[0], top);
        assert(between == placed.after(first[1], top));
        assert(forall|row: int|
            #![trigger between.rows[row]]
            0 <= row < position.y && row < screen.rows.len() ==> between.rows[row]
                == screen.rows[row]);
        assert(forall|row: int|
            #![trigger between.rows[row]]
            position.y <= row < screen.rows.len() ==> between.rows[row] == ScreenRow::Blank);
    }
    let after = screen.after_all(first + second, top);
    let parts = lines_parts(followed.retained_lines, followed.source_width() as nat);
    if followed.covered_rows == placement.covered_rows {
        assert(second =~= Seq::<CommandView>::empty());
        assert(followed =~= placement);
        assert forall|row: int|
            #![trigger after.rows[row]]
            followed.screen_start() <= row < followed.history_bottom - followed.covered_rows
                && followed.history_bottom - parts.len() <= row implies after.rows[row]
            == parts[parts.len() - followed.history_bottom + row] by {
            crate::inline_history::law_visible_history_ends_above_the_viewport(
                placement,
                terminal.viewport_area.y,
            );
            crate::inline_history::law_visible_history_ends_above_the_viewport(
                followed,
                area.y,
            );
            assert(screen.rows[row] == parts[parts.len() - followed.history_bottom + row]);
        }
    } else {
        assert(second =~= followed.repaint_commands(0, terminal.last_known_cursor_pos));
        lemma_repainted_screen(between, followed, 0, terminal.last_known_cursor_pos, top);
        assert forall|row: int|
            #![trigger after.rows[row]]
            area != terminal.viewport_area && area.y <= row < screen.rows.len() implies after.rows[row]
            == ScreenRow::Blank by {
            if followed.visible_rows > 0 {
                crate::inline_history::law_visible_history_ends_above_the_viewport(
                    followed,
                    area.y,
                );
            }
        }
    }
}

/// Clearing rows one by one leaves them blank, and changes no other row.
pub proof fn lemma_cleared_rows(screen: ScreenView, start: u16, end: u16, viewport_top: int)
    requires
        start <= end <= screen.rows.len(),
    ensures
        screen.after_all(
            crate::history_painting::clear_commands(start, end),
            viewport_top,
        ).rows == overwritten(screen.rows, start as int, blank_rows(end - start)),
    decreases end - start,
{
    if start >= end {
        assert(overwritten(screen.rows, start as int, blank_rows(end - start)) =~= screen.rows);
    } else {
        let first = seq![
            CommandView::MoveTo(Position { x: 0, y: start }),
            CommandView::ClearCurrentLine,
        ];
        let rest = crate::history_painting::clear_commands((start + 1) as u16, end);
        lemma_after_all_join(screen, first, rest, viewport_top);
        let cleared = screen.after_all(first, viewport_top);
        assert(cleared.rows =~= overwritten(screen.rows, start as int, blank_rows(1))) by {
            reveal_with_fuel(ScreenView::after_all, 3);
            assert(first.drop_first()[0] == first[1]);
            assert(cleared == screen.after(first[0], viewport_top).after(first[1], viewport_top));
        }
        lemma_cleared_rows(cleared, (start + 1) as u16, end, viewport_top);
        assert(overwritten(
            overwritten(screen.rows, start as int, blank_rows(1)),
            start + 1,
            blank_rows(end - start - 1),
        ) =~= overwritten(screen.rows, start as int, blank_rows(end - start)));
    }
}

/// Taking the last lines of the history away clears exactly their rows, and what is left of the
/// history still shows.
pub proof fn law_a_removed_tail_leaves_the_rest_on_the_screen(
    screen: ScreenView,
    terminal: TerminalView,
    placement: PlacementView,
    previous: Seq<LineView>,
)
    requires
        is_screen_of(screen, terminal),
        screen.shows(placement),
        placement.is_valid(),
        placement.is_on_screen(),
        placement.covered_rows == 0,
        placement.history_bottom <= screen.rows.len(),
        crate::inline_append::tail_is_replaceable(terminal, placement, previous),
        crate::inline_append::remove_tail_step(terminal, placement, previous).completed,
    ensures
        ({
            let step = crate::inline_append::remove_tail_step(terminal, placement, previous);
            let top = terminal.viewport_area.y as int;
            let after = screen.after_all(new_commands(terminal, step.terminal), top);
            &&& after.shows(step.placement)
            &&& is_screen_of(after, step.terminal)
            &&& forall|row: int|
                #![trigger after.rows[row]]
                0 <= row < screen.rows.len() ==> after.rows[row]
                    == if step.placement.history_bottom <= row < placement.history_bottom {
                    ScreenRow::Blank
                } else {
                    screen.rows[row]
                }
        }),
{
    let step = crate::inline_append::remove_tail_step(terminal, placement, previous);
    let top = terminal.viewport_area.y as int;
    let width = placement.source_width() as nat;
    let rows = crate::history_lines::total_rows(previous, width);
    let start = (placement.history_bottom - rows) as u16;
    let clearing = crate::history_painting::clear_commands(start, placement.history_bottom);
    let closing = crate::history_painting::closing_commands(terminal.last_known_cursor_pos);
    assert(new_commands(terminal, step.terminal) =~= clearing + closing);
    lemma_after_all_join(screen, clearing, closing, top);
    lemma_cleared_rows(screen, start, placement.history_bottom, top);
    lemma_closed_painting(
        screen.after_all(clearing, top),
        terminal.last_known_cursor_pos,
        top,
    );
    let kept = step.placement.retained_lines;
    lemma_lines_parts_join(kept, previous, width);
    lemma_lines_parts_len(previous, width);
    assert(kept + previous =~= placement.retained_lines);
    let after = screen.after_all(clearing + closing, top);
    let parts = lines_parts(kept, width);
    let old_parts = lines_parts(placement.retained_lines, width);
    assert forall|row: int|
        #![trigger after.rows[row]]
        step.placement.screen_start() <= row < step.placement.history_bottom
            - step.placement.covered_rows && step.placement.history_bottom - parts.len()
            <= row implies after.rows[row] == parts[parts.len() - step.placement.history_bottom
        + row] by {
        assert(screen.rows[row] == old_parts[old_parts.len() - placement.history_bottom + row]);
    }
}

/// A tail that can be replaced can still be replaced once covered rows have come out.
proof fn lemma_an_exposed_tail_is_replaceable(
    terminal: TerminalView,
    placement: PlacementView,
    previous: Seq<LineView>,
)
    requires
        placement.matches_viewport(terminal.viewport_area.y),
        placement.screen_start() <= terminal.viewport_area.y,
        crate::inline_append::tail_is_replaceable(terminal, placement, previous),
        crate::inline_append::expose_step(terminal, placement).completed,
    ensures
        ({
            let exposed = crate::inline_append::expose_step(terminal, placement);
            &&& crate::inline_append::tail_is_replaceable(
                exposed.terminal,
                exposed.placement,
                previous,
            )
            &&& exposed.placement.covered_rows == 0
            &&& exposed.placement.matches_viewport(terminal.viewport_area.y)
            &&& exposed.placement.history_bottom <= terminal.viewport_area.y
            &&& exposed.terminal.viewport_area == terminal.viewport_area
            &&& exposed.placement.retained_wrap_width == placement.retained_wrap_width
        }),
{
    let exposed = crate::inline_append::expose_step(terminal, placement);
    crate::inline_history::law_exposed_history_is_not_covered(placement, terminal.viewport_area.y);
    assert(exposed.placement.retained_lines == placement.retained_lines);
    assert(exposed.placement.screen_rows() <= placement.screen_rows());
}

/// What is left of a history after its tail was taken away belongs to the viewport still.
proof fn lemma_a_shortened_history_belongs_to_the_viewport(
    terminal: TerminalView,
    placement: PlacementView,
    previous: Seq<LineView>,
)
    requires
        placement.matches_viewport(terminal.viewport_area.y),
        placement.covered_rows == 0,
        placement.history_bottom <= terminal.viewport_area.y,
        crate::inline_append::tail_is_replaceable(terminal, placement, previous),
        crate::inline_append::remove_tail_step(terminal, placement, previous).completed,
    ensures
        ({
            let removed = crate::inline_append::remove_tail_step(terminal, placement, previous);
            &&& removed.placement.covered_rows == 0
            &&& removed.placement.matches_viewport(terminal.viewport_area.y)
            &&& removed.placement.history_bottom <= terminal.viewport_area.y
            &&& removed.placement.exposing_scroll(terminal.viewport_area.y) == 0
            &&& removed.terminal.viewport_area == terminal.viewport_area
            &&& removed.placement.retained_wrap_width == placement.retained_wrap_width
        }),
{
}

/// Operations that were asked for in two parts.
proof fn lemma_new_commands_join(before: TerminalView, between: TerminalView, after: TerminalView)
    requires
        before.commands.len() <= between.commands.len() <= after.commands.len(),
        between.commands.take(before.commands.len() as int) == before.commands,
        after.commands.take(between.commands.len() as int) == between.commands,
    ensures
        new_commands(before, after) == new_commands(before, between) + new_commands(
            between,
            after,
        ),
        after.commands.take(before.commands.len() as int) == before.commands,
{
    assert(new_commands(before, after) =~= new_commands(before, between) + new_commands(
        between,
        after,
    ));
    assert(after.commands.take(before.commands.len() as int) =~= between.commands.take(
        before.commands.len() as int,
    ));
}

/// A tail that is taken away and replaced shows the new lines behind what is left.
proof fn lemma_a_replaced_tail_shows(
    screen: ScreenView,
    terminal: TerminalView,
    placement: PlacementView,
    previous: Seq<LineView>,
    prepared: PreparedView,
)
    requires
        is_screen_of(screen, terminal),
        screen.shows(placement),
        placement.is_valid(),
        placement.matches_viewport(terminal.viewport_area.y),
        placement.covered_rows == 0,
        placement.history_bottom <= terminal.viewport_area.y,
        crate::inline_append::is_counted(prepared),
        prepared.row_count <= u16::MAX,
        crate::inline_append::tail_is_replaceable(terminal, placement, previous),
        ({
            let removed = crate::inline_append::remove_tail_step(terminal, placement, previous);
            &&& removed.completed
            &&& crate::inline_append::append_step(
                removed.terminal,
                removed.placement,
                prepared,
            ).completed
        }),
    ensures
        ({
            let removed = crate::inline_append::remove_tail_step(terminal, placement, previous);
            let step = crate::inline_append::append_step(
                removed.terminal,
                removed.placement,
                prepared,
            );
            let after = screen.after_all(
                new_commands(terminal, step.terminal),
                terminal.viewport_area.y as int,
            );
            &&& after.shows(step.placement)
            &&& is_screen_of(after, step.terminal)
            &&& terminal.commands.len() <= step.terminal.commands.len()
            &&& step.terminal.commands.take(terminal.commands.len() as int) == terminal.commands
        }),
{
    let top = terminal.viewport_area.y as int;
    let removed = crate::inline_append::remove_tail_step(terminal, placement, previous);
    lemma_a_shortened_history_belongs_to_the_viewport(terminal, placement, previous);
    law_a_removed_tail_leaves_the_rest_on_the_screen(screen, terminal, placement, previous);
    let first = new_commands(terminal, removed.terminal);
    let cleared = screen.after_all(first, top);
    let step = crate::inline_append::append_step(removed.terminal, removed.placement, prepared);
    let second = new_commands(removed.terminal, step.terminal);
    assert(removed.terminal.commands.take(terminal.commands.len() as int) =~= terminal.commands);
    assert(step.terminal.commands.take(removed.terminal.commands.len() as int)
        =~= removed.terminal.commands);
    lemma_new_commands_join(terminal, removed.terminal, step.terminal);
    lemma_after_all_join(screen, first, second, top);
    if prepared.row_count == 0 {
        assert(second =~= Seq::<CommandView>::empty());
    } else {
        law_appended_lines_show_behind_the_history(
            cleared,
            removed.terminal,
            removed.placement,
            prepared,
        );
    }
}

/// Replacing the end of the history shows the new lines in the place of the old ones.
pub proof fn law_a_replaced_tail_shows_on_the_screen(
    screen: ScreenView,
    terminal: TerminalView,
    placement: PlacementView,
    previous: Seq<LineView>,
    replacement: Seq<LineView>,
)
    requires
        is_screen_of(screen, terminal),
        screen.shows(placement),
        placement.is_valid(),
        placement.matches_viewport(terminal.viewport_area.y),
        placement.screen_start() <= terminal.viewport_area.y,
        placement.history_bottom <= screen.rows.len(),
        single_rows(placement.retained_lines, placement.source_width() as nat),
        crate::history_lines::total_rows(
            replacement,
            crate::history_lines::wrap_width_of(terminal.viewport_area.width) as nat,
        ) <= u16::MAX,
        crate::inline_append::tail_is_replaceable(terminal, placement, previous),
        crate::inline_append::replace_step(terminal, placement, previous, replacement).completed,
    ensures
        ({
            let step = crate::inline_append::replace_step(
                terminal,
                placement,
                previous,
                replacement,
            );
            let after = screen.after_all(
                new_commands(terminal, step.terminal),
                terminal.viewport_area.y as int,
            );
            &&& after.shows(step.placement)
            &&& is_screen_of(after, step.terminal)
        }),
{
    let top = terminal.viewport_area.y as int;
    let exposed = crate::inline_append::expose_step(terminal, placement);
    lemma_an_exposed_tail_is_replaceable(terminal, placement, previous);
    law_exposed_rows_show_the_history(screen, terminal, placement);
    let first = new_commands(terminal, exposed.terminal);
    let opened = screen.after_all(first, top);
    let prepared = crate::history_lines::prepared_lines(
        replacement,
        crate::history_lines::wrap_width_of(terminal.viewport_area.width),
    );
    let step = crate::inline_append::replace_step(terminal, placement, previous, replacement);
    lemma_a_replaced_tail_shows(
        opened,
        exposed.terminal,
        exposed.placement,
        previous,
        prepared,
    );
    let second = new_commands(exposed.terminal, step.terminal);
    assert(exposed.terminal.commands.take(terminal.commands.len() as int) =~= terminal.commands);
    lemma_new_commands_join(terminal, exposed.terminal, step.terminal);
    lemma_after_all_join(screen, first, second, top);
}

/// Holding a viewport to what the placement allows keeps the history on the screen.
proof fn lemma_limited_growth_keeps_the_history_on_the_screen(
    screen: ScreenView,
    terminal: TerminalView,
    placement: PlacementView,
    area: Rect,
    screen_size: Size,
    viewport_top: int,
)
    requires
        screen.shows(placement),
        placement.is_valid(),
        placement.matches_viewport(terminal.viewport_area.y),
        crate::windows_viewport::growth_step(terminal, placement, area, screen_size).completed,
    ensures
        ({
            let grown = crate::windows_viewport::growth_step(
                terminal,
                placement,
                area,
                screen_size,
            );
            let after = screen.after_all(new_commands(terminal, grown.terminal), viewport_top);
            &&& grown.placement matches Some(limited)
            &&& after.shows(limited)
            &&& after.rows.len() == screen.rows.len()
            &&& limited.is_valid()
            &&& limited.matches_viewport(terminal.viewport_area.y)
            &&& limited.history_bottom <= placement.history_bottom
            &&& limited.retained_lines == placement.retained_lines
            &&& limited.source_width() == placement.source_width()
            &&& grown.terminal.viewport_area == terminal.viewport_area
            &&& terminal.commands.len() <= grown.terminal.commands.len()
            &&& grown.terminal.commands.take(terminal.commands.len() as int) == terminal.commands
        }),
{
    let grown = crate::windows_viewport::growth_step(terminal, placement, area, screen_size);
    let limited = grown.placement->0;
    let commands = new_commands(terminal, grown.terminal);
    let after = screen.after_all(commands, viewport_top);
    assert(grown.terminal.commands.take(terminal.commands.len() as int) =~= terminal.commands);
    if grown.terminal.commands == terminal.commands {
        assert(commands =~= Seq::<CommandView>::empty());
    } else {
        let missing = (area.height - crate::windows_viewport::safe_height(
            placement,
            screen_size,
        )) as u16;
        assert(commands =~= crate::windows_viewport::growth_commands(missing, screen_size));
        reveal_with_fuel(ScreenView::after_all, 3);
        assert(commands.drop_first()[0] == commands[1]);
        assert(after == screen.after(commands[0], viewport_top).after(commands[1], viewport_top));
        assert(limited.screen_start() == limited.history_bottom);
    }
}

/// Settling a viewport only asks for more.
proof fn lemma_settling_only_adds_commands(
    terminal: TerminalView,
    placement: PlacementView,
    area: Rect,
)
    requires
        crate::windows_viewport::settle_step(terminal, Some(placement), area).completed,
    ensures
        ({
            let step = crate::windows_viewport::settle_step(terminal, Some(placement), area);
            &&& terminal.commands.len() <= step.terminal.commands.len()
            &&& step.terminal.commands.take(terminal.commands.len() as int) == terminal.commands
            &&& step.terminal.viewport_area.y == area.y
        }),
{
    let step = crate::windows_viewport::settle_step(terminal, Some(placement), area);
    assert(step.terminal.commands.take(terminal.commands.len() as int) =~= terminal.commands);
}

/// A viewport that gets another number of rows keeps the visible part of its history on the screen.
pub proof fn law_a_resize_keeps_the_history_on_the_screen(
    screen: ScreenView,
    terminal: TerminalView,
    placement: PlacementView,
    height: u16,
)
    requires
        screen.rows.len() == terminal.screen_size.height,
        terminal.last_known_screen_size == terminal.screen_size,
        terminal.viewport_area.height > 0,
        screen.shows(placement),
        placement.is_valid(),
        placement.matches_viewport(terminal.viewport_area.y),
        placement.history_bottom <= screen.rows.len(),
        single_rows(placement.retained_lines, placement.source_width() as nat),
        (WindowsViewportView { placement: Some(placement) }).update_step(
            terminal,
            height,
            terminal.screen_size,
        ).completed,
    ensures
        ({
            let step = (WindowsViewportView { placement: Some(placement) }).update_step(
                terminal,
                height,
                terminal.screen_size,
            );
            let after = screen.after_all(
                new_commands(terminal, step.terminal),
                step.terminal.viewport_area.y as int,
            );
            &&& step.state.placement matches Some(resized)
            &&& after.shows(resized)
            &&& after.rows.len() == screen.rows.len()
        }),
{
    let state = WindowsViewportView { placement: Some(placement) };
    let screen_size = terminal.screen_size;
    let requested = crate::windows_viewport::requested_area(terminal, height, screen_size);
    crate::terminal::lemma_sent_nothing(terminal);
    let grown = crate::windows_viewport::growth_step(terminal, placement, requested, screen_size);
    assert(state.resize_step(terminal, height, screen_size) == grown);
    let step = crate::windows_viewport::settle_step(grown.terminal, grown.placement, grown.area);
    assert(state.update_step(terminal, height, screen_size) == step);
    let top = grown.area.y as int;
    let limited = grown.placement->0;
    lemma_limited_growth_keeps_the_history_on_the_screen(
        screen,
        terminal,
        placement,
        requested,
        screen_size,
        top,
    );
    lemma_settling_only_adds_commands(grown.terminal, limited, grown.area);
    let first = new_commands(terminal, grown.terminal);
    let second = new_commands(grown.terminal, step.terminal);
    law_a_moved_viewport_keeps_the_history_on_the_screen(
        screen.after_all(first, top),
        grown.terminal,
        limited,
        grown.area,
    );
    lemma_new_commands_join(terminal, grown.terminal, step.terminal);
    lemma_after_all_join(screen, first, second, top);
}

} // verus!
