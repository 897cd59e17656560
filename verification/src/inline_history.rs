//! Placement geometry for history appended above an inline terminal viewport.

use vstd::prelude::*;

use crate::content::Content;
use crate::geometry::Position;
use crate::history_lines::{history_row_count, physical_row_count, HyperlinkLine, LineView};
use crate::history_painting::paint_history_lines;
use crate::terminal::{CommandView, Terminal, TerminalCommand, TerminalError, TerminalView};

verus! {

/// Tracks the visible history boundary used by placement-aware appends.
///
/// History ends above `history_bottom`. The viewport may cover its last rows; the rows above those
/// are visible. While placement tracking is active, `visible_rows` is authoritative. The terminal
/// keeps a synchronized copy only to support generic history insertion and to seed a future
/// placement after tracking is reset.
///
/// The newest lines are kept in `retained_lines`, as they were wrapped for `retained_wrap_width`
/// columns, so that rows which the viewport has covered can be written again.
#[derive(Clone, Debug, PartialEq, Eq)]
pub struct InlineHistoryPlacement {
    pub history_bottom: u16,
    pub visible_rows: u16,
    pub covered_rows: u16,
    pub viewport_growth_start: u16,
    pub retained_lines: Vec<HyperlinkLine>,
    pub retained_wrap_width: Option<usize>,
}

#[verifier::ext_equal]
pub struct PlacementView {
    pub history_bottom: u16,
    pub visible_rows: u16,
    pub covered_rows: u16,
    pub viewport_growth_start: u16,
    pub retained_lines: Seq<LineView>,
    pub retained_wrap_width: Option<usize>,
}

impl View for InlineHistoryPlacement {
    type V = PlacementView;

    open spec fn view(&self) -> PlacementView {
        PlacementView {
            history_bottom: self.history_bottom,
            visible_rows: self.visible_rows,
            covered_rows: self.covered_rows,
            viewport_growth_start: self.viewport_growth_start,
            retained_lines: self.retained_lines.deep_view(),
            retained_wrap_width: self.retained_wrap_width,
        }
    }
}

impl DeepView for InlineHistoryPlacement {
    type V = PlacementView;

    open spec fn deep_view(&self) -> PlacementView {
        self@
    }
}

/// How many whole lines at the end of `lines` fit into `rows` rows.
pub open spec fn lines_within(lines: Seq<LineView>, wrap_width: nat, rows: nat) -> nat
    decreases lines.len(),
{
    if lines.len() == 0 || crate::history_lines::line_rows(lines.last(), wrap_width) > rows {
        0
    } else {
        1 + lines_within(
            lines.drop_last(),
            wrap_width,
            (rows - crate::history_lines::line_rows(lines.last(), wrap_width)) as nat,
        )
    }
}

/// How many lines at the end of `lines` reach into the last `rows` rows of them.
pub open spec fn lines_touching(lines: Seq<LineView>, wrap_width: nat, rows: nat) -> nat
    decreases lines.len(),
{
    if lines.len() == 0 || rows == 0 {
        0
    } else {
        1 + lines_touching(
            lines.drop_last(),
            wrap_width,
            crate::numbers::greatest(
                rows - crate::history_lines::line_rows(lines.last(), wrap_width),
                0,
            ) as nat,
        )
    }
}

/// A history without retained lines.
pub open spec fn fresh_placement(history_bottom: u16, visible_rows: u16) -> PlacementView {
    PlacementView {
        history_bottom,
        visible_rows,
        covered_rows: 0,
        viewport_growth_start: crate::geometry::rows_left(
            history_bottom as int,
            visible_rows as int,
        ),
        retained_lines: Seq::empty(),
        retained_wrap_width: None,
    }
}

impl PlacementView {
    /// The rows of history on the screen, be they visible or covered.
    pub open spec fn screen_rows(self) -> u16 {
        crate::geometry::rows_joined(self.visible_rows as int, self.covered_rows as int)
    }

    /// The first row of history on the screen.
    pub open spec fn screen_start(self) -> u16 {
        crate::geometry::rows_left(self.history_bottom as int, self.screen_rows() as int)
    }

    /// Retained lines are wrapped for at least one column.
    pub open spec fn is_valid(self) -> bool {
        self.source_width() > 0
    }

    /// Whether the rows of history lie on the screen.
    pub open spec fn is_on_screen(self) -> bool {
        self.visible_rows + self.covered_rows <= self.history_bottom
    }

    /// Whether the viewport at `viewport_top` covers exactly the rows that count as covered.
    pub open spec fn matches_viewport(self, viewport_top: u16) -> bool {
        &&& self.is_on_screen()
        &&& self == self.for_viewport(viewport_top)
    }

    pub open spec fn with_growth_to(self, row: u16) -> Self {
        PlacementView {
            viewport_growth_start: crate::geometry::lower_row(
                self.viewport_growth_start as int,
                row as int,
            ),
            ..self
        }
    }

    /// The whole screen was scrolled up. Rows of history that had no room above them are gone, the
    /// oldest first.
    pub open spec fn scrolled(self, rows: u16) -> Self {
        let lost = crate::geometry::lower_row(
            crate::geometry::rows_left(rows as int, self.screen_start() as int) as int,
            self.screen_rows() as int,
        );
        PlacementView {
            history_bottom: crate::geometry::rows_left(self.history_bottom as int, rows as int),
            visible_rows: crate::geometry::rows_left(self.visible_rows as int, lost as int),
            covered_rows: crate::geometry::rows_left(
                self.covered_rows as int,
                crate::geometry::rows_left(lost as int, self.visible_rows as int) as int,
            ),
            viewport_growth_start: crate::geometry::rows_left(
                self.viewport_growth_start as int,
                rows as int,
            ),
            ..self
        }
    }

    /// The viewport starts at `viewport_top`, and covers what history there is from that row on.
    pub open spec fn for_viewport(self, viewport_top: u16) -> Self {
        let covered = crate::geometry::lower_row(
            crate::geometry::rows_left(self.history_bottom as int, viewport_top as int) as int,
            self.screen_rows() as int,
        );
        PlacementView {
            covered_rows: covered,
            visible_rows: (self.screen_rows() - covered) as u16,
            ..self
        }
    }

    /// Lines are retained behind those that were wrapped for the same width. Lines of another
    /// width are let go.
    pub open spec fn with_source(self, lines: Seq<LineView>, wrap_width: usize) -> Self {
        PlacementView {
            retained_lines: if self.retained_wrap_width == Some(wrap_width) {
                self.retained_lines + lines
            } else {
                lines
            },
            retained_wrap_width: Some(wrap_width),
            ..self
        }
    }

    /// Lines were written into the gap below the history.
    pub open spec fn gap_appended(
        self,
        appended_rows: u16,
        lines: Seq<LineView>,
        wrap_width: usize,
    ) -> Self {
        let bottom = crate::geometry::rows_joined(
            self.history_bottom as int,
            appended_rows as int,
        );
        PlacementView {
            history_bottom: bottom,
            visible_rows: crate::geometry::lower_row(
                self.visible_rows + appended_rows,
                bottom as int,
            ),
            ..self.with_source(lines, wrap_width)
        }
    }

    /// Lines were put above the viewport, and older rows were scrolled away for them.
    pub open spec fn scrolling_appended(
        self,
        viewport_top: u16,
        appended_rows: u16,
        lines: Seq<LineView>,
        wrap_width: usize,
    ) -> Self {
        let visible = crate::geometry::lower_row(
            self.visible_rows + appended_rows,
            viewport_top as int,
        );
        PlacementView {
            history_bottom: viewport_top,
            visible_rows: visible,
            viewport_growth_start: (viewport_top - visible) as u16,
            ..self.with_source(lines, wrap_width)
        }
    }

    /// How far the screen has to be scrolled until the viewport covers nothing.
    pub open spec fn exposing_scroll(self, viewport_top: u16) -> u16 {
        crate::geometry::lower_row(
            crate::geometry::rows_left(self.history_bottom as int, viewport_top as int) as int,
            self.covered_rows as int,
        )
    }

    /// The screen was scrolled until the viewport covers nothing.
    pub open spec fn exposed(self, viewport_top: u16) -> Self {
        self.scrolled(self.exposing_scroll(viewport_top)).for_viewport(viewport_top)
    }

    /// The last `lines` retained lines were taken away, with their `rows` rows.
    pub open spec fn tail_removed(self, lines: nat, rows: u16) -> Self {
        PlacementView {
            history_bottom: crate::geometry::rows_left(self.history_bottom as int, rows as int),
            visible_rows: crate::geometry::rows_left(self.visible_rows as int, rows as int),
            retained_lines: self.retained_lines.take(
                crate::numbers::greatest(self.retained_lines.len() - lines, 0),
            ),
            ..self
        }
    }

    /// The width of the retained lines.
    pub open spec fn source_width(self) -> usize {
        match self.retained_wrap_width {
            Some(wrap_width) => wrap_width,
            None => 1,
        }
    }

    /// Whether the retained lines are wrapped for a width and fill every row of history on the
    /// screen.
    pub open spec fn has_complete_source(self, wrap_width: usize) -> bool {
        &&& self.retained_wrap_width == Some(wrap_width)
        &&& crate::history_lines::total_rows(self.retained_lines, wrap_width as nat)
            >= self.screen_rows()
    }

    /// Whether the retained lines end in `lines`.
    pub open spec fn ends_in(self, lines: Seq<LineView>) -> bool {
        &&& lines.len() <= self.retained_lines.len()
        &&& self.retained_lines.skip(self.retained_lines.len() - lines.len()) == lines
    }

    /// How many of the retained lines lie on the screen in full.
    pub open spec fn lines_on_screen(self) -> nat {
        lines_within(
            self.retained_lines,
            self.source_width() as nat,
            (self.history_bottom - self.screen_start()) as nat,
        )
    }

    /// How many of the retained lines stay covered while `covered_rows` of the covered rows are
    /// shown.
    pub open spec fn lines_under_cover(self, covered_rows: u16) -> nat {
        lines_touching(
            self.retained_lines,
            self.source_width() as nat,
            crate::geometry::rows_left(self.covered_rows as int, covered_rows as int) as nat,
        )
    }

    /// The retained lines to write again while `covered_rows` of the covered rows are shown.
    pub open spec fn lines_to_repaint(self, covered_rows: u16) -> Seq<LineView> {
        let first = self.retained_lines.len() - self.lines_on_screen();
        let end = self.retained_lines.len() - self.lines_under_cover(covered_rows);
        self.retained_lines.subrange(first, crate::numbers::greatest(first, end))
    }

    /// Where writing starts.
    pub open spec fn repaint_start(self) -> u16 {
        (self.history_bottom - crate::history_lines::total_rows(
            self.retained_lines.skip(self.retained_lines.len() - self.lines_on_screen()),
            self.source_width() as nat,
        )) as u16
    }

    /// What writes the retained lines again while `covered_rows` of the covered rows are shown.
    pub open spec fn repaint_commands(self, covered_rows: u16, cursor: Position) -> Seq<
        CommandView,
    > {
        crate::history_painting::paint_commands(
            self.lines_to_repaint(covered_rows),
            self.source_width(),
            self.repaint_start(),
            cursor,
        )
    }
}

/// The last row of the screen.
pub open spec fn last_row(terminal: TerminalView) -> Position {
    Position { x: 0, y: crate::geometry::rows_left(terminal.screen_size.height as int, 1) }
}

/// What scrolls the whole screen: every row of history on it is written first, so that none is
/// lost.
pub open spec fn scroll_commands(
    terminal: TerminalView,
    placement: PlacementView,
    rows: u16,
) -> Seq<CommandView> {
    placement.repaint_commands(placement.covered_rows, terminal.last_known_cursor_pos) + seq![
        CommandView::QuerySize,
        CommandView::MoveTo(last_row(terminal)),
        CommandView::AppendLines(rows),
    ]
}

/// The lines within some rows are lines, take no more than those rows, and leave no room for
/// another.
pub proof fn lemma_lines_within(lines: Seq<LineView>, wrap_width: nat, rows: nat)
    ensures
        lines_within(lines, wrap_width, rows) <= lines.len(),
        crate::history_lines::total_rows(
            lines.skip(lines.len() - lines_within(lines, wrap_width, rows)),
            wrap_width,
        ) <= rows,
    decreases lines.len(),
{
    let count = lines_within(lines, wrap_width, rows);
    if lines.len() == 0 || crate::history_lines::line_rows(lines.last(), wrap_width) > rows {
        assert(lines.skip(lines.len() as int) =~= Seq::<LineView>::empty());
    } else {
        let used = crate::history_lines::line_rows(lines.last(), wrap_width);
        let older = lines.drop_last();
        lemma_lines_within(older, wrap_width, (rows - used) as nat);
        let tail = older.skip(older.len() - (count - 1));
        assert(lines.skip(lines.len() - count) =~= tail + seq![lines.last()]);
        crate::history_lines::lemma_total_rows_join(tail, seq![lines.last()], wrap_width);
        lemma_rows_of_one_line(lines.last(), wrap_width);
    }
}

/// A line alone takes its own rows.
pub proof fn lemma_rows_of_one_line(line: LineView, wrap_width: nat)
    ensures
        crate::history_lines::total_rows(seq![line], wrap_width) == crate::history_lines::line_rows(
            line,
            wrap_width,
        ),
{
    reveal_with_fuel(crate::numbers::sum, 2);
    let count = |line: LineView| crate::history_lines::line_rows(line, wrap_width);
    assert(seq![line].map_values(count) =~= seq![crate::history_lines::line_rows(line, wrap_width)]);
}

/// The lines that reach into some rows take at least those rows, unless there are no more lines.
pub proof fn lemma_rows_of_lines_touching(lines: Seq<LineView>, wrap_width: nat, rows: nat)
    ensures
        ({
            let count = lines_touching(lines, wrap_width, rows);
            &&& count <= lines.len()
            &&& count == lines.len() || crate::history_lines::total_rows(
                lines.skip(lines.len() - count),
                wrap_width,
            ) >= rows
        }),
    decreases lines.len(),
{
    let count = lines_touching(lines, wrap_width, rows);
    if lines.len() > 0 && rows > 0 {
        let used = crate::history_lines::line_rows(lines.last(), wrap_width);
        let older = lines.drop_last();
        lemma_rows_of_lines_touching(
            older,
            wrap_width,
            crate::numbers::greatest(rows - used, 0) as nat,
        );
        let tail = older.skip(older.len() - (count - 1));
        assert(lines.skip(lines.len() - count) =~= tail + seq![lines.last()]);
        crate::history_lines::lemma_total_rows_join(tail, seq![lines.last()], wrap_width);
        lemma_rows_of_one_line(lines.last(), wrap_width);
    }
}

/// Covering rows and uncovering them again changes nothing: the viewport alone decides which rows
/// are covered, and none of them is lost.
pub proof fn law_covered_history_is_restored(
    placement: PlacementView,
    viewport_top: u16,
    other_top: u16,
)
    requires
        placement.matches_viewport(viewport_top),
    ensures
        placement.for_viewport(other_top).screen_rows() == placement.screen_rows(),
        placement.for_viewport(other_top).matches_viewport(other_top),
        placement.for_viewport(other_top).for_viewport(viewport_top) == placement,
{
}

/// The rows that count as visible end above the viewport.
pub proof fn law_visible_history_ends_above_the_viewport(
    placement: PlacementView,
    viewport_top: u16,
)
    requires
        placement.matches_viewport(viewport_top),
        placement.visible_rows > 0,
    ensures
        placement.screen_start() + placement.visible_rows <= viewport_top,
{
}

/// A scroll takes rows of history from the screen only where they have no room above them, and
/// then the oldest ones.
pub proof fn law_a_scroll_keeps_the_rows_that_have_room(placement: PlacementView, rows: u16)
    requires
        placement.is_on_screen(),
    ensures
        placement.scrolled(rows).is_on_screen(),
        rows <= placement.screen_start() ==> {
            &&& placement.scrolled(rows).visible_rows == placement.visible_rows
            &&& placement.scrolled(rows).covered_rows == placement.covered_rows
            &&& placement.scrolled(rows).screen_start() == placement.screen_start() - rows
        },
        rows > placement.screen_start() ==> {
            &&& placement.scrolled(rows).screen_start() == 0
            &&& placement.scrolled(rows).screen_rows() == crate::geometry::rows_left(
                placement.history_bottom as int,
                rows as int,
            )
        },
{
}

/// Scrolling in two parts is scrolling once.
pub proof fn law_scrolls_add_up(placement: PlacementView, first: u16, second: u16)
    requires
        placement.is_on_screen(),
        first + second <= u16::MAX,
    ensures
        placement.scrolled(first).scrolled(second) == placement.scrolled((first + second) as u16),
{
}

/// Exposing leaves nothing covered.
pub proof fn law_exposed_history_is_not_covered(placement: PlacementView, viewport_top: u16)
    requires
        placement.matches_viewport(viewport_top),
        placement.screen_start() <= viewport_top,
    ensures
        placement.exposed(viewport_top).covered_rows == 0,
        placement.exposed(viewport_top).matches_viewport(viewport_top),
        placement.exposed(viewport_top).history_bottom <= viewport_top,
{
}

/// Writing the retained lines again stays between the first row of history on the screen and the
/// rows that are to stay covered.
pub proof fn law_repainting_stays_within_the_rows_shown(placement: PlacementView, covered_rows: u16)
    requires
        placement.is_valid(),
        placement.is_on_screen(),
        covered_rows <= placement.covered_rows,
    ensures
        placement.screen_start() <= placement.repaint_start() <= placement.history_bottom,
        crate::history_painting::painted_above(
            placement.lines_to_repaint(covered_rows),
            placement.source_width(),
            placement.repaint_start(),
            (placement.history_bottom - placement.covered_rows + covered_rows) as u16,
        ),
{
    let lines = placement.retained_lines;
    let width = placement.source_width() as nat;
    let hidden = (placement.covered_rows - covered_rows) as nat;
    let on_screen = placement.lines_on_screen();
    let under_cover = placement.lines_under_cover(covered_rows);
    lemma_lines_within(
        lines,
        width,
        (placement.history_bottom - placement.screen_start()) as nat,
    );
    lemma_rows_of_lines_touching(lines, width, hidden);
    let shown = placement.lines_to_repaint(covered_rows);
    if under_cover < on_screen {
        let tail = lines.skip(lines.len() - on_screen);
        let covered = lines.skip(lines.len() - under_cover);
        assert(tail =~= shown + covered);
        crate::history_lines::lemma_total_rows_join(shown, covered, width);
        crate::history_painting::lemma_painted_above(
            shown,
            placement.source_width(),
            placement.repaint_start(),
            (placement.history_bottom - hidden) as u16,
        );
    } else {
        assert(shown =~= Seq::<LineView>::empty());
    }
}

/// Writing the visible lines again stays above the viewport.
pub proof fn law_repainting_the_tail_stays_above_the_viewport(
    placement: PlacementView,
    viewport_top: u16,
)
    requires
        placement.is_valid(),
        placement.matches_viewport(viewport_top),
    ensures
        crate::history_painting::painted_above(
            placement.lines_to_repaint(0),
            placement.source_width(),
            placement.repaint_start(),
            viewport_top,
        ),
{
    law_repainting_stays_within_the_rows_shown(placement, 0);
    let limit = (placement.history_bottom - placement.covered_rows) as u16;
    let lines = placement.lines_to_repaint(0);
    if limit > viewport_top {
        let first = lines[0];
        if lines.len() > 0 {
            crate::history_lines::lemma_line_has_a_row(first, placement.source_width() as nat);
        }
        assert(limit == placement.screen_start());
    } else {
        crate::history_painting::lemma_painted_above_a_lower_limit(
            lines,
            placement.source_width(),
            placement.repaint_start(),
            limit,
            viewport_top,
        );
    }
}

/// As many whole lines as fit into some rows are counted from the end: these fit, and with the next
/// older one they would not.
pub proof fn law_as_many_whole_lines_are_shown_as_fit(
    lines: Seq<LineView>,
    wrap_width: nat,
    rows: nat,
)
    ensures
        ({
            let count = lines_within(lines, wrap_width, rows);
            &&& count <= lines.len()
            &&& crate::history_lines::total_rows(lines.skip(lines.len() - count), wrap_width) <= rows
            &&& count < lines.len() ==> crate::history_lines::total_rows(
                lines.skip(lines.len() - count - 1),
                wrap_width,
            ) > rows
        }),
    decreases lines.len(),
{
    let count = lines_within(lines, wrap_width, rows);
    lemma_lines_within(lines, wrap_width, rows);
    if count < lines.len() {
        if crate::history_lines::line_rows(lines.last(), wrap_width) > rows {
            assert(lines.skip(lines.len() - 1) =~= seq![lines.last()]);
            lemma_rows_of_one_line(lines.last(), wrap_width);
        } else {
            let used = crate::history_lines::line_rows(lines.last(), wrap_width);
            let older = lines.drop_last();
            law_as_many_whole_lines_are_shown_as_fit(older, wrap_width, (rows - used) as nat);
            let tail = older.skip(older.len() - (count - 1) - 1);
            assert(lines.skip(lines.len() - count - 1) =~= tail + seq![lines.last()]);
            crate::history_lines::lemma_total_rows_join(tail, seq![lines.last()], wrap_width);
            lemma_rows_of_one_line(lines.last(), wrap_width);
        }
    }
}

/// Just the lines that reach into the last rows are counted from the end: they take those rows unless
/// there are no more lines, and without the oldest of them they would not.
pub proof fn law_just_the_lines_that_reach_into_the_rows_stay_covered(
    lines: Seq<LineView>,
    wrap_width: nat,
    rows: nat,
)
    ensures
        ({
            let count = lines_touching(lines, wrap_width, rows);
            &&& count <= lines.len()
            &&& count == lines.len() || crate::history_lines::total_rows(
                lines.skip(lines.len() - count),
                wrap_width,
            ) >= rows
            &&& count > 0 ==> crate::history_lines::total_rows(
                lines.skip(lines.len() - count + 1),
                wrap_width,
            ) < rows
        }),
    decreases lines.len(),
{
    let count = lines_touching(lines, wrap_width, rows);
    lemma_rows_of_lines_touching(lines, wrap_width, rows);
    if count > 0 {
        let used = crate::history_lines::line_rows(lines.last(), wrap_width);
        let older = lines.drop_last();
        let left = crate::numbers::greatest(rows - used, 0) as nat;
        law_just_the_lines_that_reach_into_the_rows_stay_covered(older, wrap_width, left);
        if count == 1 {
            assert(lines.skip(lines.len() as int) =~= Seq::<LineView>::empty());
            assert(crate::history_lines::total_rows(
                Seq::<LineView>::empty(),
                wrap_width,
            ) == 0) by {
                crate::history_lines::law_lines_take_the_rows_of_each(
                    Seq::empty(),
                    lines.last(),
                    wrap_width,
                );
            }
        } else {
            let tail = older.skip(older.len() - (count - 1) + 1);
            assert(lines.skip(lines.len() - count + 1) =~= tail + seq![lines.last()]);
            crate::history_lines::lemma_total_rows_join(tail, seq![lines.last()], wrap_width);
            lemma_rows_of_one_line(lines.last(), wrap_width);
        }
    }
}

/// What is written again are neighbouring retained lines: those that lie on the screen in full, up to
/// the first that reaches into the rows that are to stay covered. They are written so that the last
/// line on the screen ends where the history does.
pub proof fn law_the_lines_on_the_screen_are_written_again(
    placement: PlacementView,
    covered_rows: u16,
)
    requires
        placement.is_valid(),
        placement.is_on_screen(),
        covered_rows <= placement.covered_rows,
    ensures
        ({
            let lines = placement.retained_lines;
            let width = placement.source_width() as nat;
            let on_screen = placement.lines_on_screen() as int;
            let hidden = placement.lines_under_cover(covered_rows) as int;
            let rows = placement.visible_rows + placement.covered_rows;
            let rows_hidden = placement.covered_rows - covered_rows;
            &&& 0 <= on_screen <= lines.len()
            &&& 0 <= hidden <= lines.len()
            &&& crate::history_lines::total_rows(lines.skip(lines.len() - on_screen), width) <= rows
            &&& on_screen < lines.len() ==> crate::history_lines::total_rows(
                lines.skip(lines.len() - on_screen - 1),
                width,
            ) > rows
            &&& hidden < lines.len() ==> crate::history_lines::total_rows(
                lines.skip(lines.len() - hidden),
                width,
            ) >= rows_hidden
            &&& hidden > 0 ==> crate::history_lines::total_rows(
                lines.skip(lines.len() - hidden + 1),
                width,
            ) < rows_hidden
            &&& hidden <= on_screen ==> placement.lines_to_repaint(covered_rows) == lines.subrange(
                lines.len() - on_screen,
                lines.len() - hidden,
            )
            &&& hidden > on_screen ==> placement.lines_to_repaint(covered_rows).len() == 0
            &&& placement.repaint_start() + crate::history_lines::total_rows(
                lines.skip(lines.len() - on_screen),
                width,
            ) == placement.history_bottom
        }),
{
    let lines = placement.retained_lines;
    let width = placement.source_width() as nat;
    law_as_many_whole_lines_are_shown_as_fit(
        lines,
        width,
        (placement.history_bottom - placement.screen_start()) as nat,
    );
    law_just_the_lines_that_reach_into_the_rows_stay_covered(
        lines,
        width,
        (placement.covered_rows - covered_rows) as nat,
    );
}

/// A scroll moves the whole placement up by its rows, as far as the screen goes. Rows of history that
/// leave the screen are visible ones as long as there are any, and no line is forgotten.
pub proof fn law_a_scroll_moves_the_whole_placement(placement: PlacementView, rows: u16)
    requires
        placement.is_on_screen(),
    ensures
        ({
            let scrolled = placement.scrolled(rows);
            &&& rows <= placement.history_bottom ==> scrolled.history_bottom + rows
                == placement.history_bottom
            &&& rows > placement.history_bottom ==> scrolled.history_bottom == 0
            &&& rows <= placement.viewport_growth_start ==> scrolled.viewport_growth_start + rows
                == placement.viewport_growth_start
            &&& rows > placement.viewport_growth_start ==> scrolled.viewport_growth_start == 0
            &&& scrolled.visible_rows > 0 ==> scrolled.covered_rows == placement.covered_rows
            &&& scrolled.visible_rows <= placement.visible_rows
            &&& scrolled.covered_rows <= placement.covered_rows
            &&& scrolled.retained_lines == placement.retained_lines
            &&& scrolled.retained_wrap_width == placement.retained_wrap_width
        }),
{
}

/// The viewport covers just the rows of history that lie under it: those that count as covered start
/// at its first row or below it, and those that count as visible end above it. No row of history
/// comes or goes, and no line is forgotten.
pub proof fn law_just_the_rows_under_the_viewport_are_covered(
    placement: PlacementView,
    viewport_top: u16,
)
    requires
        placement.is_on_screen(),
    ensures
        ({
            let followed = placement.for_viewport(viewport_top);
            &&& followed.visible_rows + followed.covered_rows == placement.visible_rows
                + placement.covered_rows
            &&& followed.covered_rows > 0 ==> followed.history_bottom - followed.covered_rows
                >= viewport_top
            &&& followed.visible_rows > 0 ==> followed.history_bottom - followed.covered_rows
                <= viewport_top
            &&& followed.history_bottom == placement.history_bottom
            &&& followed.viewport_growth_start == placement.viewport_growth_start
            &&& followed.retained_lines == placement.retained_lines
            &&& followed.retained_wrap_width == placement.retained_wrap_width
        }),
{
}

/// Covered history comes out with the least scroll that brings it out: it then ends at the viewport.
/// Nothing covered is nothing to scroll.
pub proof fn law_exposing_scrolls_no_more_than_it_has_to(placement: PlacementView, viewport_top: u16)
    requires
        placement.matches_viewport(viewport_top),
        placement.screen_start() <= viewport_top,
    ensures
        placement.covered_rows == 0 ==> placement.exposing_scroll(viewport_top) == 0,
        placement.covered_rows > 0 ==> placement.history_bottom - placement.exposing_scroll(
            viewport_top,
        ) == viewport_top,
{
}

/// A fresh placement has its visible rows directly above where the history ends, nothing covered and
/// nothing retained, and lets the viewport grow over no row of history. Letting it grow further never
/// takes back what it was allowed before.
pub proof fn law_a_fresh_placement_protects_its_history(
    history_bottom: u16,
    visible_rows: u16,
    row: u16,
)
    requires
        visible_rows <= history_bottom,
    ensures
        ({
            let placement = fresh_placement(history_bottom, visible_rows);
            &&& placement.history_bottom == history_bottom
            &&& placement.visible_rows == visible_rows
            &&& placement.covered_rows == 0
            &&& placement.viewport_growth_start + visible_rows == history_bottom
            &&& placement.retained_lines.len() == 0
            &&& placement.retained_wrap_width is None
            &&& placement.with_growth_to(row).viewport_growth_start <= row
            &&& placement.with_growth_to(row).viewport_growth_start
                <= placement.viewport_growth_start
            &&& placement.with_growth_to(row).viewport_growth_start == row
                || placement.with_growth_to(row).viewport_growth_start
                == placement.viewport_growth_start
            &&& placement.with_growth_to(row).history_bottom == history_bottom
            &&& placement.with_growth_to(row).visible_rows == visible_rows
        }),
{
}

/// Lines appended into the gap lengthen the history by their rows; lines that scroll older ones away
/// leave it to end at the viewport, with as many rows of it visible as there are above the viewport
/// at most, and let the viewport grow over none of them.
pub proof fn law_an_append_is_recorded_with_its_rows(
    placement: PlacementView,
    viewport_top: u16,
    rows: u16,
    lines: Seq<LineView>,
    wrap_width: usize,
)
    requires
        placement.is_on_screen(),
        placement.covered_rows == 0,
        placement.history_bottom + rows <= u16::MAX,
    ensures
        ({
            let filled = placement.gap_appended(rows, lines, wrap_width);
            &&& filled.history_bottom == placement.history_bottom + rows
            &&& filled.visible_rows == placement.visible_rows + rows
            &&& filled.covered_rows == 0
            &&& filled.viewport_growth_start == placement.viewport_growth_start
            &&& filled.retained_wrap_width == Some(wrap_width)
        }),
        ({
            let scrolled = placement.scrolling_appended(viewport_top, rows, lines, wrap_width);
            &&& scrolled.history_bottom == viewport_top
            &&& placement.visible_rows + rows <= viewport_top ==> scrolled.visible_rows
                == placement.visible_rows + rows
            &&& placement.visible_rows + rows > viewport_top ==> scrolled.visible_rows
                == viewport_top
            &&& scrolled.viewport_growth_start + scrolled.visible_rows == viewport_top
            &&& scrolled.covered_rows == 0
            &&& scrolled.retained_wrap_width == Some(wrap_width)
        }),
        placement.retained_wrap_width == Some(wrap_width) ==> placement.with_source(
            lines,
            wrap_width,
        ).retained_lines == placement.retained_lines + lines,
        placement.retained_wrap_width != Some(wrap_width) ==> placement.with_source(
            lines,
            wrap_width,
        ).retained_lines == lines,
{
}

/// Taking lines away takes just the last ones, and the rows that they took from the end of the history.
pub proof fn law_removing_a_tail_takes_just_its_lines_and_rows(
    placement: PlacementView,
    lines: nat,
    rows: u16,
)
    requires
        lines <= placement.retained_lines.len(),
        rows <= placement.visible_rows,
        placement.visible_rows <= placement.history_bottom,
    ensures
        ({
            let removed = placement.tail_removed(lines, rows);
            &&& removed.history_bottom + rows == placement.history_bottom
            &&& removed.visible_rows + rows == placement.visible_rows
            &&& removed.covered_rows == placement.covered_rows
            &&& removed.viewport_growth_start == placement.viewport_growth_start
            &&& removed.retained_lines == placement.retained_lines.take(
                placement.retained_lines.len() - lines,
            )
            &&& removed.retained_wrap_width == placement.retained_wrap_width
        }),
{
}

/// How many whole lines at the end of `lines` fit into `rows` rows, and the rows that they leave.
fn count_lines_within(lines: &Vec<HyperlinkLine>, wrap_width: usize, rows: u16) -> (counted: (
    usize,
    u16,
))
    requires
        wrap_width > 0,
    ensures
        counted.0 == lines_within(lines.deep_view(), wrap_width as nat, rows as nat),
        counted.0 <= lines.len(),
        counted.1 + crate::history_lines::total_rows(
            lines.deep_view().skip(lines.len() - counted.0),
            wrap_width as nat,
        ) == rows,
{
    let ghost all = lines.deep_view();
    let mut count: usize = 0;
    let mut left: u16 = rows;
    assert(all.take(all.len() as int) =~= all);
    assert(all.skip(all.len() as int) =~= Seq::<LineView>::empty());
    while count < lines.len()
        invariant_except_break
            wrap_width > 0,
            all == lines.deep_view(),
            count <= lines.len(),
            count + lines_within(all.take(all.len() - count), wrap_width as nat, left as nat)
                == lines_within(all, wrap_width as nat, rows as nat),
            left + crate::history_lines::total_rows(
                all.skip(all.len() - count),
                wrap_width as nat,
            ) == rows,
        ensures
            count <= lines.len(),
            count == lines_within(all, wrap_width as nat, rows as nat),
            left + crate::history_lines::total_rows(
                all.skip(all.len() - count),
                wrap_width as nat,
            ) == rows,
        decreases lines.len() - count,
    {
        let ghost rest = all.take(all.len() - count);
        let line_rows: usize = physical_row_count(&lines[lines.len() - 1 - count], wrap_width);
        assert(rest.last() == lines@[lines.len() - 1 - count].deep_view());
        if line_rows > left as usize {
            break;
        }
        proof {
            let older = all.take(all.len() - count - 1);
            assert(rest.drop_last() =~= older);
            assert(all.skip(all.len() - count - 1) =~= seq![rest.last()] + all.skip(
                all.len() - count,
            ));
            crate::history_lines::lemma_total_rows_join(
                seq![rest.last()],
                all.skip(all.len() - count),
                wrap_width as nat,
            );
            lemma_rows_of_one_line(rest.last(), wrap_width as nat);
        }
        left = left - line_rows as u16;
        count += 1;
    }
    (count, left)
}

/// How many lines at the end of `lines` reach into the last `rows` rows of them.
fn count_lines_touching(lines: &Vec<HyperlinkLine>, wrap_width: usize, rows: u16) -> (count: usize)
    requires
        wrap_width > 0,
    ensures
        count == lines_touching(lines.deep_view(), wrap_width as nat, rows as nat),
        count <= lines.len(),
{
    let ghost all = lines.deep_view();
    let mut count: usize = 0;
    let mut left: usize = rows as usize;
    assert(all.take(all.len() as int) =~= all);
    while count < lines.len() && left > 0
        invariant
            wrap_width > 0,
            all == lines.deep_view(),
            count <= lines.len(),
            count + lines_touching(all.take(all.len() - count), wrap_width as nat, left as nat)
                == lines_touching(all, wrap_width as nat, rows as nat),
        decreases lines.len() - count,
    {
        let ghost rest = all.take(all.len() - count);
        let line_rows: usize = physical_row_count(&lines[lines.len() - 1 - count], wrap_width);
        assert(rest.last() == lines@[lines.len() - 1 - count].deep_view());
        assert(rest.drop_last() =~= all.take(all.len() - count - 1));
        left = left.saturating_sub(line_rows);
        count += 1;
    }
    count
}

impl InlineHistoryPlacement {
    pub fn new(history_bottom: u16, visible_rows: u16) -> (placement: Self)
        ensures
            placement@ == fresh_placement(history_bottom, visible_rows),
    {
        let retained_lines: Vec<HyperlinkLine> = Vec::new();
        assert(retained_lines.deep_view() =~= Seq::<LineView>::empty());
        InlineHistoryPlacement {
            history_bottom,
            visible_rows,
            covered_rows: 0,
            viewport_growth_start: history_bottom.saturating_sub(visible_rows),
            retained_lines,
            retained_wrap_width: None,
        }
    }

    pub fn history_bottom(&self) -> (row: u16)
        ensures
            row == self@.history_bottom,
    {
        self.history_bottom
    }

    pub fn visible_rows(&self) -> (rows: u16)
        ensures
            rows == self@.visible_rows,
    {
        self.visible_rows
    }

    pub fn covered_rows(&self) -> (rows: u16)
        ensures
            rows == self@.covered_rows,
    {
        self.covered_rows
    }

    pub fn has_covered_rows(&self) -> (covered: bool)
        ensures
            covered == (self@.covered_rows > 0),
    {
        self.covered_rows > 0
    }

    /// The rows of history on the screen, be they visible or covered.
    pub fn retained_screen_rows(&self) -> (rows: u16)
        ensures
            rows == self@.screen_rows(),
    {
        self.visible_rows.saturating_add(self.covered_rows)
    }

    /// The lines that can be written again.
    pub fn retained_lines(&self) -> (lines: &Vec<HyperlinkLine>)
        ensures
            lines.deep_view() == self@.retained_lines,
    {
        &self.retained_lines
    }

    pub fn allow_viewport_growth_to(&mut self, row: u16)
        ensures
            final(self)@ == old(self)@.with_growth_to(row),
    {
        if row < self.viewport_growth_start {
            self.viewport_growth_start = row;
        }
    }

    pub fn viewport_growth_start(&self) -> (row: u16)
        ensures
            row == self@.viewport_growth_start,
    {
        self.viewport_growth_start
    }

    /// Take note that the whole screen was scrolled up by `rows`.
    pub fn record_terminal_scroll(&mut self, rows: u16)
        ensures
            final(self)@ == old(self)@.scrolled(rows),
    {
        let uncovered: u16 = rows.saturating_sub(self.screen_start());
        let retained: u16 = self.retained_screen_rows();
        let lost: u16 = if uncovered < retained {
            uncovered
        } else {
            retained
        };
        self.covered_rows = self.covered_rows.saturating_sub(lost.saturating_sub(self.visible_rows));
        self.history_bottom = self.history_bottom.saturating_sub(rows);
        self.viewport_growth_start = self.viewport_growth_start.saturating_sub(rows);
        self.visible_rows = self.visible_rows.saturating_sub(lost);
    }

    /// The first row of history on the screen.
    pub fn screen_start(&self) -> (row: u16)
        ensures
            row == self@.screen_start(),
    {
        self.history_bottom.saturating_sub(self.retained_screen_rows())
    }

    /// Take note that the viewport starts at `viewport_top`. Returns whether other rows are
    /// covered than before.
    fn record_viewport(&mut self, viewport_top: u16) -> (changed: bool)
        ensures
            final(self)@ == old(self)@.for_viewport(viewport_top),
            changed == (final(self)@.covered_rows != old(self)@.covered_rows),
    {
        let retained: u16 = self.retained_screen_rows();
        let below: u16 = self.history_bottom.saturating_sub(viewport_top);
        let covered: u16 = if below < retained {
            below
        } else {
            retained
        };
        let changed = covered != self.covered_rows;
        self.covered_rows = covered;
        self.visible_rows = retained - covered;
        changed
    }

    /// Retain lines behind those that were wrapped for the same width.
    fn retain_source(&mut self, lines: &Vec<HyperlinkLine>, wrap_width: usize)
        ensures
            final(self)@ == old(self)@.with_source(lines.deep_view(), wrap_width),
    {
        let ghost before = self@;
        let mut copy = lines.duplicate();
        let same_width = match self.retained_wrap_width {
            Some(width) => width == wrap_width,
            None => false,
        };
        if same_width {
            self.retained_lines.append(&mut copy);
            assert(self.retained_lines.deep_view() =~= before.retained_lines + lines.deep_view());
        } else {
            self.retained_lines = copy;
            self.retained_wrap_width = Some(wrap_width);
        }
    }

    /// Take note that lines were written into the gap below the history.
    pub fn record_gap_append(
        &mut self,
        appended_rows: u16,
        lines: &Vec<HyperlinkLine>,
        wrap_width: usize,
    )
        ensures
            final(self)@ == old(self)@.gap_appended(appended_rows, lines.deep_view(), wrap_width),
    {
        self.history_bottom = self.history_bottom.saturating_add(appended_rows);
        let visible: u16 = self.visible_rows.saturating_add(appended_rows);
        self.visible_rows = if visible < self.history_bottom {
            visible
        } else {
            self.history_bottom
        };
        self.retain_source(lines, wrap_width);
    }

    /// Take note that lines were put above the viewport while older rows were scrolled away.
    pub fn record_scrolling_append(
        &mut self,
        viewport_top: u16,
        appended_rows: u16,
        lines: &Vec<HyperlinkLine>,
        wrap_width: usize,
    )
        ensures
            final(self)@ == old(self)@.scrolling_appended(
                viewport_top,
                appended_rows,
                lines.deep_view(),
                wrap_width,
            ),
    {
        self.history_bottom = viewport_top;
        let visible: u16 = self.visible_rows.saturating_add(appended_rows);
        self.visible_rows = if visible < viewport_top {
            visible
        } else {
            viewport_top
        };
        self.viewport_growth_start = viewport_top - self.visible_rows;
        self.retain_source(lines, wrap_width);
    }

    /// How far the screen has to be scrolled until a viewport at `viewport_top` covers nothing.
    pub fn exposing_scroll_rows(&self, viewport_top: u16) -> (rows: u16)
        ensures
            rows == self@.exposing_scroll(viewport_top),
    {
        let below: u16 = self.history_bottom.saturating_sub(viewport_top);
        if below < self.covered_rows {
            below
        } else {
            self.covered_rows
        }
    }

    /// Take note that the screen was scrolled until a viewport at `viewport_top` covers nothing.
    pub fn record_covered_rows_exposed(&mut self, viewport_top: u16)
        ensures
            final(self)@ == old(self)@.exposed(viewport_top),
    {
        let rows: u16 = self.exposing_scroll_rows(viewport_top);
        self.record_terminal_scroll(rows);
        self.record_viewport(viewport_top);
    }

    /// Take note that the last `lines` retained lines were taken away, with their `rows` rows.
    pub fn record_visible_history_tail_removal(&mut self, lines: usize, rows: u16)
        ensures
            final(self)@ == old(self)@.tail_removed(lines as nat, rows),
    {
        let ghost before = self@;
        self.history_bottom = self.history_bottom.saturating_sub(rows);
        self.visible_rows = self.visible_rows.saturating_sub(rows);
        let kept: usize = self.retained_lines.len().saturating_sub(lines);
        self.retained_lines.truncate(kept);
        assert(self.retained_lines.deep_view() =~= before.retained_lines.take(kept as int));
    }

    /// Whether the retained lines are wrapped for `wrap_width` and fill every row of history on the
    /// screen.
    pub fn has_complete_retained_source(&self, wrap_width: usize) -> (complete: bool)
        requires
            wrap_width > 0,
        ensures
            complete == self@.has_complete_source(wrap_width),
    {
        let same_width = match self.retained_wrap_width {
            Some(width) => width == wrap_width,
            None => false,
        };
        if !same_width {
            return false;
        }
        history_row_count(&self.retained_lines, wrap_width) >= self.retained_screen_rows() as usize
    }

    /// Whether the retained lines end in `lines`.
    pub fn retained_tail_matches(&self, lines: &Vec<HyperlinkLine>) -> (matches: bool)
        ensures
            matches == self@.ends_in(lines.deep_view()),
    {
        let ghost retained = self@.retained_lines;
        let ghost wanted = lines.deep_view();
        if lines.len() > self.retained_lines.len() {
            return false;
        }
        let start: usize = self.retained_lines.len() - lines.len();
        let ghost tail = retained.skip(start as int);
        let mut index: usize = 0;
        while index < lines.len()
            invariant
                index <= lines.len(),
                start + lines.len() == self.retained_lines.len(),
                retained == self.retained_lines.deep_view(),
                retained == self@.retained_lines,
                wanted == lines.deep_view(),
                tail == retained.skip(start as int),
                forall|earlier: int|
                    0 <= earlier < index ==> #[trigger] tail[earlier] == wanted[earlier],
            decreases lines.len() - index,
        {
            assert(tail[index as int] == self.retained_lines@[start + index].deep_view());
            assert(wanted[index as int] == lines@[index as int].deep_view());
            if !self.retained_lines[start + index].same_as(&lines[index]) {
                assert(tail[index as int] != wanted[index as int]);
                return false;
            }
            index += 1;
        }
        assert(tail =~= wanted);
        true
    }
}

/// Record a full-screen scroll and synchronize the terminal's visibility cache.
pub fn record_inline_history_terminal_scroll(
    terminal: &mut Terminal,
    placement: &mut InlineHistoryPlacement,
    rows: u16,
)
    ensures
        final(placement)@ == old(placement)@.scrolled(rows),
        final(terminal)@ == old(terminal)@.with_visible_history_rows(
            final(placement)@.visible_rows,
        ),
{
    placement.record_terminal_scroll(rows);
    sync_terminal_visible_history_rows(terminal, placement);
}

pub fn sync_terminal_visible_history_rows(
    terminal: &mut Terminal,
    placement: &InlineHistoryPlacement,
)
    ensures
        final(terminal)@ == old(terminal)@.with_visible_history_rows(placement@.visible_rows),
{
    terminal.set_visible_history_rows(placement.visible_rows);
}

/// Record where the viewport starts and synchronize the terminal's visibility cache. Returns
/// whether other rows are covered than before, so that the visible ones have to be written again.
pub fn update_inline_history_for_viewport(
    terminal: &mut Terminal,
    placement: &mut InlineHistoryPlacement,
    viewport_top: u16,
) -> (changed: bool)
    ensures
        final(placement)@ == old(placement)@.for_viewport(viewport_top),
        final(terminal)@ == old(terminal)@.with_visible_history_rows(
            final(placement)@.visible_rows,
        ),
        changed == (final(placement)@.covered_rows != old(placement)@.covered_rows),
{
    let changed = placement.record_viewport(viewport_top);
    sync_terminal_visible_history_rows(terminal, placement);
    changed
}

/// Write the retained lines on the screen again, with `covered_rows` of the covered rows.
pub fn repaint_inline_history_with_covered_rows(
    terminal: &mut Terminal,
    placement: &InlineHistoryPlacement,
    covered_rows: u16,
) -> (result: Result<(), TerminalError>)
    requires
        placement@.is_valid(),
    ensures
        final(terminal)@ == old(terminal)@.sent(
            placement@.repaint_commands(covered_rows, old(terminal)@.last_known_cursor_pos),
        ),
        result is Ok <==> old(terminal)@.accepts(
            placement@.repaint_commands(covered_rows, old(terminal)@.last_known_cursor_pos).len(),
        ),
{
    let wrap_width: usize = match placement.retained_wrap_width {
        Some(wrap_width) => wrap_width,
        None => 1,
    };
    let start: u16 = placement.screen_start();
    let (on_screen, left) = count_lines_within(
        &placement.retained_lines,
        wrap_width,
        placement.history_bottom - start,
    );
    let hidden_rows: u16 = placement.covered_rows.saturating_sub(covered_rows);
    let under_cover: usize = count_lines_touching(
        &placement.retained_lines,
        wrap_width,
        hidden_rows,
    );
    let first: usize = placement.retained_lines.len() - on_screen;
    let end: usize = placement.retained_lines.len() - under_cover;
    let end: usize = if end < first {
        first
    } else {
        end
    };
    paint_history_lines(
        terminal,
        &placement.retained_lines,
        first,
        end,
        wrap_width,
        start + left,
    )
}

/// Write the retained lines that are visible again.
pub fn repaint_inline_history_tail(
    terminal: &mut Terminal,
    placement: &InlineHistoryPlacement,
) -> (result: Result<(), TerminalError>)
    requires
        placement@.is_valid(),
    ensures
        final(terminal)@ == old(terminal)@.sent(
            placement@.repaint_commands(0, old(terminal)@.last_known_cursor_pos),
        ),
        result is Ok <==> old(terminal)@.accepts(
            placement@.repaint_commands(0, old(terminal)@.last_known_cursor_pos).len(),
        ),
{
    repaint_inline_history_with_covered_rows(terminal, placement, 0)
}

/// Scroll the whole screen up by `rows`. Rows of history that the viewport covers may have been
/// overwritten, and the oldest ones may move into scrollback, so all of them are written first.
pub fn scroll_repainted_history(
    terminal: &mut Terminal,
    placement: &InlineHistoryPlacement,
    rows: u16,
) -> (result: Result<(), TerminalError>)
    requires
        placement@.is_valid(),
    ensures
        final(terminal)@ == old(terminal)@.sent(
            scroll_commands(old(terminal)@, placement@, rows),
        ),
        result is Ok <==> old(terminal)@.accepts(
            scroll_commands(old(terminal)@, placement@, rows).len(),
        ),
{
    proof {
        let before = terminal@;
        let repaint = placement@.repaint_commands(
            placement@.covered_rows,
            before.last_known_cursor_pos,
        );
        let query = seq![CommandView::QuerySize];
        let motion = seq![CommandView::MoveTo(last_row(before))];
        let scroll = seq![CommandView::AppendLines(rows)];
        let all = scroll_commands(before, placement@, rows);
        assert(repaint + query + motion + scroll =~= all);
        assert(repaint + query + (motion + scroll) =~= all);
        assert(repaint + (query + motion + scroll) =~= all);
        crate::terminal::lemma_sent_join(before, repaint, query);
        crate::terminal::lemma_sent_join(before, repaint, query + motion + scroll);
        crate::terminal::lemma_sent_join(before, repaint + query, motion);
        crate::terminal::lemma_sent_join(before, repaint + query, motion + scroll);
        crate::terminal::lemma_sent_join(before, repaint + query + motion, scroll);
    }
    repaint_inline_history_with_covered_rows(terminal, placement, placement.covered_rows)?;
    terminal.send(TerminalCommand::QuerySize)?;
    let screen_height: u16 = terminal.screen_size.height;
    terminal.send(
        TerminalCommand::MoveTo(Position::new(0, screen_height.saturating_sub(1))),
    )?;
    terminal.send(TerminalCommand::AppendLines(rows))?;
    Ok(())
}

/// Placements that are told apart by nothing in their views stand in the same rows with the same lines.
pub proof fn law_the_view_of_a_placement_is_all_of_it(
    left: InlineHistoryPlacement,
    right: InlineHistoryPlacement,
)
    requires
        left@ == right@ || left.deep_view() == right.deep_view(),
    ensures
        left.history_bottom == right.history_bottom,
        left.visible_rows == right.visible_rows,
        left.covered_rows == right.covered_rows,
        left.viewport_growth_start == right.viewport_growth_start,
        left.retained_lines.deep_view() == right.retained_lines.deep_view(),
        left.retained_wrap_width == right.retained_wrap_width,
{
}

/// Rows scroll out of the screen by line breaks in its last row, behind the lines that are written again,
/// and once the backend has told how large the screen is.
pub proof fn law_the_screen_scrolls_from_its_last_row(
    terminal: TerminalView,
    placement: PlacementView,
    rows: u16,
)
    ensures
        ({
            let commands = scroll_commands(terminal, placement, rows);
            let last = Position {
                x: 0,
                y: if terminal.screen_size.height == 0 {
                    0
                } else {
                    (terminal.screen_size.height - 1) as u16
                },
            };
            &&& commands.len() >= 6
            &&& commands[commands.len() - 1] == CommandView::AppendLines(rows)
            &&& commands[commands.len() - 2] == CommandView::MoveTo(last)
            &&& commands[commands.len() - 3] == CommandView::QuerySize
            &&& commands[commands.len() - 4] == CommandView::Flush
            &&& commands[commands.len() - 6] == CommandView::MoveTo(terminal.last_known_cursor_pos)
            &&& crate::terminal::written_lines(commands) == placement.lines_to_repaint(
                placement.covered_rows,
            )
        }),
{
    let repainted = placement.repaint_commands(
        placement.covered_rows,
        terminal.last_known_cursor_pos,
    );
    let closing = seq![
        CommandView::QuerySize,
        CommandView::MoveTo(last_row(terminal)),
        CommandView::AppendLines(rows),
    ];
    crate::history_painting::law_painting_writes_each_line_once(
        placement.lines_to_repaint(placement.covered_rows),
        placement.source_width(),
        placement.repaint_start(),
        terminal.last_known_cursor_pos,
    );
    reveal_with_fuel(crate::terminal::written_lines, 4);
    assert(closing.drop_last().drop_last().drop_last() =~= Seq::<CommandView>::empty());
    crate::terminal::lemma_written_lines_join(repainted, closing);
}

} // verus!
