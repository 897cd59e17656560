//! The terminal below an inline viewport: where the viewport stands, what its last frame shows, and
//! the operations that are asked of the backend.

use vstd::prelude::*;

use crate::content::Content;
use crate::geometry::{Position, Rect, Size};
use crate::history_lines::{HyperlinkLine, InsertHistoryMode, LineView, PreparedHistoryLines, PreparedView};
use crate::styled::{SpanStyle, TextColor};

verus! {

/// An operation of the backend.
#[derive(Clone, Debug, PartialEq, Eq)]
pub enum TerminalCommand {
    MoveTo(Position),
    /// Clear the row of the cursor.
    ClearCurrentLine,
    /// Clear everything from the cursor on.
    ClearAfterCursor,
    /// Write a line of history at the cursor.
    WriteHistoryLine { line: HyperlinkLine, wrap_width: usize },
    /// Go back to the terminal's own colors and attributes.
    ResetStyle,
    /// Hand everything that is queued to the terminal.
    Flush,
    /// Ask for the size of the screen.
    QuerySize,
    /// Break lines at the cursor, which scrolls the screen from its last row.
    AppendLines(u16),
    /// Scroll the rows above `end` up.
    ScrollRegionUp { end: u16, rows: u16 },
    /// Put lines above the viewport, which stands at `area` until then.
    InsertHistory { area: Rect, prepared: PreparedHistoryLines, mode: InsertHistoryMode },
    /// Write the last frame once more.
    RepaintViewport,
    /// Clear the viewport.
    ClearViewport,
    /// Clear what the screen shows.
    ClearVisibleScreen,
    /// Clear what the screen shows and what has been scrolled out of it.
    ClearScrollbackAndVisibleScreen,
}

/// The backend has failed.
#[derive(Clone, Copy, Debug, PartialEq, Eq, Structural)]
pub struct TerminalError;

/// A cell of a frame.
#[derive(Clone, Debug, PartialEq, Eq)]
pub struct FrameCell {
    pub symbol: String,
    pub style: SpanStyle,
}

/// The terminal as the interface knows it.
///
/// Operations are collected in `commands`, in the order in which the backend has to perform them.
/// `operations_left` says how many more of them the backend performs before it fails; without a
/// number it performs them all.
#[derive(Clone, Debug, PartialEq, Eq)]
pub struct Terminal {
    pub viewport_area: Rect,
    pub last_known_screen_size: Size,
    pub last_known_cursor_pos: Position,
    /// The size that the backend reports.
    pub screen_size: Size,
    /// Rows of history directly above the viewport.
    pub visible_history_rows: u16,
    /// The last completed frame, row by row.
    pub frame: Vec<Vec<FrameCell>>,
    /// The next frame has to be written in full.
    pub viewport_invalidated: bool,
    pub commands: Vec<TerminalCommand>,
    pub operations_left: Option<usize>,
}

#[verifier::ext_equal]
pub enum CommandView {
    MoveTo(Position),
    ClearCurrentLine,
    ClearAfterCursor,
    WriteHistoryLine { line: LineView, wrap_width: usize },
    ResetStyle,
    Flush,
    QuerySize,
    AppendLines(u16),
    ScrollRegionUp { end: u16, rows: u16 },
    InsertHistory { area: Rect, prepared: PreparedView, mode: InsertHistoryMode },
    RepaintViewport,
    ClearViewport,
    ClearVisibleScreen,
    ClearScrollbackAndVisibleScreen,
}

#[verifier::ext_equal]
pub struct CellView {
    pub symbol: Seq<char>,
    pub style: SpanStyle,
}

#[verifier::ext_equal]
pub struct TerminalView {
    pub viewport_area: Rect,
    pub last_known_screen_size: Size,
    pub last_known_cursor_pos: Position,
    pub screen_size: Size,
    pub visible_history_rows: u16,
    pub frame: Seq<Seq<CellView>>,
    pub viewport_invalidated: bool,
    pub commands: Seq<CommandView>,
    pub operations_left: Option<usize>,
}

impl DeepView for TerminalCommand {
    type V = CommandView;

    open spec fn deep_view(&self) -> CommandView {
        match self {
            TerminalCommand::MoveTo(position) => CommandView::MoveTo(*position),
            TerminalCommand::ClearCurrentLine => CommandView::ClearCurrentLine,
            TerminalCommand::ClearAfterCursor => CommandView::ClearAfterCursor,
            TerminalCommand::WriteHistoryLine { line, wrap_width } => CommandView::WriteHistoryLine {
                line: line.deep_view(),
                wrap_width: *wrap_width,
            },
            TerminalCommand::ResetStyle => CommandView::ResetStyle,
            TerminalCommand::Flush => CommandView::Flush,
            TerminalCommand::QuerySize => CommandView::QuerySize,
            TerminalCommand::AppendLines(rows) => CommandView::AppendLines(*rows),
            TerminalCommand::ScrollRegionUp { end, rows } => CommandView::ScrollRegionUp {
                end: *end,
                rows: *rows,
            },
            TerminalCommand::InsertHistory { area, prepared, mode } => CommandView::InsertHistory {
                area: *area,
                prepared: prepared.deep_view(),
                mode: *mode,
            },
            TerminalCommand::RepaintViewport => CommandView::RepaintViewport,
            TerminalCommand::ClearViewport => CommandView::ClearViewport,
            TerminalCommand::ClearVisibleScreen => CommandView::ClearVisibleScreen,
            TerminalCommand::ClearScrollbackAndVisibleScreen =>
                CommandView::ClearScrollbackAndVisibleScreen,
        }
    }
}

impl DeepView for FrameCell {
    type V = CellView;

    open spec fn deep_view(&self) -> CellView {
        CellView { symbol: self.symbol@, style: self.style }
    }
}

impl View for Terminal {
    type V = TerminalView;

    open spec fn view(&self) -> TerminalView {
        TerminalView {
            viewport_area: self.viewport_area,
            last_known_screen_size: self.last_known_screen_size,
            last_known_cursor_pos: self.last_known_cursor_pos,
            screen_size: self.screen_size,
            visible_history_rows: self.visible_history_rows,
            frame: self.frame.deep_view(),
            viewport_invalidated: self.viewport_invalidated,
            commands: self.commands.deep_view(),
            operations_left: self.operations_left,
        }
    }
}

impl CellView {
    /// An unmodified space on the terminal's own background.
    pub open spec fn is_blank(self) -> bool {
        &&& self.symbol == " "@
        &&& self.style == SpanStyle {
            foreground: self.style.foreground,
            underline_color: self.style.underline_color,
            ..crate::styled::plain_style()
        }
    }
}

/// Whether a row of a frame shows nothing.
pub open spec fn is_blank_row(row: Seq<CellView>) -> bool {
    forall|column: int| 0 <= column < row.len() ==> (#[trigger] row[column]).is_blank()
}

/// How many rows at the top of a frame show nothing, counted up to `max_rows`.
pub open spec fn blank_prefix(frame: Seq<Seq<CellView>>, max_rows: nat) -> nat
    decreases max_rows,
{
    if max_rows == 0 || frame.len() == 0 || !is_blank_row(frame[0]) {
        0
    } else {
        1 + blank_prefix(frame.drop_first(), (max_rows - 1) as nat)
    }
}

impl TerminalView {
    /// Whether the backend performs `count` more operations.
    pub open spec fn accepts(self, count: nat) -> bool {
        self.operations_left matches Some(left) ==> count <= left
    }

    /// The terminal after `commands` were asked of the backend one after the other, up to the one
    /// that fails.
    pub open spec fn sent(self, commands: Seq<CommandView>) -> Self {
        match self.operations_left {
            None => TerminalView { commands: self.commands + commands, ..self },
            Some(left) => if commands.len() <= left {
                TerminalView {
                    commands: self.commands + commands,
                    operations_left: Some((left - commands.len()) as usize),
                    ..self
                }
            } else {
                TerminalView {
                    commands: self.commands + commands.take(left as int),
                    operations_left: Some(0),
                    ..self
                }
            },
        }
    }

    /// The viewport stands at `area`. What lies below its top no longer counts as visible history.
    pub open spec fn with_viewport_area(self, area: Rect) -> Self {
        TerminalView {
            viewport_area: area,
            visible_history_rows: crate::geometry::lower_row(
                self.visible_history_rows as int,
                area.y as int,
            ),
            ..self
        }
    }

    pub open spec fn with_visible_history_rows(self, rows: u16) -> Self {
        TerminalView { visible_history_rows: rows, ..self }
    }

    pub open spec fn with_invalid_viewport(self) -> Self {
        TerminalView { viewport_invalidated: true, ..self }
    }

    /// How far a viewport that does not reach the last row of the screen gives way to `rows` rows
    /// above it.
    pub open spec fn rows_given_way(self, rows: u16) -> u16 {
        crate::geometry::lower_row(
            rows as int,
            crate::geometry::rows_left(
                self.screen_size.height as int,
                self.viewport_area.bottom_row() as int,
            ) as int,
        )
    }

    /// `rows` rows of history stand above the viewport, which has given way to them.
    pub open spec fn with_inserted_rows(self, rows: u16) -> Self {
        let area = Rect {
            y: (self.viewport_area.y + self.rows_given_way(rows)) as u16,
            ..self.viewport_area
        };
        let moved = self.with_viewport_area(area);
        moved.with_visible_history_rows(
            crate::geometry::lower_row(moved.visible_history_rows + rows, area.y as int),
        )
    }

    /// Lines were put above the viewport, as far as the backend performed it.
    pub open spec fn inserted(self, prepared: PreparedView, mode: InsertHistoryMode) -> Self {
        let tried = self.sent(
            seq![CommandView::InsertHistory { area: self.viewport_area, prepared, mode }],
        );
        if self.accepts(1) {
            tried.with_inserted_rows(screen_rows(prepared.row_count))
        } else {
            tried
        }
    }

    /// Everything from a position on was cleared, as far as the backend performed it.
    pub open spec fn cleared_after(self, position: Position) -> Self {
        let tried = self.sent(seq![CommandView::MoveTo(position), CommandView::ClearAfterCursor]);
        if self.accepts(2) {
            tried.with_invalid_viewport()
        } else {
            tried
        }
    }

    /// The viewport was cleared, as far as the backend performed it.
    pub open spec fn viewport_cleared(self) -> Self {
        let tried = self.sent(seq![CommandView::ClearViewport]);
        if self.accepts(1) {
            tried.with_invalid_viewport()
        } else {
            tried
        }
    }

    /// The screen was cleared by `command`, as far as the backend performed it.
    pub open spec fn screen_cleared(self, command: CommandView) -> Self {
        let tried = self.sent(seq![command]);
        if self.accepts(1) {
            tried.with_visible_history_rows(0).with_invalid_viewport()
        } else {
            tried
        }
    }
}

/// A number of rows as the screen counts it.
pub open spec fn screen_rows(rows: usize) -> u16 {
    crate::geometry::lower_row(rows as int, u16::MAX as int)
}

/// Asking for commands in two parts is asking for all of them.
pub proof fn lemma_sent_join(terminal: TerminalView, first: Seq<CommandView>, second: Seq<
    CommandView,
>)
    ensures
        terminal.accepts(first.len()) ==> terminal.sent(first).sent(second) == terminal.sent(
            first + second,
        ),
        terminal.accepts(first.len()) ==> (terminal.sent(first).accepts(second.len())
            <==> terminal.accepts((first + second).len())),
        !terminal.accepts(first.len()) ==> terminal.sent(first) == terminal.sent(first + second),
        !terminal.accepts(first.len()) ==> !terminal.accepts((first + second).len()),
{
    let all = first + second;
    match terminal.operations_left {
        None => {
            assert(terminal.commands + first + second =~= terminal.commands + all);
        },
        Some(left) => {
            if first.len() <= left {
                assert(terminal.commands + first + second =~= terminal.commands + all);
                if all.len() > left {
                    assert(terminal.commands + first + second.take(left - first.len())
                        =~= terminal.commands + all.take(left as int));
                }
            } else {
                assert(first.take(left as int) =~= all.take(left as int));
            }
        },
    }
}

/// Asking for nothing changes nothing.
pub proof fn lemma_sent_nothing(terminal: TerminalView)
    ensures
        terminal.sent(Seq::empty()) == terminal,
        terminal.accepts(0),
{
    assert(terminal.commands + Seq::<CommandView>::empty() =~= terminal.commands);
}

/// The lines of history that operations write, in their order.
pub open spec fn written_lines(commands: Seq<CommandView>) -> Seq<LineView>
    decreases commands.len(),
{
    if commands.len() == 0 {
        Seq::empty()
    } else {
        written_lines(commands.drop_last()) + match commands.last() {
            CommandView::WriteHistoryLine { line, .. } => seq![line],
            CommandView::InsertHistory { prepared, .. } => prepared.lines,
            _ => Seq::empty(),
        }
    }
}

/// Operations one after the other write the lines of both.
pub proof fn lemma_written_lines_join(first: Seq<CommandView>, second: Seq<CommandView>)
    ensures
        written_lines(first + second) == written_lines(first) + written_lines(second),
    decreases second.len(),
{
    if second.len() == 0 {
        assert(first + second =~= first);
        assert(written_lines(first) + written_lines(second) =~= written_lines(first));
    } else {
        lemma_written_lines_join(first, second.drop_last());
        assert((first + second).drop_last() =~= first + second.drop_last());
        assert(written_lines(first + second) =~= written_lines(first) + written_lines(second));
    }
}

/// What is asked for in two parts is the first part and what comes behind it.
pub proof fn lemma_added_in_two_parts(
    before: Seq<CommandView>,
    between: Seq<CommandView>,
    after: Seq<CommandView>,
)
    requires
        before.is_prefix_of(between),
        between.is_prefix_of(after),
    ensures
        before.is_prefix_of(after),
        after.skip(before.len() as int) == between.skip(before.len() as int) + after.skip(
            between.len() as int,
        ),
{
    assert forall|index: int| 0 <= index < between.len() implies between[index] == after[index] by {
        assert(after.subrange(0, between.len() as int)[index] == after[index]);
    }
    assert(before =~= after.subrange(0, before.len() as int));
    assert(after.skip(before.len() as int) =~= between.skip(before.len() as int) + after.skip(
        between.len() as int,
    ));
}

/// The backend performs what it is asked for in its order, all of it where nothing limits it, and
/// otherwise as many operations as are left. Asking for operations changes nothing else.
pub proof fn law_the_backend_performs_operations_until_it_fails(
    terminal: TerminalView,
    commands: Seq<CommandView>,
    left: usize,
)
    ensures
        terminal.operations_left is None ==> {
            &&& terminal.accepts(commands.len())
            &&& terminal.sent(commands) == (TerminalView {
                commands: terminal.commands + commands,
                ..terminal
            })
        },
        terminal.operations_left == Some(left) && commands.len() <= left ==> {
            &&& terminal.accepts(commands.len())
            &&& terminal.sent(commands) == (TerminalView {
                commands: terminal.commands + commands,
                operations_left: Some((left - commands.len()) as usize),
                ..terminal
            })
        },
        terminal.operations_left == Some(left) && commands.len() > left ==> {
            &&& !terminal.accepts(commands.len())
            &&& terminal.sent(commands) == (TerminalView {
                commands: terminal.commands + commands.take(left as int),
                operations_left: Some(0),
                ..terminal
            })
        },
{
}

/// A viewport that is placed stands where it is placed, with no more rows of visible history than
/// there are above it. Nothing is asked of the backend.
pub proof fn law_placing_the_viewport_keeps_the_history_above_it(terminal: TerminalView, area: Rect)
    ensures
        ({
            let placed = terminal.with_viewport_area(area);
            &&& placed.viewport_area == area
            &&& placed.visible_history_rows <= area.y
            &&& terminal.visible_history_rows <= area.y ==> placed.visible_history_rows
                == terminal.visible_history_rows
            &&& terminal.visible_history_rows > area.y ==> placed.visible_history_rows == area.y
            &&& placed.commands == terminal.commands
            &&& placed.operations_left == terminal.operations_left
            &&& placed.frame == terminal.frame
            &&& placed.screen_size == terminal.screen_size
            &&& placed.last_known_screen_size == terminal.last_known_screen_size
            &&& placed.last_known_cursor_pos == terminal.last_known_cursor_pos
            &&& placed.viewport_invalidated == terminal.viewport_invalidated
        }),
{
}

/// Putting lines above the viewport asks for just that, and makes room for them: the viewport keeps
/// its size and moves down by as many rows as the lines take, or to the end of the screen where there
/// are fewer, and the rows above it that are known to be history grow by them as far as they go.
pub proof fn law_inserted_history_stands_above_the_viewport(
    terminal: TerminalView,
    prepared: PreparedView,
    mode: InsertHistoryMode,
)
    requires
        terminal.operations_left is None,
        terminal.viewport_area.y + terminal.viewport_area.height <= terminal.screen_size.height,
        terminal.visible_history_rows <= terminal.viewport_area.y,
        prepared.row_count <= u16::MAX,
    ensures
        ({
            let after = terminal.inserted(prepared, mode);
            let area = after.viewport_area;
            &&& after.commands == terminal.commands.push(
                CommandView::InsertHistory { area: terminal.viewport_area, prepared, mode },
            )
            &&& area.x == terminal.viewport_area.x
            &&& area.width == terminal.viewport_area.width
            &&& area.height == terminal.viewport_area.height
            &&& terminal.viewport_area.y + prepared.row_count + area.height
                <= terminal.screen_size.height ==> area.y == terminal.viewport_area.y
                + prepared.row_count
            &&& terminal.viewport_area.y + prepared.row_count + area.height
                > terminal.screen_size.height ==> area.y + area.height
                == terminal.screen_size.height
            &&& terminal.visible_history_rows + prepared.row_count <= area.y
                ==> after.visible_history_rows == terminal.visible_history_rows
                + prepared.row_count
            &&& terminal.visible_history_rows + prepared.row_count > area.y
                ==> after.visible_history_rows == area.y
            &&& after.operations_left is None
            &&& after.frame == terminal.frame
            &&& after.viewport_invalidated == terminal.viewport_invalidated
            &&& after.last_known_screen_size == terminal.last_known_screen_size
        }),
{
    assert(terminal.commands + seq![
        CommandView::InsertHistory { area: terminal.viewport_area, prepared, mode },
    ] =~= terminal.commands.push(
        CommandView::InsertHistory { area: terminal.viewport_area, prepared, mode },
    ));
}

/// Clearing from a position on, clearing the viewport and clearing the screen each ask for just that,
/// and have the next frame written in full. Only where the screen is cleared is no history left.
pub proof fn law_clearing_has_the_next_frame_written(
    terminal: TerminalView,
    position: Position,
    command: CommandView,
)
    requires
        terminal.operations_left is None,
    ensures
        terminal.cleared_after(position) == (TerminalView {
            commands: terminal.commands.push(CommandView::MoveTo(position)).push(
                CommandView::ClearAfterCursor,
            ),
            viewport_invalidated: true,
            ..terminal
        }),
        terminal.viewport_cleared() == (TerminalView {
            commands: terminal.commands.push(CommandView::ClearViewport),
            viewport_invalidated: true,
            ..terminal
        }),
        terminal.screen_cleared(command) == (TerminalView {
            commands: terminal.commands.push(command),
            viewport_invalidated: true,
            visible_history_rows: 0,
            ..terminal
        }),
{
    assert(terminal.commands + seq![CommandView::MoveTo(position), CommandView::ClearAfterCursor]
        =~= terminal.commands.push(CommandView::MoveTo(position)).push(
        CommandView::ClearAfterCursor,
    ));
    assert(terminal.commands + seq![CommandView::ClearViewport] =~= terminal.commands.push(
        CommandView::ClearViewport,
    ));
    assert(terminal.commands + seq![command] =~= terminal.commands.push(command));
}

/// The blank rows that are counted at the top of a frame are all blank, every cell of them a space on
/// the terminal's own background without any mark; and counting stops only at a row that is not, at
/// the end of the frame, or where it is told to.
pub proof fn law_blank_rows_are_counted_to_the_first_that_shows_something(
    frame: Seq<Seq<CellView>>,
    max_rows: nat,
)
    ensures
        ({
            let counted = blank_prefix(frame, max_rows);
            &&& counted <= max_rows
            &&& counted <= frame.len()
            &&& forall|row: int, column: int|
                0 <= row < counted && 0 <= column < frame[row].len() ==> {
                    let cell = #[trigger] frame[row][column];
                    &&& cell.symbol == " "@
                    &&& cell.style.background == TextColor::Terminal
                    &&& !cell.style.bold && !cell.style.dim && !cell.style.italic
                    &&& !cell.style.underlined && !cell.style.slow_blink
                    &&& !cell.style.rapid_blink && !cell.style.reversed && !cell.style.hidden
                    &&& !cell.style.crossed_out
                }
            &&& counted < max_rows && counted < frame.len() ==> exists|column: int|
                0 <= column < frame[counted as int].len() && {
                    let cell = #[trigger] frame[counted as int][column];
                    ||| cell.symbol != " "@
                    ||| cell.style.background != TextColor::Terminal
                    ||| cell.style.bold || cell.style.dim || cell.style.italic
                    ||| cell.style.underlined || cell.style.slow_blink
                    ||| cell.style.rapid_blink || cell.style.reversed || cell.style.hidden
                    ||| cell.style.crossed_out
                }
        }),
    decreases max_rows,
{
    let counted = blank_prefix(frame, max_rows);
    if max_rows > 0 && frame.len() > 0 {
        if is_blank_row(frame[0]) {
            let rest = frame.drop_first();
            law_blank_rows_are_counted_to_the_first_that_shows_something(
                rest,
                (max_rows - 1) as nat,
            );
            assert forall|row: int, column: int|
                0 <= row < counted && 0 <= column < frame[row].len() implies {
                let cell = #[trigger] frame[row][column];
                &&& cell.symbol == " "@
                &&& cell.style.background == TextColor::Terminal
                &&& !cell.style.bold && !cell.style.dim && !cell.style.italic
                &&& !cell.style.underlined && !cell.style.slow_blink
                &&& !cell.style.rapid_blink && !cell.style.reversed && !cell.style.hidden
                &&& !cell.style.crossed_out
            } by {
                if row == 0 {
                    assert(frame[0][column].is_blank());
                } else {
                    assert(frame[row][column] == rest[row - 1][column]);
                }
            }
            if counted < max_rows && counted < frame.len() {
                assert(frame[counted as int] == rest[counted - 1]);
            }
        } else {
            let column = choose|column: int|
                0 <= column < frame[0].len() && !(#[trigger] frame[0][column]).is_blank();
            assert(!frame[0][column].is_blank());
        }
    }
}

impl FrameCell {
    /// Whether the cell is an unmodified space on the terminal's own background.
    pub fn is_blank(&self) -> (blank: bool)
        ensures
            blank == self.deep_view().is_blank(),
    {
        let space = " ".to_owned();
        self.symbol.same_as(&space) && self.style.background == TextColor::Terminal
            && !self.style.bold && !self.style.dim && !self.style.italic && !self.style.underlined
            && !self.style.slow_blink && !self.style.rapid_blink && !self.style.reversed
            && !self.style.hidden && !self.style.crossed_out
    }
}

fn row_is_blank(row: &Vec<FrameCell>) -> (blank: bool)
    ensures
        blank == is_blank_row(row.deep_view()),
{
    let mut column: usize = 0;
    while column < row.len()
        invariant
            column <= row.len(),
            forall|earlier: int|
                0 <= earlier < column ==> (#[trigger] row.deep_view()[earlier]).is_blank(),
        decreases row.len() - column,
    {
        if !row[column].is_blank() {
            assert(!row.deep_view()[column as int].is_blank());
            return false;
        }
        column += 1;
    }
    true
}

/// `rows` as the screen counts it.
pub fn rows_on_screen(rows: usize) -> (counted: u16)
    ensures
        counted == screen_rows(rows),
{
    if rows < u16::MAX as usize {
        rows as u16
    } else {
        u16::MAX
    }
}

impl Terminal {
    /// A terminal of `screen_size` whose viewport has no rows yet and starts at the cursor.
    pub fn new(screen_size: Size, cursor: Position) -> (terminal: Self)
        ensures
            terminal@ == (TerminalView {
                viewport_area: Rect { x: 0, y: cursor.y, width: 0, height: 0 },
                last_known_screen_size: screen_size,
                last_known_cursor_pos: cursor,
                screen_size,
                visible_history_rows: 0,
                frame: Seq::empty(),
                viewport_invalidated: false,
                commands: Seq::empty(),
                operations_left: None,
            }),
    {
        let terminal = Terminal {
            viewport_area: Rect { x: 0, y: cursor.y, width: 0, height: 0 },
            last_known_screen_size: screen_size,
            last_known_cursor_pos: cursor,
            screen_size,
            visible_history_rows: 0,
            frame: Vec::new(),
            viewport_invalidated: false,
            commands: Vec::new(),
            operations_left: None,
        };
        assert(terminal@.frame =~= Seq::empty());
        assert(terminal@.commands =~= Seq::empty());
        terminal
    }

    /// Ask the backend for an operation.
    pub fn send(&mut self, command: TerminalCommand) -> (result: Result<(), TerminalError>)
        ensures
            final(self)@ == old(self)@.sent(seq![command.deep_view()]),
            result is Ok <==> old(self)@.accepts(1),
    {
        let ghost before = self@;
        match self.operations_left {
            None => {},
            Some(left) => {
                if left == 0 {
                    assert(before.commands + seq![command.deep_view()].take(0)
                        =~= before.commands);
                    return Err(TerminalError);
                }
                self.operations_left = Some(left - 1);
            },
        }
        let ghost sent = command;
        self.commands.push(command);
        assert(self.commands.deep_view() =~= before.commands + seq![sent.deep_view()]);
        Ok(())
    }

    /// Rows of history directly above the viewport.
    pub fn visible_history_rows(&self) -> (rows: u16)
        ensures
            rows == self@.visible_history_rows,
    {
        self.visible_history_rows
    }

    pub fn set_visible_history_rows(&mut self, rows: u16)
        ensures
            final(self)@ == old(self)@.with_visible_history_rows(rows),
    {
        self.visible_history_rows = rows;
    }

    /// Place the viewport.
    pub fn set_viewport_area(&mut self, area: Rect)
        ensures
            final(self)@ == old(self)@.with_viewport_area(area),
    {
        self.viewport_area = area;
        if self.visible_history_rows > area.y {
            self.visible_history_rows = area.y;
        }
    }

    /// Have the next frame written in full.
    pub fn invalidate_viewport(&mut self)
        ensures
            final(self)@ == old(self)@.with_invalid_viewport(),
    {
        self.viewport_invalidated = true;
    }

    /// Clear everything from `position` on.
    pub fn clear_after_position(&mut self, position: Position) -> (result: Result<
        (),
        TerminalError,
    >)
        ensures
            final(self)@ == old(self)@.cleared_after(position),
            result is Ok <==> old(self)@.accepts(2),
    {
        proof {
            lemma_sent_join(
                self@,
                seq![CommandView::MoveTo(position)],
                seq![CommandView::ClearAfterCursor],
            );
            assert(seq![CommandView::MoveTo(position)] + seq![CommandView::ClearAfterCursor]
                =~= seq![CommandView::MoveTo(position), CommandView::ClearAfterCursor]);
        }
        self.send(TerminalCommand::MoveTo(position))?;
        self.send(TerminalCommand::ClearAfterCursor)?;
        self.invalidate_viewport();
        Ok(())
    }

    /// Clear the viewport.
    pub fn clear(&mut self) -> (result: Result<(), TerminalError>)
        ensures
            final(self)@ == old(self)@.viewport_cleared(),
            result is Ok <==> old(self)@.accepts(1),
    {
        self.send(TerminalCommand::ClearViewport)?;
        self.invalidate_viewport();
        Ok(())
    }

    /// Clear what the screen shows.
    pub fn clear_visible_screen(&mut self) -> (result: Result<(), TerminalError>)
        ensures
            final(self)@ == old(self)@.screen_cleared(CommandView::ClearVisibleScreen),
            result is Ok <==> old(self)@.accepts(1),
    {
        self.send(TerminalCommand::ClearVisibleScreen)?;
        self.visible_history_rows = 0;
        self.invalidate_viewport();
        Ok(())
    }

    /// Clear what the screen shows and what has been scrolled out of it.
    pub fn clear_scrollback_and_visible_screen_ansi(&mut self) -> (result: Result<
        (),
        TerminalError,
    >)
        ensures
            final(self)@ == old(self)@.screen_cleared(
                CommandView::ClearScrollbackAndVisibleScreen,
            ),
            result is Ok <==> old(self)@.accepts(1),
    {
        self.send(TerminalCommand::ClearScrollbackAndVisibleScreen)?;
        self.visible_history_rows = 0;
        self.invalidate_viewport();
        Ok(())
    }

    /// How many rows at the top of the last frame show nothing, counted up to `max_rows`.
    pub fn rendered_viewport_blank_prefix_rows(&self, max_rows: u16) -> (rows: u16)
        ensures
            rows == blank_prefix(self@.frame, max_rows as nat),
            rows <= max_rows,
    {
        let mut rows: u16 = 0;
        assert(self@.frame.skip(0) =~= self@.frame);
        while rows < max_rows && (rows as usize) < self.frame.len() && row_is_blank(
            &self.frame[rows as usize],
        )
            invariant
                rows <= max_rows,
                rows <= self.frame.len(),
                rows + blank_prefix(self@.frame.skip(rows as int), (max_rows - rows) as nat)
                    == blank_prefix(self@.frame, max_rows as nat),
            decreases max_rows - rows,
        {
            proof {
                let rest = self@.frame.skip(rows as int);
                assert(rest[0] == self.frame@[rows as int].deep_view());
                assert(rest.drop_first() =~= self@.frame.skip(rows + 1));
            }
            rows += 1;
        }
        proof {
            let rest = self@.frame.skip(rows as int);
            if rows < self.frame.len() {
                assert(rest[0] == self.frame@[rows as int].deep_view());
            }
        }
        rows
    }
}

/// Put `prepared` above the viewport of `terminal`.
pub fn insert_prepared_history_hyperlink_lines_with_mode(
    terminal: &mut Terminal,
    prepared: &PreparedHistoryLines,
    mode: InsertHistoryMode,
) -> (result: Result<(), TerminalError>)
    ensures
        final(terminal)@ == old(terminal)@.inserted(prepared.deep_view(), mode),
        result is Ok <==> old(terminal)@.accepts(1),
{
    let copy = PreparedHistoryLines {
        lines: prepared.lines.duplicate(),
        wrap_width: prepared.wrap_width,
        row_count: prepared.row_count,
    };
    let mut area = terminal.viewport_area;
    terminal.send(TerminalCommand::InsertHistory { area, prepared: copy, mode })?;
    let rows: u16 = rows_on_screen(prepared.row_count);
    let room: u16 = terminal.screen_size.height.saturating_sub(terminal.viewport_area.bottom());
    let given_way: u16 = if rows < room {
        rows
    } else {
        room
    };
    area.y = area.y + given_way;
    terminal.set_viewport_area(area);
    let visible: u16 = terminal.visible_history_rows.saturating_add(rows);
    terminal.set_visible_history_rows(
        if visible < area.y {
            visible
        } else {
            area.y
        },
    );
    Ok(())
}

/// Terminals that are told apart by nothing in their views have their viewport in the same place, show
/// the same frame and were asked for the same operations.
pub proof fn law_the_view_of_a_terminal_is_all_of_it(
    left: Terminal,
    right: Terminal,
    row: int,
    column: int,
)
    requires
        left@ == right@,
    ensures
        left.viewport_area == right.viewport_area,
        left.last_known_screen_size == right.last_known_screen_size,
        left.last_known_cursor_pos == right.last_known_cursor_pos,
        left.screen_size == right.screen_size,
        left.visible_history_rows == right.visible_history_rows,
        left.viewport_invalidated == right.viewport_invalidated,
        left.operations_left == right.operations_left,
        left.commands.deep_view() == right.commands.deep_view(),
        left.frame@.len() == right.frame@.len(),
        0 <= row < left.frame@.len() ==> left.frame@[row]@.len() == right.frame@[row]@.len(),
        0 <= row < left.frame@.len() && 0 <= column < left.frame@[row]@.len() ==> {
            let cell = left.frame@[row]@[column];
            let other = right.frame@[row]@[column];
            cell.symbol@ == other.symbol@ && cell.style == other.style
        },
{
    assert(left.frame.deep_view().len() == right.frame.deep_view().len());
    if 0 <= row < left.frame@.len() {
        assert(left.frame.deep_view()[row] == right.frame.deep_view()[row]);
        assert(left.frame@[row].deep_view() == right.frame@[row].deep_view());
        assert(left.frame@[row].deep_view().len() == right.frame@[row].deep_view().len());
        if 0 <= column < left.frame@[row]@.len() {
            assert(left.frame@[row].deep_view()[column] == right.frame@[row].deep_view()[column]);
        }
    }
}

/// Operations that are told apart by nothing in their views are the same operation on the same rows,
/// with the same lines.
pub proof fn law_the_view_of_an_operation_is_all_of_it(left: TerminalCommand, right: TerminalCommand)
    requires
        left.deep_view() == right.deep_view(),
    ensures
        left matches TerminalCommand::MoveTo(position) ==> right == TerminalCommand::MoveTo(position),
        left matches TerminalCommand::WriteHistoryLine { line, wrap_width } ==> (
        right matches TerminalCommand::WriteHistoryLine { line: other, wrap_width: other_width }
            && line.deep_view() == other.deep_view() && wrap_width == other_width),
        left matches TerminalCommand::AppendLines(rows) ==> right == TerminalCommand::AppendLines(
            rows,
        ),
        left matches TerminalCommand::ScrollRegionUp { end, rows } ==> right
            == (TerminalCommand::ScrollRegionUp { end, rows }),
        left matches TerminalCommand::InsertHistory { area, prepared, mode } ==> (
        right matches TerminalCommand::InsertHistory {
            area: other_area,
            prepared: other,
            mode: other_mode,
        } && area == other_area && prepared.deep_view() == other.deep_view() && mode == other_mode),
        left is ClearCurrentLine == right is ClearCurrentLine,
        left is ClearAfterCursor == right is ClearAfterCursor,
        left is ResetStyle == right is ResetStyle,
        left is Flush == right is Flush,
        left is QuerySize == right is QuerySize,
        left is RepaintViewport == right is RepaintViewport,
        left is ClearViewport == right is ClearViewport,
        left is ClearVisibleScreen == right is ClearVisibleScreen,
        left is ClearScrollbackAndVisibleScreen == right is ClearScrollbackAndVisibleScreen,
{
}

/// An operation that the backend does not perform neither moves the viewport nor changes what counts as
/// visible history or as written.
pub proof fn law_what_is_not_performed_is_not_recorded(
    terminal: TerminalView,
    prepared: PreparedView,
    mode: InsertHistoryMode,
    position: Position,
    command: CommandView,
)
    requires
        terminal.operations_left == Some(0usize),
    ensures
        terminal.inserted(prepared, mode) == terminal,
        terminal.cleared_after(position) == terminal,
        terminal.viewport_cleared() == terminal,
        terminal.screen_cleared(command) == terminal,
{
    let inserting = seq![CommandView::InsertHistory { area: terminal.viewport_area, prepared, mode }];
    let clearing = seq![CommandView::MoveTo(position), CommandView::ClearAfterCursor];
    assert(terminal.commands + inserting.take(0) =~= terminal.commands);
    assert(terminal.commands + clearing.take(0) =~= terminal.commands);
    assert(terminal.commands + seq![CommandView::ClearViewport].take(0) =~= terminal.commands);
    assert(terminal.commands + seq![command].take(0) =~= terminal.commands);
}

/// Rows are counted exactly as far as the screen can count them.
pub proof fn law_screen_rows_are_exact_where_they_can_be(rows: usize)
    ensures
        rows <= u16::MAX ==> screen_rows(rows) == rows,
        rows > u16::MAX ==> screen_rows(rows) == u16::MAX,
{
}

} // verus!
