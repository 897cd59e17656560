//! Writing and clearing rows of history at given places of the screen.

use vstd::prelude::*;

use crate::content::Content;
use crate::geometry::Position;
use crate::history_lines::{physical_row_count, HyperlinkLine, LineView};
use crate::terminal::{rows_on_screen, CommandView, Terminal, TerminalCommand, TerminalError};

verus! {

/// A line is written over whatever stands in its row.
pub open spec fn line_commands(line: LineView, wrap_width: usize, row: u16) -> Seq<CommandView> {
    seq![
        CommandView::MoveTo(Position { x: 0, y: row }),
        CommandView::ClearCurrentLine,
        CommandView::WriteHistoryLine { line, wrap_width },
    ]
}

/// The row below a line.
pub open spec fn row_below(line: LineView, wrap_width: usize, row: u16) -> u16 {
    crate::geometry::rows_joined(
        row as int,
        crate::terminal::screen_rows(
            crate::history_lines::line_rows(line, wrap_width as nat) as usize,
        ) as int,
    )
}

/// Lines are written one below the other.
pub open spec fn lines_commands(lines: Seq<LineView>, wrap_width: usize, row: u16) -> Seq<
    CommandView,
>
    decreases lines.len(),
{
    if lines.len() == 0 {
        Seq::empty()
    } else {
        line_commands(lines[0], wrap_width, row) + lines_commands(
            lines.drop_first(),
            wrap_width,
            row_below(lines[0], wrap_width, row),
        )
    }
}

/// Rows are cleared one by one.
pub open spec fn clear_commands(start: u16, end: u16) -> Seq<CommandView>
    decreases end - start,
{
    if start >= end {
        Seq::empty()
    } else {
        seq![
            CommandView::MoveTo(Position { x: 0, y: start }),
            CommandView::ClearCurrentLine,
        ] + clear_commands((start + 1) as u16, end)
    }
}

/// The cursor goes back to its place, and everything is handed to the terminal.
pub open spec fn closing_commands(cursor: Position) -> Seq<CommandView> {
    seq![CommandView::MoveTo(cursor), CommandView::ResetStyle, CommandView::Flush]
}

/// Lines are written from a row on, and the cursor goes back to its place.
pub open spec fn paint_commands(
    lines: Seq<LineView>,
    wrap_width: usize,
    row: u16,
    cursor: Position,
) -> Seq<CommandView> {
    lines_commands(lines, wrap_width, row) + closing_commands(cursor)
}

/// Whether a command moves rows of the screen, or writes anywhere but at the cursor.
pub open spec fn scrolls(command: CommandView) -> bool {
    match command {
        CommandView::AppendLines(_) => true,
        CommandView::ScrollRegionUp { .. } => true,
        CommandView::InsertHistory { .. } => true,
        CommandView::RepaintViewport => true,
        _ => false,
    }
}

/// Whether lines that are written one below the other from `row` on stay above `limit`.
pub open spec fn painted_above(
    lines: Seq<LineView>,
    wrap_width: usize,
    row: u16,
    limit: u16,
) -> bool
    decreases lines.len(),
{
    lines.len() == 0 || {
        &&& row < limit
        &&& row + crate::history_lines::line_rows(lines[0], wrap_width as nat) <= limit
        &&& painted_above(
            lines.drop_first(),
            wrap_width,
            row_below(lines[0], wrap_width, row),
            limit,
        )
    }
}

/// Lines that have room between a row and a limit stay between them.
pub proof fn lemma_painted_above(
    lines: Seq<LineView>,
    wrap_width: usize,
    row: u16,
    limit: u16,
)
    requires
        wrap_width > 0,
        row + crate::history_lines::total_rows(lines, wrap_width as nat) <= limit,
    ensures
        painted_above(lines, wrap_width, row, limit),
    decreases lines.len(),
{
    if lines.len() > 0 {
        let first = seq![lines[0]];
        crate::history_lines::lemma_total_rows_join(first, lines.drop_first(), wrap_width as nat);
        assert(first + lines.drop_first() =~= lines);
        crate::history_lines::lemma_total_rows(first, wrap_width as nat);
        crate::history_lines::lemma_total_rows(first.drop_last(), wrap_width as nat);
        assert(crate::history_lines::total_rows(first.drop_last(), wrap_width as nat) == 0);
        crate::history_lines::lemma_line_has_a_row(lines[0], wrap_width as nat);
        lemma_painted_above(
            lines.drop_first(),
            wrap_width,
            row_below(lines[0], wrap_width, row),
            limit,
        );
    }
}

/// Lines that stay above a row stay above every lower one.
pub proof fn lemma_painted_above_a_lower_limit(
    lines: Seq<LineView>,
    wrap_width: usize,
    row: u16,
    limit: u16,
    lower: u16,
)
    requires
        painted_above(lines, wrap_width, row, limit),
        limit <= lower,
    ensures
        painted_above(lines, wrap_width, row, lower),
    decreases lines.len(),
{
    if lines.len() > 0 {
        lemma_painted_above_a_lower_limit(
            lines.drop_first(),
            wrap_width,
            row_below(lines[0], wrap_width, row),
            limit,
            lower,
        );
    }
}

/// Painting moves no rows of the screen.
pub proof fn lemma_painting_does_not_scroll(
    lines: Seq<LineView>,
    wrap_width: usize,
    row: u16,
    cursor: Position,
)
    ensures
        forall|index: int|
            0 <= index < paint_commands(lines, wrap_width, row, cursor).len() ==> !scrolls(
                #[trigger] paint_commands(lines, wrap_width, row, cursor)[index],
            ),
    decreases lines.len(),
{
    let commands = paint_commands(lines, wrap_width, row, cursor);
    if lines.len() > 0 {
        let below = row_below(lines[0], wrap_width, row);
        lemma_painting_does_not_scroll(lines.drop_first(), wrap_width, below, cursor);
        let rest = paint_commands(lines.drop_first(), wrap_width, below, cursor);
        assert(commands =~= line_commands(lines[0], wrap_width, row) + rest);
        assert forall|index: int| 0 <= index < commands.len() implies !scrolls(
            #[trigger] commands[index],
        ) by {
            if index >= 3 {
                assert(commands[index] == rest[index - 3]);
            }
        }
    } else {
        assert(commands =~= closing_commands(cursor));
    }
}

/// Writing lines over rows writes each of them once, in their order and for their width, and brings
/// the cursor back before everything is handed to the terminal. Clearing rows writes none.
pub proof fn law_painting_writes_each_line_once(
    lines: Seq<LineView>,
    wrap_width: usize,
    row: u16,
    cursor: Position,
)
    ensures
        ({
            let commands = paint_commands(lines, wrap_width, row, cursor);
            &&& crate::terminal::written_lines(commands) == lines
            &&& commands.len() >= 3
            &&& commands[commands.len() - 3] == CommandView::MoveTo(cursor)
            &&& commands[commands.len() - 2] == CommandView::ResetStyle
            &&& commands[commands.len() - 1] == CommandView::Flush
            &&& forall|index: int|
                0 <= index < commands.len() ==> (#[trigger] commands[index] matches
                    CommandView::WriteHistoryLine { wrap_width: width, .. } ==> width
                    == wrap_width)
        }),
    decreases lines.len(),
{
    let commands = paint_commands(lines, wrap_width, row, cursor);
    let closing = closing_commands(cursor);
    reveal_with_fuel(crate::terminal::written_lines, 4);
    assert(closing.drop_last().drop_last().drop_last() =~= Seq::<CommandView>::empty());
    assert(crate::terminal::written_lines(closing) =~= Seq::<LineView>::empty());
    if lines.len() == 0 {
        assert(commands =~= closing);
        assert(lines =~= Seq::<LineView>::empty());
    } else {
        let below = row_below(lines[0], wrap_width, row);
        let first = line_commands(lines[0], wrap_width, row);
        let rest = paint_commands(lines.drop_first(), wrap_width, below, cursor);
        law_painting_writes_each_line_once(lines.drop_first(), wrap_width, below, cursor);
        assert(commands =~= first + rest);
        assert(first.drop_last().drop_last().drop_last() =~= Seq::<CommandView>::empty());
        assert(crate::terminal::written_lines(first) =~= seq![lines[0]]);
        crate::terminal::lemma_written_lines_join(first, rest);
        assert(seq![lines[0]] + lines.drop_first() =~= lines);
        assert forall|index: int| 0 <= index < commands.len() implies (#[trigger] commands[index]
            matches CommandView::WriteHistoryLine { wrap_width: width, .. } ==> width
            == wrap_width) by {
            if index >= 3 {
                assert(commands[index] == rest[index - 3]);
            }
        }
    }
}

/// Every line is written from the first column of its own row, below the rows of the lines before it,
/// over a row that was cleared for it.
pub proof fn law_every_line_is_painted_over_its_own_row(
    lines: Seq<LineView>,
    wrap_width: usize,
    row: u16,
    cursor: Position,
    index: int,
)
    requires
        wrap_width > 0,
        0 <= index < lines.len(),
        row + crate::history_lines::total_rows(lines, wrap_width as nat) <= u16::MAX,
    ensures
        ({
            let commands = paint_commands(lines, wrap_width, row, cursor);
            let above = crate::history_lines::total_rows(lines.take(index), wrap_width as nat);
            &&& commands.len() == 3 * lines.len() + 3
            &&& commands[3 * index] == CommandView::MoveTo(
                Position { x: 0, y: (row + above) as u16 },
            )
            &&& row + above <= u16::MAX
            &&& commands[3 * index + 1] == CommandView::ClearCurrentLine
            &&& commands[3 * index + 2] == CommandView::WriteHistoryLine {
                line: lines[index],
                wrap_width,
            }
        }),
    decreases lines.len(),
{
    let width = wrap_width as nat;
    let commands = paint_commands(lines, wrap_width, row, cursor);
    let rest = lines.drop_first();
    let below = row_below(lines[0], wrap_width, row);
    let others = paint_commands(rest, wrap_width, below, cursor);
    assert(commands =~= line_commands(lines[0], wrap_width, row) + others);
    assert(seq![lines[0]] + rest =~= lines);
    crate::history_lines::lemma_total_rows_join(seq![lines[0]], rest, width);
    crate::history_lines::law_lines_take_the_rows_of_each(Seq::empty(), lines[0], width);
    assert(Seq::<LineView>::empty().push(lines[0]) =~= seq![lines[0]]);
    if index == 0 {
        assert(lines.take(0) =~= Seq::<LineView>::empty());
        if rest.len() > 0 {
            law_every_line_is_painted_over_its_own_row(rest, wrap_width, below, cursor, 0);
        } else {
            assert(others =~= closing_commands(cursor));
        }
    } else {
        law_every_line_is_painted_over_its_own_row(rest, wrap_width, below, cursor, index - 1);
        assert(lines.take(index) =~= seq![lines[0]] + rest.take(index - 1));
        crate::history_lines::lemma_total_rows_join(seq![lines[0]], rest.take(index - 1), width);
        assert(commands[3 * index] == others[3 * (index - 1)]);
        assert(commands[3 * index + 1] == others[3 * (index - 1) + 1]);
        assert(commands[3 * index + 2] == others[3 * (index - 1) + 2]);
    }
}

/// Clearing rows clears each of them once, from the first to the last, and nothing else.
pub proof fn law_every_row_is_cleared_once(start: u16, end: u16, row: u16)
    ensures
        end <= start ==> clear_commands(start, end).len() == 0,
        start <= end ==> clear_commands(start, end).len() == 2 * (end - start),
        start <= row < end ==> {
            let commands = clear_commands(start, end);
            &&& commands[2 * (row - start)] == CommandView::MoveTo(Position { x: 0, y: row })
            &&& commands[2 * (row - start) + 1] == CommandView::ClearCurrentLine
        },
    decreases end - start,
{
    if start < end {
        let next = (start + 1) as u16;
        law_every_row_is_cleared_once(next, end, row);
        let commands = clear_commands(start, end);
        let others = clear_commands(next, end);
        if start < row < end {
            assert(commands[2 * (row - start)] == others[2 * (row - next)]);
            assert(commands[2 * (row - start) + 1] == others[2 * (row - next) + 1]);
        }
    }
}

/// Write `line` over row `row`.
fn paint_line(
    terminal: &mut Terminal,
    line: &HyperlinkLine,
    wrap_width: usize,
    row: u16,
) -> (result: Result<(), TerminalError>)
    ensures
        final(terminal)@ == old(terminal)@.sent(line_commands(line.deep_view(), wrap_width, row)),
        result is Ok <==> old(terminal)@.accepts(3),
{
    proof {
        let all = line_commands(line.deep_view(), wrap_width, row);
        let first = seq![all[0]];
        let second = seq![all[1]];
        let third = seq![all[2]];
        crate::terminal::lemma_sent_join(terminal@, first, second);
        crate::terminal::lemma_sent_join(terminal@, first + second, third);
        crate::terminal::lemma_sent_join(terminal@, first, second + third);
        assert(first + second + third =~= all);
        assert(first + (second + third) =~= all);
    }
    terminal.send(TerminalCommand::MoveTo(Position::new(0, row)))?;
    terminal.send(TerminalCommand::ClearCurrentLine)?;
    terminal.send(TerminalCommand::WriteHistoryLine { line: line.duplicate(), wrap_width })?;
    Ok(())
}

/// Put the cursor back to its place.
fn close_painting(terminal: &mut Terminal) -> (result: Result<(), TerminalError>)
    ensures
        final(terminal)@ == old(terminal)@.sent(
            closing_commands(old(terminal)@.last_known_cursor_pos),
        ),
        result is Ok <==> old(terminal)@.accepts(3),
{
    proof {
        let all = closing_commands(terminal@.last_known_cursor_pos);
        let first = seq![all[0]];
        let second = seq![all[1]];
        let third = seq![all[2]];
        crate::terminal::lemma_sent_join(terminal@, first, second);
        crate::terminal::lemma_sent_join(terminal@, first + second, third);
        crate::terminal::lemma_sent_join(terminal@, first, second + third);
        assert(first + second + third =~= all);
        assert(first + (second + third) =~= all);
    }
    let cursor = terminal.last_known_cursor_pos;
    terminal.send(TerminalCommand::MoveTo(cursor))?;
    terminal.send(TerminalCommand::ResetStyle)?;
    terminal.send(TerminalCommand::Flush)?;
    Ok(())
}

/// Write the lines from `first` up to `end` one below the other, from `start_row` on.
pub fn paint_history_lines(
    terminal: &mut Terminal,
    lines: &Vec<HyperlinkLine>,
    first: usize,
    end: usize,
    wrap_width: usize,
    start_row: u16,
) -> (result: Result<(), TerminalError>)
    requires
        first <= end <= lines.len(),
        wrap_width > 0,
    ensures
        final(terminal)@ == old(terminal)@.sent(
            paint_commands(
                lines.deep_view().subrange(first as int, end as int),
                wrap_width,
                start_row,
                old(terminal)@.last_known_cursor_pos,
            ),
        ),
        result is Ok <==> old(terminal)@.accepts(
            paint_commands(
                lines.deep_view().subrange(first as int, end as int),
                wrap_width,
                start_row,
                old(terminal)@.last_known_cursor_pos,
            ).len(),
        ),
{
    let ghost before = terminal@;
    let ghost cursor = terminal@.last_known_cursor_pos;
    let ghost shown = lines.deep_view().subrange(first as int, end as int);
    let ghost all = paint_commands(shown, wrap_width, start_row, cursor);
    let ghost mut done = Seq::<CommandView>::empty();
    let mut row: u16 = start_row;
    let mut index: usize = first;
    proof {
        crate::terminal::lemma_sent_nothing(before);
        assert(shown.skip(0) =~= shown);
        assert(done + all =~= all);
    }
    while index < end
        invariant
            first <= index <= end <= lines.len(),
            wrap_width > 0,
            shown == lines.deep_view().subrange(first as int, end as int),
            before == old(terminal)@,
            cursor == before.last_known_cursor_pos,
            all == paint_commands(shown, wrap_width, start_row, cursor),
            terminal@ == before.sent(done),
            before.accepts(done.len()),
            done + paint_commands(shown.skip(index - first), wrap_width, row, cursor) == all,
        decreases end - index,
    {
        let ghost rest = shown.skip(index - first);
        let ghost next = line_commands(rest[0], wrap_width, row);
        let ghost below = row_below(rest[0], wrap_width, row);
        let ghost left = paint_commands(rest.drop_first(), wrap_width, below, cursor);
        proof {
            assert(rest[0] == lines@[index as int].deep_view());
            assert(rest.drop_first() =~= shown.skip(index + 1 - first));
            assert(done + next + left =~= all);
            crate::terminal::lemma_sent_join(before, done, next);
            crate::terminal::lemma_sent_join(before, done + next, left);
        }
        paint_line(terminal, &lines[index], wrap_width, row)?;
        let line_rows: u16 = rows_on_screen(physical_row_count(&lines[index], wrap_width));
        row = row.saturating_add(line_rows);
        index += 1;
        proof {
            done = done + next;
        }
    }
    proof {
        let closing = closing_commands(cursor);
        assert(shown.skip(index - first) =~= Seq::<LineView>::empty());
        assert(done + closing =~= all);
        crate::terminal::lemma_sent_join(before, done, closing);
    }
    close_painting(terminal)
}

/// Clear `rows` rows from `start` on.
pub fn clear_history_rows(terminal: &mut Terminal, start: u16, rows: u16) -> (result: Result<
    (),
    TerminalError,
>)
    ensures
        final(terminal)@ == old(terminal)@.sent(
            clear_commands(start, crate::geometry::rows_joined(start as int, rows as int))
                + closing_commands(old(terminal)@.last_known_cursor_pos),
        ),
        result is Ok <==> old(terminal)@.accepts(
            (clear_commands(start, crate::geometry::rows_joined(start as int, rows as int))
                + closing_commands(old(terminal)@.last_known_cursor_pos)).len(),
        ),
{
    let end: u16 = start.saturating_add(rows);
    let ghost before = terminal@;
    let ghost closing = closing_commands(before.last_known_cursor_pos);
    let ghost all = clear_commands(start, end) + closing;
    let ghost mut done = Seq::<CommandView>::empty();
    let mut row: u16 = start;
    proof {
        crate::terminal::lemma_sent_nothing(before);
        assert(done + clear_commands(row, end) + closing =~= all);
    }
    while row < end
        invariant
            start <= row <= end,
            end == crate::geometry::rows_joined(start as int, rows as int),
            before == old(terminal)@,
            closing == closing_commands(before.last_known_cursor_pos),
            all == clear_commands(start, end) + closing,
            terminal@ == before.sent(done),
            before.accepts(done.len()),
            done + clear_commands(row, end) + closing == all,
        decreases end - row,
    {
        let ghost first = seq![CommandView::MoveTo(Position { x: 0, y: row })];
        let ghost second = seq![CommandView::ClearCurrentLine];
        let ghost left = clear_commands((row + 1) as u16, end) + closing;
        proof {
            assert(done + first + (second + left) =~= all);
            assert(done + first + second + left =~= all);
            crate::terminal::lemma_sent_join(before, done, first);
            crate::terminal::lemma_sent_join(before, done + first, second);
            crate::terminal::lemma_sent_join(before, done + first, second + left);
            crate::terminal::lemma_sent_join(before, done + first + second, left);
        }
        terminal.send(TerminalCommand::MoveTo(Position::new(0, row)))?;
        terminal.send(TerminalCommand::ClearCurrentLine)?;
        row = row + 1;
        proof {
            done = done + first + second;
            assert(done + clear_commands(row, end) + closing =~= done + left);
        }
    }
    proof {
        assert(clear_commands(row, end) =~= Seq::<CommandView>::empty());
        assert(done + closing =~= all);
        crate::terminal::lemma_sent_join(before, done, closing);
    }
    close_painting(terminal)
}

} // verus!
