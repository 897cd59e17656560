use codex_tui::covered_history::CoveredHistoryPolicy;
use codex_tui::geometry::{Position, Rect, Size};
use codex_tui::history_lines::{
    mode_for_policy, physical_row_count, prepare_history_hyperlink_lines, HistoryLineWrapPolicy,
    HistoryTailReplacement, HyperlinkLine, InsertHistoryMode,
};
use codex_tui::history_tail::{replace_visible_terminal_history_tail, Tui};
use codex_tui::inline_append::{
    append_history_hyperlink_lines_at_placement, replace_history_tail_at_placement,
};
use codex_tui::inline_history::{
    repaint_inline_history_tail, update_inline_history_for_viewport, InlineHistoryPlacement,
};
use codex_tui::inline_viewport::{
    update_non_windows_for_resize_reflow, InlineViewportState, Platform,
};
use codex_tui::styled::{LineAlignment, SpanStyle, TextColor};
use codex_tui::terminal::{FrameCell, Terminal, TerminalCommand, TerminalError};
use codex_tui::transcript_replay::{PendingHistoryLines, TranscriptReplayTarget};
use codex_tui::windows_viewport::WindowsInlineViewportState;

/// A screen that performs what a terminal asks for.
struct Screen {
    rows: Vec<String>,
    scrollback: Vec<String>,
    frame: Vec<(u16, String)>,
    cursor: Position,
    append_lines_calls: Vec<u16>,
}

impl Screen {
    fn new(height: u16) -> Self {
        Screen {
            rows: vec![String::new(); usize::from(height)],
            scrollback: Vec::new(),
            frame: Vec::new(),
            cursor: Position::new(0, 0),
            append_lines_calls: Vec::new(),
        }
    }

    fn write(&mut self, markers: &[(u16, &str)]) {
        for &(row, marker) in markers {
            self.rows[usize::from(row)] = marker.to_string();
        }
    }

    fn scroll_region(&mut self, end: usize) {
        self.scrollback.push(self.rows.remove(0));
        self.rows.insert(end - 1, String::new());
    }

    /// Perform everything that `terminal` has collected.
    fn perform(&mut self, terminal: &mut Terminal) {
        let viewport_top = usize::from(terminal.viewport_area.top());
        for command in terminal.commands.drain(..) {
            match command {
                TerminalCommand::MoveTo(position) => self.cursor = position,
                TerminalCommand::ClearCurrentLine => {
                    self.rows[usize::from(self.cursor.y)].clear();
                }
                TerminalCommand::ClearAfterCursor => {
                    for row in &mut self.rows[usize::from(self.cursor.y)..] {
                        row.clear();
                    }
                }
                TerminalCommand::WriteHistoryLine { line, wrap_width } => {
                    for (index, row) in line_rows(&line, wrap_width).into_iter().enumerate() {
                        self.rows[usize::from(self.cursor.y) + index] = row;
                    }
                }
                TerminalCommand::AppendLines(rows) => {
                    self.append_lines_calls.push(rows);
                    for _ in 0..rows {
                        if usize::from(self.cursor.y) + 1 < self.rows.len() {
                            self.cursor.y += 1;
                        } else {
                            let height = self.rows.len();
                            self.scroll_region(height);
                        }
                    }
                }
                TerminalCommand::ScrollRegionUp { end, rows } => {
                    for _ in 0..rows {
                        self.scroll_region(usize::from(end));
                    }
                }
                TerminalCommand::InsertHistory { area, prepared, mode } => {
                    let mut row = match mode {
                        InsertHistoryMode::StandardAtHistoryBoundary { history_bottom } => {
                            usize::from(history_bottom)
                        }
                        _ => usize::from(area.top()),
                    };
                    for line in &prepared.lines {
                        for text in line_rows(line, prepared.wrap_width) {
                            if row == viewport_top {
                                self.scroll_region(viewport_top);
                                row -= 1;
                            }
                            self.rows[row] = text;
                            row += 1;
                        }
                    }
                }
                TerminalCommand::RepaintViewport => self.show_frame(viewport_top),
                TerminalCommand::ClearViewport => {
                    for row in &mut self.rows[viewport_top..] {
                        row.clear();
                    }
                }
                TerminalCommand::ClearVisibleScreen => {
                    for row in &mut self.rows {
                        row.clear();
                    }
                }
                TerminalCommand::ClearScrollbackAndVisibleScreen => {
                    self.scrollback.clear();
                    for row in &mut self.rows {
                        row.clear();
                    }
                }
                TerminalCommand::ResetStyle
                | TerminalCommand::Flush
                | TerminalCommand::QuerySize => {}
            }
        }
    }

    fn show_frame(&mut self, viewport_top: usize) {
        for row in &mut self.rows[viewport_top..] {
            row.clear();
        }
        for (row, text) in self.frame.clone() {
            self.rows[usize::from(row)] = text;
        }
    }

    /// Complete a frame that holds `texts` and is blank otherwise.
    fn draw(&mut self, terminal: &mut Terminal, texts: &[(u16, &str)]) {
        let area = terminal.viewport_area;
        terminal.frame = (area.top()..area.bottom())
            .map(|row| {
                let text = texts
                    .iter()
                    .find(|(text_row, _)| *text_row == row)
                    .map_or("", |(_, text)| text);
                let mut symbols = text.chars().map(String::from).collect::<Vec<_>>();
                symbols.resize(usize::from(area.width), " ".to_string());
                symbols.into_iter().map(plain_cell).collect()
            })
            .collect();
        self.frame = texts.iter().map(|(row, text)| (*row, text.to_string())).collect();
        self.show_frame(usize::from(area.top()));
    }
}

fn plain_cell(symbol: String) -> FrameCell {
    FrameCell { symbol, style: SpanStyle::plain() }
}

fn line_text(line: &HyperlinkLine) -> String {
    line.line.spans.iter().map(|span| span.text.as_str()).collect()
}

fn line_rows(line: &HyperlinkLine, wrap_width: usize) -> Vec<String> {
    let symbols = line_text(line).chars().collect::<Vec<_>>();
    if symbols.is_empty() {
        return vec![String::new()];
    }
    symbols.chunks(wrap_width).map(|row| row.iter().collect()).collect()
}

fn terminal(width: u16, height: u16, viewport: Rect) -> Terminal {
    let mut terminal = terminal_at(width, height, 0);
    terminal.set_viewport_area(viewport);
    terminal
}

fn terminal_at(width: u16, height: u16, cursor_row: u16) -> Terminal {
    Terminal::new(Size::new(width, height), Position::new(0, cursor_row))
}

fn history(labels: &[&str]) -> Vec<HyperlinkLine> {
    labels.iter().map(|label| HyperlinkLine::plain(label.to_string())).collect()
}

fn numbered(prefix: &str, numbers: std::ops::RangeInclusive<usize>) -> Vec<String> {
    numbers.map(|index| format!("{prefix}-{index:02}")).collect()
}

fn numbered_history(prefix: &str, numbers: std::ops::RangeInclusive<usize>) -> Vec<HyperlinkLine> {
    numbered(prefix, numbers).into_iter().map(HyperlinkLine::plain).collect()
}

fn windows_state(history_bottom: u16, visible_rows: u16) -> WindowsInlineViewportState {
    WindowsInlineViewportState {
        placement: Some(InlineHistoryPlacement::new(history_bottom, visible_rows)),
    }
}

fn append(
    terminal: &mut Terminal,
    placement: &mut InlineHistoryPlacement,
    lines: &Vec<HyperlinkLine>,
) {
    append_history_hyperlink_lines_at_placement(terminal, lines, placement).expect("append history");
}

fn replace_tail(
    terminal: &mut Terminal,
    placement: &mut InlineHistoryPlacement,
    previous: &Vec<HyperlinkLine>,
    replacement: &Vec<HyperlinkLine>,
) -> HistoryTailReplacement {
    replace_history_tail_at_placement(terminal, previous, replacement, placement)
        .expect("replace history tail")
}

#[test]
fn terminal_scroll_preserves_visible_placement_geometry() {
    let mut placement =
        InlineHistoryPlacement::new(/*history_bottom*/ 10, /*visible_rows*/ 4);
    placement.allow_viewport_growth_to(/*row*/ 3);

    placement.record_terminal_scroll(/*rows*/ 7);

    assert_eq!(
        (
            placement.history_bottom(),
            placement.visible_rows(),
            placement.viewport_growth_start(),
            placement.screen_start(),
        ),
        (3, 3, 0, 0)
    );
}

#[test]
fn viewport_shrink_capacity_accepts_history_without_scrolling() {
    let mut terminal = terminal(20, 8, Rect::new(/*x*/ 0, /*y*/ 7, 20, /*height*/ 1));
    let mut screen = Screen::new(8);
    screen.write(&[(7, "VIEWPORT")]);
    let mut placement =
        InlineHistoryPlacement::new(/*history_bottom*/ 4, /*visible_rows*/ 4);
    let pending = history(&["PENDING-1", "PENDING-2", "PENDING-3"]);

    append(&mut terminal, &mut placement, &pending);
    screen.perform(&mut terminal);

    assert_eq!(
        &screen.rows[4..],
        ["PENDING-1", "PENDING-2", "PENDING-3", "VIEWPORT"]
    );
    assert_eq!((placement.history_bottom, placement.visible_rows), (7, 7));
    assert_eq!(terminal.visible_history_rows(), 7);
    assert_eq!(placement.retained_lines, pending);
    assert!(screen.scrollback.is_empty());
}

#[test]
fn replacing_history_tail_keeps_source_geometry_and_cache_in_sync() {
    let mut terminal = terminal(20, 10, Rect::new(/*x*/ 0, /*y*/ 7, 20, /*height*/ 3));
    let mut screen = Screen::new(10);
    screen.write(&[(7, "STATUS"), (8, "COMPOSER"), (9, "FOOTER")]);
    let mut placement =
        InlineHistoryPlacement::new(/*history_bottom*/ 3, /*visible_rows*/ 0);
    let initial = history(&["HISTORY-1", "HISTORY-2", "HISTORY-3", "OLD-TAIL"]);
    append(&mut terminal, &mut placement, &initial);

    let expanded_tail = history(&["EXPANDED-1", "EXPANDED-2"]);
    assert_eq!(
        replace_tail(
            &mut terminal,
            &mut placement,
            &history(&["OLD-TAIL"]),
            &expanded_tail,
        ),
        HistoryTailReplacement::Replaced
    );
    assert_eq!(
        (
            placement.history_bottom,
            placement.visible_rows,
            placement.covered_rows,
            terminal.visible_history_rows(),
        ),
        (7, 5, 0, 5)
    );
    assert_eq!(
        placement.retained_lines,
        history(&[
            "HISTORY-1",
            "HISTORY-2",
            "HISTORY-3",
            "EXPANDED-1",
            "EXPANDED-2",
        ])
    );

    let final_tail = history(&["FINAL-TAIL"]);
    assert_eq!(
        replace_tail(&mut terminal, &mut placement, &expanded_tail, &final_tail),
        HistoryTailReplacement::Replaced
    );
    assert_eq!(
        (
            placement.history_bottom,
            placement.visible_rows,
            placement.covered_rows,
            terminal.visible_history_rows(),
        ),
        (6, 4, 0, 4)
    );
    assert_eq!(
        placement.retained_lines,
        history(&["HISTORY-1", "HISTORY-2", "HISTORY-3", "FINAL-TAIL"])
    );
    screen.perform(&mut terminal);
    assert_eq!(&screen.rows[6..], ["", "STATUS", "COMPOSER", "FOOTER"]);
    assert_eq!(&screen.rows[2..6], ["HISTORY-1", "HISTORY-2", "HISTORY-3", "FINAL-TAIL"]);
}

#[test]
fn a_tail_that_is_not_retained_requires_a_reflow() {
    let mut terminal = terminal(20, 10, Rect::new(0, 7, 20, 3));
    let mut placement = InlineHistoryPlacement::new(3, 0);
    append(&mut terminal, &mut placement, &history(&["HISTORY-1", "TAIL"]));
    let before = (terminal.clone(), placement.clone());
    let replacement = history(&["NEW"]);

    assert_eq!(
        replace_tail(&mut terminal, &mut placement, &history(&["OTHER"]), &replacement),
        HistoryTailReplacement::RequiresTranscriptReflow
    );
    terminal.viewport_area.width = 19;
    assert_eq!(
        replace_tail(&mut terminal, &mut placement, &history(&["TAIL"]), &replacement),
        HistoryTailReplacement::RequiresTranscriptReflow
    );
    terminal.viewport_area.width = 20;
    assert_eq!((terminal, placement), before);

    let mut untracked = InlineHistoryPlacement::new(4, 3);
    let mut terminal = self::terminal(20, 10, Rect::new(0, 7, 20, 3));
    append(&mut terminal, &mut untracked, &history(&["TAIL"]));
    assert_eq!(
        replace_tail(&mut terminal, &mut untracked, &history(&["TAIL"]), &replacement),
        HistoryTailReplacement::RequiresTranscriptReflow
    );
}

#[test]
fn first_and_subsequent_history_appends_preserve_the_viewport() {
    let mut terminal = terminal(20, 8, Rect::new(/*x*/ 0, /*y*/ 5, 20, /*height*/ 3));
    let mut screen = Screen::new(8);
    screen.write(&[(5, "STATUS"), (6, "COMPOSER"), (7, "FOOTER")]);
    let mut placement =
        InlineHistoryPlacement::new(/*history_bottom*/ 5, /*visible_rows*/ 0);

    append(
        &mut terminal,
        &mut placement,
        &history(&["HISTORY-1", "HISTORY-2", "HISTORY-3"]),
    );
    append(&mut terminal, &mut placement, &history(&["HISTORY-4", "HISTORY-5"]));
    screen.perform(&mut terminal);

    assert_eq!(&screen.rows[5..], ["STATUS", "COMPOSER", "FOOTER"]);
    assert_eq!((placement.history_bottom, placement.visible_rows), (5, 5));
    assert_eq!(terminal.visible_history_rows(), 5);
    assert_eq!(screen.rows[0], "HISTORY-1");
    assert_eq!(screen.rows[4], "HISTORY-5");
}

#[test]
fn appending_history_exposes_a_covered_tail_through_scrollback() {
    let mut terminal = terminal(20, 10, Rect::new(/*x*/ 0, /*y*/ 7, 20, /*height*/ 3));
    let mut screen = Screen::new(10);
    let mut placement =
        InlineHistoryPlacement::new(/*history_bottom*/ 7, /*visible_rows*/ 0);
    append(
        &mut terminal,
        &mut placement,
        &history(&["HISTORY-1", "HISTORY-2", "HISTORY-3", "HISTORY-4"]),
    );
    screen.perform(&mut terminal);
    terminal.set_viewport_area(Rect::new(/*x*/ 0, /*y*/ 5, 20, /*height*/ 5));
    assert!(update_inline_history_for_viewport(
        &mut terminal,
        &mut placement,
        5
    ));
    repaint_inline_history_tail(&mut terminal, &placement).expect("repaint tail");
    screen.perform(&mut terminal);

    append(&mut terminal, &mut placement, &history(&["PENDING-1", "PENDING-2"]));
    screen.perform(&mut terminal);

    assert_eq!(
        &screen.rows[..5],
        [
            "HISTORY-2",
            "HISTORY-3",
            "HISTORY-4",
            "PENDING-1",
            "PENDING-2"
        ]
    );
    assert_eq!(screen.append_lines_calls, &[2]);
    assert_eq!(
        (
            placement.history_bottom,
            placement.visible_rows,
            placement.covered_rows
        ),
        (5, 5, 0)
    );
    assert_eq!(terminal.visible_history_rows(), 5);
    assert!(terminal.viewport_invalidated);
}

#[test]
fn history_overflow_scrolls_only_rows_that_do_not_fit_before_viewport() {
    let mut terminal = terminal(20, 8, Rect::new(/*x*/ 0, /*y*/ 5, 20, /*height*/ 3));
    let mut screen = Screen::new(8);
    screen.write(&[(5, "STATUS"), (6, "MESSAGE"), (7, "COMPOSER")]);
    let mut placement =
        InlineHistoryPlacement::new(/*history_bottom*/ 4, /*visible_rows*/ 4);

    append(
        &mut terminal,
        &mut placement,
        &history(&["HISTORY-1", "HISTORY-2", "HISTORY-3"]),
    );
    screen.perform(&mut terminal);

    assert_eq!(&screen.rows[5..], ["STATUS", "MESSAGE", "COMPOSER"]);
    assert_eq!((placement.history_bottom, placement.visible_rows), (5, 5));
    assert_eq!(terminal.visible_history_rows(), 5);
    assert_eq!(screen.scrollback.len(), 2);
}

#[test]
fn oversized_history_consumes_exposed_rows_before_scrolling() {
    let mut terminal = terminal(20, 8, Rect::new(/*x*/ 0, /*y*/ 5, 20, /*height*/ 3));
    let mut screen = Screen::new(8);
    screen.write(&[(5, "STATUS"), (6, "COMPOSER"), (7, "FOOTER")]);
    let mut placement =
        InlineHistoryPlacement::new(/*history_bottom*/ 4, /*visible_rows*/ 4);
    let lines = (1..=8)
        .map(|index| HyperlinkLine::plain(format!("NEW-{index}")))
        .collect::<Vec<_>>();

    append(&mut terminal, &mut placement, &lines);

    assert!(terminal.commands.iter().any(|command| matches!(
        command,
        TerminalCommand::InsertHistory {
            mode: InsertHistoryMode::StandardAtHistoryBoundary { history_bottom: 4 },
            ..
        }
    )));
    screen.perform(&mut terminal);
    assert_eq!(&screen.rows[5..], ["STATUS", "COMPOSER", "FOOTER"]);
}

#[test]
fn wrapped_history_stops_before_the_first_viewport_row() {
    let mut terminal = terminal(10, 8, Rect::new(/*x*/ 0, /*y*/ 7, 10, /*height*/ 1));
    let mut screen = Screen::new(8);
    screen.write(&[(7, "VIEWPORT")]);
    let mut placement =
        InlineHistoryPlacement::new(/*history_bottom*/ 4, /*visible_rows*/ 4);
    let wrapped = line_rows(&HyperlinkLine::plain("PROMPT-START-ab-PROMPT-END".to_string()), 10)
        .into_iter()
        .map(HyperlinkLine::plain)
        .collect::<Vec<_>>();

    append(&mut terminal, &mut placement, &wrapped);
    screen.perform(&mut terminal);

    assert!(screen.rows[..7].join("").contains("PROMPT-START"));
    assert!(screen.rows[..7].join("").contains("PROMPT-END"));
    assert_eq!(
        (screen.rows[7].as_str(), placement.history_bottom),
        ("VIEWPORT", 7)
    );
}

#[test]
fn a_line_left_to_the_terminal_counts_all_its_rows() {
    let mut terminal = terminal(10, 8, Rect::new(0, 7, 10, 1));
    let mut screen = Screen::new(8);
    let mut placement = InlineHistoryPlacement::new(4, 4);
    let line = HyperlinkLine::plain("PROMPT-START-ab-PROMPT-END".to_string());
    assert_eq!(physical_row_count(&line, 10), 3);
    assert_eq!(physical_row_count(&HyperlinkLine::plain(String::new()), 10), 1);
    assert_eq!(physical_row_count(&HyperlinkLine::plain("界界界".to_string()), 5), 2);

    append(&mut terminal, &mut placement, &vec![line]);
    screen.perform(&mut terminal);

    assert_eq!(&screen.rows[4..7], ["PROMPT-STA", "RT-ab-PROM", "PT-END"]);
    assert_eq!(placement.history_bottom, 7);
}

#[test]
fn appending_nothing_changes_nothing() {
    let mut terminal = terminal(20, 8, Rect::new(0, 5, 20, 3));
    let mut placement = InlineHistoryPlacement::new(7, 2);
    let before = (terminal.clone(), placement.clone());
    append(&mut terminal, &mut placement, &Vec::new());
    assert_eq!((terminal, placement), before);
}

#[test]
fn a_failing_backend_leaves_the_placement_as_far_as_it_got() {
    let lines = history(&["PENDING-1", "PENDING-2"]);
    let mut complete = terminal(20, 8, Rect::new(0, 7, 20, 1));
    append(&mut complete, &mut InlineHistoryPlacement::new(4, 4), &lines);
    assert_eq!(complete.commands.len(), 9);

    for accepted in 0..9 {
        let mut terminal = terminal(20, 8, Rect::new(0, 7, 20, 1));
        terminal.operations_left = Some(accepted);
        let mut placement = InlineHistoryPlacement::new(4, 4);
        assert_eq!(
            append_history_hyperlink_lines_at_placement(&mut terminal, &lines, &mut placement),
            Err(TerminalError)
        );
        assert_eq!(placement, InlineHistoryPlacement::new(4, 4));
        assert_eq!(terminal.commands, complete.commands[..accepted]);
    }
    let mut terminal = terminal(20, 8, Rect::new(0, 7, 20, 1));
    terminal.operations_left = Some(9);
    assert_eq!(
        append_history_hyperlink_lines_at_placement(
            &mut terminal,
            &lines,
            &mut InlineHistoryPlacement::new(4, 4)
        ),
        Ok(())
    );
    assert_eq!(terminal.operations_left, Some(0));
}

#[test]
fn scrolls_take_the_oldest_rows_and_add_up() {
    let mut placement = InlineHistoryPlacement::new(10, 6);
    let mut terminal = terminal(20, 12, Rect::new(0, 8, 20, 4));
    update_inline_history_for_viewport(&mut terminal, &mut placement, 8);
    assert_eq!((placement.visible_rows, placement.covered_rows), (4, 2));

    let mut in_parts = placement.clone();
    in_parts.record_terminal_scroll(3);
    assert_eq!((in_parts.visible_rows, in_parts.covered_rows), (4, 2));
    in_parts.record_terminal_scroll(4);
    placement.record_terminal_scroll(7);
    assert_eq!(in_parts, placement);
    assert_eq!(
        (placement.history_bottom, placement.visible_rows, placement.covered_rows),
        (3, 1, 2)
    );
    placement.record_terminal_scroll(2);
    assert_eq!((placement.visible_rows, placement.covered_rows), (0, 1));
}

#[test]
fn flush_order_tracks_viewport_direction_and_covered_rows() {
    let mut state = windows_state(/*history_bottom*/ 17, /*visible_rows*/ 5);
    assert!(state.pending_history_precedes_resize(/*requested_top*/ 15, /*current_top*/ 17,));
    assert!(!state.pending_history_precedes_resize(/*requested_top*/ 25, /*current_top*/ 17,));

    let mut terminal = terminal(
        /*width*/ 20,
        /*height*/ 30,
        Rect::new(
            /*x*/ 0, /*y*/ 17, /*width*/ 20, /*height*/ 13,
        ),
    );
    update_inline_history_for_viewport(
        &mut terminal,
        state.placement.as_mut().expect("placement"),
        /*viewport_top*/ 16,
    );
    assert!(!state.pending_history_precedes_resize(/*requested_top*/ 15, /*current_top*/ 17,));
    state.reset();
    assert!(state.placement.is_none());
}

#[test]
fn repeated_viewport_growth_reuses_the_existing_history_gap() {
    let width = 80;
    let height = 30;
    let mut terminal = terminal(
        width,
        height,
        Rect::new(/*x*/ 0, /*y*/ 23, width, /*height*/ 7),
    );
    let mut state = windows_state(/*history_bottom*/ 23, /*visible_rows*/ 20);

    state
        .update_for_resize_reflow(&mut terminal, /*height*/ 5, Size::new(width, height))
        .expect("shrink viewport");
    state
        .update_for_resize_reflow(&mut terminal, /*height*/ 7, Size::new(width, height))
        .expect("grow viewport into existing gap");

    assert_eq!(terminal.viewport_area, Rect::new(0, 23, width, 7));
    assert_eq!(
        state.placement,
        Some(InlineHistoryPlacement::new(
            /*history_bottom*/ 23, /*visible_rows*/ 20,
        ))
    );
}

#[test]
fn viewport_growth_and_shrink_cover_then_restore_history() {
    let width = 80;
    let height = 30;
    let mut terminal = terminal(
        width,
        height,
        Rect::new(/*x*/ 0, /*y*/ 25, width, /*height*/ 5),
    );
    let mut state = windows_state(/*history_bottom*/ 24, /*visible_rows*/ 20);

    state
        .update_for_resize_reflow(&mut terminal, /*height*/ 8, Size::new(width, height))
        .expect("grow viewport");

    assert_eq!(
        (
            terminal.viewport_area,
            terminal.visible_history_rows(),
            state.placement.as_ref().expect("placement").visible_rows(),
        ),
        (Rect::new(0, 22, width, 8), 18, 18)
    );
    assert!(
        state
            .placement
            .as_ref()
            .expect("placement")
            .has_covered_rows()
    );

    state
        .update_for_resize_reflow(&mut terminal, /*height*/ 5, Size::new(width, height))
        .expect("shrink viewport");

    assert_eq!(
        (
            terminal.viewport_area,
            terminal.visible_history_rows(),
            state.placement,
        ),
        (
            Rect::new(0, 25, width, 5),
            20,
            Some(InlineHistoryPlacement::new(
                /*history_bottom*/ 24, /*visible_rows*/ 20,
            )),
        )
    );
}

#[test]
fn initial_viewport_reservation_appends_a_complete_bottom_gap() {
    let width = 20;
    let height = 8;
    let mut terminal = terminal_at(width, height, /*cursor_row*/ 5);
    let mut screen = Screen::new(height);
    let mut state = WindowsInlineViewportState::default();

    state
        .update_for_resize_reflow(&mut terminal, /*height*/ 5, Size::new(width, height))
        .expect("reserve first viewport");
    screen.perform(&mut terminal);

    assert_eq!(terminal.viewport_area, Rect::new(0, 3, width, 5));
    assert_eq!(screen.append_lines_calls, &[4]);
    assert_eq!(
        state.placement,
        Some(InlineHistoryPlacement::new(
            /*history_bottom*/ 3, /*visible_rows*/ 0,
        ))
    );
}

#[test]
fn initial_viewport_that_fits_is_still_bottom_aligned() {
    let width = 20;
    let height = 10;
    let mut terminal = terminal_at(width, height, /*cursor_row*/ 1);
    let mut screen = Screen::new(height);
    let mut state = WindowsInlineViewportState::default();

    state
        .update_for_resize_reflow(&mut terminal, /*height*/ 4, Size::new(width, height))
        .expect("reserve first viewport");
    screen.perform(&mut terminal);

    assert_eq!(
        (terminal.viewport_area, screen.append_lines_calls),
        (Rect::new(0, 6, width, 4), Vec::new())
    );
}

#[test]
fn growing_first_viewport_preserves_the_launch_row() {
    let width = 20;
    let height = 10;
    let mut terminal = terminal_at(width, height, /*cursor_row*/ 7);
    let mut screen = Screen::new(height);
    screen.write(&[(6, "WRAPPED-LAUNCH-END")]);
    let mut state = WindowsInlineViewportState::default();

    state
        .update_for_resize_reflow(&mut terminal, /*height*/ 3, Size::new(width, height))
        .expect("reserve first viewport");
    screen.perform(&mut terminal);
    state
        .update_for_resize_reflow(&mut terminal, /*height*/ 4, Size::new(width, height))
        .expect("grow first viewport");
    screen.perform(&mut terminal);

    assert_eq!(
        (
            terminal.viewport_area,
            screen.rows[5].as_str(),
            screen.append_lines_calls.as_slice(),
            state.placement,
        ),
        (
            Rect::new(0, 6, width, 4),
            "WRAPPED-LAUNCH-END",
            &[1][..],
            Some(InlineHistoryPlacement::new(
                /*history_bottom*/ 6, /*visible_rows*/ 0,
            )),
        )
    );
}

#[test]
fn first_history_batch_uses_the_shrunken_viewport_boundary() {
    let width = 20;
    let height = 30;
    let mut terminal = terminal(
        width,
        height,
        Rect::new(/*x*/ 0, /*y*/ 18, width, /*height*/ 12),
    );
    let mut screen = Screen::new(height);
    let mut state = windows_state(/*history_bottom*/ 18, /*visible_rows*/ 0);

    state
        .update_for_resize_reflow(&mut terminal, /*height*/ 7, Size::new(width, height))
        .expect("shrink viewport");
    screen.perform(&mut terminal);
    state
        .append_standard_history(&mut terminal, numbered_history("WELCOME", 1..=10))
        .expect("append history");
    screen.perform(&mut terminal);

    assert_eq!(screen.rows[13..23], numbered("WELCOME", 1..=10));
    assert_eq!(terminal.viewport_area, Rect::new(0, 23, width, 7));
}

#[test]
fn viewport_growth_scrolls_only_history_that_cannot_overlay_the_frame() {
    let width = 20;
    let height = 30;
    let mut terminal = terminal_at(width, height, /*cursor_row*/ 18);
    terminal.set_viewport_area(Rect::new(
        /*x*/ 0, /*y*/ 25, width, /*height*/ 5,
    ));
    let mut screen = Screen::new(height);
    let mut state = windows_state(/*history_bottom*/ 15, /*visible_rows*/ 0);
    state
        .append_standard_history(&mut terminal, numbered_history("WELCOME", 1..=10))
        .expect("seed welcome history");
    screen.perform(&mut terminal);

    state
        .update_for_resize_reflow(&mut terminal, /*height*/ 7, Size::new(width, height))
        .expect("grow loading viewport");
    screen.perform(&mut terminal);
    screen.draw(&mut terminal, &[(24, "STATUS")]);
    assert_eq!(
        state.placement.as_ref().expect("placement").covered_rows(),
        2
    );
    assert_eq!(terminal.rendered_viewport_blank_prefix_rows(2), 1);

    state
        .reconcile_after_draw(
            &mut terminal,
            CoveredHistoryPolicy::MoveConflictsToScrollback,
        )
        .expect("reconcile covered history");
    screen.perform(&mut terminal);

    assert_eq!(screen.rows[14..24], numbered("WELCOME", 1..=10));
    assert_eq!(screen.append_lines_calls, &[1]);
    let placement = state.placement.as_ref().expect("placement");
    assert_eq!(
        (
            placement.history_bottom(),
            placement.visible_rows(),
            placement.covered_rows(),
            placement.viewport_growth_start(),
        ),
        (24, 9, 1, 14)
    );
    assert_eq!(screen.rows[24], "STATUS");
}

#[test]
fn persistent_viewport_growth_moves_hidden_history_to_scrollback() {
    let width = 20;
    let height = 10;
    let mut terminal = terminal_at(width, height, /*cursor_row*/ 7);
    terminal.set_viewport_area(Rect::new(
        /*x*/ 0, /*y*/ 7, width, /*height*/ 3,
    ));
    let mut screen = Screen::new(height);
    let mut state = windows_state(/*history_bottom*/ 0, /*visible_rows*/ 0);
    state
        .append_standard_history(&mut terminal, numbered_history("HISTORY", 1..=7))
        .expect("seed history");
    screen.perform(&mut terminal);

    state
        .update_for_resize_reflow(&mut terminal, /*height*/ 4, Size::new(width, height))
        .expect("grow composer viewport");
    screen.perform(&mut terminal);
    screen.draw(&mut terminal, &[(6, "COMPOSER")]);
    let placement = state.placement.as_ref().expect("placement");
    assert_eq!((placement.screen_start(), placement.covered_rows()), (0, 1));

    state
        .reconcile_after_draw(
            &mut terminal,
            CoveredHistoryPolicy::MoveConflictsToScrollback,
        )
        .expect("move conflicting history to scrollback");
    screen.perform(&mut terminal);

    assert_eq!(screen.rows[..6], numbered("HISTORY", 2..=7));
    assert_eq!(screen.scrollback, ["HISTORY-01"]);
    assert_eq!(screen.append_lines_calls, &[1]);
    let placement = state.placement.as_ref().expect("placement");
    assert_eq!(
        (
            placement.history_bottom(),
            placement.visible_rows(),
            placement.covered_rows(),
            placement.screen_start(),
        ),
        (6, 6, 0, 0)
    );
    assert_eq!(screen.rows[6], "COMPOSER");
}

#[test]
fn full_screen_popup_keeps_history_covered_until_the_viewport_shrinks() {
    let width = 20;
    let height = 30;
    let mut terminal = terminal_at(width, height, /*cursor_row*/ 29);
    terminal.set_viewport_area(Rect::new(
        /*x*/ 0, /*y*/ 25, width, /*height*/ 5,
    ));
    let mut screen = Screen::new(height);
    let mut state = windows_state(/*history_bottom*/ 0, /*visible_rows*/ 0);
    state
        .append_standard_history(&mut terminal, numbered_history("HISTORY", 1..=25))
        .expect("seed history");
    screen.perform(&mut terminal);

    state
        .update_for_resize_reflow(&mut terminal, /*height*/ 30, Size::new(width, height))
        .expect("open full-screen popup");
    screen.perform(&mut terminal);
    screen.draw(&mut terminal, &[(0, "POPUP")]);
    state
        .reconcile_after_draw(
            &mut terminal,
            CoveredHistoryPolicy::RestoreAfterViewportShrinks,
        )
        .expect("keep history covered");
    screen.perform(&mut terminal);

    state
        .update_for_resize_reflow(&mut terminal, /*height*/ 5, Size::new(width, height))
        .expect("close popup");
    screen.perform(&mut terminal);
    screen.draw(&mut terminal, &[(25, "COMPOSER")]);

    assert_eq!(screen.rows[..25], numbered("HISTORY", 1..=25));
    assert!(screen.append_lines_calls.is_empty());
    assert_eq!(screen.rows[25], "COMPOSER");
}

#[test]
fn popup_recovery_scrolls_only_rows_before_retained_history() {
    let width = 20;
    let height = 10;
    let mut terminal = terminal_at(width, height, /*cursor_row*/ 6);
    terminal.set_viewport_area(Rect::new(
        /*x*/ 0, /*y*/ 7, width, /*height*/ 3,
    ));
    let mut screen = Screen::new(height);
    let mut state = windows_state(/*history_bottom*/ 1, /*visible_rows*/ 0);
    state
        .append_standard_history(&mut terminal, numbered_history("HISTORY", 1..=6))
        .expect("seed history");
    screen.perform(&mut terminal);
    assert_eq!(
        state.placement.as_ref().expect("placement").screen_start(),
        1
    );

    state
        .update_for_resize_reflow(&mut terminal, /*height*/ 6, Size::new(width, height))
        .expect("open popup");
    screen.perform(&mut terminal);
    screen.draw(&mut terminal, &[(4, "POPUP"), (5, "POPUP"), (6, "POPUP")]);
    assert_eq!(
        state.placement.as_ref().expect("placement").covered_rows(),
        3
    );

    state
        .reconcile_after_draw(
            &mut terminal,
            CoveredHistoryPolicy::RestoreAfterViewportShrinks,
        )
        .expect("reconcile popup coverage");
    screen.perform(&mut terminal);

    assert_eq!(screen.append_lines_calls, &[1]);
    let placement = state.placement.as_ref().expect("placement");
    assert_eq!(placement.screen_start(), 0);
    assert_eq!((placement.visible_rows(), placement.covered_rows()), (4, 2));
    assert_eq!(screen.rows[..4], numbered("HISTORY", 1..=4));
}

#[test]
fn a_viewport_is_held_to_the_rows_below_the_history() {
    let size = Size::new(20, 10);
    let mut terminal = terminal(20, 10, Rect::new(0, 7, 20, 3));
    let mut state = windows_state(/*history_bottom*/ 7, /*visible_rows*/ 5);
    assert_eq!(state.update_for_resize_reflow(&mut terminal, 9, size), Ok(true));
    assert_eq!(terminal.viewport_area, Rect::new(0, 2, 20, 8));
    let placement = state.placement.expect("placement");
    assert_eq!((placement.visible_rows, placement.covered_rows), (0, 5));
}

#[test]
fn a_screen_of_another_size_starts_a_new_placement() {
    let mut terminal = terminal(20, 10, Rect::new(0, 7, 20, 3));
    let mut state = windows_state(/*history_bottom*/ 7, /*visible_rows*/ 0);
    state
        .append_standard_history(&mut terminal, history(&["HISTORY-1"]))
        .expect("append history");
    assert_eq!(
        state.retained_source_for_test(),
        Some(&history(&["HISTORY-1"]))
    );
    assert_eq!(
        state.update_for_resize_reflow(&mut terminal, 3, Size::new(20, 14)),
        Ok(true)
    );
    assert_eq!(terminal.viewport_area, Rect::new(0, 11, 20, 3));
    assert_eq!(state.placement, Some(InlineHistoryPlacement::new(11, 1)));
}

#[test]
fn a_resize_that_fails_forgets_nothing_that_it_did() {
    let size = Size::new(20, 10);
    let mut terminal = terminal(20, 10, Rect::new(0, 7, 20, 3));
    terminal.operations_left = Some(1);
    let mut state = windows_state(/*history_bottom*/ 7, /*visible_rows*/ 5);
    assert_eq!(
        state.update_for_resize_reflow(&mut terminal, 4, size),
        Err(TerminalError)
    );
    assert_eq!(terminal.viewport_area, Rect::new(0, 6, 20, 4));
    assert_eq!(terminal.commands, vec![TerminalCommand::MoveTo(Position::new(0, 6))]);
    assert_eq!(state, windows_state(7, 5));
}

#[test]
fn elsewhere_a_viewport_without_room_scrolls_the_rows_above_it() {
    let mut terminal = terminal(20, 10, Rect::new(0, 6, 20, 4));
    assert_eq!(
        update_non_windows_for_resize_reflow(&mut terminal, 6, Size::new(20, 10)),
        Ok(true)
    );
    assert_eq!(terminal.viewport_area, Rect::new(0, 4, 20, 6));
    assert_eq!(
        terminal.commands,
        vec![
            TerminalCommand::ScrollRegionUp { end: 6, rows: 2 },
            TerminalCommand::MoveTo(Position::new(0, 4)),
            TerminalCommand::ClearAfterCursor,
        ]
    );
}

#[test]
fn elsewhere_a_shorter_screen_scrolls_nothing_and_a_taller_one_keeps_the_bottom() {
    let mut shrunk = terminal(20, 10, Rect::new(0, 6, 20, 4));
    assert_eq!(
        update_non_windows_for_resize_reflow(&mut shrunk, 4, Size::new(20, 8)),
        Ok(true)
    );
    assert_eq!(shrunk.viewport_area, Rect::new(0, 4, 20, 4));
    assert_eq!(shrunk.commands[0], TerminalCommand::MoveTo(Position::new(0, 4)));

    let mut grown = terminal(20, 10, Rect::new(0, 6, 20, 4));
    assert_eq!(
        update_non_windows_for_resize_reflow(&mut grown, 4, Size::new(20, 12)),
        Ok(true)
    );
    assert_eq!(grown.viewport_area, Rect::new(0, 8, 20, 4));
    assert_eq!(grown.commands[0], TerminalCommand::MoveTo(Position::new(0, 6)));

    let mut same = terminal(20, 10, Rect::new(0, 6, 20, 4));
    assert_eq!(
        update_non_windows_for_resize_reflow(&mut same, 4, Size::new(20, 10)),
        Ok(false)
    );
    assert!(same.commands.is_empty());
}

#[test]
fn a_transcript_waits_in_batches_of_one_policy() {
    let mut state = InlineViewportState::new(Platform::Other);
    assert!(!state.has_pending_transcript_replay());
    state.queue_transcript_replay(
        TranscriptReplayTarget::InlineViewport,
        history(&["A"]),
        HistoryLineWrapPolicy::PreWrap,
    );
    state.append_to_pending_transcript_replay(history(&["B"]), HistoryLineWrapPolicy::PreWrap);
    state.append_to_pending_transcript_replay(Vec::new(), HistoryLineWrapPolicy::Terminal);
    state.append_to_pending_transcript_replay(history(&["C"]), HistoryLineWrapPolicy::Terminal);
    assert_eq!(
        state.pending_transcript_replay_lines_for_test(),
        history(&["A", "B", "C"])
    );

    let waiting = state.pending_transcript_replay.as_ref().expect("a transcript waits");
    assert_eq!(
        waiting
            .history
            .iter()
            .map(|batch| (batch.lines.len(), batch.wrap_policy))
            .collect::<Vec<_>>(),
        [(2, HistoryLineWrapPolicy::PreWrap), (1, HistoryLineWrapPolicy::Terminal)]
    );

    let prepared = state
        .prepare_pending_transcript_replay(
            vec![history(&["A", "B"]), history(&["C"])],
            /*wrap_width*/ 0,
            /*is_zellij*/ true,
        )
        .expect("a transcript waits");
    assert_eq!(prepared.history.len(), 2);
    assert_eq!(prepared.history[0].mode, InsertHistoryMode::Standard);
    assert_eq!(prepared.history[0].lines.wrap_width, 1);
    assert_eq!(prepared.history[0].lines.row_count, 2);
    assert_eq!(prepared.history[1].mode, InsertHistoryMode::ZellijRaw);

    state.complete_transcript_replay();
    assert!(!state.has_pending_transcript_replay());
}

#[test]
fn a_replay_starts_on_a_clear_screen_and_follows_the_viewport() {
    for (target, clearing) in [
        (TranscriptReplayTarget::AlternateScreen, TerminalCommand::ClearVisibleScreen),
        (
            TranscriptReplayTarget::InlineViewport,
            TerminalCommand::ClearScrollbackAndVisibleScreen,
        ),
    ] {
        let mut terminal = terminal(20, 10, Rect::new(0, 7, 20, 3));
        terminal.set_visible_history_rows(5);
        let mut state = InlineViewportState::new(Platform::Windows);
        state.windows = Some(windows_state(7, 5));
        assert_eq!(state.begin_transcript_replay(&mut terminal), Ok(()));
        assert!(terminal.commands.is_empty());

        state.queue_transcript_replay(
            target,
            history(&["A", "B"]),
            HistoryLineWrapPolicy::PreWrap,
        );
        assert_eq!(state.begin_transcript_replay(&mut terminal), Ok(()));
        assert_eq!(terminal.commands, vec![clearing]);
        assert_eq!(terminal.viewport_area, Rect::new(0, 0, 20, 3));
        assert_eq!(terminal.visible_history_rows(), 0);
        assert_eq!(state.retained_source_for_test(), None);

        let prepared =
            state.prepare_pending_transcript_replay(vec![history(&["A", "B"])], 20, false);
        assert_eq!(
            state.write_prepared_transcript_replay(&mut terminal, prepared.as_ref()),
            Ok(())
        );
        assert_eq!(terminal.viewport_area, Rect::new(0, 2, 20, 3));
        assert_eq!(terminal.visible_history_rows(), 2);
    }
}

#[test]
fn flushed_history_waits_on_where_the_backend_fails() {
    let mut terminal = terminal(20, 10, Rect::new(0, 7, 20, 3));
    terminal.operations_left = Some(1);
    let mut state = InlineViewportState::new(Platform::Other);
    let batch = |label: &str, wrap_policy| PendingHistoryLines {
        lines: history(&[label]),
        wrap_policy,
    };
    let mut pending = vec![
        batch("A", HistoryLineWrapPolicy::PreWrap),
        batch("B", HistoryLineWrapPolicy::Terminal),
    ];
    let wrapped = vec![history(&["A"]), history(&["B"])];
    assert_eq!(
        state.flush_pending_history_lines(&mut terminal, &mut pending, &wrapped, true),
        Err(TerminalError)
    );
    assert_eq!(pending.len(), 2);
    assert_eq!(terminal.commands.len(), 1);

    terminal.operations_left = None;
    assert_eq!(
        state.flush_pending_history_lines(&mut terminal, &mut pending, &wrapped, true),
        Ok(())
    );
    assert!(pending.is_empty());
    assert_eq!(terminal.visible_history_rows(), 3);
    assert!(matches!(
        terminal.commands[2],
        TerminalCommand::InsertHistory { mode: InsertHistoryMode::ZellijRaw, .. }
    ));
}

#[test]
fn only_windows_tracks_clears_and_reconciles() {
    let size = Size::new(20, 10);
    let mut elsewhere = InlineViewportState::new(Platform::Other);
    let mut terminal = terminal(20, 10, Rect::new(0, 7, 20, 3));
    assert_eq!(elsewhere.clear_viewport_after_history_flush(&mut terminal), Ok(false));
    assert_eq!(
        elsewhere
            .reconcile_after_draw(&mut terminal, CoveredHistoryPolicy::MoveConflictsToScrollback),
        Ok(())
    );
    assert_eq!(
        elsewhere.replace_visible_history_tail(&mut terminal, &history(&["A"]), &history(&["B"])),
        Ok(None)
    );
    assert!(!elsewhere.pending_history_precedes_resize(4, size, 7));
    assert!(terminal.commands.is_empty());

    let mut windows = InlineViewportState::new(Platform::Windows);
    assert!(!windows.pending_history_precedes_resize(4, size, 7));
    assert_eq!(windows.update_for_resize_reflow(&mut terminal, 3, size), Ok(false));
    assert!(windows.pending_history_precedes_resize(4, size, 7));
    assert!(!windows.pending_history_precedes_resize(2, size, 7));
    assert_eq!(windows.clear_viewport_after_history_flush(&mut terminal), Ok(true));
    assert_eq!(terminal.commands, vec![TerminalCommand::ClearViewport]);
    assert_eq!(windows.append_standard_history(&mut terminal, history(&["A"])), Ok(()));
    assert_eq!(windows.retained_source_for_test(), Some(&history(&["A"])));
    windows.reset();
    assert_eq!(windows.retained_source_for_test(), None);
}

#[test]
fn a_visible_tail_is_replaced_above_the_viewport() {
    let mut terminal = terminal(20, 10, Rect::new(0, 7, 20, 3));
    let replaced = replace_visible_terminal_history_tail(
        &mut terminal,
        &history(&["OLD-1", "OLD-2"]),
        &history(&["NEW-1", "NEW-2"]),
        InsertHistoryMode::Standard,
    );
    assert_eq!(replaced, Ok(HistoryTailReplacement::Replaced));
    assert_eq!(terminal.viewport_area, Rect::new(0, 7, 20, 3));
    assert!(terminal.viewport_invalidated);
    assert_eq!(
        terminal.commands,
        vec![
            TerminalCommand::MoveTo(Position::new(0, 5)),
            TerminalCommand::ClearAfterCursor,
            TerminalCommand::InsertHistory {
                area: Rect::new(0, 5, 20, 3),
                prepared: prepare_history_hyperlink_lines(history(&["NEW-1", "NEW-2"]), 20),
                mode: InsertHistoryMode::Standard,
            },
        ]
    );
}

#[test]
fn a_tail_that_is_empty_or_too_tall_is_not_visible() {
    let mut terminal = terminal(20, 10, Rect::new(0, 2, 20, 3));
    for previous in [Vec::new(), history(&["1", "2", "3"])] {
        assert_eq!(
            replace_visible_terminal_history_tail(
                &mut terminal,
                &previous,
                &history(&["NEW"]),
                InsertHistoryMode::Standard,
            ),
            Ok(HistoryTailReplacement::NotVisible)
        );
    }
    assert!(terminal.commands.is_empty());
}

fn tui(platform: Platform) -> Tui {
    Tui {
        terminal: terminal(20, 10, Rect::new(0, 7, 20, 3)),
        inline_viewport: InlineViewportState::new(platform),
        pending_history_lines: Vec::new(),
        is_zellij: false,
        frame_scheduled: false,
    }
}

#[test]
fn a_pending_transcript_absorbs_a_replacement() {
    let mut tui = tui(Platform::Other);
    tui.inline_viewport.queue_transcript_replay(
        TranscriptReplayTarget::InlineViewport,
        history(&["A"]),
        HistoryLineWrapPolicy::PreWrap,
    );
    tui.pending_history_lines.push(PendingHistoryLines {
        lines: history(&["B"]),
        wrap_policy: HistoryLineWrapPolicy::PreWrap,
    });
    assert!(tui.transcript_replay_is_pending_for_test());
    assert_eq!(tui.pending_history_lines_for_test(), history(&["A", "B"]));
    let before = tui.clone();
    assert_eq!(
        tui.replace_visible_history_tail(
            &vec![history(&["B"])],
            &history(&["B"]),
            &history(&["C"]),
            HistoryLineWrapPolicy::PreWrap,
        ),
        Ok(HistoryTailReplacement::RequiresTranscriptReflow)
    );
    assert_eq!(tui, before);
}

#[test]
fn a_replacement_follows_what_waits_and_schedules_a_frame() {
    let mut tui = tui(Platform::Other);
    tui.pending_history_lines.push(PendingHistoryLines {
        lines: history(&["A", "B"]),
        wrap_policy: HistoryLineWrapPolicy::PreWrap,
    });
    assert_eq!(
        tui.replace_visible_history_tail(
            &vec![history(&["A", "B"])],
            &history(&["B"]),
            &history(&["C"]),
            HistoryLineWrapPolicy::PreWrap,
        ),
        Ok(HistoryTailReplacement::Replaced)
    );
    assert!(tui.frame_scheduled);
    assert!(tui.pending_history_lines.is_empty());
    let mut screen = Screen::new(10);
    screen.perform(&mut tui.terminal);
    assert_eq!(screen.rows[6], "C");
}

#[test]
fn a_followed_history_replaces_its_own_tail() {
    let mut tui = tui(Platform::Windows);
    tui.inline_viewport.windows = Some(windows_state(3, 0));
    tui.pending_history_lines.push(PendingHistoryLines {
        lines: history(&["A", "B"]),
        wrap_policy: HistoryLineWrapPolicy::PreWrap,
    });
    assert_eq!(
        tui.replace_visible_history_tail(
            &vec![history(&["A", "B"])],
            &history(&["B"]),
            &history(&["C", "D"]),
            HistoryLineWrapPolicy::PreWrap,
        ),
        Ok(HistoryTailReplacement::Replaced)
    );
    assert!(tui.frame_scheduled);
    assert_eq!(
        tui.tracked_history_source_for_test(),
        Some(&history(&["A", "C", "D"]))
    );

    tui.frame_scheduled = false;
    assert_eq!(
        tui.replace_visible_history_tail(
            &Vec::new(),
            &history(&["OTHER"]),
            &history(&["E"]),
            HistoryLineWrapPolicy::PreWrap,
        ),
        Ok(HistoryTailReplacement::RequiresTranscriptReflow)
    );
    assert!(!tui.frame_scheduled);
}

#[test]
fn a_replacement_fails_with_the_backend() {
    let mut tui = tui(Platform::Other);
    tui.terminal.operations_left = Some(1);
    assert_eq!(
        tui.replace_visible_history_tail(
            &Vec::new(),
            &history(&["B"]),
            &history(&["C"]),
            HistoryLineWrapPolicy::PreWrap,
        ),
        Err(TerminalError)
    );
    assert!(!tui.frame_scheduled);
    assert_eq!(tui.terminal.viewport_area, Rect::new(0, 7, 20, 3));
}

#[test]
fn raw_lines_need_zellij_and_their_own_policy() {
    assert_eq!(
        mode_for_policy(true, HistoryLineWrapPolicy::Terminal),
        InsertHistoryMode::ZellijRaw
    );
    assert_eq!(
        mode_for_policy(true, HistoryLineWrapPolicy::PreWrap),
        InsertHistoryMode::Standard
    );
    assert_eq!(
        mode_for_policy(false, HistoryLineWrapPolicy::Terminal),
        InsertHistoryMode::Standard
    );
}

/// The blank rows at the top of a frame of four rows, of which `change` makes one.
fn completed_frame_blank_prefix(change: impl FnOnce(&mut Vec<Vec<FrameCell>>)) -> u16 {
    let area = Rect::new(
        /*x*/ 0, /*y*/ 0, /*width*/ 8, /*height*/ 4,
    );
    let mut terminal = terminal(area.width, area.height, area);
    Screen::new(area.height).draw(&mut terminal, &[]);
    change(&mut terminal.frame);
    terminal.rendered_viewport_blank_prefix_rows(area.height)
}

#[test]
fn blank_prefix_reads_the_completed_frame() {
    let blank_rows = completed_frame_blank_prefix(|frame| {
        for (column, symbol) in "composer".chars().enumerate() {
            frame[2][column].symbol = symbol.to_string();
        }
    });

    assert_eq!(blank_rows, 2);
}

#[test]
fn blank_prefix_requires_unmodified_spaces_with_reset_backgrounds() {
    let empty_symbol = completed_frame_blank_prefix(|frame| {
        frame[0][0].symbol = String::new();
    });
    let colored_background = completed_frame_blank_prefix(|frame| {
        frame[0][0].style.background = TextColor::Blue;
    });
    let modified_space = completed_frame_blank_prefix(|frame| {
        frame[0][0].style.reversed = true;
    });

    assert_eq!(
        (empty_symbol, colored_background, modified_space),
        (0, 0, 0)
    );
}

#[test]
fn what_blinks_or_is_hidden_is_no_blank_but_colors_without_a_mark_are() {
    let blinking = completed_frame_blank_prefix(|frame| {
        frame[0][0].style.slow_blink = true;
    });
    let flashing = completed_frame_blank_prefix(|frame| {
        frame[0][0].style.rapid_blink = true;
    });
    let hidden = completed_frame_blank_prefix(|frame| {
        frame[0][0].style.hidden = true;
    });
    let colored = completed_frame_blank_prefix(|frame| {
        frame[0][0].style.foreground = TextColor::Red;
        frame[0][0].style.underline_color = TextColor::Red;
    });
    assert_eq!((blinking, flashing, hidden, colored), (0, 0, 0, 4));
}

#[test]
fn a_tail_in_another_style_or_place_is_another_tail() {
    let changes: [fn(&mut HyperlinkLine); 6] = [
        |line| line.style = SpanStyle::bold(),
        |line| line.alignment = Some(LineAlignment::Right),
        |line| line.line.spans[0].style.hidden = true,
        |line| line.line.spans[0].style.slow_blink = true,
        |line| line.line.spans[0].style.rapid_blink = true,
        |line| line.line.spans[0].style.underline_color = TextColor::Red,
    ];
    for change in changes {
        let mut terminal = terminal(20, 10, Rect::new(0, 7, 20, 3));
        let mut placement = InlineHistoryPlacement::new(3, 0);
        let mut tail = history(&["TAIL"]);
        change(&mut tail[0]);
        append(&mut terminal, &mut placement, &tail);
        assert_eq!(placement.retained_lines, tail);
        let replacement = history(&["NEW"]);
        assert_eq!(
            replace_tail(&mut terminal, &mut placement, &history(&["TAIL"]), &replacement),
            HistoryTailReplacement::RequiresTranscriptReflow
        );
        assert_eq!(
            replace_tail(&mut terminal, &mut placement, &tail, &replacement),
            HistoryTailReplacement::Replaced
        );
    }
}

#[test]
fn areas_are_cut_at_the_end_of_the_coordinates() {
    assert_eq!(
        Rect::new(u16::MAX - 2, 3, 10, 4),
        Rect { x: u16::MAX - 2, y: 3, width: 2, height: 4 }
    );
    assert_eq!(Rect::new(0, 5, 1, 3).bottom(), 8);
    assert_eq!(Rect { x: 0, y: u16::MAX, width: 1, height: 3 }.bottom(), u16::MAX);
}
