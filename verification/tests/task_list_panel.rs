use codex_tui::geometry::Rect;
use codex_tui::styled::{
    truncate_line_to_width, truncate_line_with_ellipsis_if_overflow, SpanStyle, StyledLine,
    StyledSpan, TextColor,
};
use codex_tui::task_list_panel::{
    select_fitting_task_window, ShortcutHint, TaskListPanel, TaskListPresentation,
    TaskListTurnState, COMPACT_TASK_LINE_LIMIT, DEFAULT_COMPACT_TASK_ROWS, MAX_TASK_LIST_ENTRIES,
    MAX_TASK_STEP_GRAPHEMES, TASK_PREFIX_WIDTH,
};
use codex_tui::task_window::{
    continuation_gutter, count_with_status, select_task_window, task_is_completed, PlanItemArg,
    StepStatus, TaskWindow,
};
use codex_tui::text::{decimal_text, truncate_text};
use ratatui::buffer::Buffer;
use ratatui::style::{Color, Modifier, Style};
use ratatui::text::{Line, Span};
use ratatui::widgets::{Clear, Paragraph, Widget};

/// Needs more than two wrapped lines at the widths the panel tests render.
const CLIPPED_TASK: &str = "A task whose text runs long enough to need more than the two lines the compact panel allows before it clips";

fn task(step: usize, status: StepStatus) -> PlanItemArg {
    PlanItemArg { step: format!("Task {step}"), status }
}

fn clipped_task_panel() -> TaskListPanel {
    visible_panel(vec![PlanItemArg {
        step: CLIPPED_TASK.to_string(),
        status: StepStatus::InProgress,
    }])
}

fn plan(statuses: Vec<StepStatus>) -> Vec<PlanItemArg> {
    statuses
        .into_iter()
        .enumerate()
        .map(|(index, status)| task(index, status))
        .collect()
}

fn selected_steps(plan: &[PlanItemArg], window: TaskWindow) -> Vec<&str> {
    plan[window.start..window.end]
        .iter()
        .map(|item| item.step.as_str())
        .collect()
}

fn retained_plan(panel: &TaskListPanel) -> Vec<PlanItemArg> {
    panel
        .plan
        .as_ref()
        .map_or_else(Vec::new, |plan| plan.items.clone())
}

fn visible_panel(plan: Vec<PlanItemArg>) -> TaskListPanel {
    let shortcut_hint = ShortcutHint { label: "alt + p".to_string() };
    let mut panel = TaskListPanel::new(/*render_enabled*/ true, Some(shortcut_hint));
    panel.replace_plan(plan, TaskListTurnState::Running);
    panel
}

/// Break a text at its spaces.
fn wrap(text: &str, columns: usize) -> Vec<String> {
    let mut rows = vec![String::new()];
    for word in text.split(' ') {
        let row = rows.last_mut().expect("a row");
        if row.is_empty() {
            row.push_str(word);
        } else if row.chars().count() + 1 + word.chars().count() <= columns {
            row.push(' ');
            row.push_str(word);
        } else {
            rows.push(word.to_string());
        }
    }
    rows
}

/// The texts of a panel, wrapped beside its gutter and markers.
fn wrapped_steps(panel: &TaskListPanel, width: u16) -> Vec<Vec<String>> {
    let columns = usize::from(width).saturating_sub(TASK_PREFIX_WIDTH).max(1);
    retained_plan(panel)
        .iter()
        .map(|item| wrap(&item.step, columns))
        .collect()
}

fn ratatui_style(style: SpanStyle) -> Style {
    let mut converted = Style::default();
    converted = match style.foreground {
        TextColor::Terminal => converted,
        TextColor::Cyan => converted.fg(Color::Cyan),
        other => panic!("unexpected color {other:?}"),
    };
    if style.bold {
        converted = converted.add_modifier(Modifier::BOLD);
    }
    if style.dim {
        converted = converted.add_modifier(Modifier::DIM);
    }
    if style.crossed_out {
        converted = converted.add_modifier(Modifier::CROSSED_OUT);
    }
    converted
}

fn ratatui_line(line: &StyledLine) -> Line<'static> {
    Line::from(
        line.spans
            .iter()
            .map(|span| Span::styled(span.text.clone(), ratatui_style(span.style)))
            .collect::<Vec<_>>(),
    )
}

fn render_panel_buffer(
    panel: &TaskListPanel,
    width: u16,
    height: u16,
    right_reserved_cols: u16,
) -> Buffer {
    let mut buffer = Buffer::empty(ratatui::layout::Rect::new(0, 0, width, height));
    let wrapped = wrapped_steps(panel, width.saturating_sub(right_reserved_cols));
    let area = Rect::new(0, 0, width, height);
    if let Some(rendered) = panel.as_renderable(right_reserved_cols).render(&wrapped, area) {
        let content = ratatui::layout::Rect::new(
            rendered.area.x,
            rendered.area.y,
            rendered.area.width,
            rendered.area.height,
        );
        Clear.render(content, &mut buffer);
        Paragraph::new(rendered.lines.iter().map(ratatui_line).collect::<Vec<_>>())
            .render(content, &mut buffer);
    }
    buffer
}

fn render_panel(
    panel: &TaskListPanel,
    width: u16,
    height: u16,
    right_reserved_cols: u16,
) -> String {
    let buffer = render_panel_buffer(panel, width, height, right_reserved_cols);
    (0..height)
        .map(|row| {
            (0..width)
                .map(|column| buffer[(column, row)].symbol())
                .collect::<String>()
                .trim_end()
                .to_string()
        })
        .collect::<Vec<_>>()
        .join("\n")
}

fn desired_height(panel: &TaskListPanel, width: u16) -> u16 {
    panel.desired_height(&wrapped_steps(panel, width), width)
}

#[test]
fn compact_window_centers_one_current_task_with_two_rows_on_each_side() {
    let plan = plan(vec![
        StepStatus::Completed,
        StepStatus::Completed,
        StepStatus::Completed,
        StepStatus::InProgress,
        StepStatus::Pending,
        StepStatus::Pending,
        StepStatus::Pending,
    ]);

    let window = select_task_window(&plan, DEFAULT_COMPACT_TASK_ROWS);

    assert_eq!(window, TaskWindow { start: 1, end: 6 });
    assert_eq!(
        selected_steps(&plan, window),
        vec!["Task 1", "Task 2", "Task 3", "Task 4", "Task 5"]
    );
}

#[test]
fn compact_window_uses_one_previous_row_for_multiple_adjacent_current_tasks() {
    let plan = plan(vec![
        StepStatus::Completed,
        StepStatus::Completed,
        StepStatus::InProgress,
        StepStatus::InProgress,
        StepStatus::InProgress,
        StepStatus::Pending,
        StepStatus::Pending,
    ]);

    let window = select_task_window(&plan, DEFAULT_COMPACT_TASK_ROWS);

    assert_eq!(window, TaskWindow { start: 1, end: 6 });
    assert_eq!(
        selected_steps(&plan, window),
        vec!["Task 1", "Task 2", "Task 3", "Task 4", "Task 5"]
    );
}

#[test]
fn compact_window_stays_contiguous_when_current_tasks_are_separated() {
    let plan = plan(vec![
        StepStatus::Completed,
        StepStatus::Completed,
        StepStatus::InProgress,
        StepStatus::Pending,
        StepStatus::Pending,
        StepStatus::Pending,
        StepStatus::InProgress,
    ]);

    let window = select_task_window(&plan, DEFAULT_COMPACT_TASK_ROWS);

    assert_eq!(window, TaskWindow { start: 1, end: 6 });
    assert_eq!(
        selected_steps(&plan, window),
        vec!["Task 1", "Task 2", "Task 3", "Task 4", "Task 5"]
    );
}

#[test]
fn compact_window_anchors_the_first_pending_task_when_none_are_current() {
    let plan = plan(vec![
        StepStatus::Completed,
        StepStatus::Completed,
        StepStatus::Completed,
        StepStatus::Pending,
        StepStatus::Pending,
        StepStatus::Pending,
    ]);

    assert_eq!(
        select_task_window(&plan, DEFAULT_COMPACT_TASK_ROWS),
        TaskWindow { start: 1, end: 6 }
    );
}

#[test]
fn compact_window_shows_the_last_completed_rows_when_every_task_is_done() {
    let plan = plan(vec![StepStatus::Completed; 7]);

    assert_eq!(
        select_task_window(&plan, DEFAULT_COMPACT_TASK_ROWS),
        TaskWindow { start: 2, end: 7 }
    );
}

#[test]
fn compact_window_backfills_at_plan_boundaries() {
    let current_at_start = plan(vec![
        StepStatus::InProgress,
        StepStatus::Pending,
        StepStatus::Pending,
        StepStatus::Pending,
        StepStatus::Pending,
        StepStatus::Pending,
        StepStatus::Pending,
    ]);
    let current_at_end = plan(vec![
        StepStatus::Completed,
        StepStatus::Completed,
        StepStatus::Completed,
        StepStatus::Completed,
        StepStatus::Completed,
        StepStatus::Completed,
        StepStatus::InProgress,
    ]);

    assert_eq!(
        select_task_window(&current_at_start, DEFAULT_COMPACT_TASK_ROWS),
        TaskWindow { start: 0, end: 5 }
    );
    assert_eq!(
        select_task_window(&current_at_end, DEFAULT_COMPACT_TASK_ROWS),
        TaskWindow { start: 2, end: 7 }
    );
}

#[test]
fn compact_window_handles_every_capacity_as_one_contiguous_range() {
    let plan = plan(vec![
        StepStatus::Completed,
        StepStatus::Completed,
        StepStatus::Completed,
        StepStatus::InProgress,
        StepStatus::Pending,
        StepStatus::Pending,
        StepStatus::Pending,
    ]);
    let expected = [
        TaskWindow { start: 0, end: 0 },
        TaskWindow { start: 3, end: 4 },
        TaskWindow { start: 3, end: 5 },
        TaskWindow { start: 3, end: 6 },
        TaskWindow { start: 2, end: 6 },
        TaskWindow { start: 1, end: 6 },
        TaskWindow { start: 1, end: 7 },
        TaskWindow { start: 0, end: 7 },
    ];

    let actual = (0..=plan.len())
        .map(|capacity| select_task_window(&plan, capacity))
        .collect::<Vec<_>>();

    assert_eq!(actual, expected);
    for (capacity, window) in actual.into_iter().enumerate() {
        assert_eq!(window.len(), capacity.min(plan.len()));
        assert!(window.start <= window.end);
        assert!(window.end <= plan.len());
        if capacity > 0 {
            assert!(window.start <= 3 && 3 < window.end);
        }
    }
}

#[test]
fn compact_window_is_empty_for_empty_input_or_zero_capacity() {
    let empty = Vec::new();
    let non_empty = plan(vec![StepStatus::InProgress]);

    assert_eq!(select_task_window(&empty, 5), TaskWindow::default());
    assert_eq!(select_task_window(&non_empty, 0), TaskWindow::default());
}

#[test]
fn panel_retains_an_incomplete_plan_while_rendering_is_disabled() {
    let retained = plan(vec![StepStatus::InProgress, StepStatus::Pending]);
    let mut panel = TaskListPanel::new(/*render_enabled*/ false, None);

    panel.replace_plan(retained.clone(), TaskListTurnState::Running);
    assert!(!panel.is_visible());

    panel.set_render_enabled(true);
    assert!(panel.is_visible());
    assert_eq!(retained_plan(&panel), retained);
}

#[test]
fn panel_clears_a_completed_plan_when_its_turn_finishes() {
    let mut panel = TaskListPanel::new(/*render_enabled*/ true, None);
    panel.replace_plan(
        plan(vec![StepStatus::Completed, StepStatus::Completed]),
        TaskListTurnState::Running,
    );

    assert!(panel.is_visible());
    assert!(panel.toggle_expanded());

    panel.on_turn_finished();

    assert!(!panel.is_visible());
    assert_eq!(retained_plan(&panel), Vec::new());
    assert_eq!(panel.presentation, TaskListPresentation::Compact);
}

#[test]
fn panel_immediately_clears_a_completed_idle_update() {
    let mut panel = TaskListPanel::new(/*render_enabled*/ true, None);

    panel.replace_plan(plan(vec![StepStatus::Completed]), TaskListTurnState::Idle);

    assert!(!panel.is_visible());
    assert_eq!(retained_plan(&panel), Vec::new());
}

#[test]
fn panel_keeps_incomplete_work_after_the_turn_finishes() {
    let retained = plan(vec![StepStatus::Completed, StepStatus::Pending]);
    let mut panel = TaskListPanel::new(/*render_enabled*/ true, None);
    panel.replace_plan(retained.clone(), TaskListTurnState::Running);

    panel.on_turn_finished();

    assert!(panel.is_visible());
    assert_eq!(retained_plan(&panel), retained);
}

#[test]
fn panel_replaces_the_previous_plan_and_empty_updates_clear_it() {
    let mut panel = TaskListPanel::new(/*render_enabled*/ true, None);
    panel.replace_plan(
        plan(vec![StepStatus::InProgress, StepStatus::Pending]),
        TaskListTurnState::Running,
    );
    assert!(panel.toggle_expanded());

    let replacement = plan(vec![StepStatus::Pending]);
    panel.replace_plan(replacement.clone(), TaskListTurnState::Running);

    assert_eq!(retained_plan(&panel), replacement);
    assert_eq!(panel.presentation, TaskListPresentation::Expanded);

    panel.replace_plan(Vec::new(), TaskListTurnState::Running);

    assert_eq!(retained_plan(&panel), Vec::new());
    assert_eq!(panel.presentation, TaskListPresentation::Compact);
}

#[test]
fn panel_bounds_retained_entries_and_task_text_without_losing_source_counts() {
    let mut source_plan = (0..150)
        .map(|index| task(index, StepStatus::Pending))
        .collect::<Vec<_>>();
    source_plan[120] = PlanItemArg {
        step: "x".repeat(MAX_TASK_STEP_GRAPHEMES + 1),
        status: StepStatus::InProgress,
    };
    let mut panel = visible_panel(source_plan);

    let retained = panel.plan.as_ref().expect("retained display plan");
    assert_eq!(retained.items.len(), MAX_TASK_LIST_ENTRIES);
    assert_eq!(retained.source_start, 50);
    assert_eq!(retained.total_items, 150);
    assert_eq!(retained.completed_items, 0);
    let current = retained
        .items
        .iter()
        .find(|item| matches!(&item.status, StepStatus::InProgress))
        .expect("current item remains in the bounded source window");
    assert_eq!(current.step.chars().count(), MAX_TASK_STEP_GRAPHEMES);
    assert!(current.step.ends_with("..."));

    assert!(panel.toggle_expanded());
    let height = desired_height(&panel, /*width*/ 400);
    let rendered = render_panel(
        &panel, /*width*/ 400, height, /*right_reserved_cols*/ 0,
    );
    assert!(rendered.starts_with("Tasks 0/150 · 50 hidden"));
}

#[test]
fn removing_the_last_shortcut_collapses_an_expanded_panel() {
    let mut panel = visible_panel(plan(vec![StepStatus::InProgress, StepStatus::Pending]));
    assert!(panel.toggle_expanded());

    panel.set_shortcut_hint(None);

    assert_eq!(panel.presentation, TaskListPresentation::Compact);
    assert_eq!(panel.shortcut_hint, None);
}

#[test]
fn fully_reserved_width_consumes_no_panel_height() {
    let panel = visible_panel(plan(vec![StepStatus::InProgress]));

    assert_eq!(
        panel
            .as_renderable(/*right_reserved_cols*/ 20)
            .desired_height(&wrapped_steps(&panel, 0), /*width*/ 20),
        0
    );
}

#[test]
fn task_statuses_render_markers_and_text_with_distinct_styles() {
    let panel = visible_panel(plan(vec![
        StepStatus::Completed,
        StepStatus::InProgress,
        StepStatus::Pending,
    ]));
    let buffer = render_panel_buffer(
        &panel, /*width*/ 40, /*height*/ 4, /*right_reserved_cols*/ 0,
    );

    let actual = [1, 2, 3].map(|row| (buffer[(3, row)].style(), buffer[(5, row)].style()));
    let base_style = Style::default()
        .fg(Color::Reset)
        .bg(Color::Reset)
        .underline_color(Color::Reset);
    let expected = [
        (
            base_style.add_modifier(Modifier::DIM),
            base_style
                .add_modifier(Modifier::CROSSED_OUT)
                .add_modifier(Modifier::DIM),
        ),
        (base_style, base_style.fg(Color::Cyan).add_modifier(Modifier::BOLD)),
        (base_style, base_style.add_modifier(Modifier::DIM)),
    ];
    assert_eq!(actual, expected);
}

#[test]
fn compact_panel_renders_five_rows_and_both_directional_gutters() {
    let panel = visible_panel(plan(vec![
        StepStatus::Completed,
        StepStatus::Completed,
        StepStatus::Completed,
        StepStatus::InProgress,
        StepStatus::Pending,
        StepStatus::Pending,
        StepStatus::Pending,
    ]));

    assert_eq!(
        render_panel(
            &panel, /*width*/ 48, /*height*/ 6, /*right_reserved_cols*/ 0
        ),
        "Tasks 3/7 · 2 hidden · alt + p expand\n\
         ↑↑ ✔ Task 1\n   ✔ Task 2\n   □ Task 3\n   □ Task 4\n↓↓ □ Task 5"
    );
}

#[test]
fn compact_panel_keeps_a_continuous_multi_current_window() {
    let panel = visible_panel(plan(vec![
        StepStatus::Completed,
        StepStatus::Completed,
        StepStatus::InProgress,
        StepStatus::InProgress,
        StepStatus::Pending,
        StepStatus::Pending,
        StepStatus::InProgress,
    ]));

    assert_eq!(
        render_panel(
            &panel, /*width*/ 48, /*height*/ 6, /*right_reserved_cols*/ 0
        ),
        "Tasks 2/7 · 2 hidden · alt + p expand\n\
         ↑↑ ✔ Task 1\n   □ Task 2\n   □ Task 3\n   □ Task 4\n↓↓ □ Task 5"
    );
}

#[test]
fn compact_panel_uses_the_combined_gutter_when_only_one_task_fits() {
    let panel = visible_panel(plan(vec![
        StepStatus::Completed,
        StepStatus::Completed,
        StepStatus::Completed,
        StepStatus::InProgress,
        StepStatus::Pending,
        StepStatus::Pending,
        StepStatus::Pending,
    ]));

    assert_eq!(
        render_panel(
            &panel, /*width*/ 32, /*height*/ 2, /*right_reserved_cols*/ 0
        ),
        "Tasks 3/7 · 6 hidden\n↑↓ □ Task 3"
    );
}

#[test]
fn compact_panel_wraps_a_task_to_two_lines_and_clips_the_remainder() {
    let panel = clipped_task_panel();

    let rendered = render_panel(
        &panel, /*width*/ 40, /*height*/ 6, /*right_reserved_cols*/ 0,
    );
    let task_lines = rendered
        .lines()
        .skip(1)
        .filter(|line| !line.is_empty())
        .collect::<Vec<_>>();

    assert_eq!(task_lines.len(), COMPACT_TASK_LINE_LIMIT, "{rendered}");
    assert!(task_lines[1].ends_with('…'), "{rendered}");
}

#[test]
fn heading_omits_the_shortcut_when_every_task_fits() {
    let panel = visible_panel(plan(vec![StepStatus::InProgress, StepStatus::Pending]));

    let rendered = render_panel(
        &panel, /*width*/ 40, /*height*/ 3, /*right_reserved_cols*/ 0,
    );

    assert_eq!(rendered.lines().next(), Some("Tasks 0/2"));
}

#[test]
fn heading_offers_the_shortcut_when_a_task_is_clipped() {
    let panel = clipped_task_panel();

    let rendered = render_panel(
        &panel, /*width*/ 40, /*height*/ 6, /*right_reserved_cols*/ 0,
    );

    assert!(
        rendered
            .lines()
            .next()
            .is_some_and(|heading| heading.ends_with("expand")),
        "{rendered}"
    );
}

#[test]
fn heading_offers_the_shortcut_when_tasks_are_hidden() {
    let panel = visible_panel(plan(vec![
        StepStatus::Completed,
        StepStatus::Completed,
        StepStatus::InProgress,
        StepStatus::Pending,
        StepStatus::Pending,
        StepStatus::Pending,
    ]));

    let rendered = render_panel(
        &panel, /*width*/ 40, /*height*/ 6, /*right_reserved_cols*/ 0,
    );

    assert!(
        rendered
            .lines()
            .next()
            .is_some_and(|heading| heading.ends_with("expand")),
        "{rendered}"
    );
}

#[test]
fn compact_panel_truncates_rows_and_reserves_right_columns() {
    let panel = visible_panel(vec![PlanItemArg {
        step: "A task with text that cannot fit".to_string(),
        status: StepStatus::InProgress,
    }]);

    assert_eq!(
        render_panel(
            &panel, /*width*/ 20, /*height*/ 2, /*right_reserved_cols*/ 4
        ),
        "Tasks 0/1\n   □ A task wit…"
    );
}

#[test]
fn expanded_panel_wraps_every_task_and_updates_the_heading_action() {
    let mut panel = visible_panel(vec![
        PlanItemArg {
            step: "Inspect https://example.com/path before editing".to_string(),
            status: StepStatus::Completed,
        },
        PlanItemArg {
            step: "Implement the persistent checklist above the composer".to_string(),
            status: StepStatus::InProgress,
        },
        PlanItemArg {
            step: "Verify narrow and constrained layouts".to_string(),
            status: StepStatus::Pending,
        },
    ]);
    assert!(panel.toggle_expanded());
    let height = desired_height(&panel, /*width*/ 34);

    assert_eq!(
        render_panel(
            &panel, /*width*/ 34, height, /*right_reserved_cols*/ 0
        ),
        "Tasks 1/3 · alt + p collapse\n\
         \u{20}  ✔ Inspect\n     https://example.com/path\n     before editing\n\
         \u{20}  □ Implement the persistent\n     checklist above the composer\n\
         \u{20}  □ Verify narrow and constrained\n     layouts"
    );
}

#[test]
fn expanded_panel_preserves_the_anchor_when_height_is_constrained() {
    let mut panel = visible_panel(vec![
        task(0, StepStatus::Completed),
        task(1, StepStatus::Completed),
        task(2, StepStatus::Completed),
        PlanItemArg {
            step: "Current task wraps across several constrained rows".to_string(),
            status: StepStatus::InProgress,
        },
        task(4, StepStatus::Pending),
        task(5, StepStatus::Pending),
    ]);
    assert!(panel.toggle_expanded());

    assert_eq!(
        render_panel(
            &panel, /*width*/ 24, /*height*/ 3, /*right_reserved_cols*/ 0
        ),
        "Tasks 3/6 · 5 hidden\n↑↓ □ Current task wraps\n     across several…"
    );
}

#[test]
fn completed_panel_remains_visible_while_its_turn_is_running() {
    let panel = visible_panel(plan(vec![StepStatus::Completed, StepStatus::Completed]));

    assert_eq!(
        render_panel(
            &panel, /*width*/ 40, /*height*/ 3, /*right_reserved_cols*/ 0
        ),
        "Tasks 2/2\n   ✔ Task 0\n   ✔ Task 1"
    );
}

#[test]
fn a_panel_fills_the_height_it_desires_and_no_more() {
    let mut panel = visible_panel(plan(vec![StepStatus::InProgress; 9]));
    for _ in 0..2 {
        let height = desired_height(&panel, 30);
        let wrapped = wrapped_steps(&panel, 30);
        assert_eq!(panel.render_lines(&wrapped, 30, height).len(), usize::from(height));
        for less in 1..height {
            assert!(panel.render_lines(&wrapped, 30, less).len() <= usize::from(less));
        }
        assert!(panel.toggle_expanded());
    }
    assert_eq!(desired_height(&panel, 30), 6);
    assert_eq!(desired_height(&panel, 0), 0);
    assert!(panel.toggle_expanded());
    assert_eq!(desired_height(&panel, 30), 10);
}

#[test]
fn a_compact_panel_never_asks_for_more_than_six_rows() {
    for tasks in 1..12 {
        for lines in 1..4 {
            let panel = visible_panel(plan(vec![StepStatus::Pending; tasks]));
            let wrapped = vec![vec!["line".to_string(); lines]; tasks];
            assert!(panel.desired_height(&wrapped, 30) <= 6);
            for height in [0, 1, 6, 7, 40] {
                assert!(panel.render_lines(&wrapped, 30, height).len() <= 6);
            }
        }
    }
}

#[test]
fn wrapped_tasks_give_way_until_the_rest_fits() {
    let plan = plan(vec![
        StepStatus::Completed,
        StepStatus::InProgress,
        StepStatus::Pending,
        StepStatus::Pending,
    ]);
    let two_rows = vec!["first".to_string(), "second".to_string()];
    let wrapped = vec![two_rows.clone(), two_rows.clone(), two_rows.clone(), two_rows];
    let compact = TaskListPresentation::Compact;
    assert_eq!(
        select_fitting_task_window(&plan, &wrapped, usize::MAX, compact),
        TaskWindow { start: 1, end: 3 }
    );
    assert_eq!(
        select_fitting_task_window(&plan, &wrapped, 1, compact),
        TaskWindow { start: 1, end: 2 }
    );
    assert_eq!(
        select_fitting_task_window(&plan, &wrapped, 0, compact),
        TaskWindow { start: 0, end: 0 }
    );
    assert_eq!(
        select_fitting_task_window(&plan, &wrapped, 8, TaskListPresentation::Expanded),
        TaskWindow { start: 0, end: 4 }
    );
}

#[test]
fn only_completed_tasks_count_as_completed() {
    let plan = plan(vec![
        StepStatus::Completed,
        StepStatus::InProgress,
        StepStatus::Pending,
        StepStatus::Completed,
    ]);
    assert_eq!(
        plan.iter().map(task_is_completed).collect::<Vec<_>>(),
        vec![true, false, false, true]
    );
    assert_eq!(count_with_status(&plan, StepStatus::Completed), 2);
    assert_eq!(count_with_status(&plan, StepStatus::Pending), 1);
}

#[test]
fn toggling_twice_restores_the_panel() {
    let mut panel = visible_panel(plan(vec![StepStatus::Pending]));
    let before = panel.clone();
    assert!(panel.toggle_expanded());
    assert_ne!(panel, before);
    assert!(panel.toggle_expanded());
    assert_eq!(panel, before);
}

#[test]
fn hidden_and_shown_tasks_add_up() {
    let window = TaskWindow { start: 2, end: 5 };
    assert_eq!(window.hidden_count(9) + window.len(), 9);
    assert_eq!(TaskWindow { start: 7, end: 5 }.len(), 0);
    assert_eq!(TaskWindow { start: usize::MAX, end: 0 }.hidden_count(3), usize::MAX);
}

#[test]
fn gutters_show_where_tasks_are_hidden() {
    let middle = TaskWindow { start: 1, end: 4 };
    assert_eq!(continuation_gutter(middle, 1, 6), "↑↑ ");
    assert_eq!(continuation_gutter(middle, 2, 6), "   ");
    assert_eq!(continuation_gutter(middle, 3, 6), "↓↓ ");
    assert_eq!(continuation_gutter(TaskWindow { start: 0, end: 3 }, 0, 3), "   ");
    assert_eq!(continuation_gutter(TaskWindow { start: 2, end: 3 }, 2, 6), "↑↓ ");
}

#[test]
fn a_text_is_cut_between_visible_characters() {
    assert_eq!(truncate_text("short", 5), "short");
    assert_eq!(truncate_text("too long", 6), "too...");
    assert_eq!(truncate_text("abc", 2), "ab");
    assert_eq!(truncate_text("abc", 0), "");
    // A letter with a combining accent is one visible character.
    assert_eq!(truncate_text("e\u{301}e\u{301}e\u{301}", 3), "e\u{301}e\u{301}e\u{301}");
    assert_eq!(truncate_text("e\u{301}e\u{301}e\u{301}", 2), "e\u{301}e\u{301}");
    assert_eq!(truncate_text("e\u{301}abcd", 4), "e\u{301}...");
}

#[test]
fn a_line_is_cut_to_its_columns() {
    let dim = SpanStyle::dim();
    let line = StyledLine {
        spans: vec![
            StyledSpan::new("界界".to_string(), SpanStyle::plain()),
            StyledSpan::new("ab".to_string(), dim),
        ],
    };
    assert_eq!(line.width(), 6);
    assert_eq!(truncate_line_with_ellipsis_if_overflow(line.clone(), 6), line);
    assert_eq!(truncate_line_with_ellipsis_if_overflow(line.clone(), 0).spans, Vec::new());
    let texts = |line: &StyledLine| {
        line.spans.iter().map(|span| span.text.clone()).collect::<Vec<_>>()
    };
    assert_eq!(texts(&truncate_line_to_width(&line, 3)), vec!["界"]);
    assert_eq!(
        texts(&truncate_line_with_ellipsis_if_overflow(line.clone(), 4)),
        vec!["界", "…"]
    );
    let cut = truncate_line_with_ellipsis_if_overflow(line, 5);
    assert_eq!(texts(&cut), vec!["界界", "…"]);
    assert_eq!(cut.spans[1].style, SpanStyle::plain());
}

#[test]
fn numbers_are_written_in_decimal() {
    assert_eq!(decimal_text(0), "0");
    assert_eq!(decimal_text(90210), "90210");
    assert_eq!(decimal_text(usize::MAX), usize::MAX.to_string());
}
