use codex_tui::chat_widget::ChatWidget;
use codex_tui::task_list_panel::{
    ShortcutHint, TaskListPanel, TaskListPresentation, TaskListTurnState,
};
use codex_tui::task_window::{PlanItemArg, StepStatus};
use codex_tui::tasks_settings_view::{
    task_list_settings_event, tasks_settings_view, AppEvent, PickerAnswer,
    KEEP_IN_PROGRESS_TASKS_VISIBLE_ID,
};

fn chat() -> ChatWidget {
    let mut task_list_panel =
        TaskListPanel::new(false, Some(ShortcutHint { label: "f12".to_string() }));
    task_list_panel.replace_plan(
        vec![PlanItemArg { step: "Current work".to_string(), status: StepStatus::InProgress }],
        TaskListTurnState::Running,
    );
    ChatWidget {
        keep_in_progress_tasks_visible: false,
        task_list_panel,
        user_turn_pending_start: false,
        turn_running: false,
        redraw_requested: false,
    }
}

#[test]
fn the_view_offers_the_setting_under_its_full_label() {
    let view = tasks_settings_view(/*keep_in_progress_tasks_visible*/ false);

    assert_eq!(view.title, "Tasks");
    assert_eq!(
        view.subtitle.as_deref(),
        Some("Configure the task list shown above the prompt.")
    );
    assert_eq!(view.item_name_truncate_len, "Keep in-progress tasks visible".len());
    assert_eq!(view.items.len(), 1);
    assert_eq!(view.items[0].id, "keep-in-progress-tasks-visible");
    assert_eq!(view.items[0].name, "Keep in-progress tasks visible");
    assert_eq!(
        view.items[0].description.as_deref(),
        Some("Pin the latest unfinished plan above the prompt.")
    );
    assert!(!view.items[0].enabled);
    assert!(!view.items[0].orderable);
    assert!(!view.items[0].section_break_after);
}

#[test]
fn confirming_the_tasks_setting_emits_the_selected_value() {
    let mut view = tasks_settings_view(/*keep_in_progress_tasks_visible*/ false);

    view.items[0].enabled = !view.items[0].enabled;

    assert_eq!(
        view.leave(PickerAnswer::Confirm),
        Some(AppEvent::TaskListSettingsUpdated { keep_in_progress_tasks_visible: true })
    );
}

#[test]
fn cancelling_the_tasks_setting_emits_no_update() {
    let view = tasks_settings_view(/*keep_in_progress_tasks_visible*/ true);

    assert_eq!(view.leave(PickerAnswer::Cancel), None);
}

#[test]
fn unchanged_settings_confirm_the_value_they_were_opened_with() {
    for value in [false, true] {
        assert_eq!(
            tasks_settings_view(value).leave(PickerAnswer::Confirm),
            Some(AppEvent::TaskListSettingsUpdated { keep_in_progress_tasks_visible: value })
        );
    }
}

#[test]
fn only_the_id_of_the_setting_counts() {
    assert_eq!(
        task_list_settings_event(&vec!["something-else".to_string()]),
        AppEvent::TaskListSettingsUpdated { keep_in_progress_tasks_visible: false }
    );
    assert_eq!(
        task_list_settings_event(&vec![
            "something-else".to_string(),
            KEEP_IN_PROGRESS_TASKS_VISIBLE_ID.to_string(),
        ]),
        AppEvent::TaskListSettingsUpdated { keep_in_progress_tasks_visible: true }
    );
}

#[test]
fn the_setting_shows_the_panel_and_asks_for_a_redraw() {
    let mut chat = chat();
    assert!(!chat.task_list_panel.is_visible());
    assert!(!chat.toggle_task_list());
    assert!(!chat.redraw_requested);

    chat.set_keep_in_progress_tasks_visible(true);
    assert!(chat.keep_in_progress_tasks_visible);
    assert!(chat.task_list_panel.is_visible());
    assert!(chat.redraw_requested);

    chat.redraw_requested = false;
    assert!(chat.toggle_task_list());
    assert!(chat.redraw_requested);
    assert_eq!(chat.task_list_panel.presentation, TaskListPresentation::Expanded);

    chat.set_keep_in_progress_tasks_visible(false);
    assert!(!chat.toggle_task_list());
}

#[test]
fn a_rejected_request_gives_back_its_reservation() {
    let mut chat = chat();
    let reservation = chat.reserve_user_turn_pending_start();
    assert!(reservation);
    assert!(chat.is_task_running());
    chat.finish_starting_request(reservation, /*accepted*/ false);
    assert!(!chat.user_turn_pending_start);
    assert!(!chat.is_task_running());
}

#[test]
fn failed_attempt_keeps_an_older_pending_reservation() {
    let mut chat = chat();
    assert!(chat.reserve_user_turn_pending_start());
    let second_attempt_created_reservation = chat.reserve_user_turn_pending_start();
    assert!(!second_attempt_created_reservation);

    chat.rollback_user_turn_pending_start(second_attempt_created_reservation);

    assert!(chat.user_turn_pending_start);
    assert!(chat.is_task_running());
}

#[test]
fn an_accepted_request_goes_on_waiting_for_its_turn() {
    let mut chat = chat();
    let reservation = chat.reserve_user_turn_pending_start();
    chat.finish_starting_request(reservation, /*accepted*/ true);
    assert!(chat.user_turn_pending_start);
}
