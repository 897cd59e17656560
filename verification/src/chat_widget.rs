//! The chat's own state: the task list that it pins, and the start of a turn that it waits for.

use vstd::prelude::*;

use crate::task_list_panel::{TaskListPanel, TaskListPanelView};

verus! {

#[derive(Clone, Debug, PartialEq, Eq)]
pub struct ChatWidget {
    /// The setting that pins the task list.
    pub keep_in_progress_tasks_visible: bool,
    pub task_list_panel: TaskListPanel,
    /// A request that can start a turn is on its way, and the turn has not started yet.
    pub user_turn_pending_start: bool,
    /// A turn runs.
    pub turn_running: bool,
    /// Something has changed that the screen does not show yet.
    pub redraw_requested: bool,
}

#[verifier::ext_equal]
pub struct ChatWidgetView {
    pub keep_in_progress_tasks_visible: bool,
    pub task_list_panel: TaskListPanelView,
    pub user_turn_pending_start: bool,
    pub turn_running: bool,
    pub redraw_requested: bool,
}

impl View for ChatWidget {
    type V = ChatWidgetView;

    open spec fn view(&self) -> ChatWidgetView {
        ChatWidgetView {
            keep_in_progress_tasks_visible: self.keep_in_progress_tasks_visible,
            task_list_panel: self.task_list_panel@,
            user_turn_pending_start: self.user_turn_pending_start,
            turn_running: self.turn_running,
            redraw_requested: self.redraw_requested,
        }
    }
}

impl ChatWidgetView {
    pub open spec fn with_task_list(self, task_list_panel: TaskListPanelView) -> Self {
        ChatWidgetView { task_list_panel, redraw_requested: true, ..self }
    }

    /// Work is under way as long as a turn runs or is expected to start.
    pub open spec fn is_task_running(self) -> bool {
        self.turn_running || self.user_turn_pending_start
    }

    pub open spec fn with_pending_start(self, pending: bool) -> Self {
        ChatWidgetView { user_turn_pending_start: pending, ..self }
    }

    /// The setting that pins the task list is changed.
    pub open spec fn with_tasks_kept_visible(self, enabled: bool) -> Self {
        ChatWidgetView {
            keep_in_progress_tasks_visible: enabled,
            ..self.with_task_list(
                (TaskListPanelView { render_enabled: enabled, ..self.task_list_panel }),
            )
        }
    }

    /// The presentation of a visible task list is changed.
    pub open spec fn task_list_toggled(self) -> Self {
        if self.task_list_panel.is_visible() {
            self.with_task_list(self.task_list_panel.toggled())
        } else {
            self
        }
    }

    /// A request was answered that was made under `reservation`.
    pub open spec fn request_answered(self, reservation: bool, accepted: bool) -> Self {
        self.with_pending_start(self.user_turn_pending_start && (accepted || !reservation))
    }

    /// What a request that can start a turn leaves behind once it has been answered. A rejected
    /// one gives back the reservation that it made, and no other.
    pub open spec fn after_starting_request(self, accepted: bool) -> Self {
        self.with_pending_start(self.user_turn_pending_start || accepted)
    }
}

impl ChatWidget {
    pub fn set_keep_in_progress_tasks_visible(&mut self, enabled: bool)
        ensures
            final(self)@ == old(self)@.with_tasks_kept_visible(enabled),
            final(self)@ == (ChatWidgetView {
                keep_in_progress_tasks_visible: enabled,
                ..old(self)@.with_task_list(
                    (TaskListPanelView {
                        render_enabled: enabled,
                        ..old(self)@.task_list_panel
                    }),
                )
            }),
    {
        self.keep_in_progress_tasks_visible = enabled;
        self.task_list_panel.set_render_enabled(enabled);
        self.redraw_requested = true;
    }

    /// Change the presentation of the task list. Returns whether one is visible.
    pub fn toggle_task_list(&mut self) -> (toggled: bool)
        ensures
            toggled == old(self)@.task_list_panel.is_visible(),
            final(self)@ == old(self)@.task_list_toggled(),
            final(self)@ == if old(self)@.task_list_panel.is_visible() {
                old(self)@.with_task_list(old(self)@.task_list_panel.toggled())
            } else {
                old(self)@
            },
    {
        let toggled = self.task_list_panel.toggle_expanded();
        if toggled {
            self.redraw_requested = true;
        }
        toggled
    }

    /// Whether work is under way.
    pub fn is_task_running(&self) -> (running: bool)
        ensures
            running == self@.is_task_running(),
    {
        self.turn_running || self.user_turn_pending_start
    }

    /// Expect a turn to start. Returns whether none was expected before.
    pub fn reserve_user_turn_pending_start(&mut self) -> (reservation: bool)
        ensures
            reservation == !old(self)@.user_turn_pending_start,
            final(self)@ == old(self)@.with_pending_start(true),
    {
        let reservation = !self.user_turn_pending_start;
        self.user_turn_pending_start = true;
        reservation
    }

    /// Give back `reservation`, if it is one.
    pub fn rollback_user_turn_pending_start(&mut self, reservation: bool)
        ensures
            final(self)@ == old(self)@.request_answered(reservation, false),
            final(self)@ == old(self)@.with_pending_start(
                old(self)@.user_turn_pending_start && !reservation,
            ),
    {
        if reservation {
            self.user_turn_pending_start = false;
        }
    }

    /// Take note of the answer to a request that was made under `reservation`.
    pub fn finish_starting_request(&mut self, reservation: bool, accepted: bool)
        ensures
            final(self)@ == old(self)@.request_answered(reservation, accepted),
            final(self)@ == old(self)@.with_pending_start(
                old(self)@.user_turn_pending_start && (accepted || !reservation),
            ),
    {
        if !accepted {
            self.rollback_user_turn_pending_start(reservation);
        }
    }
}

/// A request that is made under a reservation and answered leaves exactly what its answer calls
/// for: a rejected one restores the state before it, so that an older accepted request that still
/// waits for its turn goes on waiting, and an accepted one keeps the turn expected.
pub proof fn law_a_rejected_request_gives_back_only_its_own_reservation(
    chat: ChatWidgetView,
    accepted: bool,
)
    ensures
        ({
            let reservation = !chat.user_turn_pending_start;
            let reserved = chat.with_pending_start(true);
            &&& reserved.is_task_running()
            &&& reserved.with_pending_start(
                reserved.user_turn_pending_start && (accepted || !reservation),
            ) == chat.after_starting_request(accepted)
            &&& reserved.request_answered(reservation, accepted) == chat.after_starting_request(
                accepted,
            )
            &&& !accepted ==> chat.after_starting_request(accepted) == chat
        }),
{
}

/// Work is under way exactly while a turn runs or is expected. Expecting a turn, or no longer, changes
/// nothing else of the chat, and the answer to a request decides only over what that request asked for.
pub proof fn law_only_the_expected_turn_changes(chat: ChatWidgetView, pending: bool, accepted: bool)
    ensures
        chat.is_task_running() <==> chat.turn_running || chat.user_turn_pending_start,
        ({
            let after = chat.with_pending_start(pending);
            &&& after.user_turn_pending_start == pending
            &&& after.turn_running == chat.turn_running
            &&& after.task_list_panel == chat.task_list_panel
            &&& after.keep_in_progress_tasks_visible == chat.keep_in_progress_tasks_visible
            &&& after.redraw_requested == chat.redraw_requested
        }),
        ({
            let answered = chat.after_starting_request(accepted);
            &&& accepted ==> answered.user_turn_pending_start
            &&& !accepted ==> answered.user_turn_pending_start == chat.user_turn_pending_start
            &&& chat.user_turn_pending_start ==> answered.user_turn_pending_start
            &&& answered.turn_running == chat.turn_running
            &&& answered.task_list_panel == chat.task_list_panel
            &&& answered.keep_in_progress_tasks_visible == chat.keep_in_progress_tasks_visible
            &&& answered.redraw_requested == chat.redraw_requested
        }),
{
}

/// A changed task list is drawn again, and nothing else of the chat changes with it.
pub proof fn law_a_changed_task_list_is_drawn(chat: ChatWidgetView, panel: TaskListPanelView)
    ensures
        ({
            let after = chat.with_task_list(panel);
            &&& after.redraw_requested
            &&& after.task_list_panel == panel
            &&& after.turn_running == chat.turn_running
            &&& after.user_turn_pending_start == chat.user_turn_pending_start
            &&& after.keep_in_progress_tasks_visible == chat.keep_in_progress_tasks_visible
        }),
{
}

/// Chats that are told apart by nothing in their views are in the same state.
pub proof fn law_the_view_of_a_chat_is_all_of_it(left: ChatWidget, right: ChatWidget)
    ensures
        left@ == right@ <==> left.keep_in_progress_tasks_visible
            == right.keep_in_progress_tasks_visible && left.task_list_panel@
            == right.task_list_panel@ && left.user_turn_pending_start
            == right.user_turn_pending_start && left.turn_running == right.turn_running
            && left.redraw_requested == right.redraw_requested,
{
}

/// The answer to a request that reserved nothing, and an accepted one, leave the expected turn as it is.
/// Giving a reservation back ends it, and nothing else of the chat changes with an answer.
pub proof fn law_only_a_given_back_reservation_ends_the_wait(
    chat: ChatWidgetView,
    reservation: bool,
    accepted: bool,
)
    ensures
        accepted || !reservation ==> chat.request_answered(reservation, accepted) == chat,
        !accepted && reservation ==> !chat.request_answered(
            reservation,
            accepted,
        ).user_turn_pending_start,
        ({
            let answered = chat.request_answered(reservation, accepted);
            &&& answered.turn_running == chat.turn_running
            &&& answered.task_list_panel == chat.task_list_panel
            &&& answered.keep_in_progress_tasks_visible == chat.keep_in_progress_tasks_visible
            &&& answered.redraw_requested == chat.redraw_requested
        }),
{
}

/// Pinning the task list and letting it go keep its plan and the way it is shown, and have it drawn.
/// Toggling changes only a visible list, and a second time brings it back.
pub proof fn law_the_task_list_keeps_its_plan(chat: ChatWidgetView, enabled: bool)
    ensures
        ({
            let pinned = chat.with_tasks_kept_visible(enabled);
            &&& pinned.keep_in_progress_tasks_visible == enabled
            &&& pinned.task_list_panel.render_enabled == enabled
            &&& pinned.task_list_panel.plan == chat.task_list_panel.plan
            &&& pinned.task_list_panel.presentation == chat.task_list_panel.presentation
            &&& pinned.task_list_panel.shortcut_hint == chat.task_list_panel.shortcut_hint
            &&& pinned.redraw_requested
            &&& pinned.turn_running == chat.turn_running
            &&& pinned.user_turn_pending_start == chat.user_turn_pending_start
        }),
        ({
            let visible = chat.task_list_panel.render_enabled && chat.task_list_panel.plan is Some;
            let toggled = chat.task_list_toggled();
            &&& !visible ==> toggled == chat
            &&& visible ==> toggled.redraw_requested && toggled.task_list_panel.presentation
                != chat.task_list_panel.presentation && toggled.task_list_panel.plan
                == chat.task_list_panel.plan
            &&& visible ==> toggled.task_list_toggled().task_list_panel == chat.task_list_panel
            &&& toggled.turn_running == chat.turn_running
            &&& toggled.user_turn_pending_start == chat.user_turn_pending_start
            &&& toggled.keep_in_progress_tasks_visible == chat.keep_in_progress_tasks_visible
        }),
{
    crate::task_list_panel::law_toggling_twice_restores_the_panel(chat.task_list_panel);
}

} // verus!
