//! Persistent rendering for the latest structured task list.

use vstd::prelude::*;

use crate::geometry::Rect;
use crate::styled::{SpanStyle, SpanView, StyledLine, StyledSpan, TextColor};
use crate::task_window::{
    continuation_gutter, count_with_status, select_task_window, PlanItemArg, PlanItemView,
    StepStatus, TaskWindow,
};

verus! {

/// Rows of tasks that the compact presentation shows.
pub const DEFAULT_COMPACT_TASK_ROWS: usize = 5;

/// Lines that one task may take in the compact presentation.
pub const COMPACT_TASK_LINE_LIMIT: usize = 2;

/// Tasks that a panel keeps of a plan.
pub const MAX_TASK_LIST_ENTRIES: usize = 100;

/// Grapheme clusters that a panel keeps of the text of a task.
pub const MAX_TASK_STEP_GRAPHEMES: usize = 300;

/// Columns before the text of a task: the gutter and the status marker.
pub const TASK_PREFIX_WIDTH: usize = 5;

#[derive(Clone, Copy, Debug, PartialEq, Eq, Structural)]
pub enum TaskListPresentation {
    Compact,
    Expanded,
}

#[derive(Clone, Copy, Debug, PartialEq, Eq, Structural)]
pub enum TaskListTurnState {
    Running,
    Idle,
}

/// The key that changes the presentation, as it is shown to the user.
#[derive(Clone, Debug, PartialEq, Eq)]
pub struct ShortcutHint {
    pub label: String,
}

/// What a panel keeps of a plan, with the counts of the whole plan.
#[derive(Clone, Debug, PartialEq, Eq)]
pub struct DisplayPlan {
    pub items: Vec<PlanItemArg>,
    /// Where the kept tasks start in the whole plan.
    pub source_start: usize,
    pub total_items: usize,
    pub completed_items: usize,
}

/// The task list above the prompt.
#[derive(Clone, Debug, PartialEq, Eq)]
pub struct TaskListPanel {
    pub render_enabled: bool,
    pub plan: Option<DisplayPlan>,
    pub presentation: TaskListPresentation,
    pub shortcut_hint: Option<ShortcutHint>,
}

#[verifier::ext_equal]
pub struct DisplayPlanView {
    pub items: Seq<PlanItemView>,
    pub source_start: usize,
    pub total_items: usize,
    pub completed_items: usize,
}

#[verifier::ext_equal]
pub struct TaskListPanelView {
    pub render_enabled: bool,
    pub plan: Option<DisplayPlanView>,
    pub presentation: TaskListPresentation,
    pub shortcut_hint: Option<Seq<char>>,
}

impl DeepView for ShortcutHint {
    type V = Seq<char>;

    open spec fn deep_view(&self) -> Seq<char> {
        self.label@
    }
}

impl DeepView for DisplayPlan {
    type V = DisplayPlanView;

    open spec fn deep_view(&self) -> DisplayPlanView {
        DisplayPlanView {
            items: self.items.deep_view(),
            source_start: self.source_start,
            total_items: self.total_items,
            completed_items: self.completed_items,
        }
    }
}

impl View for TaskListPanel {
    type V = TaskListPanelView;

    open spec fn view(&self) -> TaskListPanelView {
        TaskListPanelView {
            render_enabled: self.render_enabled,
            plan: self.plan.deep_view(),
            presentation: self.presentation,
            shortcut_hint: self.shortcut_hint.deep_view(),
        }
    }
}

impl TaskListPresentation {
    /// Lines that one task may take.
    pub open spec fn line_limit(self) -> Option<nat> {
        match self {
            TaskListPresentation::Compact => Some(COMPACT_TASK_LINE_LIMIT as nat),
            TaskListPresentation::Expanded => None,
        }
    }

    /// Rows that all tasks together may take.
    pub open spec fn row_limit(self) -> nat {
        match self {
            TaskListPresentation::Compact => DEFAULT_COMPACT_TASK_ROWS as nat,
            TaskListPresentation::Expanded => usize::MAX as nat,
        }
    }

    pub open spec fn other(self) -> Self {
        match self {
            TaskListPresentation::Compact => TaskListPresentation::Expanded,
            TaskListPresentation::Expanded => TaskListPresentation::Compact,
        }
    }
}

/// A task with its text cut to what a panel keeps.
pub open spec fn kept_item(item: PlanItemView) -> PlanItemView {
    PlanItemView {
        step: crate::text::cut_to_clusters(
            crate::text::grapheme_clusters(item.step),
            MAX_TASK_STEP_GRAPHEMES as nat,
        ),
        ..item
    }
}

/// What a panel keeps of a plan: the tasks round the one to keep in view, and the counts of all.
pub open spec fn display_plan(plan: Seq<PlanItemView>) -> Option<DisplayPlanView> {
    if plan.len() == 0 {
        None
    } else {
        let statuses = crate::task_window::statuses(plan);
        let window = crate::task_window::task_window(statuses, MAX_TASK_LIST_ENTRIES as nat);
        Some(
            DisplayPlanView {
                items: plan.subrange(window.start as int, window.end as int).map_values(
                    |item: PlanItemView| kept_item(item),
                ),
                source_start: window.start,
                total_items: plan.len() as usize,
                completed_items: crate::task_window::status_count(
                    statuses,
                    StepStatus::Completed,
                ) as usize,
            },
        )
    }
}

impl DisplayPlanView {
    pub open spec fn is_complete(self) -> bool {
        self.completed_items == self.total_items
    }

    pub open spec fn statuses(self) -> Seq<StepStatus> {
        crate::task_window::statuses(self.items)
    }

    /// A window of the kept tasks, counted in the whole plan.
    pub open spec fn source_window(self, window: TaskWindow) -> TaskWindow {
        TaskWindow {
            start: crate::numbers::clamped((self.source_start + window.start) as nat) as usize,
            end: crate::numbers::clamped((self.source_start + window.end) as nat) as usize,
        }
    }
}

impl TaskListPanelView {
    pub open spec fn is_visible(self) -> bool {
        self.render_enabled && self.plan is Some
    }

    pub open spec fn cleared(self) -> Self {
        TaskListPanelView {
            plan: None,
            presentation: TaskListPresentation::Compact,
            ..self
        }
    }

    /// The panel shows `plan`. Without tasks, or with all of them done while no turn runs, there
    /// is nothing left to show.
    pub open spec fn plan_replaced(
        self,
        plan: Seq<PlanItemView>,
        turn_state: TaskListTurnState,
    ) -> Self {
        match display_plan(plan) {
            None => self.cleared(),
            Some(display) => if turn_state == TaskListTurnState::Idle && display.is_complete() {
                self.cleared()
            } else {
                TaskListPanelView { plan: Some(display), ..self }
            },
        }
    }

    /// A turn is over: a plan whose tasks are all done goes with it.
    pub open spec fn turn_finished(self) -> Self {
        match self.plan {
            Some(plan) => if plan.is_complete() {
                self.cleared()
            } else {
                self
            },
            None => self,
        }
    }

    pub open spec fn toggled(self) -> Self {
        if self.is_visible() {
            TaskListPanelView { presentation: self.presentation.other(), ..self }
        } else {
            self
        }
    }

    pub open spec fn with_shortcut_hint(self, shortcut_hint: Option<Seq<char>>) -> Self {
        TaskListPanelView {
            presentation: if shortcut_hint is None {
                TaskListPresentation::Compact
            } else {
                self.presentation
            },
            shortcut_hint,
            ..self
        }
    }
}

/// Lines that a task takes whose text is wrapped to `rows` lines.
pub open spec fn shown_rows(rows: nat, line_limit: Option<nat>) -> nat {
    match line_limit {
        Some(limit) => if rows > limit {
            limit
        } else {
            rows
        },
        None => rows,
    }
}

/// The lines of every task in turn.
pub open spec fn row_counts(
    wrapped: Seq<Seq<Seq<char>>>,
    line_limit: Option<nat>,
) -> Seq<nat> {
    wrapped.map_values(|rows: Seq<Seq<char>>| shown_rows(rows.len(), line_limit))
}

/// Rows that the tasks of a window take together.
pub open spec fn window_rows(
    wrapped: Seq<Seq<Seq<char>>>,
    window: TaskWindow,
    line_limit: Option<nat>,
) -> nat {
    crate::numbers::sum(
        row_counts(wrapped, line_limit).subrange(window.start as int, window.end as int),
    )
}

/// How many tasks to show: as many as `tasks`, or the next smaller number whose window fits into
/// `row_capacity` rows. One task is shown even where it does not fit.
pub open spec fn fitting_task_count(
    statuses: Seq<StepStatus>,
    wrapped: Seq<Seq<Seq<char>>>,
    row_capacity: nat,
    line_limit: Option<nat>,
    tasks: nat,
) -> nat
    decreases tasks,
{
    if tasks <= 1 || window_rows(
        wrapped,
        crate::task_window::task_window(statuses, tasks),
        line_limit,
    ) <= row_capacity {
        tasks
    } else {
        fitting_task_count(statuses, wrapped, row_capacity, line_limit, (tasks - 1) as nat)
    }
}

/// The rows that a presentation gives the tasks where `available` are free.
pub open spec fn row_capacity(available: nat, presentation: TaskListPresentation) -> nat {
    if available < presentation.row_limit() {
        available
    } else {
        presentation.row_limit()
    }
}

/// The tasks to show in `available` rows.
pub open spec fn fitting_window(
    statuses: Seq<StepStatus>,
    wrapped: Seq<Seq<Seq<char>>>,
    available: nat,
    presentation: TaskListPresentation,
) -> TaskWindow {
    let capacity = row_capacity(available, presentation);
    let tasks = crate::numbers::least(capacity as int, statuses.len() as int) as nat;
    crate::task_window::task_window(
        statuses,
        fitting_task_count(statuses, wrapped, capacity, presentation.line_limit(), tasks),
    )
}

pub open spec fn marker(status: StepStatus) -> SpanView {
    match status {
        StepStatus::Completed => SpanView {
            text: "\u{2714} "@,
            style: crate::styled::dim_style(),
        },
        _ => SpanView { text: "\u{25a1} "@, style: crate::styled::plain_style() },
    }
}

pub open spec fn step_style(status: StepStatus) -> SpanStyle {
    match status {
        StepStatus::Completed => SpanStyle { crossed_out: true, ..crate::styled::dim_style() },
        StepStatus::InProgress => SpanStyle {
            foreground: TextColor::Cyan,
            ..crate::styled::bold_style()
        },
        StepStatus::Pending => crate::styled::dim_style(),
    }
}

/// Line `index` of a task: the text under its marker.
pub open spec fn task_line(
    status: StepStatus,
    rows: Seq<Seq<char>>,
    gutter: Seq<char>,
    index: int,
) -> Seq<SpanView> {
    let step = SpanView { text: rows[index], style: step_style(status) };
    if index == 0 {
        seq![SpanView { text: gutter, style: crate::styled::dim_style() }, marker(status), step]
    } else {
        seq![SpanView { text: "     "@, style: crate::styled::plain_style() }, step]
    }
}

/// A line that stands for more than it shows.
pub open spec fn marked_as_clipped(line: Seq<SpanView>, width: nat) -> Seq<SpanView> {
    crate::styled::line_cut_to(
        line.push(
            SpanView { text: "\u{2026}"@, style: crate::styled::closing_style(line) },
        ),
        width,
    )
}

/// The lines of a task, the last of them marked where `line_limit` cuts the others off.
pub open spec fn clipped_task_lines(
    status: StepStatus,
    rows: Seq<Seq<char>>,
    gutter: Seq<char>,
    width: nat,
    line_limit: Option<nat>,
) -> Seq<Seq<SpanView>> {
    let count = shown_rows(rows.len(), line_limit);
    Seq::new(
        count,
        |index: int|
            if index + 1 == count && count < rows.len() {
                marked_as_clipped(task_line(status, rows, gutter, index), width)
            } else {
                task_line(status, rows, gutter, index)
            },
    )
}

/// Whether the shortcut would show content that the presentation withholds.
pub open spec fn shortcut_reveals_more(
    presentation: TaskListPresentation,
    wrapped: Seq<Seq<Seq<char>>>,
    hidden_count: nat,
) -> bool {
    match presentation {
        TaskListPresentation::Expanded => true,
        TaskListPresentation::Compact => hidden_count > 0 || exists|index: int|
            0 <= index < wrapped.len() && #[trigger] wrapped[index].len() > COMPACT_TASK_LINE_LIMIT,
    }
}

/// The counts of the plan.
pub open spec fn heading_counts(plan: DisplayPlanView, hidden_count: nat) -> Seq<SpanView> {
    let counts = seq![
        SpanView { text: "Tasks "@, style: crate::styled::bold_style() },
        SpanView {
            text: crate::text::decimal(plan.completed_items as nat) + "/"@
                + crate::text::decimal(plan.total_items as nat),
            style: crate::styled::plain_style(),
        },
    ];
    if hidden_count > 0 {
        counts.push(
            SpanView {
                text: " \u{b7} "@ + crate::text::decimal(hidden_count) + " hidden"@,
                style: crate::styled::dim_style(),
            },
        )
    } else {
        counts
    }
}

/// What the shortcut does.
pub open spec fn shortcut_span(label: Seq<char>, presentation: TaskListPresentation) -> SpanView {
    SpanView {
        text: " \u{b7} "@ + label + " "@ + match presentation {
            TaskListPresentation::Compact => "expand"@,
            TaskListPresentation::Expanded => "collapse"@,
        },
        style: crate::styled::dim_style(),
    }
}

impl TaskListPanelView {
    /// The first line: the counts and, where it is of use and fits, the shortcut.
    pub open spec fn heading(
        self,
        plan: DisplayPlanView,
        wrapped: Seq<Seq<Seq<char>>>,
        hidden_count: nat,
        width: u16,
    ) -> Seq<SpanView> {
        let counts = heading_counts(plan, hidden_count);
        let full = match self.shortcut_hint {
            Some(label) => {
                let shortcut = shortcut_span(label, self.presentation);
                if shortcut_reveals_more(self.presentation, wrapped, hidden_count)
                    && crate::styled::line_width(counts) + crate::text::display_width(shortcut.text)
                    <= width {
                    counts.push(shortcut)
                } else {
                    counts
                }
            },
            None => counts,
        };
        crate::styled::line_cut_to(full, width as nat)
    }

    /// The lines of the tasks from `index` to the end of `window`, as far as `rows` of them go.
    pub open spec fn task_rows(
        self,
        plan: DisplayPlanView,
        wrapped: Seq<Seq<Seq<char>>>,
        window: TaskWindow,
        width: u16,
        index: int,
        rows: nat,
    ) -> Seq<Seq<SpanView>>
        decreases window.end - index,
    {
        if index >= window.end || rows == 0 {
            Seq::empty()
        } else {
            let lines = self.lines_of_task(plan, wrapped, window, width, index, rows);
            lines + self.task_rows(
                plan,
                wrapped,
                window,
                width,
                index + 1,
                (rows - lines.len()) as nat,
            )
        }
    }

    /// The lines of one task in at most `rows` rows.
    pub open spec fn lines_of_task(
        self,
        plan: DisplayPlanView,
        wrapped: Seq<Seq<Seq<char>>>,
        window: TaskWindow,
        width: u16,
        index: int,
        rows: nat,
    ) -> Seq<Seq<SpanView>> {
        clipped_task_lines(
            plan.items[index].status,
            wrapped[index],
            crate::task_window::gutter(
                plan.source_window(window),
                crate::numbers::clamped((plan.source_start + index) as nat) as int,
                plan.total_items as int,
            ),
            width as nat,
            Some(shown_rows(rows, self.presentation.line_limit())),
        )
    }

    /// Everything that the panel shows in `width` columns and `height` rows.
    pub open spec fn lines(
        self,
        wrapped: Seq<Seq<Seq<char>>>,
        width: u16,
        height: u16,
    ) -> Seq<Seq<SpanView>> {
        if !self.is_visible() || width == 0 || height == 0 {
            Seq::empty()
        } else {
            let plan = self.plan->0;
            let rows = (height - 1) as nat;
            let window = fitting_window(plan.statuses(), wrapped, rows, self.presentation);
            let hidden = hidden_tasks(plan.source_window(window), plan.total_items);
            seq![self.heading(plan, wrapped, hidden, width)] + self.task_rows(
                plan,
                wrapped,
                window,
                width,
                window.start as int,
                rows,
            )
        }
    }

    /// The rows that the panel would like to have in `width` columns.
    pub open spec fn desired_height(self, wrapped: Seq<Seq<Seq<char>>>, width: u16) -> u16 {
        if !self.is_visible() || width == 0 {
            0
        } else {
            let plan = self.plan->0;
            let window = fitting_window(
                plan.statuses(),
                wrapped,
                usize::MAX as nat,
                self.presentation,
            );
            crate::numbers::least(
                window_rows(wrapped, window, self.presentation.line_limit()) as int + 1,
                u16::MAX as int,
            ) as u16
        }
    }

    /// Whether `wrapped` holds the wrapped text of each kept task.
    pub open spec fn wrapped_for(self, wrapped: Seq<Seq<Seq<char>>>) -> bool {
        self.plan matches Some(plan) ==> plan.items.len() == wrapped.len()
    }
}

/// How many of `total` tasks lie outside of a window.
pub open spec fn hidden_tasks(window: TaskWindow, total: usize) -> nat {
    crate::numbers::clamped(
        (window.start + crate::numbers::greatest(total - window.end, 0)) as nat,
    )
}

impl TaskListPresentation {
    /// `None` when a task may wrap to as many lines as its text needs.
    pub fn task_line_limit(self) -> (limit: Option<usize>)
        ensures
            limit is Some == (self.line_limit() is Some),
            limit matches Some(lines) ==> self.line_limit() == Some(lines as nat),
    {
        match self {
            TaskListPresentation::Compact => Some(COMPACT_TASK_LINE_LIMIT),
            TaskListPresentation::Expanded => None,
        }
    }

    /// Rows the presentation gives the task list, before the available height narrows it further.
    pub fn max_task_rows(self) -> (rows: usize)
        ensures
            rows == self.row_limit(),
    {
        match self {
            TaskListPresentation::Compact => DEFAULT_COMPACT_TASK_ROWS,
            TaskListPresentation::Expanded => usize::MAX,
        }
    }
}

impl DisplayPlan {
    /// Keep of `plan` what a panel can show.
    pub fn from_source(plan: Vec<PlanItemArg>) -> (display: Option<Self>)
        ensures
            display.deep_view() == display_plan(plan.deep_view()),
    {
        if plan.len() == 0 {
            return None;
        }
        let total_items: usize = plan.len();
        let source = plan.as_slice();
        assert(source.deep_view() =~= plan.deep_view());
        let completed_items: usize = count_with_status(source, StepStatus::Completed);
        let window = select_task_window(source, MAX_TASK_LIST_ENTRIES);
        proof {
            lemma_window_in_bounds(
                crate::task_window::statuses(plan.deep_view()),
                MAX_TASK_LIST_ENTRIES as nat,
            );
        }
        let ghost kept = plan.deep_view().subrange(
            window.start as int,
            window.end as int,
        ).map_values(|item: PlanItemView| kept_item(item));
        let mut items: Vec<PlanItemArg> = Vec::new();
        let mut index: usize = window.start;
        while index < window.end
            invariant
                window.start <= index <= window.end <= plan.len(),
                kept == plan.deep_view().subrange(
                    window.start as int,
                    window.end as int,
                ).map_values(|item: PlanItemView| kept_item(item)),
                items.deep_view() == kept.take(index - window.start),
            decreases window.end - index,
        {
            let ghost before = items.deep_view();
            let item = PlanItemArg {
                step: crate::text::truncate_text(
                    plan[index].step.as_str(),
                    MAX_TASK_STEP_GRAPHEMES,
                ),
                status: plan[index].status,
            };
            let ghost pushed = item;
            items.push(item);
            index += 1;
            assert(pushed.deep_view() == kept[index - 1 - window.start]);
            assert(items.deep_view() =~= before.push(pushed.deep_view()));
            assert(items.deep_view() =~= kept.take(index - window.start));
        }
        assert(kept.take(window.end - window.start) =~= kept);
        Some(DisplayPlan { items, source_start: window.start, total_items, completed_items })
    }

    /// Whether every task of the whole plan is done.
    pub fn is_complete(&self) -> (complete: bool)
        ensures
            complete == self.deep_view().is_complete(),
    {
        self.completed_items == self.total_items
    }

    /// Count a window of the kept tasks in the whole plan.
    pub fn source_window(&self, retained_window: TaskWindow) -> (window: TaskWindow)
        ensures
            window == self.deep_view().source_window(retained_window),
    {
        TaskWindow {
            start: self.source_start.saturating_add(retained_window.start),
            end: self.source_start.saturating_add(retained_window.end),
        }
    }
}

/// A window lies inside the plan and shows no more than the capacity.
pub proof fn lemma_window_in_bounds(statuses: Seq<StepStatus>, capacity: nat)
    requires
        statuses.len() <= usize::MAX,
    ensures
        ({
            let window = crate::task_window::task_window(statuses, capacity);
            &&& window.start <= window.end <= statuses.len()
            &&& window.end - window.start == crate::numbers::least(
                capacity as int,
                statuses.len() as int,
            )
        }),
{
}

/// A count of rows is at least the number of tasks where each of them has a row.
proof fn lemma_a_row_for_each_task(counts: Seq<nat>)
    requires
        forall|index: int| 0 <= index < counts.len() ==> counts[index] >= 1,
    ensures
        crate::numbers::sum(counts) >= counts.len(),
    decreases counts.len(),
{
    if counts.len() > 0 {
        assert forall|index: int| 0 <= index < counts.len() - 1 implies counts.drop_last()[index]
            >= 1 by {
            assert(counts[index] >= 1);
        }
        lemma_a_row_for_each_task(counts.drop_last());
        assert(counts.last() >= 1);
    }
}

/// As many tasks are shown as fit: the window of every larger number of them would take more rows
/// than there are. One task is shown even where it does not fit.
pub proof fn law_as_many_tasks_are_shown_as_fit(
    statuses: Seq<StepStatus>,
    wrapped: Seq<Seq<Seq<char>>>,
    row_capacity: nat,
    line_limit: Option<nat>,
    tasks: nat,
)
    ensures
        ({
            let count = fitting_task_count(statuses, wrapped, row_capacity, line_limit, tasks);
            &&& count <= tasks
            &&& tasks > 0 ==> count > 0
            &&& (count <= 1 || window_rows(
                wrapped,
                crate::task_window::task_window(statuses, count),
                line_limit,
            ) <= row_capacity)
            &&& forall|larger: nat|
                count < larger <= tasks ==> larger > 1 && #[trigger] window_rows(
                    wrapped,
                    crate::task_window::task_window(statuses, larger),
                    line_limit,
                ) > row_capacity
        }),
    decreases tasks,
{
    if tasks > 1 && window_rows(
        wrapped,
        crate::task_window::task_window(statuses, tasks),
        line_limit,
    ) > row_capacity {
        law_as_many_tasks_are_shown_as_fit(
            statuses,
            wrapped,
            row_capacity,
            line_limit,
            (tasks - 1) as nat,
        );
        let count = fitting_task_count(statuses, wrapped, row_capacity, line_limit, tasks);
        assert forall|larger: nat| count < larger <= tasks implies larger > 1
            && #[trigger] window_rows(
            wrapped,
            crate::task_window::task_window(statuses, larger),
            line_limit,
        ) > row_capacity by {
            if larger < tasks {
                assert(larger <= (tasks - 1) as nat);
            }
        }
    }
}

/// A number of tasks that fits while no larger one does is the number shown.
proof fn lemma_largest_fitting_task_count(
    statuses: Seq<StepStatus>,
    wrapped: Seq<Seq<Seq<char>>>,
    row_capacity: nat,
    line_limit: Option<nat>,
    tasks: nat,
    count: nat,
)
    requires
        count <= tasks,
        count <= 1 || window_rows(
            wrapped,
            crate::task_window::task_window(statuses, count),
            line_limit,
        ) <= row_capacity,
        forall|larger: nat|
            count < larger <= tasks ==> larger > 1 && #[trigger] window_rows(
                wrapped,
                crate::task_window::task_window(statuses, larger),
                line_limit,
            ) > row_capacity,
    ensures
        fitting_task_count(statuses, wrapped, row_capacity, line_limit, tasks) == count,
    decreases tasks,
{
    if tasks > count {
        assert(window_rows(
            wrapped,
            crate::task_window::task_window(statuses, tasks),
            line_limit,
        ) > row_capacity);
        lemma_largest_fitting_task_count(
            statuses,
            wrapped,
            row_capacity,
            line_limit,
            (tasks - 1) as nat,
            count,
        );
    }
}

/// Where there is room for every line of the tasks, every line is shown.
proof fn lemma_task_rows_with_room(
    panel: TaskListPanelView,
    plan: DisplayPlanView,
    wrapped: Seq<Seq<Seq<char>>>,
    window: TaskWindow,
    width: u16,
    index: int,
    rows: nat,
)
    requires
        0 <= index <= window.end <= wrapped.len(),
        crate::numbers::sum(
            row_counts(wrapped, panel.presentation.line_limit()).subrange(
                index,
                window.end as int,
            ),
        ) <= rows,
    ensures
        panel.task_rows(plan, wrapped, window, width, index, rows).len() == crate::numbers::sum(
            row_counts(wrapped, panel.presentation.line_limit()).subrange(
                index,
                window.end as int,
            ),
        ),
    decreases window.end - index,
{
    let counts = row_counts(wrapped, panel.presentation.line_limit());
    let rest = counts.subrange(index, window.end as int);
    if index < window.end {
        crate::numbers::lemma_sum_drop_first(rest);
        assert(rest.drop_first() =~= counts.subrange(index + 1, window.end as int));
        let lines = panel.lines_of_task(plan, wrapped, window, width, index, rows);
        assert(rest[0] == shown_rows(wrapped[index].len(), panel.presentation.line_limit()));
        if rows > 0 {
            assert(lines.len() == rest[0]);
            lemma_task_rows_with_room(
                panel,
                plan,
                wrapped,
                window,
                width,
                index + 1,
                (rows - lines.len()) as nat,
            );
        }
    }
}

/// The lines of the tasks never take more rows than there are.
proof fn lemma_task_rows_fit(
    panel: TaskListPanelView,
    plan: DisplayPlanView,
    wrapped: Seq<Seq<Seq<char>>>,
    window: TaskWindow,
    width: u16,
    index: int,
    rows: nat,
)
    ensures
        panel.task_rows(plan, wrapped, window, width, index, rows).len() <= rows,
    decreases window.end - index,
{
    if index < window.end && rows > 0 {
        let lines = panel.lines_of_task(plan, wrapped, window, width, index, rows);
        lemma_task_rows_fit(
            panel,
            plan,
            wrapped,
            window,
            width,
            index + 1,
            (rows - lines.len()) as nat,
        );
    }
}

/// A panel shows no more lines than it has rows.
pub proof fn law_a_panel_fits_its_height(
    panel: TaskListPanelView,
    wrapped: Seq<Seq<Seq<char>>>,
    width: u16,
    height: u16,
)
    ensures
        panel.lines(wrapped, width, height).len() <= height,
{
    if panel.is_visible() && width > 0 && height > 0 {
        let plan = panel.plan->0;
        let rows = (height - 1) as nat;
        let window = fitting_window(plan.statuses(), wrapped, rows, panel.presentation);
        lemma_task_rows_fit(
            panel,
            plan,
            wrapped,
            window,
            width,
            window.start as int,
            rows,
        );
    }
}

/// The tasks of a window never take more rows than their lines do.
proof fn lemma_task_rows_within_their_lines(
    panel: TaskListPanelView,
    plan: DisplayPlanView,
    wrapped: Seq<Seq<Seq<char>>>,
    window: TaskWindow,
    width: u16,
    index: int,
    rows: nat,
)
    requires
        0 <= index <= window.end <= wrapped.len(),
    ensures
        panel.task_rows(plan, wrapped, window, width, index, rows).len() <= crate::numbers::sum(
            row_counts(wrapped, panel.presentation.line_limit()).subrange(
                index,
                window.end as int,
            ),
        ),
    decreases window.end - index,
{
    let counts = row_counts(wrapped, panel.presentation.line_limit());
    let rest = counts.subrange(index, window.end as int);
    if index < window.end && rows > 0 {
        crate::numbers::lemma_sum_drop_first(rest);
        assert(rest.drop_first() =~= counts.subrange(index + 1, window.end as int));
        let lines = panel.lines_of_task(plan, wrapped, window, width, index, rows);
        assert(rest[0] == shown_rows(wrapped[index].len(), panel.presentation.line_limit()));
        lemma_task_rows_within_their_lines(
            panel,
            plan,
            wrapped,
            window,
            width,
            index + 1,
            (rows - lines.len()) as nat,
        );
    }
}

/// The tasks that a compact panel chooses take no more rows than it gives them.
proof fn lemma_a_compact_window_is_small(
    statuses: Seq<StepStatus>,
    wrapped: Seq<Seq<Seq<char>>>,
    available: nat,
)
    requires
        statuses.len() == wrapped.len(),
        statuses.len() <= usize::MAX,
    ensures
        ({
            let compact = TaskListPresentation::Compact;
            let window = fitting_window(statuses, wrapped, available, compact);
            &&& window.start <= window.end <= wrapped.len()
            &&& window_rows(wrapped, window, compact.line_limit()) <= DEFAULT_COMPACT_TASK_ROWS
        }),
{
    let compact = TaskListPresentation::Compact;
    let capacity = row_capacity(available, compact);
    let tasks = crate::numbers::least(capacity as int, statuses.len() as int) as nat;
    let count = fitting_task_count(statuses, wrapped, capacity, compact.line_limit(), tasks);
    law_as_many_tasks_are_shown_as_fit(statuses, wrapped, capacity, compact.line_limit(), tasks);
    lemma_window_in_bounds(statuses, count);
    if count <= 1 {
        reveal_with_fuel(crate::numbers::sum, 2);
    }
}

/// A compact panel neither asks for more rows than its heading and the rows of its tasks, nor shows
/// more lines where it gets them.
pub proof fn law_a_compact_panel_stays_small(
    panel: TaskListPanelView,
    wrapped: Seq<Seq<Seq<char>>>,
    width: u16,
    height: u16,
)
    requires
        panel.presentation == TaskListPresentation::Compact,
        panel.wrapped_for(wrapped),
        wrapped.len() <= usize::MAX,
    ensures
        panel.desired_height(wrapped, width) <= 1 + DEFAULT_COMPACT_TASK_ROWS,
        panel.lines(wrapped, width, height).len() <= 1 + DEFAULT_COMPACT_TASK_ROWS,
{
    if panel.is_visible() && width > 0 {
        let plan = panel.plan->0;
        lemma_a_compact_window_is_small(plan.statuses(), wrapped, usize::MAX as nat);
        if height > 0 {
            let rows = (height - 1) as nat;
            let window = fitting_window(plan.statuses(), wrapped, rows, panel.presentation);
            lemma_a_compact_window_is_small(plan.statuses(), wrapped, rows);
            lemma_task_rows_within_their_lines(
                panel,
                plan,
                wrapped,
                window,
                width,
                window.start as int,
                rows,
            );
        }
    }
}

/// A panel that gets the height it desires fills it exactly.
pub proof fn law_a_panel_fills_its_desired_height(
    panel: TaskListPanelView,
    wrapped: Seq<Seq<Seq<char>>>,
    width: u16,
)
    requires
        panel.wrapped_for(wrapped),
        wrapped.len() <= usize::MAX,
        forall|index: int| 0 <= index < wrapped.len() ==> #[trigger] wrapped[index].len() >= 1,
        panel.desired_height(wrapped, width) < u16::MAX,
    ensures
        panel.lines(wrapped, width, panel.desired_height(wrapped, width)).len()
            == panel.desired_height(wrapped, width),
{
    if panel.is_visible() && width > 0 {
        let plan = panel.plan->0;
        let statuses = plan.statuses();
        let limit = panel.presentation.line_limit();
        let counts = row_counts(wrapped, limit);
        let capacity = row_capacity(usize::MAX as nat, panel.presentation);
        let tasks = crate::numbers::least(capacity as int, statuses.len() as int) as nat;
        let count = fitting_task_count(statuses, wrapped, capacity, limit, tasks);
        let window = crate::task_window::task_window(statuses, count);
        lemma_window_in_bounds(statuses, count);
        law_as_many_tasks_are_shown_as_fit(statuses, wrapped, capacity, limit, tasks);
        let shown = counts.subrange(window.start as int, window.end as int);
        assert forall|index: int| 0 <= index < shown.len() implies shown[index] >= 1 by {
            assert(wrapped[window.start + index].len() >= 1);
        }
        lemma_a_row_for_each_task(shown);
        let rows = window_rows(wrapped, window, limit);
        assert(rows <= capacity) by {
            if panel.presentation == TaskListPresentation::Compact && count <= 1 {
                reveal_with_fuel(crate::numbers::sum, 2);
            }
        }
        assert(panel.desired_height(wrapped, width) == rows + 1);
        assert(row_capacity(rows, panel.presentation) == rows);
        let narrowed = crate::numbers::least(rows as int, statuses.len() as int) as nat;
        assert forall|larger: nat| count < larger <= narrowed implies larger > 1
            && #[trigger] window_rows(
            wrapped,
            crate::task_window::task_window(statuses, larger),
            limit,
        ) > rows by {
            assert(larger <= tasks);
        }
        lemma_largest_fitting_task_count(statuses, wrapped, rows, limit, narrowed, count);
        lemma_task_rows_with_room(
            panel,
            plan,
            wrapped,
            window,
            width,
            window.start as int,
            rows,
        );
    }
}

/// What a panel keeps of a plan lies inside of it, holds as many tasks as may be kept, counts
/// every task, and holds the task to keep in view.
pub proof fn law_a_kept_plan_counts_the_whole_plan(plan: Seq<PlanItemView>, anchor: int)
    requires
        0 < plan.len() <= usize::MAX,
        crate::task_window::is_anchor(crate::task_window::statuses(plan), anchor),
    ensures
        display_plan(plan) matches Some(kept) && {
            &&& kept.items.len() == crate::numbers::least(
                plan.len() as int,
                MAX_TASK_LIST_ENTRIES as int,
            )
            &&& kept.source_start + kept.items.len() <= kept.total_items
            &&& kept.total_items == plan.len()
            &&& kept.completed_items <= kept.total_items
            &&& kept.source_start <= anchor < kept.source_start + kept.items.len()
            &&& kept.items[anchor - kept.source_start].status == plan[anchor].status
            &&& kept.is_complete() <==> forall|index: int|
                0 <= index < plan.len() ==> #[trigger] plan[index].status == StepStatus::Completed
        },
{
    let statuses = crate::task_window::statuses(plan);
    crate::task_window::law_the_window_is_full_and_holds_the_anchor(
        statuses,
        MAX_TASK_LIST_ENTRIES as nat,
        anchor,
    );
    lemma_all_or_fewer(statuses, StepStatus::Completed);
    assert((forall|index: int|
        0 <= index < plan.len() ==> #[trigger] plan[index].status == StepStatus::Completed) ==> (
    forall|index: int| 0 <= index < statuses.len() ==> statuses[index] == StepStatus::Completed));
    if forall|index: int| 0 <= index < statuses.len() ==> statuses[index] == StepStatus::Completed {
        assert forall|index: int| 0 <= index < plan.len() implies #[trigger] plan[index].status
            == StepStatus::Completed by {
            assert(statuses[index] == StepStatus::Completed);
        }
    }
}

/// The tasks shown and those hidden are all the tasks of the plan.
pub proof fn law_shown_and_hidden_tasks_are_the_plan(
    plan: DisplayPlanView,
    wrapped: Seq<Seq<Seq<char>>>,
    available: nat,
    presentation: TaskListPresentation,
)
    requires
        plan.items.len() == wrapped.len(),
        plan.source_start + plan.items.len() <= plan.total_items,
    ensures
        ({
            let window = fitting_window(plan.statuses(), wrapped, available, presentation);
            &&& window.start <= window.end <= plan.items.len()
            &&& hidden_tasks(plan.source_window(window), plan.total_items) + (window.end
                - window.start) == plan.total_items
        }),
{
    let statuses = plan.statuses();
    let capacity = row_capacity(available, presentation);
    let tasks = crate::numbers::least(capacity as int, statuses.len() as int) as nat;
    lemma_window_in_bounds(
        statuses,
        fitting_task_count(statuses, wrapped, capacity, presentation.line_limit(), tasks),
    );
}

/// Wherever there is a row for a task, the one to keep in view is shown.
pub proof fn law_the_anchor_is_shown(
    plan: DisplayPlanView,
    wrapped: Seq<Seq<Seq<char>>>,
    available: nat,
    presentation: TaskListPresentation,
    anchor: int,
)
    requires
        0 < plan.items.len() <= usize::MAX,
        crate::task_window::is_anchor(plan.statuses(), anchor),
        available > 0,
    ensures
        ({
            let window = fitting_window(plan.statuses(), wrapped, available, presentation);
            window.start <= anchor < window.end
        }),
{
    let statuses = plan.statuses();
    let capacity = row_capacity(available, presentation);
    let tasks = crate::numbers::least(capacity as int, statuses.len() as int) as nat;
    let limit = presentation.line_limit();
    law_as_many_tasks_are_shown_as_fit(statuses, wrapped, capacity, limit, tasks);
    let count = fitting_task_count(statuses, wrapped, capacity, limit, tasks);
    crate::task_window::law_the_window_is_full_and_holds_the_anchor(statuses, count, anchor);
}

/// A turn takes a finished plan with it when it ends, and leaves an unfinished one alone.
pub proof fn law_only_a_finished_plan_goes_with_its_turn(panel: TaskListPanelView)
    ensures
        panel.plan matches Some(plan) && plan.is_complete() ==> panel.turn_finished()
            == panel.cleared(),
        panel.plan matches Some(plan) && !plan.is_complete() ==> panel.turn_finished() == panel,
        panel.turn_finished().turn_finished() == panel.turn_finished(),
{
}

/// An update outside of a turn that has every task done, or none, leaves no plan behind.
pub proof fn law_an_update_with_nothing_to_do_clears_the_panel(
    panel: TaskListPanelView,
    plan: Seq<PlanItemView>,
    turn_state: TaskListTurnState,
)
    requires
        plan.len() <= usize::MAX,
        plan.len() == 0 || (turn_state == TaskListTurnState::Idle && forall|index: int|
            0 <= index < plan.len() ==> #[trigger] plan[index].status == StepStatus::Completed),
    ensures
        panel.plan_replaced(plan, turn_state) == panel.cleared(),
        !panel.plan_replaced(plan, turn_state).is_visible(),
{
    let statuses = crate::task_window::statuses(plan);
    lemma_all_or_fewer(statuses, StepStatus::Completed);
}

/// Toggling twice changes nothing.
pub proof fn law_toggling_twice_restores_the_panel(panel: TaskListPanelView)
    ensures
        panel.toggled().toggled() == panel,
{
}

/// A plan that arrives while the panel is hidden is there once the panel is shown.
pub proof fn law_a_hidden_panel_keeps_its_plan(
    panel: TaskListPanelView,
    plan: Seq<PlanItemView>,
    turn_state: TaskListTurnState,
)
    ensures
        (TaskListPanelView {
            render_enabled: true,
            ..(TaskListPanelView { render_enabled: false, ..panel }).plan_replaced(plan, turn_state)
        }) == (TaskListPanelView { render_enabled: true, ..panel }).plan_replaced(plan, turn_state),
{
}

/// A compact task takes at most two lines and all of them five rows, and an expanded one as many as its
/// text needs.
pub proof fn law_a_presentation_has_its_limits(rows: nat)
    ensures
        shown_rows(rows, TaskListPresentation::Compact.line_limit()) == crate::numbers::least(
            rows as int,
            2,
        ),
        shown_rows(rows, TaskListPresentation::Expanded.line_limit()) == rows,
        row_capacity(rows, TaskListPresentation::Compact) == crate::numbers::least(rows as int, 5),
        rows <= usize::MAX ==> row_capacity(rows, TaskListPresentation::Expanded) == rows,
{
}

/// A task that is done is checked off and struck out, one in progress stands out, and one that is
/// pending is dimmed beside an empty box.
pub proof fn law_a_task_looks_like_its_status(status: StepStatus)
    ensures
        status == StepStatus::Completed ==> {
            &&& marker(status).text == seq!['\u{2714}', ' ']
            &&& marker(status).style == (SpanStyle { dim: true, ..crate::styled::plain_style() })
            &&& step_style(status) == (SpanStyle {
                dim: true,
                crossed_out: true,
                ..crate::styled::plain_style()
            })
        },
        status != StepStatus::Completed ==> {
            &&& marker(status).text == seq!['\u{25a1}', ' ']
            &&& marker(status).style == crate::styled::plain_style()
        },
        status == StepStatus::InProgress ==> step_style(status) == (SpanStyle {
            bold: true,
            foreground: TextColor::Cyan,
            ..crate::styled::plain_style()
        }),
        status == StepStatus::Pending ==> step_style(status) == (SpanStyle {
            dim: true,
            ..crate::styled::plain_style()
        }),
{
    reveal_strlit("\u{2714} ");
    reveal_strlit("\u{25a1} ");
    assert("\u{2714} "@ =~= seq!['\u{2714}', ' ']);
    assert("\u{25a1} "@ =~= seq!['\u{25a1}', ' ']);
}

/// Every line of a task ends in the text of that line, in the style of the task. The first line starts
/// with the gutter and the marker, and the others start as far to the right.
pub proof fn law_a_task_line_shows_its_text(
    status: StepStatus,
    rows: Seq<Seq<char>>,
    gutter: Seq<char>,
    index: int,
)
    ensures
        ({
            let line = task_line(status, rows, gutter, index);
            &&& line.last().text == rows[index]
            &&& line.last().style == step_style(status)
            &&& index == 0 ==> line.len() == 3 && line[0].text == gutter && line[0].style.dim
                && line[1] == marker(status)
            &&& index != 0 ==> line.len() == 2 && line[0].text == seq![' ', ' ', ' ', ' ', ' ']
                && line[0].style == crate::styled::plain_style()
        }),
{
    reveal_strlit("     ");
    assert("     "@ =~= seq![' ', ' ', ' ', ' ', ' ']);
}

/// A line that stands for more than it shows ends in an ellipsis, and keeps all of its own where there
/// is room for both.
pub proof fn law_a_clipped_line_ends_in_an_ellipsis(line: Seq<SpanView>, width: nat)
    requires
        width > 0,
    ensures
        marked_as_clipped(line, width).len() > 0,
        marked_as_clipped(line, width).last().text == seq!['\u{2026}'],
        crate::styled::line_width(line) + crate::text::display_width(seq!['\u{2026}']) <= width
            ==> marked_as_clipped(line, width).drop_last() == line,
{
    reveal_strlit("\u{2026}");
    assert("\u{2026}"@ =~= seq!['\u{2026}']);
    let closing = SpanView { text: "\u{2026}"@, style: crate::styled::closing_style(line) };
    crate::styled::law_a_line_that_goes_on_ends_in_an_ellipsis(line.push(closing), width);
    crate::styled::law_a_line_is_as_wide_as_its_spans(line, closing);
    assert(line.push(closing).drop_last() =~= line);
}

/// A task shows the first lines of its text, as many as it may. Only the last of them can be marked,
/// and it is marked only where lines of the text are left out.
pub proof fn law_a_task_shows_its_first_lines(
    status: StepStatus,
    rows: Seq<Seq<char>>,
    gutter: Seq<char>,
    width: nat,
    limit: nat,
    index: int,
)
    ensures
        ({
            let all = clipped_task_lines(status, rows, gutter, width, None);
            let shown = clipped_task_lines(status, rows, gutter, width, Some(limit));
            &&& all.len() == rows.len()
            &&& shown.len() == crate::numbers::least(rows.len() as int, limit as int)
            &&& 0 <= index < rows.len() ==> all[index] == task_line(status, rows, gutter, index)
            &&& 0 <= index < shown.len() && (index + 1 < shown.len() || rows.len() <= limit)
                ==> shown[index] == task_line(status, rows, gutter, index)
            &&& 0 <= index && index + 1 == shown.len() && rows.len() > limit ==> shown[index]
                == marked_as_clipped(task_line(status, rows, gutter, index), width)
        }),
{
}

/// Where the line of a task stands among the lines of the tasks.
proof fn lemma_the_line_of_a_task(
    panel: TaskListPanelView,
    plan: DisplayPlanView,
    wrapped: Seq<Seq<Seq<char>>>,
    window: TaskWindow,
    width: u16,
    from: int,
    rows: nat,
    index: int,
    row: int,
)
    requires
        0 <= from <= index < window.end <= wrapped.len(),
        0 <= row < shown_rows(wrapped[index].len(), panel.presentation.line_limit()),
        crate::numbers::sum(
            row_counts(wrapped, panel.presentation.line_limit()).subrange(from, index),
        ) + row < rows,
    ensures
        ({
            let before = crate::numbers::sum(
                row_counts(wrapped, panel.presentation.line_limit()).subrange(from, index),
            );
            let shown = panel.task_rows(plan, wrapped, window, width, from, rows);
            &&& before + row < shown.len()
            &&& shown[before + row] == panel.lines_of_task(
                plan,
                wrapped,
                window,
                width,
                index,
                (rows - before) as nat,
            )[row]
        }),
    decreases index - from,
{
    let counts = row_counts(wrapped, panel.presentation.line_limit());
    let before = crate::numbers::sum(counts.subrange(from, index));
    let lines = panel.lines_of_task(plan, wrapped, window, width, from, rows);
    if from < index {
        let part = counts.subrange(from, index);
        crate::numbers::lemma_sum_drop_first(part);
        assert(part.drop_first() =~= counts.subrange(from + 1, index));
        assert(part[0] == shown_rows(wrapped[from].len(), panel.presentation.line_limit()));
        assert(lines.len() == part[0]);
        lemma_the_line_of_a_task(
            panel,
            plan,
            wrapped,
            window,
            width,
            from + 1,
            (rows - lines.len()) as nat,
            index,
            row,
        );
    } else {
        assert(counts.subrange(from, index) =~= Seq::<nat>::empty());
    }
}

/// Below the heading the tasks of the window follow each other in the order of the plan, each with its
/// lines in order, as far as the rows go: every line shows its own part of the text of its own task, in
/// the look of that task. Arrows beside the first and the last task point to those of the whole plan that
/// are hidden. Where a task shows less than its text, its last line ends in an ellipsis.
pub proof fn law_every_task_is_shown_in_its_place(
    panel: TaskListPanelView,
    wrapped: Seq<Seq<Seq<char>>>,
    width: u16,
    height: u16,
    index: int,
    row: int,
)
    requires
        panel.is_visible(),
        panel.wrapped_for(wrapped),
        wrapped.len() <= usize::MAX,
        width > 0,
        height > 0,
        ({
            let window = fitting_window(
                panel.plan->0.statuses(),
                wrapped,
                (height - 1) as nat,
                panel.presentation,
            );
            let limit = panel.presentation.line_limit();
            &&& window.start <= index < window.end
            &&& 0 <= row < shown_rows(wrapped[index].len(), limit)
            &&& crate::numbers::sum(
                row_counts(wrapped, limit).subrange(window.start as int, index),
            ) + row < height - 1
        }),
    ensures
        ({
            let plan = panel.plan->0;
            let limit = panel.presentation.line_limit();
            let window = fitting_window(
                plan.statuses(),
                wrapped,
                (height - 1) as nat,
                panel.presentation,
            );
            let before = crate::numbers::sum(
                row_counts(wrapped, limit).subrange(window.start as int, index),
            );
            let shown = crate::numbers::least(
                shown_rows(wrapped[index].len(), limit) as int,
                height - 1 - before,
            );
            let line = panel.lines(wrapped, width, height)[1 + before + row];
            &&& 1 + before + row < panel.lines(wrapped, width, height).len()
            &&& row + 1 < shown || shown == wrapped[index].len() ==> {
                &&& line.last().text == wrapped[index][row]
                &&& line.last().style == step_style(plan.items[index].status)
                &&& row == 0 ==> line[1] == marker(plan.items[index].status)
                &&& row == 0 && plan.source_start + plan.items.len() <= plan.total_items ==> {
                    let up = index == window.start && 0 < plan.source_start + window.start;
                    let down = index + 1 == window.end && plan.source_start + window.end
                        < plan.total_items;
                    line[0].text == if up && down {
                        "\u{2191}\u{2193} "@
                    } else if up {
                        "\u{2191}\u{2191} "@
                    } else if down {
                        "\u{2193}\u{2193} "@
                    } else {
                        "   "@
                    }
                }
            }
            &&& row + 1 == shown && shown < wrapped[index].len() ==> line.last().text
                == seq!['\u{2026}']
        }),
{
    let plan = panel.plan->0;
    let limit = panel.presentation.line_limit();
    let rows = (height - 1) as nat;
    let statuses = plan.statuses();
    let window = fitting_window(statuses, wrapped, rows, panel.presentation);
    let capacity = row_capacity(rows, panel.presentation);
    let tasks = crate::numbers::least(capacity as int, statuses.len() as int) as nat;
    lemma_window_in_bounds(statuses, fitting_task_count(statuses, wrapped, capacity, limit, tasks));
    let start = window.start as int;
    lemma_the_line_of_a_task(panel, plan, wrapped, window, width, start, rows, index, row);
    let before = crate::numbers::sum(row_counts(wrapped, limit).subrange(start, index));
    let left = (rows - before) as nat;
    let status = plan.items[index].status;
    let gutter = crate::task_window::gutter(
        plan.source_window(window),
        crate::numbers::clamped((plan.source_start + index) as nat) as int,
        plan.total_items as int,
    );
    law_a_task_shows_its_first_lines(
        status,
        wrapped[index],
        gutter,
        width as nat,
        shown_rows(left, limit),
        row,
    );
    law_a_task_line_shows_its_text(status, wrapped[index], gutter, row);
    if plan.source_start + plan.items.len() <= plan.total_items {
        crate::task_window::law_arrows_point_to_the_hidden_tasks(
            plan.source_window(window),
            plan.source_start + index,
            plan.total_items as int,
        );
    }
    law_a_clipped_line_ends_in_an_ellipsis(
        task_line(status, wrapped[index], gutter, row),
        width as nat,
    );
    let all = panel.task_rows(plan, wrapped, window, width, start, rows);
    assert(panel.lines(wrapped, width, height)[1 + before + row] == all[before + row]);
}

/// A panel starts with its heading, which counts as hidden just the tasks of the whole plan that the
/// panel does not show.
pub proof fn law_a_panel_starts_with_its_heading(
    panel: TaskListPanelView,
    wrapped: Seq<Seq<Seq<char>>>,
    width: u16,
    height: u16,
)
    requires
        panel.is_visible(),
        panel.wrapped_for(wrapped),
        panel.plan->0.source_start + panel.plan->0.items.len() <= panel.plan->0.total_items,
        width > 0,
        height > 0,
    ensures
        ({
            let plan = panel.plan->0;
            let window = fitting_window(
                plan.statuses(),
                wrapped,
                (height - 1) as nat,
                panel.presentation,
            );
            panel.lines(wrapped, width, height)[0] == panel.heading(
                plan,
                wrapped,
                (plan.total_items - (window.end - window.start)) as nat,
                width,
            )
        }),
{
    law_shown_and_hidden_tasks_are_the_plan(
        panel.plan->0,
        wrapped,
        (height - 1) as nat,
        panel.presentation,
    );
}

/// Where there are rows for the lines of all tasks, all tasks are shown.
pub proof fn law_all_tasks_are_shown_where_they_fit(
    statuses: Seq<StepStatus>,
    wrapped: Seq<Seq<Seq<char>>>,
    available: nat,
    presentation: TaskListPresentation,
)
    requires
        statuses.len() == wrapped.len(),
        statuses.len() <= usize::MAX,
        available <= usize::MAX,
        forall|index: int| 0 <= index < wrapped.len() ==> #[trigger] wrapped[index].len() >= 1,
        crate::numbers::sum(row_counts(wrapped, presentation.line_limit())) <= available,
        presentation == TaskListPresentation::Compact ==> crate::numbers::sum(
            row_counts(wrapped, presentation.line_limit()),
        ) <= 5,
    ensures
        fitting_window(statuses, wrapped, available, presentation).start == 0,
        fitting_window(statuses, wrapped, available, presentation).end == statuses.len(),
{
    let limit = presentation.line_limit();
    let counts = row_counts(wrapped, limit);
    assert forall|index: int| 0 <= index < counts.len() implies counts[index] >= 1 by {
        assert(wrapped[index].len() >= 1);
    }
    lemma_a_row_for_each_task(counts);
    lemma_window_in_bounds(statuses, statuses.len());
    assert(counts.subrange(0, counts.len() as int) =~= counts);
}

/// A further task of a window takes the rows of its own lines.
pub proof fn law_every_task_takes_its_own_rows(
    wrapped: Seq<Seq<Seq<char>>>,
    start: usize,
    end: usize,
    line_limit: Option<nat>,
)
    requires
        start <= end < wrapped.len(),
        end < usize::MAX,
    ensures
        window_rows(wrapped, TaskWindow { start, end: start }, line_limit) == 0,
        window_rows(wrapped, TaskWindow { start, end: (end + 1) as usize }, line_limit)
            == window_rows(wrapped, TaskWindow { start, end }, line_limit) + shown_rows(
            wrapped[end as int].len(),
            line_limit,
        ),
{
    let counts = row_counts(wrapped, line_limit);
    let longer = counts.subrange(start as int, end + 1);
    assert(longer.drop_last() =~= counts.subrange(start as int, end as int));
    assert(counts.subrange(start as int, start as int) =~= Seq::<nat>::empty());
}

/// A panel shows the tasks round the one to do, and so many that one more of them would take more rows
/// than there are, of which a compact panel gives its tasks five at most.
pub proof fn law_no_more_tasks_would_fit(
    statuses: Seq<StepStatus>,
    wrapped: Seq<Seq<Seq<char>>>,
    available: nat,
    presentation: TaskListPresentation,
    more: nat,
)
    requires
        statuses.len() == wrapped.len(),
        statuses.len() <= usize::MAX,
        available <= usize::MAX,
    ensures
        ({
            let window = fitting_window(statuses, wrapped, available, presentation);
            let shown = (window.end - window.start) as nat;
            let rows = match presentation {
                TaskListPresentation::Compact => crate::numbers::least(available as int, 5),
                TaskListPresentation::Expanded => available as int,
            };
            &&& window == crate::task_window::task_window(statuses, shown)
            &&& shown <= rows
            &&& shown > 1 ==> window_rows(wrapped, window, presentation.line_limit()) <= rows
            &&& available > 0 && statuses.len() > 0 ==> shown > 0
            &&& shown < more <= statuses.len() && more <= rows ==> window_rows(
                wrapped,
                crate::task_window::task_window(statuses, more),
                presentation.line_limit(),
            ) > rows
        }),
{
    let capacity = row_capacity(available, presentation);
    let limit = presentation.line_limit();
    let tasks = crate::numbers::least(capacity as int, statuses.len() as int) as nat;
    let count = fitting_task_count(statuses, wrapped, capacity, limit, tasks);
    law_as_many_tasks_are_shown_as_fit(statuses, wrapped, capacity, limit, tasks);
    lemma_window_in_bounds(statuses, count);
}

/// A panel asks for its heading and for every line of its tasks, where a compact panel has rows for all
/// of them; otherwise for the lines of the tasks that it shows.
pub proof fn law_a_panel_asks_for_the_lines_of_its_tasks(
    panel: TaskListPanelView,
    wrapped: Seq<Seq<Seq<char>>>,
    width: u16,
)
    requires
        panel.is_visible(),
        panel.wrapped_for(wrapped),
        wrapped.len() <= usize::MAX,
        width > 0,
        forall|index: int| 0 <= index < wrapped.len() ==> #[trigger] wrapped[index].len() >= 1,
    ensures
        ({
            let rows = crate::numbers::sum(row_counts(wrapped, panel.presentation.line_limit()));
            let shown = window_rows(
                wrapped,
                fitting_window(
                    panel.plan->0.statuses(),
                    wrapped,
                    usize::MAX as nat,
                    panel.presentation,
                ),
                panel.presentation.line_limit(),
            );
            &&& rows < u16::MAX && (panel.presentation == TaskListPresentation::Expanded || rows
                <= 5) ==> panel.desired_height(wrapped, width) == rows + 1
            &&& shown < u16::MAX ==> panel.desired_height(wrapped, width) == shown + 1
            &&& shown >= u16::MAX ==> panel.desired_height(wrapped, width) == u16::MAX
        }),
{
    let limit = panel.presentation.line_limit();
    let counts = row_counts(wrapped, limit);
    if crate::numbers::sum(counts) < u16::MAX && (panel.presentation
        == TaskListPresentation::Expanded || crate::numbers::sum(counts) <= 5) {
        law_all_tasks_are_shown_where_they_fit(
            panel.plan->0.statuses(),
            wrapped,
            usize::MAX as nat,
            panel.presentation,
        );
        assert(counts.subrange(0, counts.len() as int) =~= counts);
    }
}

/// In every plan, and wherever there is a row for a task, the task to do is shown: the first one in
/// progress; where none is, the first one that is pending; and where every task is done, the last.
pub proof fn law_the_task_to_do_is_shown(
    plan: DisplayPlanView,
    wrapped: Seq<Seq<Seq<char>>>,
    available: nat,
    presentation: TaskListPresentation,
    index: int,
)
    requires
        plan.items.len() <= usize::MAX,
        available > 0,
        0 <= index < plan.items.len(),
        ({
            let items = plan.items;
            ||| items[index].status == StepStatus::InProgress && forall|earlier: int|
                0 <= earlier < index ==> (#[trigger] items[earlier]).status
                    != StepStatus::InProgress
            ||| items[index].status == StepStatus::Pending && (forall|earlier: int|
                0 <= earlier < index ==> (#[trigger] items[earlier]).status != StepStatus::Pending)
                && forall|other: int|
                0 <= other < items.len() ==> (#[trigger] items[other]).status
                    != StepStatus::InProgress
            ||| index + 1 == items.len() && forall|other: int|
                0 <= other < items.len() ==> (#[trigger] items[other]).status
                    == StepStatus::Completed
        }),
    ensures
        fitting_window(plan.statuses(), wrapped, available, presentation).start <= index
            < fitting_window(plan.statuses(), wrapped, available, presentation).end,
{
    crate::task_window::lemma_the_task_to_do_is_the_anchor(plan.items, index);
    law_the_anchor_is_shown(plan, wrapped, available, presentation, index);
}

/// The heading tells how many tasks are done and how many there are, and how many of them are hidden
/// where some are. It names the shortcut where one is set, the shortcut shows something else than what
/// is shown, and there is room for it.
pub proof fn law_the_heading_tells_the_counts(
    panel: TaskListPanelView,
    plan: DisplayPlanView,
    wrapped: Seq<Seq<Seq<char>>>,
    hidden: nat,
    width: u16,
)
    requires
        width > 0,
        crate::styled::line_width(heading_counts(plan, hidden)) <= width,
    ensures
        ({
            let heading = panel.heading(plan, wrapped, hidden, width);
            let counts: int = if hidden > 0 {
                3
            } else {
                2
            };
            let reveals = panel.presentation == TaskListPresentation::Expanded || hidden > 0 || exists|
                index: int,
            |
                0 <= index < wrapped.len() && (#[trigger] wrapped[index]).len() > 2;
            let name = match panel.presentation {
                TaskListPresentation::Compact => "expand"@,
                TaskListPresentation::Expanded => "collapse"@,
            };
            &&& heading.len() == counts || heading.len() == counts + 1
            &&& heading[0].text == "Tasks "@ && heading[0].style.bold
            &&& heading[1].text == crate::text::decimal(plan.completed_items as nat) + seq!['/']
                + crate::text::decimal(plan.total_items as nat)
            &&& hidden > 0 ==> heading[2].text == seq![' ', '\u{b7}', ' '] + crate::text::decimal(
                hidden,
            ) + " hidden"@
            &&& heading.len() == counts + 1 ==> reveals
            &&& heading.len() == counts + 1 ==> panel.shortcut_hint is Some
            &&& panel.shortcut_hint matches Some(label) ==> {
                let shortcut = seq![' ', '\u{b7}', ' '] + label + seq![' '] + name;
                &&& heading.len() == counts + 1 ==> heading[counts].text == shortcut
                    && heading[counts].style.dim
                &&& heading.len() == counts + 1 <==> reveals && crate::styled::line_width(
                    heading_counts(plan, hidden),
                ) + crate::text::display_width(shortcut) <= width
            }
        }),
{
    reveal_strlit("/");
    reveal_strlit(" ");
    reveal_strlit(" \u{b7} ");
    assert("/"@ =~= seq!['/']);
    assert(" "@ =~= seq![' ']);
    assert(" \u{b7} "@ =~= seq![' ', '\u{b7}', ' ']);
    let counts = heading_counts(plan, hidden);
    crate::styled::law_a_line_that_goes_on_ends_in_an_ellipsis(counts, width as nat);
    if let Some(label) = panel.shortcut_hint {
        let shortcut = shortcut_span(label, panel.presentation);
        crate::styled::law_a_line_is_as_wide_as_its_spans(counts, shortcut);
        crate::styled::law_a_line_that_goes_on_ends_in_an_ellipsis(
            counts.push(shortcut),
            width as nat,
        );
    }
}

/// A kept plan holds the tasks of the plan in their order and with their statuses, at most a hundred of
/// them. A text of up to three hundred clusters is kept whole, and a longer one is cut to that with three
/// dots.
pub proof fn law_a_kept_plan_holds_the_tasks_in_order(plan: Seq<PlanItemView>, index: int)
    requires
        0 < plan.len() <= usize::MAX,
        0 <= index < plan.len(),
    ensures
        display_plan(plan) matches Some(kept) && {
            let source = kept.source_start + index;
            let clusters = crate::text::grapheme_clusters(plan[source].step);
            &&& kept.items.len() == crate::numbers::least(plan.len() as int, 100)
            &&& kept.source_start + kept.items.len() <= plan.len() == kept.total_items
            &&& index < kept.items.len() ==> {
                &&& kept.items[index].status == plan[source].status
                &&& clusters.len() <= 300 ==> kept.items[index].step == clusters.flatten_alt()
                &&& clusters.len() > 300 ==> kept.items[index].step == clusters.take(
                    297,
                ).flatten_alt() + seq!['.', '.', '.']
            }
        },
{
    reveal_strlit("...");
    assert("..."@ =~= seq!['.', '.', '.']);
    let statuses = crate::task_window::statuses(plan);
    lemma_window_in_bounds(statuses, MAX_TASK_LIST_ENTRIES as nat);
}

/// Every further task counts, and it counts as done where it is.
pub proof fn law_every_task_of_a_plan_counts(plan: Seq<PlanItemView>, next: PlanItemView)
    requires
        0 < plan.len() < usize::MAX,
    ensures
        ({
            let before = display_plan(plan)->0;
            let after = display_plan(plan.push(next))->0;
            &&& after.total_items == before.total_items + 1
            &&& after.completed_items == before.completed_items + if next.status
                == StepStatus::Completed {
                1int
            } else {
                0
            }
        }),
{
    let statuses = crate::task_window::statuses(plan);
    crate::task_window::law_every_task_counts_for_its_own_status(
        statuses,
        next.status,
        StepStatus::Completed,
    );
    lemma_all_or_fewer(statuses, StepStatus::Completed);
    assert(crate::task_window::statuses(plan.push(next)) =~= statuses.push(next.status));
}

/// A plan with something to do, or any plan with tasks while a turn runs, is shown as the panel is set
/// up: nothing but the plan changes.
pub proof fn law_a_plan_in_work_is_kept(
    panel: TaskListPanelView,
    plan: Seq<PlanItemView>,
    turn_state: TaskListTurnState,
    index: int,
)
    requires
        plan.len() <= usize::MAX,
        0 <= index < plan.len(),
        turn_state == TaskListTurnState::Running || plan[index].status != StepStatus::Completed,
    ensures
        ({
            let after = panel.plan_replaced(plan, turn_state);
            &&& after.plan is Some
            &&& after.plan == display_plan(plan)
            &&& after.is_visible() == panel.render_enabled
            &&& after.render_enabled == panel.render_enabled
            &&& after.presentation == panel.presentation
            &&& after.shortcut_hint == panel.shortcut_hint
            &&& plan[index].status != StepStatus::Completed ==> after.turn_finished() == after
        }),
{
    let statuses = crate::task_window::statuses(plan);
    lemma_all_or_fewer(statuses, StepStatus::Completed);
    assert(statuses[index] == plan[index].status);
}

/// A panel is visible where it is switched on and has a plan. A cleared one has neither a plan nor
/// anything expanded, but stays switched on and keeps its shortcut. Only a visible panel is toggled, and
/// without a shortcut to collapse it again no panel is expanded.
pub proof fn law_a_panel_changes_nothing_else(
    panel: TaskListPanelView,
    shortcut_hint: Option<Seq<char>>,
)
    ensures
        panel.is_visible() <==> panel.render_enabled && panel.plan is Some,
        ({
            let cleared = panel.cleared();
            &&& cleared.plan is None
            &&& cleared.presentation == TaskListPresentation::Compact
            &&& cleared.render_enabled == panel.render_enabled
            &&& cleared.shortcut_hint == panel.shortcut_hint
        }),
        ({
            let toggled = panel.toggled();
            &&& panel.is_visible() <==> toggled.presentation != panel.presentation
            &&& toggled.plan == panel.plan
            &&& toggled.render_enabled == panel.render_enabled
            &&& toggled.shortcut_hint == panel.shortcut_hint
        }),
        ({
            let hinted = panel.with_shortcut_hint(shortcut_hint);
            &&& hinted.shortcut_hint == shortcut_hint
            &&& hinted.plan == panel.plan
            &&& hinted.render_enabled == panel.render_enabled
            &&& shortcut_hint is None ==> hinted.presentation == TaskListPresentation::Compact
            &&& shortcut_hint is Some ==> hinted.presentation == panel.presentation
        }),
        ({
            let finished = panel.turn_finished();
            &&& finished.render_enabled == panel.render_enabled
            &&& finished.shortcut_hint == panel.shortcut_hint
            &&& finished.plan is None <==> panel.plan is None || panel.plan->0.completed_items
                == panel.plan->0.total_items
        }),
{
}

/// A panel that is not visible or has no columns neither asks for rows nor fills any, and any other one
/// asks at least for its heading and shows it wherever it has a row.
pub proof fn law_only_a_visible_panel_takes_rows(
    panel: TaskListPanelView,
    wrapped: Seq<Seq<Seq<char>>>,
    width: u16,
    height: u16,
)
    ensures
        panel.desired_height(wrapped, width) == 0 <==> !panel.is_visible() || width == 0,
        panel.lines(wrapped, width, height).len() == 0 <==> !panel.is_visible() || width == 0
            || height == 0,
{
}

/// A panel uses its area from its left upper corner, leaves the reserved columns at the right free, and
/// goes no further than the screen can count.
pub proof fn law_a_panel_leaves_the_reserved_columns(panel: TaskListPanelRenderable, area: Rect)
    ensures
        ({
            let content = panel.content_area(area);
            &&& content.x == area.x && content.y == area.y
            &&& content.x + content.width <= u16::MAX && content.y + content.height <= u16::MAX
            &&& area.width <= panel.right_reserved_cols ==> content.width == 0
            &&& area.width > panel.right_reserved_cols && area.x + area.width <= u16::MAX
                ==> content.width + panel.right_reserved_cols == area.width
            &&& area.y + area.height <= u16::MAX ==> content.height == area.height
        }),
{
}

/// Plans and panels that are told apart by nothing in their views hold the same tasks in the same state.
pub proof fn law_the_view_of_a_panel_is_all_of_it(left: TaskListPanel, right: TaskListPanel)
    requires
        left@ == right@,
    ensures
        left.render_enabled == right.render_enabled,
        left.presentation == right.presentation,
        left.shortcut_hint is Some == right.shortcut_hint is Some,
        left.shortcut_hint matches Some(hint) ==> hint.label@ == right.shortcut_hint->0.label@,
        left.plan is Some == right.plan is Some,
        left.plan matches Some(plan) ==> {
            let other = right.plan->0;
            &&& plan.source_start == other.source_start
            &&& plan.total_items == other.total_items
            &&& plan.completed_items == other.completed_items
            &&& plan.items@.len() == other.items@.len()
            &&& forall|index: int|
                0 <= index < plan.items@.len() ==> (#[trigger] plan.items@[index]).step@
                    == other.items@[index].step@ && plan.items@[index].status
                    == other.items@[index].status
        },
{
    if let Some(plan) = left.plan {
        let other = right.plan->0;
        assert(left@.plan == Some(plan.deep_view()));
        assert(right@.plan == Some(other.deep_view()));
        assert(plan.items.deep_view().len() == other.items.deep_view().len());
        assert forall|index: int| 0 <= index < plan.items@.len() implies (
        #[trigger] plan.items@[index]).step@ == other.items@[index].step@
            && plan.items@[index].status == other.items@[index].status by {
            assert(plan.items.deep_view()[index] == other.items.deep_view()[index]);
        }
    }
    if let Some(hint) = left.shortcut_hint {
        assert(left@.shortcut_hint == Some(hint.label@));
        assert(right@.shortcut_hint == Some(right.shortcut_hint->0.label@));
    }
}

/// A status counts every task exactly where every task has it.
proof fn lemma_all_or_fewer(statuses: Seq<StepStatus>, status: StepStatus)
    ensures
        crate::task_window::status_count(statuses, status) <= statuses.len(),
        crate::task_window::status_count(statuses, status) == statuses.len() <==> forall|
            index: int,
        |
            0 <= index < statuses.len() ==> statuses[index] == status,
    decreases statuses.len(),
{
    if statuses.len() > 0 {
        lemma_all_or_fewer(statuses.drop_last(), status);
        if forall|index: int|
            0 <= index < statuses.drop_last().len() ==> statuses.drop_last()[index] == status {
            assert forall|index: int| 0 <= index < statuses.len() - 1 implies statuses[index]
                == status by {
                assert(statuses.drop_last()[index] == status);
            }
        }
    }
}

/// Rows that the tasks of `window` take together.
fn rendered_row_count(
    wrapped: &Vec<Vec<String>>,
    window: TaskWindow,
    presentation: TaskListPresentation,
) -> (rows: u128)
    requires
        window.start <= window.end <= wrapped.len(),
    ensures
        rows == window_rows(wrapped.deep_view(), window, presentation.line_limit()),
{
    let limit = presentation.task_line_limit();
    let ghost counts = row_counts(wrapped.deep_view(), presentation.line_limit()).subrange(
        window.start as int,
        window.end as int,
    );
    let mut rows: u128 = 0;
    let mut index: usize = window.start;
    while index < window.end
        invariant
            window.start <= index <= window.end <= wrapped.len(),
            limit is Some == (presentation.line_limit() is Some),
            limit matches Some(lines) ==> presentation.line_limit() == Some(lines as nat),
            counts == row_counts(wrapped.deep_view(), presentation.line_limit()).subrange(
                window.start as int,
                window.end as int,
            ),
            rows == crate::numbers::sum(counts.take(index - window.start)),
            rows <= (index - window.start) * 0xffff_ffff_ffff_ffff,
        decreases window.end - index,
    {
        let count: usize = match limit {
            Some(lines) => if wrapped[index].len() > lines {
                lines
            } else {
                wrapped[index].len()
            },
            None => wrapped[index].len(),
        };
        proof {
            crate::numbers::lemma_sum_step(counts, index - window.start);
            assert(counts[index - window.start] == count);
            assert((index + 1 - window.start) * 0xffff_ffff_ffff_ffff <= u128::MAX)
                by (nonlinear_arith)
                requires
                    0 <= index + 1 - window.start <= 0xffff_ffff_ffff_ffff,
            ;
        }
        rows = rows + count as u128;
        index += 1;
    }
    assert(counts.take(window.end - window.start) =~= counts);
    rows
}

/// Drop tasks from the window until the wrapped rows fit the available height.
pub fn select_fitting_task_window(
    plan: &Vec<PlanItemArg>,
    wrapped: &Vec<Vec<String>>,
    available_rows: usize,
    presentation: TaskListPresentation,
) -> (window: TaskWindow)
    requires
        plan.len() == wrapped.len(),
    ensures
        window == fitting_window(
            crate::task_window::statuses(plan.deep_view()),
            wrapped.deep_view(),
            available_rows as nat,
            presentation,
        ),
        window.start <= window.end <= plan.len(),
{
    let ghost statuses = crate::task_window::statuses(plan.deep_view());
    let items = plan.as_slice();
    assert(items.deep_view() =~= plan.deep_view());
    let max_rows: usize = presentation.max_task_rows();
    let row_capacity: usize = if available_rows < max_rows {
        available_rows
    } else {
        max_rows
    };
    let mut task_capacity: usize = if row_capacity < plan.len() {
        row_capacity
    } else {
        plan.len()
    };
    let ghost limit = presentation.line_limit();
    let ghost first = task_capacity as nat;
    loop
        invariant
            plan.len() == wrapped.len(),
            items.deep_view() == plan.deep_view(),
            statuses == crate::task_window::statuses(plan.deep_view()),
            limit == presentation.line_limit(),
            fitting_task_count(
                statuses,
                wrapped.deep_view(),
                row_capacity as nat,
                limit,
                task_capacity as nat,
            ) == fitting_task_count(
                statuses,
                wrapped.deep_view(),
                row_capacity as nat,
                limit,
                first,
            ),
            fitting_window(
                statuses,
                wrapped.deep_view(),
                available_rows as nat,
                presentation,
            ) == crate::task_window::task_window(
                statuses,
                fitting_task_count(
                    statuses,
                    wrapped.deep_view(),
                    row_capacity as nat,
                    limit,
                    first,
                ),
            ),
        decreases task_capacity,
    {
        let window = select_task_window(items, task_capacity);
        proof {
            lemma_window_in_bounds(statuses, task_capacity as nat);
        }
        if task_capacity <= 1 || rendered_row_count(wrapped, window, presentation)
            <= row_capacity as u128 {
            return window;
        }
        task_capacity = task_capacity - 1;
    }
}

fn task_marker(status: StepStatus) -> (span: StyledSpan)
    ensures
        span.deep_view() == marker(status),
{
    match status {
        StepStatus::Completed => StyledSpan::new("\u{2714} ".to_owned(), SpanStyle::dim()),
        _ => StyledSpan::new("\u{25a1} ".to_owned(), SpanStyle::plain()),
    }
}

fn task_step_style(status: StepStatus) -> (style: SpanStyle)
    ensures
        style == step_style(status),
{
    match status {
        StepStatus::Completed => SpanStyle { crossed_out: true, ..SpanStyle::dim() },
        StepStatus::InProgress => SpanStyle {
            foreground: TextColor::Cyan,
            ..SpanStyle::bold()
        },
        StepStatus::Pending => SpanStyle::dim(),
    }
}

/// The marker of a task, and the style of its text.
pub fn task_marker_and_step_style(status: StepStatus) -> (shown: (StyledSpan, SpanStyle))
    ensures
        shown.0.deep_view() == marker(status),
        shown.1 == step_style(status),
{
    (task_marker(status), task_step_style(status))
}

/// Show that `line` stands for more than it holds.
fn mark_clipped(line: StyledLine, width: u16) -> (marked: StyledLine)
    ensures
        marked.deep_view() == marked_as_clipped(line.deep_view(), width as nat),
{
    let style = line.closing_style();
    let ghost before = line.deep_view();
    let mut line = line;
    let ellipsis = StyledSpan::new("\u{2026}".to_owned(), style);
    let ghost pushed = ellipsis;
    line.spans.push(ellipsis);
    assert(line.deep_view() =~= before.push(pushed.deep_view()));
    crate::styled::truncate_line_with_ellipsis_if_overflow(line, width)
}

/// Line `index` of a task.
fn task_line_at(
    status: StepStatus,
    rows: &Vec<String>,
    gutter: &str,
    index: usize,
) -> (line: StyledLine)
    requires
        index < rows.len(),
    ensures
        line.deep_view() == task_line(status, rows.deep_view(), gutter@, index as int),
{
    let (marker, step_style) = task_marker_and_step_style(status);
    let step = StyledSpan::new(rows[index].clone(), step_style);
    let mut spans: Vec<StyledSpan> = Vec::new();
    if index == 0 {
        spans.push(StyledSpan::new(gutter.to_owned(), SpanStyle::dim()));
        spans.push(marker);
        spans.push(step);
    } else {
        spans.push(StyledSpan::new("     ".to_owned(), SpanStyle::plain()));
        spans.push(step);
    }
    assert(spans.deep_view() =~= task_line(status, rows.deep_view(), gutter@, index as int));
    StyledLine { spans }
}

/// Show one task under its marker, clipping to `line_limit` lines when the presentation caps them.
pub fn task_lines(
    item: &PlanItemArg,
    rows: &Vec<String>,
    gutter: &str,
    width: u16,
    line_limit: Option<usize>,
) -> (lines: Vec<StyledLine>)
    ensures
        lines.deep_view() == clipped_task_lines(
            item.deep_view().status,
            rows.deep_view(),
            gutter@,
            width as nat,
            match line_limit {
                Some(limit) => Some(limit as nat),
                None => None,
            },
        ),
{
    let count: usize = match line_limit {
        Some(limit) => if rows.len() > limit {
            limit
        } else {
            rows.len()
        },
        None => rows.len(),
    };
    let ghost expected = clipped_task_lines(
        item.deep_view().status,
        rows.deep_view(),
        gutter@,
        width as nat,
        match line_limit {
            Some(limit) => Some(limit as nat),
            None => None,
        },
    );
    let mut lines: Vec<StyledLine> = Vec::new();
    let mut index: usize = 0;
    while index < count
        invariant
            index <= count <= rows.len(),
            count == expected.len(),
            expected == clipped_task_lines(
                item.deep_view().status,
                rows.deep_view(),
                gutter@,
                width as nat,
                match line_limit {
                    Some(limit) => Some(limit as nat),
                    None => None,
                },
            ),
            lines.deep_view() == expected.take(index as int),
        decreases count - index,
    {
        let ghost before = lines.deep_view();
        let line = task_line_at(item.status, rows, gutter, index);
        let line = if index + 1 == count && count < rows.len() {
            mark_clipped(line, width)
        } else {
            line
        };
        let ghost pushed = line;
        lines.push(line);
        assert(pushed.deep_view() == expected[index as int]);
        assert(lines.deep_view() =~= before.push(pushed.deep_view()));
        assert(lines.deep_view() =~= expected.take(index + 1));
        index += 1;
    }
    assert(expected.take(count as int) =~= expected);
    lines
}

/// Whether the compact presentation clips the text of a task.
pub fn task_exceeds_compact_lines(rows: &Vec<String>) -> (exceeds: bool)
    ensures
        exceeds == (rows.deep_view().len() > COMPACT_TASK_LINE_LIMIT),
{
    rows.len() > COMPACT_TASK_LINE_LIMIT
}

impl TaskListPanel {
    pub fn new(render_enabled: bool, shortcut_hint: Option<ShortcutHint>) -> (panel: Self)
        ensures
            panel@ == (TaskListPanelView {
                render_enabled,
                plan: None,
                presentation: TaskListPresentation::Compact,
                shortcut_hint: shortcut_hint.deep_view(),
            }),
    {
        TaskListPanel {
            render_enabled,
            plan: None,
            presentation: TaskListPresentation::Compact,
            shortcut_hint,
        }
    }

    pub fn set_render_enabled(&mut self, render_enabled: bool)
        ensures
            final(self)@ == (TaskListPanelView { render_enabled, ..old(self)@ }),
    {
        self.render_enabled = render_enabled;
    }

    /// Name the key that changes the presentation. Without one the panel is compact.
    pub fn set_shortcut_hint(&mut self, shortcut_hint: Option<ShortcutHint>)
        ensures
            final(self)@ == old(self)@.with_shortcut_hint(shortcut_hint.deep_view()),
    {
        if shortcut_hint.is_none() {
            self.presentation = TaskListPresentation::Compact;
        }
        self.shortcut_hint = shortcut_hint;
    }

    /// Show `plan` in place of the present one.
    pub fn replace_plan(&mut self, plan: Vec<PlanItemArg>, turn_state: TaskListTurnState)
        ensures
            final(self)@ == old(self)@.plan_replaced(plan.deep_view(), turn_state),
    {
        match DisplayPlan::from_source(plan) {
            None => {
                self.clear();
            },
            Some(plan) => {
                if turn_state == TaskListTurnState::Idle && plan.is_complete() {
                    self.clear();
                } else {
                    self.plan = Some(plan);
                }
            },
        }
    }

    /// Let go of a plan whose tasks are all done.
    pub fn on_turn_finished(&mut self)
        ensures
            final(self)@ == old(self)@.turn_finished(),
    {
        let complete = match &self.plan {
            Some(plan) => plan.is_complete(),
            None => false,
        };
        if complete {
            self.clear();
        }
    }

    /// Change the presentation of a visible panel. Returns whether there was one.
    pub fn toggle_expanded(&mut self) -> (toggled: bool)
        ensures
            toggled == old(self)@.is_visible(),
            final(self)@ == old(self)@.toggled(),
    {
        if !self.is_visible() {
            return false;
        }
        self.presentation = match self.presentation {
            TaskListPresentation::Compact => TaskListPresentation::Expanded,
            TaskListPresentation::Expanded => TaskListPresentation::Compact,
        };
        true
    }

    pub fn is_visible(&self) -> (visible: bool)
        ensures
            visible == self@.is_visible(),
    {
        self.render_enabled && self.plan.is_some()
    }

    /// The panel as it is shown beside `right_reserved_cols` columns at the right.
    pub fn as_renderable(&self, right_reserved_cols: u16) -> (renderable: TaskListPanelRenderable<'_>)
        ensures
            renderable.panel@ == self@,
            renderable.right_reserved_cols == right_reserved_cols,
    {
        TaskListPanelRenderable { panel: self, right_reserved_cols }
    }

    fn clear(&mut self)
        ensures
            final(self)@ == old(self)@.cleared(),
    {
        self.plan = None;
        self.presentation = TaskListPresentation::Compact;
    }

    /// The rows that the panel would like to have in `width` columns, with the text of each kept
    /// task wrapped to that width.
    pub fn desired_height(&self, wrapped: &Vec<Vec<String>>, width: u16) -> (height: u16)
        requires
            self@.wrapped_for(wrapped.deep_view()),
        ensures
            height == self@.desired_height(wrapped.deep_view(), width),
    {
        if !self.render_enabled || width == 0 {
            return 0;
        }
        match &self.plan {
            None => 0,
            Some(plan) => {
                let window = select_fitting_task_window(
                    &plan.items,
                    wrapped,
                    usize::MAX,
                    self.presentation,
                );
                let task_rows: u128 = rendered_row_count(wrapped, window, self.presentation);
                if task_rows < u16::MAX as u128 {
                    task_rows as u16 + 1
                } else {
                    u16::MAX
                }
            },
        }
    }

    /// What the panel shows in `width` columns and `height` rows, with the text of each kept task
    /// wrapped to that width.
    pub fn render_lines(
        &self,
        wrapped: &Vec<Vec<String>>,
        width: u16,
        height: u16,
    ) -> (lines: Vec<StyledLine>)
        requires
            self@.wrapped_for(wrapped.deep_view()),
        ensures
            lines.deep_view() == self@.lines(wrapped.deep_view(), width, height),
    {
        let mut lines: Vec<StyledLine> = Vec::new();
        assert(lines.deep_view() =~= Seq::empty());
        if !self.render_enabled || width == 0 || height == 0 {
            return lines;
        }
        match &self.plan {
            None => lines,
            Some(plan) => {
                let task_row_capacity: usize = height as usize - 1;
                let window = select_fitting_task_window(
                    &plan.items,
                    wrapped,
                    task_row_capacity,
                    self.presentation,
                );
                let source_window = plan.source_window(window);
                let hidden_count: usize = source_window.hidden_count(plan.total_items);
                let heading = self.heading(plan, wrapped, hidden_count, width);
                let ghost head = heading.deep_view();
                lines.push(heading);
                assert(lines.deep_view() =~= seq![head]);
                let limit = self.presentation.task_line_limit();
                let ghost view = self@;
                let ghost plan_view = plan.deep_view();
                let ghost wrapped_view = wrapped.deep_view();
                let ghost all = view.task_rows(
                    plan_view,
                    wrapped_view,
                    window,
                    width,
                    window.start as int,
                    task_row_capacity as nat,
                );
                let mut index: usize = window.start;
                let mut remaining_rows: usize = task_row_capacity;
                assert(lines.deep_view() + all =~= seq![head] + all);
                while index < window.end && remaining_rows > 0
                    invariant
                        window.start <= index <= window.end <= plan.items.len(),
                        plan.items.len() == wrapped.len(),
                        view == self@,
                        plan_view == plan.deep_view(),
                        wrapped_view == wrapped.deep_view(),
                        source_window == plan_view.source_window(window),
                        limit is Some == (self.presentation.line_limit() is Some),
                        limit matches Some(count) ==> self.presentation.line_limit() == Some(
                            count as nat,
                        ),
                        lines.deep_view() + view.task_rows(
                            plan_view,
                            wrapped_view,
                            window,
                            width,
                            index as int,
                            remaining_rows as nat,
                        ) == seq![head] + all,
                    decreases window.end - index,
                {
                    let source_index: usize = plan.source_start.saturating_add(index);
                    let gutter = continuation_gutter(
                        source_window,
                        source_index,
                        plan.total_items,
                    );
                    let line_limit: usize = match limit {
                        Some(count) => if count < remaining_rows {
                            count
                        } else {
                            remaining_rows
                        },
                        None => remaining_rows,
                    };
                    let mut shown = task_lines(
                        &plan.items[index],
                        &wrapped[index],
                        gutter,
                        width,
                        Some(line_limit),
                    );
                    let ghost before = lines.deep_view();
                    let ghost added = shown.deep_view();
                    assert(added == view.lines_of_task(
                        plan_view,
                        wrapped_view,
                        window,
                        width,
                        index as int,
                        remaining_rows as nat,
                    ));
                    remaining_rows = remaining_rows - shown.len();
                    lines.append(&mut shown);
                    index += 1;
                    proof {
                        assert(lines.deep_view() =~= before + added);
                        let rest = view.task_rows(
                            plan_view,
                            wrapped_view,
                            window,
                            width,
                            index as int,
                            remaining_rows as nat,
                        );
                        assert(before + (added + rest) =~= lines.deep_view() + rest);
                    }
                }
                assert(lines.deep_view() + Seq::<Seq<SpanView>>::empty() =~= lines.deep_view());
                lines
            },
        }
    }

    fn heading(
        &self,
        plan: &DisplayPlan,
        wrapped: &Vec<Vec<String>>,
        hidden_count: usize,
        width: u16,
    ) -> (line: StyledLine)
        ensures
            line.deep_view() == self@.heading(
                plan.deep_view(),
                wrapped.deep_view(),
                hidden_count as nat,
                width,
            ),
    {
        let mut spans: Vec<StyledSpan> = Vec::new();
        spans.push(StyledSpan::new("Tasks ".to_owned(), SpanStyle::bold()));
        let mut counts = crate::text::decimal_text(plan.completed_items);
        counts.append("/");
        counts.append(crate::text::decimal_text(plan.total_items).as_str());
        spans.push(StyledSpan::new(counts, SpanStyle::plain()));
        if hidden_count > 0 {
            let mut hidden = " \u{b7} ".to_owned();
            hidden.append(crate::text::decimal_text(hidden_count).as_str());
            hidden.append(" hidden");
            spans.push(StyledSpan::new(hidden, SpanStyle::dim()));
        }
        assert(spans.deep_view() =~= heading_counts(plan.deep_view(), hidden_count as nat));
        let mut heading = StyledLine { spans };
        match &self.shortcut_hint {
            None => {},
            Some(shortcut_hint) => {
                if self.shortcut_reveals_more(wrapped, hidden_count) {
                    let mut text = " \u{b7} ".to_owned();
                    text.append(shortcut_hint.label.as_str());
                    text.append(" ");
                    text.append(
                        match self.presentation {
                            TaskListPresentation::Compact => "expand",
                            TaskListPresentation::Expanded => "collapse",
                        },
                    );
                    let shortcut_width: usize = crate::text::text_width(text.as_str());
                    if heading.width().saturating_add(shortcut_width) <= width as usize {
                        let ghost before = heading.deep_view();
                        let shortcut = StyledSpan::new(text, SpanStyle::dim());
                        let ghost pushed = shortcut;
                        heading.spans.push(shortcut);
                        assert(heading.deep_view() =~= before.push(pushed.deep_view()));
                    }
                }
            },
        }
        crate::styled::truncate_line_with_ellipsis_if_overflow(heading, width)
    }

    /// True when the shortcut would show content the current presentation withholds.
    ///
    /// The expanded presentation always has the compact one to return to, while the compact
    /// presentation withholds content only when it hides tasks or clips task text.
    fn shortcut_reveals_more(&self, wrapped: &Vec<Vec<String>>, hidden_count: usize) -> (reveals:
        bool)
        ensures
            reveals == shortcut_reveals_more(
                self.presentation,
                wrapped.deep_view(),
                hidden_count as nat,
            ),
    {
        match self.presentation {
            TaskListPresentation::Expanded => true,
            TaskListPresentation::Compact => {
                if hidden_count > 0 {
                    return true;
                }
                let mut index: usize = 0;
                while index < wrapped.len()
                    invariant
                        index <= wrapped.len(),
                        forall|earlier: int|
                            0 <= earlier < index ==> #[trigger] wrapped.deep_view()[earlier].len()
                                <= COMPACT_TASK_LINE_LIMIT,
                    decreases wrapped.len() - index,
                {
                    if task_exceeds_compact_lines(&wrapped[index]) {
                        assert(wrapped.deep_view()[index as int].len() > COMPACT_TASK_LINE_LIMIT);
                        return true;
                    }
                    index += 1;
                }
                false
            },
        }
    }
}

/// A panel with the columns at the right that it leaves free.
pub struct TaskListPanelRenderable<'a> {
    pub panel: &'a TaskListPanel,
    pub right_reserved_cols: u16,
}

/// What to put on the screen: an area that is cleared first, and the lines that fill it from its
/// top.
#[derive(Clone, Debug, PartialEq, Eq)]
pub struct RenderedPanel {
    pub area: Rect,
    pub lines: Vec<StyledLine>,
}

impl<'a> TaskListPanelRenderable<'a> {
    /// The part of `area` that the panel may use.
    pub open spec fn content_area(&self, area: Rect) -> Rect {
        Rect {
            x: area.x,
            y: area.y,
            width: crate::numbers::least(
                crate::numbers::greatest(area.width - self.right_reserved_cols, 0),
                u16::MAX - area.x,
            ) as u16,
            height: crate::numbers::least(area.height as int, u16::MAX - area.y) as u16,
        }
    }

    /// Fill `area`, with the text of each kept task wrapped to the width that is left. Where there
    /// is no room, the screen is left as it is.
    pub fn render(&self, wrapped: &Vec<Vec<String>>, area: Rect) -> (rendered: Option<
        RenderedPanel,
    >)
        requires
            self.panel@.wrapped_for(wrapped.deep_view()),
        ensures
            rendered is None <==> area.width == 0 || area.height == 0 || self.content_area(
                area,
            ).width == 0 || self.content_area(area).height == 0,
            rendered matches Some(shown) ==> {
                &&& shown.area == self.content_area(area)
                &&& shown.lines.deep_view() == self.panel@.lines(
                    wrapped.deep_view(),
                    self.content_area(area).width,
                    self.content_area(area).height,
                )
            },
    {
        if area.width == 0 || area.height == 0 {
            return None;
        }
        let content_area = Rect::new(
            area.x,
            area.y,
            area.width.saturating_sub(self.right_reserved_cols),
            area.height,
        );
        if content_area.width == 0 || content_area.height == 0 {
            return None;
        }
        let lines = self.panel.render_lines(wrapped, content_area.width, content_area.height);
        Some(RenderedPanel { area: content_area, lines })
    }

    /// The rows that the panel would like to have in `width` columns.
    pub fn desired_height(&self, wrapped: &Vec<Vec<String>>, width: u16) -> (height: u16)
        requires
            self.panel@.wrapped_for(wrapped.deep_view()),
        ensures
            height == self.panel@.desired_height(
                wrapped.deep_view(),
                crate::numbers::greatest(width - self.right_reserved_cols, 0) as u16,
            ),
    {
        let content_width: u16 = width.saturating_sub(self.right_reserved_cols);
        if content_width == 0 {
            return 0;
        }
        self.panel.desired_height(wrapped, content_width)
    }
}

} // verus!
