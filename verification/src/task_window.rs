//! Choosing which tasks of a plan to show.

use vstd::prelude::*;

use crate::content::Content;

verus! {

pub const HIDDEN_BEFORE_GUTTER: &'static str = "\u{2191}\u{2191} ";

pub const HIDDEN_AFTER_GUTTER: &'static str = "\u{2193}\u{2193} ";

pub const HIDDEN_BOTH_GUTTER: &'static str = "\u{2191}\u{2193} ";

pub const EMPTY_GUTTER: &'static str = "   ";

#[derive(Clone, Copy, Debug, PartialEq, Eq, Structural)]
pub enum StepStatus {
    Pending,
    InProgress,
    Completed,
}

/// One task of a plan.
#[derive(Clone, Debug, PartialEq, Eq)]
pub struct PlanItemArg {
    pub step: String,
    pub status: StepStatus,
}

#[verifier::ext_equal]
pub struct PlanItemView {
    pub step: Seq<char>,
    pub status: StepStatus,
}

impl DeepView for PlanItemArg {
    type V = PlanItemView;

    open spec fn deep_view(&self) -> PlanItemView {
        PlanItemView { step: self.step@, status: self.status }
    }
}

impl Content for PlanItemArg {
    fn duplicate(&self) -> (copy: Self) {
        PlanItemArg { step: self.step.duplicate(), status: self.status }
    }

    fn same_as(&self, other: &Self) -> (same: bool) {
        self.status == other.status && self.step.same_as(&other.step)
    }
}

/// A contiguous range of tasks.
#[derive(Clone, Copy, Debug, PartialEq, Eq, Structural)]
pub struct TaskWindow {
    pub start: usize,
    pub end: usize,
}

pub open spec fn statuses(plan: Seq<PlanItemView>) -> Seq<StepStatus> {
    plan.map_values(|item: PlanItemView| item.status)
}

/// How many of the tasks have a status.
pub open spec fn status_count(statuses: Seq<StepStatus>, status: StepStatus) -> nat
    decreases statuses.len(),
{
    if statuses.len() == 0 {
        0
    } else {
        status_count(statuses.drop_last(), status) + if statuses.last() == status {
            1nat
        } else {
            0
        }
    }
}

/// Whether `index` is the first task with a status.
pub open spec fn is_first(statuses: Seq<StepStatus>, status: StepStatus, index: int) -> bool {
    &&& 0 <= index < statuses.len()
    &&& statuses[index] == status
    &&& forall|earlier: int| 0 <= earlier < index ==> statuses[earlier] != status
}

/// Whether `index` is the task to keep in view: the first one in progress, without one the first
/// pending one, and otherwise the last one.
pub open spec fn is_anchor(statuses: Seq<StepStatus>, index: int) -> bool {
    if statuses.contains(StepStatus::InProgress) {
        is_first(statuses, StepStatus::InProgress, index)
    } else if statuses.contains(StepStatus::Pending) {
        is_first(statuses, StepStatus::Pending, index)
    } else {
        index == statuses.len() - 1
    }
}

/// The task to keep in view.
pub open spec fn anchor(statuses: Seq<StepStatus>) -> int {
    choose|index: int| is_anchor(statuses, index)
}

/// How many tasks the window shows behind the anchor, as far as it has room: one more where
/// several tasks are in progress.
pub open spec fn tasks_after_anchor(statuses: Seq<StepStatus>, size: int) -> int {
    crate::numbers::least(
        if status_count(statuses, StepStatus::InProgress) > 1 {
            3
        } else {
            2
        },
        size - 1,
    )
}

/// How many tasks the window shows before the anchor, as far as it still has room.
pub open spec fn tasks_before_anchor(statuses: Seq<StepStatus>, size: int) -> int {
    crate::numbers::least(
        if status_count(statuses, StepStatus::InProgress) > 1 {
            1
        } else {
            2
        },
        size - 1 - tasks_after_anchor(statuses, size),
    )
}

/// The first task of a window of `size` tasks: a little before the anchor, but so that the window
/// lies inside the plan.
pub open spec fn window_start(statuses: Seq<StepStatus>, size: int) -> int {
    crate::numbers::least(
        crate::numbers::greatest(anchor(statuses) - tasks_before_anchor(statuses, size), 0),
        statuses.len() - size,
    )
}

/// The tasks to show where `capacity` of them can be shown.
pub open spec fn task_window(statuses: Seq<StepStatus>, capacity: nat) -> TaskWindow {
    let size = crate::numbers::least(capacity as int, statuses.len() as int);
    if size == 0 {
        TaskWindow { start: 0, end: 0 }
    } else {
        TaskWindow {
            start: window_start(statuses, size) as usize,
            end: (window_start(statuses, size) + size) as usize,
        }
    }
}

/// There is exactly one anchor in every plan with tasks.
pub proof fn lemma_anchor(statuses: Seq<StepStatus>, index: int)
    requires
        is_anchor(statuses, index),
    ensures
        anchor(statuses) == index,
{
    let chosen = anchor(statuses);
    assert(is_anchor(statuses, chosen));
    if chosen < index {
        assert(statuses.len() > 0);
    }
}

/// A window shows exactly as many neighbouring tasks as there are and it has room for, and among
/// them the one to keep in view.
pub proof fn law_the_window_is_full_and_holds_the_anchor(
    statuses: Seq<StepStatus>,
    capacity: nat,
    index: int,
)
    requires
        statuses.len() <= usize::MAX,
        is_anchor(statuses, index),
        statuses.len() > 0,
    ensures
        task_window(statuses, capacity).start <= task_window(statuses, capacity).end
            <= statuses.len(),
        task_window(statuses, capacity).end - task_window(statuses, capacity).start == crate::numbers::least(
            capacity as int,
            statuses.len() as int,
        ),
        capacity > 0 ==> task_window(statuses, capacity).start <= index < task_window(
            statuses,
            capacity,
        ).end,
{
    lemma_anchor(statuses, index);
}

/// In every plan, and wherever there is room for a task, the task to do is in view: the first one in
/// progress; where none is, the first one that is pending; and where every task is done, the last.
pub proof fn law_the_task_to_do_is_in_view(plan: Seq<PlanItemView>, capacity: nat, index: int)
    requires
        plan.len() <= usize::MAX,
        capacity > 0,
        0 <= index < plan.len(),
        ({
            ||| plan[index].status == StepStatus::InProgress && forall|earlier: int|
                0 <= earlier < index ==> (#[trigger] plan[earlier]).status != StepStatus::InProgress
            ||| plan[index].status == StepStatus::Pending && (forall|earlier: int|
                0 <= earlier < index ==> (#[trigger] plan[earlier]).status != StepStatus::Pending)
                && forall|other: int|
                0 <= other < plan.len() ==> (#[trigger] plan[other]).status
                    != StepStatus::InProgress
            ||| index + 1 == plan.len() && forall|other: int|
                0 <= other < plan.len() ==> (#[trigger] plan[other]).status == StepStatus::Completed
        }),
    ensures
        task_window(statuses(plan), capacity).start <= index < task_window(
            statuses(plan),
            capacity,
        ).end <= plan.len(),
{
    lemma_the_task_to_do_is_the_anchor(plan, index);
    law_the_window_is_full_and_holds_the_anchor(statuses(plan), capacity, index);
}

/// What the plan says of the task to do is what the search looks for.
pub proof fn lemma_the_task_to_do_is_the_anchor(plan: Seq<PlanItemView>, index: int)
    requires
        0 <= index < plan.len(),
        ({
            ||| plan[index].status == StepStatus::InProgress && forall|earlier: int|
                0 <= earlier < index ==> (#[trigger] plan[earlier]).status != StepStatus::InProgress
            ||| plan[index].status == StepStatus::Pending && (forall|earlier: int|
                0 <= earlier < index ==> (#[trigger] plan[earlier]).status != StepStatus::Pending)
                && forall|other: int|
                0 <= other < plan.len() ==> (#[trigger] plan[other]).status
                    != StepStatus::InProgress
            ||| index + 1 == plan.len() && forall|other: int|
                0 <= other < plan.len() ==> (#[trigger] plan[other]).status == StepStatus::Completed
        }),
    ensures
        is_anchor(statuses(plan), index),
{
    let all = statuses(plan);
    assert forall|other: int| 0 <= other < all.len() implies all[other] == plan[other].status by {}
    assert(all[index] == plan[index].status);
    if plan[index].status == StepStatus::InProgress {
        assert(all.contains(StepStatus::InProgress));
    } else if plan[index].status == StepStatus::Pending {
        assert(all.contains(StepStatus::Pending));
    }
}

/// A status is counted once for each task that has it.
proof fn lemma_several_have_a_status(statuses: Seq<StepStatus>, status: StepStatus)
    ensures
        status_count(statuses, status) > 0 <==> statuses.contains(status),
        status_count(statuses, status) > 1 <==> exists|first: int, second: int|
            0 <= first < second < statuses.len() && statuses[first] == status && statuses[second]
                == status,
    decreases statuses.len(),
{
    if statuses.len() > 0 {
        let rest = statuses.drop_last();
        lemma_several_have_a_status(rest, status);
        if status_count(rest, status) > 0 {
            let first = choose|first: int| 0 <= first < rest.len() && rest[first] == status;
            assert(statuses[first] == status);
            if statuses.last() == status {
                assert(statuses[first] == status && statuses[statuses.len() - 1] == status);
            }
        }
        if status_count(rest, status) > 1 {
            let (first, second) = choose|first: int, second: int|
                0 <= first < second < rest.len() && rest[first] == status && rest[second] == status;
            assert(statuses[first] == status && statuses[second] == status);
        }
        if statuses.last() == status {
            assert(statuses[statuses.len() - 1] == status);
        }
        if statuses.contains(status) && statuses.last() != status {
            let first = choose|first: int| 0 <= first < statuses.len() && statuses[first] == status;
            assert(rest[first] == status);
        }
        if exists|first: int, second: int|
            0 <= first < second < statuses.len() && statuses[first] == status && statuses[second]
                == status {
            let (first, second) = choose|first: int, second: int|
                0 <= first < second < statuses.len() && statuses[first] == status
                    && statuses[second] == status;
            assert(rest[first] == status);
            if second < rest.len() {
                assert(rest[second] == status);
            }
        }
    }
}

/// Counting starts at nothing, and every further task counts for its own status and for no other.
pub proof fn law_every_task_counts_for_its_own_status(
    statuses: Seq<StepStatus>,
    next: StepStatus,
    status: StepStatus,
)
    ensures
        status_count(Seq::empty(), status) == 0,
        next == status ==> status_count(statuses.push(next), status) == status_count(
            statuses,
            status,
        ) + 1,
        next != status ==> status_count(statuses.push(next), status) == status_count(
            statuses,
            status,
        ),
        status_count(statuses, StepStatus::Pending) + status_count(statuses, StepStatus::InProgress)
            + status_count(statuses, StepStatus::Completed) == statuses.len(),
    decreases statuses.len(),
{
    assert(statuses.push(next).drop_last() =~= statuses);
    if statuses.len() > 0 {
        law_every_task_counts_for_its_own_status(statuses.drop_last(), next, status);
    }
}

/// Where there is room for it, a window shows two tasks before the task to do and two behind it;
/// where several tasks are in progress it shows one before the first of them and three behind it.
/// What the plan lacks on one side is shown on the other, behind the task first. With little room the
/// tasks behind it go first.
pub proof fn law_the_window_opens_round_the_task_to_do(
    plan: Seq<PlanItemView>,
    capacity: nat,
    index: int,
    several: bool,
)
    requires
        plan.len() <= usize::MAX,
        0 < capacity <= plan.len(),
        0 <= index < plan.len(),
        ({
            ||| plan[index].status == StepStatus::InProgress && forall|earlier: int|
                0 <= earlier < index ==> (#[trigger] plan[earlier]).status != StepStatus::InProgress
            ||| plan[index].status == StepStatus::Pending && (forall|earlier: int|
                0 <= earlier < index ==> (#[trigger] plan[earlier]).status != StepStatus::Pending)
                && forall|other: int|
                0 <= other < plan.len() ==> (#[trigger] plan[other]).status
                    != StepStatus::InProgress
            ||| index + 1 == plan.len() && forall|other: int|
                0 <= other < plan.len() ==> (#[trigger] plan[other]).status == StepStatus::Completed
        }),
        several <==> exists|first: int, second: int|
            0 <= first < second < plan.len() && (#[trigger] plan[first]).status
                == StepStatus::InProgress && (#[trigger] plan[second]).status
                == StepStatus::InProgress,
    ensures
        ({
            let window = task_window(statuses(plan), capacity);
            let before = index - window.start;
            let behind = window.end - 1 - index;
            &&& before + 1 + behind == capacity
            &&& several && capacity >= 5 ==> {
                &&& before >= 1 || window.start == 0
                &&& behind >= 3 || window.end == plan.len()
                &&& before <= 1 || window.end == plan.len()
            }
            &&& !several && capacity >= 5 ==> {
                &&& before >= 2 || window.start == 0
                &&& behind >= 2 || window.end == plan.len()
                &&& before <= 2 || window.end == plan.len()
            }
            &&& several && capacity <= 4 ==> before == 0 || window.end == plan.len()
            &&& !several && capacity <= 3 ==> before == 0 || window.end == plan.len()
            &&& !several && capacity == 4 ==> (before == 1 || window.start == 0) || window.end
                == plan.len()
        }),
{
    let all = statuses(plan);
    lemma_the_task_to_do_is_the_anchor(plan, index);
    lemma_anchor(all, index);
    lemma_several_have_a_status(all, StepStatus::InProgress);
    assert forall|other: int| 0 <= other < all.len() implies all[other] == plan[other].status by {}
    if several {
        let (first, second) = choose|first: int, second: int|
            0 <= first < second < plan.len() && (#[trigger] plan[first]).status
                == StepStatus::InProgress && (#[trigger] plan[second]).status
                == StepStatus::InProgress;
        assert(all[first] == StepStatus::InProgress && all[second] == StepStatus::InProgress);
    } else if status_count(all, StepStatus::InProgress) > 1 {
        let (first, second) = choose|first: int, second: int|
            0 <= first < second < all.len() && all[first] == StepStatus::InProgress && all[second]
                == StepStatus::InProgress;
        assert(plan[first].status == StepStatus::InProgress && plan[second].status
            == StepStatus::InProgress);
    }
}

/// Arrows stand exactly beside the rows behind which tasks are hidden: up on the first row where any
/// are hidden before it, down on the last row where any are hidden after it, and both on a row that
/// is first and last. Every other row has blanks of the same width.
pub proof fn law_arrows_point_to_the_hidden_tasks(window: TaskWindow, index: int, total: int)
    requires
        window.start <= index < window.end <= total,
    ensures
        ({
            let up = index == window.start && 0 < window.start;
            let down = index + 1 == window.end && window.end < total;
            let single = window.start + 1 == window.end;
            gutter(window, index, total) == if single && up && down {
                "\u{2191}\u{2193} "@
            } else if up {
                "\u{2191}\u{2191} "@
            } else if down {
                "\u{2193}\u{2193} "@
            } else {
                "   "@
            }
        }),
{
}

/// An empty plan and no room both show nothing.
pub proof fn law_the_window_is_empty_without_tasks_or_room(
    statuses: Seq<StepStatus>,
    capacity: nat,
)
    requires
        statuses.len() == 0 || capacity == 0,
    ensures
        task_window(statuses, capacity) == (TaskWindow { start: 0, end: 0 }),
{
}

impl Default for TaskWindow {
    /// Nothing at all.
    fn default() -> (window: Self)
        ensures
            window == (TaskWindow { start: 0, end: 0 }),
    {
        TaskWindow { start: 0, end: 0 }
    }
}

impl TaskWindow {
    /// How many tasks the window shows.
    pub fn len(self) -> (count: usize)
        ensures
            count == crate::numbers::greatest(self.end - self.start, 0),
    {
        self.end.saturating_sub(self.start)
    }

    /// How many of `total` tasks lie outside of the window.
    pub fn hidden_count(self, total: usize) -> (count: usize)
        ensures
            count == crate::numbers::least(self.start + crate::numbers::greatest(total - self.end, 0), usize::MAX as int),
    {
        self.start.saturating_add(total.saturating_sub(self.end))
    }
}

pub fn task_is_completed(item: &PlanItemArg) -> (completed: bool)
    ensures
        completed == (item.deep_view().status == StepStatus::Completed),
{
    item.status == StepStatus::Completed
}

/// How many tasks of `plan` have a status.
pub fn count_with_status(plan: &[PlanItemArg], status: StepStatus) -> (count: usize)
    ensures
        count == status_count(statuses(plan.deep_view()), status),
        count <= plan.len(),
{
    let ghost all = statuses(plan.deep_view());
    let mut count: usize = 0;
    let mut index: usize = 0;
    while index < plan.len()
        invariant
            index <= plan.len(),
            all == statuses(plan.deep_view()),
            count <= index,
            count == status_count(all.take(index as int), status),
        decreases plan.len() - index,
    {
        assert(all.take(index + 1).drop_last() =~= all.take(index as int));
        assert(all[index as int] == plan[index as int].status);
        if plan[index].status == status {
            count += 1;
        }
        index += 1;
    }
    assert(all.take(index as int) =~= all);
    count
}

/// The first task of `plan` with a status.
fn first_with_status(plan: &[PlanItemArg], status: StepStatus) -> (first: Option<usize>)
    ensures
        match first {
            Some(index) => is_first(statuses(plan.deep_view()), status, index as int),
            None => !statuses(plan.deep_view()).contains(status),
        },
{
    let ghost all = statuses(plan.deep_view());
    let mut index: usize = 0;
    while index < plan.len()
        invariant
            index <= plan.len(),
            all == statuses(plan.deep_view()),
            forall|earlier: int| 0 <= earlier < index ==> all[earlier] != status,
        decreases plan.len() - index,
    {
        assert(all[index as int] == plan[index as int].status);
        if plan[index].status == status {
            return Some(index);
        }
        index += 1;
    }
    None
}

/// A window of `capacity` of `total` tasks round the anchor, moved inside the plan.
fn place_window(
    anchor: usize,
    total: usize,
    capacity: usize,
    target_before: usize,
    target_after: usize,
) -> (window: TaskWindow)
    requires
        anchor < total,
        0 < capacity <= total,
    ensures
        ({
            let after = crate::numbers::least(target_after as int, capacity - 1);
            let before = crate::numbers::least(target_before as int, capacity - 1 - after);
            let start = crate::numbers::least(crate::numbers::greatest(anchor - before, 0), total - capacity);
            window.start == start && window.end == start + capacity
        }),
{
    let after: usize = if target_after < capacity - 1 {
        target_after
    } else {
        capacity - 1
    };
    let before: usize = if target_before < capacity - 1 - after {
        target_before
    } else {
        capacity - 1 - after
    };
    let start: usize = anchor.saturating_sub(before);
    let behind: usize = anchor.saturating_add(after + 1);
    let end: usize = if behind < total {
        behind
    } else {
        total
    };

    // Backfill behind the anchor first, then before it.
    let missing: usize = capacity - (end - start);
    let end: usize = if missing < total - end {
        end + missing
    } else {
        total
    };
    let missing: usize = capacity - (end - start);
    let start: usize = start.saturating_sub(missing);
    TaskWindow { start, end }
}

/// Choose the tasks to show where `capacity` of them can be shown.
pub fn select_task_window(plan: &[PlanItemArg], capacity: usize) -> (window: TaskWindow)
    ensures
        window == task_window(statuses(plan.deep_view()), capacity as nat),
{
    let capacity = if capacity < plan.len() {
        capacity
    } else {
        plan.len()
    };
    if capacity == 0 {
        return TaskWindow::default();
    }
    let in_progress_count: usize = count_with_status(plan, StepStatus::InProgress);
    let anchor: usize = find_anchor(plan);
    proof {
        lemma_anchor(statuses(plan.deep_view()), anchor as int);
    }
    if in_progress_count > 1 {
        place_window(anchor, plan.len(), capacity, 1, 3)
    } else {
        place_window(anchor, plan.len(), capacity, 2, 2)
    }
}

/// The task of `plan` to keep in view.
fn find_anchor(plan: &[PlanItemArg]) -> (anchor: usize)
    requires
        plan.len() > 0,
    ensures
        anchor < plan.len(),
        is_anchor(statuses(plan.deep_view()), anchor as int),
{
    match first_with_status(plan, StepStatus::InProgress) {
        Some(index) => index,
        None => match first_with_status(plan, StepStatus::Pending) {
            Some(index) => index,
            None => plan.len() - 1,
        },
    }
}

/// The marks that show on which side of a row tasks are hidden.
pub open spec fn gutter(window: TaskWindow, index: int, total: int) -> Seq<char> {
    let hidden_before = window.start > 0;
    let hidden_after = window.end < total;
    if window.end - window.start == 1 && hidden_before && hidden_after {
        HIDDEN_BOTH_GUTTER@
    } else if index == window.start && hidden_before {
        HIDDEN_BEFORE_GUTTER@
    } else if index + 1 == window.end && hidden_after {
        HIDDEN_AFTER_GUTTER@
    } else {
        EMPTY_GUTTER@
    }
}

/// The marks for the row of task `index`, with `window` of `total` tasks in view.
pub fn continuation_gutter(window: TaskWindow, index: usize, total: usize) -> (marks: &'static str)
    ensures
        marks@ == gutter(window, index as int, total as int),
{
    let hidden_before = window.start > 0;
    let hidden_after = window.end < total;
    if window.len() == 1 && hidden_before && hidden_after {
        HIDDEN_BOTH_GUTTER
    } else if index == window.start && hidden_before {
        HIDDEN_BEFORE_GUTTER
    } else if index < window.end && index == window.end - 1 && hidden_after {
        HIDDEN_AFTER_GUTTER
    } else {
        EMPTY_GUTTER
    }
}

} // verus!
