//! Settings view for the persistent task list.

use vstd::prelude::*;

use crate::content::Content;

verus! {

pub const KEEP_IN_PROGRESS_TASKS_VISIBLE_ID: &'static str = "keep-in-progress-tasks-visible";

pub const KEEP_IN_PROGRESS_TASKS_VISIBLE_LABEL: &'static str = "Keep in-progress tasks visible";

/// A setting that can be switched on and off.
#[derive(Clone, Debug, PartialEq, Eq)]
pub struct MultiSelectItem {
    pub id: String,
    pub name: String,
    pub description: Option<String>,
    pub enabled: bool,
    pub orderable: bool,
    pub section_break_after: bool,
}

/// A list of settings, to be confirmed or left.
#[derive(Clone, Debug, PartialEq, Eq)]
pub struct MultiSelectPicker {
    pub title: String,
    pub subtitle: Option<String>,
    /// The bytes of a name that are shown.
    pub item_name_truncate_len: usize,
    pub items: Vec<MultiSelectItem>,
}

/// How a list of settings is left.
#[derive(Clone, Copy, Debug, PartialEq, Eq, Structural)]
pub enum PickerAnswer {
    Confirm,
    Cancel,
}

/// What is sent to the application.
#[derive(Clone, Copy, Debug, PartialEq, Eq, Structural)]
pub enum AppEvent {
    TaskListSettingsUpdated { keep_in_progress_tasks_visible: bool },
}

#[verifier::ext_equal]
pub struct MultiSelectItemView {
    pub id: Seq<char>,
    pub name: Seq<char>,
    pub description: Option<Seq<char>>,
    pub enabled: bool,
    pub orderable: bool,
    pub section_break_after: bool,
}

#[verifier::ext_equal]
pub struct MultiSelectPickerView {
    pub title: Seq<char>,
    pub subtitle: Option<Seq<char>>,
    pub item_name_truncate_len: usize,
    pub items: Seq<MultiSelectItemView>,
}

impl DeepView for MultiSelectItem {
    type V = MultiSelectItemView;

    open spec fn deep_view(&self) -> MultiSelectItemView {
        MultiSelectItemView {
            id: self.id@,
            name: self.name@,
            description: self.description.deep_view(),
            enabled: self.enabled,
            orderable: self.orderable,
            section_break_after: self.section_break_after,
        }
    }
}

impl View for MultiSelectPicker {
    type V = MultiSelectPickerView;

    open spec fn view(&self) -> MultiSelectPickerView {
        MultiSelectPickerView {
            title: self.title@,
            subtitle: self.subtitle.deep_view(),
            item_name_truncate_len: self.item_name_truncate_len,
            items: self.items.deep_view(),
        }
    }
}

/// The settings of the task list.
pub open spec fn task_list_settings(keep_in_progress_tasks_visible: bool) -> MultiSelectPickerView {
    MultiSelectPickerView {
        title: "Tasks"@,
        subtitle: Some("Configure the task list shown above the prompt."@),
        item_name_truncate_len: crate::drafts::utf8_len(
            KEEP_IN_PROGRESS_TASKS_VISIBLE_LABEL@,
        ) as usize,
        items: seq![
            MultiSelectItemView {
                id: KEEP_IN_PROGRESS_TASKS_VISIBLE_ID@,
                name: KEEP_IN_PROGRESS_TASKS_VISIBLE_LABEL@,
                description: Some("Pin the latest unfinished plan above the prompt."@),
                enabled: keep_in_progress_tasks_visible,
                orderable: false,
                section_break_after: false,
            },
        ],
    }
}

impl MultiSelectPickerView {
    /// Whether the setting with an id is switched on.
    pub open spec fn is_enabled(self, id: Seq<char>) -> bool {
        exists|index: int|
            0 <= index < self.items.len() && (#[trigger] self.items[index]).enabled
                && self.items[index].id == id
    }
}

/// The view of the settings, with the full label visible.
pub fn tasks_settings_view(keep_in_progress_tasks_visible: bool) -> (picker: MultiSelectPicker)
    ensures
        picker@ == task_list_settings(keep_in_progress_tasks_visible),
{
    let mut items: Vec<MultiSelectItem> = Vec::new();
    items.push(
        MultiSelectItem {
            id: KEEP_IN_PROGRESS_TASKS_VISIBLE_ID.to_owned(),
            name: KEEP_IN_PROGRESS_TASKS_VISIBLE_LABEL.to_owned(),
            description: Some("Pin the latest unfinished plan above the prompt.".to_owned()),
            enabled: keep_in_progress_tasks_visible,
            orderable: false,
            section_break_after: false,
        },
    );
    let picker = MultiSelectPicker {
        title: "Tasks".to_owned(),
        subtitle: Some("Configure the task list shown above the prompt.".to_owned()),
        item_name_truncate_len: crate::drafts::utf8_bytes(KEEP_IN_PROGRESS_TASKS_VISIBLE_LABEL),
        items,
    };
    assert(picker@.items =~= task_list_settings(keep_in_progress_tasks_visible).items);
    picker
}

/// What confirming the settings with these ids sends.
pub fn task_list_settings_event(ids: &Vec<String>) -> (event: AppEvent)
    ensures
        event == (AppEvent::TaskListSettingsUpdated {
            keep_in_progress_tasks_visible: ids.deep_view().contains(
                KEEP_IN_PROGRESS_TASKS_VISIBLE_ID@,
            ),
        }),
{
    let wanted = KEEP_IN_PROGRESS_TASKS_VISIBLE_ID.to_owned();
    let mut keep_in_progress_tasks_visible = false;
    let mut index: usize = 0;
    while index < ids.len()
        invariant
            index <= ids.len(),
            wanted@ == KEEP_IN_PROGRESS_TASKS_VISIBLE_ID@,
            keep_in_progress_tasks_visible == exists|earlier: int|
                0 <= earlier < index && #[trigger] ids.deep_view()[earlier]
                    == KEEP_IN_PROGRESS_TASKS_VISIBLE_ID@,
        decreases ids.len() - index,
    {
        assert(ids.deep_view()[index as int] == ids@[index as int]@);
        if ids[index].same_as(&wanted) {
            keep_in_progress_tasks_visible = true;
        }
        index += 1;
    }
    AppEvent::TaskListSettingsUpdated { keep_in_progress_tasks_visible }
}

impl MultiSelectPicker {
    /// The ids of the settings that are switched on, in their order.
    fn enabled_ids(&self) -> (ids: Vec<String>)
        ensures
            forall|id: Seq<char>| #[trigger] ids.deep_view().contains(id) <==> self@.is_enabled(id),
    {
        let mut ids: Vec<String> = Vec::new();
        let mut index: usize = 0;
        while index < self.items.len()
            invariant
                index <= self.items.len(),
                forall|id: Seq<char>| #[trigger]
                    ids.deep_view().contains(id) <==> exists|earlier: int|
                        0 <= earlier < index && (#[trigger] self@.items[earlier]).enabled
                            && self@.items[earlier].id == id,
            decreases self.items.len() - index,
        {
            let ghost before = ids.deep_view();
            let item = &self.items[index];
            assert(self@.items[index as int] == item.deep_view());
            if item.enabled {
                let id = item.id.clone();
                let ghost added = id@;
                ids.push(id);
                assert(ids.deep_view() =~= before.push(added));
                assert forall|id: Seq<char>| #[trigger] ids.deep_view().contains(id) implies
                    before.contains(id) || id == added by {
                    let place = choose|place: int|
                        0 <= place < ids.deep_view().len() && ids.deep_view()[place] == id;
                    if place < before.len() {
                        assert(before[place] == id);
                    }
                }
                assert forall|id: Seq<char>| before.contains(id) || id == added implies
                    #[trigger] ids.deep_view().contains(id) by {
                    if id == added {
                        assert(ids.deep_view()[before.len() as int] == id);
                    } else {
                        let place = choose|place: int|
                            0 <= place < before.len() && before[place] == id;
                        assert(ids.deep_view()[place] == id);
                    }
                }
            }
            index += 1;
        }
        ids
    }

    /// Leave the settings. Confirming them sends what is switched on, and cancelling sends nothing.
    pub fn leave(&self, answer: PickerAnswer) -> (event: Option<AppEvent>)
        ensures
            event == match answer {
                PickerAnswer::Confirm => Some(
                    AppEvent::TaskListSettingsUpdated {
                        keep_in_progress_tasks_visible: self@.is_enabled(
                            KEEP_IN_PROGRESS_TASKS_VISIBLE_ID@,
                        ),
                    },
                ),
                PickerAnswer::Cancel => None,
            },
    {
        match answer {
            PickerAnswer::Confirm => Some(task_list_settings_event(&self.enabled_ids())),
            PickerAnswer::Cancel => None,
        }
    }
}

/// Confirming the settings as they were opened sends the value that they were opened with.
pub proof fn law_unchanged_settings_confirm_the_present_value(keep_in_progress_tasks_visible: bool)
    ensures
        task_list_settings(keep_in_progress_tasks_visible).is_enabled(
            KEEP_IN_PROGRESS_TASKS_VISIBLE_ID@,
        ) == keep_in_progress_tasks_visible,
{
    let settings = task_list_settings(keep_in_progress_tasks_visible);
    assert(settings.items[0].enabled == keep_in_progress_tasks_visible);
}

/// The settings of the task list are one setting, which has its id, its full label and its description,
/// and is switched on where the task list is pinned.
pub proof fn law_the_settings_are_the_one_of_the_task_list(keep_in_progress_tasks_visible: bool)
    ensures
        ({
            let settings = task_list_settings(keep_in_progress_tasks_visible);
            &&& settings.title == "Tasks"@
            &&& settings.subtitle == Some("Configure the task list shown above the prompt."@)
            &&& settings.items.len() == 1
            &&& settings.items[0].id == "keep-in-progress-tasks-visible"@
            &&& settings.items[0].name == "Keep in-progress tasks visible"@
            &&& settings.items[0].description == Some(
                "Pin the latest unfinished plan above the prompt."@,
            )
            &&& settings.items[0].enabled == keep_in_progress_tasks_visible
            &&& !settings.items[0].orderable
            &&& !settings.items[0].section_break_after
            &&& settings.item_name_truncate_len == 30 && settings.items[0].name.len() == 30
        }),
{
    reveal_strlit("Keep in-progress tasks visible");
    let label = "Keep in-progress tasks visible"@;
    assert(vstd::utf8::is_ascii_chars(label));
    vstd::utf8::is_ascii_chars_encode_utf8(label);
}

/// A setting is on where an item with its id is switched on: switching its only item changes it, and
/// switching an item with another id does not.
pub proof fn law_a_setting_follows_its_own_item(
    picker: MultiSelectPickerView,
    index: int,
    enabled: bool,
    id: Seq<char>,
)
    requires
        0 <= index < picker.items.len(),
    ensures
        ({
            let item = MultiSelectItemView { enabled, ..picker.items[index] };
            let switched = MultiSelectPickerView {
                items: picker.items.update(index, item),
                ..picker
            };
            &&& enabled ==> switched.is_enabled(picker.items[index].id)
            &&& !enabled && (forall|other: int|
                0 <= other < picker.items.len() && other != index ==> (
                #[trigger] picker.items[other]).id != picker.items[index].id)
                ==> !switched.is_enabled(picker.items[index].id)
            &&& id != picker.items[index].id ==> switched.is_enabled(id) == picker.is_enabled(id)
        }),
{
    let item = MultiSelectItemView { enabled, ..picker.items[index] };
    let switched = MultiSelectPickerView { items: picker.items.update(index, item), ..picker };
    assert(switched.items[index] == item);
    if id != picker.items[index].id {
        if picker.is_enabled(id) {
            let place = choose|place: int|
                0 <= place < picker.items.len() && (#[trigger] picker.items[place]).enabled
                    && picker.items[place].id == id;
            assert(switched.items[place] == picker.items[place]);
        }
        if switched.is_enabled(id) {
            let place = choose|place: int|
                0 <= place < switched.items.len() && (#[trigger] switched.items[place]).enabled
                    && switched.items[place].id == id;
            assert(picker.items[place] == switched.items[place]);
        }
    }
}

/// Settings that are told apart by nothing in their views hold the same items.
pub proof fn law_the_view_of_settings_is_all_of_them(left: MultiSelectItem, right: MultiSelectItem)
    ensures
        left.deep_view() == right.deep_view() ==> left.id@ == right.id@ && left.name@ == right.name@
            && left.description.deep_view() == right.description.deep_view() && left.enabled
            == right.enabled && left.orderable == right.orderable && left.section_break_after
            == right.section_break_after,
{
}

} // verus!
