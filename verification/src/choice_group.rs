//! A single selection among options, with keyboard focus that skips what is
//! disabled.
use crate::table::Table;
use crate::text::same;
use crate::workspace::text_of;
use vstd::prelude::*;

verus! {

/// One option of a group.
#[derive(Clone, Debug, PartialEq, Eq)]
pub struct OptionItem {
    pub value: String,
    pub label: String,
    pub disabled: bool,
}

/// A group of options of which one is selected. `icons` names the icon of an
/// option by its value.
pub struct SingleChoiceGroup {
    pub id: String,
    pub label: String,
    pub value: Option<String>,
    pub options: Vec<OptionItem>,
    pub icons: Table<String, String>,
    pub full_width: bool,
    pub tabs: bool,
    pub activate_selected: bool,
    pub vertical: bool,
    pub disabled: bool,
}

/// How an option is shown. `place` counts from one; `tab_stop` tells where the
/// keyboard enters the group.
pub struct ShownOption {
    pub value: String,
    pub label: String,
    pub icon: Option<String>,
    pub checked: bool,
    pub disabled: bool,
    pub tab_stop: bool,
    pub place: usize,
}

/// What a group is to somebody who cannot see it.
#[derive(Clone, Copy, Debug, PartialEq, Eq, Structural)]
pub enum GroupRole {
    TabList,
    RadioGroup,
}

/// A group as it is shown.
pub struct ShownGroup {
    pub role: GroupRole,
    pub label: String,
    pub vertical: bool,
    pub full_width: bool,
    /// The place of the option under the indicator; none where nothing is selected.
    pub indicator: Option<usize>,
    pub options: Vec<ShownOption>,
}

/// The options are those that were given, each enabled.
pub open spec fn lists(options: Seq<OptionItem>, given: Seq<(String, String)>) -> bool {
    &&& options.len() == given.len()
    &&& forall|i: int|
        0 <= i < given.len() ==> #[trigger] options[i] == (OptionItem {
            value: given[i].0,
            label: given[i].1,
            disabled: false,
        })
}

/// The options after one value was disabled.
pub open spec fn without_value(
    before: Seq<OptionItem>,
    after: Seq<OptionItem>,
    value: Seq<char>,
) -> bool {
    &&& after.len() == before.len()
    &&& forall|i: int|
        0 <= i < before.len() ==> #[trigger] after[i] == (OptionItem {
            disabled: before[i].disabled || before[i].value@ == value,
            ..before[i]
        })
}

impl SingleChoiceGroup {
    pub fn new(id: String, label: String) -> (result: SingleChoiceGroup)
        ensures
            result.id == id,
            result.label == label,
            result.value is None,
            result.options@.len() == 0,
            result.icons.wf() && result.icons.map() == Map::<Seq<char>, String>::empty(),
            !result.full_width && !result.tabs && !result.activate_selected && !result.vertical
                && !result.disabled,
    {
        SingleChoiceGroup {
            id,
            label,
            value: None,
            options: Vec::new(),
            icons: Table::new(),
            full_width: false,
            tabs: false,
            activate_selected: false,
            vertical: false,
            disabled: false,
        }
    }

    /// Sets the options, by value and label.
    pub fn options(self, options: Vec<(String, String)>) -> (result: SingleChoiceGroup)
        ensures
            lists(result.options@, options@),
            result == (SingleChoiceGroup { options: result.options, ..self }),
    {
        let mut this = self;
        let mut items: Vec<OptionItem> = Vec::new();
        for option in it: options
            invariant
                it.seq() == options@,
                items@.len() == it.index(),
                forall|i: int|
                    0 <= i < items@.len() ==> #[trigger] items@[i] == (OptionItem {
                        value: options@[i].0,
                        label: options@[i].1,
                        disabled: false,
                    }),
        {
            let (value, label) = option;
            items.push(OptionItem { value, label, disabled: false });
        }
        this.options = items;
        this
    }

    pub fn selected(self, value: String) -> (result: SingleChoiceGroup)
        ensures
            result == (SingleChoiceGroup { value: Some(value), ..self }),
    {
        let mut this = self;
        this.value = Some(value);
        this
    }

    /// Fills the width with equal segments.
    pub fn full_width(self) -> (result: SingleChoiceGroup)
        ensures
            result == (SingleChoiceGroup { full_width: true, ..self }),
    {
        let mut this = self;
        this.full_width = true;
        this
    }

    /// The options are the tabs of a navigation.
    pub fn tabs(self) -> (result: SingleChoiceGroup)
        ensures
            result == (SingleChoiceGroup { tabs: true, ..self }),
    {
        let mut this = self;
        this.tabs = true;
        this
    }

    /// The selected option can be activated again.
    pub fn activate_selected(self) -> (result: SingleChoiceGroup)
        ensures
            result == (SingleChoiceGroup { activate_selected: true, ..self }),
    {
        let mut this = self;
        this.activate_selected = true;
        this
    }

    /// The options stand below one another, over the full width.
    pub fn vertical(self) -> (result: SingleChoiceGroup)
        ensures
            result == (SingleChoiceGroup { vertical: true, full_width: true, ..self }),
    {
        let mut this = self;
        this.vertical = true;
        this.full_width = true;
        this
    }

    /// Attaches an icon by the option's value, before or after the options are set.
    pub fn icon(self, value: String, icon: String) -> (result: SingleChoiceGroup)
        requires
            self.icons.wf(),
        ensures
            result.icons.wf(),
            result.icons.map() == self.icons.map().insert(value@, icon),
            result == (SingleChoiceGroup { icons: result.icons, ..self }),
    {
        let mut this = self;
        this.icons.insert(value, icon);
        this
    }

    /// Disables the whole group, or not.
    pub fn disabled(self, disabled: bool) -> (result: SingleChoiceGroup)
        ensures
            result == (SingleChoiceGroup { disabled, ..self }),
    {
        let mut this = self;
        this.disabled = disabled;
        this
    }

    /// Disables the options with a value.
    pub fn disable_option(self, value: &str) -> (result: SingleChoiceGroup)
        ensures
            without_value(self.options@, result.options@, value@),
            result == (SingleChoiceGroup { options: result.options, ..self }),
    {
        let mut this = self;
        let mut i: usize = 0;
        while i < this.options.len()
            invariant
                i <= this.options@.len(),
                this.options@.len() == self.options@.len(),
                this == (SingleChoiceGroup { options: this.options, ..self }),
                forall|j: int|
                    0 <= j < i ==> #[trigger] this.options@[j] == (OptionItem {
                        disabled: self.options@[j].disabled || self.options@[j].value@ == value@,
                        ..self.options@[j]
                    }),
                forall|j: int|
                    i <= j < this.options@.len() ==> #[trigger] this.options@[j]
                        == self.options@[j],
            decreases this.options@.len() - i,
        {
            if same(this.options[i].value.as_str(), value) {
                this.options[i].disabled = true;
            }
            i += 1;
        }
        this
    }

    /// The option at `i` can be chosen.
    pub open spec fn is_enabled(self, i: int) -> bool {
        0 <= i < self.options@.len() && !self.disabled && !self.options@[i].disabled
    }

    /// The places of the options that can be chosen, among the first `n`.
    pub open spec fn enabled_before(self, n: nat) -> Seq<usize>
        decreases n,
    {
        if n == 0 {
            Seq::empty()
        } else {
            let before = self.enabled_before((n - 1) as nat);
            if self.is_enabled(n - 1) {
                before.push((n - 1) as usize)
            } else {
                before
            }
        }
    }

    /// The places of the options that can be chosen.
    pub fn enabled(&self) -> (result: Vec<usize>)
        ensures
            result@ == self.enabled_before(self.options@.len()),
    {
        let mut result: Vec<usize> = Vec::new();
        let mut i: usize = 0;
        while i < self.options.len()
            invariant
                i <= self.options@.len(),
                result@ == self.enabled_before(i as nat),
            decreases self.options@.len() - i,
        {
            if !self.disabled && !self.options[i].disabled {
                result.push(i);
            }
            i += 1;
        }
        result
    }

    /// The first option with the selected value is at `i`.
    pub open spec fn is_selected(self, i: int) -> bool {
        &&& 0 <= i < self.options@.len()
        &&& Some(self.options@[i].value@) == text_of(self.value)
        &&& forall|j: int|
            0 <= j < i ==> Some((#[trigger] self.options@[j]).value@) != text_of(self.value)
    }

    /// The place of the selected option.
    pub fn selected_position(&self) -> (result: Option<usize>)
        ensures
            match result {
                Some(i) => self.is_selected(i as int),
                None => forall|i: int| !self.is_selected(i),
            },
    {
        let value = match &self.value {
            Some(value) => value,
            None => {
                return None;
            },
        };
        let mut i: usize = 0;
        while i < self.options.len()
            invariant
                i <= self.options@.len(),
                self.value == Some(*value),
                forall|j: int| 0 <= j < i ==> (#[trigger] self.options@[j]).value@ != value@,
            decreases self.options@.len() - i,
        {
            if self.options[i].value == *value {
                return Some(i);
            }
            i += 1;
        }
        None
    }

    /// The option that takes the focus when the group is entered: the selected one
    /// if it can be chosen, else the first that can.
    pub open spec fn is_entry(self, i: int) -> bool {
        if exists|k: int| self.is_selected(k) && self.is_enabled(k) {
            self.is_selected(i)
        } else {
            self.is_enabled(i) && forall|j: int| 0 <= j < i ==> !self.is_enabled(j)
        }
    }

    pub fn entry(&self) -> (result: Option<usize>)
        ensures
            match result {
                Some(i) => self.is_entry(i as int) && self.is_enabled(i as int),
                None => forall|i: int| !self.is_enabled(i),
            },
    {
        if let Some(i) = self.selected_position() {
            if !self.disabled && !self.options[i].disabled {
                assert(self.is_selected(i as int) && self.is_enabled(i as int));
                return Some(i);
            }
            assert(forall|k: int| self.is_selected(k) ==> k == i as int);
        }
        let mut i: usize = 0;
        while i < self.options.len()
            invariant
                i <= self.options@.len(),
                forall|j: int| 0 <= j < i ==> !self.is_enabled(j),
                !exists|k: int| self.is_selected(k) && self.is_enabled(k),
            decreases self.options@.len() - i,
        {
            if !self.disabled && !self.options[i].disabled {
                return Some(i);
            }
            i += 1;
        }
        None
    }

    /// The option at `i` is shown like this.
    pub open spec fn is_shown(self, i: int, shown: ShownOption) -> bool {
        &&& shown.value@ == self.options@[i].value@
        &&& shown.label@ == self.options@[i].label@
        &&& text_of(shown.icon) == (if self.icons.has(self.options@[i].value@) {
            Some(self.icons.map()[self.options@[i].value@]@)
        } else {
            None
        })
        &&& shown.checked == self.is_selected(i)
        &&& shown.disabled == !self.is_enabled(i)
        &&& shown.tab_stop == (self.is_entry(i) && self.is_enabled(i))
        &&& shown.place == i + 1
    }

    /// The options are shown like this, one after the other.
    pub open spec fn are_shown(self, shown: Seq<ShownOption>) -> bool {
        &&& shown.len() == self.options@.len()
        &&& forall|i: int| 0 <= i < shown.len() ==> self.is_shown(i, #[trigger] shown[i])
    }

    /// The group as it is shown: tabs or radio buttons, of which at most one is checked
    /// and at most one takes the keyboard.
    pub fn render(&self) -> (result: ShownGroup)
        requires
            self.icons.wf(),
        ensures
            result.role == (if self.tabs {
                GroupRole::TabList
            } else {
                GroupRole::RadioGroup
            }),
            result.label@ == self.label@,
            result.vertical == self.vertical,
            result.full_width == self.full_width,
            match result.indicator {
                Some(i) => self.is_selected(i as int),
                None => forall|i: int| !self.is_selected(i),
            },
            self.are_shown(result.options@),
    {
        let selected = self.selected_position();
        ShownGroup {
            role: if self.tabs {
                GroupRole::TabList
            } else {
                GroupRole::RadioGroup
            },
            label: self.label.clone(),
            vertical: self.vertical,
            full_width: self.full_width,
            indicator: selected,
            options: self.shown_options(selected),
        }
    }

    fn shown_options(&self, selected: Option<usize>) -> (result: Vec<ShownOption>)
        requires
            self.icons.wf(),
            match selected {
                Some(i) => self.is_selected(i as int),
                None => forall|i: int| !self.is_selected(i),
            },
        ensures
            result@.len() == self.options@.len(),
            forall|i: int| 0 <= i < result@.len() ==> self.is_shown(i, #[trigger] result@[i]),
    {
        let entry = self.entry();
        let count: usize = self.options.len();
        let mut result: Vec<ShownOption> = Vec::new();
        let mut i: usize = 0;
        while i < count
            invariant
                i <= count,
                count == self.options@.len(),
                self.icons.wf(),
                result@.len() == i,
                match selected {
                    Some(k) => self.is_selected(k as int),
                    None => forall|k: int| !self.is_selected(k),
                },
                match entry {
                    Some(k) => self.is_entry(k as int) && self.is_enabled(k as int),
                    None => forall|k: int| !self.is_enabled(k),
                },
                forall|j: int| 0 <= j < i ==> self.is_shown(j, #[trigger] result@[j]),
            decreases count - i,
        {
            let option = &self.options[i];
            let icon = match self.icons.get(&option.value) {
                Some(icon) => Some(icon.clone()),
                None => None,
            };
            let checked = match selected {
                Some(own) => own == i,
                None => false,
            };
            let tab_stop = match entry {
                Some(own) => own == i,
                None => false,
            };
            proof {
                if selected is Some {
                    assert(self.is_selected(selected->0 as int));
                }
                if self.is_selected(i as int) {
                    assert(selected is Some && selected->0 == i);
                }
                if self.is_entry(i as int) && self.is_enabled(i as int) {
                    let k = entry->0 as int;
                    assert(self.is_entry(k) && self.is_enabled(k));
                    assert(k == i);
                }
            }
            result.push(
                ShownOption {
                    value: option.value.clone(),
                    label: option.label.clone(),
                    icon,
                    checked,
                    disabled: self.disabled || option.disabled,
                    tab_stop,
                    place: i + 1,
                },
            );
            i += 1;
        }
        result
    }

    /// Whether a press on the option at `index` reports a choice: one that is checked
    /// reports only as a tab that leads back to its root.
    pub fn press(&self, index: usize) -> (result: bool)
        requires
            index < self.options@.len(),
        ensures
            result == (self.is_enabled(index as int) && (!self.is_selected(index as int) || (
            self.tabs && self.activate_selected))),
    {
        let checked = match self.selected_position() {
            Some(own) => {
                assert(self.is_selected(index as int) ==> own == index);
                own == index
            },
            None => false,
        };
        !self.disabled && !self.options[index].disabled && (!checked || (self.tabs
            && self.activate_selected))
    }

    /// A move of the keyboard focus: where it goes, and whether the selection
    /// changes with it. It starts from the focused option, else from the selected.
    pub fn navigate(&self, focused: Option<usize>, direction: Direction) -> (result: Option<
        (usize, bool),
    >)
        ensures
            ({
                let enabled = self.enabled_before(self.options@.len());
                match result {
                    Some((index, changed)) => {
                        &&& self.is_enabled(index as int)
                        &&& changed == !self.is_selected(index as int)
                        &&& match focused {
                            Some(at) => goes_to(enabled, Some(at), direction) == Some(index),
                            None => exists|from: Option<usize>| #[trigger]
                                goes_to(enabled, from, direction) == Some(index) && (match from {
                                    Some(at) => self.is_selected(at as int),
                                    None => forall|i: int| !self.is_selected(i),
                                }),
                        }
                    },
                    None => enabled.len() == 0,
                }
            }),
    {
        let count: usize = self.options.len();
        let enabled = self.enabled();
        let selected = self.selected_position();
        let current = match focused {
            Some(at) => Some(at),
            None => selected,
        };
        match destination(enabled.as_slice(), current, direction) {
            Some(index) => {
                proof {
                    self.enabled_are(count as nat);
                    let k = enabled@.index_of(index);
                    assert(self.is_enabled(enabled@[k] as int));
                    assert(forall|i: int|
                        self.is_selected(i) ==> selected is Some && selected->0 == i);
                    assert(goes_to(enabled@, current, direction) == Some(index));
                }
                let changed = match selected {
                    Some(own) => own != index,
                    None => true,
                };
                Some((index, changed))
            },
            None => None,
        }
    }

    /// The places that can be chosen are in order and can be chosen.
    pub proof fn enabled_are(self, n: nat)
        requires
            n <= self.options@.len() <= usize::MAX,
        ensures
            forall|i: int|
                0 <= i < self.enabled_before(n).len() ==> self.is_enabled(
                    (#[trigger] self.enabled_before(n)[i]) as int,
                ) && self.enabled_before(n)[i] < n,
            forall|i: int, j: int|
                0 <= i < j < self.enabled_before(n).len() ==> self.enabled_before(n)[i]
                    < self.enabled_before(n)[j],
        decreases n,
    {
        if n > 0 {
            let m = (n - 1) as nat;
            self.enabled_are(m);
            let before = self.enabled_before(m);
            let all = self.enabled_before(n);
            assert forall|i: int| 0 <= i < all.len() implies self.is_enabled(
                (#[trigger] all[i]) as int,
            ) && all[i] < n by {
                if i < before.len() {
                    assert(all[i] == before[i]);
                }
            }
            assert forall|i: int, j: int| 0 <= i < j < all.len() implies all[i] < all[j] by {
                assert(all[i] == before[i]);
                if j < before.len() {
                    assert(all[j] == before[j]);
                }
            }
        }
    }
}

/// A key that moves the focus.
#[derive(Clone, Copy, Debug, PartialEq, Eq, Structural)]
pub enum Direction {
    Next,
    Previous,
    First,
    Last,
}

/// The place of a value in a list, or the length where it is not there.
pub open spec fn place_of(list: Seq<usize>, value: usize) -> int
    decreases list.len(),
{
    if list.len() == 0 || list[0] == value {
        0
    } else {
        1 + place_of(list.skip(1), value)
    }
}

/// Where a key moves the focus among the enabled options: from one end to the
/// other at the ends, and in from the end that lies behind where there is no
/// current one.
pub open spec fn goes_to(
    enabled: Seq<usize>,
    current: Option<usize>,
    direction: Direction,
) -> Option<usize> {
    let n = enabled.len() as int;
    let at = match current {
        Some(value) => place_of(enabled, value),
        None => n,
    };
    if n == 0 {
        None
    } else {
        Some(
            match direction {
                Direction::First => enabled[0],
                Direction::Last => enabled[n - 1],
                Direction::Next => if at >= n - 1 {
                    enabled[0]
                } else {
                    enabled[at + 1]
                },
                Direction::Previous => if at == 0 || at == n {
                    enabled[n - 1]
                } else {
                    enabled[at - 1]
                },
            },
        )
    }
}

fn find_place(list: &[usize], value: usize) -> (result: usize)
    ensures
        result == place_of(list@, value),
        result <= list@.len(),
        result < list@.len() ==> list@[result as int] == value,
{
    let mut i: usize = 0;
    assert(list@.skip(0) =~= list@);
    while i < list.len() && list[i] != value
        invariant
            i <= list@.len(),
            i + place_of(list@.skip(i as int), value) == place_of(list@, value),
        decreases list@.len() - i,
    {
        assert(list@.skip(i as int).skip(1) =~= list@.skip(i + 1));
        i += 1;
    }
    i
}

pub fn destination(enabled: &[usize], current: Option<usize>, direction: Direction) -> (result:
    Option<usize>)
    ensures
        result == goes_to(enabled@, current, direction),
        result matches Some(index) ==> enabled@.contains(index),
{
    let n: usize = enabled.len();
    if n == 0 {
        return None;
    }
    let at: usize = match current {
        Some(value) => find_place(enabled, value),
        None => n,
    };
    let place: usize = match direction {
        Direction::First => 0,
        Direction::Last => n - 1,
        Direction::Next => {
            if at >= n - 1 {
                0
            } else {
                at + 1
            }
        },
        Direction::Previous => {
            if at == 0 || at == n {
                n - 1
            } else {
                at - 1
            }
        },
    };
    Some(enabled[place])
}

proof fn place_of_own(list: Seq<usize>, i: int)
    requires
        list.no_duplicates(),
        0 <= i < list.len(),
    ensures
        place_of(list, list[i]) == i,
    decreases list.len(),
{
    if i > 0 {
        assert(list[0] != list[i]);
        let rest = list.skip(1);
        assert forall|a: int, b: int| 0 <= a < b < rest.len() implies rest[a] != rest[b] by {
            assert(rest[a] == list[a + 1] && rest[b] == list[b + 1]);
        }
        assert(rest[i - 1] == list[i]);
        place_of_own(rest, i - 1);
    }
}

/// Forth and back again: the two arrows undo one another.
pub proof fn arrows_undo_one_another(enabled: Seq<usize>, i: int)
    requires
        enabled.no_duplicates(),
        0 <= i < enabled.len(),
    ensures
        goes_to(
            enabled,
            goes_to(enabled, Some(enabled[i]), Direction::Next),
            Direction::Previous,
        ) == Some(enabled[i]),
        goes_to(
            enabled,
            goes_to(enabled, Some(enabled[i]), Direction::Previous),
            Direction::Next,
        ) == Some(enabled[i]),
{
    let n = enabled.len() as int;
    place_of_own(enabled, i);
    place_of_own(enabled, if i == n - 1 {
        0
    } else {
        i + 1
    });
    place_of_own(enabled, if i == 0 {
        n - 1
    } else {
        i - 1
    });
}

/// The focus never lands on an option that cannot be chosen.
pub proof fn the_focus_stays_on_enabled_options(
    enabled: Seq<usize>,
    current: Option<usize>,
    direction: Direction,
)
    requires
        goes_to(enabled, current, direction) is Some,
    ensures
        enabled.contains(goes_to(enabled, current, direction)->0),
{
    let n = enabled.len() as int;
    if current is Some {
        place_within(enabled, current->0);
    }
    let at = match current {
        Some(value) => place_of(enabled, value),
        None => n,
    };
    let place = match direction {
        Direction::First => 0,
        Direction::Last => n - 1,
        Direction::Next => if at >= n - 1 {
            0
        } else {
            at + 1
        },
        Direction::Previous => if at == 0 || at == n {
            n - 1
        } else {
            at - 1
        },
    };
    assert(enabled[place] == goes_to(enabled, current, direction)->0);
}

proof fn place_within(list: Seq<usize>, value: usize)
    ensures
        0 <= place_of(list, value) <= list.len(),
    decreases list.len(),
{
    if list.len() > 0 && list[0] != value {
        place_within(list.skip(1), value);
    }
}

/// A group shows its options in their order and under their own labels; the one that has the
/// selected value is checked, and no other; one option at most takes the keyboard, and it can be
/// chosen.
pub proof fn a_group_shows_its_options(group: SingleChoiceGroup, shown: ShownGroup, i: int, j: int)
    requires
        group.icons.wf(),
        call_ensures(SingleChoiceGroup::render, (&group,), shown),
        0 <= i < group.options@.len(),
        0 <= j < group.options@.len(),
    ensures
        shown.options@.len() == group.options@.len(),
        shown.options@[i].value@ == group.options@[i].value@,
        shown.options@[i].label@ == group.options@[i].label@,
        shown.options@[i].place == i + 1,
        shown.options@[i].disabled <==> group.disabled || group.options@[i].disabled,
        shown.options@[i].checked ==> text_of(group.value) == Some(group.options@[i].value@),
        shown.options@[i].checked && shown.options@[j].checked ==> i == j,
        shown.options@[i].tab_stop ==> !shown.options@[i].disabled,
        shown.options@[i].tab_stop && shown.options@[j].tab_stop ==> i == j,
        shown.options@[i].checked && !shown.options@[i].disabled ==> shown.options@[i].tab_stop,
        text_of(group.value) == Some(group.options@[i].value@) && (forall|k: int|
            0 <= k < i ==> (#[trigger] group.options@[k]).value@ != group.options@[i].value@)
            ==> shown.options@[i].checked,
        shown.role is TabList <==> group.tabs,
{
    assert(group.is_shown(i, shown.options@[i]));
    assert(group.is_shown(j, shown.options@[j]));
    if group.is_selected(i) && group.is_selected(j) {
        if i < j {
            assert(Some(group.options@[i].value@) != text_of(group.value));
        }
        if j < i {
            assert(Some(group.options@[j].value@) != text_of(group.value));
        }
    }
    if shown.options@[i].tab_stop && shown.options@[j].tab_stop {
        if exists|k: int| group.is_selected(k) && group.is_enabled(k) {
            assert(group.is_selected(i) && group.is_selected(j));
        } else {
            if i < j {
                assert(!group.is_enabled(i));
            }
            if j < i {
                assert(!group.is_enabled(j));
            }
        }
    }
    if shown.options@[i].checked && !shown.options@[i].disabled {
        assert(group.is_selected(i) && group.is_enabled(i));
    }
}

/// A press chooses what can be chosen: never a disabled option, and one that is chosen already
/// only where a tab leads back to its root.
pub proof fn a_press_chooses(group: SingleChoiceGroup, index: usize, shown: ShownGroup, chosen: bool)
    requires
        group.icons.wf(),
        index < group.options@.len(),
        call_ensures(SingleChoiceGroup::press, (&group, index), chosen),
        call_ensures(SingleChoiceGroup::render, (&group,), shown),
    ensures
        shown.options@[index as int].disabled ==> !chosen,
        !shown.options@[index as int].disabled && !shown.options@[index as int].checked ==> chosen,
        shown.options@[index as int].checked && !shown.options@[index as int].disabled ==> (chosen
            <==> group.tabs && group.activate_selected),
{
    assert(group.is_shown(index as int, shown.options@[index as int]));
}

proof fn place_is(list: Seq<usize>, i: int)
    requires
        list.no_duplicates(),
        0 <= i < list.len(),
    ensures
        place_of(list, list[i]) == i,
    decreases list.len(),
{
    if i > 0 {
        let rest = list.skip(1);
        assert(rest[i - 1] == list[i]);
        assert(list[0] != list[i]);
        assert(rest.no_duplicates()) by {
            assert forall|a: int, b: int|
                0 <= a < rest.len() && 0 <= b < rest.len() && a != b implies rest[a] != rest[b] by {
                assert(rest[a] == list[a + 1] && rest[b] == list[b + 1]);
            }
        }
        place_is(rest, i - 1);
    }
}

/// The arrows go to the next option that can be chosen, and from the last to the first; back
/// likewise. The ends are the first and the last.
pub proof fn the_arrows_go_round(
    enabled: &[usize],
    i: int,
    next: Option<usize>,
    previous: Option<usize>,
    first: Option<usize>,
    last: Option<usize>,
)
    requires
        enabled@.no_duplicates(),
        0 <= i < enabled@.len(),
        call_ensures(destination, (enabled, Some(enabled@[i]), Direction::Next), next),
        call_ensures(destination, (enabled, Some(enabled@[i]), Direction::Previous), previous),
        call_ensures(destination, (enabled, Some(enabled@[i]), Direction::First), first),
        call_ensures(destination, (enabled, Some(enabled@[i]), Direction::Last), last),
    ensures
        i < enabled@.len() - 1 ==> next == Some(enabled@[i + 1]),
        i == enabled@.len() - 1 ==> next == Some(enabled@[0]),
        i > 0 ==> previous == Some(enabled@[i - 1]),
        i == 0 ==> previous == Some(enabled@[enabled@.len() - 1]),
        first == Some(enabled@[0]),
        last == Some(enabled@[enabled@.len() - 1]),
{
    place_is(enabled@, i);
}

/// Where nothing has the focus the arrows go to the first option, or back to the last; where
/// nothing can be chosen they go nowhere.
pub proof fn the_arrows_enter_at_the_ends(
    enabled: &[usize],
    next: Option<usize>,
    previous: Option<usize>,
)
    requires
        call_ensures(destination, (enabled, None, Direction::Next), next),
        call_ensures(destination, (enabled, None, Direction::Previous), previous),
    ensures
        enabled@.len() == 0 ==> next is None && previous is None,
        enabled@.len() > 0 ==> next == Some(enabled@[0]) && previous == Some(
            enabled@[enabled@.len() - 1],
        ),
{
}

/// A value that is disabled cannot be chosen, and every other can be as before.
pub proof fn a_disabled_value_cannot_be_chosen(
    group: SingleChoiceGroup,
    value: &str,
    after: SingleChoiceGroup,
    i: int,
)
    requires
        call_ensures(SingleChoiceGroup::disable_option, (group, value), after),
        0 <= i < group.options@.len(),
    ensures
        after.options@.len() == group.options@.len(),
        group.options@[i].value@ == value@ ==> after.options@[i].disabled,
        group.options@[i].value@ != value@ ==> after.options@[i] == group.options@[i],
        after.value == group.value && after.tabs == group.tabs && after.disabled == group.disabled,
{
    let own = after.options@[i];
}

/// The arrows move from the option that has the focus to the next that can be chosen, which is
/// chosen with it unless it is already.
pub proof fn the_focus_moves_among_the_options(
    group: SingleChoiceGroup,
    at: usize,
    direction: Direction,
    enabled: Vec<usize>,
    moved: Option<(usize, bool)>,
    expected: Option<usize>,
)
    requires
        call_ensures(SingleChoiceGroup::enabled, (&group,), enabled),
        call_ensures(SingleChoiceGroup::navigate, (&group, Some(at), direction), moved),
        expected == goes_to(enabled@, Some(at), direction),
    ensures
        moved is Some <==> enabled@.len() > 0,
        moved is Some ==> expected == Some((moved->0).0),
        moved is Some ==> !group.options@[(moved->0).0 as int].disabled && !group.disabled,
        moved is Some && !(moved->0).1 ==> text_of(group.value) == Some(
            group.options@[(moved->0).0 as int].value@,
        ),
        moved is Some && text_of(group.value) != Some(group.options@[(moved->0).0 as int].value@)
            ==> (moved->0).1,
{
}

proof fn enabled_holds(group: SingleChoiceGroup, n: nat, i: usize)
    requires
        i < n <= group.options@.len() <= usize::MAX,
        group.is_enabled(i as int),
    ensures
        group.enabled_before(n).contains(i),
    decreases n,
{
    let m = (n - 1) as nat;
    let before = group.enabled_before(m);
    let all = group.enabled_before(n);
    if i == m {
        assert(all[before.len() as int] == i);
    } else {
        enabled_holds(group, m, i);
        let k = choose|k: int| 0 <= k < before.len() && before[k] == i;
        assert(all[k] == i);
    }
}

/// The options that the keyboard goes through are those that can be chosen, in their order.
pub proof fn the_keyboard_goes_through_what_can_be_chosen(
    group: SingleChoiceGroup,
    enabled: Vec<usize>,
    i: usize,
    k: int,
    l: int,
)
    requires
        group.options@.len() <= usize::MAX,
        call_ensures(SingleChoiceGroup::enabled, (&group,), enabled),
        i < group.options@.len(),
    ensures
        enabled@.contains(i) <==> !group.disabled && !group.options@[i as int].disabled,
        0 <= k < l < enabled@.len() ==> enabled@[k] < enabled@[l],
{
    group.enabled_are(group.options@.len());
    if enabled@.contains(i) {
        let j = choose|j: int| 0 <= j < enabled@.len() && enabled@[j] == i;
        assert(group.is_enabled(enabled@[j] as int));
    }
    if group.is_enabled(i as int) {
        enabled_holds(group, group.options@.len(), i);
    }
}

/// A group is made as it is asked for: each word sets what it says and leaves the rest.
pub proof fn a_group_is_made_as_asked(
    group: SingleChoiceGroup,
    value: String,
    selected: SingleChoiceGroup,
    wide: SingleChoiceGroup,
    tabs: SingleChoiceGroup,
    active: SingleChoiceGroup,
    upright: SingleChoiceGroup,
    off: bool,
    disabled: SingleChoiceGroup,
)
    requires
        call_ensures(SingleChoiceGroup::selected, (group, value), selected),
        call_ensures(SingleChoiceGroup::full_width, (group,), wide),
        call_ensures(SingleChoiceGroup::tabs, (group,), tabs),
        call_ensures(SingleChoiceGroup::activate_selected, (group,), active),
        call_ensures(SingleChoiceGroup::vertical, (group,), upright),
        call_ensures(SingleChoiceGroup::disabled, (group, off), disabled),
    ensures
        selected.value == Some(value) && selected.options == group.options && selected.tabs
            == group.tabs,
        wide.full_width && wide.vertical == group.vertical && wide.options == group.options,
        tabs.tabs && tabs.value == group.value && tabs.options == group.options,
        active.activate_selected && active.tabs == group.tabs && active.options == group.options,
        upright.vertical && upright.full_width && upright.options == group.options,
        disabled.disabled == off && disabled.options == group.options && disabled.value
            == group.value,
{
}

/// The options of a group are those that are given, in their order, and all can be chosen; an
/// icon is the one that was given for its value.
pub proof fn options_are_those_given(
    group: SingleChoiceGroup,
    given: Vec<(String, String)>,
    after: SingleChoiceGroup,
    i: int,
)
    requires
        call_ensures(SingleChoiceGroup::options, (group, given), after),
        0 <= i < given@.len(),
    ensures
        after.options@.len() == given@.len(),
        after.options@[i].value@ == given@[i].0@,
        after.options@[i].label@ == given@[i].1@,
        !after.options@[i].disabled,
        after.value == group.value && after.tabs == group.tabs && after.icons == group.icons,
{
    assert(lists(after.options@, given@));
    let own = after.options@[i];
}

} // verus!
