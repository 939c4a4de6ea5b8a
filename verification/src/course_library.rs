//! The filter of the library page: all notes, or those of one folder.
use crate::text::{decimal, decimal_is_injective, join3, number, same};
use vstd::prelude::*;
use vstd::string::*;

verus! {

// -------------------------------------------------------------------- filters

/// One entry of the folder filter. A folder of `None` means all notes, folder 0
/// those that are in no folder.
#[derive(Clone, Debug, PartialEq, Eq)]
pub struct LibraryFilterOption {
    pub value: String,
    pub label: String,
    pub root: String,
    pub folder: Option<u64>,
}

/// A filter entry: its value, its label, and what it shows.
pub struct FilterModel {
    pub value: Seq<char>,
    pub label: Seq<char>,
    pub root: Seq<char>,
    pub folder: Option<u64>,
}

impl View for LibraryFilterOption {
    type V = FilterModel;

    open spec fn view(&self) -> FilterModel {
        FilterModel {
            value: self.value@,
            label: self.label@,
            root: self.root@,
            folder: self.folder,
        }
    }
}

pub open spec fn filter_views(options: Seq<LibraryFilterOption>) -> Seq<FilterModel> {
    Seq::new(options.len(), |i: int| options[i]@)
}

/// A library for the filter: its root, its name, and its folders.
pub type FilterSection = (String, String, Vec<(u64, String)>);

/// The value of the entry for a folder of the library at `index`.
pub open spec fn folder_value(index: nat, folder: u64) -> Seq<char> {
    "f-"@ + decimal(index) + "-"@ + decimal(folder as nat)
}

/// The label of an entry: the library's name comes first where there are several.
pub open spec fn folder_label(library: Seq<char>, name: Seq<char>, multi: bool) -> Seq<char> {
    if multi {
        library + " · "@ + name
    } else {
        name
    }
}

/// The entries of one library: the notes in no folder, then its first `n` folders.
pub open spec fn section_entries(
    section: FilterSection,
    index: nat,
    multi: bool,
    n: nat,
) -> Seq<FilterModel>
    decreases n,
{
    if n == 0 {
        seq![
            FilterModel {
                value: folder_value(index, 0),
                label: folder_label(section.1@, "未分类"@, multi),
                root: section.0@,
                folder: Some(0),
            },
        ]
    } else {
        let (id, name) = section.2@[n - 1];
        section_entries(section, index, multi, (n - 1) as nat).push(
            FilterModel {
                value: folder_value(index, id),
                label: folder_label(section.1@, name@, multi),
                root: section.0@,
                folder: Some(id),
            },
        )
    }
}

/// All notes first, then the entries of the first `n` libraries.
pub open spec fn filter_entries(
    sections: Seq<FilterSection>,
    current_root: Seq<char>,
    multi: bool,
    n: nat,
) -> Seq<FilterModel>
    decreases n,
{
    if n == 0 {
        seq![
            FilterModel {
                value: "all"@,
                label: "全部笔记"@,
                root: current_root,
                folder: None,
            },
        ]
    } else {
        let section = sections[n - 1];
        filter_entries(sections, current_root, multi, (n - 1) as nat) + section_entries(
            section,
            (n - 1) as nat,
            multi,
            section.2@.len(),
        )
    }
}

fn value_of_folder(index: usize, folder: u64) -> (result: String)
    ensures
        result@ == folder_value(index as nat, folder),
{
    let mut result = "f-".to_owned();
    result.append(number(index as u64).as_str());
    result.append("-");
    result.append(number(folder).as_str());
    result
}

fn label_of_folder(library: &str, name: &str, multi: bool) -> (result: String)
    ensures
        result@ == folder_label(library@, name@, multi),
{
    if multi {
        join3(library, " · ", name)
    } else {
        name.to_owned()
    }
}

/// The entries of the folder filter: all notes, then for each library the notes in
/// no folder and its folders.
pub fn library_filter_options(sections: &[FilterSection], current_root: &str, multi: bool) -> (result:
    Vec<LibraryFilterOption>)
    ensures
        filter_views(result@) == filter_entries(sections@, current_root@, multi, sections@.len()),
{
    let mut options: Vec<LibraryFilterOption> = Vec::new();
    options.push(
        LibraryFilterOption {
            value: "all".to_owned(),
            label: "全部笔记".to_owned(),
            root: current_root.to_owned(),
            folder: None,
        },
    );
    assert(filter_views(options@) =~= filter_entries(sections@, current_root@, multi, 0));
    let mut index: usize = 0;
    while index < sections.len()
        invariant
            index <= sections@.len(),
            filter_views(options@) == filter_entries(
                sections@,
                current_root@,
                multi,
                index as nat,
            ),
        decreases sections@.len() - index,
    {
        let section = &sections[index];
        let ghost before = filter_views(options@);
        options.push(
            LibraryFilterOption {
                value: value_of_folder(index, 0),
                label: label_of_folder(section.1.as_str(), "未分类", multi),
                root: section.0.clone(),
                folder: Some(0),
            },
        );
        assert(filter_views(options@) =~= before + section_entries(
            *section,
            index as nat,
            multi,
            0,
        ));
        let mut k: usize = 0;
        while k < section.2.len()
            invariant
                k <= section.2@.len(),
                filter_views(options@) == before + section_entries(
                    *section,
                    index as nat,
                    multi,
                    k as nat,
                ),
            decreases section.2@.len() - k,
        {
            let (id, name) = &section.2[k];
            let ghost shown = filter_views(options@);
            options.push(
                LibraryFilterOption {
                    value: value_of_folder(index, *id),
                    label: label_of_folder(section.1.as_str(), name.as_str(), multi),
                    root: section.0.clone(),
                    folder: Some(*id),
                },
            );
            proof {
                let added = FilterModel {
                    value: folder_value(index as nat, *id),
                    label: folder_label(section.1@, name@, multi),
                    root: section.0@,
                    folder: Some(*id),
                };
                assert(filter_views(options@) =~= shown.push(added));
                let part = section_entries(*section, index as nat, multi, k as nat);
                assert((section.2@[k as int]) == (*id, *name));
                assert(section_entries(*section, index as nat, multi, (k + 1) as nat) == part.push(
                    added,
                ));
                assert(before + part.push(added) =~= (before + part).push(added));
            }
            k += 1;
        }
        index += 1;
    }
    options
}

/// The entry at `i` shows what is shown.
pub open spec fn shows(option: FilterModel, current_root: Seq<char>, folder: Option<u64>) -> bool {
    match folder {
        None => option.folder is None,
        Some(id) => option.folder == Some(id) && option.root == current_root,
    }
}

/// The value of the first entry that shows what is shown; all notes where none does.
pub open spec fn selected_value(
    options: Seq<FilterModel>,
    current_root: Seq<char>,
    folder: Option<u64>,
) -> Seq<char>
    decreases options.len(),
{
    if options.len() == 0 {
        "all"@
    } else if shows(options[0], current_root, folder) {
        options[0].value
    } else {
        selected_value(options.skip(1), current_root, folder)
    }
}

pub fn library_filter_selected(
    options: &[LibraryFilterOption],
    current_root: &str,
    folder: Option<u64>,
) -> (result: String)
    ensures
        result@ == selected_value(filter_views(options@), current_root@, folder),
{
    let ghost all = filter_views(options@);
    let mut i: usize = 0;
    assert(all.skip(0) =~= all);
    while i < options.len()
        invariant
            i <= options@.len(),
            all == filter_views(options@),
            selected_value(all.skip(i as int), current_root@, folder) == selected_value(
                all,
                current_root@,
                folder,
            ),
        decreases options@.len() - i,
    {
        let option = &options[i];
        assert(all.skip(i as int)[0] == option@);
        let shown = match (folder, option.folder) {
            (None, None) => true,
            (Some(wanted), Some(own)) => wanted == own && same(option.root.as_str(), current_root),
            _ => false,
        };
        if shown {
            return option.value.clone();
        }
        assert(all.skip(i as int).skip(1) =~= all.skip(i + 1));
        i += 1;
    }
    "all".to_owned()
}

/// The entry with a value, where there is one.
pub fn filter_with_value(options: &[LibraryFilterOption], value: &str) -> (result: Option<usize>)
    ensures
        match result {
            Some(i) => i < options@.len() && options@[i as int].value@ == value@ && forall|j: int|
                0 <= j < i ==> (#[trigger] options@[j]).value@ != value@,
            None => forall|j: int|
                0 <= j < options@.len() ==> (#[trigger] options@[j]).value@ != value@,
        },
{
    let mut i: usize = 0;
    while i < options.len()
        invariant
            i <= options@.len(),
            forall|j: int| 0 <= j < i ==> (#[trigger] options@[j]).value@ != value@,
        decreases options@.len() - i,
    {
        if same(options[i].value.as_str(), value) {
            return Some(i);
        }
        i += 1;
    }
    None
}

pub fn library_layout_choice(cards: bool) -> (result: &'static str)
    ensures
        result@ == (if cards {
            "cards"@
        } else {
            "list"@
        }),
{
    if cards {
        "cards"
    } else {
        "list"
    }
}

// ---------------------------------------------------------- laws of the filter

proof fn decimal_has_no_dash(n: nat)
    ensures
        decimal(n).len() > 0,
        forall|i: int| 0 <= i < decimal(n).len() ==> #[trigger] decimal(n)[i] != '-',
    decreases n,
{
    if n >= 10 {
        decimal_has_no_dash(n / 10);
    }
}

/// The value of an entry tells the library and the folder.
pub proof fn folder_values_differ(a: nat, b: u64, c: nat, d: u64)
    requires
        folder_value(a, b) == folder_value(c, d),
    ensures
        a == c,
        b == d,
{
    reveal_strlit("f-");
    reveal_strlit("-");
    let x = folder_value(a, b);
    let y = folder_value(c, d);
    decimal_has_no_dash(a);
    decimal_has_no_dash(c);
    let m = decimal(a).len() as int;
    let n = decimal(c).len() as int;
    assert(x[2 + m] == '-');
    assert(y[2 + n] == '-');
    if m < n {
        assert(y[2 + m] == decimal(c)[m]);
    }
    if n < m {
        assert(x[2 + n] == decimal(a)[n]);
    }
    assert(x.subrange(2, 2 + m) =~= decimal(a));
    assert(y.subrange(2, 2 + n) =~= decimal(c));
    decimal_is_injective(a, c);
    assert(x.skip(3 + m) =~= decimal(b as nat));
    assert(y.skip(3 + n) =~= decimal(d as nat));
    decimal_is_injective(b as nat, d as nat);
}

/// The folders of a library have numbers of their own, none of them 0.
pub open spec fn has_proper_folders(section: FilterSection) -> bool {
    &&& forall|i: int| 0 <= i < section.2@.len() ==> (#[trigger] section.2@[i]).0 != 0
    &&& forall|i: int, j: int|
        0 <= i < j < section.2@.len() ==> (#[trigger] section.2@[i]).0 != (#[trigger] section.2@[j]).0
}

proof fn section_entry(section: FilterSection, index: nat, multi: bool, n: nat, i: int)
    requires
        n <= section.2@.len(),
        0 <= i < section_entries(section, index, multi, n).len(),
    ensures
        section_entries(section, index, multi, n).len() == n + 1,
        i == 0 ==> section_entries(section, index, multi, n)[i].value == folder_value(index, 0),
        i > 0 ==> section_entries(section, index, multi, n)[i].value == folder_value(
            index,
            section.2@[i - 1].0,
        ),
    decreases n,
{
    if n > 0 {
        let m = (n - 1) as nat;
        section_entry(section, index, multi, m, 0);
        if i < n {
            section_entry(section, index, multi, m, i);
        }
    }
}

proof fn section_length(section: FilterSection, index: nat, multi: bool, n: nat)
    ensures
        section_entries(section, index, multi, n).len() == n + 1,
    decreases n,
{
    if n > 0 {
        section_length(section, index, multi, (n - 1) as nat);
    }
}

/// Each entry beyond the first belongs to one of the libraries.
proof fn filter_entry(
    sections: Seq<FilterSection>,
    current_root: Seq<char>,
    multi: bool,
    n: nat,
    i: int,
)
    requires
        n <= sections.len(),
        0 < i < filter_entries(sections, current_root, multi, n).len(),
    ensures
        exists|s: nat, k: int|
            s < n && 0 <= k <= sections[s as int].2@.len() && #[trigger] filter_entries(
                sections,
                current_root,
                multi,
                n,
            )[i].value == #[trigger] entry_value(sections, s, k) && i == place_of_entry(
                sections,
                s,
                k,
            ),
    decreases n,
{
    if n > 0 {
        let m = (n - 1) as nat;
        let before = filter_entries(sections, current_root, multi, m);
        filter_length(sections, current_root, multi, m);
        let section = sections[m as int];
        if i < before.len() {
            filter_entry(sections, current_root, multi, m, i);
            let (s, k) = choose|s: nat, k: int|
                s < m && 0 <= k <= sections[s as int].2@.len() && #[trigger] filter_entries(
                    sections,
                    current_root,
                    multi,
                    m,
                )[i].value == #[trigger] entry_value(sections, s, k) && i == place_of_entry(
                    sections,
                    s,
                    k,
                );
            assert(filter_entries(sections, current_root, multi, n)[i].value == entry_value(
                sections,
                s,
                k,
            ));
        } else {
            let k = i - before.len();
            section_length(section, m, multi, section.2@.len());
            section_entry(section, m, multi, section.2@.len(), k);
            place_shifts(sections, m, 0, k);
            assert(filter_entries(sections, current_root, multi, n)[i].value == entry_value(
                sections,
                m,
                k,
            ));
        }
    }
}

/// The value of the `k`th entry of the library at `s`.
pub open spec fn entry_value(sections: Seq<FilterSection>, s: nat, k: int) -> Seq<char> {
    folder_value(
        s,
        if k == 0 {
            0
        } else {
            sections[s as int].2@[k - 1].0
        },
    )
}

/// The place of the `k`th entry of the library at `s`.
pub open spec fn place_of_entry(sections: Seq<FilterSection>, s: nat, k: int) -> int
    decreases s,
{
    if s == 0 {
        1 + k
    } else {
        place_of_entry(sections, (s - 1) as nat, sections[s - 1].2@.len() + 1 + k)
    }
}

proof fn place_shifts(sections: Seq<FilterSection>, s: nat, k: int, by: int)
    ensures
        place_of_entry(sections, s, k + by) == place_of_entry(sections, s, k) + by,
    decreases s,
{
    if s > 0 {
        place_shifts(sections, (s - 1) as nat, sections[s - 1].2@.len() + 1 + k, by);
    }
}

proof fn filter_length(
    sections: Seq<FilterSection>,
    current_root: Seq<char>,
    multi: bool,
    n: nat,
)
    ensures
        filter_entries(sections, current_root, multi, n).len() == place_of_entry(sections, n, 0),
    decreases n,
{
    if n > 0 {
        let m = (n - 1) as nat;
        filter_length(sections, current_root, multi, m);
        let section = sections[m as int];
        section_length(section, m, multi, section.2@.len());
        place_shifts(sections, m, 0, (section.2@.len() + 1) as int);
    }
}

/// No two entries of the filter have the same value, so that a choice is never
/// mistaken for another.
pub proof fn filter_values_differ(
    sections: Seq<FilterSection>,
    current_root: Seq<char>,
    multi: bool,
    i: int,
    j: int,
)
    requires
        forall|s: int| 0 <= s < sections.len() ==> has_proper_folders(#[trigger] sections[s]),
        0 <= i < j < filter_entries(sections, current_root, multi, sections.len()).len(),
    ensures
        filter_entries(sections, current_root, multi, sections.len())[i].value != filter_entries(
            sections,
            current_root,
            multi,
            sections.len(),
        )[j].value,
{
    let n = sections.len();
    let all = filter_entries(sections, current_root, multi, n);
    filter_entry(sections, current_root, multi, n, j);
    let (t, l) = choose|s: nat, k: int|
        s < n && 0 <= k <= sections[s as int].2@.len() && #[trigger] filter_entries(
            sections,
            current_root,
            multi,
            n,
        )[j].value == #[trigger] entry_value(sections, s, k) && j == place_of_entry(sections, s, k);
    reveal_strlit("all");
    reveal_strlit("f-");
    if i == 0 {
        first_entry(sections, current_root, multi, n);
        assert(all[0].value[0] == 'a');
        assert(all[j].value[0] == 'f');
    } else {
        filter_entry(sections, current_root, multi, n, i);
        let (s, k) = choose|s: nat, k: int|
            s < n && 0 <= k <= sections[s as int].2@.len() && #[trigger] filter_entries(
                sections,
                current_root,
                multi,
                n,
            )[i].value == #[trigger] entry_value(sections, s, k) && i == place_of_entry(
                sections,
                s,
                k,
            );
        if all[i].value == all[j].value {
            let a = if k == 0 {
                0
            } else {
                sections[s as int].2@[k - 1].0
            };
            let b = if l == 0 {
                0
            } else {
                sections[t as int].2@[l - 1].0
            };
            folder_values_differ(s, a, t, b);
            assert(has_proper_folders(sections[s as int]));
            if k == 0 && l != 0 {
                assert(sections[t as int].2@[l - 1].0 != 0);
            }
            if l == 0 && k != 0 {
                assert(sections[s as int].2@[k - 1].0 != 0);
            }
            if k != l && k != 0 && l != 0 {
                assert(sections[s as int].2@[k - 1].0 != sections[s as int].2@[l - 1].0);
            }
            assert(k == l);
        }
    }
}

proof fn first_entry(sections: Seq<FilterSection>, current_root: Seq<char>, multi: bool, n: nat)
    ensures
        filter_entries(sections, current_root, multi, n).len() > 0,
        filter_entries(sections, current_root, multi, n)[0].value == "all"@,
        filter_entries(sections, current_root, multi, n)[0].folder is None,
    decreases n,
{
    if n > 0 {
        first_entry(sections, current_root, multi, (n - 1) as nat);
    }
}

/// What is marked in the filter is always one of its entries.
pub proof fn the_selected_filter_is_offered(
    sections: Seq<FilterSection>,
    current_root: Seq<char>,
    multi: bool,
    folder: Option<u64>,
)
    ensures
        exists|i: int|
            0 <= i < filter_entries(sections, current_root, multi, sections.len()).len() && (
            #[trigger] filter_entries(sections, current_root, multi, sections.len())[i]).value
                == selected_value(
                filter_entries(sections, current_root, multi, sections.len()),
                current_root,
                folder,
            ),
{
    let all = filter_entries(sections, current_root, multi, sections.len());
    first_entry(sections, current_root, multi, sections.len());
    selected_is_in(all, current_root, folder);
    let v = selected_value(all, current_root, folder);
    if v == "all"@ {
        assert(all[0].value == v);
    }
}

proof fn selected_is_in(options: Seq<FilterModel>, current_root: Seq<char>, folder: Option<u64>)
    ensures
        selected_value(options, current_root, folder) == "all"@ || exists|i: int|
            0 <= i < options.len() && (#[trigger] options[i]).value == selected_value(
                options,
                current_root,
                folder,
            ),
    decreases options.len(),
{
    if options.len() > 0 && !shows(options[0], current_root, folder) {
        let rest = options.skip(1);
        selected_is_in(rest, current_root, folder);
        let v = selected_value(rest, current_root, folder);
        if v != "all"@ {
            let i = choose|i: int| 0 <= i < rest.len() && (#[trigger] rest[i]).value == v;
            assert(options[i + 1].value == v);
        }
    } else if options.len() > 0 {
        assert(options[0].value == selected_value(options, current_root, folder));
    }
}

// --------------------------------------------------------------- what is chosen

proof fn section_entry_is(section: FilterSection, index: nat, multi: bool, n: nat, k: int)
    requires
        n <= section.2@.len(),
        0 <= k <= n,
    ensures
        section_entries(section, index, multi, n).len() == n + 1,
        section_entries(section, index, multi, n)[k].root == section.0@,
        k == 0 ==> section_entries(section, index, multi, n)[k].folder == Some(0u64)
            && section_entries(section, index, multi, n)[k].label == folder_label(
            section.1@,
            "未分类"@,
            multi,
        ),
        k > 0 ==> section_entries(section, index, multi, n)[k].folder == Some(section.2@[k - 1].0)
            && section_entries(section, index, multi, n)[k].label == folder_label(
            section.1@,
            section.2@[k - 1].1@,
            multi,
        ),
    decreases n,
{
    section_length(section, index, multi, n);
    if n > 0 {
        section_length(section, index, multi, (n - 1) as nat);
        if k < n {
            section_entry_is(section, index, multi, (n - 1) as nat, k);
        }
    }
}

proof fn section_is_offered(
    sections: Seq<FilterSection>,
    root: Seq<char>,
    multi: bool,
    n: nat,
    s: int,
    k: int,
) -> (at: int)
    requires
        n <= sections.len(),
        0 <= s < n,
        0 <= k <= sections[s].2@.len(),
    ensures
        0 < at < filter_entries(sections, root, multi, n).len(),
        filter_entries(sections, root, multi, n)[at] == section_entries(
            sections[s],
            s as nat,
            multi,
            sections[s].2@.len(),
        )[k],
    decreases n,
{
    let m = (n - 1) as nat;
    filter_is_not_empty(sections, root, multi, m);
    let before = filter_entries(sections, root, multi, m);
    if s == m {
        section_length(sections[s], m, multi, sections[s].2@.len());
        before.len() + k
    } else {
        let at = section_is_offered(sections, root, multi, m, s, k);
        at
    }
}

proof fn filter_is_not_empty(sections: Seq<FilterSection>, root: Seq<char>, multi: bool, n: nat)
    ensures
        filter_entries(sections, root, multi, n).len() > 0,
        filter_entries(sections, root, multi, n)[0].folder is None,
        filter_entries(sections, root, multi, n)[0].value == "all"@,
    decreases n,
{
    if n > 0 {
        filter_is_not_empty(sections, root, multi, (n - 1) as nat);
    }
}

/// All notes are offered first; then every folder of every library, and its notes without a
/// folder, each for that library and under its own name, which names the library where there are
/// several.
pub proof fn every_folder_is_offered(
    sections: &[FilterSection],
    root: &str,
    multi: bool,
    options: Vec<LibraryFilterOption>,
    s: int,
    k: int,
) -> (at: int)
    requires
        call_ensures(library_filter_options, (sections, root, multi), options),
        0 <= s < sections@.len(),
        0 <= k <= sections@[s].2@.len(),
    ensures
        options@.len() > 0 && options@[0].folder is None,
        0 < at < options@.len(),
        options@[at].root@ == sections@[s].0@,
        k == 0 ==> options@[at].folder == Some(0u64),
        k > 0 ==> options@[at].folder == Some(sections@[s].2@[k - 1].0),
        k > 0 && !multi ==> options@[at].label@ == sections@[s].2@[k - 1].1@,
        k > 0 && multi ==> options@[at].label@ == sections@[s].1@ + " · "@
            + sections@[s].2@[k - 1].1@,
{
    let said = filter_views(options@);
    filter_is_not_empty(sections@, root@, multi, sections@.len());
    let at = section_is_offered(sections@, root@, multi, sections@.len(), s, k);
    section_entry_is(sections@[s], s as nat, multi, sections@[s].2@.len(), k);
    assert(said.len() == options@.len());
    assert(said[at] == options@[at]@);
    assert(said[0] == options@[0]@);
    at
}

proof fn selected_is_first(options: Seq<FilterModel>, root: Seq<char>, folder: Option<u64>, i: int)
    requires
        0 <= i < options.len(),
        shows(options[i], root, folder),
        forall|j: int| 0 <= j < i ==> !shows(#[trigger] options[j], root, folder),
    ensures
        selected_value(options, root, folder) == options[i].value,
    decreases options.len(),
{
    if i > 0 {
        let rest = options.skip(1);
        assert(!shows(options[0], root, folder));
        assert(rest[i - 1] == options[i]);
        assert forall|j: int| 0 <= j < i - 1 implies !shows(#[trigger] rest[j], root, folder) by {
            assert(rest[j] == options[j + 1]);
        }
        selected_is_first(rest, root, folder, i - 1);
    }
}

/// The option that is marked is the one for the folder and the library that are shown, and the
/// one for all notes where no folder is chosen.
pub proof fn the_shown_folder_is_marked(
    options: &[LibraryFilterOption],
    root: &str,
    folder: Option<u64>,
    marked: String,
    i: int,
)
    requires
        call_ensures(library_filter_selected, (options, root, folder), marked),
        0 <= i < options@.len(),
        options@[i].folder == folder,
        folder is Some ==> options@[i].root@ == root@,
        forall|j: int|
            0 <= j < i ==> (#[trigger] options@[j]).folder != folder || (folder is Some
                && options@[j].root@ != root@),
    ensures
        marked@ == options@[i].value@,
{
    let said = filter_views(options@);
    assert forall|j: int| 0 <= j < i implies !shows(#[trigger] said[j], root@, folder) by {
        assert(said[j] == options@[j]@);
        assert(options@[j].folder != folder || (folder is Some && options@[j].root@ != root@));
    }
    assert(said[i] == options@[i]@);
    selected_is_first(said, root@, folder, i);
}

/// An option is found by its value, the first that has it; nothing is found by any other value.
pub proof fn an_option_is_found_by_its_value(
    options: &[LibraryFilterOption],
    value: &str,
    found: Option<usize>,
    i: int,
)
    requires
        call_ensures(filter_with_value, (options, value), found),
    ensures
        found matches Some(k) ==> k < options@.len() && options@[k as int].value@ == value@,
        0 <= i < options@.len() && options@[i].value@ == value@ ==> found is Some && found->0 <= i,
{
    let given = (options, value);
    if 0 <= i < options@.len() {
        assert(given.0@[i] == options@[i]);
    }
}

/// Every folder of every library has an entry of its own, for that library.
pub proof fn a_folder_has_an_entry(
    sections: Seq<FilterSection>,
    root: Seq<char>,
    multi: bool,
    s: int,
    k: int,
) -> (at: int)
    requires
        0 <= s < sections.len(),
        0 < k <= sections[s].2@.len(),
    ensures
        0 < at < filter_entries(sections, root, multi, sections.len()).len(),
        filter_entries(sections, root, multi, sections.len())[at].root == sections[s].0@,
        filter_entries(sections, root, multi, sections.len())[at].folder == Some(
            sections[s].2@[k - 1].0,
        ),
{
    let at = section_is_offered(sections, root, multi, sections.len(), s, k);
    section_entry_is(sections[s], s as nat, multi, sections[s].2@.len(), k);
    at
}

} // verus!
