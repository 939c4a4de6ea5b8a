//! The look of the application: its mode, its palettes, and how it names itself.
use crate::text::{join3, same};
use vstd::prelude::*;

verus! {

#[derive(Clone, Copy, Debug, PartialEq, Eq, Structural)]
pub enum Appearance {
    System,
    Light,
    Dark,
}

impl Appearance {
    pub open spec fn name(self) -> Seq<char> {
        match self {
            Appearance::System => "system"@,
            Appearance::Light => "light"@,
            Appearance::Dark => "dark"@,
        }
    }

    /// The value of the mode among the choices.
    pub fn value(&self) -> (result: &'static str)
        ensures
            result@ == self.name(),
    {
        match self {
            Appearance::System => "system",
            Appearance::Light => "light",
            Appearance::Dark => "dark",
        }
    }

    pub open spec fn named(value: Seq<char>) -> Appearance {
        if value == "light"@ {
            Appearance::Light
        } else if value == "dark"@ {
            Appearance::Dark
        } else {
            Appearance::System
        }
    }

    /// The mode with a value; the system's where there is none.
    pub fn of_value(value: &str) -> (result: Appearance)
        ensures
            result == Appearance::named(value@),
    {
        if same(value, "light") {
            Appearance::Light
        } else if same(value, "dark") {
            Appearance::Dark
        } else {
            Appearance::System
        }
    }
}

/// Each mode is found again by its value.
pub proof fn modes_are_found_by_value(mode: Appearance)
    ensures
        Appearance::named(mode.name()) == mode,
{
    reveal_strlit("system");
    reveal_strlit("light");
    reveal_strlit("dark");
    assert("system"@.len() == 6 && "light"@.len() == 5 && "dark"@.len() == 4);
}

/// The modes and palettes that a person has chosen: one palette for each kind.
#[derive(Clone, Copy, Debug, PartialEq, Eq, Structural)]
pub struct AppearancePreference {
    pub mode: Appearance,
    pub light: usize,
    pub dark: usize,
}

impl AppearancePreference {
    /// The palette in use for a kind.
    pub fn palette(&self, dark: bool) -> (result: usize)
        ensures
            result == (if dark {
                self.dark
            } else {
                self.light
            }),
    {
        if dark {
            self.dark
        } else {
            self.light
        }
    }

    /// The preference after a palette was chosen for its kind; nothing where it is
    /// in use already.
    pub fn choose_palette(&self, palette: usize, dark: bool) -> (result: Option<
        AppearancePreference,
    >)
        ensures
            result == (if palette == (if dark {
                self.dark
            } else {
                self.light
            }) {
                None
            } else if dark {
                Some(AppearancePreference { dark: palette, ..*self })
            } else {
                Some(AppearancePreference { light: palette, ..*self })
            }),
    {
        if palette == self.palette(dark) {
            None
        } else if dark {
            Some(AppearancePreference { mode: self.mode, light: self.light, dark: palette })
        } else {
            Some(AppearancePreference { mode: self.mode, light: palette, dark: self.dark })
        }
    }

    /// The preference after a mode was chosen; nothing where it is in use already.
    pub fn choose_mode(&self, value: &str) -> (result: Option<AppearancePreference>)
        ensures
            result == (if Appearance::named(value@) == self.mode {
                None
            } else {
                Some(AppearancePreference { mode: Appearance::named(value@), ..*self })
            }),
    {
        let mode = Appearance::of_value(value);
        if mode == self.mode {
            None
        } else {
            Some(AppearancePreference { mode, light: self.light, dark: self.dark })
        }
    }
}

/// The palettes of one kind, among the first `n`.
pub open spec fn palettes_of(dark: Seq<bool>, wanted: bool, n: nat) -> Seq<usize>
    decreases n,
{
    if n == 0 {
        Seq::empty()
    } else {
        let before = palettes_of(dark, wanted, (n - 1) as nat);
        if dark[n - 1] == wanted {
            before.push((n - 1) as usize)
        } else {
            before
        }
    }
}

/// The palettes that are offered for a kind; `dark` tells the kind of each.
pub fn offered_palettes(dark: &Vec<bool>, wanted: bool) -> (result: Vec<usize>)
    ensures
        result@ == palettes_of(dark@, wanted, dark@.len()),
{
    let mut result: Vec<usize> = Vec::new();
    let mut i: usize = 0;
    while i < dark.len()
        invariant
            i <= dark@.len(),
            result@ == palettes_of(dark@, wanted, i as nat),
        decreases dark@.len() - i,
    {
        if dark[i] == wanted {
            result.push(i);
        }
        i += 1;
    }
    result
}

/// What a screen reader says of a palette.
pub fn palette_label(name: &str, dark: bool, selected: bool) -> (result: String)
    ensures
        result@ == name@ + "，"@ + (if dark {
            "深色主题"@
        } else {
            "浅色主题"@
        }) + (if selected {
            "，已选择"@
        } else {
            ""@
        }),
{
    let kind = if dark {
        "深色主题"
    } else {
        "浅色主题"
    };
    let mark = if selected {
        "，已选择"
    } else {
        ""
    };
    let head = join3(name, "，", kind);
    crate::text::join2(head.as_str(), mark)
}

/// The version of the application: with the build it was made from, where that is
/// known.
pub fn version_text(version: &str, commit: &str) -> (result: String)
    ensures
        result@ == (if commit@.len() == 0 {
            version@
        } else {
            version@ + " · 构建 "@ + commit@
        }),
{
    if commit.is_empty() {
        version.to_owned()
    } else {
        join3(version, " · 构建 ", commit)
    }
}

/// A mode is found again by its value, and what is no value is the system's mode.
pub proof fn a_mode_is_found_by_its_value(mode: Appearance, value: &'static str, found: Appearance, other: &str, unknown: Appearance)
    requires
        call_ensures(Appearance::value, (&mode,), value),
        call_ensures(Appearance::of_value, (value,), found),
        call_ensures(Appearance::of_value, (other,), unknown),
        other@ != "light"@ && other@ != "dark"@,
    ensures
        found == mode,
        unknown is System,
        mode is Light ==> value@ == "light"@,
        mode is Dark ==> value@ == "dark"@,
{
    modes_are_found_by_value(mode);
}

/// A palette is chosen for the kind it is of, and the other kind keeps its own; what is chosen
/// already changes nothing.
pub proof fn a_palette_is_chosen_for_its_kind(
    preference: AppearancePreference,
    palette: usize,
    dark: bool,
    chosen: Option<AppearancePreference>,
    own: usize,
    after: usize,
    other: usize,
    kept: usize,
)
    requires
        call_ensures(AppearancePreference::palette, (&preference, dark), own),
        call_ensures(AppearancePreference::palette, (&preference, !dark), other),
        call_ensures(AppearancePreference::choose_palette, (&preference, palette, dark), chosen),
        chosen is Some ==> call_ensures(AppearancePreference::palette, (&chosen->0, dark), after),
        chosen is Some ==> call_ensures(AppearancePreference::palette, (&chosen->0, !dark), kept),
    ensures
        chosen is None <==> palette == own,
        chosen is Some ==> after == palette && kept == other && chosen->0.mode == preference.mode,
{
}

/// Choosing a mode changes the mode alone, and nothing where it is chosen already.
pub proof fn a_mode_is_chosen_alone(
    preference: AppearancePreference,
    value: &str,
    chosen: Option<AppearancePreference>,
)
    requires
        call_ensures(AppearancePreference::choose_mode, (&preference, value), chosen),
    ensures
        chosen is Some ==> chosen->0.mode != preference.mode && chosen->0.light == preference.light
            && chosen->0.dark == preference.dark,
        value@ == "dark"@ && !(preference.mode is Dark) ==> chosen is Some && chosen->0.mode is Dark,
        value@ == "light"@ && !(preference.mode is Light) ==> chosen is Some && chosen->0.mode
            is Light,
{
    reveal_strlit("light");
    reveal_strlit("dark");
    assert("light"@[0] != "dark"@[0]);
}

proof fn palettes_are(dark: Seq<bool>, wanted: bool, n: nat, i: usize)
    requires
        n <= dark.len() <= usize::MAX,
    ensures
        palettes_of(dark, wanted, n).contains(i) <==> i < n && dark[i as int] == wanted,
    decreases n,
{
    let all = palettes_of(dark, wanted, n);
    if n > 0 {
        let m = (n - 1) as nat;
        palettes_are(dark, wanted, m, i);
        let before = palettes_of(dark, wanted, m);
        if all.contains(i) {
            let k = choose|k: int| 0 <= k < all.len() && all[k] == i;
            if k < before.len() {
                assert(before[k] == i);
            }
        }
        if i < n && dark[i as int] == wanted {
            if i < m {
                let k = choose|k: int| 0 <= k < before.len() && before[k] == i;
                assert(all[k] == i);
            } else {
                assert(all[before.len() as int] == i);
            }
        }
    }
}

/// The palettes of one kind are offered, all of them and no others.
pub proof fn palettes_are_offered_by_kind(dark: Vec<bool>, wanted: bool, offered: Vec<usize>, i: usize)
    requires
        dark@.len() <= usize::MAX,
        call_ensures(offered_palettes, (&dark, wanted), offered),
        i < dark@.len(),
    ensures
        offered@.contains(i) <==> dark@[i as int] == wanted,
{
    palettes_are(dark@, wanted, dark@.len(), i);
}

} // verus!
