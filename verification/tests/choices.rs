//! Choice groups, assets and the look of the application.
use course2md_desktop::appearance::{
    offered_palettes, palette_label, version_text, Appearance, AppearancePreference,
};
use course2md_desktop::assets::{own_paths, AssetOrigin, Assets};
use course2md_desktop::choice_group::{destination, Direction, SingleChoiceGroup};

#[test]
fn arrows_skip_disabled_values_wrap_and_start_when_selection_is_unknown() {
    let enabled = [0, 2, 3];
    assert_eq!(destination(&enabled, Some(0), Direction::Next), Some(2));
    assert_eq!(destination(&enabled, Some(3), Direction::Next), Some(0));
    assert_eq!(destination(&enabled, Some(0), Direction::Previous), Some(3));
    assert_eq!(destination(&enabled, None, Direction::Next), Some(0));
    assert_eq!(destination(&enabled, None, Direction::Previous), Some(3));
    assert_eq!(destination(&enabled, Some(1), Direction::First), Some(0));
    assert_eq!(destination(&enabled, Some(1), Direction::Last), Some(3));
    assert_eq!(destination(&[], Some(0), Direction::Next), None);
}

fn group() -> SingleChoiceGroup {
    SingleChoiceGroup::new("layout".into(), "显示方式".into()).options(vec![
        ("list".into(), "列表".into()),
        ("cards".into(), "卡片".into()),
        ("grid".into(), "网格".into()),
    ])
}

#[test]
fn a_group_is_built_step_by_step() {
    let group = group()
        .selected("cards".into())
        .vertical()
        .tabs()
        .activate_selected()
        .icon("list".into(), "icons/list.svg".into())
        .disable_option("grid");
    assert_eq!(group.id, "layout");
    assert!(group.full_width && group.vertical && group.tabs && group.activate_selected);
    assert_eq!(group.enabled(), vec![0, 1]);
    assert_eq!(group.selected_position(), Some(1));
    assert_eq!(group.entry(), Some(1));
    assert_eq!(
        group.icons.get(&"list".to_owned()).unwrap(),
        "icons/list.svg"
    );
    assert_eq!(group.navigate(None, Direction::Next), Some((0, true)));
    assert_eq!(group.navigate(Some(0), Direction::Next), Some((1, false)));
    let off = group.disabled(true);
    assert_eq!(off.entry(), None);
    assert_eq!(off.navigate(None, Direction::First), None);
}

#[test]
fn a_disabled_selection_lets_the_first_option_in() {
    let group = group().selected("list".into()).disable_option("list");
    assert_eq!(group.selected_position(), Some(0));
    assert_eq!(group.entry(), Some(1));
    assert_eq!(group.navigate(None, Direction::Next), Some((1, true)));
    let unknown = self::group().selected("x".into()).full_width();
    assert_eq!(unknown.selected_position(), None);
    assert_eq!(unknown.entry(), Some(0));
}

#[test]
fn own_icons_hide_those_of_the_component_library() {
    assert_eq!(Assets.load("images/course2md.png"), AssetOrigin::AppImage);
    assert_eq!(Assets.load("icons/book-open.svg"), AssetOrigin::Own(0));
    assert_eq!(Assets.load("icons/unknown.svg"), AssetOrigin::Kit);
    assert_eq!(own_paths().len(), 81);
    let listed = Assets.list(
        "brands/",
        vec!["brands/youtube.svg".into(), "brands/a.svg".into()],
    );
    assert_eq!(
        listed,
        ["brands/a.svg", "brands/bilibili.svg", "brands/youtube.svg"]
    );
}

#[test]
fn modes_and_palettes_are_chosen() {
    for mode in [Appearance::System, Appearance::Light, Appearance::Dark] {
        assert_eq!(Appearance::of_value(mode.value()), mode);
    }
    assert_eq!(Appearance::of_value("?"), Appearance::System);
    let preference = AppearancePreference {
        mode: Appearance::Light,
        light: 0,
        dark: 3,
    };
    assert!(preference.choose_mode("light").is_none());
    assert_eq!(preference.choose_mode("dark").unwrap().mode, Appearance::Dark);
    assert!(preference.choose_palette(3, true).is_none());
    assert_eq!(preference.choose_palette(2, false).unwrap().light, 2);
    assert_eq!(preference.palette(true), 3);
    assert_eq!(offered_palettes(&vec![false, true, false], false), vec![0, 2]);
    assert_eq!(palette_label("纸", true, true), "纸，深色主题，已选择");
    assert_eq!(palette_label("纸", false, false), "纸，浅色主题");
    assert_eq!(version_text("1.2.3", ""), "1.2.3");
    assert_eq!(version_text("1.2.3", "abc"), "1.2.3 · 构建 abc");
}
