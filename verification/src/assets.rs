//! The icons that the application brings along, and where an asset comes from.
use crate::text::{begins, ordered, put_in_order, same, starts_with, texts};
use vstd::prelude::*;

verus! {

/// The paths of the icons that the application brings along.
pub open spec fn icon_paths() -> Seq<Seq<char>> {
    seq![
        "icons/book-open.svg"@,
        "icons/plus.svg"@,
        "icons/task.svg"@,
        "icons/refresh.svg"@,
        "icons/settings.svg"@,
        "icons/folder.svg"@,
        "icons/folder-open.svg"@,
        "icons/arrow-left.svg"@,
        "icons/chevron-up.svg"@,
        "icons/chevron-down.svg"@,
        "icons/chevron-left.svg"@,
        "icons/chevron-right.svg"@,
        "icons/close.svg"@,
        "icons/circle-x.svg"@,
        "icons/file.svg"@,
        "icons/check.svg"@,
        "icons/eye.svg"@,
        "icons/eye-off.svg"@,
        "icons/minus.svg"@,
        "icons/external-link.svg"@,
        "icons/circle-check.svg"@,
        "icons/info.svg"@,
        "icons/triangle-alert.svg"@,
        "icons/window-close.svg"@,
        "icons/window-maximize.svg"@,
        "icons/window-minimize.svg"@,
        "icons/window-restore.svg"@,
        "icons/loader.svg"@,
        "icons/loader-circle.svg"@,
        "icons/link.svg"@,
        "icons/movie.svg"@,
        "icons/search.svg"@,
        "icons/more-horiz.svg"@,
        "icons/download.svg"@,
        "icons/play-arrow.svg"@,
        "icons/schedule.svg"@,
        "icons/image.svg"@,
        "icons/format-list-bulleted.svg"@,
        "icons/arrow-forward.svg"@,
        "icons/pause.svg"@,
        "icons/file-upload.svg"@,
        "icons/content-copy.svg"@,
        "icons/history.svg"@,
        "icons/edit.svg"@,
        "icons/create-new-folder.svg"@,
        "icons/delete.svg"@,
        "icons/zoom-in.svg"@,
        "icons/zoom-out.svg"@,
        "icons/fit-screen.svg"@,
        "icons/article.svg"@,
        "icons/subtitles.svg"@,
        "icons/mic.svg"@,
        "icons/computer.svg"@,
        "icons/cloud.svg"@,
        "icons/auto-fix.svg"@,
        "icons/code.svg"@,
        "icons/web.svg"@,
        "icons/palette.svg"@,
        "icons/storage.svg"@,
        "icons/tune.svg"@,
        "icons/save.svg"@,
        "icons/science.svg"@,
        "icons/login.svg"@,
        "icons/logout.svg"@,
        "icons/qr-code.svg"@,
        "icons/sun.svg"@,
        "icons/contrast.svg"@,
        "icons/home.svg"@,
        "icons/arrow-up.svg"@,
        "icons/arrow-down.svg"@,
        "icons/ellipsis.svg"@,
        "icons/stop.svg"@,
        "icons/checklist.svg"@,
        "icons/dashboard.svg"@,
        "icons/shield.svg"@,
        "icons/grid-view.svg"@,
        "icons/summarize.svg"@,
        "icons/moon.svg"@,
        "icons/restart.svg"@,
        "brands/youtube.svg"@,
        "brands/bilibili.svg"@,
    ]
}

/// The paths of the icons that the application brings along.
pub fn own_paths() -> (result: Vec<&'static str>)
    ensures
        result@.len() == icon_paths().len(),
        forall|i: int| 0 <= i < result@.len() ==> (#[trigger] result@[i])@ == icon_paths()[i],
{
    let result = vec![
        "icons/book-open.svg",
        "icons/plus.svg",
        "icons/task.svg",
        "icons/refresh.svg",
        "icons/settings.svg",
        "icons/folder.svg",
        "icons/folder-open.svg",
        "icons/arrow-left.svg",
        "icons/chevron-up.svg",
        "icons/chevron-down.svg",
        "icons/chevron-left.svg",
        "icons/chevron-right.svg",
        "icons/close.svg",
        "icons/circle-x.svg",
        "icons/file.svg",
        "icons/check.svg",
        "icons/eye.svg",
        "icons/eye-off.svg",
        "icons/minus.svg",
        "icons/external-link.svg",
        "icons/circle-check.svg",
        "icons/info.svg",
        "icons/triangle-alert.svg",
        "icons/window-close.svg",
        "icons/window-maximize.svg",
        "icons/window-minimize.svg",
        "icons/window-restore.svg",
        "icons/loader.svg",
        "icons/loader-circle.svg",
        "icons/link.svg",
        "icons/movie.svg",
        "icons/search.svg",
        "icons/more-horiz.svg",
        "icons/download.svg",
        "icons/play-arrow.svg",
        "icons/schedule.svg",
        "icons/image.svg",
        "icons/format-list-bulleted.svg",
        "icons/arrow-forward.svg",
        "icons/pause.svg",
        "icons/file-upload.svg",
        "icons/content-copy.svg",
        "icons/history.svg",
        "icons/edit.svg",
        "icons/create-new-folder.svg",
        "icons/delete.svg",
        "icons/zoom-in.svg",
        "icons/zoom-out.svg",
        "icons/fit-screen.svg",
        "icons/article.svg",
        "icons/subtitles.svg",
        "icons/mic.svg",
        "icons/computer.svg",
        "icons/cloud.svg",
        "icons/auto-fix.svg",
        "icons/code.svg",
        "icons/web.svg",
        "icons/palette.svg",
        "icons/storage.svg",
        "icons/tune.svg",
        "icons/save.svg",
        "icons/science.svg",
        "icons/login.svg",
        "icons/logout.svg",
        "icons/qr-code.svg",
        "icons/sun.svg",
        "icons/contrast.svg",
        "icons/home.svg",
        "icons/arrow-up.svg",
        "icons/arrow-down.svg",
        "icons/ellipsis.svg",
        "icons/stop.svg",
        "icons/checklist.svg",
        "icons/dashboard.svg",
        "icons/shield.svg",
        "icons/grid-view.svg",
        "icons/summarize.svg",
        "icons/moon.svg",
        "icons/restart.svg",
        "brands/youtube.svg",
        "brands/bilibili.svg",
    ];
    result
}

/// Where an asset comes from.
#[derive(Clone, Copy, Debug, PartialEq, Eq, Structural)]
pub enum AssetOrigin {
    /// The picture of the application.
    AppImage,
    /// One of its own icons, by its place in the list.
    Own(usize),
    /// The assets of the component library.
    Kit,
}

/// The assets of the application.
pub struct Assets;

/// The first icon with this path.
pub open spec fn icon_at(path: Seq<char>, i: int) -> bool {
    &&& 0 <= i < icon_paths().len()
    &&& icon_paths()[i] == path
    &&& forall|j: int| 0 <= j < i ==> #[trigger] icon_paths()[j] != path
}

impl Assets {
    /// Where the asset at a path comes from: what the application brings along
    /// hides what the component library has.
    pub fn load(&self, path: &str) -> (result: AssetOrigin)
        ensures
            match result {
                AssetOrigin::AppImage => path@ == "images/course2md.png"@,
                AssetOrigin::Own(i) => path@ != "images/course2md.png"@ && icon_at(path@, i as int),
                AssetOrigin::Kit => path@ != "images/course2md.png"@ && forall|i: int|
                    !icon_at(path@, i),
            },
    {
        if same(path, "images/course2md.png") {
            return AssetOrigin::AppImage;
        }
        let own = own_paths();
        let mut i: usize = 0;
        while i < own.len()
            invariant
                i <= own@.len(),
                own@.len() == icon_paths().len(),
                path@ != "images/course2md.png"@,
                forall|j: int| 0 <= j < own@.len() ==> (#[trigger] own@[j])@ == icon_paths()[j],
                forall|j: int| 0 <= j < i ==> #[trigger] icon_paths()[j] != path@,
            decreases own@.len() - i,
        {
            assert(own@[i as int]@ == icon_paths()[i as int]);
            if same(own[i], path) {
                return AssetOrigin::Own(i);
            }
            i += 1;
        }
        AssetOrigin::Kit
    }

    /// The paths below a path, in order and each once: those of the component
    /// library and those of the application.
    pub fn list(&self, path: &str, kit: Vec<String>) -> (result: Vec<String>)
        ensures
            ordered(texts(result@)),
            forall|t: Seq<char>| #[trigger]
                texts(result@).contains(t) <==> texts(kit@).contains(t) || (icon_paths().contains(t)
                    && begins(t, path@)),
    {
        let mut result: Vec<String> = Vec::new();
        let mut i: usize = 0;
        while i < kit.len()
            invariant
                i <= kit@.len(),
                ordered(texts(result@)),
                forall|t: Seq<char>| #[trigger]
                    texts(result@).contains(t) <==> texts(kit@).take(i as int).contains(t),
            decreases kit@.len() - i,
        {
            let ghost part = texts(kit@).take(i as int);
            let ghost more = texts(kit@).take(i + 1);
            put_in_order(&mut result, kit[i].clone());
            assert(more =~= part.push(kit@[i as int]@));
            assert forall|t: Seq<char>| #[trigger] texts(result@).contains(t) <==> more.contains(t) by {
                pushed_contains(part, kit@[i as int]@, t);
            }
            i += 1;
        }
        assert(texts(kit@).take(kit@.len() as int) =~= texts(kit@));
        let own = own_paths();
        let mut k: usize = 0;
        while k < own.len()
            invariant
                k <= own@.len(),
                own@.len() == icon_paths().len(),
                forall|j: int| 0 <= j < own@.len() ==> (#[trigger] own@[j])@ == icon_paths()[j],
                ordered(texts(result@)),
                forall|t: Seq<char>| #[trigger]
                    texts(result@).contains(t) <==> texts(kit@).contains(t) || (icon_paths().take(
                        k as int,
                    ).contains(t) && begins(t, path@)),
            decreases own@.len() - k,
        {
            let ghost part = icon_paths().take(k as int);
            let ghost more = icon_paths().take(k + 1);
            let ghost name = icon_paths()[k as int];
            let ghost before = texts(result@);
            assert(own@[k as int]@ == name);
            assert(more =~= part.push(name));
            if starts_with(own[k], path) {
                put_in_order(&mut result, own[k].to_owned());
            }
            assert forall|t: Seq<char>| #[trigger] texts(result@).contains(t) <==> texts(
                kit@,
            ).contains(t) || (more.contains(t) && begins(t, path@)) by {
                pushed_contains(part, name, t);
                assert(before.contains(t) <==> texts(kit@).contains(t) || (part.contains(t)
                    && begins(t, path@)));
            }
            k += 1;
        }
        assert(icon_paths().take(own@.len() as int) =~= icon_paths());
        result
    }
}

proof fn pushed_contains(list: Seq<Seq<char>>, last: Seq<char>, t: Seq<char>)
    ensures
        list.push(last).contains(t) <==> t == last || list.contains(t),
{
    let more = list.push(last);
    if more.contains(t) {
        let i = more.index_of(t);
        if i < list.len() {
            assert(list[i] == t);
        }
    }
    if list.contains(t) {
        let i = list.index_of(t);
        assert(more[i] == t);
    }
    assert(more[list.len() as int] == last);
}

} // verus!
