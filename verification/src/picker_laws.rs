//! Where the picker opens, and what it shows, for all folders.

use vstd::prelude::*;

use crate::listing::{listing_view, media_hint, EntryKind, EntryView};
use crate::order::{is_stable_order, text_less, text_less_irreflexive, text_less_transitive};
use crate::order_laws::{every_index_is_placed, stable_order_by_key};
use crate::picker::{
    browse_keys, default_dir, downloads, home_path, info_of, infos_view, is_browse_order, is_reordered,
    is_shown, shown_infos, shows_folder, start_path, BrowseResponse, DirEntryInfoView, FolderView,
    Found,
};
use crate::text::{joined, lowercase, optional_text};
use crate::text_laws::joined_with_one_separator;

verus! {

/// The user's home is what the first of the two variables that is set holds; without them it is the
/// root.
pub proof fn home_is_the_first_variable(h: Seq<char>, p: Seq<char>, profile: Option<Seq<char>>)
    ensures
        home_path(Some(h), profile) == h,
        home_path(None, Some(p)) == p,
        home_path(None, None) == seq!['/'],
{
    reveal_strlit("/");
    assert("/"@ =~= seq!['/']);
}

/// The picker opens to whatever folder is asked for. Without one it opens to the downloads in the
/// user's home if they are a folder, else to the home itself. `c` is the separator of paths.
pub proof fn picker_opens_where_asked(p: Seq<char>, asked: Option<Seq<char>>, home: Seq<char>, c: char, has: bool)
    requires
        asked is None || asked == Some(Seq::<char>::empty()),
    ensures
        p.len() > 0 ==> start_path(Some(p), home, seq![c], has) == p,
        start_path(asked, home, seq![c], false) == home,
        home.len() == 0 ==> start_path(asked, home, seq![c], true) == "Downloads"@,
        home.len() > 0 && home[home.len() - 1] != c && home[home.len() - 1] != '/' ==> start_path(
            asked,
            home,
            seq![c],
            true,
        ) == home + seq![c] + "Downloads"@,
        home.len() > 0 && (home[home.len() - 1] == c || home[home.len() - 1] == '/') ==> start_path(
            asked,
            home,
            seq![c],
            true,
        ) == home + "Downloads"@,
        downloads(home, seq![c]) == start_path(asked, home, seq![c], true),
{
    joined_with_one_separator(home, c, "Downloads"@);
}

/// The default folder is the user's home, or the downloads in it, whatever the separator.
pub proof fn default_folder_for_any_separator(home: Seq<char>, sep: Seq<char>, has: bool)
    ensures
        downloads(home, sep) == joined(home, sep, "Downloads"@),
        default_dir(home, sep, has) == (if has { joined(home, sep, "Downloads"@) } else { home }),
        start_path(None, home, sep, has) == default_dir(home, sep, has),
        start_path(Some(Seq::<char>::empty()), home, sep, has) == default_dir(home, sep, has),
{
}

/// What is asked for does not depend on the separator, on the home or on what is in it.
pub proof fn asked_folder_alone_decides(
    p: Seq<char>,
    home: Seq<char>,
    sep: Seq<char>,
    has: bool,
    home2: Seq<char>,
    sep2: Seq<char>,
    has2: bool,
)
    requires
        p.len() > 0,
    ensures
        start_path(Some(p), home, sep, has) == p,
        start_path(Some(p), home, sep, has) == start_path(Some(p), home2, sep2, has2),
{
}

/// The picker shows every folder but those whose name starts with a dot, and nothing else.
pub proof fn folders_that_are_shown(e: EntryView)
    ensures
        e.kind != EntryKind::Dir ==> !is_shown(e),
        e.kind == EntryKind::Dir && e.name.len() == 0 ==> is_shown(e),
        e.kind == EntryKind::Dir && e.name.len() > 0 ==> (is_shown(e) <==> e.name[0] != '.'),
{
}

/// The entry of a folder as the picker is to show it: its name, its path, and the hint.
pub open spec fn is_entry_of(e: DirEntryInfoView, dir: Seq<char>, sep: Seq<char>, f: Found) -> bool {
    &&& f.entry.kind == EntryKind::Dir
    &&& f.entry.name@.len() > 0 ==> f.entry.name@[0] != '.'
    &&& e.name == f.entry.name@
    &&& e.path == joined(dir, sep, f.entry.name@)
    &&& e.photos == media_hint(listing_view(f.entries@), listing_view(f.sub@))
}

proof fn push_shown(dir: Seq<char>, sep: Seq<char>, found: Seq<Found>)
    requires
        found.len() > 0,
    ensures
        is_shown(found.last().entry@) ==> shown_infos(dir, sep, found) == shown_infos(dir, sep, found.drop_last()).push(
            info_of(dir, sep, found.last()),
        ),
        !is_shown(found.last().entry@) ==> shown_infos(dir, sep, found) == shown_infos(dir, sep, found.drop_last()),
{
    reveal(Seq::filter);
    let rest = found.drop_last();
    let shown = |f: Found| is_shown(f.entry@);
    let info = |f: Found| info_of(dir, sep, f);
    if is_shown(found.last().entry@) {
        assert(found.filter(shown) =~= rest.filter(shown).push(found.last()));
        assert(found.filter(shown).map_values(info) =~= rest.filter(shown).map_values(info).push(
            info_of(dir, sep, found.last()),
        ));
    }
}

proof fn info_comes_from(dir: Seq<char>, sep: Seq<char>, found: Seq<Found>, k: int) -> (i: int)
    requires
        0 <= k < shown_infos(dir, sep, found).len(),
    ensures
        0 <= i < found.len(),
        is_entry_of(shown_infos(dir, sep, found)[k], dir, sep, found[i]),
    decreases found.len(),
{
    reveal(Seq::filter);
    if found.len() == 0 {
        0
    } else {
        push_shown(dir, sep, found);
        let rest = found.drop_last();
        if k < shown_infos(dir, sep, rest).len() {
            let i = info_comes_from(dir, sep, rest, k);
            assert(found[i] == rest[i]);
            i
        } else {
            found.len() - 1
        }
    }
}

proof fn found_is_shown(dir: Seq<char>, sep: Seq<char>, found: Seq<Found>, i: int) -> (k: int)
    requires
        0 <= i < found.len(),
        is_shown(found[i].entry@),
    ensures
        0 <= k < shown_infos(dir, sep, found).len(),
        is_entry_of(shown_infos(dir, sep, found)[k], dir, sep, found[i]),
    decreases found.len(),
{
    push_shown(dir, sep, found);
    let rest = found.drop_last();
    if i < rest.len() {
        assert(rest[i] == found[i]);
        found_is_shown(dir, sep, rest, i)
    } else {
        shown_infos(dir, sep, found).len() - 1
    }
}

/// How many entries of a listing the picker shows.
pub open spec fn shown_count(found: Seq<Found>) -> nat
    decreases found.len(),
{
    if found.len() == 0 {
        0
    } else {
        let e = found.last().entry;
        shown_count(found.drop_last()) + (if e.kind == EntryKind::Dir && !(e.name@.len() > 0 && e.name@[0] == '.') {
            1nat
        } else {
            0nat
        })
    }
}

proof fn shown_infos_are_counted(dir: Seq<char>, sep: Seq<char>, found: Seq<Found>)
    ensures
        shown_infos(dir, sep, found).len() == shown_count(found),
    decreases found.len(),
{
    reveal(Seq::filter);
    if found.len() > 0 {
        shown_infos_are_counted(dir, sep, found.drop_last());
    }
}

/// What the picker shows of a folder: its path, the folder above, the home, and as many entries as
/// there are folders in it that are not hidden.
pub proof fn picker_shows_the_folder(r: BrowseResponse, folder: FolderView, home: Seq<char>, sep: Seq<char>)
    requires
        shows_folder(r, folder, home, sep),
    ensures
        r.path@ == folder.path,
        optional_text(r.parent) == folder.parent,
        r.home@ == home,
        r.entries@.len() == shown_count(folder.found),
{
    let infos = shown_infos(folder.path, sep, folder.found);
    shown_infos_are_counted(folder.path, sep, folder.found);
    let order = choose|order: Seq<usize>| #[trigger]
        is_stable_order(browse_keys(infos), order) && is_reordered(infos, infos_view(r.entries@), order);
    assert(infos_view(r.entries@).len() == infos.len());
}

/// Each entry that the picker shows is a folder that it found and that is not hidden, with its name,
/// its path and the hint.
pub proof fn picker_shows_no_other(r: BrowseResponse, folder: FolderView, home: Seq<char>, sep: Seq<char>, k: int)
    requires
        shows_folder(r, folder, home, sep),
        0 <= k < r.entries@.len(),
    ensures
        exists|i: int|
            0 <= i < folder.found.len() && is_entry_of(r.entries@[k]@, folder.path, sep, #[trigger] folder.found[i]),
{
    let infos = shown_infos(folder.path, sep, folder.found);
    let out = infos_view(r.entries@);
    let keys = browse_keys(infos);
    let order = choose|order: Seq<usize>| #[trigger]
        is_stable_order(keys, order) && is_reordered(infos, out, order);
    assert(0 <= order[k] < keys.len());
    assert(out[k] == infos[order[k] as int]);
    let i = info_comes_from(folder.path, sep, folder.found, order[k] as int);
    assert(is_entry_of(r.entries@[k]@, folder.path, sep, folder.found[i]));
}

/// Each folder that the picker found and that is not hidden has an entry, with its name, its path and
/// the hint.
pub proof fn picker_shows_each_folder(r: BrowseResponse, folder: FolderView, home: Seq<char>, sep: Seq<char>, i: int)
    requires
        shows_folder(r, folder, home, sep),
        folder.found.len() <= usize::MAX,
        0 <= i < folder.found.len(),
        folder.found[i].entry.kind == EntryKind::Dir,
        folder.found[i].entry.name@.len() > 0 ==> folder.found[i].entry.name@[0] != '.',
    ensures
        exists|k: int|
            0 <= k < r.entries@.len() && is_entry_of((#[trigger] r.entries@[k])@, folder.path, sep, folder.found[i]),
{
    let infos = shown_infos(folder.path, sep, folder.found);
    let out = infos_view(r.entries@);
    let keys = browse_keys(infos);
    shown_infos_are_counted(folder.path, sep, folder.found);
    shown_count_is_bounded(folder.found);
    let order = choose|order: Seq<usize>| #[trigger]
        is_stable_order(keys, order) && is_reordered(infos, out, order);
    let j = found_is_shown(folder.path, sep, folder.found, i);
    every_index_is_placed(keys, order, j);
    let k = choose|k: int| 0 <= k < order.len() && #[trigger] order[k] == j;
    assert(out[k] == infos[order[k] as int]);
    assert(is_entry_of(r.entries@[k]@, folder.path, sep, folder.found[i]));
}

/// The entries that the picker shows are in the order of their names in lower case.
pub proof fn picker_sorts_by_name(r: BrowseResponse, folder: FolderView, home: Seq<char>, sep: Seq<char>, k: int, l: int)
    requires
        shows_folder(r, folder, home, sep),
        0 <= k < l < r.entries@.len(),
    ensures
        !text_less(lowercase(r.entries@[l].name@), lowercase(r.entries@[k].name@)),
{
    let infos = shown_infos(folder.path, sep, folder.found);
    let out = infos_view(r.entries@);
    let keys = browse_keys(infos);
    let order = choose|order: Seq<usize>| #[trigger]
        is_stable_order(keys, order) && is_reordered(infos, out, order);
    stable_order_by_key(keys, order, k, l);
    assert(out[k] == infos[order[k] as int] && out[l] == infos[order[l] as int]);
    let a = lowercase(r.entries@[k].name@);
    let b = lowercase(r.entries@[l].name@);
    assert(keys[order[k] as int] == a && keys[order[l] as int] == b);
    text_less_irreflexive(a);
    if text_less(a, b) && text_less(b, a) {
        text_less_transitive(a, b, a);
    }
}

/// The picker puts the folders in the order of their names in lower case, and leaves those whose names
/// are then the same in the order in which it found them: `order` says from where each came.
pub proof fn picker_keeps_the_order_of_same_names(entries: Seq<DirEntryInfoView>, sorted: Seq<DirEntryInfoView>)
    requires
        is_browse_order(entries, sorted),
    ensures
        exists|order: Seq<usize>| {
            &&& #[trigger] is_reordered(entries, sorted, order)
            &&& order.len() == entries.len()
            &&& forall|k: int|
                0 <= k < order.len() ==> #[trigger] order[k] < entries.len() && sorted[k] == entries[order[k] as int]
            &&& forall|k: int, l: int|
                0 <= k < l < order.len() ==> text_less(
                    lowercase(entries[#[trigger] order[k] as int].name),
                    lowercase(entries[#[trigger] order[l] as int].name),
                ) || (lowercase(entries[order[k] as int].name) == lowercase(entries[order[l] as int].name) && order[k]
                    < order[l])
        },
{
    let keys = browse_keys(entries);
    let order = choose|order: Seq<usize>| #[trigger]
        is_stable_order(keys, order) && is_reordered(entries, sorted, order);
    assert forall|k: int| 0 <= k < order.len() implies #[trigger] order[k] < entries.len() && sorted[k]
        == entries[order[k] as int] by {
        assert(0 <= order[k] < keys.len());
        assert(sorted[k] == entries[order[k] as int]);
    }
    assert forall|k: int, l: int| 0 <= k < l < order.len() implies text_less(
        lowercase(entries[#[trigger] order[k] as int].name),
        lowercase(entries[#[trigger] order[l] as int].name),
    ) || (lowercase(entries[order[k] as int].name) == lowercase(entries[order[l] as int].name) && order[k] < order[l]) by {
        stable_order_by_key(keys, order, k, l);
    }
}

proof fn shown_count_is_bounded(found: Seq<Found>)
    ensures
        shown_count(found) <= found.len(),
    decreases found.len(),
{
    if found.len() > 0 {
        shown_count_is_bounded(found.drop_last());
    }
}

} // verus!
