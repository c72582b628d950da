//! How the list of photos changes: not at all when the folder is opened again, and by one photo when
//! that is deleted.

use vstd::prelude::*;
use vstd::seq_lib::group_to_multiset_ensures;

use crate::delete::DeleteState;
use crate::delete_laws::{deleted, deletion_takes_one_photo, folders_differ, Disk};
use crate::listing::{
    jpeg_dir_names, raw_dir_names, subdir_index, subdir_index_is_first, subdir_is_found,
    video_dir_names, EntryKind, EntryView,
};
use crate::order::{
    filter_of_multiset, is_sorted, sorted_texts_are_unique, string_texts, text_less,
};
use crate::photos::{is_photo_name, lists_photos, photo_list_is_unique, PhotosResponse};
use crate::reply::PlaceView;
use crate::session::{session_of, subdir_name, BuildReplyView, BuildStage, BuildState, SessionView};
use crate::session_laws::{opened, opening_outcome};
use crate::sort_laws::{entry_names, sort_is_idempotent, sorted, Folder};
use crate::sorting::{first_error, folder_key, no_moves, read_entries};
use crate::text::{is_component, lowercase};

verus! {

/// The names are those of a folder that holds `held`, each once.
pub open spec fn lists_names(names: Seq<Seq<char>>, held: Set<Seq<char>>) -> bool {
    names.no_duplicates() && forall|n: Seq<char>| #[trigger] names.contains(n) <==> held.contains(n)
}

/// Listings of a folder differ in their order only.
proof fn same_names(a: Seq<Seq<char>>, b: Seq<Seq<char>>, held: Set<Seq<char>>)
    requires
        lists_names(a, held),
        lists_names(b, held),
    ensures
        a.to_multiset() == b.to_multiset(),
{
    broadcast use group_to_multiset_ensures;

    a.lemma_multiset_has_no_duplicates();
    b.lemma_multiset_has_no_duplicates();
    assert forall|x: Seq<char>| a.to_multiset().count(x) == b.to_multiset().count(x) by {
        assert(a.to_multiset().contains(x) <==> a.contains(x));
        assert(b.to_multiset().contains(x) <==> b.contains(x));
    }
    assert(a.to_multiset() =~= b.to_multiset());
}

/// What stays of a sorted list is sorted.
proof fn filter_keeps_sorted(s: Seq<Seq<char>>, f: spec_fn(Seq<char>) -> bool)
    requires
        is_sorted(s),
    ensures
        is_sorted(s.filter(f)),
        forall|k: int| 0 <= k < s.filter(f).len() ==> s.contains(#[trigger] s.filter(f)[k]),
    decreases s.len(),
{
    reveal(Seq::filter);
    if s.len() > 0 {
        let t = s.drop_last();
        filter_keeps_sorted(t, f);
        assert forall|k: int| 0 <= k < s.filter(f).len() implies s.contains(#[trigger] s.filter(f)[k]) by {
            if k < t.filter(f).len() {
                let i = choose|i: int| 0 <= i < t.len() && t[i] == t.filter(f)[k];
                assert(s[i] == s.filter(f)[k]);
            } else {
                assert(s[s.len() - 1] == s.filter(f)[k]);
            }
        }
        if f(s.last()) {
            let r = s.filter(f);
            assert(r == t.filter(f).push(s.last()));
            assert forall|k: int, l: int| 0 <= k < l < r.len() implies !text_less(
                #[trigger] r[l],
                #[trigger] r[k],
            ) by {
                if l < t.filter(f).len() {
                    assert(r[l] == t.filter(f)[l] && r[k] == t.filter(f)[k]);
                } else {
                    assert(t.contains(t.filter(f)[k]));
                    let i = choose|i: int| 0 <= i < t.len() && t[i] == t.filter(f)[k];
                    assert(s[i] == r[k] && s[s.len() - 1] == r[l]);
                }
            }
        }
    }
}

/// The names of what a folder of the opened one holds.
pub open spec fn held_in(w: Disk, dir: Seq<char>) -> Set<Seq<char>> {
    Set::new(|n: Seq<char>| w.has(PlaceView { dir, name: n }))
}

/// After a deletion that was not refused the list of photos is the one from before without the
/// deleted photo: all others are on it, in the same order, and all else that is answered stays the
/// same. `names` and `later` are the listings of the folder of photos before and after.
pub proof fn photo_list_after_deletion(
    session: SessionView,
    name: Seq<char>,
    w: Disk,
    names: Seq<Seq<char>>,
    later: Seq<Seq<char>>,
    a: PhotosResponse,
    b: PhotosResponse,
)
    requires
        folders_differ(session),
        is_component(name),
        deleted(DeleteState::start(session, name), w).0.stage is Done,
        lists_names(names, held_in(w, session.jpeg_dir)),
        lists_names(later, held_in(deleted(DeleteState::start(session, name), w).1, session.jpeg_dir)),
        lists_photos(a, session, names),
        lists_photos(b, session, later),
    ensures
        string_texts(b.files@) == string_texts(a.files@).filter(|n: Seq<char>| n != name),
        b.loaded == a.loaded,
        b.root@ == a.root@,
        b.raw_available == a.raw_available,
        b.video_available == a.video_available,
{
    broadcast use group_to_multiset_ensures;

    let v = deleted(DeleteState::start(session, name), w).1;
    let other = |n: Seq<char>| n != name;
    let photo = |n: Seq<char>| is_photo_name(n);
    let before = string_texts(a.files@);
    names.lemma_multiset_has_no_duplicates();
    later.lemma_multiset_has_no_duplicates();
    assert forall|n: Seq<char>| later.to_multiset().count(n) == names.to_multiset().filter(other).count(n) by {
        deletion_takes_one_photo(session, name, w, n);
        assert(held_in(v, session.jpeg_dir).contains(n) <==> held_in(w, session.jpeg_dir).contains(n) && n != name);
        assert(later.to_multiset().contains(n) <==> later.contains(n));
        assert(names.to_multiset().contains(n) <==> names.contains(n));
    }
    assert(later.to_multiset() =~= names.to_multiset().filter(other));
    filter_of_multiset(names, photo);
    filter_of_multiset(later, photo);
    filter_of_multiset(before, other);
    assert(before.filter(other).to_multiset() =~= string_texts(b.files@).to_multiset());
    filter_keeps_sorted(before, other);
    sorted_texts_are_unique(before.filter(other), string_texts(b.files@));
}

/// The folder has one subfolder at most with one of the names, whatever the case of its letters.
pub open spec fn has_one_at_most(w: Folder, names: Seq<Seq<char>>) -> bool {
    forall|d: Seq<char>, e: Seq<char>| #[trigger]
        w.subs.dom().contains(d) && #[trigger] w.subs.dom().contains(e) && names.contains(lowercase(d))
            && names.contains(lowercase(e)) ==> d == e
}

/// The listing shows the subfolders of the folder that have one of the names, and the types of its
/// entries can all be told.
pub open spec fn shows_subfolders(w: Folder, entries: Seq<EntryView>, names: Seq<Seq<char>>) -> bool {
    &&& forall|i: int| 0 <= i < entries.len() ==> (#[trigger] entries[i]).kind != EntryKind::Unknown
    &&& forall|i: int|
        0 <= i < entries.len() && (#[trigger] entries[i]).kind == EntryKind::Dir && names.contains(
            lowercase(entries[i].name),
        ) ==> w.subs.dom().contains(entries[i].name)
    &&& forall|d: Seq<char>| #[trigger]
        w.subs.dom().contains(d) && names.contains(lowercase(d)) ==> exists|i: int|
            0 <= i < entries.len() && (#[trigger] entries[i]).kind == EntryKind::Dir && entries[i].name == d
}

proof fn subfolder_found(w: Folder, entries: Seq<EntryView>, names: Seq<Seq<char>>)
    requires
        shows_subfolders(w, entries, names),
    ensures
        match subdir_name(entries, names) {
            Some(d) => w.subs.dom().contains(d) && names.contains(lowercase(d)),
            None => forall|d: Seq<char>| #[trigger]
                w.subs.dom().contains(d) ==> !names.contains(lowercase(d)),
        },
{
    match subdir_index(entries, names) {
        Some(i) => {
            subdir_index_is_first(entries, names);
        },
        None => {
            assert forall|d: Seq<char>| #[trigger]
                w.subs.dom().contains(d) implies !names.contains(lowercase(d)) by {
                if names.contains(lowercase(d)) {
                    let i = choose|i: int|
                        0 <= i < entries.len() && (#[trigger] entries[i]).kind == EntryKind::Dir
                            && entries[i].name == d;
                    subdir_is_found(entries, names, i);
                }
            }
        },
    }
}

/// Where there is one at most, every listing shows the same.
proof fn same_subfolder(w: Folder, a: Seq<EntryView>, b: Seq<EntryView>, names: Seq<Seq<char>>)
    requires
        has_one_at_most(w, names),
        shows_subfolders(w, a, names),
        shows_subfolders(w, b, names),
    ensures
        subdir_name(a, names) == subdir_name(b, names),
{
    subfolder_found(w, a, names);
    subfolder_found(w, b, names);
}

/// The listing shows the subfolders that an opening looks for.
pub open spec fn shows_media_folders(w: Folder, entries: Seq<EntryView>) -> bool {
    &&& shows_subfolders(w, entries, jpeg_dir_names())
    &&& shows_subfolders(w, entries, raw_dir_names())
    &&& shows_subfolders(w, entries, video_dir_names())
}

/// Every listing of a folder with one subfolder at most for each kind gives the same opened folder.
pub proof fn session_is_unique(root: Seq<char>, w: Folder, a: Seq<EntryView>, b: Seq<EntryView>)
    requires
        has_one_at_most(w, jpeg_dir_names()),
        has_one_at_most(w, raw_dir_names()),
        has_one_at_most(w, video_dir_names()),
        shows_media_folders(w, a),
        shows_media_folders(w, b),
    ensures
        session_of(root, a) == session_of(root, b),
{
    same_subfolder(w, a, b, jpeg_dir_names());
    same_subfolder(w, a, b, raw_dir_names());
    same_subfolder(w, a, b, video_dir_names());
}

/// The opening of a folder from its first listing to its end: what it comes to, and the folder
/// then. `again` is the second listing; the folder of the thumbnails can be made.
pub open spec fn opened_from(
    root: Seq<char>,
    root_name: Option<Seq<char>>,
    items: Seq<Result<EntryView, Seq<char>>>,
    w: Folder,
    again: Seq<EntryView>,
) -> (BuildState, Folder) {
    opened(
        BuildState::start(root, root_name).step(BuildReplyView::Scanned(Ok(items))),
        entry_names(read_entries(items)),
        w,
        again,
        Ok(()),
    )
}

/// Opening a folder again that was opened before, and that nothing has touched since, moves nothing
/// and gives the same opened folder, with a report of no moves and the same list of photos: if there
/// is one subfolder at most for each kind. `items` and `later_items` are what the two openings
/// first list, `again` and `later_again` what they list behind the sort, and `names` and `later_names`
/// the listings of the folder of photos behind each.
pub proof fn opening_again_changes_nothing(
    root: Seq<char>,
    root_name: Option<Seq<char>>,
    w: Folder,
    items: Seq<Result<EntryView, Seq<char>>>,
    again: Seq<EntryView>,
    later_items: Seq<Result<EntryView, Seq<char>>>,
    later_again: Seq<EntryView>,
    names: Seq<Seq<char>>,
    later_names: Seq<Seq<char>>,
    a: PhotosResponse,
    b: PhotosResponse,
)
    requires
        items.len() <= usize::MAX,
        later_items.len() <= usize::MAX,
        first_error(items) is None,
        first_error(later_items) is None,
        w.is_listed(read_entries(items)),
        opened_from(root, root_name, items, w, again).0.stage is Built,
        ({
            let v = opened_from(root, root_name, items, w, again).1;
            let jpeg_dir = session_of(root, again).jpeg_dir;
            let held = Set::new(|n: Seq<char>| v.holds(jpeg_dir, n));
            &&& v.is_listed(read_entries(later_items))
            &&& has_one_at_most(v, jpeg_dir_names())
            &&& has_one_at_most(v, raw_dir_names())
            &&& has_one_at_most(v, video_dir_names())
            &&& shows_media_folders(v, again)
            &&& shows_media_folders(v, later_again)
            &&& lists_names(names, held)
            &&& lists_names(later_names, held)
        }),
        lists_photos(a, session_of(root, again), names),
        lists_photos(b, session_of(root, later_again), later_names),
    ensures
        ({
            let (s, v) = opened_from(root, root_name, items, w, again);
            let (t, u) = opened_from(root, root_name, later_items, v, later_again);
            &&& u == v
            &&& s.stage matches BuildStage::Built(session, _) && t.stage == BuildStage::Built(
                session,
                no_moves(),
            )
        }),
        string_texts(b.files@) == string_texts(a.files@),
        b.loaded == a.loaded,
        b.root@ == a.root@,
        b.raw_available == a.raw_available,
        b.video_available == a.video_available,
{
    let folder = folder_key(root_name);
    let entries = read_entries(items);
    let later = read_entries(later_items);
    let (s, v) = opened_from(root, root_name, items, w, again);
    let jpeg_dir = session_of(root, again).jpeg_dir;
    opening_outcome(root, root_name, items, w, again, Ok(()));
    opening_outcome(root, root_name, later_items, v, later_again, Ok(()));
    assert(v == sorted(folder, entries, w).1);
    sort_is_idempotent(folder, entries, w, later);
    session_is_unique(root, v, again, later_again);
    same_names(names, later_names, Set::new(|n: Seq<char>| v.holds(jpeg_dir, n)));
    photo_list_is_unique(a, b, session_of(root, again), names, later_names);
}

} // verus!
