//! Which files a sort moves, where to, and how it goes about it.

use vstd::prelude::*;

use crate::listing::{EntryKind, EntryView};
use crate::media::{ext_category, name_category, Category};
use crate::media_laws::{dirs_of_the_kinds, kind_of_an_extension};
use crate::sort_laws::{
    is_filed, sort_keeps_every_file, sort_moves_what_is_planned, sorted, Folder,
};
use crate::sorting::{
    first_error, folder_key, no_moves, plan, planned, read_entries, sort_plan, Move, SortAction,
    SortReplyView, SortState,
};
use crate::text::lowercase;
use crate::text_laws::name_of_stem_and_extension;

verus! {

/// A regular file of a kind is to be moved under its kind, unless the folder is that of the kind;
/// nothing else is to be moved.
pub proof fn what_is_planned(folder: Seq<char>, e: EntryView, c: Category)
    ensures
        e.kind != EntryKind::File ==> planned(folder, e) is None,
        name_category(e.name) is None ==> planned(folder, e) is None,
        e.kind == EntryKind::File && name_category(e.name) == Some(c) && folder != c.dir() ==> planned(folder, e)
            == Some(c),
        e.kind == EntryKind::File && name_category(e.name) == Some(c) && folder == c.dir() ==> planned(folder, e)
            is None,
{
}

/// The plan follows the listing: no entry is planned twice, nor before one that is listed before it.
pub proof fn plan_follows_the_listing(folder: Seq<char>, entries: Seq<EntryView>)
    requires
        entries.len() <= usize::MAX,
    ensures
        plan(folder, entries).len() <= entries.len(),
        forall|k: int| 0 <= k < plan(folder, entries).len() ==> (#[trigger] plan(folder, entries)[k]).entry < entries.len(),
        forall|k: int, l: int|
            0 <= k < l < plan(folder, entries).len() ==> (#[trigger] plan(folder, entries)[k]).entry < (
            #[trigger] plan(folder, entries)[l]).entry,
    decreases entries.len(),
{
    if entries.len() > 0 {
        let before = entries.drop_last();
        plan_follows_the_listing(folder, before);
        let p = plan(folder, before);
        let q = plan(folder, entries);
        assert forall|k: int| 0 <= k < q.len() implies (#[trigger] q[k]).entry < entries.len() by {
            if k < p.len() {
                assert(q[k] == p[k]);
            }
        }
        assert forall|k: int, l: int| 0 <= k < l < q.len() implies (#[trigger] q[k]).entry < (#[trigger] q[l]).entry by {
            assert(q[k] == p[k]);
            if l < p.len() {
                assert(q[l] == p[l]);
            }
        }
    }
}

/// A folder is told to be that of a kind by its own name in lower case; the root has no name.
pub proof fn folder_goes_by_its_name(n: Seq<char>)
    ensures
        folder_key(Some(n)) == lowercase(n),
        folder_key(None).len() == 0,
{
}

/// A folder that cannot be listed is not sorted: the sort fails with the reason, behind the folder's
/// path.
pub proof fn unlisted_folder_fails(root: Seq<char>, root_name: Option<Seq<char>>, e: Seq<char>)
    ensures
        sort_plan(root, root_name, Err(e)) == Err::<Seq<Move>, Seq<char>>("read "@ + root + ": "@ + e),
{
}

/// The first item of a listing that cannot be read is what the sort fails with.
pub proof fn first_unread_item_fails(
    root: Seq<char>,
    root_name: Option<Seq<char>>,
    items: Seq<Result<EntryView, Seq<char>>>,
    i: int,
    e: Seq<char>,
)
    requires
        0 <= i < items.len(),
        forall|k: int| 0 <= k < i ==> (#[trigger] items[k]) is Ok,
        items[i] == Err::<EntryView, Seq<char>>(e),
    ensures
        first_error(items) == Some(e),
        sort_plan(root, root_name, Ok(items)) == Err::<Seq<Move>, Seq<char>>(e),
    decreases i,
{
    if i > 0 {
        assert(items[0] is Ok);
        let rest = items.drop_first();
        assert forall|k: int| 0 <= k < i - 1 implies (#[trigger] rest[k]) is Ok by {
            assert(rest[k] == items[k + 1]);
        }
        assert(rest[i - 1] == items[i]);
        first_unread_item_fails(root, root_name, rest, i - 1, e);
    }
}

/// A listing of which every item could be read is sorted: an entry is to be moved exactly where it is
/// planned to be under the folder's own name.
pub proof fn read_listing_is_planned(root: Seq<char>, root_name: Option<Seq<char>>, entries: Seq<EntryView>)
    ensures
        ({
            let items = entries.map_values(|e: EntryView| Ok::<EntryView, Seq<char>>(e));
            &&& first_error(items) is None
            &&& read_entries(items) == entries
            &&& sort_plan(root, root_name, Ok(items)) == Ok::<Seq<Move>, Seq<char>>(
                plan(folder_key(root_name), entries),
            )
        }),
{
    let items = entries.map_values(|e: EntryView| Ok::<EntryView, Seq<char>>(e));
    assert(read_entries(items) =~= entries);
    no_first_error(items);
}

proof fn no_first_error(items: Seq<Result<EntryView, Seq<char>>>)
    requires
        forall|k: int| 0 <= k < items.len() ==> (#[trigger] items[k]) is Ok,
    ensures
        first_error(items) is None,
    decreases items.len(),
{
    if items.len() > 0 {
        assert(items[0] is Ok);
        no_first_error(items.drop_first());
    }
}

/// A sort begins with its first move, with nothing moved yet; without moves it is at its end.
pub proof fn sort_begins(moves: Seq<Move>)
    ensures
        moves.len() == 0 ==> SortState::start(moves).action() == SortAction::Finished,
        moves.len() > 0 ==> SortState::start(moves).action() == SortAction::MakeDir(moves[0].category),
        SortState::start(moves).report.jpegs == 0,
        SortState::start(moves).report.raws == 0,
        SortState::start(moves).report.videos == 0,
        SortState::start(moves).failure is None,
        no_moves() == SortState::start(moves).report,
{
}

/// The next move of a sort, or its end.
pub open spec fn next_move(s: SortState, k: int) -> SortAction {
    if k < s.moves.len() {
        SortAction::MakeDir(s.moves[k].category)
    } else {
        SortAction::Finished
    }
}

/// A sort takes one move after the other: the subfolder of the kind is made, its name is tried, the
/// file is moved. It goes on to the next move when the name is taken and when the file was moved or
/// could not be; it ends, with the reason, when the subfolder cannot be made. Only a file that was
/// moved is counted, under its kind.
pub proof fn sort_goes_move_by_move(s: SortState, reply: SortReplyView)
    requires
        s.wf(),
        s.failure is None,
        s.next < s.moves.len(),
    ensures
        ({
            let m = s.moves[s.next];
            let t = s.step(reply);
            &&& t.moves == s.moves
            &&& s.action() == SortAction::MakeDir(m.category) || s.action() == SortAction::Probe(m) || s.action()
                == SortAction::Rename(m)
            &&& s.action() == SortAction::MakeDir(m.category) && reply == SortReplyView::Made(Ok(())) ==> t.action()
                == SortAction::Probe(m) && t.report == s.report && t.failure is None
            &&& s.action() == SortAction::MakeDir(m.category) ==> (reply matches SortReplyView::Made(Err(e))
                ==> t.action() == SortAction::Finished && t.failure == Some(e) && t.report == s.report)
            &&& s.action() == SortAction::Probe(m) && reply == SortReplyView::Probed(false) ==> t.action()
                == SortAction::Rename(m) && t.report == s.report && t.failure is None
            &&& s.action() == SortAction::Probe(m) && reply == SortReplyView::Probed(true) ==> t.action() == next_move(
                s,
                s.next + 1,
            ) && t.next == s.next + 1 && t.report == s.report && t.failure is None
            &&& s.action() == SortAction::Rename(m) && reply == SortReplyView::Renamed(false) ==> t.action()
                == next_move(s, s.next + 1) && t.next == s.next + 1 && t.report == s.report && t.failure is None
            &&& s.action() == SortAction::Rename(m) && reply == SortReplyView::Renamed(true) ==> {
                &&& t.action() == next_move(s, s.next + 1)
                &&& t.next == s.next + 1
                &&& t.failure is None
                &&& t.report.jpegs == s.report.jpegs + (if m.category == Category::Jpeg { 1int } else { 0int })
                &&& t.report.raws == s.report.raws + (if m.category == Category::Raw { 1int } else { 0int })
                &&& t.report.videos == s.report.videos + (if m.category == Category::Video { 1int } else { 0int })
            }
        }),
{
}

/// A sort that is at its end stays there, and a reply to something that it did not ask for changes
/// nothing.
pub proof fn sort_takes_answers_only(s: SortState, reply: SortReplyView)
    ensures
        s.action() == SortAction::Finished ==> s.step(reply) == s,
        s.failure is Some ==> s.action() == SortAction::Finished,
        s.action() is MakeDir && !(reply is Made) ==> s.step(reply) == s,
        s.action() is Probe && !(reply is Probed) ==> s.step(reply) == s,
        s.action() is Rename && !(reply is Renamed) ==> s.step(reply) == s,
{
}

/// Files with the lowercase extension belong in the subfolder.
pub open spec fn belongs_in(e: Seq<char>, d: Seq<char>) -> bool {
    ||| d == "jpegs"@ && (e == "jpg"@ || e == "jpeg"@)
    ||| d == "raws"@ && (e == "arw"@ || e == "cr2"@ || e == "cr3"@ || e == "nef"@ || e == "dng"@ || e == "raf"@ || e
        == "orf"@ || e == "rw2"@ || e == "srw"@ || e == "pef"@ || e == "x3f"@)
    ||| d == "videos"@ && (e == "mp4"@ || e == "mov"@ || e == "m4v"@ || e == "avi"@ || e == "mts"@ || e == "m2ts"@ || e
        == "mkv"@ || e == "3gp"@ || e == "wmv"@ || e == "webm"@)
}

/// A loose file is in the subfolder that its extension belongs in after a sort that did not fail,
/// with what it held, and is loose no more: unless its name is taken there, it cannot be
/// moved, or the folder is itself that of the kind. Then it stays as it is.
pub proof fn loose_file_goes_where_it_belongs(
    folder: Seq<char>,
    entries: Seq<EntryView>,
    w: Folder,
    stem: Seq<char>,
    ext: Seq<char>,
    d: Seq<char>,
)
    requires
        entries.len() <= usize::MAX,
        w.is_listed(entries),
        sorted(folder, entries, w).0.failure is None,
        stem.len() > 0,
        !ext.contains('.'),
        !(stem == seq!['.'] && ext.len() == 0),
        belongs_in(lowercase(ext), d),
        w.files.dom().contains(stem + seq!['.'] + ext),
    ensures
        ({
            let n = stem + seq!['.'] + ext;
            let v = sorted(folder, entries, w).1;
            if w.holds(d, n) || w.stuck.contains(n) || folder == d {
                v.files.dom().contains(n) && v.files[n] == w.files[n]
            } else {
                !v.files.dom().contains(n) && v.holds(d, n) && v.subs[d][n] == w.files[n]
            }
        }),
{
    let n = stem + seq!['.'] + ext;
    let v = sorted(folder, entries, w).1;
    dirs_of_the_kinds();
    sort_keeps_every_file(folder, entries, w);
    sort_moves_what_is_planned(folder, entries, w);
    let e = EntryView { name: n, kind: EntryKind::File };
    name_of_stem_and_extension(stem, ext);
    kinds_and_dirs_agree(lowercase(ext), d);
    let c = name_category(n)->0;
    what_is_planned(folder, e, c);
    if !v.files.dom().contains(n) {
        assert(is_filed(w, v, n));
    }
}

proof fn kinds_and_dirs_agree(e: Seq<char>, d: Seq<char>)
    requires
        belongs_in(e, d),
    ensures
        ext_category(e) matches Some(c) && c.dir() == d,
{
    kind_of_an_extension(e);
}

/// A loose file without one of these extensions stays loose, as it is.
pub proof fn other_file_stays(folder: Seq<char>, entries: Seq<EntryView>, w: Folder, n: Seq<char>)
    requires
        entries.len() <= usize::MAX,
        w.is_listed(entries),
        sorted(folder, entries, w).0.failure is None,
        w.files.dom().contains(n),
        name_category(n) is None,
    ensures
        sorted(folder, entries, w).1.files.dom().contains(n),
        sorted(folder, entries, w).1.files[n] == w.files[n],
{
    sort_keeps_every_file(folder, entries, w);
    sort_moves_what_is_planned(folder, entries, w);
    assert(w.files.dom().contains(n));
    assert(!is_filed(w, sorted(folder, entries, w).1, n));
}

} // verus!
