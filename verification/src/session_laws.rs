//! What the opening of a folder comes to, for every folder.

use vstd::prelude::*;

use crate::listing::EntryView;
use crate::session::{session_of, sort_stage, BuildReplyView, BuildStage, BuildState};
use crate::sort_laws::{
    actions_left, carried_out, entry_names, every_reply_brings_the_end_closer,
    plan_holds_what_moves, sorted, Folder,
};
use crate::sorting::{first_error, folder_key, plan, read_entries, SortAction, SortState};

verus! {

/// How many actions the opening of a folder has left at most, behind its first.
pub open spec fn opening_left(b: BuildState) -> int {
    match b.stage {
        BuildStage::Sort(s) => actions_left(s) + 3,
        BuildStage::List(_) => 2,
        BuildStage::Cache(_, _) => 1,
        _ => 0,
    }
}

/// The sort at hand, if there is one, is as a sort must be.
pub open spec fn opening_wf(b: BuildState) -> bool {
    b.stage matches BuildStage::Sort(s) ==> s.wf() && s.action() != SortAction::Finished
}

/// The opening of a folder carried out to its end, from behind its first listing, whose names
/// are `names`. `again` is the second listing, and `cache` what comes of making the folder of the
/// thumbnails.
pub open spec fn opened(
    b: BuildState,
    names: Seq<Seq<char>>,
    w: Folder,
    again: Seq<EntryView>,
    cache: Result<(), Seq<char>>,
) -> (BuildState, Folder)
    decreases opening_left(b),
    when opening_wf(b)
    via opening_ends
{
    match b.stage {
        BuildStage::Sort(s) => opened(
            b.step(BuildReplyView::Sort(w.answer(names, s.action()))),
            names,
            w.after(names, s.action()),
            again,
            cache,
        ),
        BuildStage::List(_) => opened(b.step(BuildReplyView::Listed(again)), names, w, again, cache),
        BuildStage::Cache(_, _) => opened(
            b.step(BuildReplyView::Cached(cache)),
            names,
            w,
            again,
            cache,
        ),
        _ => (b, w),
    }
}

#[via_fn]
proof fn opening_ends(
    b: BuildState,
    names: Seq<Seq<char>>,
    w: Folder,
    again: Seq<EntryView>,
    cache: Result<(), Seq<char>>,
) {
    if let BuildStage::Sort(s) = b.stage {
        every_reply_brings_the_end_closer(s, w.answer(names, s.action()));
    }
}

proof fn opening_sorts(
    b: BuildState,
    s: SortState,
    names: Seq<Seq<char>>,
    w: Folder,
    again: Seq<EntryView>,
    cache: Result<(), Seq<char>>,
)
    requires
        s.wf(),
        b.stage == sort_stage(s),
    ensures
        ({
            let (t, v) = carried_out(s, names, w);
            &&& opened(b, names, w, again, cache) == opened(
                BuildState { stage: sort_stage(t), ..b },
                names,
                v,
                again,
                cache,
            )
            &&& t.action() == SortAction::Finished
        }),
    decreases actions_left(s),
{
    if s.action() != SortAction::Finished {
        let r = w.answer(names, s.action());
        every_reply_brings_the_end_closer(s, r);
        opening_sorts(
            b.step(BuildReplyView::Sort(r)),
            s.step(r),
            names,
            w.after(names, s.action()),
            again,
            cache,
        );
    } else {
        assert(b == BuildState { stage: sort_stage(s), ..b });
    }
}

/// What the opening of a folder comes to, from a first listing that could be read: the folder
/// is sorted. Where the sort fails, so does the opening, with the same; where the folder of the
/// thumbnails cannot be made, with the reason for that. Else the folder is open, with the
/// subfolders that its second listing shows and the report of the sort.
pub proof fn opening_outcome(
    root: Seq<char>,
    root_name: Option<Seq<char>>,
    items: Seq<Result<EntryView, Seq<char>>>,
    w: Folder,
    again: Seq<EntryView>,
    cache: Result<(), Seq<char>>,
)
    requires
        items.len() <= usize::MAX,
        first_error(items) is None,
    ensures
        ({
            let entries = read_entries(items);
            let (s, v) = sorted(folder_key(root_name), entries, w);
            let b = BuildState::start(root, root_name).step(BuildReplyView::Scanned(Ok(items)));
            let (t, u) = opened(b, entry_names(entries), w, again, cache);
            &&& u == v
            &&& match (s.failure, cache) {
                (Some(e), _) => t.stage == BuildStage::Failed(e),
                (None, Err(e)) => t.stage == BuildStage::Failed(e),
                (None, Ok(_)) => t.stage == BuildStage::Built(session_of(root, again), s.report),
            }
        }),
{
    let entries = read_entries(items);
    let names = entry_names(entries);
    let s = SortState::start(plan(folder_key(root_name), entries));
    let b = BuildState::start(root, root_name).step(BuildReplyView::Scanned(Ok(items)));
    plan_holds_what_moves(folder_key(root_name), entries);
    opening_sorts(b, s, names, w, again, cache);
    let (t, v) = carried_out(s, names, w);
    let b1 = BuildState { stage: sort_stage(t), ..b };
    if t.failure is None {
        let b2 = b1.step(BuildReplyView::Listed(again));
        assert(opened(b1, names, v, again, cache) == opened(b2, names, v, again, cache));
        let b3 = b2.step(BuildReplyView::Cached(cache));
        assert(opened(b2, names, v, again, cache) == opened(b3, names, v, again, cache));
    }
}

} // verus!
