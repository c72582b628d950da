//! What a sort does to a folder, for every folder and every listing of it.
//!
//! A [`Folder`] is the part of a file system that a sort touches. What the sort wants done is
//! done to it, as far as it can be, and the sort is told the truth about it.

use vstd::prelude::*;

use crate::listing::{EntryKind, EntryView};
use crate::media::{category_dirs_differ, name_category, Category};
use crate::sorting::{
    no_moves, plan, planned, Move, SortAction, SortReplyView, SortReport, SortState, Stage,
};

verus! {

/// A folder: its loose regular files and its subfolders by name, each file with a number that
/// stands for what it holds; the names of the loose files that cannot be moved; the names under
/// which no subfolder can be made; and what an attempt at that is answered.
pub struct Folder {
    pub files: Map<Seq<char>, int>,
    pub subs: Map<Seq<char>, Map<Seq<char>, int>>,
    pub stuck: Set<Seq<char>>,
    pub blocked: Set<Seq<char>>,
    pub refusal: Seq<char>,
}

/// The names of a listing.
pub open spec fn entry_names(entries: Seq<EntryView>) -> Seq<Seq<char>> {
    entries.map_values(|e: EntryView| e.name)
}

impl Folder {
    /// The subfolder holds something under the name.
    pub open spec fn holds(self, dir: Seq<char>, name: Seq<char>) -> bool {
        self.subs.dom().contains(dir) && self.subs[dir].dom().contains(name)
    }

    /// There is a loose file with the name, and it can be moved.
    pub open spec fn movable(self, name: Seq<char>) -> bool {
        self.files.dom().contains(name) && !self.stuck.contains(name)
    }

    /// The listing is one of this folder: it has each name once, and its regular files are the
    /// folder's.
    pub open spec fn is_listed(self, entries: Seq<EntryView>) -> bool {
        &&& forall|i: int, j: int|
            0 <= i < j < entries.len() ==> (#[trigger] entries[i]).name != (#[trigger] entries[j]).name
        &&& forall|i: int|
            0 <= i < entries.len() && (#[trigger] entries[i]).kind == EntryKind::File
                ==> self.files.dom().contains(entries[i].name)
        &&& forall|n: Seq<char>| #[trigger]
            self.files.dom().contains(n) ==> exists|i: int|
                0 <= i < entries.len() && (#[trigger] entries[i]).kind == EntryKind::File && entries[i].name == n
    }

    /// What the sort is told after its action on this folder. `names` are those of the listing
    /// that the sort was planned from.
    pub open spec fn answer(self, names: Seq<Seq<char>>, action: SortAction) -> SortReplyView {
        match action {
            SortAction::MakeDir(c) => if self.subs.dom().contains(c.dir()) || !self.blocked.contains(c.dir()) {
                SortReplyView::Made(Ok(()))
            } else {
                SortReplyView::Made(Err(self.refusal))
            },
            SortAction::Probe(m) => SortReplyView::Probed(
                self.holds(m.category.dir(), names[m.entry as int]),
            ),
            SortAction::Rename(m) => SortReplyView::Renamed(
                self.movable(names[m.entry as int]) && self.subs.dom().contains(m.category.dir()),
            ),
            SortAction::Finished => SortReplyView::Probed(false),
        }
    }

    /// The folder after the sort's action on it. A file that is moved replaces whatever has its
    /// name where it goes.
    pub open spec fn after(self, names: Seq<Seq<char>>, action: SortAction) -> Folder {
        match action {
            SortAction::MakeDir(c) => if self.subs.dom().contains(c.dir()) || self.blocked.contains(c.dir()) {
                self
            } else {
                Folder { subs: self.subs.insert(c.dir(), Map::empty()), ..self }
            },
            SortAction::Rename(m) => {
                let n = names[m.entry as int];
                let d = m.category.dir();
                if self.movable(n) && self.subs.dom().contains(d) {
                    Folder {
                        files: self.files.remove(n),
                        subs: self.subs.insert(d, self.subs[d].insert(n, self.files[n])),
                        ..self
                    }
                } else {
                    self
                }
            },
            _ => self,
        }
    }

    /// The loose files of a kind that are loose no more in the folder `later`.
    pub open spec fn gone(self, later: Folder, c: Category) -> Set<Seq<char>> {
        Set::new(
            |n: Seq<char>|
                self.files.dom().contains(n) && !later.files.dom().contains(n) && name_category(n) == Some(c),
        )
    }
}

impl SortReport {
    /// How many files of a kind were moved.
    pub open spec fn of(self, c: Category) -> nat {
        match c {
            Category::Jpeg => self.jpegs as nat,
            Category::Raw => self.raws as nat,
            Category::Video => self.videos as nat,
        }
    }
}

/// How many actions a sort has left at most.
pub open spec fn actions_left(s: SortState) -> int {
    if s.action() == SortAction::Finished {
        0
    } else {
        3 * (s.moves.len() - s.next) - (match s.stage {
            Stage::MakeDir => 0int,
            Stage::Probe => 1int,
            Stage::Rename => 2int,
        })
    }
}

/// The sort carried out on a folder to its end.
pub open spec fn carried_out(s: SortState, names: Seq<Seq<char>>, w: Folder) -> (SortState, Folder)
    decreases actions_left(s),
{
    if s.action() == SortAction::Finished {
        (s, w)
    } else {
        carried_out(s.step(w.answer(names, s.action())), names, w.after(names, s.action()))
    }
}

/// A sort of a folder, from the plan after its listing to the end. `folder` is the folder's own
/// name in lower case.
pub open spec fn sorted(folder: Seq<char>, entries: Seq<EntryView>, w: Folder) -> (SortState, Folder) {
    carried_out(SortState::start(plan(folder, entries)), entry_names(entries), w)
}

/// A move is asked for only right after the folder was found to hold nothing under the
/// file's name where it goes, whatever else happens to the folder.
pub proof fn moves_only_to_a_free_name(s: SortState, reply: SortReplyView, m: Move)
    requires
        s.step(reply) != s,
        s.step(reply).action() == SortAction::Rename(m),
    ensures
        s.action() == SortAction::Probe(m),
        reply == SortReplyView::Probed(false),
{
}

/// Whatever the replies, a sort ends: every reply that it waits for brings it closer to its
/// end.
pub proof fn every_reply_brings_the_end_closer(s: SortState, reply: SortReplyView)
    requires
        s.wf(),
    ensures
        s.step(reply) == s || 0 <= actions_left(s.step(reply)) < actions_left(s),
        s.step(reply).wf(),
{
}

/// The plan holds the entries that are to be moved and no others, each under its kind.
pub proof fn plan_holds_what_moves(folder: Seq<char>, entries: Seq<EntryView>)
    requires
        entries.len() <= usize::MAX,
    ensures
        plan(folder, entries).len() <= entries.len(),
        forall|k: int|
            0 <= k < plan(folder, entries).len() ==> {
                &&& (#[trigger] plan(folder, entries)[k]).entry < entries.len()
                &&& planned(folder, entries[plan(folder, entries)[k].entry as int]) == Some(
                    plan(folder, entries)[k].category,
                )
            },
        forall|i: int|
            0 <= i < entries.len() && planned(folder, #[trigger] entries[i]) is Some ==> plan(
                folder,
                entries,
            ).contains(Move { entry: i as usize, category: planned(folder, entries[i])->0 }),
    decreases entries.len(),
{
    if entries.len() > 0 {
        let before = entries.drop_last();
        let last = entries.last();
        let p = plan(folder, before);
        let q = plan(folder, entries);
        plan_holds_what_moves(folder, before);
        assert forall|k: int| 0 <= k < q.len() implies (#[trigger] q[k]).entry < entries.len() && planned(
            folder,
            entries[q[k].entry as int],
        ) == Some(q[k].category) by {
            if k < p.len() {
                assert(q[k] == p[k]);
                assert(entries[p[k].entry as int] == before[p[k].entry as int]);
            }
        }
        assert forall|i: int| 0 <= i < entries.len() && planned(folder, #[trigger] entries[i]) is Some implies q.contains(
            Move { entry: i as usize, category: planned(folder, entries[i])->0 },
        ) by {
            let m = Move { entry: i as usize, category: planned(folder, entries[i])->0 };
            if i < before.len() {
                assert(before[i] == entries[i]);
                let k = choose|k: int| 0 <= k < p.len() && p[k] == m;
                assert(q[k] == m);
            } else {
                assert(q[q.len() - 1] == m);
            }
        }
    }
}

/// A folder that is itself the folder of a kind keeps its files of that kind.
pub proof fn folder_of_a_kind_keeps_its_files(c: Category, entries: Seq<EntryView>)
    requires
        entries.len() <= usize::MAX,
    ensures
        forall|k: int|
            0 <= k < plan(c.dir(), entries).len() ==> (#[trigger] plan(c.dir(), entries)[k]).category != c,
{
    plan_holds_what_moves(c.dir(), entries);
    assert forall|k: int| 0 <= k < plan(c.dir(), entries).len() implies (#[trigger] plan(c.dir(), entries)[k]).category
        != c by {
        assert(planned(c.dir(), entries[plan(c.dir(), entries)[k].entry as int]) is Some);
    }
}

/// The moves are of files listed under `names`, each under the kind of its name.
pub open spec fn moves_fit(s: SortState, names: Seq<Seq<char>>) -> bool {
    forall|k: int|
        0 <= k < s.moves.len() ==> (#[trigger] s.moves[k]).entry < names.len() && name_category(
            names[s.moves[k].entry as int],
        ) == Some(s.moves[k].category)
}

/// A sort that is about to make its next move.
pub open spec fn between_moves(s: SortState) -> bool {
    s.wf() && s.stage == Stage::MakeDir && s.failure is None
}

/// The subfolder of a kind cannot be made.
spec fn refused(w: Folder, c: Category) -> bool {
    !w.subs.dom().contains(c.dir()) && w.blocked.contains(c.dir())
}

/// The sort and the folder after the next move.
spec fn after_move(s: SortState, names: Seq<Seq<char>>, w: Folder) -> (SortState, Folder) {
    let m = s.moves[s.next];
    let n = names[m.entry as int];
    let made = w.after(names, SortAction::MakeDir(m.category));
    if refused(w, m.category) {
        (SortState { failure: Some(w.refusal), ..s }, w)
    } else if w.holds(m.category.dir(), n) || !w.movable(n) {
        (s.advanced(), made)
    } else {
        (
            SortState { report: s.report.counting(m.category), ..s.advanced() },
            made.after(names, SortAction::Rename(m)),
        )
    }
}

proof fn carried_out_by_moves(s: SortState, names: Seq<Seq<char>>, w: Folder)
    requires
        between_moves(s),
        s.next < s.moves.len(),
    ensures
        carried_out(s, names, w) == carried_out(
            after_move(s, names, w).0,
            names,
            after_move(s, names, w).1,
        ),
        after_move(s, names, w).0.failure is None ==> between_moves(after_move(s, names, w).0),
        after_move(s, names, w).0.failure is Some <==> refused(w, s.moves[s.next].category),
{
    let m = s.moves[s.next];
    let n = names[m.entry as int];
    let made = w.after(names, SortAction::MakeDir(m.category));
    let s1 = s.step(w.answer(names, s.action()));
    assert(s.action() == SortAction::MakeDir(m.category));
    assert(carried_out(s, names, w) == carried_out(s1, names, made));
    if !refused(w, m.category) {
        assert(s1.action() == SortAction::Probe(m));
        assert(made.holds(m.category.dir(), n) == w.holds(m.category.dir(), n));
        let s2 = s1.step(made.answer(names, s1.action()));
        assert(carried_out(s1, names, made) == carried_out(s2, names, made));
        if !w.holds(m.category.dir(), n) {
            assert(s2.action() == SortAction::Rename(m));
            let s3 = s2.step(made.answer(names, s2.action()));
            assert(carried_out(s2, names, made) == carried_out(
                s3,
                names,
                made.after(names, SortAction::Rename(m)),
            ));
        }
    }
}

/// What holds of a folder and of itself after the moves of a sort from here on.
spec fn kept(s: SortState, names: Seq<Seq<char>>, w: Folder, s2: SortState, w2: Folder) -> bool {
    &&& s2.action() == SortAction::Finished
    &&& s2.moves == s.moves
    &&& s2.wf()
    &&& w2.stuck == w.stuck
    &&& w2.blocked == w.blocked
    &&& w2.refusal == w.refusal
    // No file comes loose, and a loose one keeps what it holds.
    &&& forall|n: Seq<char>| #[trigger]
        w2.files.dom().contains(n) ==> w.files.dom().contains(n) && w2.files[n] == w.files[n]
    // Whatever was in a subfolder is there as before.
    &&& forall|d: Seq<char>| #[trigger] w.subs.dom().contains(d) ==> w2.subs.dom().contains(d)
    &&& forall|d: Seq<char>, n: Seq<char>| #[trigger]
        w.holds(d, n) ==> w2.holds(d, n) && w2.subs[d][n] == w.subs[d][n]
    // A file that is loose no more is in the subfolder of its kind.
    &&& forall|n: Seq<char>|
        w.files.dom().contains(n) && !(#[trigger] w2.files.dom().contains(n)) ==> is_filed(w, w2, n)
    // Such a file was to be moved, and its name was free.
    &&& forall|n: Seq<char>|
        w.files.dom().contains(n) && !(#[trigger] w2.files.dom().contains(n)) ==> was_moved(s, names, w, n)
    // What is new in a subfolder was loose, is so no more, and is of the subfolder's kind.
    &&& forall|d: Seq<char>, n: Seq<char>| #[trigger]
        w2.holds(d, n) && !w.holds(d, n) ==> came_in(w, w2, d, n)
    // A subfolder is new only where a file is still to be moved there.
    &&& forall|d: Seq<char>| #[trigger]
        w2.subs.dom().contains(d) && !w.subs.dom().contains(d) ==> is_target(s, d)
    // The report counts the files that are loose no more.
    &&& forall|c: Category|
        (#[trigger] w.gone(w2, c)).finite() && s2.report.of(c) == s.report.of(c) + w.gone(w2, c).len()
}

/// A file that was loose is in the subfolder of its kind, under its name and with what it
/// held.
pub open spec fn is_filed(w: Folder, w2: Folder, n: Seq<char>) -> bool {
    name_category(n) matches Some(c) && w2.holds(c.dir(), n) && w2.subs[c.dir()][n] == w.files[n]
}

/// What the subfolder holds under the name was a loose file of the subfolder's kind, and is loose no
/// more.
pub open spec fn came_in(w: Folder, w2: Folder, d: Seq<char>, n: Seq<char>) -> bool {
    &&& w.files.dom().contains(n)
    &&& !w2.files.dom().contains(n)
    &&& name_category(n) matches Some(c) && c.dir() == d
}

/// The subfolder is the one of a file still to be moved.
spec fn is_target(s: SortState, d: Seq<char>) -> bool {
    exists|k: int| s.next <= k < s.moves.len() && (#[trigger] s.moves[k]).category.dir() == d
}

/// The file is one of those still to be moved, it can be, and its name is free in the subfolder
/// of its kind.
spec fn was_moved(s: SortState, names: Seq<Seq<char>>, w: Folder, n: Seq<char>) -> bool {
    &&& !w.stuck.contains(n)
    &&& exists|k: int|
        s.next <= k < s.moves.len() && names[(#[trigger] s.moves[k]).entry as int] == n && !w.holds(
            s.moves[k].category.dir(),
            n,
        )
}

/// After its move a file is loose no more, or its name was taken, or it cannot be moved.
spec fn move_done(names: Seq<Seq<char>>, m: Move, w2: Folder) -> bool {
    &&& w2.subs.dom().contains(m.category.dir())
    &&& w2.movable(names[m.entry as int]) ==> w2.holds(m.category.dir(), names[m.entry as int])
}

proof fn after_move_keeps(s: SortState, names: Seq<Seq<char>>, w: Folder)
    requires
        between_moves(s),
        s.next < s.moves.len(),
        moves_fit(s, names),
    ensures
        ({
            let (s2, w2) = after_move(s, names, w);
            &&& forall|n: Seq<char>| #[trigger]
                w2.files.dom().contains(n) ==> w.files.dom().contains(n) && w2.files[n] == w.files[n]
            &&& forall|d: Seq<char>| #[trigger] w.subs.dom().contains(d) ==> w2.subs.dom().contains(d)
            &&& forall|d: Seq<char>, n: Seq<char>| #[trigger]
                w.holds(d, n) ==> w2.holds(d, n) && w2.subs[d][n] == w.subs[d][n]
            &&& forall|n: Seq<char>|
                w.files.dom().contains(n) && !(#[trigger] w2.files.dom().contains(n)) ==> is_filed(w, w2, n)
                    && was_moved(s, names, w, n)
            &&& forall|d: Seq<char>, n: Seq<char>| #[trigger]
                w2.holds(d, n) && !w.holds(d, n) ==> came_in(w, w2, d, n)
            &&& forall|d: Seq<char>| #[trigger]
                w2.subs.dom().contains(d) && !w.subs.dom().contains(d) ==> d == s.moves[s.next].category.dir()
            &&& forall|c: Category|
                (#[trigger] w.gone(w2, c)).finite() && s2.report.of(c) == s.report.of(c) + w.gone(w2, c).len()
            &&& w2.stuck == w.stuck
            &&& s2.failure is None ==> move_done(names, s.moves[s.next], w2)
        }),
{
    let m = s.moves[s.next];
    let n = names[m.entry as int];
    let (s2, w2) = after_move(s, names, w);
    assert forall|c: Category| (#[trigger] w.gone(w2, c)).finite() && s2.report.of(c) == s.report.of(c)
        + w.gone(w2, c).len() by {
        if w2.files == w.files {
            assert(w.gone(w2, c) =~= Set::<Seq<char>>::empty());
        } else if c == m.category {
            assert(w.gone(w2, c) =~= Set::<Seq<char>>::empty().insert(n));
        } else {
            assert(w.gone(w2, c) =~= Set::<Seq<char>>::empty());
        }
    }
}

proof fn carried_out_keeps(s: SortState, names: Seq<Seq<char>>, w: Folder)
    requires
        between_moves(s),
        moves_fit(s, names),
    ensures
        ({
            let (s2, w2) = carried_out(s, names, w);
            &&& kept(s, names, w, s2, w2)
            &&& s2.failure is None ==> forall|k: int|
                s.next <= k < s.moves.len() ==> move_done(names, #[trigger] s.moves[k], w2)
        }),
    decreases s.moves.len() - s.next,
{
    let (s2, w2) = carried_out(s, names, w);
    if s.next == s.moves.len() {
        assert forall|c: Category| (#[trigger] w.gone(w2, c)).finite() && s2.report.of(c) == s.report.of(c)
            + w.gone(w2, c).len() by {
            assert(w.gone(w2, c) =~= Set::<Seq<char>>::empty());
        }
    } else {
        carried_out_by_moves(s, names, w);
        after_move_keeps(s, names, w);
        let (s1, w1) = after_move(s, names, w);
        if s1.failure is None {
            carried_out_keeps(s1, names, w1);
            assert forall|n: Seq<char>|
                w.files.dom().contains(n) && !(#[trigger] w2.files.dom().contains(n)) implies is_filed(w, w2, n) by {
                if w1.files.dom().contains(n) {
                    assert(is_filed(w1, w2, n));
                } else {
                    assert(is_filed(w, w1, n));
                }
            }
            assert forall|n: Seq<char>|
                w.files.dom().contains(n) && !(#[trigger] w2.files.dom().contains(n)) implies was_moved(
                s,
                names,
                w,
                n,
            ) by {
                if w1.files.dom().contains(n) {
                    assert(was_moved(s1, names, w1, n));
                    let k = choose|k: int|
                        s1.next <= k < s1.moves.len() && names[(#[trigger] s1.moves[k]).entry as int] == n
                            && !w1.holds(s1.moves[k].category.dir(), n);
                    assert(names[s.moves[k].entry as int] == n);
                } else {
                    assert(was_moved(s, names, w, n));
                }
            }
            assert forall|d: Seq<char>, n: Seq<char>| #[trigger]
                w2.holds(d, n) && !w.holds(d, n) implies came_in(w, w2, d, n) by {
                if w1.holds(d, n) {
                    assert(came_in(w, w1, d, n));
                } else {
                    assert(came_in(w1, w2, d, n));
                }
            }
            assert forall|d: Seq<char>| #[trigger]
                w2.subs.dom().contains(d) && !w.subs.dom().contains(d) implies is_target(s, d) by {
                if w1.subs.dom().contains(d) {
                    assert(s.moves[s.next].category.dir() == d);
                } else {
                    assert(is_target(s1, d));
                    let k = choose|k: int|
                        s1.next <= k < s1.moves.len() && (#[trigger] s1.moves[k]).category.dir() == d;
                    assert(s.moves[k].category.dir() == d);
                }
            }
            assert forall|c: Category| (#[trigger] w.gone(w2, c)).finite() && s2.report.of(c) == s.report.of(c)
                + w.gone(w2, c).len() by {
                let a = w.gone(w1, c);
                let b = w1.gone(w2, c);
                assert(w.gone(w2, c) =~= a + b);
                assert(a.disjoint(b));
                vstd::set_lib::lemma_set_disjoint_lens(a, b);
            }
            assert(s2.failure is None ==> move_done(names, s.moves[s.next], w2));
        }
    }
}

proof fn planned_moves_fit(folder: Seq<char>, entries: Seq<EntryView>)
    requires
        entries.len() <= usize::MAX,
    ensures
        between_moves(SortState::start(plan(folder, entries))),
        moves_fit(SortState::start(plan(folder, entries)), entry_names(entries)),
{
    let p = plan(folder, entries);
    plan_holds_what_moves(folder, entries);
    assert forall|k: int| 0 <= k < p.len() implies (#[trigger] p[k]).entry < entry_names(entries).len()
        && name_category(entry_names(entries)[p[k].entry as int]) == Some(p[k].category) by {
        assert(planned(folder, entries[p[k].entry as int]) == Some(p[k].category));
    }
}

/// A sort loses no file and overwrites none. A file that was loose either is so still, with
/// what it held, or is in the subfolder of its kind, under its name and with what it held. What
/// was in a subfolder is there as before, and what is new there was a loose file of the subfolder's
/// kind. The report counts, for each kind, the files that are loose no more. This holds of a sort
/// that failed midway too.
pub proof fn sort_keeps_every_file(folder: Seq<char>, entries: Seq<EntryView>, w: Folder)
    requires
        entries.len() <= usize::MAX,
    ensures
        ({
            let (s2, w2) = sorted(folder, entries, w);
            &&& s2.action() == SortAction::Finished
            &&& forall|n: Seq<char>| #[trigger]
                w.files.dom().contains(n) ==> (w2.files.dom().contains(n) && w2.files[n] == w.files[n])
                    || is_filed(w, w2, n)
            &&& forall|n: Seq<char>| #[trigger]
                w2.files.dom().contains(n) ==> w.files.dom().contains(n) && w2.files[n] == w.files[n]
            &&& forall|d: Seq<char>, n: Seq<char>| #[trigger]
                w.holds(d, n) ==> w2.holds(d, n) && w2.subs[d][n] == w.subs[d][n]
            &&& forall|d: Seq<char>, n: Seq<char>| #[trigger]
                w2.holds(d, n) && !w.holds(d, n) ==> came_in(w, w2, d, n)
            &&& forall|c: Category| (#[trigger] w.gone(w2, c)).finite() && s2.report.of(c) == w.gone(w2, c).len()
        }),
{
    planned_moves_fit(folder, entries);
    carried_out_keeps(SortState::start(plan(folder, entries)), entry_names(entries), w);
    let (s2, w2) = sorted(folder, entries, w);
    assert forall|c: Category| (#[trigger] w.gone(w2, c)).finite() && s2.report.of(c) == w.gone(w2, c).len() by {
        assert(no_moves().of(c) == 0);
    }
}

/// The subfolder is the one that a listed file is to be moved to.
pub open spec fn is_wanted(folder: Seq<char>, entries: Seq<EntryView>, d: Seq<char>) -> bool {
    exists|i: int|
        0 <= i < entries.len() && (planned(folder, #[trigger] entries[i]) matches Some(c) && c.dir() == d)
}

/// A sort takes no subfolder away, and makes none but those that a file is to be moved to; one that
/// does not fail makes all of these that are not there.
pub proof fn sort_makes_the_subfolders_it_needs(folder: Seq<char>, entries: Seq<EntryView>, w: Folder)
    requires
        entries.len() <= usize::MAX,
    ensures
        ({
            let (s2, w2) = sorted(folder, entries, w);
            &&& forall|d: Seq<char>| #[trigger]
                w2.subs.dom().contains(d) ==> w.subs.dom().contains(d) || is_wanted(folder, entries, d)
            &&& forall|d: Seq<char>| w.subs.dom().contains(d) ==> #[trigger] w2.subs.dom().contains(d)
            &&& s2.failure is None ==> forall|d: Seq<char>| #[trigger]
                is_wanted(folder, entries, d) ==> w2.subs.dom().contains(d)
        }),
{
    let s = SortState::start(plan(folder, entries));
    let (s2, w2) = sorted(folder, entries, w);
    planned_moves_fit(folder, entries);
    plan_holds_what_moves(folder, entries);
    carried_out_keeps(s, entry_names(entries), w);
    assert forall|d: Seq<char>| #[trigger]
        w2.subs.dom().contains(d) implies w.subs.dom().contains(d) || is_wanted(folder, entries, d) by {
        if !w.subs.dom().contains(d) {
            assert(is_target(s, d));
            let k = choose|k: int| s.next <= k < s.moves.len() && (#[trigger] s.moves[k]).category.dir() == d;
            assert(planned(folder, entries[s.moves[k].entry as int]) == Some(s.moves[k].category));
        }
    }
    if s2.failure is None {
        assert forall|d: Seq<char>| #[trigger] is_wanted(folder, entries, d) implies w2.subs.dom().contains(d) by {
            let i = choose|i: int|
                0 <= i < entries.len() && (planned(folder, #[trigger] entries[i]) matches Some(c) && c.dir()
                    == d);
            let m = Move { entry: i as usize, category: planned(folder, entries[i])->0 };
            assert(s.moves.contains(m));
            let k = choose|k: int| 0 <= k < s.moves.len() && s.moves[k] == m;
            assert(move_done(entry_names(entries), s.moves[k], w2));
        }
    }
}

/// A sort that does not fail leaves loose exactly the files that are not to be moved, those
/// that cannot be, and those whose name is taken where they were to go.
pub proof fn sort_moves_what_is_planned(folder: Seq<char>, entries: Seq<EntryView>, w: Folder)
    requires
        entries.len() <= usize::MAX,
        w.is_listed(entries),
        sorted(folder, entries, w).0.failure is None,
    ensures
        forall|n: Seq<char>| #[trigger]
            sorted(folder, entries, w).1.files.dom().contains(n) <==> w.files.dom().contains(n) && (planned(
                folder,
                EntryView { name: n, kind: EntryKind::File },
            ) matches Some(c) ==> w.holds(c.dir(), n) || w.stuck.contains(n)),
{
    let names = entry_names(entries);
    let s = SortState::start(plan(folder, entries));
    let (s2, w2) = sorted(folder, entries, w);
    planned_moves_fit(folder, entries);
    plan_holds_what_moves(folder, entries);
    carried_out_keeps(s, names, w);
    assert forall|n: Seq<char>| #[trigger] w2.files.dom().contains(n) <==> w.files.dom().contains(n) && (planned(
        folder,
        EntryView { name: n, kind: EntryKind::File },
    ) matches Some(c) ==> w.holds(c.dir(), n) || w.stuck.contains(n)) by {
        if w.files.dom().contains(n) {
            let i = choose|i: int|
                0 <= i < entries.len() && (#[trigger] entries[i]).kind == EntryKind::File && entries[i].name == n;
            assert(entries[i] == EntryView { name: n, kind: EntryKind::File });
            if w2.files.dom().contains(n) {
                if let Some(c) = planned(folder, entries[i]) {
                    let m = Move { entry: i as usize, category: c };
                    assert(s.moves.contains(m));
                    let k = choose|k: int| 0 <= k < s.moves.len() && s.moves[k] == m;
                    assert(move_done(names, s.moves[k], w2));
                    assert(names[i] == n);
                }
            } else {
                assert(was_moved(s, names, w, n));
                let k = choose|k: int|
                    s.next <= k < s.moves.len() && names[(#[trigger] s.moves[k]).entry as int] == n && !w.holds(
                        s.moves[k].category.dir(),
                        n,
                    );
                let j = s.moves[k].entry as int;
                assert(entries[j].name == n);
                assert(j == i) by {
                    if j < i {
                        assert(entries[j].name != entries[i].name);
                    } else if i < j {
                        assert(entries[i].name != entries[j].name);
                    }
                }
            }
        }
    }
}

/// The subfolder for the file is there, but it cannot go there: its name is taken, or it cannot
/// be moved.
spec fn cannot_go(w: Folder, d: Seq<char>, n: Seq<char>) -> bool {
    w.subs.dom().contains(d) && (w.holds(d, n) || !w.movable(n))
}

/// None of the files still to be moved can go where it is to: nothing happens.
proof fn vain_moves_change_nothing(s: SortState, names: Seq<Seq<char>>, w: Folder)
    requires
        between_moves(s),
        forall|k: int|
            s.next <= k < s.moves.len() ==> cannot_go(
                w,
                (#[trigger] s.moves[k]).category.dir(),
                names[s.moves[k].entry as int],
            ),
    ensures
        carried_out(s, names, w).1 == w,
        carried_out(s, names, w).0.failure is None,
        carried_out(s, names, w).0.report == s.report,
    decreases s.moves.len() - s.next,
{
    if s.next < s.moves.len() {
        carried_out_by_moves(s, names, w);
        assert(cannot_go(w, s.moves[s.next].category.dir(), names[s.moves[s.next].entry as int]));
        vain_moves_change_nothing(s.advanced(), names, w);
    }
}

/// Sorting is idempotent: after a sort that did not fail, another sort of the same folder, from
/// whatever listing of it, moves nothing, fails at nothing and leaves the folder as it is.
pub proof fn sort_is_idempotent(
    folder: Seq<char>,
    entries: Seq<EntryView>,
    w: Folder,
    again: Seq<EntryView>,
)
    requires
        entries.len() <= usize::MAX,
        again.len() <= usize::MAX,
        w.is_listed(entries),
        sorted(folder, entries, w).0.failure is None,
        sorted(folder, entries, w).1.is_listed(again),
    ensures
        sorted(folder, again, sorted(folder, entries, w).1).1 == sorted(folder, entries, w).1,
        sorted(folder, again, sorted(folder, entries, w).1).0.failure is None,
        sorted(folder, again, sorted(folder, entries, w).1).0.report == no_moves(),
{
    let s1 = SortState::start(plan(folder, entries));
    let w2 = sorted(folder, entries, w).1;
    let s = SortState::start(plan(folder, again));
    let names = entry_names(again);
    planned_moves_fit(folder, entries);
    plan_holds_what_moves(folder, entries);
    carried_out_keeps(s1, entry_names(entries), w);
    planned_moves_fit(folder, again);
    plan_holds_what_moves(folder, again);
    assert forall|k: int| 0 <= k < s.moves.len() implies cannot_go(
        w2,
        (#[trigger] s.moves[k]).category.dir(),
        names[s.moves[k].entry as int],
    ) by {
        let j = s.moves[k].entry as int;
        let n = again[j].name;
        assert(planned(folder, again[j]) == Some(s.moves[k].category));
        assert(w2.files.dom().contains(n));
        let i = choose|i: int|
            0 <= i < entries.len() && (#[trigger] entries[i]).kind == EntryKind::File && entries[i].name == n;
        let m = Move { entry: i as usize, category: s.moves[k].category };
        assert(entries[i] == again[j]);
        assert(s1.moves.contains(m));
        let l = choose|l: int| 0 <= l < s1.moves.len() && s1.moves[l] == m;
        assert(move_done(entry_names(entries), s1.moves[l], w2));
    }
    vain_moves_change_nothing(s, names, w2);
}

/// A folder without loose files to be moved is left as it is, whatever its subfolders hold.
pub proof fn sorted_folder_is_left_alone(folder: Seq<char>, entries: Seq<EntryView>, w: Folder)
    requires
        entries.len() <= usize::MAX,
        forall|i: int| 0 <= i < entries.len() ==> planned(folder, #[trigger] entries[i]) is None,
    ensures
        sorted(folder, entries, w).1 == w,
        sorted(folder, entries, w).0.failure is None,
        sorted(folder, entries, w).0.report == no_moves(),
{
    plan_holds_what_moves(folder, entries);
    let p = plan(folder, entries);
    if p.len() > 0 {
        assert(planned(folder, entries[p[0].entry as int]) is Some);
    }
}

proof fn refusal_ends_the_sort(s: SortState, names: Seq<Seq<char>>, w: Folder)
    requires
        between_moves(s),
    ensures
        carried_out(s, names, w).0.failure == (if exists|k: int|
            s.next <= k < s.moves.len() && refused(w, (#[trigger] s.moves[k]).category) {
            Some(w.refusal)
        } else {
            None
        }),
        forall|c: Category| #[trigger]
            refused(w, c) ==> !carried_out(s, names, w).1.subs.dom().contains(c.dir()),
    decreases s.moves.len() - s.next,
{
    if s.next < s.moves.len() {
        carried_out_by_moves(s, names, w);
        let (s1, w1) = after_move(s, names, w);
        if s1.failure is None {
            refusal_ends_the_sort(s1, names, w1);
            assert forall|c: Category| refused(w1, c) == refused(w, c) by {
                category_dirs_differ(c, s.moves[s.next].category);
            }
            if exists|k: int| s.next <= k < s.moves.len() && refused(w, (#[trigger] s.moves[k]).category) {
                let k = choose|k: int|
                    s.next <= k < s.moves.len() && refused(w, (#[trigger] s.moves[k]).category);
                assert(refused(w1, s1.moves[k].category));
            }
            if exists|k: int| s1.next <= k < s1.moves.len() && refused(w1, (#[trigger] s1.moves[k]).category) {
                let k = choose|k: int|
                    s1.next <= k < s1.moves.len() && refused(w1, (#[trigger] s1.moves[k]).category);
                assert(refused(w, s.moves[k].category));
            }
        } else {
            assert(refused(w, s.moves[s.next].category));
        }
    }
}

/// A sort fails exactly where a file is to be moved whose subfolder is not there and cannot be
/// made, and with what the attempt to make it is answered. A subfolder that cannot be made is not
/// there after the sort either, so that nothing goes there.
pub proof fn sort_fails_only_without_a_subfolder(folder: Seq<char>, entries: Seq<EntryView>, w: Folder)
    requires
        entries.len() <= usize::MAX,
    ensures
        sorted(folder, entries, w).0.failure == (if exists|i: int|
            0 <= i < entries.len() && (planned(folder, #[trigger] entries[i]) matches Some(c)
                && !w.subs.dom().contains(c.dir()) && w.blocked.contains(c.dir())) {
            Some(w.refusal)
        } else {
            None
        }),
        forall|c: Category|
            !w.subs.dom().contains(c.dir()) && w.blocked.contains(c.dir()) ==> !sorted(
                folder,
                entries,
                w,
            ).1.subs.dom().contains(#[trigger] c.dir()),
{
    let s = SortState::start(plan(folder, entries));
    planned_moves_fit(folder, entries);
    plan_holds_what_moves(folder, entries);
    refusal_ends_the_sort(s, entry_names(entries), w);
    assert forall|c: Category|
        !w.subs.dom().contains(c.dir()) && w.blocked.contains(c.dir()) implies !sorted(
        folder,
        entries,
        w,
    ).1.subs.dom().contains(#[trigger] c.dir()) by {
        assert(refused(w, c));
    }
    if exists|i: int|
        0 <= i < entries.len() && (planned(folder, #[trigger] entries[i]) matches Some(c)
            && !w.subs.dom().contains(c.dir()) && w.blocked.contains(c.dir())) {
        let i = choose|i: int|
            0 <= i < entries.len() && (planned(folder, #[trigger] entries[i]) matches Some(c)
                && !w.subs.dom().contains(c.dir()) && w.blocked.contains(c.dir()));
        let m = Move { entry: i as usize, category: planned(folder, entries[i])->0 };
        assert(s.moves.contains(m));
        let k = choose|k: int| 0 <= k < s.moves.len() && s.moves[k] == m;
        assert(refused(w, s.moves[k].category));
    }
    if exists|k: int| s.next <= k < s.moves.len() && refused(w, (#[trigger] s.moves[k]).category) {
        let k = choose|k: int| s.next <= k < s.moves.len() && refused(w, (#[trigger] s.moves[k]).category);
        assert(planned(folder, entries[s.moves[k].entry as int]) == Some(s.moves[k].category));
    }
}

} // verus!
