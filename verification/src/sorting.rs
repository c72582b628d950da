//! Sorting a folder: its loose photos, raw files and videos move into a subfolder
//! for each kind.
//!
//! Which files move is planned from the folder's listing. The moves are then made one after
//! the other: [`SortRun`] says what to do next to the folder and is told how that went.

use vstd::prelude::*;

use crate::listing::{Entry, EntryKind, EntryView};
use crate::media::{category_of, name_category, Category};
use crate::text::{join_text, join_text3, lowercase, same_text};

verus! {

/// How many files of each kind a sort moved.
#[derive(Clone, Copy, Debug, PartialEq, Eq, Structural)]
pub struct SortReport {
    pub jpegs: usize,
    pub raws: usize,
    pub videos: usize,
}

impl Default for SortReport {
    fn default() -> (r: Self)
        ensures
            r == no_moves(),
    {
        SortReport { jpegs: 0, raws: 0, videos: 0 }
    }
}

/// The report of a sort that moved nothing.
pub open spec fn no_moves() -> SortReport {
    SortReport { jpegs: 0, raws: 0, videos: 0 }
}

impl SortReport {
    /// How many files were moved in all.
    pub open spec fn total(self) -> int {
        self.jpegs + self.raws + self.videos
    }

    /// The report with one more file of a kind.
    pub open spec fn counting(self, c: Category) -> SortReport {
        match c {
            Category::Jpeg => SortReport { jpegs: (self.jpegs + 1) as usize, ..self },
            Category::Raw => SortReport { raws: (self.raws + 1) as usize, ..self },
            Category::Video => SortReport { videos: (self.videos + 1) as usize, ..self },
        }
    }
}

/// A file to be moved: which entry of the listing it is, and its kind, which is where it
/// goes.
#[derive(Clone, Copy, Debug, PartialEq, Eq, Structural)]
pub struct Move {
    pub entry: usize,
    pub category: Category,
}

/// The kind under which a file is to be moved. Only regular files with an extension of media
/// move, and none whose folder is already the folder of its kind.
pub open spec fn planned(folder: Seq<char>, e: EntryView) -> Option<Category> {
    if e.kind == EntryKind::File {
        match name_category(e.name) {
            Some(c) => if folder != c.dir() {
                Some(c)
            } else {
                None
            },
            None => None,
        }
    } else {
        None
    }
}

/// The moves that sort a folder, in the order of its listing. `folder` is the folder's own
/// name in lower case.
pub open spec fn plan(folder: Seq<char>, entries: Seq<EntryView>) -> Seq<Move>
    decreases entries.len(),
{
    if entries.len() == 0 {
        Seq::empty()
    } else {
        let before = plan(folder, entries.drop_last());
        match planned(folder, entries.last()) {
            Some(c) => before.push(Move { entry: (entries.len() - 1) as usize, category: c }),
            None => before,
        }
    }
}

/// A folder's own name in lower case; empty for the root of a file system.
pub open spec fn folder_key(root_name: Option<Seq<char>>) -> Seq<char> {
    match root_name {
        Some(n) => lowercase(n),
        None => Seq::empty(),
    }
}

/// A listing as it is read: each item is an entry or why it could not be read, and so is the
/// listing as a whole.
pub type Scan = Result<Vec<Result<Entry, String>>, String>;

/// An item of a listing as it is read, with its texts as sequences of characters.
pub open spec fn item_view(item: Result<Entry, String>) -> Result<EntryView, Seq<char>> {
    match item {
        Ok(e) => Ok(e@),
        Err(e) => Err(e@),
    }
}

/// A listing as it is read, with its texts as sequences of characters.
pub open spec fn scan_view(scan: Scan) -> Result<Seq<Result<EntryView, Seq<char>>>, Seq<char>> {
    match scan {
        Ok(items) => Ok(items@.map_values(|i: Result<Entry, String>| item_view(i))),
        Err(e) => Err(e@),
    }
}

/// The first item of a listing that could not be read.
pub open spec fn first_error(items: Seq<Result<EntryView, Seq<char>>>) -> Option<Seq<char>>
    decreases items.len(),
{
    if items.len() == 0 {
        None
    } else {
        match items[0] {
            Err(e) => Some(e),
            Ok(_) => first_error(items.drop_first()),
        }
    }
}

/// The entries of a listing whose items could all be read.
pub open spec fn read_entries(items: Seq<Result<EntryView, Seq<char>>>) -> Seq<EntryView> {
    items.map_values(|i: Result<EntryView, Seq<char>>| i->Ok_0)
}

/// The moves that sort the folder `root`, from its listing; or what the sort fails with where
/// the listing as a whole, or an item of it, could not be read.
pub open spec fn sort_plan(
    root: Seq<char>,
    root_name: Option<Seq<char>>,
    scan: Result<Seq<Result<EntryView, Seq<char>>>, Seq<char>>,
) -> Result<Seq<Move>, Seq<char>> {
    match scan {
        Err(e) => Err("read "@ + root + ": "@ + e),
        Ok(items) => match first_error(items) {
            Some(e) => Err(e),
            None => Ok(plan(folder_key(root_name), read_entries(items))),
        },
    }
}

/// The text of an optional string slice.
pub open spec fn optional_str(s: Option<&str>) -> Option<Seq<char>> {
    match s {
        Some(t) => Some(t@),
        None => None,
    }
}

/// The moves that sort the folder `root`, from its listing. The listing as a whole, or an
/// item of it, may be an error instead: the first one is what the sort fails with, and nothing
/// is moved.
pub fn plan_sort(
    root: &str,
    root_name: Option<&str>,
    scan: &Scan,
) -> (r: Result<Vec<Move>, String>)
    ensures
        match sort_plan(root@, optional_str(root_name), scan_view(*scan)) {
            Ok(moves) => r matches Ok(m) && m@ == moves,
            Err(e) => r matches Err(m) && m@ == e,
        },
{
    let folder: String = match root_name {
        Some(n) => n.to_lowercase(),
        None => String::new(),
    };
    match scan {
        Err(e) => {
            let head: String = join_text3("read ", root, ": ");
            Err(join_text(head.as_str(), e.as_str()))
        },
        Ok(items) => {
            let ghost found = scan_view(*scan)->Ok_0;
            let ghost all = read_entries(found);
            let mut moves: Vec<Move> = Vec::new();
            let mut i: usize = 0;
            assert(found.skip(0) =~= found);
            while i < items.len()
                invariant
                    i <= items.len(),
                    *scan == Ok::<Vec<Result<Entry, String>>, String>(*items),
                    found == scan_view(*scan)->Ok_0,
                    all == read_entries(found),
                    first_error(found) == first_error(found.skip(i as int)),
                    moves@ == plan(folder@, all.take(i as int)),
                decreases items.len() - i,
            {
                assert(found.skip(i as int)[0] == item_view(items@[i as int]));
                assert(found.skip(i as int).drop_first() =~= found.skip(i + 1));
                assert(all.take(i + 1).drop_last() =~= all.take(i as int));
                match &items[i] {
                    Err(e) => {
                        return Err(e.clone());
                    },
                    Ok(entry) => {
                        assert(all.take(i + 1).last() == entry@);
                        if entry.kind == EntryKind::File {
                            if let Some(c) = category_of(entry.name.as_str()) {
                                if !same_text(folder.as_str(), c.dir_name()) {
                                    moves.push(Move { entry: i, category: c });
                                }
                            }
                        }
                    },
                }
                i = i + 1;
            }
            assert(all.take(all.len() as int) =~= all);
            Ok(moves)
        },
    }
}

/// How far the move at hand has come.
#[derive(Clone, Copy, Debug, PartialEq, Eq, Structural)]
pub enum Stage {
    MakeDir,
    Probe,
    Rename,
}

/// What a sort wants done to the folder next.
#[derive(Clone, Copy, Debug, PartialEq, Eq, Structural)]
pub enum SortAction {
    /// Make the subfolder of a kind, unless it is there.
    MakeDir(Category),
    /// Say whether the subfolder holds anything under the file's name.
    Probe(Move),
    /// Move the file into the subfolder, under its name.
    Rename(Move),
    /// Nothing: the sort has ended.
    Finished,
}

/// How what a sort wanted done went.
#[derive(Debug)]
pub enum SortReply {
    Made(Result<(), String>),
    Probed(bool),
    Renamed(bool),
}

/// A reply, with its text as a sequence of characters.
pub enum SortReplyView {
    Made(Result<(), Seq<char>>),
    Probed(bool),
    Renamed(bool),
}

impl View for SortReply {
    type V = SortReplyView;

    open spec fn view(&self) -> SortReplyView {
        match self {
            SortReply::Made(Ok(_)) => SortReplyView::Made(Ok(())),
            SortReply::Made(Err(e)) => SortReplyView::Made(Err(e@)),
            SortReply::Probed(b) => SortReplyView::Probed(*b),
            SortReply::Renamed(b) => SortReplyView::Renamed(*b),
        }
    }
}

/// Where a sort stands: the moves that it makes, the one at hand, how far that has come, what
/// was moved so far, and what the sort failed with.
pub struct SortState {
    pub moves: Seq<Move>,
    pub next: int,
    pub stage: Stage,
    pub report: SortReport,
    pub failure: Option<Seq<char>>,
}

impl SortState {
    /// The sort has no more moves counted than made.
    pub open spec fn wf(self) -> bool {
        &&& 0 <= self.next <= self.moves.len() <= usize::MAX
        &&& self.report.total() <= self.next
    }

    /// A sort that has not moved anything yet.
    pub open spec fn start(moves: Seq<Move>) -> SortState {
        SortState { moves, next: 0, stage: Stage::MakeDir, report: no_moves(), failure: None }
    }

    /// What the sort wants done next.
    pub open spec fn action(self) -> SortAction {
        if self.failure is Some || self.next >= self.moves.len() {
            SortAction::Finished
        } else {
            let m = self.moves[self.next];
            match self.stage {
                Stage::MakeDir => SortAction::MakeDir(m.category),
                Stage::Probe => SortAction::Probe(m),
                Stage::Rename => SortAction::Rename(m),
            }
        }
    }

    /// `r` is what came of the sort: what was moved, or why it failed.
    pub open spec fn comes_to(self, r: Result<SortReport, String>) -> bool {
        match self.failure {
            Some(e) => r matches Err(m) && m@ == e,
            None => r == Ok::<SortReport, String>(self.report),
        }
    }

    /// The sort with the move at hand done with.
    pub open spec fn advanced(self) -> SortState {
        SortState { next: self.next + 1, stage: Stage::MakeDir, ..self }
    }

    /// Where the sort stands after a reply. A subfolder that cannot be made ends the sort. A
    /// file whose name is taken stays where it is; else it is moved, and counted if that went
    /// well. A reply to something else than what the sort wants changes nothing.
    pub open spec fn step(self, reply: SortReplyView) -> SortState {
        match (self.action(), reply) {
            (SortAction::MakeDir(_), SortReplyView::Made(Ok(_))) => SortState {
                stage: Stage::Probe,
                ..self
            },
            (SortAction::MakeDir(_), SortReplyView::Made(Err(e))) => SortState {
                failure: Some(e),
                ..self
            },
            (SortAction::Probe(_), SortReplyView::Probed(true)) => self.advanced(),
            (SortAction::Probe(_), SortReplyView::Probed(false)) => SortState {
                stage: Stage::Rename,
                ..self
            },
            (SortAction::Rename(m), SortReplyView::Renamed(true)) => SortState {
                report: self.report.counting(m.category),
                ..self.advanced()
            },
            (SortAction::Rename(_), SortReplyView::Renamed(false)) => self.advanced(),
            _ => self,
        }
    }
}

/// A sort under way.
#[derive(Debug)]
pub struct SortRun {
    moves: Vec<Move>,
    next: usize,
    stage: Stage,
    report: SortReport,
    failure: Option<String>,
}

impl View for SortRun {
    type V = SortState;

    closed spec fn view(&self) -> SortState {
        SortState {
            moves: self.moves@,
            next: self.next as int,
            stage: self.stage,
            report: self.report,
            failure: match self.failure {
                Some(e) => Some(e@),
                None => None,
            },
        }
    }
}

impl SortRun {
    #[verifier::type_invariant]
    spec fn inv(self) -> bool {
        self@.wf()
    }

    /// A sort that is about to make the moves.
    pub fn new(moves: Vec<Move>) -> (r: Self)
        ensures
            r@ == SortState::start(moves@),
    {
        assert(moves@.len() == moves.len());
        SortRun {
            moves,
            next: 0,
            stage: Stage::MakeDir,
            report: SortReport { jpegs: 0, raws: 0, videos: 0 },
            failure: None,
        }
    }

    /// What the sort wants done next.
    pub fn action(&self) -> (r: SortAction)
        ensures
            r == self@.action(),
    {
        if self.failure.is_some() || self.next >= self.moves.len() {
            SortAction::Finished
        } else {
            let m: Move = self.moves[self.next];
            match self.stage {
                Stage::MakeDir => SortAction::MakeDir(m.category),
                Stage::Probe => SortAction::Probe(m),
                Stage::Rename => SortAction::Rename(m),
            }
        }
    }

    /// The sort after a reply to what it wanted done.
    pub fn step(self, reply: SortReply) -> (r: Self)
        ensures
            r@ == self@.step(reply@),
            r@.wf(),
    {
        proof {
            use_type_invariant(&self);
        }
        let action: SortAction = self.action();
        let SortRun { moves, next, stage, report, failure } = self;
        match (action, reply) {
            (SortAction::MakeDir(_), SortReply::Made(Ok(_))) => SortRun {
                moves,
                next,
                stage: Stage::Probe,
                report,
                failure,
            },
            (SortAction::MakeDir(_), SortReply::Made(Err(e))) => SortRun {
                moves,
                next,
                stage,
                report,
                failure: Some(e),
            },
            (SortAction::Probe(_), SortReply::Probed(taken)) => if taken {
                SortRun { moves, next: next + 1, stage: Stage::MakeDir, report, failure }
            } else {
                SortRun { moves, next, stage: Stage::Rename, report, failure }
            },
            (SortAction::Rename(m), SortReply::Renamed(done)) => {
                let mut counted: SortReport = report;
                if done {
                    match m.category {
                        Category::Jpeg => {
                            counted.jpegs = counted.jpegs + 1;
                        },
                        Category::Raw => {
                            counted.raws = counted.raws + 1;
                        },
                        Category::Video => {
                            counted.videos = counted.videos + 1;
                        },
                    }
                }
                SortRun { moves, next: next + 1, stage: Stage::MakeDir, report: counted, failure }
            },
            _ => SortRun { moves, next, stage, report, failure },
        }
    }

    /// What came of the sort: what was moved, or why it failed.
    pub fn result(self) -> (r: Result<SortReport, String>)
        ensures
            self@.comes_to(r),
    {
        match self.failure {
            Some(e) => Err(e),
            None => Ok(self.report),
        }
    }
}

} // verus!
