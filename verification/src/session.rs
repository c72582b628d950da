//! The opened folder: which of its subfolders hold what, and how it comes to be opened.

use vstd::prelude::*;

use crate::listing::{
    find_subdir_ci, jpeg_dir_list, jpeg_dir_names, listing_view, raw_dir_list, raw_dir_names,
    subdir_index, subdir_index_is_first, video_dir_list, video_dir_names, Entry, EntryView,
};
use crate::media::texts;
use crate::reply::{Refusal, RefusalView, BAD_REQUEST, CONFLICT};
use crate::sorting::{
    plan_sort, scan_view, sort_plan, Scan, SortAction, SortReply, SortReplyView, SortReport,
    SortRun, SortState,
};
use crate::text::{is_safe_name, lowercase, optional_text, safe_name};

verus! {

/// The opened folder. `root` is its path as it is shown; all else are names of folders in it:
/// those of the photos, of the raw files and of the videos where there are any, that of the
/// thumbnails and that of the deleted files.
#[derive(Debug)]
pub struct Session {
    pub root: String,
    pub jpeg_dir: String,
    pub raw_dir: Option<String>,
    pub video_dir: Option<String>,
    pub thumb_cache: String,
    pub trash_dir: String,
}

/// An opened folder, with its texts as sequences of characters.
pub struct SessionView {
    pub root: Seq<char>,
    pub jpeg_dir: Seq<char>,
    pub raw_dir: Option<Seq<char>>,
    pub video_dir: Option<Seq<char>>,
    pub thumb_cache: Seq<char>,
    pub trash_dir: Seq<char>,
}

impl View for Session {
    type V = SessionView;

    open spec fn view(&self) -> SessionView {
        SessionView {
            root: self.root@,
            jpeg_dir: self.jpeg_dir@,
            raw_dir: optional_text(self.raw_dir),
            video_dir: optional_text(self.video_dir),
            thumb_cache: self.thumb_cache@,
            trash_dir: self.trash_dir@,
        }
    }
}

fn clone_text(s: &Option<String>) -> (r: Option<String>)
    ensures
        optional_text(r) == optional_text(*s),
{
    match s {
        Some(t) => Some(t.clone()),
        None => None,
    }
}

impl Clone for Session {
    fn clone(&self) -> (r: Self)
        ensures
            r@ == self@,
    {
        Session {
            root: self.root.clone(),
            jpeg_dir: self.jpeg_dir.clone(),
            raw_dir: clone_text(&self.raw_dir),
            video_dir: clone_text(&self.video_dir),
            thumb_cache: self.thumb_cache.clone(),
            trash_dir: self.trash_dir.clone(),
        }
    }
}

/// The name of the first folder of a listing that has one of the names.
pub open spec fn subdir_name(entries: Seq<EntryView>, names: Seq<Seq<char>>) -> Option<Seq<char>> {
    match subdir_index(entries, names) {
        Some(i) => Some(entries[i].name),
        None => None,
    }
}

/// The opened folder, from its listing.
pub open spec fn session_of(root: Seq<char>, entries: Seq<EntryView>) -> SessionView {
    SessionView {
        root,
        jpeg_dir: match subdir_name(entries, jpeg_dir_names()) {
            Some(n) => n,
            None => "jpegs"@,
        },
        raw_dir: subdir_name(entries, raw_dir_names()),
        video_dir: subdir_name(entries, video_dir_names()),
        thumb_cache: ".thumb_cache"@,
        trash_dir: "_deleted"@,
    }
}

fn find_subdir_name(entries: &Vec<Entry>, names: &Vec<&str>) -> (r: Option<String>)
    ensures
        optional_text(r) == subdir_name(listing_view(entries@), texts(names@)),
{
    match find_subdir_ci(entries, names) {
        Some(i) => Some(entries[i].name.clone()),
        None => None,
    }
}

/// Finds the subfolders of an opened folder in its listing.
pub fn resolve_session(root: String, entries: &Vec<Entry>) -> (r: Session)
    ensures
        r@ == session_of(root@, listing_view(entries@)),
{
    let jpeg_dir: String = match find_subdir_name(entries, &jpeg_dir_list()) {
        Some(n) => n,
        None => "jpegs".to_owned(),
    };
    Session {
        root,
        jpeg_dir,
        raw_dir: find_subdir_name(entries, &raw_dir_list()),
        video_dir: find_subdir_name(entries, &video_dir_list()),
        thumb_cache: ".thumb_cache".to_owned(),
        trash_dir: "_deleted".to_owned(),
    }
}

/// What the opening of a folder wants done next.
#[derive(Debug)]
pub enum BuildAction {
    /// List the folder, with whatever goes wrong at that.
    Scan,
    /// Do what the sort of the folder wants done.
    Sort(SortAction),
    /// List the folder again, without the entries that cannot be read.
    List,
    /// Make the folder of the thumbnails, unless it is there.
    MakeCache(String),
    /// Nothing: the opening has ended.
    Finished,
}

/// An action, with its text as a sequence of characters.
pub enum BuildActionView {
    Scan,
    Sort(SortAction),
    List,
    MakeCache(Seq<char>),
    Finished,
}

impl View for BuildAction {
    type V = BuildActionView;

    open spec fn view(&self) -> BuildActionView {
        match self {
            BuildAction::Scan => BuildActionView::Scan,
            BuildAction::Sort(a) => BuildActionView::Sort(*a),
            BuildAction::List => BuildActionView::List,
            BuildAction::MakeCache(d) => BuildActionView::MakeCache(d@),
            BuildAction::Finished => BuildActionView::Finished,
        }
    }
}

/// How what the opening of a folder wanted done went.
#[derive(Debug)]
pub enum BuildReply {
    Scanned(Scan),
    Sort(SortReply),
    Listed(Vec<Entry>),
    Cached(Result<(), String>),
}

/// A reply, with its texts as sequences of characters.
pub enum BuildReplyView {
    Scanned(Result<Seq<Result<EntryView, Seq<char>>>, Seq<char>>),
    Sort(SortReplyView),
    Listed(Seq<EntryView>),
    Cached(Result<(), Seq<char>>),
}

impl View for BuildReply {
    type V = BuildReplyView;

    open spec fn view(&self) -> BuildReplyView {
        match self {
            BuildReply::Scanned(scan) => BuildReplyView::Scanned(scan_view(*scan)),
            BuildReply::Sort(r) => BuildReplyView::Sort(r@),
            BuildReply::Listed(entries) => BuildReplyView::Listed(listing_view(entries@)),
            BuildReply::Cached(Ok(_)) => BuildReplyView::Cached(Ok(())),
            BuildReply::Cached(Err(e)) => BuildReplyView::Cached(Err(e@)),
        }
    }
}

/// How far the opening of a folder has come.
pub enum BuildStage {
    Scan,
    Sort(SortState),
    List(SortReport),
    Cache(SessionView, SortReport),
    Built(SessionView, SortReport),
    Failed(Seq<char>),
}

/// Where the opening of a folder stands: the folder's path as it is shown, its own name, and how
/// far the opening has come.
pub struct BuildState {
    pub root: Seq<char>,
    pub root_name: Option<Seq<char>>,
    pub stage: BuildStage,
}

/// A sort that is under way, or what follows its end.
pub open spec fn sort_stage(s: SortState) -> BuildStage {
    if s.action() == SortAction::Finished {
        match s.failure {
            Some(e) => BuildStage::Failed(e),
            None => BuildStage::List(s.report),
        }
    } else {
        BuildStage::Sort(s)
    }
}

impl BuildState {
    /// The opening of a folder that has not begun.
    pub open spec fn start(root: Seq<char>, root_name: Option<Seq<char>>) -> BuildState {
        BuildState { root, root_name, stage: BuildStage::Scan }
    }

    /// What the opening wants done next.
    pub open spec fn action(self) -> BuildActionView {
        match self.stage {
            BuildStage::Scan => BuildActionView::Scan,
            BuildStage::Sort(s) => BuildActionView::Sort(s.action()),
            BuildStage::List(_) => BuildActionView::List,
            BuildStage::Cache(session, _) => BuildActionView::MakeCache(session.thumb_cache),
            BuildStage::Built(_, _) => BuildActionView::Finished,
            BuildStage::Failed(_) => BuildActionView::Finished,
        }
    }

    /// `r` is what came of the opening, where it has ended: the opened folder and what was moved in
    /// it, or why it failed.
    pub open spec fn comes_to(self, r: Option<Result<(Session, SortReport), String>>) -> bool {
        match self.stage {
            BuildStage::Built(session, report) => r matches Some(Ok(b)) && b.0@ == session && b.1 == report,
            BuildStage::Failed(e) => r matches Some(Err(m)) && m@ == e,
            _ => r is None,
        }
    }

    /// Where the opening stands after a reply. The folder is sorted first. Where that fails,
    /// the opening fails with the same; else the folder's subfolders are looked up in
    /// its new listing, and the folder of the thumbnails is made. A reply to something else than what
    /// the opening wants changes nothing.
    pub open spec fn step(self, reply: BuildReplyView) -> BuildState {
        let stage = match (self.stage, reply) {
            (BuildStage::Scan, BuildReplyView::Scanned(scan)) => match sort_plan(
                self.root,
                self.root_name,
                scan,
            ) {
                Ok(moves) => sort_stage(SortState::start(moves)),
                Err(e) => BuildStage::Failed(e),
            },
            (BuildStage::Sort(s), BuildReplyView::Sort(r)) => sort_stage(s.step(r)),
            (BuildStage::List(report), BuildReplyView::Listed(entries)) => BuildStage::Cache(
                session_of(self.root, entries),
                report,
            ),
            (BuildStage::Cache(session, report), BuildReplyView::Cached(made)) => match made {
                Ok(_) => BuildStage::Built(session, report),
                Err(e) => BuildStage::Failed(e),
            },
            (stage, _) => stage,
        };
        BuildState { stage, ..self }
    }
}

enum Step {
    Scan,
    Sort(SortRun),
    List(SortReport),
    Cache(Session, SortReport),
    Built(Session, SortReport),
    Failed(String),
}

spec fn step_stage(s: Step) -> BuildStage {
    match s {
        Step::Scan => BuildStage::Scan,
        Step::Sort(run) => BuildStage::Sort(run@),
        Step::List(report) => BuildStage::List(report),
        Step::Cache(session, report) => BuildStage::Cache(session@, report),
        Step::Built(session, report) => BuildStage::Built(session@, report),
        Step::Failed(e) => BuildStage::Failed(e@),
    }
}

/// The opening of a folder, under way.
pub struct BuildRun {
    root: String,
    root_name: Option<String>,
    step: Step,
}

impl View for BuildRun {
    type V = BuildState;

    closed spec fn view(&self) -> BuildState {
        BuildState {
            root: self.root@,
            root_name: optional_text(self.root_name),
            stage: step_stage(self.step),
        }
    }
}

fn settle(run: SortRun) -> (r: Step)
    ensures
        step_stage(r) == sort_stage(run@),
{
    match run.action() {
        SortAction::Finished => match run.result() {
            Ok(report) => Step::List(report),
            Err(e) => Step::Failed(e),
        },
        _ => Step::Sort(run),
    }
}

impl BuildRun {
    /// The opening of the folder with a path and a name of its own.
    pub fn new(root: String, root_name: Option<String>) -> (r: Self)
        ensures
            r@ == BuildState::start(root@, optional_text(root_name)),
    {
        BuildRun { root, root_name, step: Step::Scan }
    }

    /// What the opening wants done next.
    pub fn action(&self) -> (r: BuildAction)
        ensures
            r@ == self@.action(),
    {
        match &self.step {
            Step::Scan => BuildAction::Scan,
            Step::Sort(run) => BuildAction::Sort(run.action()),
            Step::List(_) => BuildAction::List,
            Step::Cache(session, _) => BuildAction::MakeCache(session.thumb_cache.clone()),
            Step::Built(_, _) => BuildAction::Finished,
            Step::Failed(_) => BuildAction::Finished,
        }
    }

    /// The opening after a reply to what it wanted done.
    pub fn step(self, reply: BuildReply) -> (r: Self)
        ensures
            r@ == self@.step(reply@),
    {
        let BuildRun { root, root_name, step } = self;
        let next: Step = match (step, reply) {
            (Step::Scan, BuildReply::Scanned(scan)) => {
                let name: Option<&str> = match &root_name {
                    Some(n) => Some(n.as_str()),
                    None => None,
                };
                match plan_sort(root.as_str(), name, &scan) {
                    Ok(moves) => settle(SortRun::new(moves)),
                    Err(e) => Step::Failed(e),
                }
            },
            (Step::Sort(run), BuildReply::Sort(r)) => settle(run.step(r)),
            (Step::List(report), BuildReply::Listed(entries)) => Step::Cache(
                resolve_session(root.clone(), &entries),
                report,
            ),
            (Step::Cache(session, report), BuildReply::Cached(made)) => match made {
                Ok(_) => Step::Built(session, report),
                Err(e) => Step::Failed(e),
            },
            (s, _) => s,
        };
        BuildRun { root, root_name, step: next }
    }

    /// What came of the opening, where it has ended: the opened folder and what was moved in
    /// it, or why it failed.
    pub fn result(self) -> (r: Option<Result<(Session, SortReport), String>>)
        ensures
            self@.comes_to(r),
    {
        match self.step {
            Step::Built(session, report) => Some(Ok((session, report))),
            Step::Failed(e) => Some(Err(e)),
            _ => None,
        }
    }
}

/// The state of the browser: the opened folder, if any.
#[derive(Debug)]
pub struct AppState {
    pub session: Option<Session>,
}

/// An optional opened folder, with its texts as sequences of characters.
pub open spec fn session_view(s: Option<Session>) -> Option<SessionView> {
    match s {
        Some(t) => Some(t@),
        None => None,
    }
}

/// The folder that is open at the moment, if any.
pub fn current(state: &AppState) -> (r: Option<Session>)
    ensures
        session_view(r) == session_view(state.session),
{
    match &state.session {
        Some(s) => Some(s.clone()),
        None => None,
    }
}

/// Why a request for a file is refused: no folder is open, or the file's name is not safe.
pub open spec fn name_refusal(session: Option<SessionView>, name: Seq<char>) -> Option<RefusalView> {
    if session is None {
        Some(RefusalView { status: CONFLICT, message: "no folder selected"@ })
    } else if !is_safe_name(name) {
        Some(RefusalView { status: BAD_REQUEST, message: "bad name"@ })
    } else {
        None
    }
}

/// The opened folder, for a request for a file of it; refused where no folder is open or the
/// file's name is not safe.
pub fn session_for<'a>(session: &'a Option<Session>, name: &str) -> (r: Result<&'a Session, Refusal>)
    ensures
        match name_refusal(session_view(*session), name@) {
            Some(no) => r matches Err(e) && e@ == no,
            None => r matches Ok(s) && session_view(*session) == Some(s@),
        },
{
    match session {
        None => Err(Refusal::new(CONFLICT, "no folder selected")),
        Some(s) => match safe_name(name) {
            None => Err(Refusal::new(BAD_REQUEST, "bad name")),
            Some(_) => Ok(s),
        },
    }
}

proof fn subdir_name_fits(entries: Seq<EntryView>, names: Seq<Seq<char>>)
    ensures
        subdir_name(entries, names) matches Some(n) ==> names.contains(lowercase(n)),
{
    subdir_index_is_first(entries, names);
}

/// The subfolders of an opened folder are what they are taken for: each was found under one of the
/// names of its kind, whatever its letters' case, or is `jpegs`, in which the sort puts the
/// photos.
pub proof fn session_dirs_have_their_names(root: Seq<char>, entries: Seq<EntryView>)
    ensures
        ({
            let s = session_of(root, entries);
            &&& jpeg_dir_names().contains(lowercase(s.jpeg_dir)) || s.jpeg_dir == "jpegs"@
            &&& s.raw_dir matches Some(d) ==> raw_dir_names().contains(lowercase(d))
            &&& s.video_dir matches Some(d) ==> video_dir_names().contains(lowercase(d))
        }),
{
    subdir_name_fits(entries, jpeg_dir_names());
    subdir_name_fits(entries, raw_dir_names());
    subdir_name_fits(entries, video_dir_names());
}

} // verus!
