//! Deleting a photo: it moves into the folder of deleted files, its raw file with it, and its
//! thumbnail is removed.

use vstd::prelude::*;

use crate::media::texts;
use crate::order::string_texts;
use crate::reply::{Place, PlaceView, Refusal, RefusalView, INTERNAL_ERROR};
use crate::session::{name_refusal, session_for, session_view, Session, SessionView};
use crate::text::{file_stem, join_text, join_text3, optional_text, stem_of};
use crate::thumbs::{thumb_name, thumb_name_of};

verus! {

/// The extensions under which the raw file of a photo is looked for, in this order.
pub open spec fn raw_file_exts() -> Seq<Seq<char>> {
    seq![
        "ARW"@,
        "arw"@,
        "CR2"@,
        "cr2"@,
        "NEF"@,
        "nef"@,
        "DNG"@,
        "dng"@,
        "RAF"@,
        "raf"@,
    ]
}

fn raw_file_list() -> (r: Vec<&'static str>)
    ensures
        texts(r@) == raw_file_exts(),
{
    let r: Vec<&'static str> = vec![
        "ARW", "arw", "CR2", "cr2", "NEF", "nef", "DNG", "dng", "RAF", "raf",
    ];
    assert(texts(r@) =~= raw_file_exts());
    r
}

/// The name of a raw file: a stem with one of the extensions.
pub open spec fn raw_file_name(stem: Seq<char>, i: int) -> Seq<char> {
    stem + "."@ + raw_file_exts()[i]
}

/// What the deletion of a photo wants done next.
#[derive(Debug)]
pub enum DeleteAction {
    /// Make a folder, unless it is there.
    MakeDir(String),
    /// Say whether there is anything at a place.
    Probe(Place),
    /// Move a file from the first place to the second.
    Rename(Place, Place),
    /// Remove a file, if it is there.
    Remove(Place),
    /// Nothing: the request is answered.
    Finished,
}

/// An action, with its texts as sequences of characters.
pub enum DeleteActionView {
    MakeDir(Seq<char>),
    Probe(PlaceView),
    Rename(PlaceView, PlaceView),
    Remove(PlaceView),
    Finished,
}

impl View for DeleteAction {
    type V = DeleteActionView;

    open spec fn view(&self) -> DeleteActionView {
        match self {
            DeleteAction::MakeDir(d) => DeleteActionView::MakeDir(d@),
            DeleteAction::Probe(p) => DeleteActionView::Probe(p@),
            DeleteAction::Rename(p, q) => DeleteActionView::Rename(p@, q@),
            DeleteAction::Remove(p) => DeleteActionView::Remove(p@),
            DeleteAction::Finished => DeleteActionView::Finished,
        }
    }
}

/// How what the deletion of a photo wanted done went.
#[derive(Debug)]
pub enum DeleteReply {
    Made(Result<(), String>),
    Probed(bool),
    Renamed(bool),
    Removed,
}

/// A reply, with its text as a sequence of characters.
pub enum DeleteReplyView {
    Made(Result<(), Seq<char>>),
    Probed(bool),
    Renamed(bool),
    Removed,
}

impl View for DeleteReply {
    type V = DeleteReplyView;

    open spec fn view(&self) -> DeleteReplyView {
        match self {
            DeleteReply::Made(Ok(_)) => DeleteReplyView::Made(Ok(())),
            DeleteReply::Made(Err(e)) => DeleteReplyView::Made(Err(e@)),
            DeleteReply::Probed(b) => DeleteReplyView::Probed(*b),
            DeleteReply::Renamed(b) => DeleteReplyView::Renamed(*b),
            DeleteReply::Removed => DeleteReplyView::Removed,
        }
    }
}

/// How far the deletion of a photo has come. The number of a raw stage is that of the extension
/// at hand.
pub enum DeleteStage {
    MakeTrash,
    ProbePhoto,
    MovePhoto,
    ProbeRaw(int),
    MoveRaw(int),
    DropThumb,
    Done,
    Refused(RefusalView),
}

/// Where the deletion of a photo stands: the opened folder, the photo's name, how far the
/// deletion has come, and the names of the files that were moved.
pub struct DeleteState {
    pub session: SessionView,
    pub name: Seq<char>,
    pub stage: DeleteStage,
    pub moved: Seq<Seq<char>>,
}

impl DeleteState {
    /// The deletion of a photo that has not begun.
    pub open spec fn start(session: SessionView, name: Seq<char>) -> DeleteState {
        DeleteState { session, name, stage: DeleteStage::MakeTrash, moved: Seq::empty() }
    }

    /// Where the photo is.
    pub open spec fn photo(self) -> PlaceView {
        PlaceView { dir: self.session.jpeg_dir, name: self.name }
    }

    /// Where the raw file with an extension is.
    pub open spec fn raw(self, i: int) -> PlaceView {
        PlaceView {
            dir: self.session.raw_dir->0,
            name: raw_file_name(file_stem(self.name)->0, i),
        }
    }

    /// Where a file that is deleted goes.
    pub open spec fn trash(self, name: Seq<char>) -> PlaceView {
        PlaceView { dir: self.session.trash_dir, name }
    }

    /// Where the photo's thumbnail is.
    pub open spec fn thumb(self) -> PlaceView {
        PlaceView { dir: self.session.thumb_cache, name: thumb_name(self.name) }
    }

    /// There is a folder of raw files, and the photo's name has a stem to look for.
    pub open spec fn has_raws(self) -> bool {
        self.session.raw_dir is Some && file_stem(self.name) is Some
    }

    /// The stage behind those of the photo.
    pub open spec fn raw_stage(self) -> DeleteStage {
        if self.has_raws() {
            DeleteStage::ProbeRaw(0)
        } else {
            DeleteStage::DropThumb
        }
    }

    /// The raw stages are of one of the extensions, and only there where raw files can be.
    pub open spec fn wf(self) -> bool {
        match self.stage {
            DeleteStage::ProbeRaw(i) => self.has_raws() && 0 <= i < raw_file_exts().len(),
            DeleteStage::MoveRaw(i) => self.has_raws() && 0 <= i < raw_file_exts().len(),
            _ => true,
        }
    }

    /// What the deletion wants done next.
    pub open spec fn action(self) -> DeleteActionView {
        match self.stage {
            DeleteStage::MakeTrash => DeleteActionView::MakeDir(self.session.trash_dir),
            DeleteStage::ProbePhoto => DeleteActionView::Probe(self.photo()),
            DeleteStage::MovePhoto => DeleteActionView::Rename(self.photo(), self.trash(self.name)),
            DeleteStage::ProbeRaw(i) => DeleteActionView::Probe(self.raw(i)),
            DeleteStage::MoveRaw(i) => DeleteActionView::Rename(
                self.raw(i),
                self.trash(self.raw(i).name),
            ),
            DeleteStage::DropThumb => DeleteActionView::Remove(self.thumb()),
            DeleteStage::Done => DeleteActionView::Finished,
            DeleteStage::Refused(_) => DeleteActionView::Finished,
        }
    }

    /// `r` is what the request is answered, once that is settled: the names of the files that were
    /// moved, or a refusal.
    pub open spec fn comes_to(self, r: Option<Result<DeleteResult, Refusal>>) -> bool {
        match self.stage {
            DeleteStage::Done => r matches Some(Ok(d)) && d.ok && string_texts(d.deleted@) == self.moved,
            DeleteStage::Refused(no) => r matches Some(Err(e)) && e@ == no,
            _ => r is None,
        }
    }

    /// The deletion at another stage.
    pub open spec fn at(self, stage: DeleteStage) -> DeleteState {
        DeleteState { stage, ..self }
    }

    /// The deletion with one more file moved.
    pub open spec fn with(self, name: Seq<char>) -> DeleteState {
        DeleteState { moved: self.moved.push(name), ..self }
    }

    /// Where the deletion stands after a reply. Without the folder of deleted files, and
    /// where the photo is there but cannot be moved, the request is refused. Of the raw files the
    /// first that is there is moved; that it cannot be moved does no harm. Last the thumbnail is
    /// removed. A reply to something else than what the deletion wants changes nothing.
    pub open spec fn step(self, reply: DeleteReplyView) -> DeleteState {
        match (self.stage, reply) {
            (DeleteStage::MakeTrash, DeleteReplyView::Made(Ok(_))) => self.at(DeleteStage::ProbePhoto),
            (DeleteStage::MakeTrash, DeleteReplyView::Made(Err(e))) => self.at(
                DeleteStage::Refused(RefusalView { status: INTERNAL_ERROR, message: "trash: "@ + e }),
            ),
            (DeleteStage::ProbePhoto, DeleteReplyView::Probed(there)) => self.at(
                if there {
                    DeleteStage::MovePhoto
                } else {
                    self.raw_stage()
                },
            ),
            (DeleteStage::MovePhoto, DeleteReplyView::Renamed(true)) => self.with(self.name).at(
                self.raw_stage(),
            ),
            (DeleteStage::MovePhoto, DeleteReplyView::Renamed(false)) => self.at(
                DeleteStage::Refused(
                    RefusalView { status: INTERNAL_ERROR, message: "rename jpg failed"@ },
                ),
            ),
            (DeleteStage::ProbeRaw(i), DeleteReplyView::Probed(there)) => self.at(
                if there {
                    DeleteStage::MoveRaw(i)
                } else if i + 1 < raw_file_exts().len() {
                    DeleteStage::ProbeRaw(i + 1)
                } else {
                    DeleteStage::DropThumb
                },
            ),
            (DeleteStage::MoveRaw(i), DeleteReplyView::Renamed(true)) => self.with(
                self.raw(i).name,
            ).at(DeleteStage::DropThumb),
            (DeleteStage::MoveRaw(_), DeleteReplyView::Renamed(false)) => self.at(
                DeleteStage::DropThumb,
            ),
            (DeleteStage::DropThumb, DeleteReplyView::Removed) => self.at(DeleteStage::Done),
            _ => self,
        }
    }
}

enum Step {
    MakeTrash,
    ProbePhoto,
    MovePhoto,
    ProbeRaw(usize),
    MoveRaw(usize),
    DropThumb,
    Done,
    Refused(Refusal),
}

spec fn step_stage(s: Step) -> DeleteStage {
    match s {
        Step::MakeTrash => DeleteStage::MakeTrash,
        Step::ProbePhoto => DeleteStage::ProbePhoto,
        Step::MovePhoto => DeleteStage::MovePhoto,
        Step::ProbeRaw(i) => DeleteStage::ProbeRaw(i as int),
        Step::MoveRaw(i) => DeleteStage::MoveRaw(i as int),
        Step::DropThumb => DeleteStage::DropThumb,
        Step::Done => DeleteStage::Done,
        Step::Refused(r) => DeleteStage::Refused(r@),
    }
}

/// What a deletion is answered: the names of the files that were moved.
#[derive(Debug)]
pub struct DeleteResult {
    pub deleted: Vec<String>,
    pub ok: bool,
}

/// The deletion of a photo, under way.
pub struct DeleteRun {
    session: Session,
    name: String,
    stem: Option<String>,
    step: Step,
    moved: Vec<String>,
}

impl View for DeleteRun {
    type V = DeleteState;

    closed spec fn view(&self) -> DeleteState {
        DeleteState {
            session: self.session@,
            name: self.name@,
            stage: step_stage(self.step),
            moved: string_texts(self.moved@),
        }
    }
}

/// Deletes the photo that a request asks for, or says why the request is refused.
pub fn delete_photo(session: &Option<Session>, name: &str) -> (r: Result<DeleteRun, Refusal>)
    ensures
        match name_refusal(session_view(*session), name@) {
            Some(no) => r matches Err(e) && e@ == no,
            None => r matches Ok(d) && d@ == DeleteState::start(session_view(*session)->0, name@),
        },
{
    match session_for(session, name) {
        Ok(s) => {
            let stem: Option<String> = match stem_of(name) {
                Some(t) => Some(t.to_owned()),
                None => None,
            };
            let moved: Vec<String> = Vec::new();
            assert(string_texts(moved@) =~= Seq::<Seq<char>>::empty());
            Ok(
                DeleteRun {
                    session: s.clone(),
                    name: name.to_owned(),
                    stem,
                    step: Step::MakeTrash,
                    moved,
                },
            )
        },
        Err(e) => Err(e),
    }
}

impl DeleteRun {
    #[verifier::type_invariant]
    spec fn inv(self) -> bool {
        self@.wf() && optional_text(self.stem) == file_stem(self.name@)
    }

    fn raw_name(&self, i: usize) -> (r: String)
        requires
            i < raw_file_exts().len(),
            self@.has_raws(),
        ensures
            r@ == self@.raw(i as int).name,
    {
        proof {
            use_type_invariant(&*self);
        }
        let exts: Vec<&'static str> = raw_file_list();
        assert(texts(exts@)[i as int] == exts@[i as int]@);
        match &self.stem {
            Some(stem) => join_text3(stem.as_str(), ".", exts[i]),
            None => String::new(),
        }
    }

    fn raw_place(&self, i: usize) -> (r: Place)
        requires
            i < raw_file_exts().len(),
            self@.has_raws(),
        ensures
            r@ == self@.raw(i as int),
    {
        let dir: String = match &self.session.raw_dir {
            Some(d) => d.clone(),
            None => String::new(),
        };
        Place { dir, name: self.raw_name(i) }
    }

    fn trash_place(&self, name: &str) -> (r: Place)
        ensures
            r@ == self@.trash(name@),
    {
        Place::new(self.session.trash_dir.as_str(), name)
    }

    /// What the deletion wants done next.
    pub fn action(&self) -> (r: DeleteAction)
        ensures
            r@ == self@.action(),
    {
        proof {
            use_type_invariant(&*self);
        }
        match &self.step {
            Step::MakeTrash => DeleteAction::MakeDir(self.session.trash_dir.clone()),
            Step::ProbePhoto => DeleteAction::Probe(
                Place::new(self.session.jpeg_dir.as_str(), self.name.as_str()),
            ),
            Step::MovePhoto => DeleteAction::Rename(
                Place::new(self.session.jpeg_dir.as_str(), self.name.as_str()),
                self.trash_place(self.name.as_str()),
            ),
            Step::ProbeRaw(i) => DeleteAction::Probe(self.raw_place(*i)),
            Step::MoveRaw(i) => {
                let name: String = self.raw_name(*i);
                DeleteAction::Rename(self.raw_place(*i), self.trash_place(name.as_str()))
            },
            Step::DropThumb => {
                let name: String = thumb_name_of(self.name.as_str());
                DeleteAction::Remove(Place::new(self.session.thumb_cache.as_str(), name.as_str()))
            },
            Step::Done => DeleteAction::Finished,
            Step::Refused(_) => DeleteAction::Finished,
        }
    }

    fn raw_step(&self) -> (r: Step)
        ensures
            step_stage(r) == self@.raw_stage(),
    {
        proof {
            use_type_invariant(&*self);
        }
        if self.session.raw_dir.is_some() && self.stem.is_some() {
            Step::ProbeRaw(0)
        } else {
            Step::DropThumb
        }
    }

    fn with_step(self, step: Step) -> (r: Self)
        requires
            self@.at(step_stage(step)).wf(),
        ensures
            r@ == self@.at(step_stage(step)),
    {
        proof {
            use_type_invariant(&self);
        }
        let DeleteRun { session, name, stem, step: _, moved } = self;
        DeleteRun { session, name, stem, step, moved }
    }

    fn with_moved(self, file: String, step: Step) -> (r: Self)
        requires
            self@.at(step_stage(step)).wf(),
        ensures
            r@ == self@.with(file@).at(step_stage(step)),
    {
        proof {
            use_type_invariant(&self);
        }
        let DeleteRun { session, name, stem, step: _, moved } = self;
        let mut all: Vec<String> = moved;
        let ghost before = all@;
        all.push(file);
        assert(string_texts(all@) =~= string_texts(before).push(file@));
        DeleteRun { session, name, stem, step, moved: all }
    }

    /// The deletion after a reply to what it wanted done.
    pub fn step(self, reply: DeleteReply) -> (r: Self)
        ensures
            r@ == self@.step(reply@),
            r@.wf(),
    {
        proof {
            use_type_invariant(&self);
        }
        match (&self.step, reply) {
            (Step::MakeTrash, DeleteReply::Made(Ok(_))) => self.with_step(Step::ProbePhoto),
            (Step::MakeTrash, DeleteReply::Made(Err(e))) => {
                let text: String = join_text("trash: ", e.as_str());
                self.with_step(Step::Refused(Refusal { status: INTERNAL_ERROR, message: text }))
            },
            (Step::ProbePhoto, DeleteReply::Probed(there)) => {
                let next: Step = if there {
                    Step::MovePhoto
                } else {
                    self.raw_step()
                };
                self.with_step(next)
            },
            (Step::MovePhoto, DeleteReply::Renamed(done)) => if done {
                let next: Step = self.raw_step();
                let file: String = self.name.clone();
                self.with_moved(file, next)
            } else {
                self.with_step(
                    Step::Refused(Refusal::new(INTERNAL_ERROR, "rename jpg failed")),
                )
            },
            (Step::ProbeRaw(i), DeleteReply::Probed(there)) => {
                let k: usize = *i;
                let exts: Vec<&'static str> = raw_file_list();
                assert(texts(exts@).len() == exts@.len());
                let next: Step = if there {
                    Step::MoveRaw(k)
                } else if k + 1 < exts.len() {
                    Step::ProbeRaw(k + 1)
                } else {
                    Step::DropThumb
                };
                self.with_step(next)
            },
            (Step::MoveRaw(i), DeleteReply::Renamed(done)) => if done {
                let file: String = self.raw_name(*i);
                self.with_moved(file, Step::DropThumb)
            } else {
                self.with_step(Step::DropThumb)
            },
            (Step::DropThumb, DeleteReply::Removed) => self.with_step(Step::Done),
            _ => self,
        }
    }

    /// What the request is answered, once that is settled.
    pub fn result(self) -> (r: Option<Result<DeleteResult, Refusal>>)
        ensures
            self@.comes_to(r),
    {
        match self.step {
            Step::Done => Some(Ok(DeleteResult { deleted: self.moved, ok: true })),
            Step::Refused(r) => Some(Err(r)),
            _ => None,
        }
    }
}

} // verus!
