//! Sending a thumbnail: the one kept from before where it is not older than its photo, else a
//! new one.

use vstd::prelude::*;

use crate::reply::{FileReply, Place, PlaceView, Refusal, RefusalView, INTERNAL_ERROR, NOT_FOUND};
use crate::session::{name_refusal, session_for, session_view, Session, SessionView};
use crate::text::{extended_name_stays_in_its_folder, is_component, is_safe_name, join_text};

verus! {

/// When a file was changed last: seconds since 1970, and the billionths of a second behind
/// them.
#[derive(Clone, Copy, Debug, PartialEq, Eq, Structural)]
pub struct Stamp {
    pub secs: i64,
    pub nanos: u32,
}

/// What can be told of a file: nothing where it is not there; else when it was changed last,
/// unless that is not kept.
pub type Meta = Option<Option<Stamp>>;

/// `a` is not before `b`.
pub open spec fn not_before(a: Stamp, b: Stamp) -> bool {
    a.secs > b.secs || (a.secs == b.secs && a.nanos >= b.nanos)
}

/// A kept thumbnail can be sent: it and its photo are there, and it was not changed before
/// the photo. A time that is not kept counts as one before all others.
pub open spec fn thumb_is_fresh(thumb: Meta, src: Meta) -> bool {
    match (thumb, src) {
        (Some(t), Some(s)) => match (t, s) {
            (Some(a), Some(b)) => not_before(a, b),
            (_, None) => true,
            (None, Some(_)) => false,
        },
        _ => false,
    }
}

/// Whether a kept thumbnail can be sent.
pub fn is_fresh(thumb: Meta, src: Meta) -> (r: bool)
    ensures
        r == thumb_is_fresh(thumb, src),
{
    match (thumb, src) {
        (Some(t), Some(s)) => match (t, s) {
            (Some(a), Some(b)) => a.secs > b.secs || (a.secs == b.secs && a.nanos >= b.nanos),
            (_, None) => true,
            (None, Some(_)) => false,
        },
        _ => false,
    }
}

/// What the sending of a thumbnail wants done next.
#[derive(Clone, Copy, Debug, PartialEq, Eq, Structural)]
pub enum ThumbAction {
    /// Look at the kept thumbnail and at the photo.
    Stat,
    /// Make the thumbnail from the photo and keep it.
    Generate,
    /// Read the kept thumbnail.
    Read,
    /// Nothing: the request is answered.
    Finished,
}

/// How what the sending of a thumbnail wanted done went.
#[derive(Debug)]
pub enum ThumbReply {
    /// What can be told of the kept thumbnail and of the photo.
    Stated(Meta, Meta),
    /// What came of making the thumbnail, and of the task that it was given to.
    Generated(Result<Result<(), String>, String>),
    /// The bytes of the kept thumbnail, if it could be read.
    Read(Option<Vec<u8>>),
}

/// How far the sending of a thumbnail has come.
pub enum ThumbStage {
    Stat,
    Generate,
    Read,
    Sent(Seq<u8>),
    Refused(RefusalView),
}

/// Where the sending of a thumbnail stands: the places of the photo and of its thumbnail, and
/// how far the sending has come.
pub struct ThumbState {
    pub src: PlaceView,
    pub thumb: PlaceView,
    pub stage: ThumbStage,
}

/// The name under which the thumbnail of a photo is kept.
pub open spec fn thumb_name(name: Seq<char>) -> Seq<char> {
    name + ".thumb.jpg"@
}

/// The name under which the thumbnail of a photo is kept.
pub fn thumb_name_of(name: &str) -> (r: String)
    ensures
        r@ == thumb_name(name@),
{
    join_text(name, ".thumb.jpg")
}

impl ThumbState {
    /// The sending of a photo's thumbnail that has not begun.
    pub open spec fn start(session: SessionView, name: Seq<char>) -> ThumbState {
        ThumbState {
            src: PlaceView { dir: session.jpeg_dir, name },
            thumb: PlaceView { dir: session.thumb_cache, name: thumb_name(name) },
            stage: ThumbStage::Stat,
        }
    }

    /// What the sending wants done next.
    pub open spec fn action(self) -> ThumbAction {
        match self.stage {
            ThumbStage::Stat => ThumbAction::Stat,
            ThumbStage::Generate => ThumbAction::Generate,
            ThumbStage::Read => ThumbAction::Read,
            _ => ThumbAction::Finished,
        }
    }

    /// `r` is what the request is answered, once that is settled: the thumbnail, or a refusal.
    pub open spec fn comes_to(self, r: Option<Result<FileReply, Refusal>>) -> bool {
        match self.stage {
            ThumbStage::Sent(bytes) => r matches Some(Ok(f)) && is_thumb_reply(f, bytes),
            ThumbStage::Refused(no) => r matches Some(Err(e)) && e@ == no,
            _ => r is None,
        }
    }

    /// Where the sending stands after a reply. A thumbnail that is not fresh is made first;
    /// where that fails, the request is refused with the reason. A reply to something else
    /// than what the sending wants changes nothing.
    pub open spec fn step(self, reply: ThumbReply) -> ThumbState {
        let stage = match (self.stage, reply) {
            (ThumbStage::Stat, ThumbReply::Stated(thumb, src)) => if thumb_is_fresh(thumb, src) {
                ThumbStage::Read
            } else {
                ThumbStage::Generate
            },
            (ThumbStage::Generate, ThumbReply::Generated(made)) => match made {
                Ok(Ok(_)) => ThumbStage::Read,
                Ok(Err(e)) => ThumbStage::Refused(
                    RefusalView { status: INTERNAL_ERROR, message: "thumb error: "@ + e@ },
                ),
                Err(e) => ThumbStage::Refused(
                    RefusalView { status: INTERNAL_ERROR, message: "join error: "@ + e@ },
                ),
            },
            (ThumbStage::Read, ThumbReply::Read(read)) => match read {
                Some(bytes) => ThumbStage::Sent(bytes@),
                None => ThumbStage::Refused(
                    RefusalView { status: NOT_FOUND, message: "not found"@ },
                ),
            },
            (stage, _) => stage,
        };
        ThumbState { stage, ..self }
    }
}

enum Step {
    Stat,
    Generate,
    Read,
    Sent(Vec<u8>),
    Refused(Refusal),
}

spec fn step_stage(s: Step) -> ThumbStage {
    match s {
        Step::Stat => ThumbStage::Stat,
        Step::Generate => ThumbStage::Generate,
        Step::Read => ThumbStage::Read,
        Step::Sent(bytes) => ThumbStage::Sent(bytes@),
        Step::Refused(r) => ThumbStage::Refused(r@),
    }
}

/// The sending of a thumbnail, under way.
pub struct ThumbRun {
    src: Place,
    thumb: Place,
    step: Step,
}

impl View for ThumbRun {
    type V = ThumbState;

    closed spec fn view(&self) -> ThumbState {
        ThumbState { src: self.src@, thumb: self.thumb@, stage: step_stage(self.step) }
    }
}

/// Sends the thumbnail that a request asks for, or says why it is refused.
pub fn serve_thumb(session: &Option<Session>, name: &str) -> (r: Result<ThumbRun, Refusal>)
    ensures
        match name_refusal(session_view(*session), name@) {
            Some(no) => r matches Err(e) && e@ == no,
            None => r matches Ok(t) && t@ == ThumbState::start(session_view(*session)->0, name@),
        },
{
    match session_for(session, name) {
        Ok(s) => {
            let kept: String = thumb_name_of(name);
            Ok(
                ThumbRun {
                    src: Place::new(s.jpeg_dir.as_str(), name),
                    thumb: Place::new(s.thumb_cache.as_str(), kept.as_str()),
                    step: Step::Stat,
                },
            )
        },
        Err(e) => Err(e),
    }
}

impl ThumbRun {
    /// Where the photo is.
    pub fn src(&self) -> (r: &Place)
        ensures
            r@ == self@.src,
    {
        &self.src
    }

    /// Where its thumbnail is kept.
    pub fn thumb(&self) -> (r: &Place)
        ensures
            r@ == self@.thumb,
    {
        &self.thumb
    }

    /// What the sending wants done next.
    pub fn action(&self) -> (r: ThumbAction)
        ensures
            r == self@.action(),
    {
        match &self.step {
            Step::Stat => ThumbAction::Stat,
            Step::Generate => ThumbAction::Generate,
            Step::Read => ThumbAction::Read,
            _ => ThumbAction::Finished,
        }
    }

    /// The sending after a reply to what it wanted done.
    pub fn step(self, reply: ThumbReply) -> (r: Self)
        ensures
            r@ == self@.step(reply),
    {
        let ThumbRun { src, thumb, step } = self;
        let next: Step = match (step, reply) {
            (Step::Stat, ThumbReply::Stated(t, s)) => if is_fresh(t, s) {
                Step::Read
            } else {
                Step::Generate
            },
            (Step::Generate, ThumbReply::Generated(made)) => match made {
                Ok(Ok(_)) => Step::Read,
                Ok(Err(e)) => {
                    let text: String = join_text("thumb error: ", e.as_str());
                    Step::Refused(Refusal { status: INTERNAL_ERROR, message: text })
                },
                Err(e) => {
                    let text: String = join_text("join error: ", e.as_str());
                    Step::Refused(Refusal { status: INTERNAL_ERROR, message: text })
                },
            },
            (Step::Read, ThumbReply::Read(read)) => match read {
                Some(bytes) => Step::Sent(bytes),
                None => Step::Refused(Refusal::new(NOT_FOUND, "not found")),
            },
            (s, _) => s,
        };
        ThumbRun { src, thumb, step: next }
    }

    /// What the request is answered, once that is settled: the thumbnail as a JPEG, to be kept
    /// for a day, or a refusal.
    pub fn result(self) -> (r: Option<Result<FileReply, Refusal>>)
        ensures
            self@.comes_to(r),
    {
        match self.step {
            Step::Sent(bytes) => Some(
                Ok(
                    FileReply {
                        content_type: "image/jpeg".to_owned(),
                        cache_control: "public, max-age=86400".to_owned(),
                        body: bytes,
                    },
                ),
            ),
            Step::Refused(r) => Some(Err(r)),
            _ => None,
        }
    }
}

/// A thumbnail as it is sent.
pub open spec fn is_thumb_reply(r: FileReply, body: Seq<u8>) -> bool {
    &&& r.content_type@ == "image/jpeg"@
    &&& r.cache_control@ == "public, max-age=86400"@
    &&& r.body@ == body
}

/// A kept thumbnail is read only after it was found fresh or has just been made.
pub proof fn only_fresh_thumbnails_are_read(s: ThumbState, reply: ThumbReply)
    requires
        s.stage !is Read,
        s.step(reply).stage is Read,
    ensures
        match reply {
            ThumbReply::Stated(thumb, src) => s.stage is Stat && thumb_is_fresh(thumb, src),
            ThumbReply::Generated(made) => s.stage is Generate && made matches Ok(Ok(_)),
            ThumbReply::Read(_) => false,
        },
{
}

/// The sending of a thumbnail keeps to the photo and the thumbnail that it began with. The
/// photo is in the folder of photos, and its thumbnail directly in that of the thumbnails.
pub proof fn thumbnails_stay_in_their_folders(
    session: SessionView,
    name: Seq<char>,
    s: ThumbState,
    reply: ThumbReply,
)
    requires
        is_safe_name(name),
    ensures
        ThumbState::start(session, name).src == (PlaceView { dir: session.jpeg_dir, name }),
        ThumbState::start(session, name).thumb.dir == session.thumb_cache,
        is_component(ThumbState::start(session, name).thumb.name),
        s.step(reply).src == s.src,
        s.step(reply).thumb == s.thumb,
{
    thumb_name_is_component(name);
}

/// The name under which a thumbnail is kept is one component of a path.
pub proof fn thumb_name_is_component(name: Seq<char>)
    requires
        is_safe_name(name),
    ensures
        is_component(thumb_name(name)),
{
    reveal_strlit(".thumb.jpg");
    let tail = ".thumb.jpg"@;
    assert(tail =~= seq!['.', 't', 'h', 'u', 'm', 'b', '.', 'j', 'p', 'g']);
    assert(!tail.contains('/') && !tail.contains('\\'));
    extended_name_stays_in_its_folder(name, tail);
}

} // verus!
