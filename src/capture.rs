use vstd::prelude::*;
use vstd::string::StringExecFns;

use crate::text::{decimal_of, lemma_decimal_injective, lemma_decimal_len, push_decimal};

verus! {

/// Why a capture operation did not take place.
#[derive(PartialEq, Eq, Structural, Debug, Clone, Copy)]
pub enum CaptureError {
    /// The session directory could not be created; no session was started.
    Init,
    /// A frame could not be encoded or written; the frame index stays where it was.
    Write,
    /// A frame was offered to a session that is not active.
    InvalidTransition,
}

/// `capture/<epoch millis>/frames`: the directory of the session started at
/// that time.
pub open spec fn session_dir_of(epoch_millis: nat) -> Seq<char> {
    seq!['c', 'a', 'p', 't', 'u', 'r', 'e', '/'] + decimal_of(epoch_millis) + seq![
        '/',
        'f',
        'r',
        'a',
        'm',
        'e',
        's',
    ]
}

/// `<dir>/<index>.png`: the file that holds frame `index` of a session.
pub open spec fn frame_file_of(dir: Seq<char>, index: nat) -> Seq<char> {
    dir + seq!['/'] + decimal_of(index) + seq!['.', 'p', 'n', 'g']
}

/// The frames of a session go to distinct files, all directly inside the
/// session directory: frame `i` is `<dir>/<i>.png`.
pub proof fn lemma_frame_files_distinct(dir: Seq<char>, i: nat, j: nat)
    ensures
        frame_file_of(dir, i).subrange(0, dir.len() as int + 1) == dir.push('/'),
        i != j ==> frame_file_of(dir, i) != frame_file_of(dir, j),
{
    let fi = frame_file_of(dir, i);
    let fj = frame_file_of(dir, j);
    lemma_decimal_len(i);
    assert(fi.subrange(0, dir.len() as int + 1) =~= dir.push('/'));
    if fi == fj {
        let k = dir.len() as int + 1;
        assert(fi.subrange(k, fi.len() as int - 4) =~= decimal_of(i));
        assert(fj.subrange(k, fj.len() as int - 4) =~= decimal_of(j));
        lemma_decimal_injective(i, j);
    }
}

/// The directory in which a session started at `epoch_millis` (milliseconds
/// since the Unix epoch) stores its frames. The caller creates it.
pub fn session_dir(epoch_millis: u64) -> (r: String)
    ensures
        r@ == session_dir_of(epoch_millis as nat),
{
    let mut s = String::from_str("capture/");
    push_decimal(&mut s, epoch_millis);
    s.append("/frames");
    proof {
        reveal_strlit("capture/");
        reveal_strlit("/frames");
        assert(s@ =~= session_dir_of(epoch_millis as nat));
    }
    s
}

/// What a session reports when it ends.
#[derive(Debug)]
pub struct CaptureSummary {
    pub frames: u64,
    pub dir: String,
}

/// A capture session: numbered frame files inside one directory.
///
/// The session decides names and numbering; reading back pixels, encoding and
/// writing files is done by the caller, who reports each outcome back.
#[derive(Debug)]
pub struct ScreenCapture {
    frame_number: u64,
    dir: String,
    active: bool,
}

impl ScreenCapture {
    pub closed spec fn spec_frame_number(&self) -> nat {
        self.frame_number as nat
    }

    pub closed spec fn spec_dir(&self) -> Seq<char> {
        self.dir@
    }

    pub closed spec fn spec_active(&self) -> bool {
        self.active
    }

    /// Starts a session at `epoch_millis`, once the caller has tried to create
    /// `session_dir(epoch_millis)`: `dir_created` says whether that worked.
    pub fn begin_capture(epoch_millis: u64, dir_created: bool) -> (r: Result<
        ScreenCapture,
        CaptureError,
    >)
        ensures
            dir_created <==> r is Ok,
            !dir_created ==> r == Err::<ScreenCapture, CaptureError>(CaptureError::Init),
            r matches Ok(c) ==> {
                &&& c.spec_active()
                &&& c.spec_frame_number() == 0
                &&& c.spec_dir() == session_dir_of(epoch_millis as nat)
            },
    {
        if !dir_created {
            return Err(CaptureError::Init);
        }
        Ok(ScreenCapture { frame_number: 0, dir: session_dir(epoch_millis), active: true })
    }

    /// The file that the next frame goes to.
    pub fn frame_path(&self) -> (r: Result<String, CaptureError>)
        ensures
            self.spec_active() <==> r is Ok,
            !self.spec_active() ==> r == Err::<String, CaptureError>(
                CaptureError::InvalidTransition,
            ),
            r matches Ok(p) ==> p@ == frame_file_of(self.spec_dir(), self.spec_frame_number()),
    {
        if !self.active {
            return Err(CaptureError::InvalidTransition);
        }
        let mut p = self.dir.clone();
        p.append("/");
        push_decimal(&mut p, self.frame_number);
        p.append(".png");
        proof {
            reveal_strlit("/");
            reveal_strlit(".png");
            assert(p@ =~= frame_file_of(self.spec_dir(), self.spec_frame_number()));
        }
        Ok(p)
    }

    /// Records the outcome of writing the frame at `frame_path()`: on success
    /// the index of the saved frame is returned and the next frame gets the
    /// following index; on failure nothing changes, so a retry reuses the index.
    pub fn save_frame(&mut self, written: bool) -> (r: Result<u64, CaptureError>)
        requires
            old(self).spec_frame_number() < u64::MAX,
        ensures
            final(self).spec_dir() == old(self).spec_dir(),
            final(self).spec_active() == old(self).spec_active(),
            !old(self).spec_active() ==> r == Err::<u64, CaptureError>(
                CaptureError::InvalidTransition,
            ),
            old(self).spec_active() && !written ==> r == Err::<u64, CaptureError>(
                CaptureError::Write,
            ),
            old(self).spec_active() && written ==> (r matches Ok(i) && i == old(
                self,
            ).spec_frame_number()),
            r is Ok ==> final(self).spec_frame_number() == old(self).spec_frame_number() + 1,
            r is Err ==> final(self).spec_frame_number() == old(self).spec_frame_number(),
    {
        if !self.active {
            return Err(CaptureError::InvalidTransition);
        }
        if !written {
            return Err(CaptureError::Write);
        }
        let saved = self.frame_number;
        self.frame_number = self.frame_number + 1;
        Ok(saved)
    }

    /// Ends the session and reports how many frames it saved and where.
    /// Ending a session that is no longer active changes nothing.
    pub fn end_capture(&mut self) -> (r: CaptureSummary)
        ensures
            !final(self).spec_active(),
            final(self).spec_frame_number() == old(self).spec_frame_number(),
            final(self).spec_dir() == old(self).spec_dir(),
            r.frames == old(self).spec_frame_number(),
            r.dir@ == old(self).spec_dir(),
    {
        self.active = false;
        CaptureSummary { frames: self.frame_number, dir: self.dir.clone() }
    }

    /// How many frames have been saved so far; also the index of the next one.
    pub fn frame_number(&self) -> (r: u64)
        ensures
            r == self.spec_frame_number(),
    {
        self.frame_number
    }

    /// The directory that holds the frames.
    pub fn dir(&self) -> (r: String)
        ensures
            r@ == self.spec_dir(),
    {
        self.dir.clone()
    }

    /// Whether frames can still be saved.
    pub fn is_active(&self) -> (r: bool)
        ensures
            r == self.spec_active(),
    {
        self.active
    }
}

} // verus!
