//! The authenticated upload session and the per-recording streaming
//! transfer, modelled as a state machine.
//!
//! The HTTP transport, the frame-feed channel and the spawned upload task
//! live outside the library. The orchestration loop hands each frame to
//! [`Client::send_frame_framereader`], which decides whether to begin a
//! new transfer or feed the open one, and returns the action to perform;
//! the loop reports failures back through [`Client::reset_transfer`] and
//! closes a recording through [`Client::close_feed`] and
//! [`Client::take_task`].

use vstd::prelude::*;
use vstd::string::StringExecFns;

use crate::motiondetection::Frame;
use crate::motiondetection::filename_spec;
use crate::motiondetection::gen_filename;
use crate::textops::contains_chars;
use crate::textops::dec_str;
use crate::textops::str_contains;
use crate::textops::usize_to_string;

verus! {

/// What the orchestration loop must do with one frame of the streaming
/// path.
pub enum TransferAction {
    /// Open a bounded frame-feed channel, spawn the upload task posting to
    /// the endpoint for `(video_num, fps, frame_len)`, and push `payload`
    /// as the first chunk.
    Begin { video_num: usize, fps: usize, frame_len: usize, payload: Vec<u8> },
    /// Push `payload` into the already-open channel.
    Feed { payload: Vec<u8> },
}

/// Abstract view of the per-recording transfer state.
pub struct TransferModel {
    pub tx_open: bool,
    pub task_open: bool,
    pub tasks_started: nat,
    pub fed: Seq<Seq<u8>>,
}

/// One frame arriving at the orchestration loop: the first frame of a
/// recording begins a transfer, every later frame feeds the open one.
pub open spec fn step_frame(m: TransferModel, payload: Seq<u8>) -> TransferModel {
    if !m.tx_open {
        TransferModel {
            tx_open: true,
            task_open: true,
            tasks_started: m.tasks_started + 1,
            fed: seq![payload],
        }
    } else {
        TransferModel {
            tx_open: m.tx_open,
            task_open: m.task_open,
            tasks_started: m.tasks_started,
            fed: m.fed.push(payload),
        }
    }
}

/// The transfer state after a whole run of frames has arrived.
pub open spec fn feed_all(m: TransferModel, payloads: Seq<Seq<u8>>) -> TransferModel
    decreases payloads.len(),
{
    if payloads.len() == 0 {
        m
    } else {
        step_frame(feed_all(m, payloads.drop_last()), payloads.last())
    }
}

/// Feeding a recording of one or more frames into a clean transfer state
/// begins exactly one upload task, and the task is fed every payload of
/// the recording in arrival order.
pub proof fn lemma_recording_feeds_once_in_order(m: TransferModel, payloads: Seq<Seq<u8>>)
    requires
        !m.tx_open,
        payloads.len() > 0,
    ensures
        feed_all(m, payloads).tasks_started == m.tasks_started + 1,
        feed_all(m, payloads).fed == payloads,
        feed_all(m, payloads).tx_open,
        feed_all(m, payloads).task_open,
    decreases payloads.len(),
{
    if payloads.len() == 1 {
        assert(payloads.drop_last().len() == 0);
        assert(feed_all(m, payloads.drop_last()) == m);
        assert(feed_all(m, payloads) == step_frame(m, payloads.last()));
        assert(feed_all(m, payloads).fed =~= payloads);
    } else {
        lemma_recording_feeds_once_in_order(m, payloads.drop_last());
        assert(feed_all(m, payloads).fed =~= payloads);
    }
}

/// Holds the upload session's credentials and address, and models the
/// per-recording transfer: whether the frame-feed sender and the task
/// handle are live, how many tasks were spawned, and what was fed.
pub struct Client {
    /// base address of the server
    pub addr: String,
    pub username: String,
    pub password: String,
    /// models the frame-feed sender: true while a recording's channel is
    /// open
    pub tx_open: bool,
    /// models the upload-task handle
    pub task_open: bool,
    /// upload tasks spawned since construction
    pub tasks_started: u64,
    /// payloads handed to the current recording's channel, oldest first
    pub fed: Ghost<Seq<Seq<u8>>>,
    /// how many payloads were handed to the current recording's channel
    pub frames_fed: u64,
}

impl Client {
    /// A live sender always belongs to a live task, and the fed counter
    /// counts the ghost feed log.
    pub open spec fn inv(&self) -> bool {
        &&& (self.tx_open ==> self.task_open)
        &&& self.fed@.len() == self.frames_fed
    }

    /// The abstract transfer state.
    pub open spec fn model(&self) -> TransferModel {
        TransferModel {
            tx_open: self.tx_open,
            task_open: self.task_open,
            tasks_started: self.tasks_started as nat,
            fed: self.fed@,
        }
    }

    pub fn new(addr: String, username: String, password: String) -> (r: Client)
        ensures
            r.inv(),
            r.addr == addr,
            r.username == username,
            r.password == password,
            !r.tx_open,
            !r.task_open,
            r.tasks_started == 0,
            r.frames_fed == 0,
            r.fed@ == Seq::<Seq<u8>>::empty(),
    {
        Client {
            addr,
            username,
            password,
            tx_open: false,
            task_open: false,
            tasks_started: 0,
            fed: Ghost(Seq::empty()),
            frames_fed: 0,
        }
    }

    /// Decides what to do with one frame of the streaming path: the first
    /// frame of a recording begins the transfer (fresh channel, one new
    /// upload task, the frame as first chunk), every later frame feeds
    /// the open channel.
    pub fn send_frame_framereader(&mut self, frame: Frame) -> (a: TransferAction)
        requires
            old(self).inv(),
            old(self).tasks_started < u64::MAX,
            old(self).frames_fed < u64::MAX,
        ensures
            final(self).inv(),
            final(self).model() == step_frame(old(self).model(), frame.frame_bytes@),
            final(self).addr == old(self).addr,
            final(self).username == old(self).username,
            final(self).password == old(self).password,
            !old(self).tx_open ==> (a matches TransferAction::Begin {
                video_num,
                fps,
                frame_len,
                payload,
            } && video_num == frame.video_num && fps == frame.fps && frame_len
                == frame.frame_bytes@.len() && payload@ == frame.frame_bytes@),
            old(self).tx_open ==> (a matches TransferAction::Feed { payload } && payload@
                == frame.frame_bytes@),
    {
        let video_num = frame.video_num;
        let fps = frame.fps;
        if !self.tx_open {
            self.tx_open = true;
            self.task_open = true;
            self.tasks_started = self.tasks_started + 1;
            let ghost first_fed = seq![frame.frame_bytes@];
            self.fed = Ghost(first_fed);
            self.frames_fed = 1;
            let frame_len = frame.frame_bytes.len();
            let a = TransferAction::Begin { video_num, fps, frame_len, payload: frame.frame_bytes };
            proof {
                assert(final(self).model() =~~= step_frame(old(self).model(), frame.frame_bytes@));
            }
            a
        } else {
            self.fed = Ghost(self.fed@.push(frame.frame_bytes@));
            self.frames_fed = self.frames_fed + 1;
            let a = TransferAction::Feed { payload: frame.frame_bytes };
            proof {
                assert(final(self).model() =~~= step_frame(old(self).model(), frame.frame_bytes@));
            }
            a
        }
    }

    /// Clears the whole per-recording state after a failed push: the
    /// stale sender and task handle must not swallow the next recording's
    /// frames.
    pub fn reset_transfer(&mut self)
        ensures
            final(self).inv(),
            !final(self).tx_open,
            !final(self).task_open,
            final(self).frames_fed == 0,
            final(self).fed@ == Seq::<Seq<u8>>::empty(),
            final(self).tasks_started == old(self).tasks_started,
            final(self).addr == old(self).addr,
            final(self).username == old(self).username,
            final(self).password == old(self).password,
    {
        self.tx_open = false;
        self.task_open = false;
        self.fed = Ghost(Seq::empty());
        self.frames_fed = 0;
    }

    /// Drops the frame-feed sender once the recording's end frame has
    /// been fed, so the upload task observes end-of-stream.
    pub fn close_feed(&mut self) -> (had: bool)
        requires
            old(self).inv(),
        ensures
            final(self).inv(),
            had == old(self).tx_open,
            !final(self).tx_open,
            final(self).task_open == old(self).task_open,
            final(self).tasks_started == old(self).tasks_started,
            final(self).fed@ == old(self).fed@,
            final(self).frames_fed == old(self).frames_fed,
            final(self).addr == old(self).addr,
            final(self).username == old(self).username,
            final(self).password == old(self).password,
    {
        let had = self.tx_open;
        self.tx_open = false;
        had
    }

    /// Takes the task handle for the bounded drain that follows an end
    /// frame; the handle is cleared whatever the drain's outcome.
    pub fn take_task(&mut self) -> (had: bool)
        requires
            old(self).inv(),
            !old(self).tx_open,
        ensures
            final(self).inv(),
            had == old(self).task_open,
            !final(self).tx_open,
            !final(self).task_open,
            final(self).tasks_started == old(self).tasks_started,
            final(self).fed@ == old(self).fed@,
            final(self).frames_fed == old(self).frames_fed,
            final(self).addr == old(self).addr,
            final(self).username == old(self).username,
            final(self).password == old(self).password,
    {
        let had = self.task_open;
        self.task_open = false;
        had
    }
}

/// A login response body shows the logged-in state exactly when it offers
/// the logout marker.
pub open spec fn login_succeeded(body: Seq<char>) -> bool {
    contains_chars(body, "Logout"@)
}

/// A logout response body shows the logged-out state exactly when it
/// offers the login marker.
pub open spec fn logout_succeeded(body: Seq<char>) -> bool {
    contains_chars(body, "Login"@)
}

/// Decides a login attempt from the response body: success exactly when
/// the logged-in marker is present, an authentication error otherwise.
pub fn check_login_response(body: &str) -> (r: Result<(), String>)
    ensures
        r is Ok <==> login_succeeded(body@),
        r is Err ==> r->Err_0@ == "login failed"@,
{
    if str_contains(body, "Logout") {
        Ok(())
    } else {
        Err(String::from_str("login failed"))
    }
}

/// Decides a logout attempt from the response body: success exactly when
/// the logged-out marker is present.
pub fn check_logout_response(body: &str) -> (r: Result<(), String>)
    ensures
        r is Ok <==> logout_succeeded(body@),
        r is Err ==> r->Err_0@ == "logout failed"@,
{
    if str_contains(body, "Login") {
        Ok(())
    } else {
        Err(String::from_str("logout failed"))
    }
}

/// Relative URL of the streaming upload endpoint for one recording.
pub open spec fn upload_path_spec(video_num: nat, fps: nat, frame_len: nat) -> Seq<char> {
    "upload/"@ + dec_str(video_num) + "/"@ + dec_str(fps) + "/"@ + dec_str(frame_len)
}

/// Builds the relative URL the upload task posts the recording to.
pub fn upload_path(video_num: usize, fps: usize, frame_len: usize) -> (r: String)
    ensures
        r@ == upload_path_spec(video_num as nat, fps as nat, frame_len as nat),
{
    let mut path = String::from_str("upload/");
    let v = usize_to_string(video_num);
    path.append(v.as_str());
    path.append("/");
    let f = usize_to_string(fps);
    path.append(f.as_str());
    path.append("/");
    let l = usize_to_string(frame_len);
    path.append(l.as_str());
    proof {
        assert(path@ =~= upload_path_spec(video_num as nat, fps as nat, frame_len as nat));
    }
    path
}

/// Relative URL of the legacy batch-clip endpoint.
pub open spec fn frame_range_path_spec(video_num: nat, frame_count: nat, fps: nat) -> Seq<char> {
    "new_video_ffmpeg/"@ + dec_str(video_num) + "/e/"@ + dec_str(frame_count) + "/"@ + dec_str(fps)
        + "/"@
}

/// Builds the relative URL of the legacy batch-clip upload.
pub fn frame_range_path(video_num: usize, frame_count: usize, fps: usize) -> (r: String)
    ensures
        r@ == frame_range_path_spec(video_num as nat, frame_count as nat, fps as nat),
{
    let mut path = String::from_str("new_video_ffmpeg/");
    let v = usize_to_string(video_num);
    path.append(v.as_str());
    path.append("/e/");
    let c = usize_to_string(frame_count);
    path.append(c.as_str());
    path.append("/");
    let f = usize_to_string(fps);
    path.append(f.as_str());
    path.append("/");
    proof {
        assert(path@ =~= frame_range_path_spec(
            video_num as nat,
            frame_count as nat,
            fps as nat,
        ));
    }
    path
}

/// The staged filenames of one legacy batch clip, in frame order.
pub fn frame_range_filenames(video_num: usize, frame_count: u64) -> (r: Vec<String>)
    ensures
        r@.len() == frame_count,
        forall|i: int|
            0 <= i < frame_count ==> (#[trigger] r@[i])@ == filename_spec(
                i as nat,
                video_num as nat,
            ),
{
    let mut names: Vec<String> = Vec::new();
    let mut i: u64 = 0;
    while i < frame_count
        invariant
            i <= frame_count,
            names@.len() == i,
            forall|j: int|
                0 <= j < i ==> (#[trigger] names@[j])@ == filename_spec(
                    j as nat,
                    video_num as nat,
                ),
        decreases frame_count - i,
    {
        names.push(gen_filename(&i, &video_num));
        i += 1;
    }
    names
}

} // verus!
