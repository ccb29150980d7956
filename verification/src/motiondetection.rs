//! Frame capture types and the recording state machine.
//!
//! The capture loop runs on its own thread outside the library; each
//! iteration it hands the raw frame buffer, the decode outcome and the
//! current clock reading to [`CaptureState::process_capture`], which owns
//! every decision: shifting the rolling three-frame window, classifying
//! motion, driving the recording state machine, and producing the
//! [`FrameCommand`] values to send downstream.

use vstd::prelude::*;
use vstd::slice::slice_to_vec;
use vstd::string::StringExecFns;

use crate::grayimage::GrayFrame;
use crate::grayimage::MOVEMENT_PIXEL_THRESHOLD;
use crate::grayimage::frame_ok;
use crate::grayimage::lemma_dims_bound_len;
use crate::grayimage::movement_score_spec;
use crate::grayimage::window_movement_score;
use crate::textops::dec_str;
use crate::textops::u64_to_string;
use crate::textops::usize_to_string;

verus! {

/// One decoded capture unit travelling from the capture loop to the
/// orchestrator and on to the upload task.
#[derive(Debug, Clone)]
pub struct Frame {
    pub video_num: usize,
    pub frame_bytes: Vec<u8>,
    pub fps: usize,
    pub end: bool,
}

/// Command sent from the capture loop to the orchestration loop.
///
/// `Error` carries any message thrown during the frame reading loop.
/// `FrameRange` is the legacy batch-clip signal: frames saved as files
/// named `{video num}.{frame num}.jpg`, where the second number is the
/// count of frames in the clip. `SingleFrame` carries one frame of the
/// streaming path.
#[derive(Debug, Clone)]
pub enum FrameCommand {
    Error(String),
    /// video_num, frame count, frame rate
    FrameRange(usize, u64, usize),
    SingleFrame(Frame),
}

/// What the JPEG decoder yields for a byte buffer: width, height and the
/// row-major grayscale pixels, or nothing when the buffer does not decode.
pub uninterp spec fn jpeg_gray_of(bytes: Seq<u8>) -> Option<(nat, nat, Seq<u8>)>;

/// Relies on image's `JpegDecoder`, `DynamicImage::from_decoder` and
/// `to_luma8`: decoding is a pure function of the bytes; a decoded
/// `Luma<u8>` buffer holds exactly width * height samples; and JPEG
/// stores its dimensions in 16-bit fields, so neither side exceeds 65535.
#[verifier::external_body]
fn decode(jpg: &[u8]) -> (r: Result<GrayFrame, String>)
    ensures
        r is Ok <==> jpeg_gray_of(jpg@) is Some,
        r is Ok ==> r->Ok_0.width as nat == (jpeg_gray_of(jpg@)->0).0,
        r is Ok ==> r->Ok_0.height as nat == (jpeg_gray_of(jpg@)->0).1,
        r is Ok ==> r->Ok_0.pixels@ == (jpeg_gray_of(jpg@)->0).2,
        r is Ok ==> r->Ok_0.wf() && r->Ok_0.width <= 65535 && r->Ok_0.height <= 65535,
{
    let decoder = match image::codecs::jpeg::JpegDecoder::new(std::io::Cursor::new(jpg)) {
        Ok(d) => d,
        Err(e) => return Err(e.to_string()),
    };
    match image::DynamicImage::from_decoder(decoder) {
        Ok(img) => {
            let g = img.to_luma8();
            let (width, height) = g.dimensions();
            Ok(GrayFrame { width, height, pixels: g.into_raw() })
        }
        Err(e) => Err(e.to_string()),
    }
}

/// The filename under which one frame of the legacy batch path is staged.
pub open spec fn filename_spec(framecounter: nat, videocounter: nat) -> Seq<char> {
    "video_frames/"@ + dec_str(videocounter) + "."@ + dec_str(framecounter) + ".jpg"@
}

/// Builds the staging filename for a frame counter and a video counter.
pub fn gen_filename(framecounter: &u64, videocounter: &usize) -> (r: String)
    ensures
        r@ == filename_spec(*framecounter as nat, *videocounter as nat),
{
    let mut filename = String::from_str("video_frames/");
    let v = usize_to_string(*videocounter);
    filename.append(v.as_str());
    filename.append(".");
    let f = u64_to_string(*framecounter);
    filename.append(f.as_str());
    filename.append(".jpg");
    proof {
        assert(filename@ =~= filename_spec(*framecounter as nat, *videocounter as nat));
    }
    filename
}

/// One ghost record of an emitted `SingleFrame`: the counters at the
/// moment of emission and whether the frame closed its recording.
pub struct EmittedFrame {
    pub video: nat,
    pub frame: nat,
    pub end: bool,
}

/// Lexicographic order on emission records.
pub open spec fn emitted_lt(a: EmittedFrame, b: EmittedFrame) -> bool {
    a.video < b.video || (a.video == b.video && a.frame < b.frame)
}

/// Some record in `log` closes recording `v`.
pub open spec fn has_end(log: Seq<EmittedFrame>, v: nat) -> bool {
    exists|i: int| 0 <= i < log.len() && (#[trigger] log[i]).video == v && log[i].end
}

/// Shape of the emission log against the two counters: emission order is
/// strictly increasing, every recording starts at frame 0 and counts up
/// by one, each closed recording holds exactly one end record as its last
/// record, and the open recording (the current counters) has no end yet.
pub open spec fn log_inv_raw(log: Seq<EmittedFrame>, vc: nat, fc: nat) -> bool {
    &&& (forall|i: int| 0 <= i < log.len() ==> (#[trigger] log[i]).video <= vc)
    &&& (forall|i: int|
        0 <= i < log.len() && (#[trigger] log[i]).video == vc ==> !log[i].end && log[i].frame
            < fc)
    &&& (forall|i: int, j: int|
        0 <= i < j < log.len() ==> emitted_lt(#[trigger] log[i], #[trigger] log[j]))
    &&& (forall|i: int, j: int|
        0 <= i < j < log.len() && (#[trigger] log[i]).end ==> log[i].video
            < (#[trigger] log[j]).video)
    &&& (forall|i: int|
        0 < i < log.len() && (#[trigger] log[i]).video == log[i - 1].video ==> log[i].frame
            == log[i - 1].frame + 1 && !log[i - 1].end)
    &&& (forall|i: int|
        0 < i < log.len() ==> ((#[trigger] log[i]).video == log[i - 1].video || (log[i].video
            == log[i - 1].video + 1 && log[i - 1].end)))
    &&& (forall|i: int|
        0 <= i < log.len() && (i == 0 || log[i - 1].video != (#[trigger] log[i]).video)
            ==> log[i].frame == 0)
    &&& (forall|v: nat| v < vc ==> #[trigger] has_end(log, v))
    &&& (fc > 0 ==> log.len() > 0 && log.last().video == vc && log.last().frame == fc - 1
        && !log.last().end)
    &&& (fc == 0 ==> log.len() == 0 || (log.last().end && log.last().video + 1 == vc))
}

#[verifier::rlimit(60)]
proof fn lemma_log_push(log: Seq<EmittedFrame>, vc: nat, fc: nat, end: bool)
    requires
        log_inv_raw(log, vc, fc),
    ensures
        end ==> log_inv_raw(log.push(EmittedFrame { video: vc, frame: fc, end }), vc + 1, 0),
        !end ==> log_inv_raw(log.push(EmittedFrame { video: vc, frame: fc, end }), vc, fc + 1),
{
    let e = EmittedFrame { video: vc, frame: fc, end };
    let l2 = log.push(e);
    let n = log.len() as int;
    assert(l2.len() == n + 1);
    assert(forall|i: int| 0 <= i < n ==> l2[i] == log[i]);
    assert(l2[n] == e);
    assert(l2.last() == e);
    let vc2 = if end {
        vc + 1
    } else {
        vc
    };
    let fc2: nat = if end {
        0
    } else {
        fc + 1
    };
    assert forall|i: int| 0 <= i < l2.len() implies (#[trigger] l2[i]).video <= vc2 by {
        if i < n {
            assert(log[i].video <= vc);
        }
    }
    assert forall|i: int|
        0 <= i < l2.len() && (#[trigger] l2[i]).video == vc2 implies !l2[i].end && l2[i].frame
            < fc2 by {
        if end {
            if i < n {
                assert(log[i].video <= vc);
                assert(false);
            } else {
                assert(l2[i].video == vc);
                assert(false);
            }
        } else {
            if i < n {
                assert(log[i].frame < fc);
            }
        }
    }
    assert forall|i: int, j: int|
        0 <= i < j < l2.len() implies emitted_lt(#[trigger] l2[i], #[trigger] l2[j]) by {
        if j == n {
            assert(l2[i] == log[i]);
            assert(log[i].video <= vc);
            if log[i].video == vc {
                assert(log[i].frame < fc);
            }
        }
    }
    assert forall|i: int, j: int|
        0 <= i < j < l2.len() && (#[trigger] l2[i]).end implies l2[i].video
            < (#[trigger] l2[j]).video by {
        if j == n {
            assert(l2[i] == log[i]);
            assert(log[i].video <= vc);
            if log[i].video == vc {
                assert(!log[i].end);
            }
        }
    }
    assert forall|i: int|
        0 < i < l2.len() && (#[trigger] l2[i]).video == l2[i - 1].video implies l2[i].frame == l2[i
        - 1].frame + 1 && !l2[i - 1].end by {
        if i == n {
            assert(l2[i - 1] == log.last());
            if fc == 0 {
                assert(n > 0);
                assert(log.last().end && log.last().video + 1 == vc);
                assert(false);
            } else {
                assert(log.last().video == vc && log.last().frame == fc - 1 && !log.last().end);
            }
        }
    }
    assert forall|i: int|
        0 < i < l2.len() implies ((#[trigger] l2[i]).video == l2[i - 1].video || (l2[i].video == l2[
        i - 1].video + 1 && l2[i - 1].end)) by {
        if i == n {
            assert(l2[i - 1] == log.last());
            if fc == 0 {
                assert(log.last().end && log.last().video + 1 == vc);
            } else {
                assert(log.last().video == vc);
            }
        }
    }
    assert forall|i: int|
        0 <= i < l2.len() && (i == 0 || l2[i - 1].video != (#[trigger] l2[i]).video) implies l2[
        i].frame == 0 by {
        if i == n {
            if n == 0 {
                assert(fc == 0);
            } else {
                assert(l2[i - 1] == log.last());
                if fc > 0 {
                    assert(log.last().video == vc);
                } else {
                    assert(log.last().end && log.last().video + 1 == vc);
                }
            }
        }
    }
    assert forall|v: nat| v < vc2 implies #[trigger] has_end(l2, v) by {
        if v < vc {
            assert(has_end(log, v));
            let i = choose|i: int|
                0 <= i < log.len() && (#[trigger] log[i]).video == v && log[i].end;
            assert(l2[i] == log[i]);
            assert(l2[i].video == v && l2[i].end);
        } else {
            assert(l2[n].video == v && l2[n].end);
        }
    }
}

/// The rolling window, the recording state machine and the frame-rate
/// estimate owned by the capture loop.
pub struct CaptureState {
    pub frame1: Option<GrayFrame>,
    pub frame2: Option<GrayFrame>,
    pub frame3: Option<GrayFrame>,
    /// clock reading (ms) when movement was last detected, or None when
    /// no recording is open
    pub last_movement: Option<u64>,
    pub framecounter: u64,
    pub videocounter: usize,
    /// clock reading (ms) of the last frame-rate recomputation
    pub framerate_time: u64,
    pub framerate_counter: usize,
    pub fps: usize,
    /// seconds to keep recording after the last detected movement
    pub cooldown_secs: u64,
    /// ghost log of every emitted `SingleFrame`
    pub emitted: Ghost<Seq<EmittedFrame>>,
}

impl CaptureState {
    /// Every held frame is well formed and all held frames share one size.
    pub open spec fn window_inv(&self) -> bool {
        &&& (self.frame1 is Some ==> frame_ok(self.frame1->0))
        &&& (self.frame2 is Some ==> frame_ok(self.frame2->0))
        &&& (self.frame3 is Some ==> frame_ok(self.frame3->0))
        &&& (self.frame1 is Some && self.frame2 is Some ==> self.frame1->0.same_dims(
            &self.frame2->0,
        ))
        &&& (self.frame2 is Some && self.frame3 is Some ==> self.frame2->0.same_dims(
            &self.frame3->0,
        ))
        &&& (self.frame1 is Some && self.frame3 is Some ==> self.frame1->0.same_dims(
            &self.frame3->0,
        ))
    }

    pub open spec fn log_inv(&self) -> bool {
        log_inv_raw(self.emitted@, self.videocounter as nat, self.framecounter as nat)
    }

    pub open spec fn inv(&self) -> bool {
        self.window_inv() && self.log_inv()
    }

    /// The classifier runs when the window is full after the shift.
    pub open spec fn will_classify(&self, dec: Result<GrayFrame, String>) -> bool {
        dec is Ok && self.frame2 is Some && self.frame3 is Some
    }

    /// Movement score of the shifted window, in the pre-state view.
    pub open spec fn shifted_score(&self, f: GrayFrame) -> nat {
        movement_score_spec(self.frame2->0, self.frame3->0, f)
    }

    /// A recording is open and the cooldown has not lapsed: the frame is
    /// emitted as part of the recording.
    pub open spec fn emits_continue(&self, dec: Result<GrayFrame, String>, now_ms: u64) -> bool {
        &&& self.will_classify(dec)
        &&& self.last_movement is Some
        &&& (now_ms - self.last_movement->0) / 1000 < self.cooldown_secs
    }

    /// A recording is open and the cooldown has lapsed: the frame closes
    /// the recording.
    pub open spec fn emits_end(&self, dec: Result<GrayFrame, String>, now_ms: u64) -> bool {
        &&& self.will_classify(dec)
        &&& self.last_movement is Some
        &&& (now_ms - self.last_movement->0) / 1000 >= self.cooldown_secs
    }

    pub fn new(cooldown_secs: u64, now_ms: u64) -> (r: CaptureState)
        ensures
            r.inv(),
            r.frame1 is None && r.frame2 is None && r.frame3 is None,
            r.last_movement is None,
            r.framecounter == 0,
            r.videocounter == 0,
            r.framerate_time == now_ms,
            r.framerate_counter == 0,
            r.fps == 25,
            r.cooldown_secs == cooldown_secs,
            r.emitted@ == Seq::<EmittedFrame>::empty(),
    {
        CaptureState {
            frame1: None,
            frame2: None,
            frame3: None,
            last_movement: None,
            framecounter: 0,
            videocounter: 0,
            framerate_time: now_ms,
            framerate_counter: 0,
            fps: 25,
            cooldown_secs,
            emitted: Ghost(Seq::empty()),
        }
    }

    /// One capture-loop iteration after the decode step: shifts the
    /// rolling window, classifies the window, drives the recording state
    /// machine and the frame-rate estimate, and returns the commands to
    /// send downstream. A decode failure is reported and changes nothing
    /// but the frame-rate estimate.
    pub fn process_decoded(
        &mut self,
        raw: &[u8],
        dec: Result<GrayFrame, String>,
        now_ms: u64,
    ) -> (cmds: Vec<FrameCommand>)
        requires
            old(self).inv(),
            now_ms >= old(self).framerate_time,
            old(self).last_movement is Some ==> now_ms >= old(self).last_movement->0,
            old(self).framecounter < u64::MAX,
            old(self).videocounter < usize::MAX,
            old(self).framerate_counter < usize::MAX,
            dec is Ok ==> frame_ok(dec->Ok_0),
            dec is Ok && old(self).frame2 is Some ==> dec->Ok_0.same_dims(&old(self).frame2->0),
            dec is Ok && old(self).frame3 is Some ==> dec->Ok_0.same_dims(&old(self).frame3->0),
        ensures
            final(self).inv(),
            final(self).cooldown_secs == old(self).cooldown_secs,
            // the rolling window shifts on a successful decode only
            dec is Ok ==> final(self).frame1 == old(self).frame2 && final(self).frame2 == old(self).frame3 && final(self).frame3 == Some(dec->Ok_0),
            dec is Err ==> final(self).frame1 == old(self).frame1 && final(self).frame2 == old(self).frame2 && final(self).frame3 == old(self).frame3,
            // frame-rate estimate: recomputed once the second is over
            now_ms - old(self).framerate_time >= 1000 ==> final(self).framerate_counter == 0
                && final(self).framerate_time == now_ms && final(self).fps == old(self).framerate_counter + 1,
            now_ms - old(self).framerate_time < 1000 ==> final(self).framerate_counter == old(self).framerate_counter + 1 && final(self).framerate_time == old(self).framerate_time
                && final(self).fps == old(self).fps,
            // recording state machine
            old(self).will_classify(dec) && old(self).shifted_score(dec->Ok_0)
                > MOVEMENT_PIXEL_THRESHOLD ==> final(self).last_movement == Some(now_ms),
            old(self).will_classify(dec) && old(self).shifted_score(dec->Ok_0)
                <= MOVEMENT_PIXEL_THRESHOLD && old(self).emits_end(dec, now_ms) ==> final(self).last_movement is None,
            !(old(self).will_classify(dec) && (old(self).shifted_score(dec->Ok_0)
                > MOVEMENT_PIXEL_THRESHOLD || old(self).emits_end(dec, now_ms))) ==> final(self).last_movement == old(self).last_movement,
            old(self).emits_continue(dec, now_ms) ==> final(self).framecounter == old(self).framecounter + 1 && final(self).videocounter == old(self).videocounter,
            old(self).emits_end(dec, now_ms) ==> final(self).framecounter == 0 && final(self).videocounter == old(self).videocounter + 1,
            !(old(self).emits_continue(dec, now_ms) || old(self).emits_end(dec, now_ms))
                ==> final(self).framecounter == old(self).framecounter && final(self).videocounter
                == old(self).videocounter,
            // emitted commands; a frame is only ever emitted while a
            // recording is open
            forall|k: int|
                0 <= k < cmds@.len() && (#[trigger] cmds@[k]) is SingleFrame ==> old(
                    self,
                ).last_movement is Some,
            dec is Err ==> cmds@.len() == 1 && (cmds@[0] matches FrameCommand::Error(m) && m@
                == dec->Err_0@),
            old(self).emits_continue(dec, now_ms) ==> cmds@.len() == 1 && (cmds@[0] matches
                FrameCommand::SingleFrame(f) && f.video_num == old(self).videocounter
                && f.frame_bytes@ == raw@ && f.fps == old(self).fps && !f.end),
            old(self).emits_end(dec, now_ms) ==> cmds@.len() == 1 && (cmds@[0] matches
                FrameCommand::SingleFrame(f) && f.video_num == old(self).videocounter
                && f.frame_bytes@ == raw@ && f.fps == old(self).fps && f.end),
            dec is Ok && !(old(self).emits_continue(dec, now_ms) || old(self).emits_end(
                dec,
                now_ms,
            )) ==> cmds@.len() == 0,
            // ghost emission log
            old(self).emits_continue(dec, now_ms) ==> final(self).emitted@ == old(self).emitted@.push(
                EmittedFrame {
                    video: old(self).videocounter as nat,
                    frame: old(self).framecounter as nat,
                    end: false,
                },
            ),
            old(self).emits_end(dec, now_ms) ==> final(self).emitted@ == old(self).emitted@.push(
                EmittedFrame {
                    video: old(self).videocounter as nat,
                    frame: old(self).framecounter as nat,
                    end: true,
                },
            ),
            !(old(self).emits_continue(dec, now_ms) || old(self).emits_end(dec, now_ms)) ==> final(self).emitted@ == old(self).emitted@,
    {
        let mut cmds: Vec<FrameCommand> = Vec::new();
        match dec {
            Ok(frame) => {
                self.frame1 = self.frame2.take();
                self.frame2 = self.frame3.take();
                self.frame3 = Some(frame);
                let score_opt: Option<u32> = match (&self.frame1, &self.frame2, &self.frame3) {
                    (Some(f1), Some(f2), Some(f3)) => {
                        proof {
                            lemma_dims_bound_len(f1.width as nat, f1.height as nat);
                        }
                        Some(window_movement_score(f1, f2, f3))
                    },
                    _ => None,
                };
                if let Some(score) = score_opt {
                    if let Some(time) = self.last_movement {
                        let elapsed = (now_ms - time) / 1000;
                        let ghost oldlog = self.emitted@;
                        let ghost vc = self.videocounter as nat;
                        let ghost fc = self.framecounter as nat;
                        if elapsed < self.cooldown_secs {
                            cmds.push(
                                FrameCommand::SingleFrame(
                                    Frame {
                                        video_num: self.videocounter,
                                        frame_bytes: slice_to_vec(raw),
                                        fps: self.fps,
                                        end: false,
                                    },
                                ),
                            );
                            self.emitted = Ghost(
                                oldlog.push(EmittedFrame { video: vc, frame: fc, end: false }),
                            );
                            self.framecounter = self.framecounter + 1;
                            proof {
                                lemma_log_push(oldlog, vc, fc, false);
                            }
                        } else {
                            cmds.push(
                                FrameCommand::SingleFrame(
                                    Frame {
                                        video_num: self.videocounter,
                                        frame_bytes: slice_to_vec(raw),
                                        fps: self.fps,
                                        end: true,
                                    },
                                ),
                            );
                            self.emitted = Ghost(
                                oldlog.push(EmittedFrame { video: vc, frame: fc, end: true }),
                            );
                            self.last_movement = None;
                            self.videocounter = self.videocounter + 1;
                            self.framecounter = 0;
                            proof {
                                lemma_log_push(oldlog, vc, fc, true);
                            }
                        }
                    }
                    if score > MOVEMENT_PIXEL_THRESHOLD {
                        self.last_movement = Some(now_ms);
                    }
                }
            },
            Err(e) => {
                cmds.push(FrameCommand::Error(e));
            },
        }
        self.framerate_counter = self.framerate_counter + 1;
        if now_ms - self.framerate_time >= 1000 {
            self.fps = self.framerate_counter;
            self.framerate_counter = 0;
            self.framerate_time = now_ms;
        }
        cmds
    }

    /// The decoded frame's size disagrees with a frame already held in
    /// the window (given that the buffer decodes at all).
    pub open spec fn grab_mismatch(&self, b: Seq<u8>) -> bool {
        jpeg_gray_of(b) is Some && ((self.frame2 is Some && !(self.frame2->0.width as nat == (
        jpeg_gray_of(b)->0).0 && self.frame2->0.height as nat == (jpeg_gray_of(b)->0).1)) || (
        self.frame3 is Some && !(self.frame3->0.width as nat == (jpeg_gray_of(b)->0).0
            && self.frame3->0.height as nat == (jpeg_gray_of(b)->0).1)))
    }

    /// The buffer decodes to a frame whose size agrees with the window.
    pub open spec fn grab_decodes(&self, b: Seq<u8>) -> bool {
        jpeg_gray_of(b) is Some && !self.grab_mismatch(b)
    }

    /// The window will be full once the new frame is shifted in.
    pub open spec fn window_full(&self) -> bool {
        self.frame2 is Some && self.frame3 is Some
    }

    /// A recording is open and the cooldown has not lapsed.
    pub open spec fn emits_continue_decoded(&self, now_ms: u64) -> bool {
        &&& self.window_full()
        &&& self.last_movement is Some
        &&& (now_ms - self.last_movement->0) / 1000 < self.cooldown_secs
    }

    /// A recording is open and the cooldown has lapsed.
    pub open spec fn emits_end_decoded(&self, now_ms: u64) -> bool {
        &&& self.window_full()
        &&& self.last_movement is Some
        &&& (now_ms - self.last_movement->0) / 1000 >= self.cooldown_secs
    }

    /// One full capture-loop iteration. A failed grab is reported and
    /// changes nothing; otherwise the buffer is decoded and drives the
    /// recording state machine. Returns None when the decoded frame's
    /// size disagrees with the window, leaving the state unchanged: the
    /// caller must treat that as a fatal precondition violation of the
    /// classifier.
    pub fn process_capture(&mut self, grab: Option<&[u8]>, now_ms: u64) -> (r: Option<
        Vec<FrameCommand>,
    >)
        requires
            old(self).inv(),
            now_ms >= old(self).framerate_time,
            old(self).last_movement is Some ==> now_ms >= old(self).last_movement->0,
            old(self).framecounter < u64::MAX,
            old(self).videocounter < usize::MAX,
            old(self).framerate_counter < usize::MAX,
        ensures
            final(self).inv(),
            final(self).cooldown_secs == old(self).cooldown_secs,
            // a failed grab is reported and retried; nothing moves
            grab is None ==> *final(self) == *old(self) && r is Some && r->0.len() == 1 && (
            r->0[0] matches FrameCommand::Error(m) && m@ == "failed to capture frame"@),
            // a size disagreement stops the pipeline before any state change
            grab is Some ==> (r is None <==> old(self).grab_mismatch(grab->0@)),
            grab is Some && r is None ==> *final(self) == *old(self),
            // a buffer that does not decode is reported; only the
            // frame-rate estimate moves
            grab is Some && jpeg_gray_of(grab->0@) is None ==> r is Some && r->0.len() == 1
                && r->0[0] is Error && final(self).frame1 == old(self).frame1 && final(self).frame2
                == old(self).frame2 && final(self).frame3 == old(self).frame3 && final(self).last_movement == old(self).last_movement && final(self).framecounter == old(self).framecounter && final(self).videocounter == old(self).videocounter && final(self).emitted@ == old(self).emitted@,
            // a decoded frame shifts the window and carries what the
            // decoder yielded for the buffer
            grab is Some && old(self).grab_decodes(grab->0@) ==> final(self).frame1 == old(self).frame2 && final(self).frame2 == old(self).frame3 && final(self).frame3 is Some
                && final(self).frame3->0.width as nat == (jpeg_gray_of(grab->0@)->0).0 && final(self).frame3->0.height as nat == (jpeg_gray_of(grab->0@)->0).1 && final(self).frame3->0.pixels@ == (jpeg_gray_of(grab->0@)->0).2,
            // the recording state machine, over the score of the shifted
            // window
            grab is Some && old(self).grab_decodes(grab->0@) && old(self).window_full()
                && movement_score_spec(old(self).frame2->0, old(self).frame3->0, final(self).frame3->0) > MOVEMENT_PIXEL_THRESHOLD ==> final(self).last_movement == Some(now_ms),
            grab is Some && old(self).grab_decodes(grab->0@) && old(self).window_full()
                && movement_score_spec(old(self).frame2->0, old(self).frame3->0, final(self).frame3->0) <= MOVEMENT_PIXEL_THRESHOLD && old(self).emits_end_decoded(now_ms)
                ==> final(self).last_movement is None,
            grab is Some && old(self).grab_decodes(grab->0@) && !(old(self).window_full() && (
            movement_score_spec(old(self).frame2->0, old(self).frame3->0, final(self).frame3->0)
                > MOVEMENT_PIXEL_THRESHOLD || old(self).emits_end_decoded(now_ms))) ==> final(self).last_movement == old(self).last_movement,
            grab is Some && old(self).grab_decodes(grab->0@) && old(self).emits_continue_decoded(
                now_ms,
            ) ==> final(self).framecounter == old(self).framecounter + 1 && final(self).videocounter == old(self).videocounter && r is Some && r->0.len() == 1 && (
            r->0[0] matches FrameCommand::SingleFrame(f) && f.video_num == old(self).videocounter
                && f.frame_bytes@ == grab->0@ && f.fps == old(self).fps && !f.end) && final(self).emitted@ == old(self).emitted@.push(
                EmittedFrame {
                    video: old(self).videocounter as nat,
                    frame: old(self).framecounter as nat,
                    end: false,
                },
            ),
            grab is Some && old(self).grab_decodes(grab->0@) && old(self).emits_end_decoded(
                now_ms,
            ) ==> final(self).framecounter == 0 && final(self).videocounter == old(self).videocounter + 1 && r is Some && r->0.len() == 1 && (r->0[0] matches
                FrameCommand::SingleFrame(f) && f.video_num == old(self).videocounter
                && f.frame_bytes@ == grab->0@ && f.fps == old(self).fps && f.end) && final(self).emitted@ == old(self).emitted@.push(
                EmittedFrame {
                    video: old(self).videocounter as nat,
                    frame: old(self).framecounter as nat,
                    end: true,
                },
            ),
            grab is Some && old(self).grab_decodes(grab->0@) && !(old(self).emits_continue_decoded(now_ms) || old(self).emits_end_decoded(now_ms)) ==> final(self).framecounter == old(self).framecounter && final(self).videocounter == old(self).videocounter && r is Some && r->0.len() == 0 && final(self).emitted@ == old(self).emitted@,
            // the frame-rate estimate moves whenever a buffer was handled
            grab is Some && r is Some && now_ms - old(self).framerate_time >= 1000 ==> final(self).framerate_counter == 0 && final(self).framerate_time == now_ms && final(self).fps
                == old(self).framerate_counter + 1,
            grab is Some && r is Some && now_ms - old(self).framerate_time < 1000 ==> final(self).framerate_counter == old(self).framerate_counter + 1 && final(self).framerate_time
                == old(self).framerate_time && final(self).fps == old(self).fps,
    {
        match grab {
            None => {
                let mut cmds: Vec<FrameCommand> = Vec::new();
                cmds.push(FrameCommand::Error(String::from_str("failed to capture frame")));
                Some(cmds)
            },
            Some(buf) => {
                let dec = decode(buf);
                if let Ok(g) = &dec {
                    let mismatch2 = match &self.frame2 {
                        Some(f) => f.width != g.width || f.height != g.height,
                        None => false,
                    };
                    let mismatch3 = match &self.frame3 {
                        Some(f) => f.width != g.width || f.height != g.height,
                        None => false,
                    };
                    if mismatch2 || mismatch3 {
                        return None;
                    }
                }
                Some(self.process_decoded(buf, dec, now_ms))
            },
        }
    }
}

/// Within one recording, frames are emitted with strictly increasing
/// frame numbers, and every recording's numbering starts at frame 0, so
/// the frame counter resets exactly once per video-counter increment.
pub proof fn lemma_emission_order(s: CaptureState)
    requires
        s.inv(),
    ensures
        forall|i: int, j: int|
            0 <= i < j < s.emitted@.len() && (#[trigger] s.emitted@[i]).video
                == (#[trigger] s.emitted@[j]).video ==> s.emitted@[i].frame < s.emitted@[j].frame,
        forall|i: int|
            0 <= i < s.emitted@.len() && (i == 0 || s.emitted@[i - 1].video
                != (#[trigger] s.emitted@[i]).video) ==> s.emitted@[i].frame == 0,
{
    let log = s.emitted@;
    assert forall|i: int, j: int|
        0 <= i < j < log.len() && (#[trigger] log[i]).video
            == (#[trigger] log[j]).video implies log[i].frame < log[j].frame by {
        assert(emitted_lt(log[i], log[j]));
    }
}

/// Each closed recording is closed by exactly one end frame, the end
/// frame is the last of its recording, and no end frame carries the
/// still-open video number.
pub proof fn lemma_single_end_per_recording(s: CaptureState)
    requires
        s.inv(),
    ensures
        forall|v: nat| v < s.videocounter ==> #[trigger] has_end(s.emitted@, v),
        forall|i: int, j: int|
            0 <= i < j < s.emitted@.len() && (#[trigger] s.emitted@[i]).end
                ==> s.emitted@[i].video != (#[trigger] s.emitted@[j]).video,
        forall|i: int|
            0 <= i < s.emitted@.len() && (#[trigger] s.emitted@[i]).end ==> s.emitted@[i].video
                < s.videocounter,
{
}

/// Guards the capture thread: the thread itself lives outside the
/// library, but whether one may be spawned is decided here.
pub struct MotionDetector {
    /// index of the video device, e.g. 0 for /dev/video0
    pub video_device: u32,
    /// seconds to keep recording after the last detected movement
    pub cooldown_secs: u64,
    /// whether a capture thread is currently running
    pub started: bool,
}

impl MotionDetector {
    pub fn new(video_device: u32, cooldown_secs: u64) -> (r: MotionDetector)
        ensures
            r.video_device == video_device,
            r.cooldown_secs == cooldown_secs,
            !r.started,
    {
        MotionDetector { video_device, cooldown_secs, started: false }
    }

    /// Claims the right to run the capture thread. A second call while a
    /// thread is running fails and changes nothing, so no second thread
    /// is ever spawned.
    pub fn start_detection(&mut self) -> (r: Result<(), String>)
        ensures
            old(self).started ==> r is Err && *final(self) == *old(self),
            old(self).started ==> r->Err_0@ == "already started"@,
            !old(self).started ==> r is Ok && final(self).started,
            final(self).video_device == old(self).video_device,
            final(self).cooldown_secs == old(self).cooldown_secs,
    {
        if self.started {
            return Err(String::from_str("already started"));
        }
        self.started = true;
        Ok(())
    }

    /// Releases the claim once the capture thread has been signalled to
    /// exit and joined.
    pub fn stop_detection(&mut self)
        ensures
            !final(self).started,
            final(self).video_device == old(self).video_device,
            final(self).cooldown_secs == old(self).cooldown_secs,
    {
        self.started = false;
    }
}

} // verus!
