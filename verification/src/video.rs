//! Ordered sequences of planar frames with a read cursor.
//!
//! The frames of a sequence are shared between all handles that were
//! duplicated from one another; every handle has a cursor of its own.

use crate::error::FrameError;
use crate::planar::{Yuv420P, Yuv420PView};
use std::sync::Arc;
use vstd::prelude::*;

verus! {

/// The mathematical values of a sequence of frames.
pub open spec fn frame_views(frames: Seq<Yuv420P>) -> Seq<Yuv420PView> {
    frames.map_values(|frame: Yuv420P| frame@)
}

/// A handle on a shared sequence of frames, with its own cursor.
#[derive(Debug)]
pub struct VideoBuffer {
    width: u32,
    height: u32,
    frames: Arc<Vec<Yuv420P>>,
    cursor: usize,
}

/// The mathematical value of a [`VideoBuffer`].
pub struct VideoBufferView {
    pub width: nat,
    pub height: nat,
    pub frames: Seq<Yuv420PView>,
    pub cursor: nat,
}

impl VideoBufferView {
    /// There is at least one frame, and every frame has the width and
    /// height of the sequence.
    pub open spec fn well_formed(self) -> bool {
        &&& self.frames.len() > 0
        &&& forall|i: int|
            0 <= i < self.frames.len() ==> {
                &&& (#[trigger] self.frames[i]).width == self.width
                &&& self.frames[i].height == self.height
            }
    }

    /// The cursor has passed the last frame.
    pub open spec fn at_end(self) -> bool {
        self.cursor >= self.frames.len()
    }

    /// The frame under the cursor, if the cursor has not passed the last one.
    pub open spec fn current(self) -> Option<Yuv420PView> {
        if self.at_end() {
            None
        } else {
            Some(self.frames[self.cursor as int])
        }
    }

    /// The sequence after one read: the cursor moves on by one frame unless
    /// it has passed the last one, where it stays.
    pub open spec fn advanced(self) -> VideoBufferView {
        if self.at_end() {
            self
        } else {
            VideoBufferView { cursor: self.cursor + 1, ..self }
        }
    }

    /// The sequence with the cursor at `position`.
    pub open spec fn with_cursor(self, position: nat) -> VideoBufferView {
        VideoBufferView { cursor: position, ..self }
    }

    /// The sequence after `reads` reads, one after another.
    pub open spec fn advanced_by(self, reads: nat) -> VideoBufferView
        decreases reads,
    {
        if reads == 0 {
            self
        } else {
            self.advanced().advanced_by((reads - 1) as nat)
        }
    }
}

/// Reads move the cursor on frame by frame up to the end of the frames and
/// no further, and never back: after `reads` reads a cursor that had not
/// passed the last frame stands `reads` frames on, or at the end if fewer
/// frames were left, and a cursor that had passed it stands where it was.
pub proof fn lemma_reads_in_order(handle: VideoBufferView, reads: nat)
    ensures
        handle.advanced_by(reads) == handle.with_cursor(
            if handle.at_end() {
                handle.cursor
            } else if handle.cursor + reads <= handle.frames.len() {
                handle.cursor + reads
            } else {
                handle.frames.len()
            },
        ),
    decreases reads,
{
    if reads > 0 {
        lemma_reads_in_order(handle.advanced(), (reads - 1) as nat);
    }
}

/// Reading from a duplicate of a handle leaves the handle as it was: the
/// duplicate alone moves on, by one frame, over the same frames, and what
/// was read is the frame that the handle itself would read next.
///
/// `duplicate` is what [`VideoBuffer::as_fresh_cursor`] returns for
/// `handle`, and `moved` what [`VideoBuffer::next`] leaves of the duplicate.
pub proof fn lemma_duplicate_moves_alone(
    handle: VideoBufferView,
    duplicate: VideoBufferView,
    moved: VideoBufferView,
)
    requires
        duplicate == handle,
        moved == duplicate.advanced(),
    ensures
        moved.frames == handle.frames,
        moved.width == handle.width,
        moved.height == handle.height,
        duplicate.current() == handle.current(),
        !handle.at_end() ==> moved.cursor == handle.cursor + 1,
        handle.at_end() ==> moved == handle,
        moved.with_cursor(handle.cursor) == handle,
{
}

/// Once the cursor has passed the last frame, reading returns nothing and
/// leaves the cursor where it is, however often it is tried.
pub proof fn lemma_end_is_final(handle: VideoBufferView)
    requires
        handle.at_end(),
    ensures
        handle.current() is None,
        handle.advanced() == handle,
        handle.advanced().at_end(),
{
}

/// A cursor that is set to a position reads the frame at that position
/// next, if there is one, and nothing otherwise.
pub proof fn lemma_set_cursor_then_read(handle: VideoBufferView, position: nat)
    ensures
        position < handle.frames.len() ==> handle.with_cursor(position).current() == Some(
            handle.frames[position as int],
        ),
        position >= handle.frames.len() ==> handle.with_cursor(position).current() is None,
        handle.with_cursor(position).frames == handle.frames,
{
}

/// All frames of the list have the width and the height of the first.
pub open spec fn uniform(frames: Seq<Yuv420PView>) -> bool {
    forall|i: int|
        0 <= i < frames.len() ==> {
            &&& (#[trigger] frames[i]).width == frames[0].width
            &&& frames[i].height == frames[0].height
        }
}

/// The sequence made of a list of frames: the frames in their order, with
/// the width and height of the first and the cursor on it. None is made of
/// a list without frames, nor of frames that differ in width or height.
pub open spec fn sequence_of_frames(frames: Seq<Yuv420PView>) -> Result<
    VideoBufferView,
    FrameError,
> {
    if frames.len() == 0 {
        Err(FrameError::Empty)
    } else if !uniform(frames) {
        Err(FrameError::MixedDimensions)
    } else {
        Ok(VideoBufferView { width: frames[0].width, height: frames[0].height, frames, cursor: 0 })
    }
}

/// What a result says in terms of mathematical values.
pub open spec fn result_view(result: Result<VideoBuffer, FrameError>) -> Result<
    VideoBufferView,
    FrameError,
> {
    match result {
        Ok(buffer) => Ok(buffer@),
        Err(error) => Err(error),
    }
}

impl View for VideoBuffer {
    type V = VideoBufferView;

    closed spec fn view(&self) -> VideoBufferView {
        VideoBufferView {
            width: self.width as nat,
            height: self.height as nat,
            frames: frame_views(self.frames@),
            cursor: self.cursor as nat,
        }
    }
}

/// Takes the list out of its `Arc` with `Arc::try_unwrap`, which hands the
/// value over when no other handle shares it and hands the same `Arc` back
/// otherwise.
#[verifier::external_body]
fn take_unshared(frames: Arc<Vec<Yuv420P>>) -> (taken: Result<Vec<Yuv420P>, Arc<Vec<Yuv420P>>>)
    ensures
        match taken {
            Ok(list) => list == *frames,
            Err(shared) => shared == frames,
        },
{
    Arc::try_unwrap(frames)
}

/// Copies every frame of a list.
fn copy_frames(frames: &Vec<Yuv420P>) -> (copies: Vec<Yuv420P>)
    ensures
        frame_views(copies@) == frame_views(frames@),
{
    let mut copies: Vec<Yuv420P> = Vec::with_capacity(frames.len());
    let mut i: usize = 0;
    while i < frames.len()
        invariant
            i <= frames.len(),
            copies@.len() == i,
            forall|k: int| 0 <= k < i ==> copies@[k]@ == frames@[k]@,
        decreases frames.len() - i,
    {
        copies.push(frames[i].clone());
        i += 1;
    }
    copies
}

/// Position of the first frame whose width or height differs from that of
/// the first frame, if there is one.
fn first_mismatch(frames: &Vec<Yuv420P>) -> (found: Option<usize>)
    requires
        frames@.len() > 0,
    ensures
        found is None <==> uniform(frame_views(frames@)),
        found matches Some(at) ==> at < frames@.len() && (frames@[at as int].width
            != frames@[0].width || frames@[at as int].height != frames@[0].height),
{
    let ghost views = frame_views(frames@);
    let width: u32 = frames[0].width;
    let height: u32 = frames[0].height;
    let mut i: usize = 1;
    while i < frames.len()
        invariant
            1 <= i <= frames@.len(),
            views == frame_views(frames@),
            width == frames@[0].width,
            height == frames@[0].height,
            forall|k: int|
                0 <= k < i ==> {
                    &&& (#[trigger] views[k]).width == width
                    &&& views[k].height == height
                },
        decreases frames.len() - i,
    {
        if frames[i].width != width || frames[i].height != height {
            assert(views[i as int].width != views[0].width || views[i as int].height
                != views[0].height);
            return Some(i);
        }
        i += 1;
    }
    None
}

impl Clone for VideoBuffer {
    /// Another handle on the same frames, as [`VideoBuffer::as_fresh_cursor`]
    /// gives it.
    fn clone(&self) -> (copy: Self)
        ensures
            copy@ == self@,
    {
        self.as_fresh_cursor()
    }
}

impl VideoBuffer {
    #[verifier::type_invariant]
    closed spec fn consistent(&self) -> bool {
        self@.well_formed()
    }

    /// A sequence of the one frame given, with the cursor on it.
    pub fn singleton(frame: Yuv420P) -> (buffer: Self)
        ensures
            buffer@ == (VideoBufferView {
                width: frame@.width,
                height: frame@.height,
                frames: seq![frame@],
                cursor: 0,
            }),
    {
        let width: u32 = frame.width;
        let height: u32 = frame.height;
        let frames: Vec<Yuv420P> = vec![frame];
        assert(frame_views(frames@) =~= seq![frame@]);
        VideoBuffer { width, height, frames: Arc::new(frames), cursor: 0 }
    }

    /// A sequence of the frames given, in their order, with the cursor on
    /// the first one.
    ///
    /// The sequence takes its width and height from the first frame. A list
    /// without frames is refused, and so is one with a frame whose width or
    /// height differs from that of the first.
    pub fn from_frames(frames: Vec<Yuv420P>) -> (result: Result<Self, FrameError>)
        ensures
            result_view(result) == sequence_of_frames(frame_views(frames@)),
    {
        if frames.len() == 0 {
            return Err(FrameError::Empty);
        }
        if first_mismatch(&frames).is_some() {
            return Err(FrameError::MixedDimensions);
        }
        let width: u32 = frames[0].width;
        let height: u32 = frames[0].height;
        Ok(VideoBuffer { width, height, frames: Arc::new(frames), cursor: 0 })
    }

    /// Gives up the handle for its frames, in order: the list itself where
    /// no other handle shares it, a copy of every frame otherwise.
    pub fn into_frames(self) -> (frames: Vec<Yuv420P>)
        ensures
            frame_views(frames@) == self@.frames,
    {
        match take_unshared(self.frames) {
            Ok(list) => list,
            Err(shared) => copy_frames(&shared),
        }
    }

    /// Width of every frame.
    pub fn width(&self) -> (width: u32)
        ensures
            width == self@.width,
    {
        self.width
    }

    /// Height of every frame.
    pub fn height(&self) -> (height: u32)
        ensures
            height == self@.height,
    {
        self.height
    }

    /// Width and height of every frame.
    pub fn dimensions(&self) -> (dims: (u32, u32))
        ensures
            dims.0 == self@.width,
            dims.1 == self@.height,
    {
        (self.width, self.height)
    }

    /// All frames in order, whatever the cursor. There is at least one, and
    /// each has the width and height of the sequence.
    pub fn as_frames(&self) -> (frames: &[Yuv420P])
        ensures
            frame_views(frames@) == self@.frames,
            self@.well_formed(),
    {
        proof {
            use_type_invariant(self);
        }
        self.frames.as_slice()
    }

    /// Returns the frame under the cursor and moves the cursor on by one
    /// frame. Once the cursor has passed the last frame, nothing is returned
    /// and the cursor stays.
    pub fn next(&mut self) -> (frame: Option<&Yuv420P>)
        ensures
            final(self)@ == old(self)@.advanced(),
            match frame {
                Some(f) => old(self)@.current() == Some(f@),
                None => old(self)@.current() is None,
            },
    {
        proof {
            use_type_invariant(&*self);
        }
        if self.cursor < self.frames.len() {
            let at: usize = self.cursor;
            self.cursor = at + 1;
            Some(&self.frames[at])
        } else {
            None
        }
    }

    /// Moves the cursor to `cursor_pos`. Any position is accepted: one at or
    /// past the end leaves nothing to read.
    pub fn set_cursor(&mut self, cursor_pos: usize)
        ensures
            final(self)@ == old(self)@.with_cursor(cursor_pos as nat),
    {
        proof {
            use_type_invariant(&*self);
        }
        self.cursor = cursor_pos;
    }

    /// A second handle on the same frames, with its cursor where this
    /// handle's cursor is. From then on the two cursors move independently.
    pub fn as_fresh_cursor(&self) -> (handle: VideoBuffer)
        ensures
            handle@ == self@,
    {
        proof {
            use_type_invariant(self);
        }
        VideoBuffer {
            width: self.width,
            height: self.height,
            frames: self.frames.clone(),
            cursor: self.cursor,
        }
    }

    /// Position of the cursor.
    pub fn position(&self) -> (cursor: usize)
        ensures
            cursor == self@.cursor,
    {
        self.cursor
    }
}

} // verus!
