//! Decode requests and their outcomes, page rotation, and the decode
//! pipeline.
pub mod pipeline;

use std::sync::atomic::AtomicBool;
use std::sync::Arc;
use vstd::prelude::*;

verus! {

/// The identity of one decode request.
#[derive(Debug, Clone, Copy, PartialEq, Eq, Hash, Structural)]
pub struct DecodeRequestId(pub u64);

/// Why a page is decoded.
#[derive(Debug, Clone, Copy, PartialEq, Eq, Structural)]
pub enum DecodePurpose {
    Direct,
    Prefetch,
    Thumbnail,
}

/// Why a page could not be decoded.
#[derive(Debug, Clone, PartialEq, Eq)]
pub enum DecodeError {
    EmptyBytes,
    Image(String),
    Cancelled,
    ImageTooLarge { width: u32, height: u32 },
}

impl DecodeError {
    /// The text of the error as shown to the user.
    pub fn message(&self) -> (r: String)
        ensures
            *self == DecodeError::EmptyBytes ==> r@ == "decode request contained no image bytes"@,
            self matches DecodeError::Image(m) ==> r@ == "image decode failed: "@ + m@,
            *self == DecodeError::Cancelled ==> r@ == "decode request cancelled"@,
            self matches DecodeError::ImageTooLarge { width, height } ==> r@ == "decoded image dimensions are too large: "@
                + crate::text::decimal(width as nat) + "x"@ + crate::text::decimal(height as nat),
    {
        match self {
            DecodeError::EmptyBytes => crate::text::owned("decode request contained no image bytes"),
            DecodeError::Image(m) => crate::vfs::archive::prefixed("image decode failed: ", m.as_str()),
            DecodeError::Cancelled => crate::text::owned("decode request cancelled"),
            DecodeError::ImageTooLarge { width, height } => {
                let mut s = crate::text::owned("decoded image dimensions are too large: ");
                let w = crate::text::decimal_chars(*width as u64);
                crate::text::push_chars(&mut s, &w);
                let x = crate::text::chars_of("x");
                crate::text::push_chars(&mut s, &x);
                let h = crate::text::decimal_chars(*height as u64);
                crate::text::push_chars(&mut s, &h);
                s
            },
        }
    }
}

/// Why the decode worker pool refused work.
#[derive(Debug, Clone, Copy, PartialEq, Eq, Structural)]
pub enum WorkerError {
    InvalidWorkerCount,
    InvalidQueueBound,
    ShutDown,
    QueueFull,
    WorkerPanicked,
}

/// A flag shared between the reader and a decode worker; once set, the
/// worker stops at its next check.
#[derive(Debug, Clone)]
pub struct CancellationToken(Arc<AtomicBool>);

impl CancellationToken {
    pub fn new() -> Self {
        CancellationToken(Arc::new(AtomicBool::new(false)))
    }

    pub fn cancel(&self) {
        self.0.store(true, std::sync::atomic::Ordering::Relaxed);
    }

    /// Whether the flag was set, by this or another thread.
    pub fn is_cancelled(&self) -> bool {
        self.0.load(std::sync::atomic::Ordering::Relaxed)
    }
}

impl Default for CancellationToken {
    fn default() -> Self {
        CancellationToken::new()
    }
}

impl WorkerError {
    /// The text of the error as shown to the user.
    pub fn message(&self) -> (r: &'static str)
        ensures
            r@ == match *self {
                WorkerError::InvalidWorkerCount => "worker count must be at least one"@,
                WorkerError::InvalidQueueBound => "queue bound must be at least one"@,
                WorkerError::ShutDown => "decode worker pool is shut down"@,
                WorkerError::QueueFull => "decode request queue is full"@,
                WorkerError::WorkerPanicked => "worker thread panicked during shutdown"@,
            },
    {
        match self {
            WorkerError::InvalidWorkerCount => "worker count must be at least one",
            WorkerError::InvalidQueueBound => "queue bound must be at least one",
            WorkerError::ShutDown => "decode worker pool is shut down",
            WorkerError::QueueFull => "decode request queue is full",
            WorkerError::WorkerPanicked => "worker thread panicked during shutdown",
        }
    }
}

/// Clockwise page rotation applied while decoding a page.
#[derive(Debug, Clone, Copy, PartialEq, Eq, Default, Structural)]
pub enum Rotation {
    #[default]
    Upright,
    Cw90,
    Cw180,
    Cw270,
}

/// The rotation of `turns` clockwise quarter turns.
pub open spec fn rotation_of(turns: int) -> Rotation {
    let t = turns % 4;
    if t == 0 {
        Rotation::Upright
    } else if t == 1 {
        Rotation::Cw90
    } else if t == 2 {
        Rotation::Cw180
    } else {
        Rotation::Cw270
    }
}

impl Rotation {
    /// Number of clockwise quarter turns this rotation stands for.
    pub open spec fn quarter_turns(self) -> int {
        match self {
            Rotation::Upright => 0,
            Rotation::Cw90 => 1,
            Rotation::Cw180 => 2,
            Rotation::Cw270 => 3,
        }
    }

    /// One more clockwise quarter turn.
    pub fn rotate_right(self) -> (r: Self)
        ensures
            r == rotation_of(self.quarter_turns() + 1),
    {
        match self {
            Rotation::Upright => Rotation::Cw90,
            Rotation::Cw90 => Rotation::Cw180,
            Rotation::Cw180 => Rotation::Cw270,
            Rotation::Cw270 => Rotation::Upright,
        }
    }

    /// One quarter turn back, counter-clockwise.
    pub fn rotate_left(self) -> (r: Self)
        ensures
            r == rotation_of(self.quarter_turns() + 3),
    {
        match self {
            Rotation::Upright => Rotation::Cw270,
            Rotation::Cw270 => Rotation::Cw180,
            Rotation::Cw180 => Rotation::Cw90,
            Rotation::Cw90 => Rotation::Upright,
        }
    }

    /// True for quarter turns, which swap a page's width and height.
    pub fn swaps_dimensions(self) -> (r: bool)
        ensures
            r == (self.quarter_turns() % 2 == 1),
    {
        match self {
            Rotation::Cw90 | Rotation::Cw270 => true,
            _ => false,
        }
    }
}

/// Turning left undoes turning right and the other way round, and four turns
/// the same way come back to the start.
pub proof fn lemma_rotation_turns(r: Rotation)
    ensures
        rotation_of(rotation_of(r.quarter_turns() + 1).quarter_turns() + 3) == r,
        rotation_of(rotation_of(r.quarter_turns() + 3).quarter_turns() + 1) == r,
        rotation_of(r.quarter_turns() + 4) == r,
        rotation_of(r.quarter_turns()) == r,
{
}

} // verus!
