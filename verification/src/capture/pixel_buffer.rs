//! What has to hold of a pixel buffer before its bytes are read.

use vstd::prelude::*;
use crate::capture::error::CaptureError;
use crate::text::{concat, decimal, decimal_i64, owned};

verus! {

/// Read-only lock flag for a pixel buffer.
pub const K_CV_PIXEL_BUFFER_LOCK_READ_ONLY: u64 = 0x0000_0001;

/// What came of an attempt to lock a pixel buffer.
#[derive(Debug, Clone, Copy, PartialEq, Eq, Structural)]
pub enum LockOutcome {
    /// It is not locked; the status says why.
    Failed { status: i32 },
    /// It is locked, and has no base address.
    NoBaseAddress,
    /// It is locked, and has these measures.
    Locked { width: usize, height: usize, bytes_per_row: usize },
}

/// The measures of a locked pixel buffer.
#[derive(Debug, Clone, Copy, PartialEq, Eq, Structural)]
pub struct PixelBufferGuard {
    /// Width in pixels.
    pub width: usize,
    /// Height in pixels.
    pub height: usize,
    /// Number of bytes per row (may include padding).
    pub bytes_per_row: usize,
    /// Number of bytes that can be read.
    pub data_len: usize,
}

/// Why a pixel buffer cannot be read.
#[derive(Debug)]
pub struct LockError {
    pub error: CaptureError,
    /// Whether the buffer is still locked, and has to be unlocked.
    pub unlock: bool,
}

impl PixelBufferGuard {
    /// The readable bytes are the rows, and no more than one slice may hold.
    pub open spec fn well_formed(self) -> bool {
        &&& self.data_len == self.height * self.bytes_per_row
        &&& self.data_len <= isize::MAX
    }

    /// Take the measures of a pixel buffer that was to be locked.
    pub fn new(outcome: LockOutcome) -> (r: Result<Self, LockError>)
        ensures
            match outcome {
                LockOutcome::Failed { status } => r is Err && !r->Err_0.unlock
                    && r->Err_0.error.blames_encoding(
                    "failed to lock pixel buffer: CVReturn "@ + decimal(status as int),
                ),
                LockOutcome::NoBaseAddress => r is Err && r->Err_0.unlock
                    && r->Err_0.error.blames_encoding("pixel buffer base address is null"@),
                LockOutcome::Locked { width, height, bytes_per_row } => if height * bytes_per_row
                    <= isize::MAX {
                    r == Ok::<PixelBufferGuard, LockError>(
                        PixelBufferGuard {
                            width,
                            height,
                            bytes_per_row,
                            data_len: (height * bytes_per_row) as usize,
                        },
                    )
                } else {
                    r is Err && r->Err_0.unlock && r->Err_0.error.blames_encoding(
                        "pixel buffer size overflow while computing data_len"@,
                    )
                },
            },
            r is Ok ==> r->Ok_0.well_formed(),
    {
        match outcome {
            LockOutcome::Failed { status } => Err(
                LockError {
                    error: CaptureError::Encoding(
                        concat(
                            "failed to lock pixel buffer: CVReturn ",
                            decimal_i64(status as i64).as_str(),
                        ),
                    ),
                    unlock: false,
                },
            ),
            LockOutcome::NoBaseAddress => Err(
                LockError {
                    error: CaptureError::Encoding(owned("pixel buffer base address is null")),
                    unlock: true,
                },
            ),
            LockOutcome::Locked { width, height, bytes_per_row } => {
                if let Some(data_len) = height.checked_mul(bytes_per_row) {
                    if data_len <= isize::MAX as usize {
                        return Ok(PixelBufferGuard { width, height, bytes_per_row, data_len });
                    }
                }
                Err(
                    LockError {
                        error: CaptureError::Encoding(
                            owned("pixel buffer size overflow while computing data_len"),
                        ),
                        unlock: true,
                    },
                )
            },
        }
    }

    /// Width in pixels.
    pub fn width(&self) -> (r: usize)
        ensures
            r == self.width,
    {
        self.width
    }

    /// Height in pixels.
    pub fn height(&self) -> (r: usize)
        ensures
            r == self.height,
    {
        self.height
    }

    /// Number of bytes per row (may include padding).
    pub fn bytes_per_row(&self) -> (r: usize)
        ensures
            r == self.bytes_per_row,
    {
        self.bytes_per_row
    }
}

/// A locked pixel buffer is read whole, row by row, if a slice can hold it. One that is not
/// locked, has no address or is too large is an error, and is unlocked if it was locked.
pub proof fn a_pixel_buffer_is_read_whole(
    outcome: LockOutcome,
    r: Result<PixelBufferGuard, LockError>,
)
    requires
        call_ensures(PixelBufferGuard::new, (outcome,), r),
    ensures
        outcome matches LockOutcome::Failed { status } ==> r is Err && !r->Err_0.unlock
            && r->Err_0.error is Encoding && r->Err_0.error->Encoding_0@
            == "failed to lock pixel buffer: CVReturn "@ + decimal(status as int),
        outcome is NoBaseAddress ==> r is Err && r->Err_0.unlock && r->Err_0.error is Encoding
            && r->Err_0.error->Encoding_0@ == "pixel buffer base address is null"@,
        outcome matches LockOutcome::Locked { width, height, bytes_per_row } ==> {
            &&& r is Ok <==> height * bytes_per_row <= isize::MAX
            &&& r is Ok ==> r->Ok_0.width == width && r->Ok_0.height == height
                && r->Ok_0.bytes_per_row == bytes_per_row && r->Ok_0.data_len == height
                * bytes_per_row
            &&& r is Err ==> r->Err_0.unlock && r->Err_0.error is Encoding
                && r->Err_0.error->Encoding_0@
                == "pixel buffer size overflow while computing data_len"@
        },
{
}

/// A locked buffer has the measures that it was locked with.
pub proof fn a_locked_buffer_has_its_measures(
    guard: PixelBufferGuard,
    width: usize,
    height: usize,
    bytes_per_row: usize,
)
    requires
        call_ensures(PixelBufferGuard::width, (&guard,), width),
        call_ensures(PixelBufferGuard::height, (&guard,), height),
        call_ensures(PixelBufferGuard::bytes_per_row, (&guard,), bytes_per_row),
    ensures
        width == guard.width,
        height == guard.height,
        bytes_per_row == guard.bytes_per_row,
{
}

} // verus!
