//! What has to hold of a frame before it is written as an image.

use vstd::prelude::*;
use crate::capture::error::CaptureError;
use crate::text::{
    concat, concat3, decimal, decimal_u64, owned, upper_hex, upper_hex_u32, zero_padded,
};

verus! {

/// The pixel format of the frames: the FourCC `BGRA`.
pub const BGRA_FOURCC: u32 = 0x4247_5241;

/// Bitmap layout of such frames: 32-bit little endian, premultiplied alpha first.
pub const BGRA_BITMAP_INFO: u32 = 0x2002;

/// The image type under which the frames are written.
pub const HEIF_TYPE: &'static str = "public.heic";

/// Check a frame before it is locked: the quality that was asked for is a fraction, the sample
/// holds an image, and the image is BGRA.
pub fn check_frame(quality_in_range: bool, pixel_format: Option<u32>) -> (r: Result<
    (),
    CaptureError,
>)
    ensures
        r is Ok <==> quality_in_range && pixel_format == Some(BGRA_FOURCC),
        !quality_in_range ==> r->Err_0.blames_encoding("quality must be between 0.0 and 1.0"@),
        quality_in_range && pixel_format is None ==> r->Err_0.blames_encoding(
            "failed to extract pixel buffer"@,
        ),
        quality_in_range && pixel_format is Some && pixel_format->0 != BGRA_FOURCC
            ==> r->Err_0.blames_encoding(
            "expected BGRA pixel format, got 0x"@ + zero_padded(
                upper_hex(pixel_format->0 as nat),
                8,
            ),
        ),
{
    if !quality_in_range {
        return Err(CaptureError::Encoding(owned("quality must be between 0.0 and 1.0")));
    }
    match pixel_format {
        None => Err(CaptureError::Encoding(owned("failed to extract pixel buffer"))),
        Some(format) => if format == BGRA_FOURCC {
            Ok(())
        } else {
            Err(
                CaptureError::Encoding(
                    concat(
                        "expected BGRA pixel format, got 0x",
                        upper_hex_u32(format).as_str(),
                    ),
                ),
            )
        },
    }
}

/// The bytes that an image of this height needs, as far as they can be counted.
pub open spec fn required_len(height: usize, bytes_per_row: usize) -> usize {
    if height * bytes_per_row <= usize::MAX {
        (height * bytes_per_row) as usize
    } else {
        usize::MAX
    }
}

/// Check that there are as many bytes as the image needs.
pub fn check_data(data_len: usize, height: usize, bytes_per_row: usize) -> (r: Result<
    (),
    CaptureError,
>)
    ensures
        r is Ok <==> data_len >= required_len(height, bytes_per_row),
        r is Err ==> r->Err_0.blames_encoding(
            "data slice too small: "@ + decimal(data_len as int) + " < "@ + decimal(
                required_len(height, bytes_per_row) as int,
            ),
        ),
{
    let required: usize = match height.checked_mul(bytes_per_row) {
        Some(len) => len,
        None => usize::MAX,
    };
    if data_len < required {
        let have = concat3(
            "data slice too small: ",
            decimal_u64(data_len as u64).as_str(),
            " < ",
        );
        Err(
            CaptureError::Encoding(
                concat(have.as_str(), decimal_u64(required as u64).as_str()),
            ),
        )
    } else {
        Ok(())
    }
}

/// The step at which writing an image failed.
#[derive(Debug, Clone, Copy, PartialEq, Eq, Structural)]
pub enum HeifStep {
    Url,
    Destination,
    Finalize,
}

/// The error of an image that could not be written.
pub fn write_failed(step: HeifStep) -> (r: CaptureError)
    ensures
        r.blames_encoding(
            match step {
                HeifStep::Url => "failed to create URL from path"@,
                HeifStep::Destination => "failed to create image destination"@,
                HeifStep::Finalize => "failed to finalize HEIF output"@,
            },
        ),
{
    match step {
        HeifStep::Url => CaptureError::Encoding(owned("failed to create URL from path")),
        HeifStep::Destination => CaptureError::Encoding(
            owned("failed to create image destination"),
        ),
        HeifStep::Finalize => CaptureError::Encoding(owned("failed to finalize HEIF output")),
    }
}

/// The bytes of a locked buffer are always enough for its image.
pub proof fn a_locked_buffer_fills_its_image(guard: crate::capture::pixel_buffer::PixelBufferGuard)
    requires
        guard.well_formed(),
    ensures
        guard.data_len >= required_len(guard.height, guard.bytes_per_row),
{
}

/// A frame is written if its quality is a fraction and it is an image in BGRA, and an image if
/// there are as many bytes as its rows hold.
pub proof fn a_frame_is_written_if_it_is_whole(
    quality_in_range: bool,
    pixel_format: Option<u32>,
    frame: Result<(), CaptureError>,
    data_len: usize,
    height: usize,
    bytes_per_row: usize,
    data: Result<(), CaptureError>,
)
    requires
        call_ensures(check_frame, (quality_in_range, pixel_format), frame),
        call_ensures(check_data, (data_len, height, bytes_per_row), data),
    ensures
        frame is Ok <==> quality_in_range && pixel_format == Some(0x4247_5241u32),
        height * bytes_per_row <= usize::MAX ==> (data is Ok <==> data_len >= height
            * bytes_per_row),
        height * bytes_per_row > usize::MAX ==> (data is Ok <==> data_len == usize::MAX),
{
}

/// An image that could not be written says at which step, and a frame that was refused why.
pub proof fn a_refused_frame_says_why(
    step: HeifStep,
    unwritten: CaptureError,
    quality_in_range: bool,
    pixel_format: Option<u32>,
    frame: Result<(), CaptureError>,
    data_len: usize,
    height: usize,
    bytes_per_row: usize,
    data: Result<(), CaptureError>,
)
    requires
        call_ensures(write_failed, (step,), unwritten),
        call_ensures(check_frame, (quality_in_range, pixel_format), frame),
        call_ensures(check_data, (data_len, height, bytes_per_row), data),
    ensures
        unwritten is Encoding,
        step is Url ==> unwritten->Encoding_0@ == "failed to create URL from path"@,
        step is Destination ==> unwritten->Encoding_0@ == "failed to create image destination"@,
        step is Finalize ==> unwritten->Encoding_0@ == "failed to finalize HEIF output"@,
        frame is Err ==> frame->Err_0 is Encoding && frame->Err_0->Encoding_0@ == (
        if !quality_in_range {
            "quality must be between 0.0 and 1.0"@
        } else if pixel_format is None {
            "failed to extract pixel buffer"@
        } else {
            "expected BGRA pixel format, got 0x"@ + zero_padded(
                upper_hex(pixel_format->0 as nat),
                8,
            )
        }),
        data is Err && height * bytes_per_row <= usize::MAX ==> data->Err_0 is Encoding
            && data->Err_0->Encoding_0@ == "data slice too small: "@ + decimal(data_len as int)
            + " < "@ + decimal(height * bytes_per_row),
{
}

} // verus!
