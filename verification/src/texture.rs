//! Texture pixel-format selection.
//!
//! A decoded image reports how many color channels it has; the engine maps
//! that count to the pixel format used for the GPU upload. Any channel count
//! outside 1..=4 is an unsupported format and fails the texture load.

use vstd::prelude::*;

verus! {

/// Pixel format chosen for a decoded image, by channel count.
#[derive(Clone, Copy, Debug, PartialEq, Eq, Structural)]
pub enum TextureFormat {
    /// One channel.
    Red,
    /// Two channels.
    Rg,
    /// Three channels.
    Rgb,
    /// Four channels.
    Rgba,
}

/// Failure of a texture load.
#[derive(Debug, PartialEq, Eq, Structural)]
pub enum TextureError {
    /// The image's channel count has no corresponding pixel format.
    UnsupportedFormat { channels: i32 },
}

/// The pixel format that a given channel count selects, if any.
pub open spec fn format_spec(channels: i32) -> Option<TextureFormat> {
    if channels == 1 {
        Some(TextureFormat::Red)
    } else if channels == 2 {
        Some(TextureFormat::Rg)
    } else if channels == 3 {
        Some(TextureFormat::Rgb)
    } else if channels == 4 {
        Some(TextureFormat::Rgba)
    } else {
        None
    }
}

/// Select the upload pixel format from a decoded image's channel count.
///
/// Exactly the counts 1 through 4 succeed; every other count fails with
/// `UnsupportedFormat` carrying the offending count.
pub fn format_for_channels(channels: i32) -> (r: Result<TextureFormat, TextureError>)
    ensures
        match r {
            Ok(f) => format_spec(channels) == Some(f),
            Err(TextureError::UnsupportedFormat { channels: c }) => format_spec(channels)
                == None::<TextureFormat> && c == channels,
        },
{
    match channels {
        1 => Ok(TextureFormat::Red),
        2 => Ok(TextureFormat::Rg),
        3 => Ok(TextureFormat::Rgb),
        4 => Ok(TextureFormat::Rgba),
        _ => Err(TextureError::UnsupportedFormat { channels }),
    }
}

} // verus!
