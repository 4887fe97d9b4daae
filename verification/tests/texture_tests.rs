use rat_engine::texture::format_for_channels;
use rat_engine::texture::TextureError;
use rat_engine::texture::TextureFormat;

#[test]
fn three_channels_select_rgb() {
    assert_eq!(format_for_channels(3), Ok(TextureFormat::Rgb));
}

#[test]
fn four_channels_select_rgba() {
    assert_eq!(format_for_channels(4), Ok(TextureFormat::Rgba));
}

#[test]
fn five_channels_are_unsupported() {
    assert_eq!(
        format_for_channels(5),
        Err(TextureError::UnsupportedFormat { channels: 5 })
    );
}

#[test]
fn one_and_two_channels_select_single_and_dual() {
    assert_eq!(format_for_channels(1), Ok(TextureFormat::Red));
    assert_eq!(format_for_channels(2), Ok(TextureFormat::Rg));
}

#[test]
fn zero_and_negative_channel_counts_are_unsupported() {
    assert_eq!(
        format_for_channels(0),
        Err(TextureError::UnsupportedFormat { channels: 0 })
    );
    assert_eq!(
        format_for_channels(-1),
        Err(TextureError::UnsupportedFormat { channels: -1 })
    );
}
