use eternal_pixels::ink::error::{Error, ErrorKind, check};
use eternal_pixels::ink::kinds::{ColorFormat, ColorSpace, StockBrush, ToolType};

#[test]
fn status_codes_map_to_kinds() {
    assert!(check(0, "ignored").is_ok());
    let error = check(3, "brush size must be positive").unwrap_err();
    assert_eq!(error.kind(), ErrorKind::InvalidArgument);
    assert_eq!(error.message(), "brush size must be positive");
    assert_eq!(ErrorKind::from_status(5), ErrorKind::NotFound);
    assert_eq!(ErrorKind::from_status(9), ErrorKind::FailedPrecondition);
    assert_eq!(ErrorKind::from_status(11), ErrorKind::OutOfRange);
    assert_eq!(ErrorKind::from_status(12), ErrorKind::Unimplemented);
    assert_eq!(ErrorKind::from_status(13), ErrorKind::Internal);
    assert_eq!(ErrorKind::from_status(2), ErrorKind::Unknown);
    assert_eq!(check(-1, "").unwrap_err().kind(), ErrorKind::Unknown);
}

#[test]
fn errors_read_with_and_without_a_message() {
    assert_eq!(
        Error::new(ErrorKind::InvalidArgument, "").to_string(),
        "invalid argument"
    );
    assert_eq!(
        Error::new(ErrorKind::Internal, "mesh overflow").to_string(),
        "internal error: mesh overflow"
    );
    assert_eq!(ErrorKind::Unknown.describe(), "error");
}

#[test]
fn defaults_and_versions() {
    assert_eq!(ColorSpace::default(), ColorSpace::Srgb);
    assert_eq!(ColorFormat::default(), ColorFormat::GammaEncoded);
    assert_eq!(ToolType::default(), ToolType::Unknown);
    assert_eq!(StockBrush::pinned_version(0), 0);
    assert_eq!(StockBrush::pinned_version(3), 3);
    assert_eq!(StockBrush::pinned_version(u32::MAX), 0);
    assert_eq!(StockBrush::pinned_version(2_147_483_647), i32::MAX);
}
