use hacc::traits::TryRead;
use hacc::{Error, Preloader, PreloaderError};

/// A preloader without a boot region layout: a GFH file at offset 0 whose content holds the
/// EMI marker at `emi_at`.
fn preloader_image(content_len: usize, emi_at: Option<usize>) -> Vec<u8> {
    let mut content = vec![0u8; content_len];
    if let Some(at) = emi_at {
        content[at..at + 16].copy_from_slice(&Preloader::EMI_ID);
    }
    let file_len = 56 + content_len as u32;
    let mut out = Vec::new();
    out.extend_from_slice(&0x014D_4D4Du32.to_le_bytes());
    out.extend_from_slice(&56u16.to_le_bytes());
    out.extend_from_slice(&0u16.to_le_bytes());
    out.extend_from_slice(b"FILE_INFO\0\0\0");
    out.extend_from_slice(&1u32.to_le_bytes());
    out.extend_from_slice(&1u16.to_le_bytes());
    out.push(5);
    out.push(0);
    out.extend_from_slice(&0x0020_1000u32.to_le_bytes());
    out.extend_from_slice(&file_len.to_le_bytes());
    out.extend_from_slice(&0x0010_0000u32.to_le_bytes());
    out.extend_from_slice(&56u32.to_le_bytes());
    out.extend_from_slice(&0u32.to_le_bytes());
    out.extend_from_slice(&0u32.to_le_bytes());
    out.extend_from_slice(&0u32.to_le_bytes());
    out.extend_from_slice(&content);
    out
}

#[test]
fn preloader_invalid_data() {
    let invalid = [0u8; 64];
    assert!(Preloader::try_read(&invalid).is_err());

    let truncated = b"EMMC_BOOT\0";
    assert!(Preloader::try_read(truncated).is_err());

    let empty = [];
    assert!(Preloader::try_read(&empty).is_err());
}

#[test]
fn preloader_too_short_error() {
    assert_eq!(
        Preloader::try_read(&[0u8; 100]).err(),
        Some(Error::Preloader(PreloaderError::TooShort))
    );
}

#[test]
fn preloader_synthetic_emi() {
    let data = preloader_image(900, Some(100));
    let preloader = Preloader::try_read(&data).expect("synthetic preloader should parse");
    let gfh = preloader.gfh();
    assert_eq!(gfh.file_info().file_len(), 956);
    assert_eq!(gfh.content().len(), 900);
    let emi = preloader.emi().unwrap();
    assert_eq!(&emi[..16], &Preloader::EMI_ID);
    assert_eq!(emi.len(), 800);
    assert!(emi.len() <= gfh.content().len());
    assert_eq!(gfh.gfhs().len(), 1);
}

#[test]
fn preloader_without_emi() {
    let data = preloader_image(900, None);
    let preloader = Preloader::try_read(&data).unwrap();
    assert!(preloader.emi().is_none());
}

#[test]
fn preloader_emi_marker_at_content_start() {
    let data = preloader_image(800, Some(0));
    let preloader = Preloader::try_read(&data).unwrap();
    assert_eq!(preloader.emi().unwrap().len(), 800);
}
