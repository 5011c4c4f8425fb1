use hacc::gfh::{GfhFile, GfhFileInfo, GfhFileType, GfhFlashDev, GfhSigType, GfhType};
use hacc::traits::TryRead;
use hacc::Error;
use hacc::error::GfhError;

/// A FILE_INFO section followed by `content` and a signature of `sig_len` bytes of 0xEE.
fn gfh_file(content: &[u8], sig_type: u8, sig_len: u32) -> Vec<u8> {
    let file_len = 56 + content.len() as u32 + sig_len;
    let mut out = Vec::new();
    out.extend_from_slice(&0x014D_4D4Du32.to_le_bytes());
    out.extend_from_slice(&56u16.to_le_bytes());
    out.extend_from_slice(&0u16.to_le_bytes());
    out.extend_from_slice(b"FILE_INFO\0\0\0");
    out.extend_from_slice(&1u32.to_le_bytes());
    out.extend_from_slice(&1u16.to_le_bytes());
    out.push(5);
    out.push(sig_type);
    out.extend_from_slice(&0x0020_1000u32.to_le_bytes());
    out.extend_from_slice(&file_len.to_le_bytes());
    out.extend_from_slice(&0x0004_0000u32.to_le_bytes());
    out.extend_from_slice(&56u32.to_le_bytes());
    out.extend_from_slice(&sig_len.to_le_bytes());
    out.extend_from_slice(&0u32.to_le_bytes());
    out.extend_from_slice(&0u32.to_le_bytes());
    out.extend_from_slice(content);
    out.extend(std::iter::repeat(0xEEu8).take(sig_len as usize));
    out
}

#[test]
fn gfh_parse_invalid_and_empty() {
    let data = [0u8; 64];
    assert!(GfhFile::try_read(&data).is_err());

    let empty = [];
    assert!(GfhFile::try_read(&empty).is_err());

    let truncated = b"EMMC_BOOT\0";
    assert!(GfhFile::try_read(truncated).is_err());
}

#[test]
fn gfh_set_file_type() {
    let mut file_info = GfhFileInfo::default();

    file_info.set_file_type(GfhFileType::ArmBl);
    assert_eq!(file_info.file_type(), GfhFileType::ArmBl);

    file_info.set_file_type(GfhFileType::ArmExtBl);
    assert_eq!(file_info.file_type(), GfhFileType::ArmExtBl);
}

#[test]
fn gfh_set_sig_type() {
    let mut file_info = GfhFileInfo::default();

    file_info.set_sig_type(GfhSigType::Sha256);
    assert_eq!(file_info.sig_type(), GfhSigType::Sha256);

    file_info.set_sig_type(GfhSigType::Single);
    assert_eq!(file_info.sig_type(), GfhSigType::Single);
}

#[test]
fn gfh_set_addresses_and_lengths() {
    let mut file_info = GfhFileInfo::default();

    file_info.set_load_addr(0x1000);
    assert_eq!(file_info.load_addr(), 0x1000);

    file_info.set_content_offset(512);
    assert_eq!(file_info.content_offset(), 512);

    file_info.set_max_size(0x100000);
    assert_eq!(file_info.max_size(), 0x100000);

    file_info.set_jump_offset(0x2000);
    assert_eq!(file_info.jump_offset(), 0x2000);
}

#[test]
fn gfh_set_file_version() {
    let mut file_info = GfhFileInfo::default();

    file_info.set_file_ver(1);
    assert_eq!(file_info.file_ver(), 1);

    file_info.set_file_ver(255);
    assert_eq!(file_info.file_ver(), 255);
}

#[test]
fn gfh_set_flash_device() {
    let mut file_info = GfhFileInfo::default();

    file_info.set_flash_dev(GfhFlashDev::NandSeq);
    assert_eq!(file_info.flash_dev(), GfhFlashDev::NandSeq);

    file_info.set_flash_dev(GfhFlashDev::EmmcBoot);
    assert_eq!(file_info.flash_dev(), GfhFlashDev::EmmcBoot);
}

#[test]
fn gfh_set_sig_length() {
    let mut file_info = GfhFileInfo::default();
    file_info.set_file_len(0x1000);

    let initial_file_len = file_info.file_len();
    file_info.set_sig_len(256);

    assert_eq!(file_info.sig_len(), 256);
    assert!(file_info.file_len() > initial_file_len);

    let new_file_len = file_info.file_len();
    file_info.set_sig_len(512);
    assert_eq!(file_info.sig_len(), 512);
    assert!(file_info.file_len() > new_file_len);
}

#[test]
fn gfh_set_file_length() {
    let mut file_info = GfhFileInfo::default();

    file_info.set_file_len(0x2000);
    assert!(file_info.file_len() > 0);

    file_info.set_file_len(0x4000);
    assert!(file_info.file_len() > 0x2000);
}

#[test]
fn gfh_default_values() {
    let file_info = GfhFileInfo::default();

    assert_eq!(file_info.file_type(), GfhFileType::FileNone);
    assert_eq!(file_info.sig_type(), GfhSigType::Unsigned);
    assert_eq!(file_info.flash_dev(), GfhFlashDev::Unspecified);
    assert_eq!(file_info.file_len(), 0);
    assert_eq!(file_info.content_offset(), 0);
}

#[test]
fn gfh_exact_lengths_after_setters() {
    let mut file_info = GfhFileInfo::default();
    file_info.set_file_len(0x1000);
    assert_eq!(file_info.file_len(), 0x1000 + 56);
    file_info.set_sig_len(256);
    assert_eq!(file_info.file_len(), 0x1000 + 56 + 256);
    file_info.set_sig_len(512);
    assert_eq!(file_info.file_len(), 0x1000 + 56 + 512);
}

#[test]
fn gfh_synthetic_file_parses() {
    let content: Vec<u8> = vec![0u8; 40];
    let data = gfh_file(&content, 2, 16);
    let file = GfhFile::try_read(&data).expect("synthetic file should parse");
    let info = file.file_info();
    assert_eq!(info.file_len(), 56 + 40 + 16);
    assert_eq!(info.content_offset(), 56);
    assert_eq!(info.content_len(), 40);
    assert_eq!(info.sig_len(), 16);
    assert_eq!(
        info.content_len() + info.sig_len() as usize,
        info.file_len() - info.content_offset() as usize
    );
    assert_eq!(info.file_type(), GfhFileType::ArmBl);
    assert_eq!(info.flash_dev(), GfhFlashDev::EmmcBoot);
    assert_eq!(info.sig_type(), GfhSigType::Single);
    assert_eq!(info.load_addr(), 0x0020_1000);
    assert_eq!(file.content(), content.as_slice());
    assert_eq!(file.signature(), Some(&[0xEEu8; 16][..]));
    assert_eq!(file.gfhs().len(), 1);
    assert!(file.gfhs().iter().any(|s| s.header().gfh_type() == GfhType::FileInfo));
    assert!(file.get_gfh(GfhType::FileInfo).is_some());
    assert!(file.get_gfh(GfhType::AntiClone).is_none());
    for gfh in file.gfhs() {
        assert!(gfh.validate().is_ok());
        assert_eq!(gfh.header().size(), 56);
    }
}

#[test]
fn gfh_unsigned_file_has_no_signature() {
    let data = gfh_file(&[1, 2, 3, 4], 0, 8);
    let file = GfhFile::try_read(&data).unwrap();
    assert!(file.signature().is_none());
    assert_eq!(file.content(), &[1, 2, 3, 4]);
}

#[test]
fn gfh_file_longer_than_data() {
    let data = gfh_file(&[0u8; 8], 2, 4);
    let cut = &data[..data.len() - 1];
    assert_eq!(
        GfhFile::try_read(cut).err(),
        Some(Error::Gfh(GfhError::TooShort(68, 67)))
    );
}

#[test]
fn gfh_bad_identifier_and_magic() {
    let mut data = gfh_file(&[0u8; 8], 2, 4);
    data[8] = b'X';
    assert_eq!(GfhFile::try_read(&data).err(), Some(Error::Gfh(GfhError::FileInvalidIdentifier)));
    let mut data = gfh_file(&[0u8; 8], 2, 4);
    data[0] = 0;
    assert!(matches!(
        GfhFile::try_read(&data).err(),
        Some(Error::Gfh(GfhError::InvalidHeaderMagic(_, _)))
    ));
}

#[test]
fn gfh_offsets_out_of_bounds() {
    let mut data = gfh_file(&[0u8; 8], 2, 4);
    data[44..48].copy_from_slice(&100u32.to_le_bytes());
    assert_eq!(
        GfhFile::try_read(&data).err(),
        Some(Error::Gfh(GfhError::FileOffsetOutOfBounds(56, 100, 68)))
    );
}
