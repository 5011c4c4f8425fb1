use hacc::da::{Da, DaError, DaHeader, DaHeaderVersion, DaRegion, DaVersion};
use hacc::traits::TryRead;
use hacc::Error;

const HEADER_SIZE: usize = 108;
const ENTRY_V4_SIZE: usize = 220;
const ENTRY_V3_SIZE: usize = 216;

fn put_u16(out: &mut Vec<u8>, v: u16) {
    out.extend_from_slice(&v.to_le_bytes());
}

fn put_u32(out: &mut Vec<u8>, v: u32) {
    out.extend_from_slice(&v.to_le_bytes());
}

fn da_header(version: u32, magic: u32, count: u32) -> Vec<u8> {
    let mut out = Vec::new();
    let mut id = [0u8; 32];
    id[..18].copy_from_slice(b"MTK_DOWNLOAD_AGENT");
    out.extend_from_slice(&id);
    let mut desc = [0u8; 64];
    desc[..8].copy_from_slice(b"TEST DA ");
    out.extend_from_slice(&desc);
    put_u32(&mut out, version);
    put_u32(&mut out, magic);
    put_u32(&mut out, count);
    out
}

/// An entry header; each region is (offset, length, addr, region_length, sig_len).
fn entry(v4: bool, hw_code: u16, regions: &[(u32, u32, u32, u32, u32)]) -> Vec<u8> {
    let mut out = Vec::new();
    put_u16(&mut out, 0xDADA);
    put_u16(&mut out, hw_code);
    put_u16(&mut out, 0x8A00);
    put_u16(&mut out, 0xCA00);
    put_u16(&mut out, 0);
    put_u16(&mut out, 0);
    if v4 {
        put_u32(&mut out, 0x1234);
    }
    put_u16(&mut out, 0);
    put_u16(&mut out, regions.len() as u16);
    for i in 0..10 {
        let (o, l, a, rl, s) = if i < regions.len() { regions[i] } else { (0, 0, 0, 0, 0) };
        put_u32(&mut out, o);
        put_u32(&mut out, l);
        put_u32(&mut out, a);
        put_u32(&mut out, rl);
        put_u32(&mut out, s);
    }
    out
}

/// A V4 DA with one entry of three regions whose first stage holds an XML start, and a second
/// entry with a single region (which fails validation).
fn sample_da() -> Vec<u8> {
    let payload_at = (HEADER_SIZE + 2 * ENTRY_V4_SIZE) as u32;
    let mut out = da_header(4, 0x22668899, 2);
    out.extend(entry(
        true,
        0x0766,
        &[
            (payload_at, 16, 0x0020_0000, 16, 0),
            (payload_at + 16, 48, 0x0020_1000, 40, 8),
            (payload_at + 64, 32, 0x4000_0000, 32, 0),
        ],
    ));
    out.extend(entry(true, 0x0999, &[(payload_at, 16, 0, 16, 0)]));
    assert_eq!(out.len(), payload_at as usize);
    out.extend_from_slice(&[0x11u8; 16]);
    let mut da1 = vec![0x22u8; 40];
    da1[4..18].copy_from_slice(b"<?xml version=");
    out.extend_from_slice(&da1);
    out.extend_from_slice(&[0x5Au8; 8]);
    out.extend_from_slice(&[0x33u8; 32]);
    out
}

#[test]
fn da_header_reads() {
    let data = sample_da();
    let header = DaHeader::try_read(&data).unwrap();
    assert_eq!(header.id(), "MTK_DOWNLOAD_AGENT");
    assert_eq!(header.desc(), "TEST DA ");
    assert_eq!(header.version(), DaHeaderVersion::V4);
    assert_eq!(header.magic(), DaHeader::DA_MAGIC);
    assert_eq!(header.da_count(), 2);
}

#[test]
fn da_header_errors() {
    assert!(matches!(DaHeader::try_read(&[0u8; 107]), Err(Error::Zerocopy)));
    let mut bad_id = sample_da();
    bad_id[0] = b'X';
    assert!(matches!(DaHeader::try_read(&bad_id), Err(Error::Da(DaError::InvalidSignature))));
    let bad_magic = da_header(4, 0x1234, 0);
    assert!(matches!(
        DaHeader::try_read(&bad_magic),
        Err(Error::Da(DaError::InvalidMagic(0x22668899, 0x1234)))
    ));
    let bad_version = da_header(7, 0x22668899, 0);
    assert!(matches!(DaHeader::try_read(&bad_version), Err(Error::Zerocopy)));
}

#[test]
fn da_header_default_and_setters() {
    let mut header = DaHeader::default();
    assert_eq!(header.id(), "MTK_DOWNLOAD_AGENT");
    assert_eq!(header.desc(), "");
    assert_eq!(header.version(), DaHeaderVersion::Unknown);
    assert_eq!(header.magic(), 0x22668899);
    assert_eq!(header.da_count(), 0);
    header.set_version(DaHeaderVersion::V3);
    header.set_da_count(5);
    assert_eq!(header.version(), DaHeaderVersion::V3);
    assert_eq!(header.da_count(), 5);
}

#[test]
fn da_entries_skip_invalid() {
    let data = sample_da();
    let da = Da::try_read(&data).unwrap();
    assert_eq!(da.data(), data.as_slice());
    let entries = da.entries();
    assert_eq!(entries.len(), 1);
    let e = &entries[0];
    assert_eq!(e.hw_code(), 0x0766);
    assert_eq!(e.hw_sub_code(), 0x8A00);
    assert_eq!(e.region_count(), 3);
    assert_eq!(e.header_version(), DaHeaderVersion::V4);
    assert_eq!(e.regions().len(), 3);
    assert!(e.validate().is_ok());
    assert!(da.entry(1).is_none());
}

#[test]
fn da_entry_stages() {
    let data = sample_da();
    let da = Da::try_read(&data).unwrap();
    let e = da.entry(0).unwrap();
    let base = HEADER_SIZE + 2 * ENTRY_V4_SIZE;
    assert_eq!(e.da1().offset(), base + 16);
    assert_eq!(e.da1().length(), 48);
    assert_eq!(e.da1().addr(), 0x0020_1000);
    assert_eq!(e.da1().sig_len(), 8);
    assert_eq!(e.da1().region_length(), 40);
    assert_eq!(e.da1().end_offset(), base + 56);
    assert!(e.da1().has_signature());
    assert_eq!(e.da2().offset(), base + 64);
    assert!(!e.da2().has_signature());
    assert_eq!(e.da1_data(), &data[base + 16..base + 64]);
    assert_eq!(e.da1_code(), &data[base + 16..base + 56]);
    assert_eq!(e.get_region_sig(1), Some(&[0x5Au8; 8][..]));
    assert_eq!(e.da2_data(), &[0x33u8; 32]);
    assert_eq!(e.da2_code(), &[0x33u8; 32]);
    assert_eq!(e.get_region_data(0), Some(&[0x11u8; 16][..]));
    assert_eq!(e.get_region_data(3), None);
    assert!(e.get_region(3).is_none());
    assert_eq!(e.version(), DaVersion::V6);
}

#[test]
fn da_entry_version_v5_and_v3() {
    let mut data = sample_da();
    let base = HEADER_SIZE + 2 * ENTRY_V4_SIZE;
    let v5 = b"REVEIVING DEV CTRL CMD(0x%x)";
    data[base + 16..base + 16 + v5.len()].copy_from_slice(v5);
    let da = Da::try_read(&data).unwrap();
    assert_eq!(da.entry(0).unwrap().version(), DaVersion::V5);

    let mut plain = sample_da();
    for b in &mut plain[base + 16..base + 64] {
        *b = 0x22;
    }
    let da = Da::try_read(&plain).unwrap();
    assert_eq!(da.entry(0).unwrap().version(), DaVersion::V3);
}

#[test]
fn da_entry_edit_regions() {
    let data = sample_da();
    let da = Da::try_read(&data).unwrap();
    let mut e = da.entry(0).unwrap();
    e.da1_data_mut()[0] = 0x99;
    assert_eq!(e.da1_data()[0], 0x99);
    e.da2_data_mut()[31] = 0x44;
    assert_eq!(e.da2_data()[31], 0x44);
    e.get_region_content_mut(1).unwrap()[1] = 0x77;
    assert_eq!(e.da1_code()[1], 0x77);
    e.get_region_data_mut(0).unwrap().fill(0);
    assert_eq!(e.get_region_data(0), Some(&[0u8; 16][..]));
    assert!(e.get_region_data_mut(5).is_none());

    let len = data.len() as u32;
    *e.get_region_mut(2).unwrap() = DaRegion::new(len - 8, 16, 0, 0);
    assert!(matches!(
        e.validate(),
        Err(Error::Da(DaError::RegionDataOutOfBounds(_, 16, _)))
    ));
    *e.get_region_mut(2).unwrap() = DaRegion::default();
    assert!(e.validate().is_ok());
    *e.get_region_mut(2).unwrap() = DaRegion::new(0, 16, 0, 16);
    assert!(matches!(e.validate(), Err(Error::Da(DaError::InvalidRegion(0, 16, 0)))));
    assert!(e.get_region_mut(3).is_none());
}

#[test]
fn da_region_new() {
    let r = DaRegion::new(0x100, 0x80, 0x4000_0000, 0x10);
    assert_eq!(r.offset(), 0x100);
    assert_eq!(r.length(), 0x80);
    assert_eq!(r.addr(), 0x4000_0000);
    assert_eq!(r.sig_len(), 0x10);
    assert_eq!(r.region_length(), 0x70);
    assert_eq!(r.end_offset(), 0x170);
    assert!(r.is_valid());
    assert!(r.has_signature());
    assert!(DaRegion::default().is_valid());
    assert!(DaRegion::new(0, 0, 0, 0).region_length() == 0);
    assert!(!DaRegion::new(0x100, 0x10, 0, 0x10).is_valid());
    assert!(DaRegion::new(0x100, 0x10, 0, 0x8).is_valid());
}

#[test]
fn da_v3_layout_and_count_errors() {
    let payload_at = (HEADER_SIZE + ENTRY_V3_SIZE) as u32;
    let mut data = da_header(3, 0x22668899, 1);
    data.extend(entry(false, 0x0717, &[(payload_at, 4, 0, 4, 0), (payload_at + 4, 4, 0, 4, 0)]));
    data.extend_from_slice(&[1, 2, 3, 4, 5, 6, 7, 8]);
    let da = Da::try_read(&data).unwrap();
    let e = da.entry(0).unwrap();
    assert_eq!(e.header_version(), DaHeaderVersion::V3);
    assert_eq!(e.hw_code(), 0x0717);
    assert_eq!(e.da1_data(), &[1, 2, 3, 4]);
    assert_eq!(e.da2_data(), &[5, 6, 7, 8]);

    let mut one = da_header(3, 0x22668899, 1);
    one.extend(entry(false, 0x0717, &[(payload_at, 4, 0, 4, 0)]));
    one.extend_from_slice(&[0u8; 4]);
    let da = Da::try_read(&one).unwrap();
    assert!(da.entries().is_empty());

    let mut unknown = da_header(0, 0x22668899, 1);
    unknown.extend(entry(false, 0x0717, &[(payload_at, 4, 0, 4, 0), (payload_at + 4, 4, 0, 4, 0)]));
    let da = Da::try_read(&unknown).unwrap();
    assert!(da.entries().is_empty());
}

#[test]
fn da_entry_count_errors() {
    let payload_at = (HEADER_SIZE + ENTRY_V4_SIZE) as u32;
    let regions: Vec<(u32, u32, u32, u32, u32)> = (0..11).map(|_| (payload_at, 1, 0, 1, 0)).collect();
    let mut data = da_header(4, 0x22668899, 1);
    let mut e = entry(true, 1, &regions[..10]);
    e[18..20].copy_from_slice(&11u16.to_le_bytes());
    data.extend(e);
    data.push(0);
    let da = Da::try_read(&data).unwrap();
    assert!(da.entries().is_empty());
}

#[test]
fn da_data_mut_edits_file() {
    let data = sample_da();
    let mut da = Da::try_read(&data).unwrap();
    da.data_mut()[200] = 0xAB;
    assert_eq!(da.data()[200], 0xAB);
    assert_eq!(da.header().da_count(), 2);
}

#[test]
fn da_header_text_fallbacks() {
    let mut data = da_header(4, 0x22668899, 0);
    data[32] = 0xFF;
    data[33] = 0xFE;
    let header = DaHeader::try_read(&data).unwrap();
    assert_eq!(header.desc(), "");

    let mut bad_id = da_header(4, 0x22668899, 0);
    bad_id[20] = 0xC3;
    let header = DaHeader::try_read(&bad_id).unwrap();
    assert_eq!(header.id(), "MTK_DOWNLOAD_AGENT");

    let mut other_id = da_header(4, 0x22668899, 0);
    other_id[17] = b'X';
    assert!(matches!(DaHeader::try_read(&other_id), Err(Error::Da(DaError::InvalidSignature))));
}

#[test]
fn da_entry_with_zero_length_region_is_listed() {
    let payload_at = (HEADER_SIZE + ENTRY_V4_SIZE) as u32;
    let mut data = da_header(4, 0x22668899, 1);
    data.extend(entry(
        true,
        0x0766,
        &[(0, 0, 0, 0, 0), (payload_at, 4, 0, 4, 0), (payload_at + 4, 4, 0, 4, 0)],
    ));
    data.extend_from_slice(&[1, 2, 3, 4, 5, 6, 7, 8]);
    let da = Da::try_read(&data).unwrap();
    let e = da.entry(0).unwrap();
    assert_eq!(e.get_region_data(0), Some(&[][..]));
    assert_eq!(e.da1_data(), &[1, 2, 3, 4]);
    assert_eq!(e.da2_data(), &[5, 6, 7, 8]);
}
