use hacc::common::image::{
    Image, ImageAPKind, ImageCertKind, ImageError, ImageGroup, ImageHeader, ImageKind, ImageMDKind,
    ImageType, IMAGE_HEADER_SIZE,
};
use hacc::Error;

#[test]
fn image_type_codes() {
    assert_eq!(ImageType::from(ImageKind::Ap(ImageAPKind::APBin)).value, 0);
    assert_eq!(ImageType::from(ImageKind::Md(ImageMDKind::MdLte)).value, 0x0100_0000);
    assert_eq!(ImageType::from(ImageKind::Md(ImageMDKind::MdC2k)).value, 0x0100_0001);
    assert_eq!(ImageType::from(ImageKind::Cert(ImageCertKind::Cert1)).value, 0x0200_0000);
    assert_eq!(ImageType::from(ImageKind::Cert(ImageCertKind::Cert1Md)).value, 0x0200_0001);
    assert_eq!(ImageType::from(ImageKind::Cert(ImageCertKind::Cert2)).value, 0x0200_0002);
}

#[test]
fn image_header_new() {
    let h = ImageHeader::new("boot", 0x1_0000_0010, ImageType::from(ImageKind::Md(ImageMDKind::MdC2k)));
    assert!(h.is_valid());
    assert!(h.is_extended());
    assert_eq!(h.name(), "boot");
    assert_eq!(h.data_size(), 0x1_0000_0010);
    assert_eq!(h.addr(), 0);
    assert_eq!(h.mode(), 0);
    assert_eq!(h.size(), IMAGE_HEADER_SIZE as u32);
    assert_eq!(h.hdr_ver(), 1);
    assert_eq!(h.align_size(), ImageHeader::DEFAULT_ALIGN_SZ);
    assert!(h.is_last());
    assert_eq!(h.scrambled(), 0);
    assert_eq!(h.image_group(), Ok(ImageGroup::Md));
    assert_eq!(h.image_id(), Ok(ImageKind::Md(ImageMDKind::MdC2k)));
}

#[test]
fn image_header_long_name_is_cut() {
    let name = "a_partition_name_longer_than_32_bytes";
    let h = ImageHeader::new(name, 1, ImageType::from(ImageKind::Ap(ImageAPKind::APBin)));
    assert_eq!(h.name(), &name[..32]);
}

#[test]
fn image_type_errors() {
    let h = ImageHeader::new("x", 1, ImageType { value: 0x0300_0000 });
    assert_eq!(
        h.image_group(),
        Err(Error::Image(ImageError::InvalidHeader(
            hacc::common::image::InvalidImageHeaderError::InvalidImageGroup(3)
        )))
    );
    let h = ImageHeader::new("x", 1, ImageType { value: 0x0100_0005 });
    assert_eq!(h.image_group(), Ok(ImageGroup::Md));
    assert_eq!(
        h.image_id(),
        Err(Error::Image(ImageError::InvalidHeader(
            hacc::common::image::InvalidImageHeaderError::InvalidImageType(5)
        )))
    );
}

#[test]
fn image_add_and_find_partitions() {
    let mut image = Image::default();
    image.add_partition("boot", &[1, 2, 3, 4], ImageKind::Ap(ImageAPKind::APBin)).unwrap();
    assert_eq!(image.data.len(), IMAGE_HEADER_SIZE + 4);
    assert!(image.has_partition("boot"));
    let p = image.get_partition("boot").unwrap();
    assert_eq!(p.content, &[1, 2, 3, 4]);
    assert_eq!(p.range, 0..IMAGE_HEADER_SIZE + 4);
    assert_eq!(p.header.name(), "boot");
    assert!(p.header.is_last());

    image.add_partition("boot", &[9; 3], ImageKind::Cert(ImageCertKind::Cert1)).unwrap();
    image.add_partition("md1img", &[7; 20], ImageKind::Md(ImageMDKind::MdLte)).unwrap();

    let parts = image.partitions();
    assert_eq!(parts.len(), 2);
    assert_eq!(parts[0].header.name(), "boot");
    assert!(!parts[0].header.is_last());
    assert_eq!(parts[1].header.name(), "md1img");
    assert_eq!(parts[1].content, &[7; 20]);
    assert!(parts[1].header.is_last());
    let cert_start = 528;
    let md_start = (cert_start + IMAGE_HEADER_SIZE + 3 + 15) & !15;
    assert_eq!(parts[1].range.start, md_start);
    assert_eq!(image.data.len(), md_start + IMAGE_HEADER_SIZE + 20);

    let certs = image.get_part_certs("boot");
    assert_eq!(certs.len(), 1);
    assert_eq!(certs[0].range.start, cert_start);
    assert_eq!(certs[0].content, &[9; 3]);
    assert!(image.get_part_certs("md1img").is_empty());
    assert!(image.get_part_certs("none").is_empty());
    assert!(!image.has_partition("none"));
    assert!(image.get_partition("none").is_none());
}

#[test]
fn image_remove_partition_with_certs() {
    let mut image = Image::default();
    image.add_partition("lk", &[1; 5], ImageKind::Ap(ImageAPKind::APBin)).unwrap();
    image.add_partition("boot", &[2; 6], ImageKind::Ap(ImageAPKind::APBin)).unwrap();
    image.add_partition("cert1", &[3; 7], ImageKind::Cert(ImageCertKind::Cert1)).unwrap();
    image.add_partition("cert2", &[4; 8], ImageKind::Cert(ImageCertKind::Cert2)).unwrap();
    assert_eq!(image.partitions().len(), 2);

    image.remove_partition("boot").unwrap();
    let parts = image.partitions();
    assert_eq!(parts.len(), 1);
    assert_eq!(parts[0].header.name(), "lk");
    assert!(parts[0].header.is_last());
    assert_eq!(image.data.len(), 528);
    assert!(image.get_part_certs("lk").is_empty());

    assert_eq!(
        image.remove_partition("boot"),
        Err(Error::Image(ImageError::PartitionNotFound))
    );
    image.remove_partition("lk").unwrap();
    assert_eq!(image.data, vec![0u8; 528 - (IMAGE_HEADER_SIZE + 5)]);
    assert!(image.partitions().is_empty());
}

#[test]
fn image_add_errors() {
    let mut image = Image::default();
    assert_eq!(
        image.add_partition("", &[1], ImageKind::Ap(ImageAPKind::APBin)),
        Err(Error::Image(ImageError::PartitionNameEmpty))
    );
    assert_eq!(
        image.add_partition(&"n".repeat(33), &[1], ImageKind::Ap(ImageAPKind::APBin)),
        Err(Error::Image(ImageError::PartitionNameTooLong))
    );
    assert_eq!(
        image.add_partition("ok", &[], ImageKind::Ap(ImageAPKind::APBin)),
        Err(Error::Image(ImageError::PartitionContentEmpty))
    );
    assert!(image.data.is_empty());
    assert!(image.add_partition(&"n".repeat(32), &[1], ImageKind::Ap(ImageAPKind::APBin)).is_ok());
}

#[test]
fn image_new_reads_existing_data() {
    let mut source = Image::default();
    source.add_partition("recovery", &[5; 33], ImageKind::Ap(ImageAPKind::APBin)).unwrap();
    let image = Image::new(&source.data);
    let p = image.get_partition("recovery").unwrap();
    assert_eq!(p.content, &[5; 33]);
    assert_eq!(p.header.data_size(), 33);
}

#[test]
fn image_truncated_partition_is_not_listed() {
    let mut source = Image::default();
    source.add_partition("boot", &[5; 33], ImageKind::Ap(ImageAPKind::APBin)).unwrap();
    let image = Image::new(&source.data[..source.data.len() - 1]);
    assert!(image.partitions().is_empty());
    let short = Image::new(&source.data[..100]);
    assert!(short.partitions().is_empty());
}

#[test]
fn image_remove_stops_at_invalid_group() {
    let mut image = Image::default();
    image.add_partition("boot", &[2; 6], ImageKind::Ap(ImageAPKind::APBin)).unwrap();
    image.add_partition("odd", &[3; 7], ImageKind::Ap(ImageAPKind::APBin)).unwrap();
    let odd_start = 528;
    image.data[odd_start + 60..odd_start + 64].copy_from_slice(&0x0700_0000u32.to_le_bytes());
    let before = image.data.clone();
    assert_eq!(
        image.remove_partition("boot"),
        Err(Error::Image(ImageError::InvalidHeader(
            hacc::common::image::InvalidImageHeaderError::InvalidImageGroup(7)
        )))
    );
    assert_eq!(image.data, before);
}

#[test]
fn image_header_invalid_utf8_name_reads_empty() {
    let mut image = Image::default();
    image.add_partition("ab", &[1], ImageKind::Ap(ImageAPKind::APBin)).unwrap();
    image.data[9] = 0xFF;
    let parts = image.partitions();
    assert_eq!(parts.len(), 1);
    assert_eq!(parts[0].header.name(), "");
    assert!(!image.has_partition("ab"));
}
