//! Android-style partition images used by MediaTek tools: a list of partitions, each a 512-byte
//! header followed by its content, aligned one after another.
use vstd::prelude::*;

use crate::bytes::{
    le_u32_at, lemma_u32_roundtrip, opt_int, push_bytes, push_u32, read_array, read_u32, to_vec,
    u32_le_bytes, write_u32,
};
use crate::error::{Error, Result};
use crate::text::{field_text, str_eq, text_of};
use vstd::string::StringSliceAdditionalSpecFns;

verus! {

#[derive(Debug, PartialEq, Eq, Structural)]
pub enum InvalidImageHeaderError {
    /// The expected magic, then the one found.
    InvalidMagic(u32, u32),
    InvalidSize(u32),
    /// The expected header size, then the one found.
    InvalidHeaderSize(usize, u32),
    InvalidImageType(u32),
    InvalidImageGroup(u32),
}

#[derive(Debug, PartialEq, Eq, Structural)]
pub enum ImageError {
    PartitionNameTooLong,
    PartitionNameEmpty,
    PartitionContentEmpty,
    InvalidHeader(InvalidImageHeaderError),
    PartitionNotFound,
}

#[derive(Debug, PartialEq, Eq, Structural)]
pub enum ImageAPKind {
    APBin,
}

#[derive(Debug, PartialEq, Eq, Structural)]
pub enum ImageMDKind {
    MdLte,
    MdC2k,
}

#[derive(Debug, PartialEq, Eq, Structural)]
pub enum ImageCertKind {
    Cert1,
    Cert1Md,
    Cert2,
}

#[derive(Debug, PartialEq, Eq, Structural)]
pub enum ImageGroup {
    Ap,
    Md,
    Cert,
}

#[derive(Debug, PartialEq, Eq, Structural)]
pub enum ImageKind {
    Ap(ImageAPKind),
    Md(ImageMDKind),
    Cert(ImageCertKind),
}

/// The group of a kind of image.
pub open spec fn kind_group(k: ImageKind) -> ImageGroup {
    match k {
        ImageKind::Ap(_) => ImageGroup::Ap,
        ImageKind::Md(_) => ImageGroup::Md,
        ImageKind::Cert(_) => ImageGroup::Cert,
    }
}

/// The code of a kind of image: its group in the top byte, its number within the group in the
/// lowest byte.
pub open spec fn kind_value(k: ImageKind) -> u32 {
    match k {
        ImageKind::Ap(ImageAPKind::APBin) => 0x0000_0000,
        ImageKind::Md(ImageMDKind::MdLte) => 0x0100_0000,
        ImageKind::Md(ImageMDKind::MdC2k) => 0x0100_0001,
        ImageKind::Cert(ImageCertKind::Cert1) => 0x0200_0000,
        ImageKind::Cert(ImageCertKind::Cert1Md) => 0x0200_0001,
        ImageKind::Cert(ImageCertKind::Cert2) => 0x0200_0002,
    }
}

/// The type of an image as stored in its header: group in bits 24 to 31, number within the
/// group in bits 0 to 7.
#[derive(Debug, Clone, Copy, PartialEq, Eq, Structural)]
pub struct ImageType {
    pub value: u32,
}

impl ImageType {
    /// The group named by the top byte, or `InvalidImageGroup` with that byte.
    pub open spec fn spec_group(self) -> core::result::Result<ImageGroup, Error> {
        let val = self.value >> 24;
        if val == 0 {
            Ok(ImageGroup::Ap)
        } else if val == 1 {
            Ok(ImageGroup::Md)
        } else if val == 2 {
            Ok(ImageGroup::Cert)
        } else {
            Err(
                Error::Image(
                    ImageError::InvalidHeader(InvalidImageHeaderError::InvalidImageGroup(val)),
                ),
            )
        }
    }

    /// The kind named by the group and the lowest byte; the group's error, or
    /// `InvalidImageType` with the lowest byte when the group has no kind of that number.
    pub open spec fn spec_id(self) -> core::result::Result<ImageKind, Error> {
        let id = self.value & 0xff;
        let bad = Error::Image(ImageError::InvalidHeader(InvalidImageHeaderError::InvalidImageType(id)));
        match self.spec_group() {
            Err(e) => Err(e),
            Ok(ImageGroup::Ap) => if id == 0 {
                Ok(ImageKind::Ap(ImageAPKind::APBin))
            } else {
                Err(bad)
            },
            Ok(ImageGroup::Md) => if id == 0 {
                Ok(ImageKind::Md(ImageMDKind::MdLte))
            } else if id == 1 {
                Ok(ImageKind::Md(ImageMDKind::MdC2k))
            } else {
                Err(bad)
            },
            Ok(ImageGroup::Cert) => if id == 0 {
                Ok(ImageKind::Cert(ImageCertKind::Cert1))
            } else if id == 1 {
                Ok(ImageKind::Cert(ImageCertKind::Cert1Md))
            } else if id == 2 {
                Ok(ImageKind::Cert(ImageCertKind::Cert2))
            } else {
                Err(bad)
            },
        }
    }

    fn group(&self) -> (r: Result<ImageGroup>)
        ensures
            r == self.spec_group(),
    {
        let val = self.value >> 24;
        if val == 0 {
            Ok(ImageGroup::Ap)
        } else if val == 1 {
            Ok(ImageGroup::Md)
        } else if val == 2 {
            Ok(ImageGroup::Cert)
        } else {
            Err(
                Error::Image(
                    ImageError::InvalidHeader(InvalidImageHeaderError::InvalidImageGroup(val)),
                ),
            )
        }
    }

    fn id(&self) -> (r: Result<ImageKind>)
        ensures
            r == self.spec_id(),
    {
        let id = self.value & 0xFF;
        Ok(
            match self.group()? {
                ImageGroup::Ap => {
                    let kind = match id {
                        0 => ImageAPKind::APBin,
                        _ => {
                            return Err(
                                Error::Image(
                                    ImageError::InvalidHeader(
                                        InvalidImageHeaderError::InvalidImageType(id),
                                    ),
                                ),
                            );
                        },
                    };
                    ImageKind::Ap(kind)
                },
                ImageGroup::Md => {
                    let kind = match id {
                        0 => ImageMDKind::MdLte,
                        1 => ImageMDKind::MdC2k,
                        _ => {
                            return Err(
                                Error::Image(
                                    ImageError::InvalidHeader(
                                        InvalidImageHeaderError::InvalidImageType(id),
                                    ),
                                ),
                            );
                        },
                    };
                    ImageKind::Md(kind)
                },
                ImageGroup::Cert => {
                    let kind = match id {
                        0 => ImageCertKind::Cert1,
                        1 => ImageCertKind::Cert1Md,
                        2 => ImageCertKind::Cert2,
                        _ => {
                            return Err(
                                Error::Image(
                                    ImageError::InvalidHeader(
                                        InvalidImageHeaderError::InvalidImageType(id),
                                    ),
                                ),
                            );
                        },
                    };
                    ImageKind::Cert(kind)
                },
            },
        )
    }
}

impl From<ImageKind> for ImageType {
    fn from(kind: ImageKind) -> (r: Self) {
        let (group_val, id_val): (u32, u32) = match kind {
            ImageKind::Ap(ap_kind) => (0, match ap_kind {
                ImageAPKind::APBin => 0,
            }),
            ImageKind::Md(md_kind) => (1, match md_kind {
                ImageMDKind::MdLte => 0,
                ImageMDKind::MdC2k => 1,
            }),
            ImageKind::Cert(cert_kind) => (2, match cert_kind {
                ImageCertKind::Cert1 => 0,
                ImageCertKind::Cert1Md => 1,
                ImageCertKind::Cert2 => 2,
            }),
        };
        assert(((group_val << 24u32) | id_val) == group_val * 0x0100_0000 + id_val) by (bit_vector)
            requires
                group_val <= 2,
                id_val <= 2,
        ;
        Self { value: (group_val << 24) | id_val }
    }
}

impl vstd::std_specs::convert::FromSpecImpl<ImageKind> for ImageType {
    open spec fn obeys_from_spec() -> bool {
        true
    }

    open spec fn from_spec(v: ImageKind) -> ImageType {
        ImageType { value: kind_value(v) }
    }
}

/// The type made from a kind names that kind again, and its group.
pub proof fn lemma_kind_roundtrip(k: ImageKind)
    ensures
        (ImageType { value: kind_value(k) }).spec_id() == Ok::<ImageKind, Error>(k),
        (ImageType { value: kind_value(k) }).spec_group() == Ok::<ImageGroup, Error>(kind_group(k)),
{
    assert(0x0000_0000u32 >> 24u32 == 0 && 0x0000_0000u32 & 0xffu32 == 0) by (bit_vector);
    assert(0x0100_0000u32 >> 24u32 == 1 && 0x0100_0000u32 & 0xffu32 == 0) by (bit_vector);
    assert(0x0100_0001u32 >> 24u32 == 1 && 0x0100_0001u32 & 0xffu32 == 1) by (bit_vector);
    assert(0x0200_0000u32 >> 24u32 == 2 && 0x0200_0000u32 & 0xffu32 == 0) by (bit_vector);
    assert(0x0200_0001u32 >> 24u32 == 2 && 0x0200_0001u32 & 0xffu32 == 1) by (bit_vector);
    assert(0x0200_0002u32 >> 24u32 == 2 && 0x0200_0002u32 & 0xffu32 == 2) by (bit_vector);
}

} // verus!

verus! {

/// Size of an image header on disk.
pub const IMAGE_HEADER_SIZE: usize = 512;

/// What an image header holds, as plain values.
#[verifier::ext_equal]
pub struct ImageHeaderModel {
    pub magic: u32,
    pub dsize: u32,
    pub name: Seq<u8>,
    pub addr: u32,
    pub mode: u32,
    pub ext_magic: u32,
    pub hdr_size: u32,
    pub hdr_ver: u32,
    pub img_type: ImageType,
    pub img_list_end: u32,
    pub align_size: u32,
    pub dsize_ext: u32,
    pub addr_ext: u32,
    pub scrambled: u32,
    pub reserved: Seq<u8>,
}

/// The name field made from `name`: its first 32 bytes, padded with NULs to 32 bytes.
pub open spec fn padded_name(name: Seq<u8>) -> Seq<u8> {
    Seq::new(32, |i: int| if i < name.len() { name[i] } else { 0u8 })
}

impl ImageHeaderModel {
    /// The header stored at `s[off..off + 512]`.
    pub open spec fn at(s: Seq<u8>, off: int) -> ImageHeaderModel {
        ImageHeaderModel {
            magic: le_u32_at(s, off),
            dsize: le_u32_at(s, off + 4),
            name: s.subrange(off + 8, off + 40),
            addr: le_u32_at(s, off + 40),
            mode: le_u32_at(s, off + 44),
            ext_magic: le_u32_at(s, off + 48),
            hdr_size: le_u32_at(s, off + 52),
            hdr_ver: le_u32_at(s, off + 56),
            img_type: ImageType { value: le_u32_at(s, off + 60) },
            img_list_end: le_u32_at(s, off + 64),
            align_size: le_u32_at(s, off + 68),
            dsize_ext: le_u32_at(s, off + 72),
            addr_ext: le_u32_at(s, off + 76),
            scrambled: le_u32_at(s, off + 80),
            reserved: s.subrange(off + 84, off + 512),
        }
    }

    /// The 512 bytes of the header on disk.
    pub open spec fn spec_bytes(self) -> Seq<u8> {
        u32_le_bytes(self.magic) + u32_le_bytes(self.dsize) + self.name + u32_le_bytes(self.addr)
            + u32_le_bytes(self.mode) + u32_le_bytes(self.ext_magic) + u32_le_bytes(self.hdr_size)
            + u32_le_bytes(self.hdr_ver) + u32_le_bytes(self.img_type.value) + u32_le_bytes(
            self.img_list_end,
        ) + u32_le_bytes(self.align_size) + u32_le_bytes(self.dsize_ext) + u32_le_bytes(
            self.addr_ext,
        ) + u32_le_bytes(self.scrambled) + self.reserved
    }

    /// The header carries the extension fields.
    pub open spec fn spec_is_extended(self) -> bool {
        self.ext_magic == 0x58891689
    }

    /// The header has the magic and the size of a header.
    pub open spec fn spec_is_valid(self) -> bool {
        self.magic == 0x58881688 && self.hdr_size == IMAGE_HEADER_SIZE
    }

    /// The size of the content: the extension gives the high 32 bits, unless it is all ones.
    pub open spec fn spec_data_size(self) -> int {
        if self.spec_is_extended() && self.dsize_ext != u32::MAX {
            self.dsize_ext * 0x1_0000_0000 + self.dsize
        } else {
            self.dsize as int
        }
    }

    /// The load address: the extension gives the high 32 bits, unless it is all ones.
    pub open spec fn spec_addr(self) -> int {
        if self.spec_is_extended() && self.addr_ext != u32::MAX {
            self.addr_ext * 0x1_0000_0000 + self.addr
        } else {
            self.addr as int
        }
    }

    /// The name as text.
    pub open spec fn name_text(self) -> Seq<char> {
        field_text(self.name, ""@)
    }

    /// The header that [`ImageHeader::new`] makes for a partition with the given name bytes,
    /// content length and type.
    pub open spec fn spec_new(name: Seq<u8>, length: u64, img_type: ImageType) -> ImageHeaderModel {
        ImageHeaderModel {
            magic: 0x58881688,
            dsize: length as u32,
            name: padded_name(name),
            addr: 0,
            mode: 0,
            ext_magic: 0x58891689,
            hdr_size: 512,
            hdr_ver: 1,
            img_type,
            img_list_end: 1,
            align_size: 0x10,
            dsize_ext: (length >> 32) as u32,
            addr_ext: 0,
            scrambled: 0,
            reserved: Seq::new(428, |i: int| 0u8),
        }
    }
}

/// The header of a partition in an image.
#[derive(Debug)]
pub struct ImageHeader {
    magic: u32,
    dsize: u32,
    name: [u8; 32],
    addr: u32,
    mode: u32,
    ext_magic: u32,
    hdr_size: u32,
    hdr_ver: u32,
    img_type: ImageType,
    img_list_end: u32,
    align_size: u32,
    dsize_ext: u32,
    addr_ext: u32,
    scrambled: u32,
    _reserved: [u8; 428],
}

impl View for ImageHeader {
    type V = ImageHeaderModel;

    closed spec fn view(&self) -> ImageHeaderModel {
        ImageHeaderModel {
            magic: self.magic,
            dsize: self.dsize,
            name: self.name@,
            addr: self.addr,
            mode: self.mode,
            ext_magic: self.ext_magic,
            hdr_size: self.hdr_size,
            hdr_ver: self.hdr_ver,
            img_type: self.img_type,
            img_list_end: self.img_list_end,
            align_size: self.align_size,
            dsize_ext: self.dsize_ext,
            addr_ext: self.addr_ext,
            scrambled: self.scrambled,
            reserved: self._reserved@,
        }
    }
}

impl ImageHeader {
    pub const DEFAULT_ALIGN_SZ: u32 = 0x10;
    pub const MAGIC: u32 = 0x58881688;
    pub const MAGIC_EXT: u32 = 0x58891689;

    /// A header for a partition named `name` (its first 32 bytes) holding `length` bytes of
    /// type `img_type`, marked as the last of the list.
    pub fn new(name: &str, length: u64, img_type: ImageType) -> (r: Self)
        ensures
            r@ == ImageHeaderModel::spec_new(name.spec_bytes(), length, img_type),
    {
        let mut name_bytes = [0u8; 32];
        let bytes = name.as_bytes();
        let len = if bytes.len() < 32 {
            bytes.len()
        } else {
            32
        };
        let mut i: usize = 0;
        while i < len
            invariant
                len <= 32,
                len <= bytes@.len(),
                bytes@ == name.spec_bytes(),
                i <= len,
                name_bytes@.len() == 32,
                forall|j: int| 0 <= j < i ==> name_bytes@[j] == bytes@[j],
                forall|j: int| i <= j < 32 ==> name_bytes@[j] == 0u8,
            decreases len - i,
        {
            name_bytes[i] = bytes[i];
            i = i + 1;
        }
        assert(name_bytes@ =~= padded_name(name.spec_bytes()));
        let reserved = [0u8; 428];
        assert(reserved@ =~= Seq::new(428, |i: int| 0u8));
        Self {
            magic: Self::MAGIC,
            dsize: length as u32,
            name: name_bytes,
            addr: 0,
            mode: 0,
            ext_magic: Self::MAGIC_EXT,
            hdr_size: IMAGE_HEADER_SIZE as u32,
            hdr_ver: 1,
            img_type,
            img_list_end: 1,
            align_size: Self::DEFAULT_ALIGN_SZ,
            dsize_ext: (length >> 32) as u32,
            addr_ext: 0,
            scrambled: 0,
            _reserved: reserved,
        }
    }

    pub fn is_valid(&self) -> (r: bool)
        ensures
            r == self@.spec_is_valid(),
    {
        self.magic == Self::MAGIC && self.hdr_size == IMAGE_HEADER_SIZE as u32
    }

    pub fn is_extended(&self) -> (r: bool)
        ensures
            r == self@.spec_is_extended(),
    {
        self.ext_magic == Self::MAGIC_EXT
    }

    pub fn data_size(&self) -> (r: u64)
        ensures
            r == self@.spec_data_size(),
    {
        if self.is_extended() && self.dsize_ext != u32::MAX {
            let hi = self.dsize_ext;
            let lo = self.dsize;
            assert((((hi as u64) << 32u64) | (lo as u64)) == hi * 0x1_0000_0000 + lo) by (bit_vector);
            ((self.dsize_ext as u64) << 32) | (self.dsize as u64)
        } else {
            self.dsize as u64
        }
    }

    /// The name as text, without trailing NULs; empty when it is not valid UTF-8.
    pub fn name(&self) -> (r: &str)
        ensures
            r@ == self@.name_text(),
    {
        text_of(self.name.as_slice(), "")
    }

    pub fn addr(&self) -> (r: u64)
        ensures
            r == self@.spec_addr(),
    {
        if self.is_extended() && self.addr_ext != u32::MAX {
            let hi = self.addr_ext;
            let lo = self.addr;
            assert((((hi as u64) << 32u64) | (lo as u64)) == hi * 0x1_0000_0000 + lo) by (bit_vector);
            ((self.addr_ext as u64) << 32) | (self.addr as u64)
        } else {
            self.addr as u64
        }
    }

    pub fn mode(&self) -> (r: u32)
        ensures
            r == self@.mode,
    {
        self.mode
    }

    /// The size of the header, as it states it.
    pub fn size(&self) -> (r: u32)
        ensures
            r == self@.hdr_size,
    {
        self.hdr_size
    }

    pub fn hdr_ver(&self) -> (r: u32)
        ensures
            r == self@.hdr_ver,
    {
        self.hdr_ver
    }

    pub fn image_group(&self) -> (r: Result<ImageGroup>)
        ensures
            r == self@.img_type.spec_group(),
    {
        self.img_type.group()
    }

    pub fn image_id(&self) -> (r: Result<ImageKind>)
        ensures
            r == self@.img_type.spec_id(),
    {
        self.img_type.id()
    }

    pub fn align_size(&self) -> (r: u32)
        ensures
            r == self@.align_size,
    {
        self.align_size
    }

    /// The partition is the last of the list.
    pub fn is_last(&self) -> (r: bool)
        ensures
            r == (self@.img_list_end == 1),
    {
        self.img_list_end == 1
    }

    pub fn scrambled(&self) -> (r: u32)
        ensures
            r == self@.scrambled,
    {
        self.scrambled
    }

    /// The 512 bytes of the header on disk.
    fn to_bytes(&self) -> (r: Vec<u8>)
        ensures
            r@ == self@.spec_bytes(),
    {
        let mut out: Vec<u8> = Vec::new();
        push_u32(&mut out, self.magic);
        push_u32(&mut out, self.dsize);
        push_bytes(&mut out, self.name.as_slice());
        push_u32(&mut out, self.addr);
        push_u32(&mut out, self.mode);
        push_u32(&mut out, self.ext_magic);
        push_u32(&mut out, self.hdr_size);
        push_u32(&mut out, self.hdr_ver);
        push_u32(&mut out, self.img_type.value);
        push_u32(&mut out, self.img_list_end);
        push_u32(&mut out, self.align_size);
        push_u32(&mut out, self.dsize_ext);
        push_u32(&mut out, self.addr_ext);
        push_u32(&mut out, self.scrambled);
        push_bytes(&mut out, self._reserved.as_slice());
        out
    }
}

/// Reads the header stored at `data[off..off + 512]`.
fn read_image_header(data: &[u8], off: usize) -> (r: ImageHeader)
    requires
        off + IMAGE_HEADER_SIZE <= data.len(),
    ensures
        r@ == ImageHeaderModel::at(data@, off as int),
{
    let r = ImageHeader {
        magic: read_u32(data, off),
        dsize: read_u32(data, off + 4),
        name: read_array(data, off + 8),
        addr: read_u32(data, off + 40),
        mode: read_u32(data, off + 44),
        ext_magic: read_u32(data, off + 48),
        hdr_size: read_u32(data, off + 52),
        hdr_ver: read_u32(data, off + 56),
        img_type: ImageType { value: read_u32(data, off + 60) },
        img_list_end: read_u32(data, off + 64),
        align_size: read_u32(data, off + 68),
        dsize_ext: read_u32(data, off + 72),
        addr_ext: read_u32(data, off + 76),
        scrambled: read_u32(data, off + 80),
        _reserved: read_array(data, off + 84),
    };
    assert(r@ =~= ImageHeaderModel::at(data@, off as int));
    r
}

/// A header made for content of `length` bytes states that length, unless the high half of
/// the length is all ones (which the header reads as "no extension").
pub proof fn lemma_new_header_data_size(name: Seq<u8>, length: u64, img_type: ImageType)
    requires
        (length >> 32) != 0xffff_ffffu64,
    ensures
        ImageHeaderModel::spec_new(name, length, img_type).spec_data_size() == length,
{
    let lo = length as u32;
    let hi = (length >> 32) as u32;
    assert(hi * 0x1_0000_0000 + lo == length && hi != 0xffff_ffffu32) by (bit_vector)
        requires
            lo == length as u32,
            hi == (length >> 32) as u32,
            (length >> 32) != 0xffff_ffffu64,
    ;
}

} // verus!

verus! {

/// Bytes read at an offset past a prefix are the bytes read from what follows the prefix.
proof fn lemma_u32_at_past_prefix(pre: Seq<u8>, b: Seq<u8>, k: int)
    requires
        0 <= k,
        k + 4 <= b.len(),
    ensures
        le_u32_at(pre + b, pre.len() + k) == le_u32_at(b, k),
{
    let s = pre + b;
    assert(s[pre.len() + k] == b[k]);
    assert(s[pre.len() + k + 1] == b[k + 1]);
    assert(s[pre.len() + k + 2] == b[k + 2]);
    assert(s[pre.len() + k + 3] == b[k + 3]);
}

/// Reading back a header written after any prefix and before any suffix gives the same header.
pub proof fn lemma_image_header_read_after_write(h: ImageHeaderModel, pre: Seq<u8>, post: Seq<u8>)
    requires
        h.name.len() == 32,
        h.reserved.len() == 428,
    ensures
        ImageHeaderModel::at(pre + h.spec_bytes() + post, pre.len() as int) == h,
        h.spec_bytes().len() == IMAGE_HEADER_SIZE,
{
    let b = h.spec_bytes() + post;
    assert(pre + h.spec_bytes() + post =~= pre + b);
    lemma_u32_roundtrip(h.magic);
    lemma_u32_roundtrip(h.dsize);
    lemma_u32_roundtrip(h.addr);
    lemma_u32_roundtrip(h.mode);
    lemma_u32_roundtrip(h.ext_magic);
    lemma_u32_roundtrip(h.hdr_size);
    lemma_u32_roundtrip(h.hdr_ver);
    lemma_u32_roundtrip(h.img_type.value);
    lemma_u32_roundtrip(h.img_list_end);
    lemma_u32_roundtrip(h.align_size);
    lemma_u32_roundtrip(h.dsize_ext);
    lemma_u32_roundtrip(h.addr_ext);
    lemma_u32_roundtrip(h.scrambled);
    assert(le_u32_at(b, 0) == le_u32_at(u32_le_bytes(h.magic), 0));
    assert(le_u32_at(b, 4) == le_u32_at(u32_le_bytes(h.dsize), 0));
    assert(b.subrange(8, 40) =~= h.name);
    assert(le_u32_at(b, 40) == le_u32_at(u32_le_bytes(h.addr), 0));
    assert(le_u32_at(b, 44) == le_u32_at(u32_le_bytes(h.mode), 0));
    assert(le_u32_at(b, 48) == le_u32_at(u32_le_bytes(h.ext_magic), 0));
    assert(le_u32_at(b, 52) == le_u32_at(u32_le_bytes(h.hdr_size), 0));
    assert(le_u32_at(b, 56) == le_u32_at(u32_le_bytes(h.hdr_ver), 0));
    assert(le_u32_at(b, 60) == le_u32_at(u32_le_bytes(h.img_type.value), 0));
    assert(le_u32_at(b, 64) == le_u32_at(u32_le_bytes(h.img_list_end), 0));
    assert(le_u32_at(b, 68) == le_u32_at(u32_le_bytes(h.align_size), 0));
    assert(le_u32_at(b, 72) == le_u32_at(u32_le_bytes(h.dsize_ext), 0));
    assert(le_u32_at(b, 76) == le_u32_at(u32_le_bytes(h.addr_ext), 0));
    assert(le_u32_at(b, 80) == le_u32_at(u32_le_bytes(h.scrambled), 0));
    assert(b.subrange(84, 512) =~= h.reserved);
    let offs = seq![0int, 4, 40, 44, 48, 52, 56, 60, 64, 68, 72, 76, 80];
    assert forall|i: int| 0 <= i < offs.len() implies le_u32_at(pre + b, pre.len() + #[trigger] offs[i])
        == le_u32_at(b, offs[i]) by {
        lemma_u32_at_past_prefix(pre, b, offs[i]);
    }
    assert((pre + b).subrange(pre.len() + 8int, pre.len() + 40int) =~= b.subrange(8, 40));
    assert((pre + b).subrange(pre.len() + 84int, pre.len() + 512int) =~= b.subrange(84, 512));
    assert(offs[0] == 0 && offs[1] == 4 && offs[2] == 40 && offs[3] == 44 && offs[4] == 48
        && offs[5] == 52 && offs[6] == 56 && offs[7] == 60 && offs[8] == 64 && offs[9] == 68
        && offs[10] == 72 && offs[11] == 76 && offs[12] == 80);
    assert(ImageHeaderModel::at(pre + b, pre.len() as int) =~= h);
}

} // verus!

verus! {

/// Where the partition after one whose content ends at `end` starts: `end` rounded up to a
/// multiple of `align` by the usual mask, in machine arithmetic (it wraps around).
pub open spec fn next_offset(end: usize, align: u32) -> usize {
    end.wrapping_add(align as usize).wrapping_sub(1usize) & !((align as usize).wrapping_sub(1usize))
}

/// A partition as plain values: its header, where it starts and ends in the image (header
/// included), and its content.
#[verifier::ext_equal]
pub struct ImagePartitionModel {
    pub header: ImageHeaderModel,
    pub start: int,
    pub end: int,
    pub content: Seq<u8>,
}

/// The partitions found by walking the image from offset `o`: a header must fit in the data,
/// and the content it announces too; the next partition starts at the end of the content
/// rounded up to the header's alignment. The walk ends when any of this fails, and also when
/// the next offset would not lie past the current one or within the data.
pub open spec fn parts_from(data: Seq<u8>, o: int) -> Seq<ImagePartitionModel>
    decreases data.len() - o,
{
    if o < 0 || o + IMAGE_HEADER_SIZE > data.len() {
        Seq::empty()
    } else {
        let h = ImageHeaderModel::at(data, o);
        let data_start = o + h.hdr_size;
        let data_end = data_start + h.spec_data_size();
        if data_end > data.len() {
            Seq::empty()
        } else {
            let p = ImagePartitionModel {
                header: h,
                start: o,
                end: data_end,
                content: data.subrange(data_start, data_end),
            };
            let next = next_offset(data_end as usize, h.align_size) as int;
            if o < next < data.len() {
                seq![p] + parts_from(data, next)
            } else {
                seq![p]
            }
        }
    }
}

/// All the partitions of an image, walking from its start.
pub open spec fn spec_parts(data: Seq<u8>) -> Seq<ImagePartitionModel> {
    parts_from(data, 0)
}

/// The partition's type names a group other than certificates.
pub open spec fn is_listed(p: ImagePartitionModel) -> bool {
    p.header.img_type.spec_group() matches Ok(g) && g != ImageGroup::Cert
}

/// The partition's type names the certificate group.
pub open spec fn is_cert(p: ImagePartitionModel) -> bool {
    p.header.img_type.spec_group() == Ok::<ImageGroup, Error>(ImageGroup::Cert)
}

/// The partitions of `s` that are listed, in order.
pub open spec fn listed(s: Seq<ImagePartitionModel>) -> Seq<ImagePartitionModel>
    decreases s.len(),
{
    if s.len() == 0 {
        Seq::empty()
    } else if is_listed(s[0]) {
        seq![s[0]] + listed(s.drop_first())
    } else {
        listed(s.drop_first())
    }
}

/// The index of the first partition of `s` whose name reads as `name`.
pub open spec fn first_named(s: Seq<ImagePartitionModel>, name: Seq<char>) -> Option<int>
    decreases s.len(),
{
    if s.len() == 0 {
        None
    } else if s[0].header.name_text() == name {
        Some(0)
    } else {
        match first_named(s.drop_first(), name) {
            Some(i) => Some(i + 1),
            None => None,
        }
    }
}

/// The certificate partitions at the start of `s`.
pub open spec fn leading_certs(s: Seq<ImagePartitionModel>) -> Seq<ImagePartitionModel>
    decreases s.len(),
{
    if s.len() > 0 && is_cert(s[0]) {
        seq![s[0]] + leading_certs(s.drop_first())
    } else {
        Seq::empty()
    }
}

/// The certificates of the partition named `name`: the certificate partitions right after the
/// first partition of that name.
pub open spec fn certs_of(s: Seq<ImagePartitionModel>, name: Seq<char>) -> Seq<ImagePartitionModel> {
    match first_named(s, name) {
        Some(k) => leading_certs(s.skip(k + 1)),
        None => Seq::empty(),
    }
}

/// A partition of an image: its header, its range in the image and its content.
#[derive(Debug)]
pub struct ImagePartition<'a> {
    pub header: ImageHeader,
    pub range: core::ops::Range<usize>,
    pub content: &'a [u8],
}

impl<'a> View for ImagePartition<'a> {
    type V = ImagePartitionModel;

    open spec fn view(&self) -> ImagePartitionModel {
        ImagePartitionModel {
            header: self.header@,
            start: self.range.start as int,
            end: self.range.end as int,
            content: self.content@,
        }
    }
}

/// The views of a sequence of partitions.
pub open spec fn part_views<'a>(s: Seq<ImagePartition<'a>>) -> Seq<ImagePartitionModel> {
    s.map_values(|p: ImagePartition<'a>| p@)
}

/// An image: the bytes of all its partitions.
#[derive(Debug)]
pub struct Image {
    pub data: Vec<u8>,
}

impl Default for Image {
    fn default() -> (r: Self)
        ensures
            r.data@ == Seq::<u8>::empty(),
    {
        Image { data: Vec::new() }
    }
}

/// Removes the first element of a sequence of partitions, keeping the views in step.
proof fn lemma_part_views_drop_first<'a>(s: Seq<ImagePartition<'a>>)
    requires
        s.len() > 0,
    ensures
        part_views(s).len() == s.len(),
        part_views(s)[0] == s[0]@,
        part_views(s.drop_first()) == part_views(s).drop_first(),
{
    assert(part_views(s.drop_first()) =~= part_views(s).drop_first());
}

impl Image {
    pub fn new(data: &[u8]) -> (r: Self)
        ensures
            r.data@ == data@,
    {
        Image { data: to_vec(data) }
    }

    /// Walks the partitions of the image (see [`parts_from`]).
    fn part_iter(&self) -> (r: Vec<ImagePartition<'_>>)
        ensures
            part_views(r@) == spec_parts(self.data@),
    {
        let data = self.data.as_slice();
        let len = data.len();
        let mut out: Vec<ImagePartition<'_>> = Vec::new();
        let mut offset: usize = 0;
        assert(part_views(out@) + parts_from(data@, 0) =~= spec_parts(data@));
        loop
            invariant
                len == data@.len(),
                data@ == self.data@,
                offset <= len,
                part_views(out@) + parts_from(data@, offset as int) == spec_parts(data@),
            decreases len - offset,
        {
            let ghost before = out@;
            if offset >= len || len - offset < IMAGE_HEADER_SIZE {
                assert(part_views(out@) =~= spec_parts(data@));
                return out;
            }
            let header = read_image_header(data, offset);
            let start = offset;
            let hdr_size = header.size() as usize;
            let data_size = header.data_size();
            if hdr_size > len - start || data_size > (len - start - hdr_size) as u64 {
                assert(parts_from(data@, offset as int) =~= Seq::<ImagePartitionModel>::empty());
                assert(part_views(out@) =~= spec_parts(data@));
                return out;
            }
            let data_start = start + hdr_size;
            let data_end = data_start + data_size as usize;
            let align = header.align_size() as usize;
            let next = data_end.wrapping_add(align).wrapping_sub(1) & !(align.wrapping_sub(1));
            let content = &data[data_start..data_end];
            out.push(ImagePartition { header, range: start..data_end, content });
            assert(part_views(out@) =~= part_views(before).push(out@.last()@));
            if !(start < next && next < len) {
                assert(part_views(out@) =~= spec_parts(data@));
                return out;
            }
            offset = next;
            assert(part_views(out@) + parts_from(data@, offset as int) =~= spec_parts(data@));
        }
    }

    /// The partitions whose type names a group other than certificates, in order.
    pub fn partitions(&self) -> (r: Vec<ImagePartition<'_>>)
        ensures
            part_views(r@) == listed(spec_parts(self.data@)),
    {
        let mut parts = self.part_iter();
        let mut out: Vec<ImagePartition<'_>> = Vec::new();
        assert(part_views(out@) + listed(part_views(parts@)) =~= listed(spec_parts(self.data@)));
        while parts.len() > 0
            invariant
                part_views(out@) + listed(part_views(parts@)) == listed(spec_parts(self.data@)),
            decreases parts.len(),
        {
            proof {
                lemma_part_views_drop_first(parts@);
            }
            let ghost before = out@;
            let ghost rest = parts@.drop_first();
            let p = parts.remove(0);
            let keep = match p.header.image_group() {
                Ok(ImageGroup::Cert) => false,
                Ok(_) => true,
                Err(_) => false,
            };
            if keep {
                out.push(p);
                assert(part_views(out@) =~= part_views(before).push(p@));
            }
            assert(parts@ =~= rest);
            assert(part_views(out@) + listed(part_views(parts@)) =~= listed(spec_parts(self.data@)));
        }
        assert(listed(part_views(parts@)) =~= Seq::<ImagePartitionModel>::empty());
        assert(part_views(out@) =~= listed(spec_parts(self.data@)));
        out
    }
}


impl Image {
    /// Whether a listed partition is named `name`.
    pub fn has_partition(&self, name: &str) -> (r: bool)
        ensures
            r == (first_named(listed(spec_parts(self.data@)), name@) is Some),
    {
        match self.get_partition(name) {
            Some(_) => true,
            None => false,
        }
    }

    /// The first listed partition named `name`.
    pub fn get_partition(&self, name: &str) -> (r: Option<ImagePartition<'_>>)
        ensures
            match first_named(listed(spec_parts(self.data@)), name@) {
                Some(i) => r matches Some(p) && p@ == listed(spec_parts(self.data@))[i],
                None => r is None,
            },
    {
        let ghost all = listed(spec_parts(self.data@));
        let mut parts = self.partitions();
        let ghost mut skipped: int = 0;
        while parts.len() > 0
            invariant
                all == listed(spec_parts(self.data@)),
                0 <= skipped <= all.len(),
                part_views(parts@) == all.skip(skipped),
                first_named(all, name@) == match first_named(part_views(parts@), name@) {
                    Some(i) => Some(i + skipped),
                    None => None,
                },
            decreases parts.len(),
        {
            proof {
                lemma_part_views_drop_first(parts@);
            }
            let ghost rest = parts@.drop_first();
            let ghost views = part_views(parts@);
            let p = parts.remove(0);
            assert(views[0] == all[skipped]);
            if str_eq(p.header.name(), name) {
                assert(p@ == all[skipped]);
                assert(first_named(views, name@) == Some(0int));
                return Some(p);
            }
            assert(first_named(views, name@) == match first_named(views.drop_first(), name@) {
                Some(i) => Some(i + 1),
                None => None::<int>,
            });
            assert(parts@ =~= rest);
            proof {
                assert(all.skip(skipped + 1) =~= all.skip(skipped).drop_first());
                skipped = skipped + 1;
            }
        }
        None
    }

    /// The certificate partitions that follow the first partition named `name`.
    pub fn get_part_certs(&self, name: &str) -> (r: Vec<ImagePartition<'_>>)
        ensures
            part_views(r@) == certs_of(spec_parts(self.data@), name@),
    {
        let ghost all = spec_parts(self.data@);
        let mut parts = self.part_iter();
        let ghost mut skipped: int = 0;
        let mut found = false;
        while parts.len() > 0 && !found
            invariant
                all == spec_parts(self.data@),
                0 <= skipped <= all.len(),
                part_views(parts@) == all.skip(skipped),
                !found ==> first_named(all, name@) == match first_named(part_views(parts@), name@) {
                    Some(i) => Some(i + skipped),
                    None => None,
                },
                found ==> first_named(all, name@) == Some(skipped - 1),
            decreases parts.len(),
        {
            proof {
                lemma_part_views_drop_first(parts@);
            }
            let ghost rest = parts@.drop_first();
            let ghost views = part_views(parts@);
            let p = parts.remove(0);
            if str_eq(p.header.name(), name) {
                assert(first_named(views, name@) == Some(0int));
                found = true;
            } else {
                assert(first_named(views, name@) == match first_named(views.drop_first(), name@) {
                    Some(i) => Some(i + 1),
                    None => None::<int>,
                });
            }
            assert(parts@ =~= rest);
            proof {
                assert(all.skip(skipped + 1) =~= all.skip(skipped).drop_first());
                skipped = skipped + 1;
            }
        }
        let mut out: Vec<ImagePartition<'_>> = Vec::new();
        if !found {
            assert(first_named(part_views(parts@), name@) is None);
            assert(part_views(out@) =~= certs_of(all, name@));
            return out;
        }
        assert(part_views(out@) + leading_certs(part_views(parts@)) =~= certs_of(all, name@));
        while parts.len() > 0
            invariant
                all == spec_parts(self.data@),
                part_views(out@) + leading_certs(part_views(parts@)) == certs_of(all, name@),
            decreases parts.len(),
        {
            proof {
                lemma_part_views_drop_first(parts@);
            }
            let ghost before = out@;
            let ghost rest = parts@.drop_first();
            let ghost views = part_views(parts@);
            let p = parts.remove(0);
            let is_cert = match p.header.image_group() {
                Ok(ImageGroup::Cert) => true,
                _ => false,
            };
            if !is_cert {
                assert(leading_certs(views) =~= Seq::<ImagePartitionModel>::empty());
                assert(part_views(out@) =~= certs_of(all, name@));
                return out;
            }
            assert(leading_certs(views) =~= seq![p@] + leading_certs(views.drop_first()));
            out.push(p);
            assert(part_views(out@) =~= part_views(before).push(p@));
            assert(parts@ =~= rest);
            assert(part_views(out@) + leading_certs(part_views(parts@)) =~= certs_of(all, name@));
        }
        assert(part_views(out@) =~= certs_of(all, name@));
        out
    }
}


/// The bytes of `data`, cut or padded with zeros to length `n`.
pub open spec fn fit_to(data: Seq<u8>, n: int) -> Seq<u8> {
    if n <= data.len() {
        data.subrange(0, n)
    } else {
        data + Seq::new((n - data.len()) as nat, |i: int| 0u8)
    }
}

/// The data with the list-end field of the header at `start` set to `v`, when that header lies
/// within the data; otherwise the data unchanged.
pub open spec fn set_list_end(data: Seq<u8>, start: int, v: u32) -> Seq<u8> {
    if 0 <= start && start + IMAGE_HEADER_SIZE <= data.len() {
        data.subrange(0, start + 64) + u32_le_bytes(v) + data.subrange(start + 68, data.len() as int)
    } else {
        data
    }
}

/// Where a new partition goes: at the end of the content of the last partition, rounded up to
/// its alignment; at the start of an image without partitions.
pub open spec fn append_offset(data: Seq<u8>) -> int {
    let parts = spec_parts(data);
    if parts.len() == 0 {
        0
    } else {
        next_offset(parts.last().end as usize, parts.last().header.align_size) as int
    }
}

/// The image after adding a partition named `name` with `content` of the given kind: the
/// name must not be empty nor longer than 32 bytes, and the content must not be empty. The
/// data is cut or padded to where the new partition goes, a new header and the content are
/// appended, and the former last partition is no longer marked as the last.
pub open spec fn spec_add(data: Seq<u8>, name: Seq<u8>, content: Seq<u8>, kind: ImageKind) -> core::result::Result<
    Seq<u8>,
    Error,
> {
    if name.len() == 0 {
        Err(Error::Image(ImageError::PartitionNameEmpty))
    } else if name.len() > 32 {
        Err(Error::Image(ImageError::PartitionNameTooLong))
    } else if content.len() == 0 {
        Err(Error::Image(ImageError::PartitionContentEmpty))
    } else {
        let offset = append_offset(data);
        let h = ImageHeaderModel::spec_new(
            name,
            content.len() as u64,
            ImageType { value: kind_value(kind) },
        );
        let appended = fit_to(data, offset) + h.spec_bytes() + content;
        let parts = spec_parts(data);
        Ok(
            if parts.len() == 0 {
                appended
            } else {
                set_list_end(appended, parts.last().start, 0)
            },
        )
    }
}

/// The run of certificate partitions from index `j`: the index of the first partition from
/// `j` on that is not a certificate (or the end), or the error of the first one whose group is
/// invalid.
pub open spec fn cert_run_end(s: Seq<ImagePartitionModel>, j: int) -> core::result::Result<int, Error>
    decreases s.len() - j,
{
    if j < 0 || j >= s.len() {
        Ok(j)
    } else {
        match s[j].header.img_type.spec_group() {
            Err(e) => Err(e),
            Ok(ImageGroup::Cert) => cert_run_end(s, j + 1),
            Ok(_) => Ok(j),
        }
    }
}

/// The image after removing the first partition named `name` together with the certificate
/// partitions right after it; the partition before it, if any, becomes the last of the list.
/// No partition of that name gives `PartitionNotFound`; an invalid group among the partitions
/// that follow it, before the first that is not a certificate, gives that group's error.
pub open spec fn spec_remove(data: Seq<u8>, name: Seq<char>) -> core::result::Result<Seq<u8>, Error> {
    let parts = spec_parts(data);
    match first_named(parts, name) {
        None => Err(Error::Image(ImageError::PartitionNotFound)),
        Some(k) => match cert_run_end(parts, k + 1) {
            Err(e) => Err(e),
            Ok(j) => {
                let cut = data.subrange(0, parts[k].start) + data.subrange(
                    parts[j - 1].end,
                    data.len() as int,
                );
                Ok(
                    if k > 0 {
                        set_list_end(cut, parts[k - 1].start, 1)
                    } else {
                        cut
                    },
                )
            },
        },
    }
}

/// The partitions found from `o` start at or after `o` in increasing order, and each lies
/// within the data, its content after its start.
pub proof fn lemma_parts_from_bounds(data: Seq<u8>, o: int)
    ensures
        forall|i: int|
            0 <= i < parts_from(data, o).len() ==> {
                let p = #[trigger] parts_from(data, o)[i];
                &&& o <= p.start <= p.end <= data.len()
                &&& p.start + IMAGE_HEADER_SIZE <= data.len()
            },
        forall|i: int, j: int|
            0 <= i < j < parts_from(data, o).len() ==> #[trigger] parts_from(data, o)[i].start
                < #[trigger] parts_from(data, o)[j].start,
    decreases data.len() - o,
{
    if o < 0 || o + IMAGE_HEADER_SIZE > data.len() {
    } else {
        let h = ImageHeaderModel::at(data, o);
        let data_end = o + h.hdr_size + h.spec_data_size();
        if data_end <= data.len() {
            let next = next_offset(data_end as usize, h.align_size) as int;
            if o < next < data.len() {
                lemma_parts_from_bounds(data, next);
                let rest = parts_from(data, next);
                assert forall|i: int, j: int|
                    0 <= i < j < parts_from(data, o).len() implies #[trigger] parts_from(data, o)[i].start
                    < #[trigger] parts_from(data, o)[j].start by {
                    if i > 0 {
                        assert(parts_from(data, o)[i] == rest[i - 1]);
                    }
                    assert(parts_from(data, o)[j] == rest[j - 1]);
                }
                assert forall|i: int| 0 <= i < parts_from(data, o).len() implies {
                    let p = #[trigger] parts_from(data, o)[i];
                    &&& o <= p.start <= p.end <= data.len()
                    &&& p.start + IMAGE_HEADER_SIZE <= data.len()
                } by {
                    if i > 0 {
                        assert(parts_from(data, o)[i] == rest[i - 1]);
                    }
                }
            }
        }
    }
}

impl Image {
    /// Appends a partition named `name` holding `content` (see [`spec_add`]).
    pub fn add_partition(&mut self, name: &str, content: &[u8], img_type: ImageKind) -> (r: Result<()>)
        requires
            spec_add(old(self).data@, name.spec_bytes(), content@, img_type) is Ok ==> append_offset(
                old(self).data@,
            ) + IMAGE_HEADER_SIZE + content@.len() <= usize::MAX,
        ensures
            match spec_add(old(self).data@, name.spec_bytes(), content@, img_type) {
                Ok(d) => r is Ok && final(self).data@ == d,
                Err(e) => r == Err::<(), Error>(e) && final(self).data@ == old(self).data@,
            },
    {
        let name_bytes = name.as_bytes();
        if name_bytes.len() == 0 {
            return Err(Error::Image(ImageError::PartitionNameEmpty));
        } else if name_bytes.len() > 32 {
            return Err(Error::Image(ImageError::PartitionNameTooLong));
        } else if content.len() == 0 {
            return Err(Error::Image(ImageError::PartitionContentEmpty));
        }
        let ghost parts = spec_parts(self.data@);
        let (last_start, offset): (Option<usize>, usize) = {
            let all = self.part_iter();
            if all.len() == 0 {
                (None, 0)
            } else {
                let last = &all[all.len() - 1];
                assert(part_views(all@).len() == all@.len());
                assert(part_views(all@).last() == last@);
                assert(last.range.start == parts.last().start);
                let align = last.header.align_size() as usize;
                (
                    Some(last.range.start),
                    last.range.end.wrapping_add(align).wrapping_sub(1) & !(align.wrapping_sub(1)),
                )
            }
        };
        assert(offset == append_offset(old(self).data@));
        assert(last_start is Some <==> parts.len() > 0);
        assert(last_start is Some ==> last_start->0 == parts.last().start);
        let ghost h = ImageHeaderModel::spec_new(
            name.spec_bytes(),
            content@.len() as u64,
            ImageType { value: kind_value(img_type) },
        );
        let header = ImageHeader::new(name, content.len() as u64, ImageType::from(img_type));
        assert(header@ == h);
        let hb = header.to_bytes();
        let ghost fitted = fit_to(old(self).data@, offset as int);
        self.data.resize(offset, 0);
        assert(self.data@ =~= fitted);
        push_bytes(&mut self.data, hb.as_slice());
        push_bytes(&mut self.data, content);
        assert(self.data@ =~= fitted + h.spec_bytes() + content@);
        if let Some(start) = last_start {
            if start <= self.data.len() && IMAGE_HEADER_SIZE <= self.data.len() - start {
                write_u32(self.data.as_mut_slice(), start + 64, 0);
            }
        }
        Ok(())
    }
}


/// The index of the first partition of `all` named `name`.
fn find_named(all: &Vec<ImagePartition<'_>>, name: &str) -> (r: Option<usize>)
    ensures
        opt_int(r) == first_named(part_views(all@), name@),
{
    let ghost parts = part_views(all@);
    assert(parts.len() == all@.len());
    let n = all.len();
    let mut k: usize = 0;
    assert(parts.skip(0) =~= parts);
    while k < n
        invariant
            n == all@.len(),
            parts == part_views(all@),
            parts.len() == n,
            k <= n,
            first_named(parts, name@) == match first_named(parts.skip(k as int), name@) {
                Some(i) => Some(i + k),
                None => None,
            },
        decreases n - k,
    {
        let ghost rest = parts.skip(k as int);
        assert(rest[0] == all@[k as int]@);
        if str_eq(all[k].header.name(), name) {
            assert(first_named(rest, name@) == Some(0int));
            return Some(k);
        }
        assert(rest.drop_first() =~= parts.skip(k + 1));
        assert(first_named(rest, name@) == match first_named(rest.drop_first(), name@) {
            Some(i) => Some(i + 1),
            None => None::<int>,
        });
        k = k + 1;
    }
    assert(parts.skip(k as int) =~= Seq::<ImagePartitionModel>::empty());
    None
}

/// Where the run of certificate partitions of `all` from index `j` ends (see
/// [`cert_run_end`]).
fn find_cert_run_end(all: &Vec<ImagePartition<'_>>, j: usize) -> (r: Result<usize>)
    requires
        j <= all@.len(),
    ensures
        match cert_run_end(part_views(all@), j as int) {
            Ok(e) => r matches Ok(x) && x == e,
            Err(e) => r == Err::<usize, Error>(e),
        },
{
    let ghost parts = part_views(all@);
    assert(parts.len() == all@.len());
    let n = all.len();
    let mut i: usize = j;
    while i < n
        invariant
            n == all@.len(),
            parts == part_views(all@),
            parts.len() == n,
            j <= i <= n,
            cert_run_end(parts, j as int) == cert_run_end(parts, i as int),
        decreases n - i,
    {
        assert(parts[i as int] == all@[i as int]@);
        match all[i].header.image_group() {
            Err(e) => {
                return Err(e);
            },
            Ok(ImageGroup::Cert) => {
                i = i + 1;
            },
            Ok(_) => {
                return Ok(i);
            },
        }
    }
    Ok(i)
}

impl Image {
    /// Removes the first partition named `name` and the certificates that follow it (see
    /// [`spec_remove`]).
    pub fn remove_partition(&mut self, name: &str) -> (r: Result<()>)
        ensures
            match spec_remove(old(self).data@, name@) {
                Ok(d) => r is Ok && final(self).data@ == d,
                Err(e) => r == Err::<(), Error>(e) && final(self).data@ == old(self).data@,
            },
    {
        let ghost parts = spec_parts(self.data@);
        proof {
            lemma_parts_from_bounds(self.data@, 0);
        }
        let (prev_start, start, end): (Option<usize>, usize, usize) = {
            let all = self.part_iter();
            assert(part_views(all@).len() == all@.len());
            let k = match find_named(&all, name) {
                Some(k) => k,
                None => {
                    return Err(Error::Image(ImageError::PartitionNotFound));
                },
            };
            proof {
                lemma_first_named_found(parts, name@);
            }
            let j = match find_cert_run_end(&all, k + 1) {
                Ok(j) => j,
                Err(e) => {
                    return Err(e);
                },
            };
            assert(k < j <= all@.len()) by {
                assert(j >= k + 1) by {
                    lemma_cert_run_end_bounds(parts, k + 1);
                }
                lemma_cert_run_end_bounds(parts, k + 1);
            }
            assert(parts[k as int] == all@[k as int]@);
            assert(parts[j - 1] == all@[j - 1]@);
            let start = all[k].range.start;
            let end = all[j - 1].range.end;
            let prev_start = if k > 0 {
                assert(parts[k - 1] == all@[k - 1]@);
                Some(all[k - 1].range.start)
            } else {
                None
            };
            (prev_start, start, end)
        };
        let ghost cut = old(self).data@.subrange(0, start as int) + old(self).data@.subrange(
            end as int,
            old(self).data@.len() as int,
        );
        let tail = self.data.split_off(end);
        self.data.truncate(start);
        push_bytes(&mut self.data, tail.as_slice());
        assert(self.data@ =~= cut);
        if let Some(prev) = prev_start {
            if prev <= self.data.len() && IMAGE_HEADER_SIZE <= self.data.len() - prev {
                write_u32(self.data.as_mut_slice(), prev + 64, 1);
            }
        }
        Ok(())
    }
}

/// The first partition named `name` is one of the sequence, and is named `name`.
pub proof fn lemma_first_named_found(s: Seq<ImagePartitionModel>, name: Seq<char>)
    ensures
        first_named(s, name) matches Some(i) ==> 0 <= i < s.len() && s[i].header.name_text() == name,
        first_named(s, name) is None ==> forall|i: int| 0 <= i < s.len() ==> #[trigger] s[i].header.name_text() != name,
    decreases s.len(),
{
    if s.len() > 0 {
        lemma_first_named_found(s.drop_first(), name);
        if first_named(s, name) is None {
            assert forall|i: int| 0 <= i < s.len() implies #[trigger] s[i].header.name_text() != name by {
                if i > 0 {
                    assert(s[i] == s.drop_first()[i - 1]);
                }
            }
        }
    }
}

/// The run of certificates from `j` ends at or after `j` and no further than the end.
proof fn lemma_cert_run_end_bounds(s: Seq<ImagePartitionModel>, j: int)
    requires
        0 <= j <= s.len(),
    ensures
        cert_run_end(s, j) matches Ok(e) ==> j <= e <= s.len(),
    decreases s.len() - j,
{
    if j < s.len() {
        lemma_cert_run_end_bounds(s, j + 1);
    }
}


/// The partitions with the last one no longer marked as the last of the list.
pub open spec fn unmark_last(s: Seq<ImagePartitionModel>) -> Seq<ImagePartitionModel> {
    if s.len() == 0 {
        s
    } else {
        let l = s.last();
        s.update(
            s.len() - 1,
            ImagePartitionModel { header: ImageHeaderModel { img_list_end: 0, ..l.header }, ..l },
        )
    }
}

/// The partitions are laid out one after another: every header is at least a full header
/// long, and no partition starts before the end of an earlier one.
pub open spec fn laid_out(s: Seq<ImagePartitionModel>) -> bool {
    &&& forall|i: int| 0 <= i < s.len() ==> (#[trigger] s[i]).header.hdr_size >= IMAGE_HEADER_SIZE
    &&& forall|i: int, j: int| 0 <= i < j < s.len() ==> #[trigger] s[i].end <= #[trigger] s[j].start
}

/// Rounding up to a multiple of 16 that does not wrap around gives at least the value rounded.
proof fn lemma_next_offset_16(x: usize)
    requires
        x + 15 <= usize::MAX,
    ensures
        next_offset(x, 16) >= x,
{
    assert(x.wrapping_add(16usize).wrapping_sub(1usize) == x + 15) by {
        assert(x + 16 <= usize::MAX + 1);
    }
    let y = (x + 15) as usize;
    assert((y & !15usize) >= y - 15) by (bit_vector);
}


/// A header depends only on the 512 bytes where it is stored.
proof fn lemma_header_at_window(s: Seq<u8>, o: int)
    requires
        0 <= o,
        o + IMAGE_HEADER_SIZE <= s.len(),
    ensures
        ImageHeaderModel::at(s, o) == ImageHeaderModel::at(s.subrange(o, o + IMAGE_HEADER_SIZE), 0),
{
    let w = s.subrange(o, o + IMAGE_HEADER_SIZE);
    assert(ImageHeaderModel::at(s, o) =~= ImageHeaderModel::at(w, 0)) by {
        assert(s.subrange(o + 8, o + 40) =~= w.subrange(8, 40));
        assert(s.subrange(o + 84, o + 512) =~= w.subrange(84, 512));
    }
}

/// Setting the list-end field of a header's bytes gives the header with that field set.
proof fn lemma_header_list_end_patched(w: Seq<u8>, v: u32)
    requires
        w.len() == IMAGE_HEADER_SIZE,
    ensures
        ImageHeaderModel::at(w.subrange(0, 64) + u32_le_bytes(v) + w.subrange(68, 512), 0)
            == (ImageHeaderModel { img_list_end: v, ..ImageHeaderModel::at(w, 0) }),
{
    let w2 = w.subrange(0, 64) + u32_le_bytes(v) + w.subrange(68, 512);
    lemma_u32_roundtrip(v);
    assert(le_u32_at(w2, 64) == le_u32_at(u32_le_bytes(v), 0));
    assert forall|k: int| 0 <= k < 512 && !(64 <= k < 68) implies w2[k] == w[k] by {}
    assert(ImageHeaderModel::at(w2, 0) =~= ImageHeaderModel { img_list_end: v, ..ImageHeaderModel::at(w, 0) }) by {
        assert(w2.subrange(8, 40) =~= w.subrange(8, 40));
        assert(w2.subrange(84, 512) =~= w.subrange(84, 512));
    }
}

/// Each partition of a walk is the one stored where it starts: its header is read there and its
/// content follows the header, as long as the header states.
proof fn lemma_parts_from_shape(data: Seq<u8>, o: int)
    ensures
        forall|i: int|
            0 <= i < parts_from(data, o).len() ==> {
                let p = #[trigger] parts_from(data, o)[i];
                &&& p.header == ImageHeaderModel::at(data, p.start)
                &&& p.end == p.start + p.header.hdr_size + p.header.spec_data_size()
                &&& p.content == data.subrange(p.start + p.header.hdr_size, p.end)
            },
    decreases data.len() - o,
{
    if o < 0 || o + IMAGE_HEADER_SIZE > data.len() {
    } else {
        let h = ImageHeaderModel::at(data, o);
        let data_end = o + h.hdr_size + h.spec_data_size();
        if data_end <= data.len() {
            let next = next_offset(data_end as usize, h.align_size) as int;
            if o < next < data.len() {
                lemma_parts_from_shape(data, next);
                assert forall|i: int| 0 < i < parts_from(data, o).len() implies parts_from(data, o)[i]
                    == parts_from(data, next)[i - 1] by {}
            }
        }
    }
}

/// Data that keeps the bytes of a partition gives the same partition there.
proof fn lemma_same_partition_at(d: Seq<u8>, d2: Seq<u8>, o: int)
    requires
        0 <= o,
        o + IMAGE_HEADER_SIZE <= d.len(),
        ({
            let h = ImageHeaderModel::at(d, o);
            let end = o + h.hdr_size + h.spec_data_size();
            &&& h.hdr_size >= IMAGE_HEADER_SIZE
            &&& end <= d.len()
            &&& end <= d2.len()
            &&& forall|k: int| o <= k < end ==> d2[k] == d[k]
        }),
    ensures
        ImageHeaderModel::at(d2, o) == ImageHeaderModel::at(d, o),
        ({
            let h = ImageHeaderModel::at(d, o);
            let end = o + h.hdr_size + h.spec_data_size();
            d2.subrange(o + h.hdr_size, end) == d.subrange(o + h.hdr_size, end)
        }),
{
    let h = ImageHeaderModel::at(d, o);
    let end = o + h.hdr_size + h.spec_data_size();
    lemma_header_at_window(d, o);
    lemma_header_at_window(d2, o);
    assert(d2.subrange(o, o + IMAGE_HEADER_SIZE) =~= d.subrange(o, o + IMAGE_HEADER_SIZE));
    assert(d2.subrange(o + h.hdr_size, end) =~= d.subrange(o + h.hdr_size, end));
}

/// Data that keeps the bytes of a partition but for a list-end field set to 0 gives the same
/// partition there, no longer marked as the last.
proof fn lemma_patched_partition_at(d: Seq<u8>, d2: Seq<u8>, o: int)
    requires
        0 <= o,
        o + IMAGE_HEADER_SIZE <= d.len(),
        ({
            let h = ImageHeaderModel::at(d, o);
            let end = o + h.hdr_size + h.spec_data_size();
            &&& h.hdr_size >= IMAGE_HEADER_SIZE
            &&& end <= d.len()
            &&& end <= d2.len()
            &&& forall|k: int| o <= k < end && !(o + 64 <= k < o + 68) ==> d2[k] == d[k]
            &&& d2.subrange(o + 64, o + 68) == u32_le_bytes(0)
        }),
    ensures
        ImageHeaderModel::at(d2, o) == (ImageHeaderModel { img_list_end: 0, ..ImageHeaderModel::at(d, o) }),
        ({
            let h = ImageHeaderModel::at(d, o);
            let end = o + h.hdr_size + h.spec_data_size();
            d2.subrange(o + h.hdr_size, end) == d.subrange(o + h.hdr_size, end)
        }),
{
    let h = ImageHeaderModel::at(d, o);
    let end = o + h.hdr_size + h.spec_data_size();
    let w = d.subrange(o, o + IMAGE_HEADER_SIZE);
    lemma_header_at_window(d, o);
    lemma_header_at_window(d2, o);
    assert(d2.subrange(o, o + IMAGE_HEADER_SIZE) =~= w.subrange(0, 64) + u32_le_bytes(0) + w.subrange(68, 512)) by {
        assert forall|k: int| 64 <= k < 68 implies #[trigger] d2.subrange(o, o + IMAGE_HEADER_SIZE)[k] == u32_le_bytes(0)[k - 64] by {
            assert(d2.subrange(o + 64, o + 68)[k - 64] == d2[o + k]);
        }
    }
    lemma_header_list_end_patched(w, 0);
    assert(d2.subrange(o + h.hdr_size, end) =~= d.subrange(o + h.hdr_size, end));
}

/// Walking data that keeps the bytes of every partition of a walk, with the list-end field of
/// the last one set to 0 and a new partition where the last one's next offset points, gives
/// the same partitions, the last one no longer marked as last, then the new one.
#[verifier::rlimit(40)]
proof fn lemma_walk_with_appended(
    d: Seq<u8>,
    d2: Seq<u8>,
    o: int,
    off: int,
    newp: ImagePartitionModel,
)
    requires
        parts_from(d, o).len() > 0,
        laid_out(parts_from(d, o)),
        ({
            let l = parts_from(d, o).last();
            &&& off == next_offset(l.end as usize, l.header.align_size) as int
            &&& l.end <= off < d2.len()
            &&& l.start + 68 <= l.end
            &&& forall|k: int| 0 <= k < l.end && !(l.start + 64 <= k < l.start + 68) ==> d2[k] == d[k]
            &&& d2.subrange(l.start + 64, l.start + 68) == u32_le_bytes(0)
        }),
        parts_from(d2, off) == seq![newp],
    ensures
        parts_from(d2, o) == unmark_last(parts_from(d, o)) + seq![newp],
    decreases d.len() - o,
{
    let q = parts_from(d, o);
    let l = q.last();
    lemma_parts_from_bounds(d, o);
    lemma_parts_from_shape(d, o);
    let h = ImageHeaderModel::at(d, o);
    let data_start = o + h.hdr_size;
    let data_end = data_start + h.spec_data_size();
    let next = next_offset(data_end as usize, h.align_size) as int;
    assert(q[0].start == o && q[0].header == h && q[0].end == data_end);
    assert(h.hdr_size >= IMAGE_HEADER_SIZE);
    if q.len() > 1 {
        assert(q[0].end <= q[1].start);
        assert(q[1].start <= l.start);
        assert(o < next < d.len());
        assert(parts_from(d, next) == q.drop_first());
        lemma_same_partition_at(d, d2, o);
        assert(laid_out(q.drop_first())) by {
            assert forall|i: int| 0 <= i < q.drop_first().len() implies (#[trigger] q.drop_first()[i]).header.hdr_size >= IMAGE_HEADER_SIZE by {
                assert(q.drop_first()[i] == q[i + 1]);
            }
            assert forall|i: int, j: int| 0 <= i < j < q.drop_first().len() implies #[trigger] q.drop_first()[i].end <= #[trigger] q.drop_first()[j].start by {
                assert(q.drop_first()[i] == q[i + 1]);
                assert(q.drop_first()[j] == q[j + 1]);
            }
        }
        assert(q.drop_first().last() == l);
        lemma_walk_with_appended(d, d2, next, off, newp);
        assert(unmark_last(q) =~= seq![q[0]] + unmark_last(q.drop_first()));
        assert(parts_from(d2, o) =~= unmark_last(q) + seq![newp]);
    } else {
        assert(l == q[0]);
        lemma_patched_partition_at(d, d2, o);
        assert(parts_from(d2, o) =~= unmark_last(q) + seq![newp]);
    }
}


/// A header written at `pre.len()` followed by the content it announces is a partition on its
/// own: the walk from there finds it and stops, since its next offset is not before its end.
proof fn lemma_new_partition_walk(pre: Seq<u8>, h: ImageHeaderModel, content: Seq<u8>)
    requires
        h.name.len() == 32,
        h.reserved.len() == 428,
        h.hdr_size == IMAGE_HEADER_SIZE,
        h.spec_data_size() == content.len(),
        h.align_size == 16,
        pre.len() + IMAGE_HEADER_SIZE + content.len() + 15 <= usize::MAX,
    ensures
        parts_from(pre + h.spec_bytes() + content, pre.len() as int) == seq![
            ImagePartitionModel {
                header: h,
                start: pre.len() as int,
                end: pre.len() + IMAGE_HEADER_SIZE + content.len(),
                content,
            },
        ],
{
    let d = pre + h.spec_bytes() + content;
    lemma_image_header_read_after_write(h, pre, content);
    let end = pre.len() + IMAGE_HEADER_SIZE + content.len();
    assert(d.len() == end);
    assert(d.subrange(pre.len() + IMAGE_HEADER_SIZE, end) =~= content);
    lemma_next_offset_16(end as usize);
}

/// The bytes after appending a header and content to data cut or padded at `off`, with the
/// list-end field of the header at `ls` set to 0: the data before `le` is kept but for that
/// field, and from `off` on come the header and the content.
proof fn lemma_appended_bytes(data: Seq<u8>, hb: Seq<u8>, content: Seq<u8>, ls: int, le: int, off: int)
    requires
        0 <= ls,
        ls + IMAGE_HEADER_SIZE <= le,
        le <= data.len(),
        le <= off,
    ensures
        ({
            let d2 = set_list_end(fit_to(data, off) + hb + content, ls, 0);
            &&& d2 == d2.subrange(0, off) + hb + content
            &&& forall|k: int| 0 <= k < le && !(ls + 64 <= k < ls + 68) ==> d2[k] == data[k]
            &&& d2.subrange(ls + 64, ls + 68) == u32_le_bytes(0)
        }),
{
    let fitted = fit_to(data, off);
    let d1 = fitted + hb + content;
    let d2 = set_list_end(d1, ls, 0);
    assert(fitted.len() == off);
    assert(d2 == d1.subrange(0, ls + 64) + u32_le_bytes(0) + d1.subrange(ls + 68, d1.len() as int));
    assert(d2 =~= d2.subrange(0, off) + hb + content);
    assert forall|k: int| 0 <= k < le && !(ls + 64 <= k < ls + 68) implies d2[k] == data[k] by {
        assert(d2[k] == d1[k]);
        assert(d1[k] == fitted[k]);
    }
    assert(d2.subrange(ls + 64, ls + 68) =~= u32_le_bytes(0));
}

/// The last partition of a walk from the start lies within the data, its header a full
/// header long when the partitions are laid out.
proof fn lemma_last_part(data: Seq<u8>)
    requires
        spec_parts(data).len() > 0,
        laid_out(spec_parts(data)),
    ensures
        0 <= spec_parts(data).last().start,
        spec_parts(data).last().start + IMAGE_HEADER_SIZE <= spec_parts(data).last().end,
        spec_parts(data).last().end <= data.len(),
{
    let parts = spec_parts(data);
    lemma_parts_from_bounds(data, 0);
    lemma_parts_from_shape(data, 0);
    assert(parts.last() == parts[parts.len() - 1]);
}

/// The appending step of [`lemma_add_then_parts`] for an image that has partitions.
proof fn lemma_append_after_last(
    data: Seq<u8>,
    h: ImageHeaderModel,
    content: Seq<u8>,
    off: int,
    d2: Seq<u8>,
    newp: ImagePartitionModel,
)
    requires
        spec_parts(data).len() > 0,
        laid_out(spec_parts(data)),
        off == append_offset(data),
        off >= spec_parts(data).last().end,
        h.name.len() == 32,
        h.reserved.len() == 428,
        h.hdr_size == IMAGE_HEADER_SIZE,
        h.spec_data_size() == content.len(),
        h.align_size == 16,
        off + IMAGE_HEADER_SIZE + content.len() + 15 <= usize::MAX,
        d2 == set_list_end(fit_to(data, off) + h.spec_bytes() + content, spec_parts(data).last().start, 0),
        newp == (ImagePartitionModel {
            header: h,
            start: off,
            end: off + IMAGE_HEADER_SIZE + content.len(),
            content,
        }),
    ensures
        spec_parts(d2) == unmark_last(spec_parts(data)) + seq![newp],
{
    let l = spec_parts(data).last();
    let hb = h.spec_bytes();
    let pre = d2.subrange(0, off);
    lemma_last_part(data);
    assert(off == next_offset(l.end as usize, l.header.align_size) as int);
    assert(d2 == pre + hb + content && pre.len() == off && d2.len() == off + IMAGE_HEADER_SIZE
        + content.len()) by {
        lemma_appended_bytes(data, hb, content, l.start, l.end, off);
        lemma_image_header_read_after_write(h, pre, content);
    }
    assert(parts_from(d2, off) == seq![newp]) by {
        lemma_new_partition_walk(pre, h, content);
    }
    assert({
        &&& forall|k: int| 0 <= k < l.end && !(l.start + 64 <= k < l.start + 68) ==> d2[k] == data[k]
        &&& d2.subrange(l.start + 64, l.start + 68) == u32_le_bytes(0)
    }) by {
        lemma_appended_bytes(data, hb, content, l.start, l.end, off);
    }
    lemma_walk_with_appended(data, d2, 0, off, newp);
}

/// Adding a partition to an image whose partitions lie one after another, when the new one
/// goes at or after the end of the last one, gives back the same partitions (the former last
/// one no longer marked as the last of the list) followed by the new partition, with the name,
/// type and content it was added with.
pub proof fn lemma_add_then_parts(data: Seq<u8>, name: Seq<u8>, content: Seq<u8>, kind: ImageKind)
    requires
        spec_add(data, name, content, kind) is Ok,
        laid_out(spec_parts(data)),
        spec_parts(data).len() > 0 ==> append_offset(data) >= spec_parts(data).last().end,
        content.len() < 0xffff_ffff_0000_0000,
        append_offset(data) + IMAGE_HEADER_SIZE + content.len() + 15 <= usize::MAX,
    ensures
        spec_parts(spec_add(data, name, content, kind)->Ok_0) == unmark_last(spec_parts(data))
            + seq![
            ImagePartitionModel {
                header: ImageHeaderModel::spec_new(
                    name,
                    content.len() as u64,
                    ImageType { value: kind_value(kind) },
                ),
                start: append_offset(data),
                end: append_offset(data) + IMAGE_HEADER_SIZE + content.len(),
                content,
            },
        ],
{
    let parts = spec_parts(data);
    let off = append_offset(data);
    let len = content.len() as u64;
    let t = ImageType { value: kind_value(kind) };
    let h = ImageHeaderModel::spec_new(name, len, t);
    let newp = ImagePartitionModel {
        header: h,
        start: off,
        end: off + IMAGE_HEADER_SIZE + content.len(),
        content,
    };
    assert((len >> 32u64) != 0xffff_ffffu64) by (bit_vector)
        requires
            len < 0xffff_ffff_0000_0000u64,
    ;
    lemma_new_header_data_size(name, len, t);
    let d2 = spec_add(data, name, content, kind)->Ok_0;
    if parts.len() == 0 {
        assert(fit_to(data, 0) =~= Seq::<u8>::empty());
        lemma_new_partition_walk(fit_to(data, 0), h, content);
        assert(unmark_last(parts) + seq![newp] =~= seq![newp]);
    } else {
        lemma_append_after_last(data, h, content, off, d2, newp);
    }
}

/// The leading certificates of a sequence are its longest prefix of certificate partitions.
proof fn lemma_leading_certs_run(t: Seq<ImagePartitionModel>)
    ensures
        leading_certs(t).len() <= t.len(),
        forall|i: int|
            0 <= i < leading_certs(t).len() ==> #[trigger] leading_certs(t)[i] == t[i]
                && t[i].header.img_type.spec_group() == Ok::<ImageGroup, Error>(ImageGroup::Cert),
        leading_certs(t).len() < t.len() ==> t[leading_certs(t).len() as int].header.img_type.spec_group()
            != Ok::<ImageGroup, Error>(ImageGroup::Cert),
    decreases t.len(),
{
    if t.len() > 0 && is_cert(t[0]) {
        lemma_leading_certs_run(t.drop_first());
        let l = leading_certs(t);
        assert forall|i: int| 0 <= i < l.len() implies #[trigger] l[i] == t[i]
            && t[i].header.img_type.spec_group() == Ok::<ImageGroup, Error>(ImageGroup::Cert) by {
            if i > 0 {
                assert(l[i] == leading_certs(t.drop_first())[i - 1]);
                assert(t.drop_first()[i - 1] == t[i]);
            }
        }
        if l.len() < t.len() {
            assert(t.drop_first()[leading_certs(t.drop_first()).len() as int] == t[l.len() as int]);
        }
    }
}

/// The first partition named `name` comes before every other of that name.
proof fn lemma_first_named_first(s: Seq<ImagePartitionModel>, name: Seq<char>)
    ensures
        first_named(s, name) matches Some(k) ==> forall|j: int| 0 <= j < k ==> #[trigger] s[j].header.name_text() != name,
    decreases s.len(),
{
    lemma_first_named_found(s, name);
    if s.len() > 0 && s[0].header.name_text() != name {
        lemma_first_named_first(s.drop_first(), name);
        if let Some(k) = first_named(s, name) {
            assert forall|j: int| 0 <= j < k implies #[trigger] s[j].header.name_text() != name by {
                if j > 0 {
                    assert(s[j] == s.drop_first()[j - 1]);
                }
            }
        }
    }
}

/// The certificates of the partition named `name` are the whole run of certificate partitions
/// right after the first partition of that name: the i-th of them is the partition i + 1 places
/// after it, of the certificate group, and the partition after the run is not a certificate or
/// there is none. Without a partition of that name there are none.
pub proof fn lemma_certs_of_run(s: Seq<ImagePartitionModel>, name: Seq<char>)
    ensures
        (forall|j: int| 0 <= j < s.len() ==> #[trigger] s[j].header.name_text() != name) ==> certs_of(
            s,
            name,
        ).len() == 0,
        forall|k: int|
            0 <= k < s.len() && #[trigger] s[k].header.name_text() == name && (forall|j: int|
                0 <= j < k ==> s[j].header.name_text() != name) ==> {
                let c = certs_of(s, name);
                &&& k + 1 + c.len() <= s.len()
                &&& forall|i: int|
                    0 <= i < c.len() ==> #[trigger] c[i] == s[k + 1 + i]
                        && s[k + 1 + i].header.img_type.spec_group() == Ok::<ImageGroup, Error>(ImageGroup::Cert)
                &&& k + 1 + c.len() < s.len() ==> s[k + 1 + c.len()].header.img_type.spec_group()
                    != Ok::<ImageGroup, Error>(ImageGroup::Cert)
            },
{
    lemma_first_named_found(s, name);
    lemma_first_named_first(s, name);
    if let Some(k) = first_named(s, name) {
        let t = s.skip(k + 1);
        lemma_leading_certs_run(t);
        assert forall|k2: int|
            0 <= k2 < s.len() && #[trigger] s[k2].header.name_text() == name && (forall|j: int|
                0 <= j < k2 ==> s[j].header.name_text() != name) implies {
                let c = certs_of(s, name);
                &&& k2 + 1 + c.len() <= s.len()
                &&& forall|i: int|
                    0 <= i < c.len() ==> #[trigger] c[i] == s[k2 + 1 + i]
                        && s[k2 + 1 + i].header.img_type.spec_group() == Ok::<ImageGroup, Error>(ImageGroup::Cert)
                &&& k2 + 1 + c.len() < s.len() ==> s[k2 + 1 + c.len()].header.img_type.spec_group()
                    != Ok::<ImageGroup, Error>(ImageGroup::Cert)
            } by {
            if k2 < k {
            } else if k2 > k {
                assert(s[k].header.name_text() == name);
            }
            let c = certs_of(s, name);
            assert forall|i: int| 0 <= i < c.len() implies #[trigger] c[i] == s[k + 1 + i]
                && s[k + 1 + i].header.img_type.spec_group() == Ok::<ImageGroup, Error>(ImageGroup::Cert) by {
                assert(t[i] == s[k + 1 + i]);
            }
            if k + 1 + c.len() < s.len() {
                assert(t[c.len() as int] == s[k + 1 + c.len()]);
            }
        }
    }
}

} // verus!
