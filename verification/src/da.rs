//! Download agent (DA) files: a header followed by one entry per supported chip, each entry
//! listing the regions of the file that are loaded into the device.
use vstd::prelude::*;

use crate::bytes::{first_occurrence, le_u16_at, le_u32_at, opt_bytes, read_array, read_u16, read_u32, to_vec};
use crate::search::memmem_find;
use crate::error::{Error, Result};
use crate::text::{field_text, str_eq, text_of};
use crate::traits::{view_result, TryRead};

verus! {

/// The most regions an entry can describe.
pub const MAX_REGIONS: usize = 10;

/// The layout version of a DA file, stored in its header.
#[derive(Debug, Clone, Copy, PartialEq, Eq, Structural)]
pub enum DaHeaderVersion {
    Unknown,
    V3,
    V4,
}

impl DaHeaderVersion {
    /// The code stored on disk for this version.
    pub open spec fn spec_code(self) -> u32 {
        match self {
            DaHeaderVersion::Unknown => 0,
            DaHeaderVersion::V3 => 3,
            DaHeaderVersion::V4 => 4,
        }
    }

    /// The version stored on disk as `v`, if `v` names one.
    pub open spec fn spec_from_code(v: u32) -> Option<DaHeaderVersion> {
        if v == 0 {
            Some(DaHeaderVersion::Unknown)
        } else if v == 3 {
            Some(DaHeaderVersion::V3)
        } else if v == 4 {
            Some(DaHeaderVersion::V4)
        } else {
            None
        }
    }

    pub fn code(self) -> (r: u32)
        ensures
            r == self.spec_code(),
    {
        match self {
            DaHeaderVersion::Unknown => 0,
            DaHeaderVersion::V3 => 3,
            DaHeaderVersion::V4 => 4,
        }
    }

    pub fn from_code(v: u32) -> (r: Option<DaHeaderVersion>)
        ensures
            r == Self::spec_from_code(v),
    {
        if v == 0 {
            Some(DaHeaderVersion::Unknown)
        } else if v == 3 {
            Some(DaHeaderVersion::V3)
        } else if v == 4 {
            Some(DaHeaderVersion::V4)
        } else {
            None
        }
    }
}

/// The protocol generation of a DA, as told by its first stage.
#[derive(Debug, Clone, Copy, PartialEq, Eq, Structural)]
pub enum DaVersion {
    V3,
    V5,
    V6,
}

#[derive(Debug, PartialEq, Eq, Structural)]
pub enum DaError {
    TooShort,
    InvalidSignature,
    /// The expected magic, then the one found.
    InvalidMagic(u32, u32),
    /// The number of regions found.
    RegionCountTooSmall(usize),
    /// The most regions allowed, then the number found.
    RegionCountTooLarge(usize, usize),
    /// The region's offset, length and content length.
    InvalidRegion(usize, usize, usize),
    /// The region's offset and length, then the length of the data.
    RegionDataOutOfBounds(usize, usize, usize),
}

/// What a region holds, as plain values.
pub struct DaRegionModel {
    pub offset: u32,
    pub length: u32,
    pub addr: u32,
    pub region_length: u32,
    pub sig_len: u32,
}

/// A part of the DA file that is loaded into the device: where it is in the file, how long it
/// is, where it goes in memory and how much of its end is a signature.
#[derive(Debug, Clone, Copy)]
pub struct DaRegion {
    /// Offset within the file itself, where the region starts
    offset: u32,
    /// Length of the region
    length: u32,
    /// Address in which the region will be loaded in the device
    addr: u32,
    /// Same as length, minus the signature
    region_length: u32,
    /// Length of the signature, if any
    sig_len: u32,
}

impl View for DaRegion {
    type V = DaRegionModel;

    closed spec fn view(&self) -> DaRegionModel {
        DaRegionModel {
            offset: self.offset,
            length: self.length,
            addr: self.addr,
            region_length: self.region_length,
            sig_len: self.sig_len,
        }
    }
}

impl DaRegionModel {
    /// The region as stored at `s[off..off + 20]`.
    pub open spec fn at(s: Seq<u8>, off: int) -> DaRegionModel {
        DaRegionModel {
            offset: le_u32_at(s, off),
            length: le_u32_at(s, off + 4),
            addr: le_u32_at(s, off + 8),
            region_length: le_u32_at(s, off + 12),
            sig_len: le_u32_at(s, off + 16),
        }
    }

    /// A region is valid when it has no length (some DAs hold such regions), or else when its
    /// content length is not zero.
    pub open spec fn spec_is_valid(self) -> bool {
        self.length == 0 || self.region_length > 0
    }

    /// The length of the region without its signature.
    pub open spec fn content_len(self) -> int {
        self.length - self.sig_len
    }
}

impl Default for DaRegion {
    fn default() -> (r: Self)
        ensures
            r@ == (DaRegionModel { offset: 0, length: 0, addr: 0, region_length: 0, sig_len: 0 }),
    {
        DaRegion { offset: 0, length: 0, addr: 0, region_length: 0, sig_len: 0 }
    }
}

impl DaRegion {
    pub const SIZE: usize = 20;

    /// A region whose content length is its length minus the signature length.
    pub fn new(offset: u32, length: u32, addr: u32, sig_len: u32) -> (r: Self)
        requires
            sig_len <= length,
        ensures
            r@ == (DaRegionModel {
                offset,
                length,
                addr,
                region_length: (length - sig_len) as u32,
                sig_len,
            }),
    {
        Self { offset, length, addr, region_length: length - sig_len, sig_len }
    }

    pub fn offset(&self) -> (r: usize)
        ensures
            r == self@.offset,
    {
        self.offset as usize
    }

    pub fn length(&self) -> (r: usize)
        ensures
            r == self@.length,
    {
        self.length as usize
    }

    pub fn addr(&self) -> (r: u32)
        ensures
            r == self@.addr,
    {
        self.addr
    }

    /// The length of the region without its signature, computed from the length and the
    /// signature length.
    pub fn region_length(&self) -> (r: usize)
        requires
            self@.sig_len <= self@.length,
        ensures
            r == self@.content_len(),
    {
        self.length() - self.sig_len()
    }

    pub fn sig_len(&self) -> (r: usize)
        ensures
            r == self@.sig_len,
    {
        self.sig_len as usize
    }

    /// Where the content of the region ends in the file (and its signature starts).
    pub fn end_offset(&self) -> (r: usize)
        requires
            self@.sig_len <= self@.length,
            self@.offset + self@.content_len() <= usize::MAX,
        ensures
            r == self@.offset + self@.content_len(),
    {
        self.offset() + self.region_length()
    }

    pub fn has_signature(&self) -> (r: bool)
        ensures
            r == (self@.sig_len > 0),
    {
        self.sig_len > 0
    }

    /// Some DAs hold regions of zero length, so those are accepted, and the content length
    /// is checked only on regions whose length is not zero.
    pub fn is_valid(&self) -> (r: bool)
        ensures
            r == self@.spec_is_valid(),
    {
        self.length == 0 || self.region_length > 0
    }
}

/// Reads the region stored at `data[off..off + 20]`.
fn read_region(data: &[u8], off: usize) -> (r: DaRegion)
    requires
        off + 20 <= data.len(),
    ensures
        r@ == DaRegionModel::at(data@, off as int),
{
    DaRegion {
        offset: read_u32(data, off),
        length: read_u32(data, off + 4),
        addr: read_u32(data, off + 8),
        region_length: read_u32(data, off + 12),
        sig_len: read_u32(data, off + 16),
    }
}

/// The views of a sequence of regions.
pub open spec fn region_views(rs: Seq<DaRegion>) -> Seq<DaRegionModel> {
    rs.map_values(|r: DaRegion| r@)
}

/// The ten regions stored one after another from `off`.
pub open spec fn regions_at(s: Seq<u8>, off: int) -> Seq<DaRegionModel> {
    Seq::new(MAX_REGIONS as nat, |i: int| DaRegionModel::at(s, off + 20 * i))
}

/// Reads the ten regions stored one after another from `off`.
fn read_regions(data: &[u8], off: usize) -> (r: [DaRegion; MAX_REGIONS])
    requires
        off + 200 <= data.len(),
    ensures
        region_views(r@) == regions_at(data@, off as int),
{
    let first = read_region(data, off);
    let mut a: [DaRegion; MAX_REGIONS] = [first, first, first, first, first, first, first, first, first, first];
    let mut i: usize = 1;
    while i < MAX_REGIONS
        invariant
            off + 200 <= data.len(),
            1 <= i <= MAX_REGIONS,
            a@.len() == MAX_REGIONS,
            forall|j: int| 0 <= j < i ==> (#[trigger] a@[j])@ == DaRegionModel::at(data@, off + 20 * j),
        decreases MAX_REGIONS - i,
    {
        a[i] = read_region(data, off + 20 * i);
        i = i + 1;
    }
    assert(region_views(a@) =~= regions_at(data@, off as int));
    a
}

} // verus!

verus! {

/// Size of a version 3 entry header on disk.
pub const DA_ENTRY_HEADER_V3_SIZE: usize = 216;

/// Size of a version 4 entry header on disk.
pub const DA_ENTRY_HEADER_V4_SIZE: usize = 220;

/// What an entry header holds, as plain values. Version 3 headers have no feature set.
#[verifier::ext_equal]
pub struct DaEntryHeaderModel {
    pub magic: u16,
    pub hw_code: u16,
    pub hw_sub_code: u16,
    pub hw_ver: u16,
    pub sw_ver: u16,
    pub reserved: u16,
    pub feature_set: Option<u32>,
    pub entry_index: u16,
    pub region_count: u16,
    pub regions: Seq<DaRegionModel>,
}

impl DaEntryHeaderModel {
    /// The header stored at `off`, in the layout of version 4 when `v4` holds and of version 3
    /// otherwise.
    pub open spec fn at(s: Seq<u8>, off: int, v4: bool) -> DaEntryHeaderModel {
        let base = if v4 { off + 16 } else { off + 12 };
        DaEntryHeaderModel {
            magic: le_u16_at(s, off),
            hw_code: le_u16_at(s, off + 2),
            hw_sub_code: le_u16_at(s, off + 4),
            hw_ver: le_u16_at(s, off + 6),
            sw_ver: le_u16_at(s, off + 8),
            reserved: le_u16_at(s, off + 10),
            feature_set: if v4 { Some(le_u32_at(s, off + 12)) } else { None },
            entry_index: le_u16_at(s, base),
            region_count: le_u16_at(s, base + 2),
            regions: regions_at(s, base + 4),
        }
    }
}

/// The header of an entry in the version 4 layout.
#[derive(Clone, Copy)]
pub struct DaEntryHeaderV4 {
    magic: u16,
    hw_code: u16,
    hw_sub_code: u16,
    hw_ver: u16,
    sw_ver: u16,
    _reserved: u16,
    feature_set: u32,
    entry_index: u16,
    region_count: u16,
    regions: [DaRegion; MAX_REGIONS],
}

/// The header of an entry in the version 3 layout.
#[derive(Clone, Copy)]
pub struct DaEntryHeaderV3 {
    magic: u16,
    hw_code: u16,
    hw_sub_code: u16,
    hw_ver: u16,
    sw_ver: u16,
    _reserved: u16,
    entry_index: u16,
    region_count: u16,
    regions: [DaRegion; MAX_REGIONS],
}

impl View for DaEntryHeaderV4 {
    type V = DaEntryHeaderModel;

    closed spec fn view(&self) -> DaEntryHeaderModel {
        DaEntryHeaderModel {
            magic: self.magic,
            hw_code: self.hw_code,
            hw_sub_code: self.hw_sub_code,
            hw_ver: self.hw_ver,
            sw_ver: self.sw_ver,
            reserved: self._reserved,
            feature_set: Some(self.feature_set),
            entry_index: self.entry_index,
            region_count: self.region_count,
            regions: region_views(self.regions@),
        }
    }
}

impl View for DaEntryHeaderV3 {
    type V = DaEntryHeaderModel;

    closed spec fn view(&self) -> DaEntryHeaderModel {
        DaEntryHeaderModel {
            magic: self.magic,
            hw_code: self.hw_code,
            hw_sub_code: self.hw_sub_code,
            hw_ver: self.hw_ver,
            sw_ver: self.sw_ver,
            reserved: self._reserved,
            feature_set: None,
            entry_index: self.entry_index,
            region_count: self.region_count,
            regions: region_views(self.regions@),
        }
    }
}

/// An entry header in either layout.
pub enum DaEntryHeader {
    V3(DaEntryHeaderV3),
    V4(DaEntryHeaderV4),
}

impl View for DaEntryHeader {
    type V = DaEntryHeaderModel;

    open spec fn view(&self) -> DaEntryHeaderModel {
        match self {
            DaEntryHeader::V3(h) => h@,
            DaEntryHeader::V4(h) => h@,
        }
    }
}

/// Reads a version 3 entry header at `off`.
fn read_entry_header_v3(data: &[u8], off: usize) -> (r: DaEntryHeaderV3)
    requires
        off + DA_ENTRY_HEADER_V3_SIZE <= data.len(),
    ensures
        r@ == DaEntryHeaderModel::at(data@, off as int, false),
{
    let regions = read_regions(data, off + 16);
    let r = DaEntryHeaderV3 {
        magic: read_u16(data, off),
        hw_code: read_u16(data, off + 2),
        hw_sub_code: read_u16(data, off + 4),
        hw_ver: read_u16(data, off + 6),
        sw_ver: read_u16(data, off + 8),
        _reserved: read_u16(data, off + 10),
        entry_index: read_u16(data, off + 12),
        region_count: read_u16(data, off + 14),
        regions,
    };
    assert(r@ =~= DaEntryHeaderModel::at(data@, off as int, false));
    r
}

/// Reads a version 4 entry header at `off`.
fn read_entry_header_v4(data: &[u8], off: usize) -> (r: DaEntryHeaderV4)
    requires
        off + DA_ENTRY_HEADER_V4_SIZE <= data.len(),
    ensures
        r@ == DaEntryHeaderModel::at(data@, off as int, true),
{
    let regions = read_regions(data, off + 20);
    let r = DaEntryHeaderV4 {
        magic: read_u16(data, off),
        hw_code: read_u16(data, off + 2),
        hw_sub_code: read_u16(data, off + 4),
        hw_ver: read_u16(data, off + 6),
        sw_ver: read_u16(data, off + 8),
        _reserved: read_u16(data, off + 10),
        feature_set: read_u32(data, off + 12),
        entry_index: read_u16(data, off + 16),
        region_count: read_u16(data, off + 18),
        regions,
    };
    assert(r@ =~= DaEntryHeaderModel::at(data@, off as int, true));
    r
}

} // verus!

verus! {

/// A string that only second-generation (V5) first stages print,
/// `"REVEIVING DEV CTRL CMD(0x%x)"`.
pub open spec fn v5_pattern() -> Seq<u8> {
    seq![
        0x52u8, 0x45u8, 0x56u8, 0x45u8, 0x49u8, 0x56u8, 0x49u8, 0x4eu8, 0x47u8, 0x20u8, 0x44u8,
        0x45u8, 0x56u8, 0x20u8, 0x43u8, 0x54u8, 0x52u8, 0x4cu8, 0x20u8, 0x43u8, 0x4du8, 0x44u8,
        0x28u8, 0x30u8, 0x78u8, 0x25u8, 0x78u8, 0x29u8,
    ]
}

/// The start of an XML document, `"<?xml version="`, which only V6 first stages hold.
pub open spec fn v6_pattern() -> Seq<u8> {
    seq![
        0x3cu8, 0x3fu8, 0x78u8, 0x6du8, 0x6cu8, 0x20u8, 0x76u8, 0x65u8, 0x72u8, 0x73u8, 0x69u8,
        0x6fu8, 0x6eu8, 0x3du8,
    ]
}

/// The protocol generation told by the bytes of a first stage: V5 when they hold the V5
/// string, else V6 when they hold the XML start, else V3.
pub open spec fn spec_da_version(da1: Seq<u8>) -> DaVersion {
    if first_occurrence(da1, v5_pattern()) is Some {
        DaVersion::V5
    } else if first_occurrence(da1, v6_pattern()) is Some {
        DaVersion::V6
    } else {
        DaVersion::V3
    }
}

/// An entry as plain values: the whole DA file it belongs to, the layout version and its
/// header.
#[verifier::ext_equal]
pub struct DaEntryModel {
    pub data: Seq<u8>,
    pub version: DaHeaderVersion,
    pub header: DaEntryHeaderModel,
}

impl DaEntryModel {
    pub open spec fn region_count(self) -> int {
        self.header.region_count as int
    }

    /// The regions that the entry uses: the first `region_count` of the header.
    pub open spec fn regions(self) -> Seq<DaRegionModel> {
        self.header.regions.take(self.region_count())
    }

    /// The entry lists both stages and no more regions than a header holds.
    pub open spec fn has_stages(self) -> bool {
        2 <= self.region_count() <= MAX_REGIONS
    }

    /// The region of the first stage: the first of two regions, else the second.
    pub open spec fn da1_index(self) -> int {
        if self.region_count() == 2 {
            0
        } else {
            1
        }
    }

    /// The region of the second stage: the second of two regions, else the third.
    pub open spec fn da2_index(self) -> int {
        if self.region_count() == 2 {
            1
        } else {
            2
        }
    }

    /// What is wrong with region `r`, if anything: it is not valid, or it reaches past the data.
    pub open spec fn region_error(self, r: DaRegionModel) -> Option<DaError> {
        if !r.spec_is_valid() {
            Some(
                DaError::InvalidRegion(
                    r.offset as usize,
                    r.length as usize,
                    (r.length as usize).wrapping_sub(r.sig_len as usize),
                ),
            )
        } else if r.offset + r.length > self.data.len() {
            Some(
                DaError::RegionDataOutOfBounds(
                    r.offset as usize,
                    r.length as usize,
                    self.data.len() as usize,
                ),
            )
        } else {
            None
        }
    }

    /// The error of the first region at or after `i` that has one.
    pub open spec fn first_region_error(self, i: int) -> Option<DaError>
        decreases self.region_count() - i,
    {
        if i < 0 || i >= self.region_count() {
            None
        } else {
            match self.region_error(self.header.regions[i]) {
                Some(e) => Some(e),
                None => self.first_region_error(i + 1),
            }
        }
    }

    /// What validating the entry gives: too few or too many regions, else the error of the first
    /// region that has one.
    pub open spec fn validation(self) -> core::result::Result<(), Error> {
        if self.region_count() < 2 {
            Err(Error::Da(DaError::RegionCountTooSmall(self.region_count() as usize)))
        } else if self.region_count() > MAX_REGIONS {
            Err(Error::Da(DaError::RegionCountTooLarge(MAX_REGIONS, self.region_count() as usize)))
        } else {
            match self.first_region_error(0) {
                Some(e) => Err(Error::Da(e)),
                None => Ok(()),
            }
        }
    }

    /// The bytes of region `i`, signature included, when it is used and lies within the data.
    pub open spec fn region_data(self, i: int) -> Option<Seq<u8>> {
        if 0 <= i < self.region_count() {
            let r = self.header.regions[i];
            if r.offset + r.length <= self.data.len() {
                Some(self.data.subrange(r.offset as int, r.offset + r.length))
            } else {
                None
            }
        } else {
            None
        }
    }

    /// The bytes of region `i` without its signature, when it is used, its signature is no
    /// longer than it and its content lies within the data.
    pub open spec fn region_content(self, i: int) -> Option<Seq<u8>> {
        if 0 <= i < self.region_count() {
            let r = self.header.regions[i];
            if r.sig_len <= r.length && r.offset + r.content_len() <= self.data.len() {
                Some(self.data.subrange(r.offset as int, r.offset + r.content_len()))
            } else {
                None
            }
        } else {
            None
        }
    }

    /// The signature of region `i`: the last `sig_len` bytes of the region, when it is used, its
    /// signature is no longer than it and it lies within the data.
    pub open spec fn region_sig(self, i: int) -> Option<Seq<u8>> {
        if 0 <= i < self.region_count() {
            let r = self.header.regions[i];
            if r.sig_len <= r.length && r.offset + r.length <= self.data.len() {
                Some(self.data.subrange(r.offset + r.content_len(), r.offset + r.length))
            } else {
                None
            }
        } else {
            None
        }
    }

    /// The entry with the bytes of region `i` replaced by `bytes`.
    pub open spec fn with_region_bytes(self, i: int, bytes: Seq<u8>) -> DaEntryModel {
        let r = self.header.regions[i];
        DaEntryModel {
            data: self.data.subrange(0, r.offset as int) + bytes + self.data.subrange(
                r.offset + r.length,
                self.data.len() as int,
            ),
            version: self.version,
            header: self.header,
        }
    }

    /// The entry with the content of region `i` replaced by `bytes`.
    pub open spec fn with_content_bytes(self, i: int, bytes: Seq<u8>) -> DaEntryModel {
        let r = self.header.regions[i];
        DaEntryModel {
            data: self.data.subrange(0, r.offset as int) + bytes + self.data.subrange(
                r.offset + r.content_len(),
                self.data.len() as int,
            ),
            version: self.version,
            header: self.header,
        }
    }

    /// The entry with region `i` of its header replaced by `r`.
    pub open spec fn with_region(self, i: int, r: DaRegionModel) -> DaEntryModel {
        DaEntryModel {
            data: self.data,
            version: self.version,
            header: DaEntryHeaderModel { regions: self.header.regions.update(i, r), ..self.header },
        }
    }
}

/// One entry of a DA file: the chip it is for and the regions of the file that make up its
/// stages. It keeps the whole file, since region offsets are offsets in the file.
pub struct DaEntry {
    data: Vec<u8>,
    version: DaHeaderVersion,
    entry: DaEntryHeader,
}

impl View for DaEntry {
    type V = DaEntryModel;

    closed spec fn view(&self) -> DaEntryModel {
        DaEntryModel { data: self.data@, version: self.version, header: self.entry@ }
    }
}

impl DaEntry {
    pub const MIN_REGION_COUNT: usize = 2;
    /// `"REVEIVING DEV CTRL CMD(0x%x)"`.
    pub const V5_PATTERN: [u8; 28] = [
        0x52, 0x45, 0x56, 0x45, 0x49, 0x56, 0x49, 0x4e, 0x47, 0x20, 0x44, 0x45, 0x56, 0x20, 0x43,
        0x54, 0x52, 0x4c, 0x20, 0x43, 0x4d, 0x44, 0x28, 0x30, 0x78, 0x25, 0x78, 0x29,
    ];
    /// `"<?xml version="`.
    pub const V6_PATTERN: [u8; 14] = [
        0x3c, 0x3f, 0x78, 0x6d, 0x6c, 0x20, 0x76, 0x65, 0x72, 0x73, 0x69, 0x6f, 0x6e, 0x3d,
    ];

    /// The regions that the entry uses.
    pub fn regions(&self) -> (r: &[DaRegion])
        requires
            self@.region_count() <= MAX_REGIONS,
        ensures
            region_views(r@) == self@.regions(),
    {
        let (all, n) = match &self.entry {
            DaEntryHeader::V3(header) => (header.regions.as_slice(), header.region_count as usize),
            DaEntryHeader::V4(header) => (header.regions.as_slice(), header.region_count as usize),
        };
        let r = &all[0..n];
        assert(region_views(r@) =~= self@.regions());
        r
    }

    /// Region `index`, if the entry uses that many.
    pub fn get_region(&self, index: usize) -> (r: Option<&DaRegion>)
        requires
            index < self@.region_count() ==> self@.region_count() <= MAX_REGIONS,
        ensures
            index >= self@.region_count() ==> r is None,
            index < self@.region_count() ==> (r matches Some(x) && x@ == self@.header.regions[index as int]),
    {
        if index >= self.region_count() {
            return None;
        }
        let regions = self.regions();
        proof {
            self.lemma_regions_len();
            assert(region_views(regions@).len() == regions@.len());
            assert(region_views(regions@)[index as int] == regions@[index as int]@);
        }
        Some(&regions[index])
    }

    /// An entry's header always holds `MAX_REGIONS` regions.
    pub proof fn lemma_regions_len(&self)
        ensures
            self@.header.regions.len() == MAX_REGIONS,
    {
        match &self.entry {
            DaEntryHeader::V3(h) => assert(region_views(h.regions@).len() == MAX_REGIONS),
            DaEntryHeader::V4(h) => assert(region_views(h.regions@).len() == MAX_REGIONS),
        }
    }

    pub fn hw_code(&self) -> (r: u16)
        ensures
            r == self@.header.hw_code,
    {
        match &self.entry {
            DaEntryHeader::V3(header) => header.hw_code,
            DaEntryHeader::V4(header) => header.hw_code,
        }
    }

    pub fn hw_sub_code(&self) -> (r: u16)
        ensures
            r == self@.header.hw_sub_code,
    {
        match &self.entry {
            DaEntryHeader::V3(header) => header.hw_sub_code,
            DaEntryHeader::V4(header) => header.hw_sub_code,
        }
    }

    pub fn region_count(&self) -> (r: usize)
        ensures
            r == self@.region_count(),
    {
        match &self.entry {
            DaEntryHeader::V3(header) => header.region_count as usize,
            DaEntryHeader::V4(header) => header.region_count as usize,
        }
    }

    pub fn header_version(&self) -> (r: DaHeaderVersion)
        ensures
            r == self@.version,
    {
        self.version
    }

    /// The protocol generation of the DA, told by what its first stage holds (see
    /// [`spec_da_version`]).
    pub fn version(&self) -> (r: DaVersion)
        requires
            self@.has_stages(),
            self@.region_data(self@.da1_index()) is Some,
        ensures
            r == spec_da_version(self@.region_data(self@.da1_index())->0),
    {
        let data = self.da1_data();
        let v5 = Self::V5_PATTERN;
        let v6 = Self::V6_PATTERN;
        assert(v5@ =~= v5_pattern());
        assert(v6@ =~= v6_pattern());
        if memmem_find(data, v5.as_slice()).is_some() {
            DaVersion::V5
        } else if memmem_find(data, v6.as_slice()).is_some() {
            DaVersion::V6
        } else {
            DaVersion::V3
        }
    }

    /// Returns the data of the region, including the signature.
    pub fn get_region_data(&self, index: usize) -> (r: Option<&[u8]>)
        requires
            index < self@.region_count() ==> self@.region_count() <= MAX_REGIONS,
        ensures
            opt_bytes(r) == self@.region_data(index as int),
    {
        let region = match self.get_region(index) {
            Some(region) => region,
            None => return None,
        };
        let offset = region.offset();
        let length = region.length();
        if length > self.data.len() || offset > self.data.len() - length {
            return None;
        }
        Some(&self.data.as_slice()[offset..offset + length])
    }

    /// Returns the signature of the region, if any: the last `sig_len` bytes of the region.
    pub fn get_region_sig(&self, index: usize) -> (r: Option<&[u8]>)
        requires
            index < self@.region_count() ==> self@.region_count() <= MAX_REGIONS,
        ensures
            opt_bytes(r) == self@.region_sig(index as int),
    {
        let region = match self.get_region(index) {
            Some(region) => region,
            None => return None,
        };
        let offset = region.offset();
        let length = region.length();
        if region.sig_len() > length || length > self.data.len() || offset > self.data.len()
            - length {
            return None;
        }
        let end_off = region.end_offset();
        Some(&self.data.as_slice()[end_off..offset + length])
    }

    /// Returns the content of the region, excluding the signature.
    pub fn get_region_content(&self, index: usize) -> (r: Option<&[u8]>)
        requires
            index < self@.region_count() ==> self@.region_count() <= MAX_REGIONS,
        ensures
            opt_bytes(r) == self@.region_content(index as int),
    {
        let region = match self.get_region(index) {
            Some(region) => region,
            None => return None,
        };
        let offset = region.offset();
        if region.sig_len() > region.length() {
            return None;
        }
        let content_len = region.region_length();
        if content_len > self.data.len() || offset > self.data.len() - content_len {
            return None;
        }
        let end_off = region.end_offset();
        Some(&self.data.as_slice()[offset..end_off])
    }

    /// The region of the first stage.
    pub fn da1(&self) -> (r: &DaRegion)
        requires
            self@.has_stages(),
        ensures
            r@ == self@.header.regions[self@.da1_index()],
    {
        if self.region_count() == 2 {
            self.get_region(0).unwrap()
        } else {
            self.get_region(1).unwrap()
        }
    }

    /// The region of the second stage.
    pub fn da2(&self) -> (r: &DaRegion)
        requires
            self@.has_stages(),
        ensures
            r@ == self@.header.regions[self@.da2_index()],
    {
        if self.region_count() == 2 {
            self.get_region(1).unwrap()
        } else {
            self.get_region(2).unwrap()
        }
    }

    /// The bytes of the first stage, signature included.
    pub fn da1_data(&self) -> (r: &[u8])
        requires
            self@.has_stages(),
            self@.region_data(self@.da1_index()) is Some,
        ensures
            r@ == self@.region_data(self@.da1_index())->0,
    {
        if self.region_count() == 2 {
            self.get_region_data(0).expect("Region should exist")
        } else {
            self.get_region_data(1).expect("Region should exist")
        }
    }

    /// The bytes of the second stage, signature included.
    pub fn da2_data(&self) -> (r: &[u8])
        requires
            self@.has_stages(),
            self@.region_data(self@.da2_index()) is Some,
        ensures
            r@ == self@.region_data(self@.da2_index())->0,
    {
        if self.region_count() == 2 {
            self.get_region_data(1).expect("Region should exist")
        } else {
            self.get_region_data(2).expect("Region should exist")
        }
    }

    /// The code of the first stage, without its signature.
    pub fn da1_code(&self) -> (r: &[u8])
        requires
            self@.has_stages(),
            self@.region_content(self@.da1_index()) is Some,
        ensures
            r@ == self@.region_content(self@.da1_index())->0,
    {
        if self.region_count() == 2 {
            self.get_region_content(0).expect("Region should exist")
        } else {
            self.get_region_content(1).expect("Region should exist")
        }
    }

    /// The code of the second stage, without its signature.
    pub fn da2_code(&self) -> (r: &[u8])
        requires
            self@.has_stages(),
            self@.region_content(self@.da2_index()) is Some,
        ensures
            r@ == self@.region_content(self@.da2_index())->0,
    {
        if self.region_count() == 2 {
            self.get_region_content(1).expect("Region should exist")
        } else {
            self.get_region_content(2).expect("Region should exist")
        }
    }

    /// The bytes of the region, signature included, to be edited in place.
    pub fn get_region_data_mut(&mut self, index: usize) -> (r: Option<&mut [u8]>)
        requires
            index < old(self)@.region_count() ==> old(self)@.region_count() <= MAX_REGIONS,
        ensures
            (r is Some) == (old(self)@.region_data(index as int) is Some),
            r is Some ==> (*r->0)@ == old(self)@.region_data(index as int)->0 && final(self)@
                == old(self)@.with_region_bytes(index as int, final(r->0)@),
            r is None ==> final(self)@ == old(self)@,
    {
        let (offset, length) = match self.get_region(index) {
            Some(region) => (region.offset(), region.length()),
            None => return None,
        };
        if length > self.data.len() || offset > self.data.len() - length {
            return None;
        }
        let data = self.data.as_mut_slice();
        let (_, rest) = data.split_at_mut(offset);
        let (mid, _) = rest.split_at_mut(length);
        Some(mid)
    }

    /// The content of the region, without its signature, to be edited in place.
    pub fn get_region_content_mut(&mut self, index: usize) -> (r: Option<&mut [u8]>)
        requires
            index < old(self)@.region_count() ==> old(self)@.region_count() <= MAX_REGIONS,
        ensures
            (r is Some) == (old(self)@.region_content(index as int) is Some),
            r is Some ==> (*r->0)@ == old(self)@.region_content(index as int)->0 && final(self)@
                == old(self)@.with_content_bytes(index as int, final(r->0)@),
            r is None ==> final(self)@ == old(self)@,
    {
        let (offset, length, sig_len) = match self.get_region(index) {
            Some(region) => (region.offset(), region.length(), region.sig_len()),
            None => return None,
        };
        if sig_len > length {
            return None;
        }
        let content_len = length - sig_len;
        if content_len > self.data.len() || offset > self.data.len() - content_len {
            return None;
        }
        let data = self.data.as_mut_slice();
        let (_, rest) = data.split_at_mut(offset);
        let (mid, _) = rest.split_at_mut(content_len);
        Some(mid)
    }

    /// Region `index` of the header, to be edited in place.
    pub fn get_region_mut(&mut self, index: usize) -> (r: Option<&mut DaRegion>)
        requires
            index < old(self)@.region_count() ==> old(self)@.region_count() <= MAX_REGIONS,
        ensures
            index >= old(self)@.region_count() ==> r is None && final(self)@ == old(self)@,
            index < old(self)@.region_count() ==> r is Some && (*r->0)@ == old(
                self,
            )@.header.regions[index as int] && final(self)@ == old(self)@.with_region(
                index as int,
                (*final(r->0))@,
            ),
    {
        if index >= self.region_count() {
            return None;
        }
        match &mut self.entry {
            DaEntryHeader::V3(header) => Some(&mut header.regions[index]),
            DaEntryHeader::V4(header) => Some(&mut header.regions[index]),
        }
    }

    /// The bytes of the first stage, signature included, to be edited in place.
    pub fn da1_data_mut(&mut self) -> (r: &mut [u8])
        requires
            old(self)@.has_stages(),
            old(self)@.region_data(old(self)@.da1_index()) is Some,
        ensures
            r@ == old(self)@.region_data(old(self)@.da1_index())->0,
            final(self)@ == old(self)@.with_region_bytes(old(self)@.da1_index(), final(r)@),
    {
        if self.region_count() == 2 {
            self.get_region_data_mut(0).expect("Region should exist")
        } else {
            self.get_region_data_mut(1).expect("Region should exist")
        }
    }

    /// The bytes of the second stage, signature included, to be edited in place.
    pub fn da2_data_mut(&mut self) -> (r: &mut [u8])
        requires
            old(self)@.has_stages(),
            old(self)@.region_data(old(self)@.da2_index()) is Some,
        ensures
            r@ == old(self)@.region_data(old(self)@.da2_index())->0,
            final(self)@ == old(self)@.with_region_bytes(old(self)@.da2_index(), final(r)@),
    {
        if self.region_count() == 2 {
            self.get_region_data_mut(1).expect("Region should exist")
        } else {
            self.get_region_data_mut(2).expect("Region should exist")
        }
    }

    /// Checks the region count, then each region in turn: it must be valid and lie within the
    /// data.
    pub fn validate(&self) -> (r: Result<()>)
        ensures
            r == self@.validation(),
    {
        let count = self.region_count();
        if count < Self::MIN_REGION_COUNT {
            return Err(Error::Da(DaError::RegionCountTooSmall(count)));
        }
        if count > MAX_REGIONS {
            return Err(Error::Da(DaError::RegionCountTooLarge(MAX_REGIONS, count)));
        }
        let regions = self.regions();
        proof {
            self.lemma_regions_len();
            assert(region_views(regions@).len() == regions@.len());
        }
        let mut i: usize = 0;
        while i < count
            invariant
                count == self@.region_count(),
                2 <= count <= MAX_REGIONS,
                self@.header.regions.len() == MAX_REGIONS,
                region_views(regions@) == self@.regions(),
                regions@.len() == count,
                i <= count,
                self@.first_region_error(0) == self@.first_region_error(i as int),
            decreases count - i,
        {
            let region = &regions[i];
            assert(region_views(regions@)[i as int] == region@);
            if !region.is_valid() {
                return Err(
                    Error::Da(
                        DaError::InvalidRegion(
                            region.offset(),
                            region.length(),
                            region.length().wrapping_sub(region.sig_len()),
                        ),
                    ),
                );
            }
            if region.length() > self.data.len() || region.offset() > self.data.len()
                - region.length() {
                return Err(
                    Error::Da(
                        DaError::RegionDataOutOfBounds(
                            region.offset(),
                            region.length(),
                            self.data.len(),
                        ),
                    ),
                );
            }
            i = i + 1;
        }
        Ok(())
    }
}

} // verus!

verus! {

/// Size of the DA file header on disk.
pub const DA_HEADER_SIZE: usize = 108;

/// The identifier that a DA header holds, as text.
pub open spec fn da_id_text() -> Seq<char> {
    "MTK_DOWNLOAD_AGENT"@
}

/// The identifier field of a DA header: `"MTK_DOWNLOAD_AGENT"` padded with NULs to 32 bytes.
pub open spec fn da_id_bytes() -> Seq<u8> {
    seq![
        0x4du8, 0x54u8, 0x4bu8, 0x5fu8, 0x44u8, 0x4fu8, 0x57u8, 0x4eu8, 0x4cu8, 0x4fu8, 0x41u8,
        0x44u8, 0x5fu8, 0x41u8, 0x47u8, 0x45u8, 0x4eu8, 0x54u8, 0u8, 0u8, 0u8, 0u8, 0u8, 0u8, 0u8,
        0u8, 0u8, 0u8, 0u8, 0u8, 0u8, 0u8,
    ]
}

/// What a DA header holds, as plain values.
#[verifier::ext_equal]
pub struct DaHeaderModel {
    pub id: Seq<u8>,
    pub desc: Seq<u8>,
    pub version: DaHeaderVersion,
    pub magic: u32,
    pub da_count: u32,
}

impl DaHeaderModel {
    /// Reading a header from `s`: too short or with an unknown version code gives
    /// `Error::Zerocopy`; an identifier whose text is not `"MTK_DOWNLOAD_AGENT"` gives
    /// `InvalidSignature`; a wrong magic gives `InvalidMagic`.
    pub open spec fn spec_parse(s: Seq<u8>) -> core::result::Result<DaHeaderModel, Error> {
        if s.len() < DA_HEADER_SIZE {
            Err(Error::Zerocopy)
        } else {
            match DaHeaderVersion::spec_from_code(le_u32_at(s, 96)) {
                None => Err(Error::Zerocopy),
                Some(version) => {
                    let h = DaHeaderModel {
                        id: s.subrange(0, 32),
                        desc: s.subrange(32, 96),
                        version,
                        magic: le_u32_at(s, 100),
                        da_count: le_u32_at(s, 104),
                    };
                    if field_text(h.id, da_id_text()) != da_id_text() {
                        Err(Error::Da(DaError::InvalidSignature))
                    } else if h.magic != 0x22668899 {
                        Err(Error::Da(DaError::InvalidMagic(0x22668899, h.magic)))
                    } else {
                        Ok(h)
                    }
                },
            }
        }
    }
}

/// The header of a DA file: identifier, description, layout version, magic and entry count.
#[derive(Debug)]
pub struct DaHeader {
    id: [u8; 32],
    desc: [u8; 64],
    version: DaHeaderVersion,
    magic: u32,
    da_count: u32,
}

impl View for DaHeader {
    type V = DaHeaderModel;

    closed spec fn view(&self) -> DaHeaderModel {
        DaHeaderModel {
            id: self.id@,
            desc: self.desc@,
            version: self.version,
            magic: self.magic,
            da_count: self.da_count,
        }
    }
}

impl DaHeader {
    /// `"MTK_DOWNLOAD_AGENT"` padded with NULs to 32 bytes.
    pub const DA_ID: [u8; 32] = [
        0x4d, 0x54, 0x4b, 0x5f, 0x44, 0x4f, 0x57, 0x4e, 0x4c, 0x4f, 0x41, 0x44, 0x5f, 0x41, 0x47,
        0x45, 0x4e, 0x54, 0, 0, 0, 0, 0, 0, 0, 0, 0, 0, 0, 0, 0, 0,
    ];
    pub const DA_MAGIC: u32 = 0x22668899;
    pub const SIZE: usize = 108;

    /// The identifier as text, without trailing NULs; when it is not valid UTF-8, the expected
    /// identifier is given instead.
    pub fn id(&self) -> (r: &str)
        ensures
            r@ == field_text(self@.id, da_id_text()),
    {
        text_of(self.id.as_slice(), "MTK_DOWNLOAD_AGENT")
    }

    /// The description as text, without trailing NULs; empty when it is not valid UTF-8.
    pub fn desc(&self) -> (r: &str)
        ensures
            r@ == field_text(self@.desc, ""@),
    {
        text_of(self.desc.as_slice(), "")
    }

    pub fn version(&self) -> (r: DaHeaderVersion)
        ensures
            r == self@.version,
    {
        self.version
    }

    pub fn magic(&self) -> (r: u32)
        ensures
            r == self@.magic,
    {
        self.magic
    }

    pub fn da_count(&self) -> (r: u32)
        ensures
            r == self@.da_count,
    {
        self.da_count
    }

    pub fn set_version(&mut self, version: DaHeaderVersion)
        ensures
            final(self)@ == (DaHeaderModel { version, ..old(self)@ }),
    {
        self.version = version;
    }

    pub fn set_da_count(&mut self, count: u32)
        ensures
            final(self)@ == (DaHeaderModel { da_count: count, ..old(self)@ }),
    {
        self.da_count = count;
    }
}

impl Default for DaHeader {
    fn default() -> (r: Self)
        ensures
            r@ == (DaHeaderModel {
                id: da_id_bytes(),
                desc: Seq::new(64, |i: int| 0u8),
                version: DaHeaderVersion::Unknown,
                magic: 0x22668899,
                da_count: 0,
            }),
    {
        let id = Self::DA_ID;
        assert(id@ =~= da_id_bytes());
        let desc = [0u8; 64];
        assert(desc@ =~= Seq::new(64, |i: int| 0u8));
        Self { id, desc, version: DaHeaderVersion::Unknown, magic: Self::DA_MAGIC, da_count: 0 }
    }
}

impl<'a> TryRead<'a> for DaHeader {
    fn try_read(data: &'a [u8]) -> (r: Result<Self>)
        ensures
            view_result(r) == DaHeaderModel::spec_parse(data@),
    {
        if data.len() < Self::SIZE {
            return Err(Error::Zerocopy);
        }
        let version = match DaHeaderVersion::from_code(read_u32(data, 96)) {
            Some(v) => v,
            None => return Err(Error::Zerocopy),
        };
        let header = DaHeader {
            id: read_array(data, 0),
            desc: read_array(data, 32),
            version,
            magic: read_u32(data, 100),
            da_count: read_u32(data, 104),
        };
        if !str_eq(header.id(), "MTK_DOWNLOAD_AGENT") {
            return Err(Error::Da(DaError::InvalidSignature));
        }
        if header.magic() != Self::DA_MAGIC {
            return Err(Error::Da(DaError::InvalidMagic(Self::DA_MAGIC, header.magic())));
        }
        Ok(header)
    }
}

} // verus!

verus! {

/// Size of an entry header in the layout of `v`; nothing for an unknown layout.
pub open spec fn entry_header_size(v: DaHeaderVersion) -> int {
    match v {
        DaHeaderVersion::V3 => DA_ENTRY_HEADER_V3_SIZE as int,
        DaHeaderVersion::V4 => DA_ENTRY_HEADER_V4_SIZE as int,
        DaHeaderVersion::Unknown => 0,
    }
}

/// The entries that `n` headers stored one after another from `off` give: an unknown layout
/// gives none, the walk stops at the first header that does not fit in the data, and an entry
/// that fails validation is left out.
pub open spec fn entries_from(data: Seq<u8>, v: DaHeaderVersion, n: nat, off: int) -> Seq<
    DaEntryModel,
>
    decreases n,
{
    if n == 0 || v == DaHeaderVersion::Unknown || off + entry_header_size(v) > data.len() {
        Seq::empty()
    } else {
        let e = DaEntryModel {
            data,
            version: v,
            header: DaEntryHeaderModel::at(data, off, v == DaHeaderVersion::V4),
        };
        let rest = entries_from(data, v, (n - 1) as nat, off + entry_header_size(v));
        if e.validation() is Ok {
            seq![e] + rest
        } else {
            rest
        }
    }
}

/// The views of a sequence of entries.
pub open spec fn entry_views(s: Seq<DaEntry>) -> Seq<DaEntryModel> {
    s.map_values(|e: DaEntry| e@)
}

/// A DA file as plain values: its bytes and its header.
#[verifier::ext_equal]
pub struct DaModel {
    pub data: Seq<u8>,
    pub header: DaHeaderModel,
}

impl DaModel {
    /// Reading a DA file: its header must read (see [`DaHeaderModel::spec_parse`]).
    pub open spec fn spec_parse(s: Seq<u8>) -> core::result::Result<DaModel, Error> {
        match DaHeaderModel::spec_parse(s) {
            Ok(header) => Ok(DaModel { data: s, header }),
            Err(e) => Err(e),
        }
    }

    /// The entries of the file: those that the `da_count` headers after the file header give
    /// (see [`entries_from`]).
    pub open spec fn spec_entries(self) -> Seq<DaEntryModel> {
        entries_from(
            self.data,
            self.header.version,
            self.header.da_count as nat,
            DA_HEADER_SIZE as int,
        )
    }
}

/// A DA file: the header and the bytes of the whole file.
#[derive(Debug)]
pub struct Da {
    data: Vec<u8>,
    header: DaHeader,
}

impl View for Da {
    type V = DaModel;

    closed spec fn view(&self) -> DaModel {
        DaModel { data: self.data@, header: self.header@ }
    }
}

impl Da {
    pub fn header(&self) -> (r: &DaHeader)
        ensures
            r@ == self@.header,
    {
        &self.header
    }

    pub fn data(&self) -> (r: &[u8])
        ensures
            r@ == self@.data,
    {
        self.data.as_slice()
    }

    /// The bytes of the file, to be edited in place.
    pub fn data_mut(&mut self) -> (r: &mut [u8])
        ensures
            r@ == old(self)@.data,
            final(self)@ == (DaModel { data: final(r)@, header: old(self)@.header }),
    {
        self.data.as_mut_slice()
    }

    /// The entries of the file, in order (see [`DaModel::spec_entries`]).
    pub fn entries(&self) -> (r: Vec<DaEntry>)
        ensures
            entry_views(r@) == self@.spec_entries(),
    {
        let ghost full = self@.spec_entries();
        let mut out: Vec<DaEntry> = Vec::new();
        let version = self.header.version;
        let size: usize = match version {
            DaHeaderVersion::V3 => DA_ENTRY_HEADER_V3_SIZE,
            DaHeaderVersion::V4 => DA_ENTRY_HEADER_V4_SIZE,
            DaHeaderVersion::Unknown => {
                assert(entry_views(out@) =~= full);
                return out;
            },
        };
        let count = self.header.da_count;
        let len = self.data.len();
        let mut off: usize = DA_HEADER_SIZE;
        let mut i: u32 = 0;
        assert(entry_views(out@) + full =~= full);
        while i < count
            invariant
                version == self@.header.version,
                version != DaHeaderVersion::Unknown,
                size == entry_header_size(version),
                count == self@.header.da_count,
                len == self@.data.len(),
                i <= count,
                full == self@.spec_entries(),
                entry_views(out@) + entries_from(self@.data, version, (count - i) as nat, off as int)
                    == full,
            decreases count - i,
        {
            if off > len || size > len - off {
                assert(entries_from(self@.data, version, (count - i) as nat, off as int)
                    =~= Seq::<DaEntryModel>::empty());
                assert(entry_views(out@) =~= full);
                return out;
            }
            let header = match version {
                DaHeaderVersion::V4 => DaEntryHeader::V4(read_entry_header_v4(self.data.as_slice(), off)),
                _ => DaEntryHeader::V3(read_entry_header_v3(self.data.as_slice(), off)),
            };
            let entry = DaEntry { data: to_vec(self.data.as_slice()), version, entry: header };
            let valid = entry.validate().is_ok();
            let ghost before = out@;
            off = off + size;
            i = i + 1;
            if valid {
                out.push(entry);
                assert(entry_views(out@) =~= entry_views(before).push(entry@));
            }
            assert(entry_views(out@) + entries_from(self@.data, version, (count - i) as nat, off as int)
                =~= full);
        }
        assert(entries_from(self@.data, version, 0, off as int) =~= Seq::<DaEntryModel>::empty());
        assert(entry_views(out@) =~= full);
        out
    }

    /// Entry `index` of the file, if it has that many.
    pub fn entry(&self, index: usize) -> (r: Option<DaEntry>)
        ensures
            index < self@.spec_entries().len() ==> (r matches Some(e) && e@
                == self@.spec_entries()[index as int]),
            index >= self@.spec_entries().len() ==> r is None,
    {
        let mut es = self.entries();
        assert(entry_views(es@).len() == es@.len());
        if index < es.len() {
            assert(entry_views(es@)[index as int] == es@[index as int]@);
            Some(es.remove(index))
        } else {
            None
        }
    }
}

impl<'a> TryRead<'a> for Da {
    fn try_read(data: &'a [u8]) -> (r: Result<Self>)
        ensures
            view_result(r) == DaModel::spec_parse(data@),
    {
        let header = DaHeader::try_read(data)?;
        Ok(Self { data: to_vec(data), header })
    }
}

} // verus!

verus! {

/// Every entry that a DA file lists passes validation, holds the bytes of the whole file and
/// carries the layout version of the file header.
pub proof fn lemma_listed_entries_valid(da: DaModel)
    ensures
        forall|i: int|
            0 <= i < da.spec_entries().len() ==> {
                let e = #[trigger] da.spec_entries()[i];
                &&& e.validation() is Ok
                &&& e.data == da.data
                &&& e.version == da.header.version
            },
{
    lemma_entries_from_valid(da.data, da.header.version, da.header.da_count as nat, DA_HEADER_SIZE as int);
}

proof fn lemma_entries_from_valid(data: Seq<u8>, v: DaHeaderVersion, n: nat, off: int)
    ensures
        forall|i: int|
            0 <= i < entries_from(data, v, n, off).len() ==> {
                let e = #[trigger] entries_from(data, v, n, off)[i];
                &&& e.validation() is Ok
                &&& e.data == data
                &&& e.version == v
            },
    decreases n,
{
    if n == 0 || v == DaHeaderVersion::Unknown || off + entry_header_size(v) > data.len() {
    } else {
        lemma_entries_from_valid(data, v, (n - 1) as nat, off + entry_header_size(v));
    }
}

/// When no region at or after `i` has an error, none of the used regions from `i` on has one.
proof fn lemma_first_region_error_none(e: DaEntryModel, i: int)
    requires
        0 <= i,
        e.first_region_error(i) is None,
    ensures
        forall|j: int| i <= j < e.region_count() ==> #[trigger] e.region_error(e.header.regions[j]) is None,
    decreases e.region_count() - i,
{
    if i < e.region_count() {
        lemma_first_region_error_none(e, i + 1);
    }
}

/// An entry that passes validation lists both stages, and the bytes of every region it uses
/// lie within the file.
pub proof fn lemma_valid_entry_regions(e: DaEntryModel)
    requires
        e.validation() is Ok,
    ensures
        e.has_stages(),
        forall|i: int| 0 <= i < e.region_count() ==> (#[trigger] e.region_data(i)) is Some,
        e.region_data(e.da1_index()) is Some,
        e.region_data(e.da2_index()) is Some,
{
    lemma_first_region_error_none(e, 0);
    assert forall|i: int| 0 <= i < e.region_count() implies (#[trigger] e.region_data(i)) is Some by {
        assert(e.region_error(e.header.regions[i]) is None);
    }
    assert(e.region_data(e.da1_index()) is Some);
    assert(e.region_data(e.da2_index()) is Some);
}

/// Writing bytes of the right length over a region of an entry, then reading the region, gives
/// back those bytes; the header, the layout version, the file length and every byte outside
/// the region stay the same.
pub proof fn lemma_region_bytes_read_back(e: DaEntryModel, i: int, bytes: Seq<u8>)
    requires
        e.region_data(i) is Some,
        bytes.len() == e.header.regions[i].length,
    ensures
        e.with_region_bytes(i, bytes).region_data(i) == Some(bytes),
        e.with_region_bytes(i, bytes).header == e.header,
        e.with_region_bytes(i, bytes).version == e.version,
        e.with_region_bytes(i, bytes).data.len() == e.data.len(),
        forall|k: int|
            0 <= k < e.data.len() && !(e.header.regions[i].offset <= k < e.header.regions[i].offset
                + e.header.regions[i].length) ==> #[trigger] e.with_region_bytes(i, bytes).data[k]
                == e.data[k],
{
    let r = e.header.regions[i];
    let d = e.with_region_bytes(i, bytes).data;
    assert(d.subrange(r.offset as int, r.offset + r.length) =~= bytes);
    assert forall|k: int|
        0 <= k < e.data.len() && !(r.offset <= k < r.offset + r.length) implies #[trigger] d[k]
        == e.data[k] by {
        if k >= r.offset + r.length {
            assert(d[k] == e.data.subrange(r.offset + r.length, e.data.len() as int)[k - r.offset
                - r.length]);
        }
    }
}

/// Replacing a region of an entry's header, then reading that region, gives back the new
/// region; the other regions, the region count and the bytes stay the same.
pub proof fn lemma_region_replace_read_back(e: DaEntryModel, i: int, r: DaRegionModel)
    requires
        0 <= i < e.header.regions.len(),
    ensures
        e.with_region(i, r).header.regions[i] == r,
        forall|j: int|
            0 <= j < e.header.regions.len() && j != i ==> #[trigger] e.with_region(
                i,
                r,
            ).header.regions[j] == e.header.regions[j],
        e.with_region(i, r).region_count() == e.region_count(),
        e.with_region(i, r).data == e.data,
{
}

/// For an entry that a DA file lists, the bytes of every region it uses are available, as long
/// as the region states. Writing bytes of that length over them (as through
/// [`DaEntry::get_region_data_mut`]) and reading the region gives those bytes back, and every
/// other byte of the entry's data is still the byte of the file there.
pub proof fn lemma_listed_entry_region_write(da: DaModel, j: int, i: int, w: Seq<u8>)
    requires
        0 <= j < da.spec_entries().len(),
        0 <= i < da.spec_entries()[j].region_count(),
        w.len() == da.spec_entries()[j].header.regions[i].length,
    ensures
        ({
            let e = da.spec_entries()[j];
            let r = e.header.regions[i];
            let e2 = e.with_region_bytes(i, w);
            &&& e.region_data(i) is Some
            &&& e.region_data(i)->0.len() == r.length
            &&& e2.region_data(i) == Some(w)
            &&& e2.header == e.header
            &&& e2.data.len() == da.data.len()
            &&& forall|k: int|
                0 <= k < da.data.len() && !(r.offset <= k < r.offset + r.length) ==> #[trigger] e2.data[k]
                    == da.data[k]
        }),
{
    let e = da.spec_entries()[j];
    lemma_listed_entries_valid(da);
    lemma_valid_entry_regions(e);
    assert(e.region_data(i) is Some);
    lemma_region_bytes_read_back(e, i, w);
}

} // verus!
