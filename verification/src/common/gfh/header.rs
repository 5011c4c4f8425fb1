//! The header that starts every GFH (general file header) section.
use vstd::prelude::*;

use crate::bytes::{le_u16_at, le_u32_at, read_u16, read_u32};
use crate::common::gfh::file::GfhError;
use crate::error::{Error, Result};
use crate::traits::{view_result, TryRead};

verus! {

/// The kind of a GFH section, stored as a little-endian `u16` code.
#[derive(Debug, Clone, Copy, PartialEq, Eq, Structural)]
pub enum GfhType {
    FileInfo,
    BlInfo,
    AntiClone,
    BlExtCfg,
    SctrlCert,
    ToolAuth,
    MtkReserved1,
    BromCfg,
    BromSecCfg,
    MtkReserved2,
    MtkReserved3,
    RootCert,
    ExpChk,
    EppParam,
    ChipVer,
    MtkReserved4,
    MdSecCfg,
    EppInfo,
    EmiList,
    CmemIdInfo,
    CmemNorInfo,
    DspInfo,
    MauiInfo,
    MauiSec,
    MauiCodeKey,
    MauiSecureRoKey,
    MauiResourceKey,
    SecureRoInfo,
    DlPackageInfo,
    FlashInfo,
    MacrInfo,
    ArmBlInfo,
    EmmcBootingInfo,
    FotaInfo,
    CbrRecordInfo,
    ConfidentialBinInfo,
    CbrInfo,
    MbaInfo,
    BinaryLocation,
    End,
}

impl GfhType {
    /// The on-disk code of the section kind.
    pub open spec fn spec_code(self) -> u16 {
        match self {
            GfhType::FileInfo => 0x0000,
            GfhType::BlInfo => 0x0001,
            GfhType::AntiClone => 0x0002,
            GfhType::BlExtCfg => 0x0003,
            GfhType::SctrlCert => 0x0004,
            GfhType::ToolAuth => 0x0005,
            GfhType::MtkReserved1 => 0x0006,
            GfhType::BromCfg => 0x0007,
            GfhType::BromSecCfg => 0x0008,
            GfhType::MtkReserved2 => 0x0009,
            GfhType::MtkReserved3 => 0x000a,
            GfhType::RootCert => 0x000b,
            GfhType::ExpChk => 0x000c,
            GfhType::EppParam => 0x000d,
            GfhType::ChipVer => 0x000e,
            GfhType::MtkReserved4 => 0x000f,
            GfhType::MdSecCfg => 0x0010,
            GfhType::EppInfo => 0x0100,
            GfhType::EmiList => 0x0101,
            GfhType::CmemIdInfo => 0x0102,
            GfhType::CmemNorInfo => 0x0103,
            GfhType::DspInfo => 0x0104,
            GfhType::MauiInfo => 0x0200,
            GfhType::MauiSec => 0x0201,
            GfhType::MauiCodeKey => 0x0202,
            GfhType::MauiSecureRoKey => 0x0203,
            GfhType::MauiResourceKey => 0x0204,
            GfhType::SecureRoInfo => 0x0300,
            GfhType::DlPackageInfo => 0x0400,
            GfhType::FlashInfo => 0x0500,
            GfhType::MacrInfo => 0x0600,
            GfhType::ArmBlInfo => 0x0700,
            GfhType::EmmcBootingInfo => 0x0800,
            GfhType::FotaInfo => 0x0900,
            GfhType::CbrRecordInfo => 0x0a00,
            GfhType::ConfidentialBinInfo => 0x0b00,
            GfhType::CbrInfo => 0x0c00,
            GfhType::MbaInfo => 0x0d00,
            GfhType::BinaryLocation => 0x0e00,
            GfhType::End => 0xffff,
        }
    }

    /// The section kind that an on-disk code stands for, if any.
    pub open spec fn spec_from_code(v: u16) -> Option<GfhType> {
        if v == 0x0000 {
            Some(GfhType::FileInfo)
        } else if v == 0x0001 {
            Some(GfhType::BlInfo)
        } else if v == 0x0002 {
            Some(GfhType::AntiClone)
        } else if v == 0x0003 {
            Some(GfhType::BlExtCfg)
        } else if v == 0x0004 {
            Some(GfhType::SctrlCert)
        } else if v == 0x0005 {
            Some(GfhType::ToolAuth)
        } else if v == 0x0006 {
            Some(GfhType::MtkReserved1)
        } else if v == 0x0007 {
            Some(GfhType::BromCfg)
        } else if v == 0x0008 {
            Some(GfhType::BromSecCfg)
        } else if v == 0x0009 {
            Some(GfhType::MtkReserved2)
        } else if v == 0x000a {
            Some(GfhType::MtkReserved3)
        } else if v == 0x000b {
            Some(GfhType::RootCert)
        } else if v == 0x000c {
            Some(GfhType::ExpChk)
        } else if v == 0x000d {
            Some(GfhType::EppParam)
        } else if v == 0x000e {
            Some(GfhType::ChipVer)
        } else if v == 0x000f {
            Some(GfhType::MtkReserved4)
        } else if v == 0x0010 {
            Some(GfhType::MdSecCfg)
        } else if v == 0x0100 {
            Some(GfhType::EppInfo)
        } else if v == 0x0101 {
            Some(GfhType::EmiList)
        } else if v == 0x0102 {
            Some(GfhType::CmemIdInfo)
        } else if v == 0x0103 {
            Some(GfhType::CmemNorInfo)
        } else if v == 0x0104 {
            Some(GfhType::DspInfo)
        } else if v == 0x0200 {
            Some(GfhType::MauiInfo)
        } else if v == 0x0201 {
            Some(GfhType::MauiSec)
        } else if v == 0x0202 {
            Some(GfhType::MauiCodeKey)
        } else if v == 0x0203 {
            Some(GfhType::MauiSecureRoKey)
        } else if v == 0x0204 {
            Some(GfhType::MauiResourceKey)
        } else if v == 0x0300 {
            Some(GfhType::SecureRoInfo)
        } else if v == 0x0400 {
            Some(GfhType::DlPackageInfo)
        } else if v == 0x0500 {
            Some(GfhType::FlashInfo)
        } else if v == 0x0600 {
            Some(GfhType::MacrInfo)
        } else if v == 0x0700 {
            Some(GfhType::ArmBlInfo)
        } else if v == 0x0800 {
            Some(GfhType::EmmcBootingInfo)
        } else if v == 0x0900 {
            Some(GfhType::FotaInfo)
        } else if v == 0x0a00 {
            Some(GfhType::CbrRecordInfo)
        } else if v == 0x0b00 {
            Some(GfhType::ConfidentialBinInfo)
        } else if v == 0x0c00 {
            Some(GfhType::CbrInfo)
        } else if v == 0x0d00 {
            Some(GfhType::MbaInfo)
        } else if v == 0x0e00 {
            Some(GfhType::BinaryLocation)
        } else if v == 0xffff {
            Some(GfhType::End)
        } else {
            None
        }
    }

    pub fn code(self) -> (r: u16)
        ensures
            r == self.spec_code(),
    {
        match self {
            GfhType::FileInfo => 0x0000,
            GfhType::BlInfo => 0x0001,
            GfhType::AntiClone => 0x0002,
            GfhType::BlExtCfg => 0x0003,
            GfhType::SctrlCert => 0x0004,
            GfhType::ToolAuth => 0x0005,
            GfhType::MtkReserved1 => 0x0006,
            GfhType::BromCfg => 0x0007,
            GfhType::BromSecCfg => 0x0008,
            GfhType::MtkReserved2 => 0x0009,
            GfhType::MtkReserved3 => 0x000a,
            GfhType::RootCert => 0x000b,
            GfhType::ExpChk => 0x000c,
            GfhType::EppParam => 0x000d,
            GfhType::ChipVer => 0x000e,
            GfhType::MtkReserved4 => 0x000f,
            GfhType::MdSecCfg => 0x0010,
            GfhType::EppInfo => 0x0100,
            GfhType::EmiList => 0x0101,
            GfhType::CmemIdInfo => 0x0102,
            GfhType::CmemNorInfo => 0x0103,
            GfhType::DspInfo => 0x0104,
            GfhType::MauiInfo => 0x0200,
            GfhType::MauiSec => 0x0201,
            GfhType::MauiCodeKey => 0x0202,
            GfhType::MauiSecureRoKey => 0x0203,
            GfhType::MauiResourceKey => 0x0204,
            GfhType::SecureRoInfo => 0x0300,
            GfhType::DlPackageInfo => 0x0400,
            GfhType::FlashInfo => 0x0500,
            GfhType::MacrInfo => 0x0600,
            GfhType::ArmBlInfo => 0x0700,
            GfhType::EmmcBootingInfo => 0x0800,
            GfhType::FotaInfo => 0x0900,
            GfhType::CbrRecordInfo => 0x0a00,
            GfhType::ConfidentialBinInfo => 0x0b00,
            GfhType::CbrInfo => 0x0c00,
            GfhType::MbaInfo => 0x0d00,
            GfhType::BinaryLocation => 0x0e00,
            GfhType::End => 0xffff,
        }
    }

    pub fn from_code(v: u16) -> (r: Option<GfhType>)
        ensures
            r == Self::spec_from_code(v),
    {
        if v == 0x0000 {
            Some(GfhType::FileInfo)
        } else if v == 0x0001 {
            Some(GfhType::BlInfo)
        } else if v == 0x0002 {
            Some(GfhType::AntiClone)
        } else if v == 0x0003 {
            Some(GfhType::BlExtCfg)
        } else if v == 0x0004 {
            Some(GfhType::SctrlCert)
        } else if v == 0x0005 {
            Some(GfhType::ToolAuth)
        } else if v == 0x0006 {
            Some(GfhType::MtkReserved1)
        } else if v == 0x0007 {
            Some(GfhType::BromCfg)
        } else if v == 0x0008 {
            Some(GfhType::BromSecCfg)
        } else if v == 0x0009 {
            Some(GfhType::MtkReserved2)
        } else if v == 0x000a {
            Some(GfhType::MtkReserved3)
        } else if v == 0x000b {
            Some(GfhType::RootCert)
        } else if v == 0x000c {
            Some(GfhType::ExpChk)
        } else if v == 0x000d {
            Some(GfhType::EppParam)
        } else if v == 0x000e {
            Some(GfhType::ChipVer)
        } else if v == 0x000f {
            Some(GfhType::MtkReserved4)
        } else if v == 0x0010 {
            Some(GfhType::MdSecCfg)
        } else if v == 0x0100 {
            Some(GfhType::EppInfo)
        } else if v == 0x0101 {
            Some(GfhType::EmiList)
        } else if v == 0x0102 {
            Some(GfhType::CmemIdInfo)
        } else if v == 0x0103 {
            Some(GfhType::CmemNorInfo)
        } else if v == 0x0104 {
            Some(GfhType::DspInfo)
        } else if v == 0x0200 {
            Some(GfhType::MauiInfo)
        } else if v == 0x0201 {
            Some(GfhType::MauiSec)
        } else if v == 0x0202 {
            Some(GfhType::MauiCodeKey)
        } else if v == 0x0203 {
            Some(GfhType::MauiSecureRoKey)
        } else if v == 0x0204 {
            Some(GfhType::MauiResourceKey)
        } else if v == 0x0300 {
            Some(GfhType::SecureRoInfo)
        } else if v == 0x0400 {
            Some(GfhType::DlPackageInfo)
        } else if v == 0x0500 {
            Some(GfhType::FlashInfo)
        } else if v == 0x0600 {
            Some(GfhType::MacrInfo)
        } else if v == 0x0700 {
            Some(GfhType::ArmBlInfo)
        } else if v == 0x0800 {
            Some(GfhType::EmmcBootingInfo)
        } else if v == 0x0900 {
            Some(GfhType::FotaInfo)
        } else if v == 0x0a00 {
            Some(GfhType::CbrRecordInfo)
        } else if v == 0x0b00 {
            Some(GfhType::ConfidentialBinInfo)
        } else if v == 0x0c00 {
            Some(GfhType::CbrInfo)
        } else if v == 0x0d00 {
            Some(GfhType::MbaInfo)
        } else if v == 0x0e00 {
            Some(GfhType::BinaryLocation)
        } else if v == 0xffff {
            Some(GfhType::End)
        } else {
            None
        }
    }
}

/// The fields of a [`GfhHeader`] as mathematical values.
pub struct GfhHeaderModel {
    pub magic_ver: u32,
    pub size: u16,
    pub gfh_type: GfhType,
}

/// Size of a GFH header on disk.
pub const GFH_HEADER_SIZE: usize = 8;

/// The 24-bit magic number ("MMM") in the low bytes of the first word.
pub const GFH_HEADER_MAGIC: u32 = 0x004D4D4D;

impl GfhHeaderModel {
    /// The magic number in the low 24 bits of the first word.
    pub open spec fn magic(self) -> u32 {
        self.magic_ver & 0x00FF_FFFF
    }

    /// The section's version, in the high byte of the first word.
    pub open spec fn version(self) -> u8 {
        (self.magic_ver >> 24) as u8
    }

    /// What validating the header gives.
    pub open spec fn spec_validate(self) -> Result<()> {
        if self.magic() != GFH_HEADER_MAGIC {
            Err(Error::Gfh(GfhError::InvalidHeaderMagic(GFH_HEADER_MAGIC, self.magic())))
        } else {
            Ok(())
        }
    }

    /// What reading a header from `s` gives: a magic word, a little-endian `u16` size that
    /// covers the whole section, header included, and a `u16` section kind.
    pub open spec fn spec_parse(s: Seq<u8>) -> Result<GfhHeaderModel> {
        if s.len() < GFH_HEADER_SIZE {
            Err(Error::Gfh(GfhError::TooShort(s.len() as usize, GFH_HEADER_SIZE)))
        } else {
            match GfhType::spec_from_code(le_u16_at(s, 6)) {
                Some(gfh_type) => Ok(
                    GfhHeaderModel { magic_ver: le_u32_at(s, 0), size: le_u16_at(s, 4), gfh_type },
                ),
                None => Err(Error::Zerocopy),
            }
        }
    }
}

/// The header of a GFH section.
#[derive(Debug, Clone, Copy, PartialEq, Eq, Structural)]
pub struct GfhHeader {
    magic_ver: u32,
    size: u16,
    gfh_type: GfhType,
}

impl View for GfhHeader {
    type V = GfhHeaderModel;

    closed spec fn view(&self) -> GfhHeaderModel {
        GfhHeaderModel { magic_ver: self.magic_ver, size: self.size, gfh_type: self.gfh_type }
    }
}

impl GfhHeader {
    /// A version-1 header for a section of the given kind and size.
    pub fn new(gfh_type: GfhType, size: u16) -> (r: Self)
        ensures
            r@ == (GfhHeaderModel { magic_ver: 0x0100_0000 | GFH_HEADER_MAGIC, size, gfh_type }),
    {
        GfhHeader { magic_ver: 0x0100_0000 | GFH_HEADER_MAGIC, size, gfh_type }
    }

    pub fn magic(&self) -> (r: u32)
        ensures
            r == self@.magic(),
    {
        self.magic_ver & 0x00FF_FFFF
    }

    pub fn version(&self) -> (r: u8)
        ensures
            r == self@.version(),
    {
        (self.magic_ver >> 24) as u8
    }

    /// The size of the whole section, header included.
    pub fn size(&self) -> (r: u16)
        ensures
            r == self@.size,
    {
        self.size
    }

    pub fn gfh_type(&self) -> (r: GfhType)
        ensures
            r == self@.gfh_type,
    {
        self.gfh_type
    }

    /// Checks the magic number.
    pub fn validate(&self) -> (r: Result<()>)
        ensures
            r == self@.spec_validate(),
    {
        let magic = self.magic();
        if magic != GFH_HEADER_MAGIC {
            return Err(Error::Gfh(GfhError::InvalidHeaderMagic(GFH_HEADER_MAGIC, magic)));
        }
        Ok(())
    }
}

impl<'a> TryRead<'a> for GfhHeader {
    fn try_read(data: &'a [u8]) -> (r: Result<Self>)
        ensures
            view_result(r) == GfhHeaderModel::spec_parse(data@),
    {
        if data.len() < GFH_HEADER_SIZE {
            return Err(Error::Gfh(GfhError::TooShort(data.len(), GFH_HEADER_SIZE)));
        }
        let gfh_type = match GfhType::from_code(read_u16(data, 6)) {
            Some(t) => t,
            None => return Err(Error::Zerocopy),
        };
        Ok(GfhHeader { magic_ver: read_u32(data, 0), size: read_u16(data, 4), gfh_type })
    }
}

} // verus!

verus! {

impl GfhHeader {
    /// A header with the given fields.
    pub fn from_parts(magic_ver: u32, size: u16, gfh_type: GfhType) -> (r: Self)
        ensures
            r@ == (GfhHeaderModel { magic_ver, size, gfh_type }),
    {
        GfhHeader { magic_ver, size, gfh_type }
    }
}

} // verus!
