//! The FILE_INFO section, which every GFH file starts with.
use vstd::prelude::*;

use crate::bytes::{bytes_eq, le_u16_at, le_u32_at, read_array, read_u16, read_u32};
use crate::common::gfh::file::{Gfh, GfhError, GfhSigPadType};
use crate::common::gfh::header::{GfhHeader, GfhHeaderModel, GfhType, GFH_HEADER_MAGIC};
use crate::error::{Error, Result};
use crate::traits::{view_result, TryRead};

verus! {

/// The kind of file that a GFH file holds, stored as a little-endian `u16` code.
#[derive(Debug, Clone, Copy, PartialEq, Eq, Structural)]
pub enum GfhFileType {
    FileNone,
    ArmBl,
    ArmExtBl,
    DualmacDspBl,
    SctrlCert,
    ToolAuth,
    MtkDebugAuth,
    Epp,
    Reserved2,
    Reserved3,
    RootCert,
    ApBl,
    PrimaryMaui,
    SecondaryMaui,
    OnDemandPaging,
    ThirdRom,
    DspRom,
    CachedDspRom,
    PrimaryFactoryBin,
    SecondaryFactoryBin,
    Viva,
    LteDspRom,
    VMauiBinaryEnd,
    CustomPack,
    LanguagePack,
    JumpTable,
    VResourceBinaryEnd,
    FotaUe,
    ArmExtBlBackup,
    VMiscBinaryEnd,
    SecureRoS,
    SecureRoMe,
    VSecureRoEnd,
    CardDownloadPackage,
    ConfidentialBinary,
    VExternalFileEnd,
    FileSystem,
    VFileSystemBinaryEnd,
    BootCertCtrl,
    VSrdEnd,
    CustomerBin1,
    CustomerBin2,
    CustomerBin3,
    VCustomizedFileEnd,
    GfhFileTypeForMt6290,
    GfhFileEnd,
}

impl GfhFileType {
    /// The on-disk code.
    pub open spec fn spec_code(self) -> u16 {
        match self {
            GfhFileType::FileNone => 0x0000,
            GfhFileType::ArmBl => 0x0001,
            GfhFileType::ArmExtBl => 0x0002,
            GfhFileType::DualmacDspBl => 0x0003,
            GfhFileType::SctrlCert => 0x0004,
            GfhFileType::ToolAuth => 0x0005,
            GfhFileType::MtkDebugAuth => 0x0006,
            GfhFileType::Epp => 0x0007,
            GfhFileType::Reserved2 => 0x0008,
            GfhFileType::Reserved3 => 0x0009,
            GfhFileType::RootCert => 0x000a,
            GfhFileType::ApBl => 0x000b,
            GfhFileType::PrimaryMaui => 0x0100,
            GfhFileType::SecondaryMaui => 0x0101,
            GfhFileType::OnDemandPaging => 0x0102,
            GfhFileType::ThirdRom => 0x0103,
            GfhFileType::DspRom => 0x0104,
            GfhFileType::CachedDspRom => 0x0105,
            GfhFileType::PrimaryFactoryBin => 0x0106,
            GfhFileType::SecondaryFactoryBin => 0x0107,
            GfhFileType::Viva => 0x0108,
            GfhFileType::LteDspRom => 0x0109,
            GfhFileType::VMauiBinaryEnd => 0x017f,
            GfhFileType::CustomPack => 0x0180,
            GfhFileType::LanguagePack => 0x0181,
            GfhFileType::JumpTable => 0x0182,
            GfhFileType::VResourceBinaryEnd => 0x01ff,
            GfhFileType::FotaUe => 0x0200,
            GfhFileType::ArmExtBlBackup => 0x0201,
            GfhFileType::VMiscBinaryEnd => 0x0202,
            GfhFileType::SecureRoS => 0x0300,
            GfhFileType::SecureRoMe => 0x0301,
            GfhFileType::VSecureRoEnd => 0x0302,
            GfhFileType::CardDownloadPackage => 0x0400,
            GfhFileType::ConfidentialBinary => 0x0401,
            GfhFileType::VExternalFileEnd => 0x0402,
            GfhFileType::FileSystem => 0x0480,
            GfhFileType::VFileSystemBinaryEnd => 0x0481,
            GfhFileType::BootCertCtrl => 0x0500,
            GfhFileType::VSrdEnd => 0x0501,
            GfhFileType::CustomerBin1 => 0x7000,
            GfhFileType::CustomerBin2 => 0x7001,
            GfhFileType::CustomerBin3 => 0x7002,
            GfhFileType::VCustomizedFileEnd => 0x70ff,
            GfhFileType::GfhFileTypeForMt6290 => 0x8000,
            GfhFileType::GfhFileEnd => 0xffff,
        }
    }

    /// The variant that an on-disk code stands for, if any.
    pub open spec fn spec_from_code(v: u16) -> Option<GfhFileType> {
        if v == 0x0000 {
            Some(GfhFileType::FileNone)
        } else if v == 0x0001 {
            Some(GfhFileType::ArmBl)
        } else if v == 0x0002 {
            Some(GfhFileType::ArmExtBl)
        } else if v == 0x0003 {
            Some(GfhFileType::DualmacDspBl)
        } else if v == 0x0004 {
            Some(GfhFileType::SctrlCert)
        } else if v == 0x0005 {
            Some(GfhFileType::ToolAuth)
        } else if v == 0x0006 {
            Some(GfhFileType::MtkDebugAuth)
        } else if v == 0x0007 {
            Some(GfhFileType::Epp)
        } else if v == 0x0008 {
            Some(GfhFileType::Reserved2)
        } else if v == 0x0009 {
            Some(GfhFileType::Reserved3)
        } else if v == 0x000a {
            Some(GfhFileType::RootCert)
        } else if v == 0x000b {
            Some(GfhFileType::ApBl)
        } else if v == 0x0100 {
            Some(GfhFileType::PrimaryMaui)
        } else if v == 0x0101 {
            Some(GfhFileType::SecondaryMaui)
        } else if v == 0x0102 {
            Some(GfhFileType::OnDemandPaging)
        } else if v == 0x0103 {
            Some(GfhFileType::ThirdRom)
        } else if v == 0x0104 {
            Some(GfhFileType::DspRom)
        } else if v == 0x0105 {
            Some(GfhFileType::CachedDspRom)
        } else if v == 0x0106 {
            Some(GfhFileType::PrimaryFactoryBin)
        } else if v == 0x0107 {
            Some(GfhFileType::SecondaryFactoryBin)
        } else if v == 0x0108 {
            Some(GfhFileType::Viva)
        } else if v == 0x0109 {
            Some(GfhFileType::LteDspRom)
        } else if v == 0x017f {
            Some(GfhFileType::VMauiBinaryEnd)
        } else if v == 0x0180 {
            Some(GfhFileType::CustomPack)
        } else if v == 0x0181 {
            Some(GfhFileType::LanguagePack)
        } else if v == 0x0182 {
            Some(GfhFileType::JumpTable)
        } else if v == 0x01ff {
            Some(GfhFileType::VResourceBinaryEnd)
        } else if v == 0x0200 {
            Some(GfhFileType::FotaUe)
        } else if v == 0x0201 {
            Some(GfhFileType::ArmExtBlBackup)
        } else if v == 0x0202 {
            Some(GfhFileType::VMiscBinaryEnd)
        } else if v == 0x0300 {
            Some(GfhFileType::SecureRoS)
        } else if v == 0x0301 {
            Some(GfhFileType::SecureRoMe)
        } else if v == 0x0302 {
            Some(GfhFileType::VSecureRoEnd)
        } else if v == 0x0400 {
            Some(GfhFileType::CardDownloadPackage)
        } else if v == 0x0401 {
            Some(GfhFileType::ConfidentialBinary)
        } else if v == 0x0402 {
            Some(GfhFileType::VExternalFileEnd)
        } else if v == 0x0480 {
            Some(GfhFileType::FileSystem)
        } else if v == 0x0481 {
            Some(GfhFileType::VFileSystemBinaryEnd)
        } else if v == 0x0500 {
            Some(GfhFileType::BootCertCtrl)
        } else if v == 0x0501 {
            Some(GfhFileType::VSrdEnd)
        } else if v == 0x7000 {
            Some(GfhFileType::CustomerBin1)
        } else if v == 0x7001 {
            Some(GfhFileType::CustomerBin2)
        } else if v == 0x7002 {
            Some(GfhFileType::CustomerBin3)
        } else if v == 0x70ff {
            Some(GfhFileType::VCustomizedFileEnd)
        } else if v == 0x8000 {
            Some(GfhFileType::GfhFileTypeForMt6290)
        } else if v == 0xffff {
            Some(GfhFileType::GfhFileEnd)
        } else {
            None
        }
    }

    pub fn code(self) -> (r: u16)
        ensures
            r == self.spec_code(),
    {
        match self {
            GfhFileType::FileNone => 0x0000,
            GfhFileType::ArmBl => 0x0001,
            GfhFileType::ArmExtBl => 0x0002,
            GfhFileType::DualmacDspBl => 0x0003,
            GfhFileType::SctrlCert => 0x0004,
            GfhFileType::ToolAuth => 0x0005,
            GfhFileType::MtkDebugAuth => 0x0006,
            GfhFileType::Epp => 0x0007,
            GfhFileType::Reserved2 => 0x0008,
            GfhFileType::Reserved3 => 0x0009,
            GfhFileType::RootCert => 0x000a,
            GfhFileType::ApBl => 0x000b,
            GfhFileType::PrimaryMaui => 0x0100,
            GfhFileType::SecondaryMaui => 0x0101,
            GfhFileType::OnDemandPaging => 0x0102,
            GfhFileType::ThirdRom => 0x0103,
            GfhFileType::DspRom => 0x0104,
            GfhFileType::CachedDspRom => 0x0105,
            GfhFileType::PrimaryFactoryBin => 0x0106,
            GfhFileType::SecondaryFactoryBin => 0x0107,
            GfhFileType::Viva => 0x0108,
            GfhFileType::LteDspRom => 0x0109,
            GfhFileType::VMauiBinaryEnd => 0x017f,
            GfhFileType::CustomPack => 0x0180,
            GfhFileType::LanguagePack => 0x0181,
            GfhFileType::JumpTable => 0x0182,
            GfhFileType::VResourceBinaryEnd => 0x01ff,
            GfhFileType::FotaUe => 0x0200,
            GfhFileType::ArmExtBlBackup => 0x0201,
            GfhFileType::VMiscBinaryEnd => 0x0202,
            GfhFileType::SecureRoS => 0x0300,
            GfhFileType::SecureRoMe => 0x0301,
            GfhFileType::VSecureRoEnd => 0x0302,
            GfhFileType::CardDownloadPackage => 0x0400,
            GfhFileType::ConfidentialBinary => 0x0401,
            GfhFileType::VExternalFileEnd => 0x0402,
            GfhFileType::FileSystem => 0x0480,
            GfhFileType::VFileSystemBinaryEnd => 0x0481,
            GfhFileType::BootCertCtrl => 0x0500,
            GfhFileType::VSrdEnd => 0x0501,
            GfhFileType::CustomerBin1 => 0x7000,
            GfhFileType::CustomerBin2 => 0x7001,
            GfhFileType::CustomerBin3 => 0x7002,
            GfhFileType::VCustomizedFileEnd => 0x70ff,
            GfhFileType::GfhFileTypeForMt6290 => 0x8000,
            GfhFileType::GfhFileEnd => 0xffff,
        }
    }

    pub fn from_code(v: u16) -> (r: Option<GfhFileType>)
        ensures
            r == Self::spec_from_code(v),
    {
        if v == 0x0000 {
            Some(GfhFileType::FileNone)
        } else if v == 0x0001 {
            Some(GfhFileType::ArmBl)
        } else if v == 0x0002 {
            Some(GfhFileType::ArmExtBl)
        } else if v == 0x0003 {
            Some(GfhFileType::DualmacDspBl)
        } else if v == 0x0004 {
            Some(GfhFileType::SctrlCert)
        } else if v == 0x0005 {
            Some(GfhFileType::ToolAuth)
        } else if v == 0x0006 {
            Some(GfhFileType::MtkDebugAuth)
        } else if v == 0x0007 {
            Some(GfhFileType::Epp)
        } else if v == 0x0008 {
            Some(GfhFileType::Reserved2)
        } else if v == 0x0009 {
            Some(GfhFileType::Reserved3)
        } else if v == 0x000a {
            Some(GfhFileType::RootCert)
        } else if v == 0x000b {
            Some(GfhFileType::ApBl)
        } else if v == 0x0100 {
            Some(GfhFileType::PrimaryMaui)
        } else if v == 0x0101 {
            Some(GfhFileType::SecondaryMaui)
        } else if v == 0x0102 {
            Some(GfhFileType::OnDemandPaging)
        } else if v == 0x0103 {
            Some(GfhFileType::ThirdRom)
        } else if v == 0x0104 {
            Some(GfhFileType::DspRom)
        } else if v == 0x0105 {
            Some(GfhFileType::CachedDspRom)
        } else if v == 0x0106 {
            Some(GfhFileType::PrimaryFactoryBin)
        } else if v == 0x0107 {
            Some(GfhFileType::SecondaryFactoryBin)
        } else if v == 0x0108 {
            Some(GfhFileType::Viva)
        } else if v == 0x0109 {
            Some(GfhFileType::LteDspRom)
        } else if v == 0x017f {
            Some(GfhFileType::VMauiBinaryEnd)
        } else if v == 0x0180 {
            Some(GfhFileType::CustomPack)
        } else if v == 0x0181 {
            Some(GfhFileType::LanguagePack)
        } else if v == 0x0182 {
            Some(GfhFileType::JumpTable)
        } else if v == 0x01ff {
            Some(GfhFileType::VResourceBinaryEnd)
        } else if v == 0x0200 {
            Some(GfhFileType::FotaUe)
        } else if v == 0x0201 {
            Some(GfhFileType::ArmExtBlBackup)
        } else if v == 0x0202 {
            Some(GfhFileType::VMiscBinaryEnd)
        } else if v == 0x0300 {
            Some(GfhFileType::SecureRoS)
        } else if v == 0x0301 {
            Some(GfhFileType::SecureRoMe)
        } else if v == 0x0302 {
            Some(GfhFileType::VSecureRoEnd)
        } else if v == 0x0400 {
            Some(GfhFileType::CardDownloadPackage)
        } else if v == 0x0401 {
            Some(GfhFileType::ConfidentialBinary)
        } else if v == 0x0402 {
            Some(GfhFileType::VExternalFileEnd)
        } else if v == 0x0480 {
            Some(GfhFileType::FileSystem)
        } else if v == 0x0481 {
            Some(GfhFileType::VFileSystemBinaryEnd)
        } else if v == 0x0500 {
            Some(GfhFileType::BootCertCtrl)
        } else if v == 0x0501 {
            Some(GfhFileType::VSrdEnd)
        } else if v == 0x7000 {
            Some(GfhFileType::CustomerBin1)
        } else if v == 0x7001 {
            Some(GfhFileType::CustomerBin2)
        } else if v == 0x7002 {
            Some(GfhFileType::CustomerBin3)
        } else if v == 0x70ff {
            Some(GfhFileType::VCustomizedFileEnd)
        } else if v == 0x8000 {
            Some(GfhFileType::GfhFileTypeForMt6290)
        } else if v == 0xffff {
            Some(GfhFileType::GfhFileEnd)
        } else {
            None
        }
    }
}

/// How the file is signed, stored as a one-byte code.
#[derive(Debug, Clone, Copy, PartialEq, Eq, Structural)]
pub enum GfhSigType {
    Unsigned,
    Sha256,
    Single,
    SingleAndSha256,
    Multi,
    CertChain,
}

impl GfhSigType {
    /// The on-disk code.
    pub open spec fn spec_code(self) -> u8 {
        match self {
            GfhSigType::Unsigned => 0x0000,
            GfhSigType::Sha256 => 0x0001,
            GfhSigType::Single => 0x0002,
            GfhSigType::SingleAndSha256 => 0x0003,
            GfhSigType::Multi => 0x0004,
            GfhSigType::CertChain => 0x0005,
        }
    }

    /// The variant that an on-disk code stands for, if any.
    pub open spec fn spec_from_code(v: u8) -> Option<GfhSigType> {
        if v == 0x0000 {
            Some(GfhSigType::Unsigned)
        } else if v == 0x0001 {
            Some(GfhSigType::Sha256)
        } else if v == 0x0002 {
            Some(GfhSigType::Single)
        } else if v == 0x0003 {
            Some(GfhSigType::SingleAndSha256)
        } else if v == 0x0004 {
            Some(GfhSigType::Multi)
        } else if v == 0x0005 {
            Some(GfhSigType::CertChain)
        } else {
            None
        }
    }

    pub fn code(self) -> (r: u8)
        ensures
            r == self.spec_code(),
    {
        match self {
            GfhSigType::Unsigned => 0x0000,
            GfhSigType::Sha256 => 0x0001,
            GfhSigType::Single => 0x0002,
            GfhSigType::SingleAndSha256 => 0x0003,
            GfhSigType::Multi => 0x0004,
            GfhSigType::CertChain => 0x0005,
        }
    }

    pub fn from_code(v: u8) -> (r: Option<GfhSigType>)
        ensures
            r == Self::spec_from_code(v),
    {
        if v == 0x0000 {
            Some(GfhSigType::Unsigned)
        } else if v == 0x0001 {
            Some(GfhSigType::Sha256)
        } else if v == 0x0002 {
            Some(GfhSigType::Single)
        } else if v == 0x0003 {
            Some(GfhSigType::SingleAndSha256)
        } else if v == 0x0004 {
            Some(GfhSigType::Multi)
        } else if v == 0x0005 {
            Some(GfhSigType::CertChain)
        } else {
            None
        }
    }
}

/// The storage the file is meant for, stored as a one-byte code.
#[derive(Debug, Clone, Copy, PartialEq, Eq, Structural)]
pub enum GfhFlashDev {
    Unspecified,
    Nor,
    NandSeq,
    NandTtbl,
    NandFdm50,
    EmmcBoot,
    EmmcData,
    Sf,
    Xboot,
    SpiNand,
    Ufs,
    Combo,
}

impl GfhFlashDev {
    /// The on-disk code.
    pub open spec fn spec_code(self) -> u8 {
        match self {
            GfhFlashDev::Unspecified => 0x0000,
            GfhFlashDev::Nor => 0x0001,
            GfhFlashDev::NandSeq => 0x0002,
            GfhFlashDev::NandTtbl => 0x0003,
            GfhFlashDev::NandFdm50 => 0x0004,
            GfhFlashDev::EmmcBoot => 0x0005,
            GfhFlashDev::EmmcData => 0x0006,
            GfhFlashDev::Sf => 0x0007,
            GfhFlashDev::Xboot => 0x0008,
            GfhFlashDev::SpiNand => 0x0009,
            GfhFlashDev::Ufs => 0x000c,
            GfhFlashDev::Combo => 0x000e,
        }
    }

    /// The variant that an on-disk code stands for, if any.
    pub open spec fn spec_from_code(v: u8) -> Option<GfhFlashDev> {
        if v == 0x0000 {
            Some(GfhFlashDev::Unspecified)
        } else if v == 0x0001 {
            Some(GfhFlashDev::Nor)
        } else if v == 0x0002 {
            Some(GfhFlashDev::NandSeq)
        } else if v == 0x0003 {
            Some(GfhFlashDev::NandTtbl)
        } else if v == 0x0004 {
            Some(GfhFlashDev::NandFdm50)
        } else if v == 0x0005 {
            Some(GfhFlashDev::EmmcBoot)
        } else if v == 0x0006 {
            Some(GfhFlashDev::EmmcData)
        } else if v == 0x0007 {
            Some(GfhFlashDev::Sf)
        } else if v == 0x0008 {
            Some(GfhFlashDev::Xboot)
        } else if v == 0x0009 {
            Some(GfhFlashDev::SpiNand)
        } else if v == 0x000c {
            Some(GfhFlashDev::Ufs)
        } else if v == 0x000e {
            Some(GfhFlashDev::Combo)
        } else {
            None
        }
    }

    pub fn code(self) -> (r: u8)
        ensures
            r == self.spec_code(),
    {
        match self {
            GfhFlashDev::Unspecified => 0x0000,
            GfhFlashDev::Nor => 0x0001,
            GfhFlashDev::NandSeq => 0x0002,
            GfhFlashDev::NandTtbl => 0x0003,
            GfhFlashDev::NandFdm50 => 0x0004,
            GfhFlashDev::EmmcBoot => 0x0005,
            GfhFlashDev::EmmcData => 0x0006,
            GfhFlashDev::Sf => 0x0007,
            GfhFlashDev::Xboot => 0x0008,
            GfhFlashDev::SpiNand => 0x0009,
            GfhFlashDev::Ufs => 0x000c,
            GfhFlashDev::Combo => 0x000e,
        }
    }

    pub fn from_code(v: u8) -> (r: Option<GfhFlashDev>)
        ensures
            r == Self::spec_from_code(v),
    {
        if v == 0x0000 {
            Some(GfhFlashDev::Unspecified)
        } else if v == 0x0001 {
            Some(GfhFlashDev::Nor)
        } else if v == 0x0002 {
            Some(GfhFlashDev::NandSeq)
        } else if v == 0x0003 {
            Some(GfhFlashDev::NandTtbl)
        } else if v == 0x0004 {
            Some(GfhFlashDev::NandFdm50)
        } else if v == 0x0005 {
            Some(GfhFlashDev::EmmcBoot)
        } else if v == 0x0006 {
            Some(GfhFlashDev::EmmcData)
        } else if v == 0x0007 {
            Some(GfhFlashDev::Sf)
        } else if v == 0x0008 {
            Some(GfhFlashDev::Xboot)
        } else if v == 0x0009 {
            Some(GfhFlashDev::SpiNand)
        } else if v == 0x000c {
            Some(GfhFlashDev::Ufs)
        } else if v == 0x000e {
            Some(GfhFlashDev::Combo)
        } else {
            None
        }
    }
}

/// The fields of a [`GfhFileInfo`] as mathematical values.
pub struct GfhFileInfoModel {
    pub header: GfhHeaderModel,
    pub identifier: Seq<u8>,
    pub file_ver: u32,
    pub file_type: GfhFileType,
    pub flash_dev: GfhFlashDev,
    pub sig_type: GfhSigType,
    pub load_addr: u32,
    pub file_len: u32,
    pub max_size: u32,
    pub content_offset: u32,
    pub sig_len: u32,
    pub jump_offset: u32,
    pub attr: u32,
}

/// Size of the FILE_INFO section on disk.
pub const GFH_FILE_INFO_SIZE: usize = 56;

/// The identifier every FILE_INFO section carries: `"FILE_INFO"` padded with NULs to 12 bytes.
pub open spec fn file_info_identifier() -> Seq<u8> {
    seq![0x46u8, 0x49u8, 0x4cu8, 0x45u8, 0x5fu8, 0x49u8, 0x4eu8, 0x46u8, 0x4fu8, 0u8, 0u8, 0u8]
}

impl GfhFileInfoModel {
    /// The offsets do not fit the file: the content offset or the signature length exceeds the
    /// file length, or both together do, or a nonzero jump offset lies before the content or
    /// at or after the signature.
    pub open spec fn offsets_out_of_bounds(self) -> bool {
        ||| self.content_offset > self.file_len
        ||| self.sig_len > self.file_len
        ||| self.content_offset + self.sig_len > self.file_len
        ||| ((self.jump_offset < self.content_offset || self.file_len - self.sig_len
            <= self.jump_offset) && self.jump_offset != 0)
    }

    /// What validating the section gives.
    pub open spec fn spec_validate(self) -> Result<()> {
        match self.header.spec_validate() {
            Err(e) => Err(e),
            Ok(_) => if self.identifier != file_info_identifier() {
                Err(Error::Gfh(GfhError::FileInvalidIdentifier))
            } else if self.file_len > self.max_size {
                Err(Error::Gfh(GfhError::FileLengthOverflow(self.file_len, u32::MAX)))
            } else if self.offsets_out_of_bounds() {
                Err(
                    Error::Gfh(
                        GfhError::FileOffsetOutOfBounds(
                            self.content_offset,
                            self.sig_len,
                            self.file_len,
                        ),
                    ),
                )
            } else {
                Ok(())
            },
        }
    }

    /// Length of the content: what the file holds after the content offset, less the signature.
    pub open spec fn content_len(self) -> int {
        self.file_len - self.content_offset - self.sig_len
    }

    /// What reading a FILE_INFO section from `s` gives.
    pub open spec fn spec_parse(s: Seq<u8>) -> Result<GfhFileInfoModel> {
        if s.len() < GFH_FILE_INFO_SIZE {
            Err(Error::Gfh(GfhError::TooShort(s.len() as usize, GFH_FILE_INFO_SIZE)))
        } else {
            match (
                GfhType::spec_from_code(le_u16_at(s, 6)),
                GfhFileType::spec_from_code(le_u16_at(s, 24)),
                GfhFlashDev::spec_from_code(s[26]),
                GfhSigType::spec_from_code(s[27]),
            ) {
                (Some(gfh_type), Some(file_type), Some(flash_dev), Some(sig_type)) => {
                    let m = GfhFileInfoModel {
                        header: GfhHeaderModel {
                            magic_ver: le_u32_at(s, 0),
                            size: le_u16_at(s, 4),
                            gfh_type,
                        },
                        identifier: s.subrange(8, 20),
                        file_ver: le_u32_at(s, 20),
                        file_type,
                        flash_dev,
                        sig_type,
                        load_addr: le_u32_at(s, 28),
                        file_len: le_u32_at(s, 32),
                        max_size: le_u32_at(s, 36),
                        content_offset: le_u32_at(s, 40),
                        sig_len: le_u32_at(s, 44),
                        jump_offset: le_u32_at(s, 48),
                        attr: le_u32_at(s, 52),
                    };
                    match m.spec_validate() {
                        Ok(_) => Ok(m),
                        Err(e) => Err(e),
                    }
                },
                _ => Err(Error::Zerocopy),
            }
        }
    }
}

/// The FILE_INFO section: what the file is, where it is loaded and how its content and
/// signature lie in it.
#[derive(Debug, Clone)]
pub struct GfhFileInfo {
    header: GfhHeader,
    identifier: [u8; 12],
    file_ver: u32,
    file_type: GfhFileType,
    flash_dev: GfhFlashDev,
    sig_type: GfhSigType,
    load_addr: u32,
    file_len: u32,
    max_size: u32,
    content_offset: u32,
    sig_len: u32,
    jump_offset: u32,
    attr: u32,
}

impl View for GfhFileInfo {
    type V = GfhFileInfoModel;

    closed spec fn view(&self) -> GfhFileInfoModel {
        GfhFileInfoModel {
            header: self.header@,
            identifier: self.identifier@,
            file_ver: self.file_ver,
            file_type: self.file_type,
            flash_dev: self.flash_dev,
            sig_type: self.sig_type,
            load_addr: self.load_addr,
            file_len: self.file_len,
            max_size: self.max_size,
            content_offset: self.content_offset,
            sig_len: self.sig_len,
            jump_offset: self.jump_offset,
            attr: self.attr,
        }
    }
}

impl GfhFileInfo {
    pub const MAX_SIZE: u32 = u32::MAX;
    pub const PSS_PAD_ATTR: u32 = 0xC2600000;

    fn identifier_bytes() -> (r: [u8; 12])
        ensures
            r@ == file_info_identifier(),
    {
        let r = [0x46u8, 0x49u8, 0x4cu8, 0x45u8, 0x5fu8, 0x49u8, 0x4eu8, 0x46u8, 0x4fu8, 0u8, 0u8, 0u8];
        assert(r@ =~= file_info_identifier());
        r
    }

    pub fn file_ver(&self) -> (r: u32)
        ensures
            r == self@.file_ver,
    {
        self.file_ver
    }

    pub fn file_type(&self) -> (r: GfhFileType)
        ensures
            r == self@.file_type,
    {
        self.file_type
    }

    pub fn sig_type(&self) -> (r: GfhSigType)
        ensures
            r == self@.sig_type,
    {
        self.sig_type
    }

    pub fn flash_dev(&self) -> (r: GfhFlashDev)
        ensures
            r == self@.flash_dev,
    {
        self.flash_dev
    }

    pub fn load_addr(&self) -> (r: u32)
        ensures
            r == self@.load_addr,
    {
        self.load_addr
    }

    pub fn max_size(&self) -> (r: usize)
        ensures
            r == self@.max_size,
    {
        self.max_size as usize
    }

    pub fn file_len(&self) -> (r: usize)
        ensures
            r == self@.file_len,
    {
        self.file_len as usize
    }

    pub fn content_offset(&self) -> (r: u32)
        ensures
            r == self@.content_offset,
    {
        self.content_offset
    }

    pub fn content_len(&self) -> (r: usize)
        requires
            self@.content_offset + self@.sig_len <= self@.file_len,
        ensures
            r == self@.content_len(),
    {
        self.file_len as usize - self.content_offset as usize - self.sig_len as usize
    }

    pub fn sig_len(&self) -> (r: u32)
        ensures
            r == self@.sig_len,
    {
        self.sig_len
    }

    pub fn jump_offset(&self) -> (r: u32)
        ensures
            r == self@.jump_offset,
    {
        self.jump_offset
    }

    pub fn attr(&self) -> (r: u32)
        ensures
            r == self@.attr,
    {
        self.attr
    }

    /// Sets the padding scheme bits in the upper half of the attributes.
    pub fn set_pad_type(&mut self, pad_type: GfhSigPadType)
        ensures
            final(self)@ == (GfhFileInfoModel {
                attr: (old(self)@.attr & 0xFFFF) | match pad_type {
                    GfhSigPadType::M1 => 0u32,
                    GfhSigPadType::Pss => Self::PSS_PAD_ATTR,
                },
                ..old(self)@
            }),
    {
        let pad_attr: u32 = match pad_type {
            GfhSigPadType::M1 => 0,
            GfhSigPadType::Pss => Self::PSS_PAD_ATTR,
        };
        self.attr = (self.attr & 0xFFFF) | pad_attr;
    }

    pub fn set_sig_type(&mut self, sig_type: GfhSigType)
        ensures
            final(self)@ == (GfhFileInfoModel { sig_type, ..old(self)@ }),
    {
        self.sig_type = sig_type;
    }

    pub fn set_flash_dev(&mut self, flash_dev: GfhFlashDev)
        ensures
            final(self)@ == (GfhFileInfoModel { flash_dev, ..old(self)@ }),
    {
        self.flash_dev = flash_dev;
    }

    pub fn set_file_type(&mut self, file_type: GfhFileType)
        ensures
            final(self)@ == (GfhFileInfoModel { file_type, ..old(self)@ }),
    {
        self.file_type = file_type;
    }

    pub fn set_file_ver(&mut self, file_ver: u32)
        ensures
            final(self)@ == (GfhFileInfoModel { file_ver, ..old(self)@ }),
    {
        self.file_ver = file_ver;
    }

    pub fn set_load_addr(&mut self, load_addr: u32)
        ensures
            final(self)@ == (GfhFileInfoModel { load_addr, ..old(self)@ }),
    {
        self.load_addr = load_addr;
    }

    /// Sets the file length for a content of the given size: the content, this section and
    /// the signature.
    pub fn set_file_len(&mut self, content_size: u32)
        requires
            content_size + GFH_FILE_INFO_SIZE + old(self)@.sig_len <= u32::MAX,
        ensures
            final(self)@ == (GfhFileInfoModel {
                file_len: (content_size + GFH_FILE_INFO_SIZE + old(self)@.sig_len) as u32,
                ..old(self)@
            }),
    {
        self.file_len = content_size + GFH_FILE_INFO_SIZE as u32 + self.sig_len;
    }

    pub fn set_max_size(&mut self, max_size: u32)
        ensures
            final(self)@ == (GfhFileInfoModel { max_size, ..old(self)@ }),
    {
        self.max_size = max_size;
    }

    pub fn set_content_offset(&mut self, content_offset: u32)
        ensures
            final(self)@ == (GfhFileInfoModel { content_offset, ..old(self)@ }),
    {
        self.content_offset = content_offset;
    }

    /// Sets the signature length, growing or shrinking the file length by the difference.
    pub fn set_sig_len(&mut self, sig_len: u32)
        requires
            old(self)@.file_len + sig_len <= u32::MAX,
            old(self)@.file_len + sig_len >= old(self)@.sig_len,
        ensures
            final(self)@ == (GfhFileInfoModel {
                file_len: (old(self)@.file_len + sig_len - old(self)@.sig_len) as u32,
                sig_len,
                ..old(self)@
            }),
    {
        self.file_len = self.file_len + sig_len - self.sig_len;
        self.sig_len = sig_len;
    }

    pub fn set_jump_offset(&mut self, jump_offset: u32)
        ensures
            final(self)@ == (GfhFileInfoModel { jump_offset, ..old(self)@ }),
    {
        self.jump_offset = jump_offset;
    }
}

impl Gfh for GfhFileInfo {
    open spec fn spec_header(&self) -> GfhHeaderModel {
        self@.header
    }

    open spec fn spec_validate(&self) -> Result<()> {
        self@.spec_validate()
    }

    fn header(&self) -> (r: &GfhHeader)
        ensures
            r@ == self@.header,
    {
        &self.header
    }

    /// Checks the header, the identifier and that the length and offsets fit together.
    fn validate(&self) -> (r: Result<()>)
        ensures
            r == self.spec_validate(),
    {
        self.header.validate()?;
        let id = Self::identifier_bytes();
        if !bytes_eq(self.identifier.as_slice(), id.as_slice()) {
            return Err(Error::Gfh(GfhError::FileInvalidIdentifier));
        }
        if self.file_len > self.max_size {
            return Err(Error::Gfh(GfhError::FileLengthOverflow(self.file_len, Self::MAX_SIZE)));
        }
        if self.content_offset > self.file_len || self.sig_len > self.file_len
            || self.content_offset as u64 + self.sig_len as u64 > self.file_len as u64 || ((
        self.jump_offset < self.content_offset || self.file_len - self.sig_len <= self.jump_offset)
            && self.jump_offset != 0) {
            return Err(
                Error::Gfh(
                    GfhError::FileOffsetOutOfBounds(
                        self.content_offset,
                        self.sig_len,
                        self.file_len,
                    ),
                ),
            );
        }
        Ok(())
    }
}

impl Default for GfhFileInfo {
    /// An empty FILE_INFO section: right header and identifier, every other field zero or none.
    fn default() -> (r: Self)
        ensures
            r@ == (GfhFileInfoModel {
                header: GfhHeaderModel {
                    magic_ver: 0x0100_0000 | GFH_HEADER_MAGIC,
                    size: GFH_FILE_INFO_SIZE as u16,
                    gfh_type: GfhType::FileInfo,
                },
                identifier: file_info_identifier(),
                file_ver: 0,
                file_type: GfhFileType::FileNone,
                flash_dev: GfhFlashDev::Unspecified,
                sig_type: GfhSigType::Unsigned,
                load_addr: 0,
                file_len: 0,
                max_size: 0,
                content_offset: 0,
                sig_len: 0,
                jump_offset: 0,
                attr: 0,
            }),
    {
        Self {
            header: GfhHeader::new(GfhType::FileInfo, GFH_FILE_INFO_SIZE as u16),
            identifier: Self::identifier_bytes(),
            file_ver: 0,
            file_type: GfhFileType::FileNone,
            flash_dev: GfhFlashDev::Unspecified,
            sig_type: GfhSigType::Unsigned,
            load_addr: 0,
            file_len: 0,
            max_size: 0,
            content_offset: 0,
            sig_len: 0,
            jump_offset: 0,
            attr: 0,
        }
    }
}

impl<'a> TryRead<'a> for GfhFileInfo {
    fn try_read(data: &'a [u8]) -> (r: Result<Self>)
        ensures
            view_result(r) == GfhFileInfoModel::spec_parse(data@),
    {
        if data.len() < GFH_FILE_INFO_SIZE {
            return Err(Error::Gfh(GfhError::TooShort(data.len(), GFH_FILE_INFO_SIZE)));
        }
        let gfh_type = GfhType::from_code(read_u16(data, 6));
        let file_type = GfhFileType::from_code(read_u16(data, 24));
        let flash_dev = GfhFlashDev::from_code(data[26]);
        let sig_type = GfhSigType::from_code(data[27]);
        let (gfh_type, file_type, flash_dev, sig_type) = match (
            gfh_type,
            file_type,
            flash_dev,
            sig_type,
        ) {
            (Some(a), Some(b), Some(c), Some(d)) => (a, b, c, d),
            _ => return Err(Error::Zerocopy),
        };
        let file_info = GfhFileInfo {
            header: GfhHeader::from_parts(read_u32(data, 0), read_u16(data, 4), gfh_type),
            identifier: read_array(data, 8),
            file_ver: read_u32(data, 20),
            file_type,
            flash_dev,
            sig_type,
            load_addr: read_u32(data, 28),
            file_len: read_u32(data, 32),
            max_size: read_u32(data, 36),
            content_offset: read_u32(data, 40),
            sig_len: read_u32(data, 44),
            jump_offset: read_u32(data, 48),
            attr: read_u32(data, 52),
        };
        file_info.validate()?;
        Ok(file_info)
    }
}

/// A FILE_INFO section that passes validation splits the file after the content offset into
/// the content and the signature, and its content offset and content length lie within the
/// file.
pub proof fn lemma_file_len_split(m: GfhFileInfoModel)
    requires
        m.spec_validate() is Ok,
    ensures
        m.content_len() + m.sig_len == m.file_len - m.content_offset,
        m.content_offset <= m.file_len,
        0 <= m.content_len() <= m.file_len,
{
}

} // verus!
