//! GFH files: a FILE_INFO section, further sections, the content and a signature.
use vstd::prelude::*;

use crate::bytes::{le_u16_at, le_u16s_at, le_u32_at, read_u16, read_u16_array, read_u32};
use crate::common::gfh::brom_sec_cfg::{GfhBromSecCfg, GfhBromSecCfgModel};
use crate::common::gfh::file_info::{GfhFileInfo, GfhFileInfoModel, GfhSigType, GFH_FILE_INFO_SIZE};
use crate::common::gfh::header::{GfhHeader, GfhHeaderModel, GfhType};
use crate::common::gfh::tool_auth::{GfhToolAuth, GfhToolAuthModel};
use crate::error::{Error, Result};
use crate::traits::{view_result, TryRead};

verus! {

#[derive(Debug, PartialEq, Eq, Structural)]
pub enum GfhError {
    /// The data is too short for the section (the order of the two lengths follows each
    /// section's reader).
    TooShort(usize, usize),
    /// Expected magic, found magic.
    InvalidHeaderMagic(u32, u32),
    /// Expected kind, found kind.
    InvalidType(GfhType, GfhType),
    FileInvalidIdentifier,
    /// File length, largest allowed size.
    FileLengthOverflow(u32, u32),
    /// Content offset, signature length, file length.
    FileOffsetOutOfBounds(u32, u32, u32),
    /// Number of DA hashes, largest allowed number.
    ToolAuthDaHashNumTooLarge(u32, u32),
    /// Number of BROM-verified hashes, number of DA hashes.
    ToolAuthBromVerifiedTooLarge(u32, u32),
}

/// Signature padding scheme.
#[derive(Debug, Clone, Copy, PartialEq, Eq, Structural)]
pub enum GfhSigPadType {
    M1,
    Pss,
}

/// A GFH section.
pub trait Gfh {
    /// The section's header.
    spec fn spec_header(&self) -> GfhHeaderModel;

    /// What validating the section gives.
    spec fn spec_validate(&self) -> Result<()>;

    fn header(&self) -> (r: &GfhHeader)
        ensures
            r@ == self.spec_header(),
    ;

    /// The size of the whole section, header included.
    fn size(&self) -> (r: usize)
        ensures
            r == self.spec_header().size,
    {
        self.header().size() as usize
    }

    fn type_id(&self) -> (r: GfhType)
        ensures
            r == self.spec_header().gfh_type,
    {
        self.header().gfh_type()
    }

    fn validate(&self) -> (r: Result<()>)
        ensures
            r == self.spec_validate(),
    ;
}

} // verus!

verus! {

/// The fields of a [`CtM1Key`] as mathematical values.
pub struct CtM1KeyModel {
    pub e_len: u32,
    pub n_len: u32,
    pub m_coeff: u16,
    pub cut_length: u16,
    pub e_key: Seq<u16>,
    pub n_key: Seq<u16>,
}

/// Size of a key on disk.
pub const CT_M1_KEY_SIZE: usize = 524;

/// The first `n` values of `key`, the rest of 128 filled with zeros.
pub open spec fn padded_key(key: Seq<u16>) -> Seq<u16> {
    Seq::new(128, |i: int| if i < key.len() { key[i] } else { 0u16 })
}

impl CtM1KeyModel {
    /// The key's decoding from `s`, which must hold at least the key's size.
    pub open spec fn spec_decode(s: Seq<u8>) -> CtM1KeyModel {
        CtM1KeyModel {
            e_len: le_u32_at(s, 0),
            n_len: le_u32_at(s, 4),
            m_coeff: le_u16_at(s, 8),
            cut_length: le_u16_at(s, 10),
            e_key: le_u16s_at(s, 12, 128),
            n_key: le_u16s_at(s, 268, 128),
        }
    }

    /// What reading a key from `s` gives.
    pub open spec fn spec_parse(s: Seq<u8>) -> Result<CtM1KeyModel> {
        if s.len() < CT_M1_KEY_SIZE {
            Err(Error::Gfh(GfhError::TooShort(CT_M1_KEY_SIZE, s.len() as usize)))
        } else {
            Ok(Self::spec_decode(s))
        }
    }
}

/// An RSA public key as the boot ROM stores it: exponent and modulus as arrays of 128
/// 16-bit words, with their lengths in bytes.
#[derive(Debug)]
pub struct CtM1Key {
    e_len: u32,
    n_len: u32,
    m_coeff: u16,
    cut_length: u16,
    e_key: [u16; 128],
    n_key: [u16; 128],
}

impl View for CtM1Key {
    type V = CtM1KeyModel;

    closed spec fn view(&self) -> CtM1KeyModel {
        CtM1KeyModel {
            e_len: self.e_len,
            n_len: self.n_len,
            m_coeff: self.m_coeff,
            cut_length: self.cut_length,
            e_key: self.e_key@,
            n_key: self.n_key@,
        }
    }
}

impl CtM1Key {
    /// A key always holds 128 exponent words and 128 modulus words.
    pub proof fn lemma_wf(&self)
        ensures
            self@.e_key.len() == 128,
            self@.n_key.len() == 128,
    {
    }

    /// A key with the given exponent and modulus words (at most 128 each); the lengths are
    /// set to their sizes in bytes.
    pub fn new(e_key: &[u16], n_key: &[u16], m_coeff: u16, cut_length: u16) -> (r: Self)
        requires
            e_key@.len() <= 128,
            n_key@.len() <= 128,
        ensures
            r@ == (CtM1KeyModel {
                e_len: (e_key@.len() * 2) as u32,
                n_len: (n_key@.len() * 2) as u32,
                m_coeff,
                cut_length,
                e_key: padded_key(e_key@),
                n_key: padded_key(n_key@),
            }),
    {
        let mut e_key_arr: [u16; 128] = [0u16; 128];
        let mut n_key_arr: [u16; 128] = [0u16; 128];
        let mut i: usize = 0;
        while i < 128
            invariant
                e_key@.len() <= 128,
                n_key@.len() <= 128,
                i <= 128,
                e_key_arr@.len() == 128,
                n_key_arr@.len() == 128,
                forall|j: int| 0 <= j < i ==> e_key_arr@[j] == padded_key(e_key@)[j],
                forall|j: int| 0 <= j < i ==> n_key_arr@[j] == padded_key(n_key@)[j],
            decreases 128 - i,
        {
            if i < e_key.len() {
                e_key_arr[i] = e_key[i];
            } else {
                e_key_arr[i] = 0;
            }
            if i < n_key.len() {
                n_key_arr[i] = n_key[i];
            } else {
                n_key_arr[i] = 0;
            }
            i = i + 1;
        }
        assert(e_key_arr@ =~= padded_key(e_key@));
        assert(n_key_arr@ =~= padded_key(n_key@));
        Self {
            e_len: (e_key.len() * 2) as u32,
            n_len: (n_key.len() * 2) as u32,
            m_coeff,
            cut_length,
            e_key: e_key_arr,
            n_key: n_key_arr,
        }
    }

    pub fn e_len(&self) -> (r: u32)
        ensures
            r == self@.e_len,
    {
        self.e_len
    }

    pub fn n_len(&self) -> (r: u32)
        ensures
            r == self@.n_len,
    {
        self.n_len
    }

    pub fn m_coeff(&self) -> (r: u16)
        ensures
            r == self@.m_coeff,
    {
        self.m_coeff
    }

    pub fn cut_length(&self) -> (r: u16)
        ensures
            r == self@.cut_length,
    {
        self.cut_length
    }

    /// The exponent words that the exponent length covers.
    pub fn e_key(&self) -> (r: &[u16])
        requires
            self@.e_len / 2 <= 128,
        ensures
            r@ == self@.e_key.take((self@.e_len / 2) as int),
            r@.len() == self@.e_len / 2,
    {
        &self.e_key[0..(self.e_len as usize / 2)]
    }

    /// The modulus words that the modulus length covers.
    pub fn n_key(&self) -> (r: &[u16])
        requires
            self@.n_len / 2 <= 128,
        ensures
            r@ == self@.n_key.take((self@.n_len / 2) as int),
            r@.len() == self@.n_len / 2,
    {
        &self.n_key[0..(self.n_len as usize / 2)]
    }

    /// Decodes a key from data that holds at least its size.
    pub fn decode(data: &[u8]) -> (r: Self)
        requires
            data@.len() >= CT_M1_KEY_SIZE,
        ensures
            r@ == CtM1KeyModel::spec_decode(data@),
    {
        CtM1Key {
            e_len: read_u32(data, 0),
            n_len: read_u32(data, 4),
            m_coeff: read_u16(data, 8),
            cut_length: read_u16(data, 10),
            e_key: read_u16_array(data, 12),
            n_key: read_u16_array(data, 268),
        }
    }
}

impl<'a> TryRead<'a> for CtM1Key {
    fn try_read(data: &'a [u8]) -> (r: Result<Self>)
        ensures
            view_result(r) == CtM1KeyModel::spec_parse(data@),
    {
        if data.len() < CT_M1_KEY_SIZE {
            return Err(Error::Gfh(GfhError::TooShort(CT_M1_KEY_SIZE, data.len())));
        }
        Ok(Self::decode(data))
    }
}

} // verus!

verus! {

/// A GFH section as mathematical values. Sections whose layout this crate does not decode
/// carry their header alone.
pub enum GfhKindModel {
    AntiClone(GfhHeaderModel),
    FileInfo(GfhFileInfoModel),
    BlInfo(GfhHeaderModel),
    BlExtCfg(GfhHeaderModel),
    BromSecCfg(GfhBromSecCfgModel),
    BromCfgV3(GfhHeaderModel),
    BromCfgV4(GfhHeaderModel),
    ToolAuth(GfhToolAuthModel),
    Unknown(GfhHeaderModel),
}

impl GfhKindModel {
    /// The section's header.
    pub open spec fn header(self) -> GfhHeaderModel {
        match self {
            GfhKindModel::AntiClone(h) => h,
            GfhKindModel::FileInfo(m) => m.header,
            GfhKindModel::BlInfo(h) => h,
            GfhKindModel::BlExtCfg(h) => h,
            GfhKindModel::BromSecCfg(m) => m.header,
            GfhKindModel::BromCfgV3(h) => h,
            GfhKindModel::BromCfgV4(h) => h,
            GfhKindModel::ToolAuth(m) => m.header,
            GfhKindModel::Unknown(h) => h,
        }
    }

    /// What validating the section gives.
    pub open spec fn spec_validate(self) -> Result<()> {
        match self {
            GfhKindModel::FileInfo(m) => m.spec_validate(),
            GfhKindModel::BromSecCfg(m) => m.spec_validate(),
            GfhKindModel::ToolAuth(m) => m.spec_validate(),
            _ => self.header().spec_validate(),
        }
    }
}

/// A section whose body this crate does not decode: its header, when the header can be
/// read, is valid and is of the expected kind.
pub open spec fn spec_header_section(data: Seq<u8>, expected: GfhType) -> Option<GfhHeaderModel> {
    match GfhHeaderModel::spec_parse(data) {
        Ok(h) => if h.spec_validate() is Ok && h.gfh_type == expected {
            Some(h)
        } else {
            None
        },
        Err(_) => None,
    }
}

/// The section that `data` holds, given its header: decoded by kind, or nothing when it
/// cannot be read.
pub open spec fn spec_kind(h: GfhHeaderModel, data: Seq<u8>) -> Option<GfhKindModel> {
    match h.gfh_type {
        GfhType::AntiClone => match spec_header_section(data, GfhType::AntiClone) {
            Some(x) => Some(GfhKindModel::AntiClone(x)),
            None => None,
        },
        GfhType::FileInfo => match GfhFileInfoModel::spec_parse(data) {
            Ok(m) => Some(GfhKindModel::FileInfo(m)),
            Err(_) => None,
        },
        GfhType::BlInfo => match spec_header_section(data, GfhType::BlInfo) {
            Some(x) => Some(GfhKindModel::BlInfo(x)),
            None => None,
        },
        GfhType::BlExtCfg => match spec_header_section(data, GfhType::BlExtCfg) {
            Some(x) => Some(GfhKindModel::BlExtCfg(x)),
            None => None,
        },
        GfhType::BromSecCfg => match GfhBromSecCfgModel::spec_parse(data) {
            Ok(m) => Some(GfhKindModel::BromSecCfg(m)),
            Err(_) => None,
        },
        GfhType::BromCfg => match spec_header_section(data, GfhType::BromCfg) {
            Some(x) => if h.version() == 4 {
                Some(GfhKindModel::BromCfgV4(x))
            } else {
                Some(GfhKindModel::BromCfgV3(x))
            },
            None => None,
        },
        GfhType::ToolAuth => match GfhToolAuthModel::spec_parse(data) {
            Ok(m) => Some(GfhKindModel::ToolAuth(m)),
            Err(_) => None,
        },
        _ => Some(GfhKindModel::Unknown(h)),
    }
}

/// The sections of `c` from `off` on: each starts with a header whose size covers the
/// section; the walk ends at the end of `c`, at a header that cannot be read, at a section of
/// size zero or one that runs past the end, or at a section that cannot be read.
pub open spec fn spec_sections(c: Seq<u8>, off: int) -> Seq<GfhKindModel>
    decreases c.len() - off,
{
    if off < 0 || off >= c.len() {
        Seq::empty()
    } else {
        match GfhHeaderModel::spec_parse(c.skip(off)) {
            Err(_) => Seq::empty(),
            Ok(h) => if h.size == 0 || off + h.size > c.len() {
                Seq::empty()
            } else {
                match spec_kind(h, c.subrange(off, off + h.size)) {
                    None => Seq::empty(),
                    Some(k) => seq![k] + spec_sections(c, off + h.size),
                }
            },
        }
    }
}

/// The first section of the given kind.
pub open spec fn spec_find(s: Seq<GfhKindModel>, t: GfhType) -> Option<GfhKindModel>
    decreases s.len(),
{
    if s.len() == 0 {
        None
    } else if s[0].header().gfh_type == t {
        Some(s[0])
    } else {
        spec_find(s.drop_first(), t)
    }
}

/// The first error that validating the sections in order gives.
pub open spec fn spec_first_error(s: Seq<GfhKindModel>) -> Result<()>
    decreases s.len(),
{
    if s.len() == 0 {
        Ok(())
    } else {
        match s[0].spec_validate() {
            Err(e) => Err(e),
            Ok(_) => spec_first_error(s.drop_first()),
        }
    }
}

/// A GFH section, decoded by its kind. Sections whose layout this crate does not decode
/// carry their header alone.
#[derive(Debug)]
pub enum GfhKind {
    AntiClone(GfhHeader),
    FileInfo(GfhFileInfo),
    BlInfo(GfhHeader),
    BlExtCfg(GfhHeader),
    BromSecCfg(GfhBromSecCfg),
    BromCfgV3(GfhHeader),
    BromCfgV4(GfhHeader),
    ToolAuth(GfhToolAuth),
    Unknown(GfhHeader),
}

impl View for GfhKind {
    type V = GfhKindModel;

    open spec fn view(&self) -> GfhKindModel {
        match self {
            GfhKind::AntiClone(h) => GfhKindModel::AntiClone(h@),
            GfhKind::FileInfo(m) => GfhKindModel::FileInfo(m@),
            GfhKind::BlInfo(h) => GfhKindModel::BlInfo(h@),
            GfhKind::BlExtCfg(h) => GfhKindModel::BlExtCfg(h@),
            GfhKind::BromSecCfg(m) => GfhKindModel::BromSecCfg(m@),
            GfhKind::BromCfgV3(h) => GfhKindModel::BromCfgV3(h@),
            GfhKind::BromCfgV4(h) => GfhKindModel::BromCfgV4(h@),
            GfhKind::ToolAuth(m) => GfhKindModel::ToolAuth(m@),
            GfhKind::Unknown(h) => GfhKindModel::Unknown(h@),
        }
    }
}

/// The views of a list of sections.
pub open spec fn kinds_view(v: Seq<GfhKind>) -> Seq<GfhKindModel> {
    v.map_values(|k: GfhKind| k@)
}

impl GfhKind {
    pub fn header(&self) -> (r: &GfhHeader)
        ensures
            r@ == self@.header(),
    {
        match self {
            GfhKind::AntiClone(h) => h,
            GfhKind::FileInfo(gfh) => gfh.header(),
            GfhKind::BlInfo(h) => h,
            GfhKind::BlExtCfg(h) => h,
            GfhKind::BromSecCfg(gfh) => gfh.header(),
            GfhKind::BromCfgV3(h) => h,
            GfhKind::BromCfgV4(h) => h,
            GfhKind::ToolAuth(gfh) => gfh.header(),
            GfhKind::Unknown(h) => h,
        }
    }

    pub fn validate(&self) -> (r: Result<()>)
        ensures
            r == self@.spec_validate(),
    {
        match self {
            GfhKind::AntiClone(h) => h.validate(),
            GfhKind::FileInfo(gfh) => gfh.validate(),
            GfhKind::BlInfo(h) => h.validate(),
            GfhKind::BlExtCfg(h) => h.validate(),
            GfhKind::BromSecCfg(gfh) => gfh.validate(),
            GfhKind::BromCfgV3(h) => h.validate(),
            GfhKind::BromCfgV4(h) => h.validate(),
            GfhKind::ToolAuth(gfh) => gfh.validate(),
            GfhKind::Unknown(h) => h.validate(),
        }
    }
}

/// Reads a section whose body this crate does not decode (see [`spec_header_section`]).
fn read_header_section(data: &[u8], expected: GfhType) -> (r: Option<GfhHeader>)
    ensures
        match r {
            Some(h) => spec_header_section(data@, expected) == Some(h@),
            None => spec_header_section(data@, expected) is None,
        },
{
    match GfhHeader::try_read(data) {
        Ok(h) => {
            if h.validate().is_ok() && h.gfh_type() == expected {
                Some(h)
            } else {
                None
            }
        },
        Err(_) => None,
    }
}

/// Reads the section that `data` holds, given its header (see [`spec_kind`]).
fn read_kind(header: &GfhHeader, data: &[u8]) -> (r: Option<GfhKind>)
    ensures
        match r {
            Some(k) => spec_kind(header@, data@) == Some(k@),
            None => spec_kind(header@, data@) is None,
        },
{
    match header.gfh_type() {
        GfhType::AntiClone => match read_header_section(data, GfhType::AntiClone) {
            Some(h) => Some(GfhKind::AntiClone(h)),
            None => None,
        },
        GfhType::FileInfo => match GfhFileInfo::try_read(data) {
            Ok(m) => Some(GfhKind::FileInfo(m)),
            Err(_) => None,
        },
        GfhType::BlInfo => match read_header_section(data, GfhType::BlInfo) {
            Some(h) => Some(GfhKind::BlInfo(h)),
            None => None,
        },
        GfhType::BlExtCfg => match read_header_section(data, GfhType::BlExtCfg) {
            Some(h) => Some(GfhKind::BlExtCfg(h)),
            None => None,
        },
        GfhType::BromSecCfg => match GfhBromSecCfg::try_read(data) {
            Ok(m) => Some(GfhKind::BromSecCfg(m)),
            Err(_) => None,
        },
        GfhType::BromCfg => match read_header_section(data, GfhType::BromCfg) {
            Some(h) => if header.version() == 4 {
                Some(GfhKind::BromCfgV4(h))
            } else {
                Some(GfhKind::BromCfgV3(h))
            },
            None => None,
        },
        GfhType::ToolAuth => match GfhToolAuth::try_read(data) {
            Ok(m) => Some(GfhKind::ToolAuth(m)),
            Err(_) => None,
        },
        _ => Some(GfhKind::Unknown(*header)),
    }
}

} // verus!

verus! {

/// A GFH file as mathematical values: its FILE_INFO section and the file's bytes.
pub struct GfhFileModel {
    pub file_info: GfhFileInfoModel,
    pub content: Seq<u8>,
}

impl GfhFileModel {
    /// The bytes are exactly as long as the file, whose FILE_INFO section is valid.
    pub open spec fn wf(self) -> bool {
        &&& self.content.len() == self.file_info.file_len
        &&& self.file_info.spec_validate() is Ok
    }

    /// The file's content: from the content offset, as long as the content length.
    pub open spec fn spec_content(self) -> Seq<u8> {
        self.content.subrange(
            self.file_info.content_offset as int,
            self.file_info.content_offset + self.file_info.content_len(),
        )
    }

    /// The file's signature: the bytes after the content, as long as the signature length,
    /// when the file is signed and the length is not zero.
    pub open spec fn spec_signature(self) -> Option<Seq<u8>> {
        if self.file_info.sig_type != GfhSigType::Unsigned && self.file_info.sig_len > 0 {
            let off = self.file_info.content_offset + self.file_info.content_len();
            Some(self.content.subrange(off, off + self.file_info.sig_len))
        } else {
            None
        }
    }

    /// The file's sections, FILE_INFO first.
    pub open spec fn sections(self) -> Seq<GfhKindModel> {
        spec_sections(self.content, 0)
    }

    /// What reading a GFH file from `s` gives: its FILE_INFO section, which must be valid
    /// and whose file length must fit in `s`; the file is the first file-length bytes, and
    /// every one of its sections must be valid.
    pub open spec fn spec_parse(s: Seq<u8>) -> Result<GfhFileModel> {
        match GfhFileInfoModel::spec_parse(s) {
            Err(e) => Err(e),
            Ok(fi) => if fi.file_len > s.len() {
                Err(Error::Gfh(GfhError::TooShort(fi.file_len as usize, s.len() as usize)))
            } else {
                let c = s.take(fi.file_len as int);
                match spec_first_error(spec_sections(c, 0)) {
                    Err(e) => Err(e),
                    Ok(_) => Ok(GfhFileModel { file_info: fi, content: c }),
                }
            },
        }
    }
}

/// A GFH file: its FILE_INFO section and the bytes of the whole file.
#[derive(Debug)]
pub struct GfhFile<'a> {
    file_info: GfhFileInfo,
    content: &'a [u8],
}

impl<'a> View for GfhFile<'a> {
    type V = GfhFileModel;

    closed spec fn view(&self) -> GfhFileModel {
        GfhFileModel { file_info: self.file_info@, content: self.content@ }
    }
}

impl<'a> GfhFile<'a> {
    #[verifier::type_invariant]
    closed spec fn inv(self) -> bool {
        self@.wf()
    }

    pub fn file_info(&self) -> (r: &GfhFileInfo)
        ensures
            r@ == self@.file_info,
            self@.wf(),
    {
        proof {
            use_type_invariant(self);
        }
        &self.file_info
    }

    pub fn content(&self) -> (r: &'a [u8])
        ensures
            r@ == self@.spec_content(),
    {
        proof {
            use_type_invariant(self);
        }
        let offset = self.file_info.content_offset() as usize;
        let length = self.file_info.content_len();
        &self.content[offset..offset + length]
    }

    pub fn signature(&self) -> (r: Option<&'a [u8]>)
        ensures
            match r {
                Some(s) => self@.spec_signature() == Some(s@),
                None => self@.spec_signature() is None,
            },
    {
        proof {
            use_type_invariant(self);
        }
        if self.file_info.sig_type() != GfhSigType::Unsigned && self.file_info.sig_len() > 0 {
            let sig_offset = self.file_info.content_offset() as usize + self.file_info.content_len();
            Some(&self.content[sig_offset..(sig_offset + self.file_info.sig_len() as usize)])
        } else {
            None
        }
    }

    /// The file's sections in order (see [`spec_sections`]).
    pub fn gfhs(&self) -> (r: Vec<GfhKind>)
        ensures
            kinds_view(r@) == self@.sections(),
    {
        sections_of(self.content)
    }

    /// The first section of the given kind.
    pub fn get_gfh(&self, gfh_type: GfhType) -> (r: Option<GfhKind>)
        ensures
            match r {
                Some(k) => spec_find(self@.sections(), gfh_type) == Some(k@),
                None => spec_find(self@.sections(), gfh_type) is None,
            },
    {
        let mut all = self.gfhs();
        let ghost s = kinds_view(all@);
        assert(s.skip(0) =~= s);
        let mut i: usize = 0;
        while i < all.len()
            invariant
                all@.len() == s.len(),
                kinds_view(all@) == s,
                s == self@.sections(),
                i <= s.len(),
                spec_find(s, gfh_type) == spec_find(s.skip(i as int), gfh_type),
            decreases s.len() - i,
        {
            assert(s.skip(i as int)[0] == s[i as int]);
            assert(all@[i as int]@ == s[i as int]);
            if all[i].header().gfh_type() == gfh_type {
                return Some(all.remove(i));
            }
            assert(s.skip(i as int).drop_first() =~= s.skip(i + 1));
            i = i + 1;
        }
        None
    }
}

/// Walks the sections of `c` (see [`spec_sections`]).
fn sections_of(c: &[u8]) -> (r: Vec<GfhKind>)
    ensures
        kinds_view(r@) == spec_sections(c@, 0),
{
    let mut out: Vec<GfhKind> = Vec::new();
    let mut offset: usize = 0;
    let content_len = c.len();
    loop
        invariant
            content_len == c@.len(),
            offset <= content_len,
            kinds_view(out@) + spec_sections(c@, offset as int) == spec_sections(c@, 0),
        ensures
            kinds_view(out@) == spec_sections(c@, 0),
        decreases content_len - offset,
    {
        let ghost before = kinds_view(out@);
        if offset >= content_len {
            assert(before =~= before + Seq::<GfhKindModel>::empty());
            break;
        }
        let rest = &c[offset..content_len];
        assert(rest@ =~= c@.skip(offset as int));
        let header = match GfhHeader::try_read(rest) {
            Ok(h) => h,
            Err(_) => {
                assert(before =~= before + Seq::<GfhKindModel>::empty());
                break;
            },
        };
        let gfh_size = header.size() as usize;
        if gfh_size == 0 || gfh_size > content_len - offset {
            assert(before =~= before + Seq::<GfhKindModel>::empty());
            break;
        }
        let gfh_data = &c[offset..offset + gfh_size];
        let kind = match read_kind(&header, gfh_data) {
            Some(k) => k,
            None => {
                assert(before =~= before + Seq::<GfhKindModel>::empty());
                break;
            },
        };
        let ghost k = kind@;
        out.push(kind);
        assert(kinds_view(out@) =~= before.push(k));
        assert(spec_sections(c@, offset as int) == seq![k] + spec_sections(c@, offset + gfh_size));
        assert(before + (seq![k] + spec_sections(c@, offset + gfh_size)) =~= before.push(k)
            + spec_sections(c@, offset + gfh_size));
        offset = offset + gfh_size;
    }
    out
}

impl<'a> TryRead<'a> for GfhFile<'a> {
    fn try_read(data: &'a [u8]) -> (r: Result<Self>)
        ensures
            view_result(r) == GfhFileModel::spec_parse(data@),
    {
        let file_info = GfhFileInfo::try_read(data)?;
        file_info.validate()?;
        let file_len = file_info.file_len();
        if file_len > data.len() {
            return Err(Error::Gfh(GfhError::TooShort(file_len, data.len())));
        }
        let content = &data[0..file_len];
        assert(content@ =~= data@.take(file_len as int));
        let sections = sections_of(content);
        let ghost s = kinds_view(sections@);
        assert(s.skip(0) =~= s);
        let ghost fi = file_info@;
        assert(GfhFileInfoModel::spec_parse(data@) == Ok::<GfhFileInfoModel, Error>(fi));
        assert(s == spec_sections(data@.take(fi.file_len as int), 0));
        let mut i: usize = 0;
        while i < sections.len()
            invariant
                GfhFileInfoModel::spec_parse(data@) == Ok::<GfhFileInfoModel, Error>(fi),
                s == spec_sections(data@.take(fi.file_len as int), 0),
                fi.file_len <= data@.len(),
                kinds_view(sections@) == s,
                sections@.len() == s.len(),
                i <= s.len(),
                spec_first_error(s) == spec_first_error(s.skip(i as int)),
            decreases s.len() - i,
        {
            assert(s.skip(i as int)[0] == s[i as int]);
            assert(sections@[i as int]@ == s[i as int]);
            match sections[i].validate() {
                Ok(_) => {},
                Err(e) => {
                    assert(s.skip(i as int).len() > 0);
                    assert(spec_first_error(s.skip(i as int)) == Err::<(), Error>(e));
                    assert(spec_first_error(s) == Err::<(), Error>(e));
                    return Err(e);
                },
            }
            assert(s.skip(i as int).drop_first() =~= s.skip(i + 1));
            i = i + 1;
        }
        assert(s.skip(i as int) =~= Seq::<GfhKindModel>::empty());
        Ok(GfhFile { file_info, content })
    }
}


/// When no section of a sequence has an error, each of them passes validation.
proof fn lemma_first_error_ok(s: Seq<GfhKindModel>)
    requires
        spec_first_error(s) is Ok,
    ensures
        forall|i: int| 0 <= i < s.len() ==> (#[trigger] s[i]).spec_validate() is Ok,
    decreases s.len(),
{
    if s.len() > 0 {
        lemma_first_error_ok(s.drop_first());
        assert forall|i: int| 0 <= i < s.len() implies (#[trigger] s[i]).spec_validate() is Ok by {
            if i > 0 {
                assert(s[i] == s.drop_first()[i - 1]);
            }
        }
    }
}

/// The section read from the bytes where a header stands carries that header.
proof fn lemma_kind_header(h: GfhHeaderModel, c: Seq<u8>, off: int)
    requires
        0 <= off,
        off + h.size <= c.len(),
        GfhHeaderModel::spec_parse(c.skip(off)) == Ok::<GfhHeaderModel, Error>(h),
        spec_kind(h, c.subrange(off, off + h.size)) is Some,
    ensures
        spec_kind(h, c.subrange(off, off + h.size))->Some_0.header() == h,
{
    let data = c.subrange(off, off + h.size);
    let s = c.skip(off);
    if data.len() >= 8 {
        assert(data[0] == s[0] && data[1] == s[1] && data[2] == s[2] && data[3] == s[3]);
        assert(data[4] == s[4] && data[5] == s[5] && data[6] == s[6] && data[7] == s[7]);
        assert(le_u32_at(data, 0) == le_u32_at(s, 0));
        assert(le_u16_at(data, 4) == le_u16_at(s, 4));
        assert(le_u16_at(data, 6) == le_u16_at(s, 6));
    }
}

/// Every section found from `off` on states a size that is not zero.
proof fn lemma_sections_sizes(c: Seq<u8>, off: int)
    ensures
        forall|i: int|
            0 <= i < spec_sections(c, off).len() ==> (#[trigger] spec_sections(c, off)[i]).header().size
                > 0,
    decreases c.len() - off,
{
    if off < 0 || off >= c.len() {
    } else {
        match GfhHeaderModel::spec_parse(c.skip(off)) {
            Err(_) => {},
            Ok(h) => {
                if h.size == 0 || off + h.size > c.len() {
                } else {
                    match spec_kind(h, c.subrange(off, off + h.size)) {
                        None => {},
                        Some(k) => {
                            lemma_kind_header(h, c, off);
                            lemma_sections_sizes(c, off + h.size);
                            assert forall|i: int| 0 < i < spec_sections(c, off).len() implies spec_sections(c, off)[i]
                                == spec_sections(c, off + h.size)[i - 1] by {}
                        },
                    }
                }
            },
        }
    }
}

/// Every section of a GFH file that was read passes validation and states a size that is not
/// zero.
pub proof fn lemma_parsed_sections_valid(s: Seq<u8>)
    requires
        GfhFileModel::spec_parse(s) is Ok,
    ensures
        forall|i: int|
            0 <= i < GfhFileModel::spec_parse(s)->Ok_0.sections().len() ==> {
                let k = #[trigger] GfhFileModel::spec_parse(s)->Ok_0.sections()[i];
                &&& k.spec_validate() is Ok
                &&& k.header().size > 0
            },
{
    let f = GfhFileModel::spec_parse(s)->Ok_0;
    lemma_first_error_ok(f.sections());
    lemma_sections_sizes(f.content, 0);
}

/// Reading a FILE_INFO section looks at its first 56 bytes only.
proof fn lemma_file_info_parse_prefix(s1: Seq<u8>, s2: Seq<u8>)
    requires
        s1.len() >= GFH_FILE_INFO_SIZE,
        s2.len() >= GFH_FILE_INFO_SIZE,
        s1.take(GFH_FILE_INFO_SIZE as int) == s2.take(GFH_FILE_INFO_SIZE as int),
    ensures
        GfhFileInfoModel::spec_parse(s1) == GfhFileInfoModel::spec_parse(s2),
{
    let n = GFH_FILE_INFO_SIZE as int;
    assert forall|k: int| 0 <= k < n implies s1[k] == s2[k] by {
        assert(s1.take(n)[k] == s1[k]);
        assert(s2.take(n)[k] == s2[k]);
    }
    assert(s1.subrange(8, 20) =~= s2.subrange(8, 20));
}

/// A GFH file that was read, whose FILE_INFO section is marked as such and states a size from
/// a full FILE_INFO section up to the file length, lists that section first.
pub proof fn lemma_file_info_listed_first(s: Seq<u8>)
    requires
        GfhFileModel::spec_parse(s) is Ok,
        ({
            let fi = GfhFileModel::spec_parse(s)->Ok_0.file_info;
            &&& fi.header.gfh_type == GfhType::FileInfo
            &&& GFH_FILE_INFO_SIZE <= fi.header.size <= fi.file_len
        }),
    ensures
        GfhFileModel::spec_parse(s)->Ok_0.sections().len() > 0,
        GfhFileModel::spec_parse(s)->Ok_0.sections()[0] == GfhKindModel::FileInfo(
            GfhFileModel::spec_parse(s)->Ok_0.file_info,
        ),
{
    let f = GfhFileModel::spec_parse(s)->Ok_0;
    let fi = f.file_info;
    let c = f.content;
    assert(c == s.take(fi.file_len as int));
    assert(GfhFileInfoModel::spec_parse(s) == Ok::<GfhFileInfoModel, Error>(fi));
    let h = fi.header;
    assert(c.skip(0) =~= c);
    assert(c[4] == s[4] && c[5] == s[5] && c[6] == s[6] && c[7] == s[7]);
    assert(c[0] == s[0] && c[1] == s[1] && c[2] == s[2] && c[3] == s[3]);
    assert(GfhHeaderModel::spec_parse(c.skip(0)) == Ok::<GfhHeaderModel, Error>(h));
    let data = c.subrange(0, h.size as int);
    assert(data.take(GFH_FILE_INFO_SIZE as int) =~= s.take(GFH_FILE_INFO_SIZE as int));
    lemma_file_info_parse_prefix(data, s);
    assert(spec_kind(h, data) == Some(GfhKindModel::FileInfo(fi)));
}

/// Where section `i` of a walk that starts at `off` begins: `off` plus the sizes the sections
/// before it state.
pub open spec fn section_offset(s: Seq<GfhKindModel>, off: int, i: int) -> int
    decreases i,
{
    if i <= 0 {
        off
    } else {
        section_offset(s, off, i - 1) + s[i - 1].header().size
    }
}

/// The offsets of the sections after the first are those of a walk that starts after it.
proof fn lemma_section_offset_shift(s: Seq<GfhKindModel>, off: int, i: int)
    requires
        1 <= i <= s.len(),
    ensures
        section_offset(s, off, i) == section_offset(s.drop_first(), off + s[0].header().size, i - 1),
    decreases i,
{
    let t = s.drop_first();
    let off2 = off + s[0].header().size;
    if i > 1 {
        lemma_section_offset_shift(s, off, i - 1);
        assert(t[i - 2] == s[i - 1]);
        assert(section_offset(s, off, i) == section_offset(s, off, i - 1) + s[i - 1].header().size);
        assert(section_offset(t, off2, i - 1) == section_offset(t, off2, i - 2) + t[i - 2].header().size);
    } else {
        assert(section_offset(s, off, 0) == off);
        assert(section_offset(s, off, 1) == section_offset(s, off, 0) + s[0].header().size);
        assert(section_offset(t, off2, 0) == off2);
    }
}

/// Each section of the walk from `off` begins where the ones before it end, its header is the
/// one read there, and it ends within the bytes.
proof fn lemma_sections_chain(c: Seq<u8>, off: int)
    ensures
        forall|i: int|
            0 <= i < spec_sections(c, off).len() ==> {
                let o = section_offset(spec_sections(c, off), off, i);
                let k = #[trigger] spec_sections(c, off)[i];
                &&& 0 <= off <= o
                &&& o + k.header().size <= c.len()
                &&& GfhHeaderModel::spec_parse(c.skip(o)) == Ok::<GfhHeaderModel, Error>(k.header())
            },
    decreases c.len() - off,
{
    if off < 0 || off >= c.len() {
    } else {
        match GfhHeaderModel::spec_parse(c.skip(off)) {
            Err(_) => {},
            Ok(h) => {
                if h.size == 0 || off + h.size > c.len() {
                } else {
                    match spec_kind(h, c.subrange(off, off + h.size)) {
                        None => {},
                        Some(k) => {
                            let secs = spec_sections(c, off);
                            let rest = spec_sections(c, off + h.size);
                            lemma_kind_header(h, c, off);
                            lemma_sections_chain(c, off + h.size);
                            assert(secs == seq![k] + rest);
                            assert forall|i: int| 0 <= i < secs.len() implies {
                                let o = section_offset(secs, off, i);
                                let kk = #[trigger] secs[i];
                                &&& 0 <= off <= o
                                &&& o + kk.header().size <= c.len()
                                &&& GfhHeaderModel::spec_parse(c.skip(o)) == Ok::<GfhHeaderModel, Error>(kk.header())
                            } by {
                                lemma_chain_step(secs, rest, k, off, h.size as int, i);
                            }
                        },
                    }
                }
            },
        }
    }
}

/// One step of [`lemma_sections_chain`]: the sections are the first one, then those of the
/// walk that starts after it.
proof fn lemma_chain_step(
    secs: Seq<GfhKindModel>,
    rest: Seq<GfhKindModel>,
    k: GfhKindModel,
    off: int,
    size: int,
    i: int,
)
    requires
        secs == seq![k] + rest,
        k.header().size == size,
        0 <= i < secs.len(),
    ensures
        i == 0 ==> section_offset(secs, off, i) == off && secs[i] == k,
        i > 0 ==> section_offset(secs, off, i) == section_offset(rest, off + size, i - 1) && secs[i]
            == rest[i - 1],
{
    if i > 0 {
        lemma_section_offset_shift(secs, off, i);
        assert(secs.drop_first() =~= rest);
    }
}

/// The sections of a GFH file that was read lie one after another from its start: each
/// begins where the one before it ends, its header is the one read there, it states a size that
/// is not zero, and it ends within the file length.
pub proof fn lemma_parsed_sections_chain(s: Seq<u8>)
    requires
        GfhFileModel::spec_parse(s) is Ok,
    ensures
        ({
            let f = GfhFileModel::spec_parse(s)->Ok_0;
            forall|i: int|
                0 <= i < f.sections().len() ==> {
                    let o = section_offset(f.sections(), 0, i);
                    let k = #[trigger] f.sections()[i];
                    &&& 0 <= o
                    &&& k.header().size > 0
                    &&& o + k.header().size <= f.file_info.file_len
                    &&& GfhHeaderModel::spec_parse(f.content.skip(o)) == Ok::<GfhHeaderModel, Error>(
                        k.header(),
                    )
                }
        }),
{
    let f = GfhFileModel::spec_parse(s)->Ok_0;
    lemma_sections_chain(f.content, 0);
    lemma_sections_sizes(f.content, 0);
    assert(f.content.len() == f.file_info.file_len);
}

} // verus!
