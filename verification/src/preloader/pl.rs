//! The preloader image: an optional boot region layout (BRLYT) followed by a GFH file.
use vstd::prelude::*;

use crate::bytes::{bytes_eq, first_occurrence, le_u16_at, le_u32_at, lemma_first_occurrence_from_occurs, opt_int, position_of, read_u16, read_u32};
use crate::common::gfh::file::{GfhFile, GfhFileModel};
use crate::common::gfh::file_info::{GfhFileType, GfhFlashDev, GFH_FILE_INFO_SIZE};
use crate::error::{Error, Result};
use crate::traits::{view_result, TryRead};

verus! {

#[derive(Debug, PartialEq, Eq, Structural)]
pub enum PreloaderError {
    TooShort,
    GfhHeaderNotFound,
    BrlytMalformed,
}

/// Size of a bootloader descriptor on disk.
pub const BL_DESCRIPTOR_SIZE: usize = 20;

/// Size of the boot region layout on disk.
pub const BRLYT_SIZE: usize = 180;

/// A bootloader descriptor of the boot region layout.
#[derive(Debug, Clone, Copy)]
struct BlDescriptor {
    bl_exists_magic: u32,
    bl_dev: GfhFlashDev,
    reserved: u8,
    bl_type: GfhFileType,
    bl_begin_addr: u32,
    bl_boundary_addr: u32,
    bl_attribute: u32,
}

/// The codes of descriptor `i` of a layout stored in `s` name a flash device and a file type.
pub open spec fn descriptor_codes_ok(s: Seq<u8>, i: int) -> bool {
    &&& GfhFlashDev::spec_from_code(s[20 + 20 * i + 4]) is Some
    &&& GfhFileType::spec_from_code(le_u16_at(s, 20 + 20 * i + 6)) is Some
}

/// The layout stored in `s` can be read: it is long enough and all eight descriptors carry
/// valid codes.
pub open spec fn brlyt_readable(s: Seq<u8>) -> bool {
    &&& s.len() >= BRLYT_SIZE
    &&& forall|i: int| 0 <= i < 8 ==> descriptor_codes_ok(s, i)
}

/// The boot region layout: an identifier, a version, two region addresses and eight
/// bootloader descriptors.
#[derive(Debug)]
struct Brlyt {
    identifier: [u8; 8],
    version: u32,
    boot_region_address: u32,
    main_region_address: u32,
    bl_desc: [BlDescriptor; 8],
}

impl Brlyt {
    /// Where the GFH file starts: the begin address of the first bootloader.
    fn gfh_offset(&self) -> (r: u32)
        ensures
            r == self.bl_desc@[0].bl_begin_addr,
    {
        self.bl_desc[0].bl_begin_addr
    }
}

/// Reads the descriptor at `off`, if its codes are valid.
fn read_descriptor(data: &[u8], off: usize) -> (r: Option<BlDescriptor>)
    requires
        off + BL_DESCRIPTOR_SIZE <= data.len(),
    ensures
        r is Some <==> (GfhFlashDev::spec_from_code(data@[off + 4]) is Some
            && GfhFileType::spec_from_code(le_u16_at(data@, off + 6)) is Some),
        r matches Some(d) ==> d.bl_begin_addr == le_u32_at(data@, off + 8),
{
    let bl_dev = GfhFlashDev::from_code(data[off + 4]);
    let bl_type = GfhFileType::from_code(read_u16(data, off + 6));
    match (bl_dev, bl_type) {
        (Some(bl_dev), Some(bl_type)) => Some(
            BlDescriptor {
                bl_exists_magic: read_u32(data, off),
                bl_dev,
                reserved: data[off + 5],
                bl_type,
                bl_begin_addr: read_u32(data, off + 8),
                bl_boundary_addr: read_u32(data, off + 12),
                bl_attribute: read_u32(data, off + 16),
            },
        ),
        _ => None,
    }
}

impl Brlyt {
    fn try_read(data: &[u8]) -> (r: Result<Self>)
        ensures
            data@.len() < BRLYT_SIZE ==> r == Err::<Brlyt, Error>(
                Error::Preloader(PreloaderError::BrlytMalformed),
            ),
            data@.len() >= BRLYT_SIZE && !brlyt_readable(data@) ==> r == Err::<Brlyt, Error>(
                Error::Zerocopy,
            ),
            brlyt_readable(data@) ==> (r matches Ok(b) && b.bl_desc@[0].bl_begin_addr
                == le_u32_at(data@, 28)),
    {
        if data.len() < BRLYT_SIZE {
            return Err(Error::Preloader(PreloaderError::BrlytMalformed));
        }
        let first = match read_descriptor(data, 20) {
            Some(d) => d,
            None => {
                assert(!descriptor_codes_ok(data@, 0));
                return Err(Error::Zerocopy);
            },
        };
        let mut bl_desc: [BlDescriptor; 8] = [first, first, first, first, first, first, first, first];
        let mut i: usize = 1;
        while i < 8
            invariant
                data@.len() >= BRLYT_SIZE,
                1 <= i <= 8,
                bl_desc@.len() == 8,
                bl_desc@[0].bl_begin_addr == le_u32_at(data@, 28),
                descriptor_codes_ok(data@, 0),
                forall|j: int| 0 <= j < i ==> descriptor_codes_ok(data@, j),
            decreases 8 - i,
        {
            match read_descriptor(data, 20 + 20 * i) {
                Some(d) => {
                    bl_desc[i] = d;
                },
                None => {
                    assert(!descriptor_codes_ok(data@, i as int));
                    return Err(Error::Zerocopy);
                },
            }
            i = i + 1;
        }
        let mut identifier = [0u8; 8];
        let mut k: usize = 0;
        while k < 8
            invariant
                data@.len() >= BRLYT_SIZE,
                k <= 8,
                identifier@.len() == 8,
            decreases 8 - k,
        {
            identifier[k] = data[k];
            k = k + 1;
        }
        Ok(
            Brlyt {
                identifier,
                version: read_u32(data, 8),
                boot_region_address: read_u32(data, 12),
                main_region_address: read_u32(data, 16),
                bl_desc,
            },
        )
    }
}

/// The layout identifier, `"BRLYT"` padded with NULs to 8 bytes.
pub open spec fn brlyt_id() -> Seq<u8> {
    seq![0x42u8, 0x52u8, 0x4cu8, 0x59u8, 0x54u8, 0u8, 0u8, 0u8]
}

/// The marker that starts the EMI settings, `"MTK_BLOADER_INFO"`.
pub open spec fn emi_id() -> Seq<u8> {
    seq![
        0x4du8, 0x54u8, 0x4bu8, 0x5fu8, 0x42u8, 0x4cu8, 0x4fu8, 0x41u8, 0x44u8, 0x45u8, 0x52u8,
        0x5fu8, 0x49u8, 0x4eu8, 0x46u8, 0x4fu8,
    ]
}

/// A preloader as mathematical values: its GFH file and where the EMI settings lie in the
/// file's content (size zero when there are none).
pub struct PreloaderModel {
    pub gfh: GfhFileModel,
    pub emi_offset: int,
    pub emi_size: int,
}

/// The shortest data a preloader is read from: a FILE_INFO section, the layout's offset and
/// the layout.
pub const PRELOADER_MIN_SIZE: usize = 748;

impl PreloaderModel {
    /// Where the GFH file starts in `s`: the first bootloader's begin address when a readable
    /// layout with the right identifier stands at 0x200, else 0.
    pub open spec fn gfh_offset(s: Seq<u8>) -> int {
        if s.subrange(0x200, 0x208) == brlyt_id() && brlyt_readable(s.skip(0x200)) {
            le_u32_at(s, 0x200int + 28) as int
        } else {
            0
        }
    }

    /// What reading a preloader from `s` gives.
    pub open spec fn spec_parse(s: Seq<u8>) -> Result<PreloaderModel> {
        if s.len() < PRELOADER_MIN_SIZE {
            Err(Error::Preloader(PreloaderError::TooShort))
        } else {
            let off = Self::gfh_offset(s);
            if off > s.len() {
                Err(Error::Preloader(PreloaderError::TooShort))
            } else {
                match GfhFileModel::spec_parse(s.skip(off)) {
                    Err(e) => Err(e),
                    Ok(g) => {
                        let c = g.spec_content();
                        match first_occurrence(c, emi_id()) {
                            Some(o) => Ok(PreloaderModel { gfh: g, emi_offset: o, emi_size: c.len() - o }),
                            None => Ok(PreloaderModel { gfh: g, emi_offset: 0, emi_size: 0 }),
                        }
                    },
                }
            }
        }
    }

    /// The EMI settings: the content from the marker on, when there is a marker.
    pub open spec fn spec_emi(self) -> Option<Seq<u8>> {
        if self.emi_size != 0 {
            Some(self.gfh.spec_content().subrange(self.emi_offset, self.emi_offset + self.emi_size))
        } else {
            None
        }
    }
}

/// A preloader image.
#[derive(Debug)]
pub struct Preloader<'a> {
    gfh: GfhFile<'a>,
    emi_offset: usize,
    emi_size: usize,
}

impl<'a> View for Preloader<'a> {
    type V = PreloaderModel;

    closed spec fn view(&self) -> PreloaderModel {
        PreloaderModel {
            gfh: self.gfh@,
            emi_offset: self.emi_offset as int,
            emi_size: self.emi_size as int,
        }
    }
}

impl<'a> Preloader<'a> {
    pub const BRLYT_OFFSET: usize = 0x200;

    #[verifier::type_invariant]
    closed spec fn inv(self) -> bool {
        self.emi_size != 0 ==> self.emi_offset + self.emi_size <= self.gfh@.spec_content().len()
    }

    /// The layout identifier, `"BRLYT"` padded with NULs to 8 bytes.
    pub const BRLYT_ID: [u8; 8] = [0x42, 0x52, 0x4c, 0x59, 0x54, 0, 0, 0];
    /// The marker that starts the EMI settings, `"MTK_BLOADER_INFO"`.
    pub const EMI_ID: [u8; 16] = [
        0x4d, 0x54, 0x4b, 0x5f, 0x42, 0x4c, 0x4f, 0x41, 0x44, 0x45, 0x52, 0x5f, 0x49, 0x4e, 0x46, 0x4f,
    ];

    pub fn gfh(&self) -> (r: &GfhFile<'a>)
        ensures
            r@ == self@.gfh,
    {
        &self.gfh
    }

    /// The EMI settings found in the content, if any.
    pub fn emi(&self) -> (r: Option<&'a [u8]>)
        ensures
            match r {
                Some(e) => self@.spec_emi() == Some(e@),
                None => self@.spec_emi() is None,
            },
    {
        proof {
            use_type_invariant(self);
        }
        if self.emi_size != 0 {
            let content = self.gfh.content();
            let _n = content.len();
            Some(&content[self.emi_offset..self.emi_offset + self.emi_size])
        } else {
            None
        }
    }
}

impl<'a> TryRead<'a> for Preloader<'a> {
    fn try_read(data: &'a [u8]) -> (r: Result<Self>)
        ensures
            view_result(r) == PreloaderModel::spec_parse(data@),
    {
        if data.len() < GFH_FILE_INFO_SIZE + Preloader::BRLYT_OFFSET + BRLYT_SIZE {
            return Err(Error::Preloader(PreloaderError::TooShort));
        }
        let gfh_offset = locate_gfh(data);
        if gfh_offset > data.len() {
            return Err(Error::Preloader(PreloaderError::TooShort));
        }
        let data = &data[gfh_offset..data.len()];
        let gfh = GfhFile::try_read(data)?;
        let (emi_offset, emi_size) = locate_emi(gfh.content());
        Ok(Self { gfh, emi_offset, emi_size })
    }
}

/// Where the GFH file starts in `data` (see [`PreloaderModel::gfh_offset`]).
fn locate_gfh(data: &[u8]) -> (r: usize)
    requires
        data@.len() >= PRELOADER_MIN_SIZE,
    ensures
        r == PreloaderModel::gfh_offset(data@),
{
    let id = &data[Preloader::BRLYT_OFFSET..Preloader::BRLYT_OFFSET + 8];
    let layout = &data[Preloader::BRLYT_OFFSET..data.len()];
    assert(layout@ =~= data@.skip(0x200));
    let layout_id = Preloader::BRLYT_ID;
    assert(layout_id@ =~= brlyt_id());
    if bytes_eq(id, layout_id.as_slice()) {
        if let Ok(brlyt) = Brlyt::try_read(layout) {
            assert(le_u32_at(layout@, 28) == le_u32_at(data@, 0x200int + 28));
            return brlyt.gfh_offset() as usize;
        }
    }
    0
}

/// Where the EMI settings lie in `content`: from the first marker to the end, or nowhere.
fn locate_emi(content: &[u8]) -> (r: (usize, usize))
    ensures
        match first_occurrence(content@, emi_id()) {
            Some(o) => r.0 == o && r.1 == content@.len() - o,
            None => r.0 == 0 && r.1 == 0,
        },
{
    let marker = Preloader::EMI_ID;
    assert(marker@ =~= emi_id());
    match position_of(content, marker.as_slice()) {
        Some(offset) => (offset, content.len() - offset),
        None => (0, 0),
    }
}


/// The EMI settings of a preloader that was read lie within the content of its GFH file and
/// start with the EMI marker.
pub proof fn lemma_emi_in_content(s: Seq<u8>)
    requires
        PreloaderModel::spec_parse(s) is Ok,
    ensures
        PreloaderModel::spec_parse(s)->Ok_0.spec_emi() matches Some(e) ==> {
            &&& e.len() <= PreloaderModel::spec_parse(s)->Ok_0.gfh.spec_content().len()
            &&& e.take(16) == emi_id()
        },
{
    let p = PreloaderModel::spec_parse(s)->Ok_0;
    let c = p.gfh.spec_content();
    lemma_first_occurrence_from_occurs(c, emi_id(), 0);
    if p.spec_emi() is Some {
        let e = p.spec_emi()->Some_0;
        assert(e.take(16) =~= c.subrange(p.emi_offset, p.emi_offset + 16));
    }
}

/// Where a preloader's GFH file is read: when the identifier `"BRLYT"` (NUL-padded to 8 bytes)
/// stands at 0x200 and the layout there reads, at the begin address of the layout's first
/// bootloader, the little-endian word at 0x200 + 28; otherwise at the start of the image.
/// Reading the preloader reads the GFH file from there (an address past the end is too short),
/// gives its errors, and finds the EMI settings from the first `"MTK_BLOADER_INFO"` marker in
/// its content to the end of the content.
pub proof fn lemma_gfh_located(s: Seq<u8>)
    requires
        s.len() >= PRELOADER_MIN_SIZE,
    ensures
        ({
            let off = if s.subrange(0x200, 0x208) == seq![0x42u8, 0x52u8, 0x4cu8, 0x59u8, 0x54u8, 0u8, 0u8, 0u8]
                && brlyt_readable(s.skip(0x200)) {
                le_u32_at(s, 0x21c) as int
            } else {
                0
            };
            let marker = seq![
                0x4du8, 0x54u8, 0x4bu8, 0x5fu8, 0x42u8, 0x4cu8, 0x4fu8, 0x41u8, 0x44u8, 0x45u8,
                0x52u8, 0x5fu8, 0x49u8, 0x4eu8, 0x46u8, 0x4fu8,
            ];
            &&& off > s.len() ==> PreloaderModel::spec_parse(s) == Err::<PreloaderModel, Error>(
                Error::Preloader(PreloaderError::TooShort),
            )
            &&& off <= s.len() ==> match GfhFileModel::spec_parse(s.skip(off)) {
                Err(e) => PreloaderModel::spec_parse(s) == Err::<PreloaderModel, Error>(e),
                Ok(g) => PreloaderModel::spec_parse(s) matches Ok(p) && p.gfh == g && p.spec_emi()
                    == match first_occurrence(g.spec_content(), marker) {
                    Some(o) => Some(g.spec_content().skip(o)),
                    None => None,
                },
            }
        }),
{
    assert(brlyt_id() =~= seq![0x42u8, 0x52u8, 0x4cu8, 0x59u8, 0x54u8, 0u8, 0u8, 0u8]);
    let marker = seq![
        0x4du8, 0x54u8, 0x4bu8, 0x5fu8, 0x42u8, 0x4cu8, 0x4fu8, 0x41u8, 0x44u8, 0x45u8, 0x52u8,
        0x5fu8, 0x49u8, 0x4eu8, 0x46u8, 0x4fu8,
    ];
    assert(emi_id() =~= marker);
    let off = PreloaderModel::gfh_offset(s);
    if off <= s.len() {
        if let Ok(g) = GfhFileModel::spec_parse(s.skip(off)) {
            let c = g.spec_content();
            lemma_first_occurrence_from_occurs(c, marker, 0);
            if let Some(o) = first_occurrence(c, marker) {
                assert(c.subrange(o, o + (c.len() - o)) =~= c.skip(o));
            }
        }
    }
}

} // verus!
