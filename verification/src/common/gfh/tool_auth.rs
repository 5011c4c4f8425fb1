//! The TOOL_AUTH section: what a download tool must present to the boot ROM.
use vstd::prelude::*;
use vstd::string::StringSliceAdditionalSpecFns;

use crate::bytes::{le_u16_at, le_u32_at, read_array, read_u16, read_u32};
use crate::common::gfh::file::{CtM1Key, CtM1KeyModel, Gfh, GfhError, GfhSigPadType, CT_M1_KEY_SIZE};
use crate::common::gfh::header::{GfhHeader, GfhHeaderModel, GfhType};
use crate::error::{Error, Result};
use crate::text::{field_text, lemma_padded_text, text_of};
use crate::traits::{view_result, TryRead};

verus! {

/// The fields of a [`GfhToolAuth`] as mathematical values.
pub struct GfhToolAuthModel {
    pub header: GfhHeaderModel,
    pub cust_name: Seq<u8>,
    pub attr: u32,
    pub brom_verified_num: u32,
    pub da_hash_num: u32,
    pub da_hash: Seq<Seq<u8>>,
    pub sbc_public_key: CtM1KeyModel,
    pub sla_public_key: CtM1KeyModel,
    pub daa_public_key: CtM1KeyModel,
}

/// Size of the TOOL_AUTH section on disk.
pub const GFH_TOOL_AUTH_SIZE: usize = 1944;

/// The name bytes that setting the customer name stores: the first 32 bytes of `name`,
/// NUL-padded.
pub open spec fn name_field(name: Seq<u8>) -> Seq<u8> {
    Seq::new(32, |i: int| if i < name.len() { name[i] } else { 0u8 })
}

impl GfhToolAuthModel {
    /// What validating the section gives: the header must be valid and of this kind, with
    /// at most ten DA hashes, no more of them verified by the boot ROM than there are.
    pub open spec fn spec_validate(self) -> Result<()> {
        match self.header.spec_validate() {
            Err(e) => Err(e),
            Ok(_) => if self.header.gfh_type != GfhType::ToolAuth {
                Err(Error::Gfh(GfhError::InvalidType(GfhType::ToolAuth, self.header.gfh_type)))
            } else if self.da_hash_num > GfhToolAuth::MAX_DA_HASH_NUM {
                Err(
                    Error::Gfh(
                        GfhError::ToolAuthDaHashNumTooLarge(
                            self.da_hash_num,
                            GfhToolAuth::MAX_DA_HASH_NUM,
                        ),
                    ),
                )
            } else if self.brom_verified_num > self.da_hash_num {
                Err(
                    Error::Gfh(
                        GfhError::ToolAuthBromVerifiedTooLarge(
                            self.brom_verified_num,
                            self.da_hash_num,
                        ),
                    ),
                )
            } else {
                Ok(())
            },
        }
    }

    /// What reading the section from `s` gives.
    pub open spec fn spec_parse(s: Seq<u8>) -> Result<GfhToolAuthModel> {
        if s.len() < GFH_TOOL_AUTH_SIZE {
            Err(Error::Gfh(GfhError::TooShort(s.len() as usize, GFH_TOOL_AUTH_SIZE)))
        } else {
            match GfhType::spec_from_code(le_u16_at(s, 6)) {
                Some(gfh_type) => {
                    let m = GfhToolAuthModel {
                        header: GfhHeaderModel {
                            magic_ver: le_u32_at(s, 0),
                            size: le_u16_at(s, 4),
                            gfh_type,
                        },
                        cust_name: s.subrange(8, 40),
                        attr: le_u32_at(s, 40),
                        brom_verified_num: le_u32_at(s, 44),
                        da_hash_num: le_u32_at(s, 48),
                        da_hash: Seq::new(10, |i: int| s.subrange(52 + 32 * i, 84 + 32 * i)),
                        sbc_public_key: CtM1KeyModel::spec_decode(s.skip(372)),
                        sla_public_key: CtM1KeyModel::spec_decode(s.skip(896)),
                        daa_public_key: CtM1KeyModel::spec_decode(s.skip(1420)),
                    };
                    match m.spec_validate() {
                        Ok(_) => Ok(m),
                        Err(e) => Err(e),
                    }
                },
                None => Err(Error::Zerocopy),
            }
        }
    }

    /// The SLA padding scheme that the attributes select.
    pub open spec fn sla_pad_type(self) -> GfhSigPadType {
        if (self.attr & GfhToolAuth::SLA_PSS_ATTR) == GfhToolAuth::SLA_PSS_ATTR {
            GfhSigPadType::Pss
        } else {
            GfhSigPadType::M1
        }
    }

    /// The DAA padding scheme that the attributes select.
    pub open spec fn daa_pad_type(self) -> GfhSigPadType {
        if (self.attr & GfhToolAuth::DAA_PSS_ATTR) == GfhToolAuth::DAA_PSS_ATTR {
            GfhSigPadType::Pss
        } else {
            GfhSigPadType::M1
        }
    }
}

/// The attributes after selecting an SLA padding scheme.
pub open spec fn attr_with_sla_pad(attr: u32, pad_type: GfhSigPadType) -> u32 {
    match pad_type {
        GfhSigPadType::Pss => (attr & GfhToolAuth::SLA_ATTR_MASK) | GfhToolAuth::SLA_PSS_ATTR,
        GfhSigPadType::M1 => ((attr & GfhToolAuth::SLA_ATTR_MASK) | GfhToolAuth::SLA_M1_ATTR)
            & GfhToolAuth::SLA_M1_CLEAR_MASK,
    }
}

/// The attributes after selecting a DAA padding scheme.
pub open spec fn attr_with_daa_pad(attr: u32, pad_type: GfhSigPadType) -> u32 {
    match pad_type {
        GfhSigPadType::Pss => (attr & GfhToolAuth::DAA_ATTR_MASK) | GfhToolAuth::DAA_PSS_ATTR,
        GfhSigPadType::M1 => (attr & GfhToolAuth::DAA_ATTR_MASK) & GfhToolAuth::DAA_M1_CLEAR_MASK,
    }
}

/// The TOOL_AUTH section: a customer name, attributes, up to ten DA hashes and the SBC, SLA
/// and DAA public keys.
#[derive(Debug)]
pub struct GfhToolAuth {
    pub header: GfhHeader,
    pub cust_name: [u8; 32],
    pub attr: u32,
    pub brom_verified_num: u32,
    pub da_hash_num: u32,
    pub da_hash: [[u8; 32]; 10],
    pub sbc_public_key: CtM1Key,
    pub sla_public_key: CtM1Key,
    pub daa_public_key: CtM1Key,
}

impl View for GfhToolAuth {
    type V = GfhToolAuthModel;

    open spec fn view(&self) -> GfhToolAuthModel {
        GfhToolAuthModel {
            header: self.header@,
            cust_name: self.cust_name@,
            attr: self.attr,
            brom_verified_num: self.brom_verified_num,
            da_hash_num: self.da_hash_num,
            da_hash: self.da_hash@.map_values(|h: [u8; 32]| h@),
            sbc_public_key: self.sbc_public_key@,
            sla_public_key: self.sla_public_key@,
            daa_public_key: self.daa_public_key@,
        }
    }
}

impl GfhToolAuth {
    pub const DAA_ATTR_MASK: u32 = 0x0000FFFF;
    pub const DAA_M1_CLEAR_MASK: u32 = 0x0FFFFFFF;
    pub const DAA_PSS_ATTR: u32 = 0xC2620000;
    pub const MAX_DA_HASH_NUM: u32 = 10;
    pub const SLA_ATTR_MASK: u32 = 0xFFFF0FFF;
    pub const SLA_M1_ATTR: u32 = 0x1000;
    pub const SLA_M1_CLEAR_MASK: u32 = 0x0FFFFFFF;
    pub const SLA_PSS_ATTR: u32 = 0x6000;

    pub fn attr(&self) -> (r: u32)
        ensures
            r == self@.attr,
    {
        self.attr
    }

    /// The customer name: the NUL-padded field decoded as UTF-8, `"MTK"` when it is not
    /// valid UTF-8.
    pub fn customer_name(&self) -> (r: &str)
        ensures
            r@ == field_text(self@.cust_name, seq!['M', 'T', 'K']),
    {
        proof {
            reveal_strlit("MTK");
        }
        text_of(self.cust_name.as_slice(), "MTK")
    }

    pub fn set_attr(&mut self, attr: u32)
        ensures
            final(self)@ == (GfhToolAuthModel { attr, ..old(self)@ }),
    {
        self.attr = attr;
    }

    /// Stores the UTF-8 bytes of `name`, cut to 32 bytes and NUL-padded.
    pub fn set_customer_name(&mut self, name: &str)
        ensures
            final(self)@ == (GfhToolAuthModel { cust_name: name_field(name.spec_bytes()), ..old(self)@ }),
    {
        let bytes = name.as_bytes();
        let mut new_name = [0u8; 32];
        let mut i: usize = 0;
        while i < 32
            invariant
                bytes@ == name.spec_bytes(),
                i <= 32,
                new_name@.len() == 32,
                forall|j: int| 0 <= j < i ==> new_name@[j] == name_field(bytes@)[j],
            decreases 32 - i,
        {
            if i < bytes.len() {
                new_name[i] = bytes[i];
            } else {
                new_name[i] = 0;
            }
            i = i + 1;
        }
        assert(new_name@ =~= name_field(bytes@));
        self.cust_name = new_name;
    }

    pub fn set_sla_pad_type(&mut self, pad_type: GfhSigPadType)
        ensures
            final(self)@ == (GfhToolAuthModel { attr: attr_with_sla_pad(old(self)@.attr, pad_type), ..old(self)@ }),
    {
        self.attr = self.attr & Self::SLA_ATTR_MASK;
        match pad_type {
            GfhSigPadType::Pss => {
                self.attr = self.attr | Self::SLA_PSS_ATTR;
            },
            GfhSigPadType::M1 => {
                self.attr = self.attr | Self::SLA_M1_ATTR;
                self.attr = self.attr & Self::SLA_M1_CLEAR_MASK;
            },
        }
    }

    pub fn set_daa_pad_type(&mut self, pad_type: GfhSigPadType)
        ensures
            final(self)@ == (GfhToolAuthModel { attr: attr_with_daa_pad(old(self)@.attr, pad_type), ..old(self)@ }),
    {
        self.attr = self.attr & Self::DAA_ATTR_MASK;
        match pad_type {
            GfhSigPadType::Pss => {
                self.attr = self.attr | Self::DAA_PSS_ATTR;
            },
            GfhSigPadType::M1 => {
                self.attr = self.attr & Self::DAA_M1_CLEAR_MASK;
            },
        }
    }

    pub fn get_sla_pad_type(&self) -> (r: GfhSigPadType)
        ensures
            r == self@.sla_pad_type(),
    {
        if (self.attr & Self::SLA_PSS_ATTR) == Self::SLA_PSS_ATTR {
            GfhSigPadType::Pss
        } else {
            GfhSigPadType::M1
        }
    }

    pub fn get_daa_pad_type(&self) -> (r: GfhSigPadType)
        ensures
            r == self@.daa_pad_type(),
    {
        if (self.attr & Self::DAA_PSS_ATTR) == Self::DAA_PSS_ATTR {
            GfhSigPadType::Pss
        } else {
            GfhSigPadType::M1
        }
    }
}

/// The padding scheme that was set is the one read back, for SLA and for DAA alike.
pub proof fn lemma_pad_type_set_get(m: GfhToolAuthModel, pad_type: GfhSigPadType)
    ensures
        (GfhToolAuthModel { attr: attr_with_sla_pad(m.attr, pad_type), ..m }).sla_pad_type() == pad_type,
        (GfhToolAuthModel { attr: attr_with_daa_pad(m.attr, pad_type), ..m }).daa_pad_type() == pad_type,
{
    let a = m.attr;
    assert((((a & 0xFFFF0FFF) | 0x6000) & 0x6000) == 0x6000 && ((((a & 0xFFFF0FFF) | 0x1000)
        & 0x0FFFFFFF) & 0x6000) != 0x6000 && (((a & 0x0000FFFF) | 0xC2620000) & 0xC2620000)
        == 0xC2620000 && (((a & 0x0000FFFF) & 0x0FFFFFFF) & 0xC2620000) != 0xC2620000)
        by (bit_vector);
}

impl Gfh for GfhToolAuth {
    open spec fn spec_header(&self) -> GfhHeaderModel {
        self@.header
    }

    open spec fn spec_validate(&self) -> Result<()> {
        self@.spec_validate()
    }

    fn header(&self) -> (r: &GfhHeader)
        ensures
            r@ == self@.header,
    {
        &self.header
    }

    fn validate(&self) -> (r: Result<()>)
        ensures
            r == self.spec_validate(),
    {
        self.header.validate()?;
        if self.header.gfh_type() != GfhType::ToolAuth {
            return Err(Error::Gfh(GfhError::InvalidType(GfhType::ToolAuth, self.header.gfh_type())));
        }
        if self.da_hash_num > Self::MAX_DA_HASH_NUM {
            return Err(
                Error::Gfh(
                    GfhError::ToolAuthDaHashNumTooLarge(self.da_hash_num, Self::MAX_DA_HASH_NUM),
                ),
            );
        }
        if self.brom_verified_num > self.da_hash_num {
            return Err(
                Error::Gfh(
                    GfhError::ToolAuthBromVerifiedTooLarge(self.brom_verified_num, self.da_hash_num),
                ),
            );
        }
        Ok(())
    }
}

impl<'a> TryRead<'a> for GfhToolAuth {
    fn try_read(data: &'a [u8]) -> (r: Result<Self>)
        ensures
            view_result(r) == GfhToolAuthModel::spec_parse(data@),
    {
        if data.len() < GFH_TOOL_AUTH_SIZE {
            return Err(Error::Gfh(GfhError::TooShort(data.len(), GFH_TOOL_AUTH_SIZE)));
        }
        let gfh_type = match GfhType::from_code(read_u16(data, 6)) {
            Some(t) => t,
            None => return Err(Error::Zerocopy),
        };
        let mut da_hash = [[0u8; 32]; 10];
        let mut i: usize = 0;
        while i < 10
            invariant
                data@.len() >= GFH_TOOL_AUTH_SIZE,
                i <= 10,
                da_hash@.len() == 10,
                forall|j: int|
                    0 <= j < i ==> #[trigger] da_hash@[j]@ == data@.subrange(52 + 32 * j, 84 + 32 * j),
            decreases 10 - i,
        {
            da_hash[i] = read_array(data, 52 + 32 * i);
            i = i + 1;
        }
        let ghost expected = Seq::new(10, |j: int| data@.subrange(52 + 32 * j, 84 + 32 * j));
        assert(da_hash@.map_values(|h: [u8; 32]| h@) =~= expected);
        let sbc = slice_from(data, 372);
        let sla = slice_from(data, 896);
        let daa = slice_from(data, 1420);
        let gfh = GfhToolAuth {
            header: GfhHeader::from_parts(read_u32(data, 0), read_u16(data, 4), gfh_type),
            cust_name: read_array(data, 8),
            attr: read_u32(data, 40),
            brom_verified_num: read_u32(data, 44),
            da_hash_num: read_u32(data, 48),
            da_hash,
            sbc_public_key: CtM1Key::decode(sbc),
            sla_public_key: CtM1Key::decode(sla),
            daa_public_key: CtM1Key::decode(daa),
        };
        gfh.validate()?;
        Ok(gfh)
    }
}

/// The bytes of `data` from `off` on.
fn slice_from(data: &[u8], off: usize) -> (r: &[u8])
    requires
        off <= data@.len(),
    ensures
        r@ == data@.skip(off as int),
{
    &data[off..data.len()]
}

/// Setting a customer name of at most 32 bytes that does not end with a NUL character, then
/// reading the customer name, gives the name back.
pub proof fn lemma_customer_name_round_trip(m: GfhToolAuthModel, name: &str)
    requires
        name.spec_bytes().len() <= 32,
        name@.len() == 0 || name@.last() != '\0',
    ensures
        field_text(
            (GfhToolAuthModel { cust_name: name_field(name.spec_bytes()), ..m }).cust_name,
            seq!['M', 'T', 'K'],
        ) == name@,
{
    let b = name.spec_bytes();
    let n = (32 - b.len()) as nat;
    assert(name_field(b) =~= b + Seq::new(n, |i: int| 0u8));
    lemma_padded_text(name@, n, seq!['M', 'T', 'K']);
}

/// The padding schemes are read from and written to fixed bits of the attribute word: SLA
/// uses PSS exactly when both bits of 0x6000 are set, DAA exactly when all bits of 0xC2620000
/// are set. Selecting SLA PSS keeps every bit outside 0xF000 and sets 0x6000; selecting SLA M1
/// keeps the bits outside 0xF000 and 0xF0000000 and sets 0x1000; selecting DAA PSS keeps the
/// low half and sets 0xC2620000; selecting DAA M1 keeps the low half alone.
pub proof fn lemma_pad_type_bits(m: GfhToolAuthModel, a: u32)
    ensures
        (m.sla_pad_type() == GfhSigPadType::Pss) == (m.attr & 0x6000 == 0x6000),
        (m.daa_pad_type() == GfhSigPadType::Pss) == (m.attr & 0xC262_0000 == 0xC262_0000),
        attr_with_sla_pad(a, GfhSigPadType::Pss) == (a & 0xFFFF_0FFF) | 0x6000,
        attr_with_sla_pad(a, GfhSigPadType::M1) == (a & 0x0FFF_0FFF) | 0x1000,
        attr_with_daa_pad(a, GfhSigPadType::Pss) == (a & 0xFFFF) | 0xC262_0000,
        attr_with_daa_pad(a, GfhSigPadType::M1) == a & 0xFFFF,
{
    assert((((a & 0xFFFF_0FFFu32) | 0x1000u32) & 0x0FFF_FFFFu32) == (a & 0x0FFF_0FFFu32) | 0x1000u32
        && ((a & 0xFFFFu32) & 0x0FFF_FFFFu32) == a & 0xFFFFu32) by (bit_vector);
}

} // verus!
