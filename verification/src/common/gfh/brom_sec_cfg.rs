//! The BROM_SEC_CFG section: boot ROM security settings.
use vstd::prelude::*;

use crate::bytes::{le_u16_at, le_u32_at, read_array, read_u16, read_u32};
use crate::common::gfh::file::{Gfh, GfhError};
use crate::common::gfh::header::{GfhHeader, GfhHeaderModel, GfhType};
use crate::error::{Error, Result};
use crate::text::{field_text, text_of};
use crate::traits::{view_result, TryRead};

verus! {

/// The fields of a [`GfhBromSecCfg`] as mathematical values.
pub struct GfhBromSecCfgModel {
    pub header: GfhHeaderModel,
    pub attr: u32,
    pub cust_name: Seq<u8>,
    pub permament_brom_cmd_disable: u32,
}

/// Size of the BROM_SEC_CFG section on disk.
pub const GFH_BROM_SEC_CFG_SIZE: usize = 48;

/// Bit `n` of `v`, as 0 or 1.
pub open spec fn bit_of(v: u32, n: u32) -> u32 {
    (v >> n) & 1
}

/// `v` with bit `n` set or cleared.
pub open spec fn with_bit(v: u32, n: u32, set: bool) -> u32 {
    if set {
        v | (1u32 << n)
    } else {
        v & !(1u32 << n)
    }
}

impl GfhBromSecCfgModel {
    /// What validating the section gives: the header must be valid and of this kind.
    pub open spec fn spec_validate(self) -> Result<()> {
        match self.header.spec_validate() {
            Err(e) => Err(e),
            Ok(_) => if self.header.gfh_type != GfhType::BromSecCfg {
                Err(Error::Gfh(GfhError::InvalidType(GfhType::BromSecCfg, self.header.gfh_type)))
            } else {
                Ok(())
            },
        }
    }

    /// What reading the section from `s` gives.
    pub open spec fn spec_parse(s: Seq<u8>) -> Result<GfhBromSecCfgModel> {
        if s.len() < GFH_BROM_SEC_CFG_SIZE {
            Err(Error::Gfh(GfhError::TooShort(s.len() as usize, GFH_BROM_SEC_CFG_SIZE)))
        } else {
            match GfhType::spec_from_code(le_u16_at(s, 6)) {
                Some(gfh_type) => {
                    let m = GfhBromSecCfgModel {
                        header: GfhHeaderModel {
                            magic_ver: le_u32_at(s, 0),
                            size: le_u16_at(s, 4),
                            gfh_type,
                        },
                        attr: le_u32_at(s, 8),
                        cust_name: s.subrange(12, 44),
                        permament_brom_cmd_disable: le_u32_at(s, 44),
                    };
                    match m.spec_validate() {
                        Ok(_) => Ok(m),
                        Err(e) => Err(e),
                    }
                },
                None => Err(Error::Zerocopy),
            }
        }
    }
}

/// The BROM_SEC_CFG section: attribute bits (JTAG in bit 0, debug in bit 1), a customer
/// name and a word that disables BROM commands for good.
#[derive(Debug)]
pub struct GfhBromSecCfg {
    header: GfhHeader,
    attr: u32,
    cust_name: [u8; 32],
    permament_brom_cmd_disable: u32,
}

impl View for GfhBromSecCfg {
    type V = GfhBromSecCfgModel;

    closed spec fn view(&self) -> GfhBromSecCfgModel {
        GfhBromSecCfgModel {
            header: self.header@,
            attr: self.attr,
            cust_name: self.cust_name@,
            permament_brom_cmd_disable: self.permament_brom_cmd_disable,
        }
    }
}

impl GfhBromSecCfg {
    pub fn attr(&self) -> (r: u32)
        ensures
            r == self@.attr,
    {
        self.attr
    }

    pub fn set_attr(&mut self, attr: u32)
        ensures
            final(self)@ == (GfhBromSecCfgModel { attr, ..old(self)@ }),
    {
        self.attr = attr;
    }

    pub fn jtag_enabled(&self) -> (r: bool)
        ensures
            r == (bit_of(self@.attr, 0) == 1),
            r == (self@.attr & 1 == 1),
    {
        proof {
            lemma_attr_bit_positions(self.attr);
        }
        (self.attr >> 0u32) & 1 == 1
    }

    pub fn debug_enabled(&self) -> (r: bool)
        ensures
            r == (bit_of(self@.attr, 1) == 1),
            r == (self@.attr & 2 == 2),
    {
        proof {
            lemma_attr_bit_positions(self.attr);
        }
        (self.attr >> 1u32) & 1 == 1
    }

    /// The customer name: the NUL-padded field decoded as UTF-8, `"MTK"` when it is not
    /// valid UTF-8.
    pub fn customer_name(&self) -> (r: &str)
        ensures
            r@ == field_text(self@.cust_name, seq!['M', 'T', 'K']),
    {
        proof {
            reveal_strlit("MTK");
        }
        text_of(self.cust_name.as_slice(), "MTK")
    }

    pub fn permament_brom_cmd_disable(&self) -> (r: u32)
        ensures
            r == self@.permament_brom_cmd_disable,
    {
        self.permament_brom_cmd_disable
    }

    pub fn set_jtag_enabled(&mut self, enabled: bool)
        ensures
            final(self)@ == (GfhBromSecCfgModel { attr: with_bit(old(self)@.attr, 0, enabled), ..old(self)@ }),
            final(self)@.attr == if enabled {
                old(self)@.attr | 1
            } else {
                old(self)@.attr & 0xffff_fffe
            },
    {
        proof {
            lemma_attr_bit_positions(self.attr);
        }
        if enabled {
            self.attr = self.attr | (1u32 << 0u32);
        } else {
            self.attr = self.attr & !(1u32 << 0u32);
        }
    }

    pub fn set_debug_enabled(&mut self, enabled: bool)
        ensures
            final(self)@ == (GfhBromSecCfgModel { attr: with_bit(old(self)@.attr, 1, enabled), ..old(self)@ }),
            final(self)@.attr == if enabled {
                old(self)@.attr | 2
            } else {
                old(self)@.attr & 0xffff_fffd
            },
    {
        proof {
            lemma_attr_bit_positions(self.attr);
        }
        if enabled {
            self.attr = self.attr | (1u32 << 1u32);
        } else {
            self.attr = self.attr & !(1u32 << 1u32);
        }
    }
}

/// Setting or clearing an attribute bit is seen by the bit's query and leaves the other
/// bit as it was.
pub proof fn lemma_attr_bits(v: u32, set: bool)
    ensures
        bit_of(with_bit(v, 0, set), 0) == (if set { 1u32 } else { 0u32 }),
        bit_of(with_bit(v, 0, set), 1) == bit_of(v, 1),
        bit_of(with_bit(v, 1, set), 1) == (if set { 1u32 } else { 0u32 }),
        bit_of(with_bit(v, 1, set), 0) == bit_of(v, 0),
{
    assert(((v | (1u32 << 0u32)) >> 0u32) & 1 == 1 && ((v & !(1u32 << 0u32)) >> 0u32) & 1 == 0 && ((v
        | (1u32 << 0u32)) >> 1u32) & 1 == (v >> 1u32) & 1 && ((v & !(1u32 << 0u32)) >> 1u32) & 1 == (v
        >> 1u32) & 1 && ((v | (1u32 << 1u32)) >> 1u32) & 1 == 1 && ((v & !(1u32 << 1u32)) >> 1u32) & 1
        == 0 && ((v | (1u32 << 1u32)) >> 0u32) & 1 == (v >> 0u32) & 1 && ((v & !(1u32 << 1u32))
        >> 0u32) & 1 == (v >> 0u32) & 1) by (bit_vector);
}

impl Gfh for GfhBromSecCfg {
    open spec fn spec_header(&self) -> GfhHeaderModel {
        self@.header
    }

    open spec fn spec_validate(&self) -> Result<()> {
        self@.spec_validate()
    }

    fn header(&self) -> (r: &GfhHeader)
        ensures
            r@ == self@.header,
    {
        &self.header
    }

    fn validate(&self) -> (r: Result<()>)
        ensures
            r == self.spec_validate(),
    {
        self.header.validate()?;
        if self.header.gfh_type() != GfhType::BromSecCfg {
            return Err(Error::Gfh(GfhError::InvalidType(GfhType::BromSecCfg, self.header.gfh_type())));
        }
        Ok(())
    }
}

impl<'a> TryRead<'a> for GfhBromSecCfg {
    fn try_read(data: &'a [u8]) -> (r: Result<Self>)
        ensures
            view_result(r) == GfhBromSecCfgModel::spec_parse(data@),
    {
        if data.len() < GFH_BROM_SEC_CFG_SIZE {
            return Err(Error::Gfh(GfhError::TooShort(data.len(), GFH_BROM_SEC_CFG_SIZE)));
        }
        let gfh_type = match GfhType::from_code(read_u16(data, 6)) {
            Some(t) => t,
            None => return Err(Error::Zerocopy),
        };
        let gfh = GfhBromSecCfg {
            header: GfhHeader::from_parts(read_u32(data, 0), read_u16(data, 4), gfh_type),
            attr: read_u32(data, 8),
            cust_name: read_array(data, 12),
            permament_brom_cmd_disable: read_u32(data, 44),
        };
        gfh.validate()?;
        Ok(gfh)
    }
}

/// JTAG is bit 0 of the attribute word and debug is bit 1: reading a bit is testing it in the
/// word, and setting or clearing it sets or clears that bit alone.
pub proof fn lemma_attr_bit_positions(v: u32)
    ensures
        (bit_of(v, 0) == 1) == (v & 1 == 1),
        (bit_of(v, 1) == 1) == (v & 2 == 2),
        with_bit(v, 0, true) == v | 1,
        with_bit(v, 0, false) == v & 0xffff_fffe,
        with_bit(v, 1, true) == v | 2,
        with_bit(v, 1, false) == v & 0xffff_fffd,
{
    assert((((v >> 0u32) & 1 == 1) == (v & 1 == 1)) && (((v >> 1u32) & 1 == 1) == (v & 2 == 2))
        && (v | (1u32 << 0u32)) == v | 1 && (v & !(1u32 << 0u32)) == v & 0xffff_fffe && (v | (1u32
        << 1u32)) == v | 2 && (v & !(1u32 << 1u32)) == v & 0xffff_fffd) by (bit_vector);
}

} // verus!
