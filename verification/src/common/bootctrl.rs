//! The A/B boot control record kept in the `misc` partition.
use vstd::prelude::*;

use crate::bytes::{
    copy_prefix, le_u16_at, le_u32_at, lemma_u16_bytes_of, lemma_u16_roundtrip,
    lemma_u32_bytes_of, lemma_u32_roundtrip, push_bytes, push_u16, push_u32, read_array,
    read_u16, read_u32, u16_le_bytes, u32_le_bytes,
};
use crate::checksum::{crc32, crc32_ieee};
use crate::error::{Error, Result};
use crate::text::str_from_utf8;
use vstd::utf8::valid_utf8;
use crate::traits::{view_result, TryRead, TryWrite};

verus! {

/// Where the boot control record starts in the `misc` partition.
pub const OFFSET_SLOT_SUFFIX: usize = 0x800;
pub const BOOTCTRL_MAGIC: u32 = 0x42414342;
/// Largest value of the 3-bit "tries remaining" field.
pub const BOOTCTRL_MAX_RETRY: u8 = 7;
/// Largest value of the 4-bit priority field.
pub const BOOTCTRL_MAX_PRIORITY: u8 = 15;
pub const BOOTCTRL_DEFAULT_SLOT_COUNT: u8 = 2;
pub const BOOTCTRL_SLOT_A_SUFFIX: &'static str = "_a";
pub const BOOTCTRL_SLOT_B_SUFFIX: &'static str = "_b";
/// On-disk size of the record.
pub const BOOTCTRL_SIZE: usize = 32;

#[derive(Debug, PartialEq, Eq, Structural)]
pub enum BootControlError {
    InvalidData,
    InvalidSize,
}

#[derive(Debug, Clone, Copy, PartialEq, Eq, Structural)]
pub enum BootPartition {
    A,
    B,
}

/// The bit fields of a slot's metadata word.
pub struct SlotFields {
    pub priority: u8,
    pub tries_remaining: u8,
    pub successful_boot: u8,
    pub verity_corrupted: u8,
    pub reserved: u8,
}

/// The fields of a slot metadata word: priority in bits 0-3, tries remaining in bits 4-6,
/// successful boot in bit 7, dm-verity corruption in bit 8, the rest reserved.
pub open spec fn slot_fields(v: u16) -> SlotFields {
    SlotFields {
        priority: (v & 0xf) as u8,
        tries_remaining: ((v >> 4) & 0x7) as u8,
        successful_boot: ((v >> 7) & 0x1) as u8,
        verity_corrupted: ((v >> 8) & 0x1) as u8,
        reserved: ((v >> 9) & 0x7f) as u8,
    }
}

/// Metadata of a slot, as bit fields of a 16-bit word.
#[derive(Debug, Clone, Copy, PartialEq, Eq, Structural)]
pub struct SlotMetadataBits {
    value: u16,
}

impl View for SlotMetadataBits {
    type V = SlotFields;

    closed spec fn view(&self) -> SlotFields {
        slot_fields(self.value)
    }
}

impl SlotMetadataBits {
    /// The word that holds the fields.
    pub closed spec fn raw(self) -> u16 {
        self.value
    }

    /// Metadata with the given fields and the reserved bits clear.
    pub fn new(priority: u8, tries_remaining: u8, successful_boot: u8, verity_corrupted: u8) -> (r:
        Self)
        requires
            priority < 16,
            tries_remaining < 8,
            successful_boot < 2,
            verity_corrupted < 2,
        ensures
            r@ == (SlotFields { priority, tries_remaining, successful_boot, verity_corrupted, reserved: 0 }),
    {
        let value: u16 = (priority as u16) | ((tries_remaining as u16) << 4) | ((
        successful_boot as u16) << 7) | ((verity_corrupted as u16) << 8);
        let p = priority as u16;
        let t = tries_remaining as u16;
        let s = successful_boot as u16;
        let v = verity_corrupted as u16;
        assert((value & 0xf) == p && ((value >> 4) & 0x7) == t && ((value >> 7) & 0x1) == s && ((
        value >> 8) & 0x1) == v && ((value >> 9) & 0x7f) == 0) by (bit_vector)
            requires
                p < 16,
                t < 8,
                s < 2,
                v < 2,
                value == p | (t << 4) | (s << 7) | (v << 8),
        ;
        SlotMetadataBits { value }
    }

    pub fn priority(&self) -> (r: u8)
        ensures
            r == self@.priority,
    {
        (self.value & 0xf) as u8
    }

    pub fn tries_remaining(&self) -> (r: u8)
        ensures
            r == self@.tries_remaining,
    {
        ((self.value >> 4) & 0x7) as u8
    }

    pub fn successful_boot(&self) -> (r: u8)
        ensures
            r == self@.successful_boot,
    {
        ((self.value >> 7) & 0x1) as u8
    }

    pub fn verity_corrupted(&self) -> (r: u8)
        ensures
            r == self@.verity_corrupted,
    {
        ((self.value >> 8) & 0x1) as u8
    }

    pub fn set_priority(&mut self, priority: u8)
        requires
            priority < 16,
        ensures
            final(self)@ == (SlotFields { priority, ..old(self)@ }),
    {
        let old_v = self.value;
        let p = priority as u16;
        let value = (old_v & 0xfff0) | p;
        assert((value & 0xf) == p && ((value >> 4) & 0x7) == ((old_v >> 4) & 0x7) && ((value >> 7)
            & 0x1) == ((old_v >> 7) & 0x1) && ((value >> 8) & 0x1) == ((old_v >> 8) & 0x1) && ((
        value >> 9) & 0x7f) == ((old_v >> 9) & 0x7f)) by (bit_vector)
            requires
                p < 16,
                value == (old_v & 0xfff0) | p,
        ;
        self.value = value;
    }

    pub fn set_tries_remaining(&mut self, tries_remaining: u8)
        requires
            tries_remaining < 8,
        ensures
            final(self)@ == (SlotFields { tries_remaining, ..old(self)@ }),
    {
        let old_v = self.value;
        let t = tries_remaining as u16;
        let value = (old_v & 0xff8f) | (t << 4);
        assert((value & 0xf) == (old_v & 0xf) && ((value >> 4) & 0x7) == t && ((value >> 7) & 0x1)
            == ((old_v >> 7) & 0x1) && ((value >> 8) & 0x1) == ((old_v >> 8) & 0x1) && ((value
            >> 9) & 0x7f) == ((old_v >> 9) & 0x7f)) by (bit_vector)
            requires
                t < 8,
                value == (old_v & 0xff8f) | (t << 4),
        ;
        self.value = value;
    }

    pub fn set_successful_boot(&mut self, successful_boot: u8)
        requires
            successful_boot < 2,
        ensures
            final(self)@ == (SlotFields { successful_boot, ..old(self)@ }),
    {
        let old_v = self.value;
        let s = successful_boot as u16;
        let value = (old_v & 0xff7f) | (s << 7);
        assert((value & 0xf) == (old_v & 0xf) && ((value >> 4) & 0x7) == ((old_v >> 4) & 0x7) && ((
        value >> 7) & 0x1) == s && ((value >> 8) & 0x1) == ((old_v >> 8) & 0x1) && ((value >> 9)
            & 0x7f) == ((old_v >> 9) & 0x7f)) by (bit_vector)
            requires
                s < 2,
                value == (old_v & 0xff7f) | (s << 7),
        ;
        self.value = value;
    }

    pub fn set_verity_corrupted(&mut self, verity_corrupted: u8)
        requires
            verity_corrupted < 2,
        ensures
            final(self)@ == (SlotFields { verity_corrupted, ..old(self)@ }),
    {
        let old_v = self.value;
        let c = verity_corrupted as u16;
        let value = (old_v & 0xfeff) | (c << 8);
        assert((value & 0xf) == (old_v & 0xf) && ((value >> 4) & 0x7) == ((old_v >> 4) & 0x7) && ((
        value >> 7) & 0x1) == ((old_v >> 7) & 0x1) && ((value >> 8) & 0x1) == c && ((value >> 9)
            & 0x7f) == ((old_v >> 9) & 0x7f)) by (bit_vector)
            requires
                c < 2,
                value == (old_v & 0xfeff) | (c << 8),
        ;
        self.value = value;
    }
}

/// A word's fields determine the word.
pub proof fn lemma_slot_fields_injective(a: u16, b: u16)
    requires
        slot_fields(a) == slot_fields(b),
    ensures
        a == b,
{
    let fa = slot_fields(a);
    let fb = slot_fields(b);
    assert(fa.priority == fb.priority);
    assert(fa.reserved == fb.reserved);
    assert((((a & 0xf) as u8) == ((b & 0xf) as u8) && (((a >> 4) & 0x7) as u8) == (((b >> 4) & 0x7) as u8)
        && (((a >> 7) & 0x1) as u8) == (((b >> 7) & 0x1) as u8) && (((a >> 8) & 0x1) as u8) == (((b
        >> 8) & 0x1) as u8) && (((a >> 9) & 0x7f) as u8) == (((b >> 9) & 0x7f) as u8)) ==> a == b)
        by (bit_vector);
}

impl Default for SlotMetadataBits {
    /// Highest priority, all tries left, not yet booted, no corruption.
    fn default() -> (r: Self)
        ensures
            r@ == (SlotFields {
                priority: BOOTCTRL_MAX_PRIORITY,
                tries_remaining: BOOTCTRL_MAX_RETRY,
                successful_boot: 0,
                verity_corrupted: 0,
                reserved: 0,
            }),
    {
        Self::new(BOOTCTRL_MAX_PRIORITY, BOOTCTRL_MAX_RETRY, 0, 0)
    }
}

/// A slot's metadata word as stored in the record.
#[derive(Debug, Clone, Copy, PartialEq, Eq, Structural)]
pub struct SlotMetadata(u16);

impl View for SlotMetadata {
    type V = u16;

    closed spec fn view(&self) -> u16 {
        self.0
    }
}

impl SlotMetadata {
    pub fn bits(self) -> (r: SlotMetadataBits)
        ensures
            r.raw() == self@,
            r@ == slot_fields(self@),
    {
        SlotMetadataBits { value: self.0 }
    }

    pub fn update(&mut self, bits: SlotMetadataBits)
        ensures
            final(self)@ == bits.raw(),
    {
        self.0 = bits.value;
    }
}

impl Default for SlotMetadata {
    fn default() -> (r: Self)
        ensures
            r@ == 0,
    {
        SlotMetadata(0)
    }
}

/// The bit fields of the record's general information word.
pub struct InfoFields {
    pub slot_count: u8,
    pub recovery_tries_remaining: u8,
    pub merge_status: u8,
    pub reserved: u8,
}

/// The fields of the information word: slot count in bits 0-2, recovery tries in bits 3-5,
/// merge status in bits 6-8, the rest reserved.
pub open spec fn info_fields(v: u16) -> InfoFields {
    InfoFields {
        slot_count: (v & 0x7) as u8,
        recovery_tries_remaining: ((v >> 3) & 0x7) as u8,
        merge_status: ((v >> 6) & 0x7) as u8,
        reserved: ((v >> 9) & 0x7f) as u8,
    }
}

/// General information of the record, as bit fields of a 16-bit word.
#[derive(Debug, Clone, Copy, PartialEq, Eq, Structural)]
pub struct BootControlInfoBits {
    value: u16,
}

impl View for BootControlInfoBits {
    type V = InfoFields;

    closed spec fn view(&self) -> InfoFields {
        info_fields(self.value)
    }
}

impl BootControlInfoBits {
    /// The word that holds the fields.
    pub closed spec fn raw(self) -> u16 {
        self.value
    }

    pub fn slot_count(&self) -> (r: u8)
        ensures
            r == self@.slot_count,
    {
        (self.value & 0x7) as u8
    }

    pub fn recovery_tries_remaining(&self) -> (r: u8)
        ensures
            r == self@.recovery_tries_remaining,
    {
        ((self.value >> 3) & 0x7) as u8
    }

    pub fn merge_status(&self) -> (r: u8)
        ensures
            r == self@.merge_status,
    {
        ((self.value >> 6) & 0x7) as u8
    }

    pub fn set_slot_count(&mut self, slot_count: u8)
        requires
            slot_count < 8,
        ensures
            final(self)@ == (InfoFields { slot_count, ..old(self)@ }),
    {
        let old_v = self.value;
        let c = slot_count as u16;
        let value = (old_v & 0xfff8) | c;
        assert((value & 0x7) == c && ((value >> 3) & 0x7) == ((old_v >> 3) & 0x7) && ((value >> 6)
            & 0x7) == ((old_v >> 6) & 0x7) && ((value >> 9) & 0x7f) == ((old_v >> 9) & 0x7f))
            by (bit_vector)
            requires
                c < 8,
                value == (old_v & 0xfff8) | c,
        ;
        self.value = value;
    }

    pub fn set_recovery_tries_remaining(&mut self, tries: u8)
        requires
            tries < 8,
        ensures
            final(self)@ == (InfoFields { recovery_tries_remaining: tries, ..old(self)@ }),
    {
        let old_v = self.value;
        let t = tries as u16;
        let value = (old_v & 0xffc7) | (t << 3);
        assert((value & 0x7) == (old_v & 0x7) && ((value >> 3) & 0x7) == t && ((value >> 6) & 0x7)
            == ((old_v >> 6) & 0x7) && ((value >> 9) & 0x7f) == ((old_v >> 9) & 0x7f))
            by (bit_vector)
            requires
                t < 8,
                value == (old_v & 0xffc7) | (t << 3),
        ;
        self.value = value;
    }

    pub fn set_merge_status(&mut self, merge_status: u8)
        requires
            merge_status < 8,
        ensures
            final(self)@ == (InfoFields { merge_status, ..old(self)@ }),
    {
        let old_v = self.value;
        let m = merge_status as u16;
        let value = (old_v & 0xfe3f) | (m << 6);
        assert((value & 0x7) == (old_v & 0x7) && ((value >> 3) & 0x7) == ((old_v >> 3) & 0x7) && ((
        value >> 6) & 0x7) == m && ((value >> 9) & 0x7f) == ((old_v >> 9) & 0x7f)) by (bit_vector)
            requires
                m < 8,
                value == (old_v & 0xfe3f) | (m << 6),
        ;
        self.value = value;
    }
}

impl Default for BootControlInfoBits {
    fn default() -> (r: Self)
        ensures
            r.raw() == 0,
    {
        BootControlInfoBits { value: 0 }
    }
}

/// The information word as stored in the record.
#[derive(Debug, Clone, Copy, PartialEq, Eq, Structural)]
pub struct BootControlInfo(u16);

impl View for BootControlInfo {
    type V = u16;

    closed spec fn view(&self) -> u16 {
        self.0
    }
}

impl BootControlInfo {
    pub fn bits(self) -> (r: BootControlInfoBits)
        ensures
            r.raw() == self@,
            r@ == info_fields(self@),
    {
        BootControlInfoBits { value: self.0 }
    }

    pub fn update(&mut self, bits: BootControlInfoBits)
        ensures
            final(self)@ == bits.raw(),
    {
        self.0 = bits.value;
    }
}

impl Default for BootControlInfo {
    fn default() -> (r: Self)
        ensures
            r@ == 0,
    {
        BootControlInfo(0)
    }
}

} // verus!

verus! {

/// The fields of a [`BootControl`] as mathematical values.
pub struct BootControlModel {
    pub suffix: Seq<u8>,
    pub magic: u32,
    pub version: u8,
    pub control_info: u16,
    pub pad: u8,
    pub slots: Seq<u16>,
    pub reserved: Seq<u8>,
    pub crc: u32,
}

/// The active-slot suffix bytes for slot A, `"_a\0\0"`.
pub open spec fn suffix_a() -> Seq<u8> {
    seq![0x5fu8, 0x61u8, 0u8, 0u8]
}

/// The active-slot suffix bytes for slot B, `"_b\0\0"`.
pub open spec fn suffix_b() -> Seq<u8> {
    seq![0x5fu8, 0x62u8, 0u8, 0u8]
}

/// The index of a slot in the record's slot table.
pub open spec fn slot_index(slot: BootPartition) -> int {
    match slot {
        BootPartition::A => 0,
        BootPartition::B => 1,
    }
}

/// What the current-suffix query gives for the suffix bytes: nothing when they are not valid
/// UTF-8, else `"_a"` or `"_b"` by their first two bytes.
pub open spec fn spec_current_suffix(suffix: Seq<u8>) -> Option<Seq<char>> {
    if !valid_utf8(suffix) {
        None
    } else if suffix[0] == 0x5f && suffix[1] == 0x61 {
        Some(seq!['_', 'a'])
    } else if suffix[0] == 0x5f && suffix[1] == 0x62 {
        Some(seq!['_', 'b'])
    } else {
        None
    }
}

impl BootControlModel {
    /// Array lengths as the record has them.
    pub open spec fn wf(self) -> bool {
        &&& self.suffix.len() == 4
        &&& self.slots.len() == 4
        &&& self.reserved.len() == 8
    }

    /// The bytes that the checksum covers: everything before it.
    pub open spec fn payload(self) -> Seq<u8> {
        self.suffix + u32_le_bytes(self.magic) + seq![self.version] + u16_le_bytes(
            self.control_info,
        ) + seq![self.pad] + u16_le_bytes(self.slots[0]) + u16_le_bytes(self.slots[1])
            + u16_le_bytes(self.slots[2]) + u16_le_bytes(self.slots[3]) + self.reserved
    }

    /// The on-disk encoding of the record.
    pub open spec fn spec_bytes(self) -> Seq<u8> {
        self.payload() + u32_le_bytes(self.crc)
    }

    /// The magic number is in place and the checksum matches.
    pub open spec fn is_valid(self) -> bool {
        self.magic == BOOTCTRL_MAGIC && crc32_ieee(self.payload()) == self.crc
    }

    /// The record with its checksum recomputed.
    pub open spec fn with_crc(self) -> BootControlModel {
        BootControlModel { crc: crc32_ieee(self.payload()), ..self }
    }

    /// The active slot: A unless B has the strictly higher priority.
    pub open spec fn active_slot(self) -> BootPartition {
        if slot_fields(self.slots[0]).priority >= slot_fields(self.slots[1]).priority {
            BootPartition::A
        } else {
            BootPartition::B
        }
    }

    /// `new` is `self` after making `slot` active: that slot gets the highest priority, all
    /// its tries back and its boot and corruption flags cleared; the other slot gets the
    /// priority just below; the suffix names the slot; the checksum is recomputed. Nothing
    /// else changes.
    pub open spec fn set_active_post(self, new: BootControlModel, slot: BootPartition) -> bool {
        let a = slot_index(slot);
        let o = 1 - slot_index(slot);
        &&& new.wf()
        &&& slot_fields(new.slots[a]) == SlotFields {
            priority: BOOTCTRL_MAX_PRIORITY,
            tries_remaining: BOOTCTRL_MAX_RETRY,
            successful_boot: 0,
            verity_corrupted: 0,
            ..slot_fields(self.slots[a])
        }
        &&& slot_fields(new.slots[o]) == SlotFields {
            priority: (BOOTCTRL_MAX_PRIORITY - 1) as u8,
            ..slot_fields(self.slots[o])
        }
        &&& new.slots[2] == self.slots[2]
        &&& new.slots[3] == self.slots[3]
        &&& new.suffix == match slot {
            BootPartition::A => suffix_a(),
            BootPartition::B => suffix_b(),
        }
        &&& new.magic == self.magic
        &&& new.version == self.version
        &&& new.control_info == self.control_info
        &&& new.pad == self.pad
        &&& new.reserved == self.reserved
        &&& new.crc == crc32_ieee(new.payload())
    }

    /// What reading a record from `s` gives.
    pub open spec fn spec_parse(s: Seq<u8>) -> Result<BootControlModel> {
        if s.len() < BOOTCTRL_SIZE {
            Err(Error::BootControl(BootControlError::InvalidSize))
        } else {
            let m = BootControlModel {
                suffix: s.subrange(0, 4),
                magic: le_u32_at(s, 4),
                version: s[8],
                control_info: le_u16_at(s, 9),
                pad: s[11],
                slots: seq![le_u16_at(s, 12), le_u16_at(s, 14), le_u16_at(s, 16), le_u16_at(s, 18)],
                reserved: s.subrange(20, 28),
                crc: le_u32_at(s, 28),
            };
            if m.is_valid() {
                Ok(m)
            } else {
                Err(Error::BootControl(BootControlError::InvalidData))
            }
        }
    }
}

/// The A/B boot control record: 32 bytes, the last four a CRC-32 of the rest.
#[derive(Debug, Clone)]
pub struct BootControl {
    suffix: [u8; 4],
    magic: u32,
    version: u8,
    control_info: BootControlInfo,
    pad: u8,
    slots: [SlotMetadata; 4],
    reserved: [u8; 8],
    crc: u32,
}

impl View for BootControl {
    type V = BootControlModel;

    closed spec fn view(&self) -> BootControlModel {
        BootControlModel {
            suffix: self.suffix@,
            magic: self.magic,
            version: self.version,
            control_info: self.control_info@,
            pad: self.pad,
            slots: self.slots@.map_values(|s: SlotMetadata| s@),
            reserved: self.reserved@,
            crc: self.crc,
        }
    }
}

impl BootControl {
    /// A record always has four suffix bytes, four slots and eight reserved bytes.
    pub proof fn lemma_wf(&self)
        ensures
            self@.wf(),
    {
    }

    /// The bytes that the checksum covers.
    fn payload_bytes(&self) -> (r: Vec<u8>)
        ensures
            r@ == self@.payload(),
    {
        let mut out: Vec<u8> = Vec::new();
        push_bytes(&mut out, self.suffix.as_slice());
        push_u32(&mut out, self.magic);
        out.push(self.version);
        push_u16(&mut out, self.control_info.0);
        out.push(self.pad);
        push_u16(&mut out, self.slots[0].0);
        push_u16(&mut out, self.slots[1].0);
        push_u16(&mut out, self.slots[2].0);
        push_u16(&mut out, self.slots[3].0);
        push_bytes(&mut out, self.reserved.as_slice());
        assert(out@ =~= self@.payload());
        out
    }

    /// The on-disk encoding of the record.
    pub fn to_bytes(&self) -> (r: Vec<u8>)
        ensures
            r@ == self@.spec_bytes(),
    {
        let mut out = self.payload_bytes();
        push_u32(&mut out, self.crc);
        out
    }

    fn compute_crc(&self) -> (r: u32)
        ensures
            r == crc32_ieee(self@.payload()),
    {
        let payload = self.payload_bytes();
        crc32(payload.as_slice())
    }

    /// Recomputes the checksum from the other fields.
    pub fn update_crc(&mut self)
        ensures
            final(self)@ == old(self)@.with_crc(),
    {
        self.crc = self.compute_crc();
    }

    pub fn is_valid(&self) -> (r: bool)
        ensures
            r == self@.is_valid(),
    {
        let crc_valid = self.compute_crc() == self.crc;
        self.magic == BOOTCTRL_MAGIC && crc_valid
    }

    /// The checksum stored in the record.
    pub fn crc32(&self) -> (r: u32)
        ensures
            r == self@.crc,
    {
        self.crc
    }

    pub fn get_slot(&self, slot: BootPartition) -> (r: SlotMetadataBits)
        ensures
            r.raw() == self@.slots[slot_index(slot)],
            r@ == slot_fields(self@.slots[slot_index(slot)]),
    {
        match slot {
            BootPartition::A => self.slots[0].bits(),
            BootPartition::B => self.slots[1].bits(),
        }
    }

    pub fn get_active_slot(&self) -> (r: BootPartition)
        ensures
            r == self@.active_slot(),
    {
        let slot_a = self.slots[0].bits();
        let slot_b = self.slots[1].bits();
        if slot_a.priority() >= slot_b.priority() {
            BootPartition::A
        } else {
            BootPartition::B
        }
    }

    /// Makes `slot` the active one (see [`BootControlModel::set_active_post`]).
    pub fn set_active_slot(&mut self, slot: BootPartition)
        ensures
            old(self)@.set_active_post(final(self)@, slot),
    {
        let (active, other): (usize, usize) = match slot {
            BootPartition::A => (0, 1),
            BootPartition::B => (1, 0),
        };
        let mut slots = self.slots;
        let mut active_bits = slots[active].bits();
        active_bits.set_priority(BOOTCTRL_MAX_PRIORITY);
        active_bits.set_tries_remaining(BOOTCTRL_MAX_RETRY);
        active_bits.set_successful_boot(0);
        active_bits.set_verity_corrupted(0);
        let mut active_slot = slots[active];
        active_slot.update(active_bits);
        slots[active] = active_slot;

        let mut other_bits = slots[other].bits();
        other_bits.set_priority(BOOTCTRL_MAX_PRIORITY - 1);
        let mut other_slot = slots[other];
        other_slot.update(other_bits);
        slots[other] = other_slot;

        self.slots = slots;
        self.suffix = match slot {
            BootPartition::A => [0x5fu8, 0x61u8, 0u8, 0u8],
            BootPartition::B => [0x5fu8, 0x62u8, 0u8, 0u8],
        };
        assert(self.suffix@ =~= match slot {
            BootPartition::A => suffix_a(),
            BootPartition::B => suffix_b(),
        });
        self.update_crc();
    }

    /// `"_a"` or `"_b"` as the stored suffix names slot A or B; nothing when the suffix
    /// is not valid UTF-8 or names neither.
    pub fn get_current_suffix(&self) -> (r: Option<&str>)
        ensures
            r is Some <==> spec_current_suffix(self@.suffix) is Some,
            r matches Some(s) ==> s@ == spec_current_suffix(self@.suffix)->Some_0,
    {
        if str_from_utf8(self.suffix.as_slice()).is_none() {
            return None;
        }
        proof {
            reveal_strlit("_a");
            reveal_strlit("_b");
        }
        if self.suffix[0] == 0x5f && self.suffix[1] == 0x61 {
            Some("_a")
        } else if self.suffix[0] == 0x5f && self.suffix[1] == 0x62 {
            Some("_b")
        } else {
            None
        }
    }
}

impl Default for BootControl {
    /// Slot A active, two slots, both at full priority and tries, checksum in place.
    fn default() -> (r: Self)
        ensures
            r@.suffix == suffix_a(),
            r@.magic == BOOTCTRL_MAGIC,
            r@.version == 1,
            info_fields(r@.control_info) == (InfoFields {
                slot_count: BOOTCTRL_DEFAULT_SLOT_COUNT,
                recovery_tries_remaining: 0,
                merge_status: 0,
                reserved: 0,
            }),
            r@.pad == 0,
            slot_fields(r@.slots[0]) == (SlotFields {
                priority: BOOTCTRL_MAX_PRIORITY,
                tries_remaining: BOOTCTRL_MAX_RETRY,
                successful_boot: 0,
                verity_corrupted: 0,
                reserved: 0,
            }),
            r@.slots[1] == r@.slots[0],
            r@.slots[2] == 0,
            r@.slots[3] == 0,
            r@.reserved == Seq::new(8, |i: int| 0u8),
            r@.crc == crc32_ieee(r@.payload()),
            r@.is_valid(),
    {
        let mut info_bits = BootControlInfoBits::default();
        info_bits.set_slot_count(BOOTCTRL_DEFAULT_SLOT_COUNT);
        let mut control_info = BootControlInfo::default();
        control_info.update(info_bits);
        assert(info_fields(0) == (InfoFields {
            slot_count: 0,
            recovery_tries_remaining: 0,
            merge_status: 0,
            reserved: 0,
        })) by (bit_vector);
        let slot_default = SlotMetadataBits::default();
        let reserved = [0u8; 8];
        assert(reserved@ =~= Seq::new(8, |i: int| 0u8));
        let mut bootctrl = Self {
            suffix: [0x5fu8, 0x61u8, 0u8, 0u8],
            magic: BOOTCTRL_MAGIC,
            version: 1,
            control_info,
            pad: 0,
            slots: [
                SlotMetadata(slot_default.value),
                SlotMetadata(slot_default.value),
                SlotMetadata(0),
                SlotMetadata(0),
            ],
            reserved,
            crc: 0,
        };
        assert(bootctrl.suffix@ =~= suffix_a());
        bootctrl.update_crc();
        bootctrl
    }
}

impl<'a> TryRead<'a> for BootControl {
    fn try_read(data: &'a [u8]) -> (r: Result<Self>)
        ensures
            view_result(r) == BootControlModel::spec_parse(data@),
    {
        if data.len() < BOOTCTRL_SIZE {
            return Err(Error::BootControl(BootControlError::InvalidSize));
        }
        let bctrl = BootControl {
            suffix: read_array(data, 0),
            magic: read_u32(data, 4),
            version: data[8],
            control_info: BootControlInfo(read_u16(data, 9)),
            pad: data[11],
            slots: [
                SlotMetadata(read_u16(data, 12)),
                SlotMetadata(read_u16(data, 14)),
                SlotMetadata(read_u16(data, 16)),
                SlotMetadata(read_u16(data, 18)),
            ],
            reserved: read_array(data, 20),
            crc: read_u32(data, 28),
        };
        assert(bctrl@.slots =~= seq![
            le_u16_at(data@, 12),
            le_u16_at(data@, 14),
            le_u16_at(data@, 16),
            le_u16_at(data@, 18),
        ]);
        if !bctrl.is_valid() {
            return Err(Error::BootControl(BootControlError::InvalidData));
        }
        Ok(bctrl)
    }
}

impl TryWrite for BootControl {
    fn try_write(&self, data: &mut [u8]) -> (r: Result<usize>)
        ensures
            old(data)@.len() < BOOTCTRL_SIZE ==> r == Err::<usize, Error>(
                Error::BootControl(BootControlError::InvalidSize),
            ) && final(data)@ == old(data)@,
            old(data)@.len() >= BOOTCTRL_SIZE ==> r == Ok::<usize, Error>(BOOTCTRL_SIZE)
                && final(data)@ == self@.spec_bytes() + old(data)@.skip(BOOTCTRL_SIZE as int),
    {
        if data.len() < BOOTCTRL_SIZE {
            return Err(Error::BootControl(BootControlError::InvalidSize));
        }
        let bytes = self.to_bytes();
        copy_prefix(data, bytes.as_slice());
        Ok(BOOTCTRL_SIZE)
    }
}

/// After a slot is made active it is the active slot.
pub proof fn lemma_set_active_then_active(old: BootControlModel, new: BootControlModel, slot: BootPartition)
    requires
        old.wf(),
        old.set_active_post(new, slot),
    ensures
        new.active_slot() == slot,
{
}

/// Making a slot active keeps a record with its magic number in place valid: the checksum is
/// recomputed.
pub proof fn lemma_set_active_keeps_valid(old: BootControlModel, new: BootControlModel, slot: BootPartition)
    requires
        old.wf(),
        old.magic == BOOTCTRL_MAGIC,
        old.set_active_post(new, slot),
    ensures
        new.is_valid(),
{
}

/// Reading back what was written gives the same record, provided it is valid; otherwise the
/// read is refused as invalid data.
pub proof fn lemma_bootctrl_read_after_write(m: BootControlModel, rest: Seq<u8>)
    requires
        m.wf(),
    ensures
        BootControlModel::spec_parse(m.spec_bytes() + rest) == if m.is_valid() {
            Ok::<BootControlModel, Error>(m)
        } else {
            Err(Error::BootControl(BootControlError::InvalidData))
        },
{
    let s = m.spec_bytes() + rest;
    lemma_u32_roundtrip(m.magic);
    lemma_u16_roundtrip(m.control_info);
    lemma_u16_roundtrip(m.slots[0]);
    lemma_u16_roundtrip(m.slots[1]);
    lemma_u16_roundtrip(m.slots[2]);
    lemma_u16_roundtrip(m.slots[3]);
    lemma_u32_roundtrip(m.crc);
    assert(le_u32_at(s, 4) == le_u32_at(u32_le_bytes(m.magic), 0));
    assert(le_u16_at(s, 9) == le_u16_at(u16_le_bytes(m.control_info), 0));
    assert(le_u16_at(s, 12) == le_u16_at(u16_le_bytes(m.slots[0]), 0));
    assert(le_u16_at(s, 14) == le_u16_at(u16_le_bytes(m.slots[1]), 0));
    assert(le_u16_at(s, 16) == le_u16_at(u16_le_bytes(m.slots[2]), 0));
    assert(le_u16_at(s, 18) == le_u16_at(u16_le_bytes(m.slots[3]), 0));
    assert(le_u32_at(s, 28) == le_u32_at(u32_le_bytes(m.crc), 0));
    let p = BootControlModel::spec_parse(s);
    let d = BootControlModel {
        suffix: s.subrange(0, 4),
        magic: le_u32_at(s, 4),
        version: s[8],
        control_info: le_u16_at(s, 9),
        pad: s[11],
        slots: seq![le_u16_at(s, 12), le_u16_at(s, 14), le_u16_at(s, 16), le_u16_at(s, 18)],
        reserved: s.subrange(20, 28),
        crc: le_u32_at(s, 28),
    };
    assert(d.suffix =~= m.suffix);
    assert(d.slots =~= m.slots);
    assert(d.reserved =~= m.reserved);
    assert(d == m);
}

/// A record that was read gives back the bytes it was read from.
pub proof fn lemma_bootctrl_write_after_read(s: Seq<u8>)
    requires
        BootControlModel::spec_parse(s) is Ok,
    ensures
        BootControlModel::spec_parse(s)->Ok_0.spec_bytes() == s.take(BOOTCTRL_SIZE as int),
{
    let m = BootControlModel::spec_parse(s)->Ok_0;
    lemma_u32_bytes_of(s, 4);
    lemma_u16_bytes_of(s, 9);
    lemma_u16_bytes_of(s, 12);
    lemma_u16_bytes_of(s, 14);
    lemma_u16_bytes_of(s, 16);
    lemma_u16_bytes_of(s, 18);
    lemma_u32_bytes_of(s, 28);
    assert(m.spec_bytes() =~= s.take(BOOTCTRL_SIZE as int));
}

} // verus!
