//! The RPMB security record, which mirrors the bootloader lock state.
use vstd::prelude::*;

use crate::bytes::{
    copy_prefix, le_u32_at, lemma_u32_bytes_of, lemma_u32_roundtrip, push_bytes, push_u32,
    read_array, read_u32, u32_le_bytes, zeroed,
};
use crate::common::lock_state::LockState;
use crate::error::{Error, Result};
use crate::traits::{view_result, TryRead, TryWrite};

verus! {

#[derive(Debug, PartialEq, Eq, Structural)]
pub enum RpmbInfoError {
    InvalidData,
    InvalidSize,
}

/// The fields of a [`SecRpmbInfo`] as mathematical values.
pub struct SecRpmbInfoModel {
    pub start_magic: u32,
    pub rpmb_ver: u32,
    pub lock_state: LockState,
    pub reserved: Seq<u8>,
    pub end_magic: u32,
}

/// The RPMB record: 256 bytes, two magic numbers around a version, a lock state and
/// 240 reserved bytes.
#[derive(Debug)]
pub struct SecRpmbInfo {
    start_magic: u32,
    rpmb_ver: u32,
    lock_state: LockState,
    reserved: [u8; 240],
    end_magic: u32,
}

impl View for SecRpmbInfo {
    type V = SecRpmbInfoModel;

    closed spec fn view(&self) -> SecRpmbInfoModel {
        SecRpmbInfoModel {
            start_magic: self.start_magic,
            rpmb_ver: self.rpmb_ver,
            lock_state: self.lock_state,
            reserved: self.reserved@,
            end_magic: self.end_magic,
        }
    }
}

pub const SEC_RPMB_INFO_SIZE: usize = 256;

impl SecRpmbInfoModel {
    /// A valid record of the default version with the given lock state and zero reserved bytes.
    pub open spec fn spec_new(lock_state: LockState) -> SecRpmbInfoModel {
        SecRpmbInfoModel {
            start_magic: SecRpmbInfo::START_MAGIC,
            rpmb_ver: SecRpmbInfo::DEFAULT_VER,
            lock_state,
            reserved: Seq::new(240, |i: int| 0u8),
            end_magic: SecRpmbInfo::END_MAGIC,
        }
    }

    pub open spec fn is_valid(self) -> bool {
        self.start_magic == SecRpmbInfo::START_MAGIC && self.end_magic == SecRpmbInfo::END_MAGIC
    }

    /// The on-disk encoding of the record.
    pub open spec fn spec_bytes(self) -> Seq<u8> {
        u32_le_bytes(self.start_magic) + u32_le_bytes(self.rpmb_ver) + u32_le_bytes(
            self.lock_state.spec_code(),
        ) + self.reserved + u32_le_bytes(self.end_magic)
    }

    /// What reading a record from `s` gives.
    pub open spec fn spec_parse(s: Seq<u8>) -> Result<SecRpmbInfoModel> {
        if s.len() < SEC_RPMB_INFO_SIZE {
            Err(Error::Rpmb(RpmbInfoError::InvalidSize))
        } else {
            match LockState::spec_from_code(le_u32_at(s, 8)) {
                Some(lock_state) => {
                    let m = SecRpmbInfoModel {
                        start_magic: le_u32_at(s, 0),
                        rpmb_ver: le_u32_at(s, 4),
                        lock_state,
                        reserved: s.subrange(12, 252),
                        end_magic: le_u32_at(s, 252),
                    };
                    if m.is_valid() {
                        Ok(m)
                    } else {
                        Err(Error::Rpmb(RpmbInfoError::InvalidData))
                    }
                },
                None => Err(Error::Zerocopy),
            }
        }
    }
}

impl SecRpmbInfo {
    /// A record always holds 240 reserved bytes, so its encoding is 256 bytes long with the end
    /// magic in its last four.
    pub proof fn lemma_wf(&self)
        ensures
            self@.reserved.len() == 240,
            self@.spec_bytes().len() == SEC_RPMB_INFO_SIZE,
            self@.spec_bytes().subrange(252, 256) == u32_le_bytes(self@.end_magic),
            self@.spec_bytes().subrange(0, 4) == u32_le_bytes(self@.start_magic),
    {
        assert(self@.spec_bytes().subrange(252, 256) =~= u32_le_bytes(self@.end_magic));
        assert(self@.spec_bytes().subrange(0, 4) =~= u32_le_bytes(self@.start_magic));
    }

    pub const DEFAULT_VER: u32 = 1;
    pub const END_MAGIC: u32 = 0x43455352;
    pub const START_MAGIC: u32 = 0x52534543;

    /// A valid record of the default version with the given lock state.
    pub fn new(lock_state: LockState) -> (r: Self)
        ensures
            r@ == SecRpmbInfoModel::spec_new(lock_state),
    {
        Self {
            start_magic: Self::START_MAGIC,
            rpmb_ver: Self::DEFAULT_VER,
            lock_state,
            reserved: zeroed(),
            end_magic: Self::END_MAGIC,
        }
    }

    pub fn is_valid(&self) -> (r: bool)
        ensures
            r == self@.is_valid(),
    {
        self.start_magic == Self::START_MAGIC && self.end_magic == Self::END_MAGIC
    }

    /// The on-disk size of the record.
    pub fn size(&self) -> (r: usize)
        ensures
            r == SEC_RPMB_INFO_SIZE,
    {
        SEC_RPMB_INFO_SIZE
    }

    pub fn version(&self) -> (r: u32)
        ensures
            r == self@.rpmb_ver,
    {
        self.rpmb_ver
    }

    pub fn lock_state(&self) -> (r: LockState)
        ensures
            r == self@.lock_state,
    {
        self.lock_state
    }

    pub fn set_lock_state(&mut self, lock_state: LockState)
        ensures
            final(self)@ == (SecRpmbInfoModel { lock_state, ..old(self)@ }),
    {
        self.lock_state = lock_state;
    }

    /// The on-disk encoding of the record.
    pub fn to_bytes(&self) -> (r: Vec<u8>)
        ensures
            r@ == self@.spec_bytes(),
    {
        let mut out: Vec<u8> = Vec::new();
        push_u32(&mut out, self.start_magic);
        push_u32(&mut out, self.rpmb_ver);
        push_u32(&mut out, self.lock_state.code());
        push_bytes(&mut out, self.reserved.as_slice());
        push_u32(&mut out, self.end_magic);
        out
    }
}

impl Default for SecRpmbInfo {
    fn default() -> (r: Self)
        ensures
            r@ == SecRpmbInfoModel::spec_new(LockState::Lock),
    {
        Self::new(LockState::Lock)
    }
}

impl<'a> TryRead<'a> for SecRpmbInfo {
    fn try_read(data: &'a [u8]) -> (r: Result<Self>)
        ensures
            view_result(r) == SecRpmbInfoModel::spec_parse(data@),
    {
        if data.len() < SEC_RPMB_INFO_SIZE {
            return Err(Error::Rpmb(RpmbInfoError::InvalidSize));
        }
        let lock_state = match LockState::from_code(read_u32(data, 8)) {
            Some(l) => l,
            None => return Err(Error::Zerocopy),
        };
        let rpmb = SecRpmbInfo {
            start_magic: read_u32(data, 0),
            rpmb_ver: read_u32(data, 4),
            lock_state,
            reserved: read_array(data, 12),
            end_magic: read_u32(data, 252),
        };
        if !rpmb.is_valid() {
            return Err(Error::Rpmb(RpmbInfoError::InvalidData));
        }
        Ok(rpmb)
    }
}

impl TryWrite for SecRpmbInfo {
    fn try_write(&self, data: &mut [u8]) -> (r: Result<usize>)
        ensures
            old(data)@.len() < SEC_RPMB_INFO_SIZE ==> r == Err::<usize, Error>(
                Error::Rpmb(RpmbInfoError::InvalidSize),
            ) && final(data)@ == old(data)@,
            old(data)@.len() >= SEC_RPMB_INFO_SIZE ==> r == Ok::<usize, Error>(SEC_RPMB_INFO_SIZE)
                && final(data)@ == self@.spec_bytes() + old(data)@.skip(SEC_RPMB_INFO_SIZE as int),
    {
        if data.len() < SEC_RPMB_INFO_SIZE {
            return Err(Error::Rpmb(RpmbInfoError::InvalidSize));
        }
        let bytes = self.to_bytes();
        copy_prefix(data, bytes.as_slice());
        Ok(SEC_RPMB_INFO_SIZE)
    }
}

/// Reading back what was written gives the same record, provided its magic numbers are in
/// place; otherwise the read is refused as invalid data.
pub proof fn lemma_rpmb_read_after_write(m: SecRpmbInfoModel, rest: Seq<u8>)
    requires
        m.reserved.len() == 240,
    ensures
        SecRpmbInfoModel::spec_parse(m.spec_bytes() + rest) == if m.is_valid() {
            Ok::<SecRpmbInfoModel, Error>(m)
        } else {
            Err(Error::Rpmb(RpmbInfoError::InvalidData))
        },
{
    let s = m.spec_bytes() + rest;
    lemma_u32_roundtrip(m.start_magic);
    lemma_u32_roundtrip(m.rpmb_ver);
    lemma_u32_roundtrip(m.lock_state.spec_code());
    lemma_u32_roundtrip(m.end_magic);
    assert(le_u32_at(s, 0) == le_u32_at(u32_le_bytes(m.start_magic), 0));
    assert(le_u32_at(s, 4) == le_u32_at(u32_le_bytes(m.rpmb_ver), 0));
    assert(le_u32_at(s, 8) == le_u32_at(u32_le_bytes(m.lock_state.spec_code()), 0));
    assert(le_u32_at(s, 252) == le_u32_at(u32_le_bytes(m.end_magic), 0));
    assert(s.subrange(12, 252) =~= m.reserved);
}

/// Writing a record and reading back what was written gives the same record when its magic
/// numbers are in place, and the invalid-data error otherwise, whatever follows the record.
pub proof fn lemma_rpmb_record_round_trip(r: &SecRpmbInfo, rest: Seq<u8>)
    ensures
        SecRpmbInfoModel::spec_parse(r@.spec_bytes() + rest) == if r@.is_valid() {
            Ok::<SecRpmbInfoModel, Error>(r@)
        } else {
            Err(Error::Rpmb(RpmbInfoError::InvalidData))
        },
{
    r.lemma_wf();
    lemma_rpmb_read_after_write(r@, rest);
}

/// A record that was read gives back the bytes it was read from.
pub proof fn lemma_rpmb_write_after_read(s: Seq<u8>)
    requires
        SecRpmbInfoModel::spec_parse(s) is Ok,
    ensures
        SecRpmbInfoModel::spec_parse(s)->Ok_0.spec_bytes() == s.take(SEC_RPMB_INFO_SIZE as int),
{
    let m = SecRpmbInfoModel::spec_parse(s)->Ok_0;
    lemma_u32_bytes_of(s, 0);
    lemma_u32_bytes_of(s, 4);
    lemma_u32_bytes_of(s, 8);
    lemma_u32_bytes_of(s, 252);
    assert(m.spec_bytes() =~= s.take(SEC_RPMB_INFO_SIZE as int));
}

/// The lock state sits at bytes 8..12 of the record as the little-endian code of the
/// state (see `lemma_lock_state_codes`): writing puts its code there, and reading gives the
/// state whose code is there.
pub proof fn lemma_lock_state_field(m: SecRpmbInfoModel, s: Seq<u8>)
    ensures
        m.spec_bytes().subrange(8, 12) == u32_le_bytes(m.lock_state.spec_code()),
        SecRpmbInfoModel::spec_parse(s) matches Ok(r) ==> r.lock_state.spec_code() == le_u32_at(s, 8),
{
    assert(m.spec_bytes().subrange(8, 12) =~= u32_le_bytes(m.lock_state.spec_code()));
    if SecRpmbInfoModel::spec_parse(s) is Ok {
        crate::common::lock_state::lemma_lock_state_codes(le_u32_at(s, 8));
    }
}

} // verus!
