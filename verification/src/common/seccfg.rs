//! The `seccfg` partition record (version 4), which holds the bootloader lock state.
use vstd::prelude::*;

use crate::bytes::{
    copy_prefix, le_u32_at, lemma_u32_bytes_of, lemma_u32_roundtrip, push_bytes, push_u32, read_array, read_u32, zeroed,
    u32_le_bytes,
};
use crate::common::lock_state::LockState;
use crate::error::{Error, Result};
use crate::traits::{view_result, TryRead, TryWrite};

verus! {

#[derive(Debug, PartialEq, Eq, Structural)]
pub enum SecCfgError {
    InvalidData,
    InvalidSize,
}

/// State of dm-verity, stored as a little-endian `u32` code (0 or 1).
#[derive(Debug, Clone, Copy, PartialEq, Eq, Structural)]
pub enum DmVerityState {
    StatusOk,
    GeneralError,
}

impl DmVerityState {
    pub open spec fn spec_code(self) -> u32 {
        match self {
            DmVerityState::StatusOk => 0,
            DmVerityState::GeneralError => 1,
        }
    }

    pub open spec fn spec_from_code(v: u32) -> Option<DmVerityState> {
        if v == 0 {
            Some(DmVerityState::StatusOk)
        } else if v == 1 {
            Some(DmVerityState::GeneralError)
        } else {
            None
        }
    }

    pub fn code(self) -> (r: u32)
        ensures
            r == self.spec_code(),
    {
        match self {
            DmVerityState::StatusOk => 0,
            DmVerityState::GeneralError => 1,
        }
    }

    pub fn from_code(v: u32) -> (r: Option<DmVerityState>)
        ensures
            r == Self::spec_from_code(v),
    {
        if v == 0 {
            Some(DmVerityState::StatusOk)
        } else if v == 1 {
            Some(DmVerityState::GeneralError)
        } else {
            None
        }
    }
}

impl Default for DmVerityState {
    fn default() -> (r: Self)
        ensures
            r == DmVerityState::StatusOk,
    {
        DmVerityState::StatusOk
    }
}

/// The fields of a [`SecCfgV4`] as mathematical values.
pub struct SecCfgV4Model {
    pub start_magic: u32,
    pub seccfg_ver: u32,
    pub seccfg_size: u32,
    pub lock_state: LockState,
    pub dm_verity_state: DmVerityState,
    pub sboot_runtime: u32,
    pub end_magic: u32,
    pub cipher: Seq<u8>,
}

/// The `seccfg` record: 60 bytes, every field a little-endian `u32` but the 32-byte hash.
#[derive(Debug)]
pub struct SecCfgV4 {
    start_magic: u32,
    seccfg_ver: u32,
    seccfg_size: u32,
    lock_state: LockState,
    dm_verity_state: DmVerityState,
    sboot_runtime: u32,
    end_magic: u32,
    cipher: [u8; 32],
}

impl View for SecCfgV4 {
    type V = SecCfgV4Model;

    closed spec fn view(&self) -> SecCfgV4Model {
        SecCfgV4Model {
            start_magic: self.start_magic,
            seccfg_ver: self.seccfg_ver,
            seccfg_size: self.seccfg_size,
            lock_state: self.lock_state,
            dm_verity_state: self.dm_verity_state,
            sboot_runtime: self.sboot_runtime,
            end_magic: self.end_magic,
            cipher: self.cipher@,
        }
    }
}

pub const SECCFG_V4_SIZE: usize = 60;

impl SecCfgV4Model {
    /// Both magic numbers are in place.
    pub open spec fn is_valid(self) -> bool {
        self.start_magic == SecCfgV4::START_MAGIC && self.end_magic == SecCfgV4::END_MAGIC
    }

    /// The on-disk encoding of the record.
    pub open spec fn spec_bytes(self) -> Seq<u8> {
        u32_le_bytes(self.start_magic) + u32_le_bytes(self.seccfg_ver) + u32_le_bytes(
            self.seccfg_size,
        ) + u32_le_bytes(self.lock_state.spec_code()) + u32_le_bytes(
            self.dm_verity_state.spec_code(),
        ) + u32_le_bytes(self.sboot_runtime) + u32_le_bytes(self.end_magic) + self.cipher
    }

    /// What reading a record from `s` gives.
    pub open spec fn spec_parse(s: Seq<u8>) -> Result<SecCfgV4Model> {
        if s.len() < SECCFG_V4_SIZE {
            Err(Error::SecCfg(SecCfgError::InvalidSize))
        } else {
            match (
                LockState::spec_from_code(le_u32_at(s, 12)),
                DmVerityState::spec_from_code(le_u32_at(s, 16)),
            ) {
                (Some(lock_state), Some(dm_verity_state)) => {
                    let m = SecCfgV4Model {
                        start_magic: le_u32_at(s, 0),
                        seccfg_ver: le_u32_at(s, 4),
                        seccfg_size: le_u32_at(s, 8),
                        lock_state,
                        dm_verity_state,
                        sboot_runtime: le_u32_at(s, 20),
                        end_magic: le_u32_at(s, 24),
                        cipher: s.subrange(28, 60),
                    };
                    if m.is_valid() {
                        Ok(m)
                    } else {
                        Err(Error::SecCfg(SecCfgError::InvalidData))
                    }
                },
                _ => Err(Error::Zerocopy),
            }
        }
    }
}

impl SecCfgV4 {
    pub const END_MAGIC: u32 = 0x45454545;
    pub const START_MAGIC: u32 = 0x4D4D4D4D;

    /// A valid version-4 record with the given lock state, dm-verity OK and a zero hash.
    pub fn new(lock_state: LockState) -> (r: Self)
        ensures
            r@ == (SecCfgV4Model {
                start_magic: Self::START_MAGIC,
                seccfg_ver: 4,
                seccfg_size: SECCFG_V4_SIZE as u32,
                lock_state,
                dm_verity_state: DmVerityState::StatusOk,
                sboot_runtime: 0,
                end_magic: Self::END_MAGIC,
                cipher: Seq::new(32, |i: int| 0u8),
            }),
    {
        let cipher: [u8; 32] = zeroed();
        Self {
            start_magic: Self::START_MAGIC,
            seccfg_ver: 4,
            seccfg_size: SECCFG_V4_SIZE as u32,
            lock_state,
            dm_verity_state: DmVerityState::StatusOk,
            sboot_runtime: 0,
            end_magic: Self::END_MAGIC,
            cipher,
        }
    }

    pub fn is_valid(&self) -> (r: bool)
        ensures
            r == self@.is_valid(),
    {
        self.start_magic == Self::START_MAGIC && self.end_magic == Self::END_MAGIC
    }

    /// The size that the record declares for itself.
    pub fn size(&self) -> (r: usize)
        ensures
            r == self@.seccfg_size,
    {
        self.seccfg_size as usize
    }

    pub fn version(&self) -> (r: u32)
        ensures
            r == self@.seccfg_ver,
    {
        self.seccfg_ver
    }

    pub fn lock_state(&self) -> (r: LockState)
        ensures
            r == self@.lock_state,
    {
        self.lock_state
    }

    pub fn dm_verity_state(&self) -> (r: DmVerityState)
        ensures
            r == self@.dm_verity_state,
    {
        self.dm_verity_state
    }

    pub fn sboot_runtime(&self) -> (r: u32)
        ensures
            r == self@.sboot_runtime,
    {
        self.sboot_runtime
    }

    pub fn hash(&self) -> (r: &[u8; 32])
        ensures
            r@ == self@.cipher,
    {
        &self.cipher
    }

    pub fn set_lock_state(&mut self, lock_state: LockState)
        ensures
            final(self)@ == (SecCfgV4Model { lock_state, ..old(self)@ }),
    {
        self.lock_state = lock_state;
    }

    pub fn set_dm_verity_state(&mut self, state: DmVerityState)
        ensures
            final(self)@ == (SecCfgV4Model { dm_verity_state: state, ..old(self)@ }),
    {
        self.dm_verity_state = state;
    }

    pub fn set_hash(&mut self, hash: &[u8; 32])
        ensures
            final(self)@ == (SecCfgV4Model { cipher: hash@, ..old(self)@ }),
    {
        self.cipher = *hash;
    }

    /// The on-disk encoding of the record.
    pub fn to_bytes(&self) -> (r: Vec<u8>)
        ensures
            r@ == self@.spec_bytes(),
    {
        let mut out: Vec<u8> = Vec::new();
        push_u32(&mut out, self.start_magic);
        push_u32(&mut out, self.seccfg_ver);
        push_u32(&mut out, self.seccfg_size);
        push_u32(&mut out, self.lock_state.code());
        push_u32(&mut out, self.dm_verity_state.code());
        push_u32(&mut out, self.sboot_runtime);
        push_u32(&mut out, self.end_magic);
        push_bytes(&mut out, self.cipher.as_slice());
        out
    }
}

impl<'a> TryRead<'a> for SecCfgV4 {
    fn try_read(data: &'a [u8]) -> (r: Result<Self>)
        ensures
            view_result(r) == SecCfgV4Model::spec_parse(data@),
    {
        if data.len() < SECCFG_V4_SIZE {
            return Err(Error::SecCfg(SecCfgError::InvalidSize));
        }
        let lock_state = match LockState::from_code(read_u32(data, 12)) {
            Some(l) => l,
            None => return Err(Error::Zerocopy),
        };
        let dm_verity_state = match DmVerityState::from_code(read_u32(data, 16)) {
            Some(d) => d,
            None => return Err(Error::Zerocopy),
        };
        let cipher: [u8; 32] = read_array(data, 28);
        let seccfg = SecCfgV4 {
            start_magic: read_u32(data, 0),
            seccfg_ver: read_u32(data, 4),
            seccfg_size: read_u32(data, 8),
            lock_state,
            dm_verity_state,
            sboot_runtime: read_u32(data, 20),
            end_magic: read_u32(data, 24),
            cipher,
        };
        if !seccfg.is_valid() {
            return Err(Error::SecCfg(SecCfgError::InvalidData));
        }
        Ok(seccfg)
    }
}

impl TryWrite for SecCfgV4 {
    fn try_write(&self, data: &mut [u8]) -> (r: Result<usize>)
        ensures
            old(data)@.len() < SECCFG_V4_SIZE ==> r == Err::<usize, Error>(
                Error::SecCfg(SecCfgError::InvalidSize),
            ) && final(data)@ == old(data)@,
            old(data)@.len() >= SECCFG_V4_SIZE ==> r == Ok::<usize, Error>(SECCFG_V4_SIZE)
                && final(data)@ == self@.spec_bytes() + old(data)@.skip(SECCFG_V4_SIZE as int),
    {
        if data.len() < SECCFG_V4_SIZE {
            return Err(Error::SecCfg(SecCfgError::InvalidSize));
        }
        let bytes = self.to_bytes();
        copy_prefix(data, bytes.as_slice());
        Ok(SECCFG_V4_SIZE)
    }
}

/// Reading back what was written gives the same record, provided its magic numbers are in
/// place; otherwise the read is refused as invalid data.
pub proof fn lemma_seccfg_read_after_write(m: SecCfgV4Model, rest: Seq<u8>)
    requires
        m.cipher.len() == 32,
    ensures
        SecCfgV4Model::spec_parse(m.spec_bytes() + rest) == if m.is_valid() {
            Ok::<SecCfgV4Model, Error>(m)
        } else {
            Err(Error::SecCfg(SecCfgError::InvalidData))
        },
{
    let s = m.spec_bytes() + rest;
    lemma_u32_roundtrip(m.start_magic);
    lemma_u32_roundtrip(m.seccfg_ver);
    lemma_u32_roundtrip(m.seccfg_size);
    lemma_u32_roundtrip(m.lock_state.spec_code());
    lemma_u32_roundtrip(m.dm_verity_state.spec_code());
    lemma_u32_roundtrip(m.sboot_runtime);
    lemma_u32_roundtrip(m.end_magic);
    assert(le_u32_at(s, 0) == le_u32_at(u32_le_bytes(m.start_magic), 0));
    assert(le_u32_at(s, 4) == le_u32_at(u32_le_bytes(m.seccfg_ver), 0));
    assert(le_u32_at(s, 8) == le_u32_at(u32_le_bytes(m.seccfg_size), 0));
    assert(le_u32_at(s, 12) == le_u32_at(u32_le_bytes(m.lock_state.spec_code()), 0));
    assert(le_u32_at(s, 16) == le_u32_at(u32_le_bytes(m.dm_verity_state.spec_code()), 0));
    assert(le_u32_at(s, 20) == le_u32_at(u32_le_bytes(m.sboot_runtime), 0));
    assert(le_u32_at(s, 24) == le_u32_at(u32_le_bytes(m.end_magic), 0));
    assert(s.subrange(28, 60) =~= m.cipher);
}

/// A record that was read gives back the bytes it was read from.
pub proof fn lemma_seccfg_write_after_read(s: Seq<u8>)
    requires
        SecCfgV4Model::spec_parse(s) is Ok,
    ensures
        SecCfgV4Model::spec_parse(s)->Ok_0.spec_bytes() == s.take(SECCFG_V4_SIZE as int),
{
    let m = SecCfgV4Model::spec_parse(s)->Ok_0;
    lemma_u32_bytes_of(s, 0);
    lemma_u32_bytes_of(s, 4);
    lemma_u32_bytes_of(s, 8);
    lemma_u32_bytes_of(s, 12);
    lemma_u32_bytes_of(s, 16);
    lemma_u32_bytes_of(s, 20);
    lemma_u32_bytes_of(s, 24);
    assert(m.spec_bytes() =~= s.take(SECCFG_V4_SIZE as int));
}

/// The lock state sits at bytes 12..16 of the record as the little-endian code of the
/// state (see `lemma_lock_state_codes`): writing puts its code there, and reading gives the
/// state whose code is there.
pub proof fn lemma_lock_state_field(m: SecCfgV4Model, s: Seq<u8>)
    ensures
        m.spec_bytes().subrange(12, 16) == u32_le_bytes(m.lock_state.spec_code()),
        SecCfgV4Model::spec_parse(s) matches Ok(r) ==> r.lock_state.spec_code() == le_u32_at(s, 12),
{
    assert(m.spec_bytes().subrange(12, 16) =~= u32_le_bytes(m.lock_state.spec_code()));
    if SecCfgV4Model::spec_parse(s) is Ok {
        crate::common::lock_state::lemma_lock_state_codes(le_u32_at(s, 12));
    }
}

} // verus!
