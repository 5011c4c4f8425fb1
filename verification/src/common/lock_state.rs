//! The bootloader lock state shared by the security records.
use vstd::prelude::*;

verus! {

/// Lock state of the bootloader, stored on disk as a little-endian `u32` code from 1 to 6.
#[derive(Debug, Clone, Copy, PartialEq, Eq, Structural)]
pub enum LockState {
    Default,
    MpDefault,
    Unlock,
    Lock,
    Verified,
    Custom,
}

impl LockState {
    /// The on-disk code of the state.
    pub open spec fn spec_code(self) -> u32 {
        match self {
            LockState::Default => 1,
            LockState::MpDefault => 2,
            LockState::Unlock => 3,
            LockState::Lock => 4,
            LockState::Verified => 5,
            LockState::Custom => 6,
        }
    }

    /// The state that an on-disk code stands for, if any.
    pub open spec fn spec_from_code(v: u32) -> Option<LockState> {
        if v == 1 {
            Some(LockState::Default)
        } else if v == 2 {
            Some(LockState::MpDefault)
        } else if v == 3 {
            Some(LockState::Unlock)
        } else if v == 4 {
            Some(LockState::Lock)
        } else if v == 5 {
            Some(LockState::Verified)
        } else if v == 6 {
            Some(LockState::Custom)
        } else {
            None
        }
    }

    pub fn code(self) -> (r: u32)
        ensures
            r == self.spec_code(),
    {
        match self {
            LockState::Default => 1,
            LockState::MpDefault => 2,
            LockState::Unlock => 3,
            LockState::Lock => 4,
            LockState::Verified => 5,
            LockState::Custom => 6,
        }
    }

    pub fn from_code(v: u32) -> (r: Option<LockState>)
        ensures
            r == Self::spec_from_code(v),
    {
        if v == 1 {
            Some(LockState::Default)
        } else if v == 2 {
            Some(LockState::MpDefault)
        } else if v == 3 {
            Some(LockState::Unlock)
        } else if v == 4 {
            Some(LockState::Lock)
        } else if v == 5 {
            Some(LockState::Verified)
        } else if v == 6 {
            Some(LockState::Custom)
        } else {
            None
        }
    }

    /// Every state's code decodes to the state.
    pub proof fn lemma_code_roundtrip(self)
        ensures
            Self::spec_from_code(self.spec_code()) == Some(self),
    {
    }
}

impl Default for LockState {
    fn default() -> (r: Self)
        ensures
            r == LockState::Lock,
    {
        LockState::Lock
    }
}

/// The on-disk codes of the lock states are fixed by the record formats: Default is 1,
/// MpDefault 2, Unlock 3, Lock 4, Verified 5 and Custom 6. A code that names a state names the
/// state whose code it is, and the codes 0 and above 6 name none.
pub proof fn lemma_lock_state_codes(v: u32)
    ensures
        LockState::Default.spec_code() == 1,
        LockState::MpDefault.spec_code() == 2,
        LockState::Unlock.spec_code() == 3,
        LockState::Lock.spec_code() == 4,
        LockState::Verified.spec_code() == 5,
        LockState::Custom.spec_code() == 6,
        LockState::spec_from_code(v) matches Some(st) ==> st.spec_code() == v,
        (LockState::spec_from_code(v) is None) == (v == 0 || v > 6),
{
}

} // verus!
