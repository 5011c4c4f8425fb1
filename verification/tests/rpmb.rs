use hacc::rpmb::SEC_RPMB_INFO_SIZE;
use hacc::traits::{TryRead, TryWrite};
use hacc::{Error, LockState, RpmbInfoError, SecRpmbInfo};

#[test]
fn rpmb_info_create_and_validate() {
    let rpmb = SecRpmbInfo::new(LockState::Lock);

    assert!(rpmb.is_valid(), "Rpmb info should be valid");
    assert_eq!(rpmb.version(), 1);
    assert_eq!(rpmb.lock_state(), LockState::Lock);
}

#[test]
fn rpmb_info_lock_states() {
    for lock_state in [
        LockState::Default,
        LockState::MpDefault,
        LockState::Unlock,
        LockState::Lock,
        LockState::Verified,
        LockState::Custom,
    ] {
        let rpmb = SecRpmbInfo::new(lock_state);
        assert!(rpmb.is_valid());
        assert_eq!(rpmb.lock_state(), lock_state);
    }
}

#[test]
fn rpmb_info_try_read_and_write() {
    let original = SecRpmbInfo::new(LockState::Lock);

    let mut buffer = [0u8; SEC_RPMB_INFO_SIZE];
    let bytes_written = original.try_write(&mut buffer).expect("Failed to write");

    assert_eq!(bytes_written, SEC_RPMB_INFO_SIZE);

    let read_back = SecRpmbInfo::try_read(&buffer).expect("Failed to read");

    assert!(read_back.is_valid());
    assert_eq!(read_back.lock_state(), original.lock_state());
}

#[test]
fn rpmb_info_invalid_size() {
    let invalid_data = [0u8; 10];
    let result = SecRpmbInfo::try_read(&invalid_data);
    assert!(result.is_err(), "Should fail with invalid size");
}

#[test]
fn rpmb_info_invalid_data() {
    let data = [0u8; SEC_RPMB_INFO_SIZE];

    let result = SecRpmbInfo::try_read(&data);

    assert!(result.is_err(), "Should fail with invalid data");
}

#[test]
fn rpmb_info_write_gives_magics_in_place() {
    let rpmb = SecRpmbInfo::new(LockState::Unlock);
    let bytes = rpmb.to_bytes();
    assert_eq!(bytes.len(), SEC_RPMB_INFO_SIZE);
    assert_eq!(&bytes[0..4], &SecRpmbInfo::START_MAGIC.to_le_bytes());
    assert_eq!(&bytes[4..8], &1u32.to_le_bytes());
    assert_eq!(&bytes[8..12], &LockState::Unlock.code().to_le_bytes());
    assert_eq!(&bytes[SEC_RPMB_INFO_SIZE - 4..], &SecRpmbInfo::END_MAGIC.to_le_bytes());
}

#[test]
fn rpmb_info_read_after_write_keeps_every_field() {
    let mut rpmb = SecRpmbInfo::new(LockState::Default);
    rpmb.set_lock_state(LockState::Verified);
    let mut buffer = vec![0xAAu8; SEC_RPMB_INFO_SIZE + 8];
    assert_eq!(rpmb.try_write(&mut buffer), Ok(SEC_RPMB_INFO_SIZE));
    assert_eq!(&buffer[SEC_RPMB_INFO_SIZE..], &[0xAAu8; 8]);
    let back = SecRpmbInfo::try_read(&buffer).unwrap();
    assert_eq!(back.lock_state(), LockState::Verified);
    assert_eq!(back.to_bytes(), rpmb.to_bytes());
}

#[test]
fn rpmb_info_errors() {
    let short = [0u8; SEC_RPMB_INFO_SIZE - 1];
    assert_eq!(
        SecRpmbInfo::try_read(&short).err(),
        Some(Error::Rpmb(RpmbInfoError::InvalidSize))
    );
    let mut small = [0u8; 4];
    assert_eq!(
        SecRpmbInfo::new(LockState::Lock).try_write(&mut small),
        Err(Error::Rpmb(RpmbInfoError::InvalidSize))
    );
    let mut bytes = SecRpmbInfo::new(LockState::Lock).to_bytes();
    bytes[0] ^= 1;
    assert_eq!(
        SecRpmbInfo::try_read(&bytes).err(),
        Some(Error::Rpmb(RpmbInfoError::InvalidData))
    );
    let mut bad_state = SecRpmbInfo::new(LockState::Lock).to_bytes();
    bad_state[8] = 0x7f;
    assert_eq!(SecRpmbInfo::try_read(&bad_state).err(), Some(Error::Zerocopy));
}
