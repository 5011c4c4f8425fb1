use hacc::seccfg::{DmVerityState, SECCFG_V4_SIZE};
use hacc::traits::{TryRead, TryWrite};
use hacc::{Error, LockState, SecCfgError, SecCfgV4};

#[test]
fn seccfg_create_and_validate() {
    let seccfg = SecCfgV4::new(LockState::Unlock);

    assert!(seccfg.is_valid(), "Seccfg should be valid");
    assert_eq!(seccfg.size(), SECCFG_V4_SIZE);
    assert_eq!(seccfg.version(), 4);
    assert_eq!(seccfg.lock_state(), LockState::Unlock);
}

#[test]
fn seccfg_lock_states() {
    for lock_state in [
        LockState::Default,
        LockState::MpDefault,
        LockState::Unlock,
        LockState::Lock,
        LockState::Verified,
        LockState::Custom,
    ] {
        let seccfg = SecCfgV4::new(lock_state);
        assert!(seccfg.is_valid());
        assert_eq!(seccfg.lock_state(), lock_state);
    }
}

#[test]
fn seccfg_try_read_and_write() {
    let original = SecCfgV4::new(LockState::Lock);

    let mut buffer = vec![0u8; 1024];
    let bytes_written = original.try_write(&mut buffer).expect("Failed to write");

    assert_eq!(bytes_written, SECCFG_V4_SIZE);

    let read_back = SecCfgV4::try_read(&buffer).expect("Failed to read");

    assert!(read_back.is_valid());
    assert_eq!(read_back.lock_state(), original.lock_state());
    assert_eq!(read_back.dm_verity_state(), original.dm_verity_state());
    assert_eq!(read_back.sboot_runtime(), original.sboot_runtime());
    assert_eq!(read_back.hash(), original.hash());
}

#[test]
fn seccfg_modify_fields() {
    let mut seccfg = SecCfgV4::new(LockState::Default);

    seccfg.set_lock_state(LockState::Unlock);
    seccfg.set_dm_verity_state(DmVerityState::GeneralError);
    seccfg.set_hash(&[0xFF; 32]);

    assert_eq!(seccfg.lock_state(), LockState::Unlock);
    assert_eq!(seccfg.dm_verity_state(), DmVerityState::GeneralError);
    assert_eq!(seccfg.hash(), &[0xFF; 32]);

    let mut buffer = vec![0u8; 0x200];
    seccfg.try_write(&mut buffer).expect("Failed to write");

    let read_back = SecCfgV4::try_read(&buffer).expect("Failed to read");
    assert_eq!(read_back.lock_state(), LockState::Unlock);
    assert_eq!(read_back.dm_verity_state(), DmVerityState::GeneralError);
    assert_eq!(read_back.hash(), &[0xFF; 32]);
}

#[test]
fn seccfg_invalid_size() {
    let invalid = [0u8; 4];
    let result = SecCfgV4::try_read(&invalid);

    assert!(result.is_err(), "Should fail with invalid size");
}

#[test]
fn seccfg_invalid_magic() {
    let data = [0u8; SECCFG_V4_SIZE];

    let result = SecCfgV4::try_read(&data);

    assert!(result.is_err(), "Should fail with invalid magic");
}

#[test]
fn seccfg_encoding_layout() {
    let mut seccfg = SecCfgV4::new(LockState::Lock);
    seccfg.set_hash(&[0x11; 32]);
    let bytes = seccfg.to_bytes();
    assert_eq!(bytes.len(), SECCFG_V4_SIZE);
    assert_eq!(&bytes[0..4], &SecCfgV4::START_MAGIC.to_le_bytes());
    assert_eq!(&bytes[4..8], &4u32.to_le_bytes());
    assert_eq!(&bytes[8..12], &(SECCFG_V4_SIZE as u32).to_le_bytes());
    assert_eq!(&bytes[12..16], &LockState::Lock.code().to_le_bytes());
    assert_eq!(&bytes[16..20], &0u32.to_le_bytes());
    assert_eq!(&bytes[24..28], &SecCfgV4::END_MAGIC.to_le_bytes());
    assert_eq!(&bytes[28..60], &[0x11u8; 32]);
}

#[test]
fn seccfg_write_leaves_rest_of_buffer() {
    let seccfg = SecCfgV4::new(LockState::Custom);
    let mut buffer = vec![0x5Au8; 100];
    assert_eq!(seccfg.try_write(&mut buffer), Ok(SECCFG_V4_SIZE));
    assert!(buffer[SECCFG_V4_SIZE..].iter().all(|&b| b == 0x5A));
    assert_eq!(&buffer[..SECCFG_V4_SIZE], seccfg.to_bytes().as_slice());
}

#[test]
fn seccfg_errors() {
    assert_eq!(
        SecCfgV4::try_read(&[0u8; SECCFG_V4_SIZE - 1]).err(),
        Some(Error::SecCfg(SecCfgError::InvalidSize))
    );
    let mut small = [0u8; 8];
    assert_eq!(
        SecCfgV4::new(LockState::Lock).try_write(&mut small),
        Err(Error::SecCfg(SecCfgError::InvalidSize))
    );
    let mut bytes = SecCfgV4::new(LockState::Lock).to_bytes();
    bytes[24] = 0;
    assert_eq!(SecCfgV4::try_read(&bytes).err(), Some(Error::SecCfg(SecCfgError::InvalidData)));
    let mut bad_lock = SecCfgV4::new(LockState::Lock).to_bytes();
    bad_lock[12] = 0;
    assert_eq!(SecCfgV4::try_read(&bad_lock).err(), Some(Error::Zerocopy));
    let mut bad_verity = SecCfgV4::new(LockState::Lock).to_bytes();
    bad_verity[16] = 9;
    assert_eq!(SecCfgV4::try_read(&bad_verity).err(), Some(Error::Zerocopy));
}
