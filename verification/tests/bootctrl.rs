use hacc::traits::{TryRead, TryWrite};
use hacc::bootctrl::BOOTCTRL_SIZE;
use hacc::{BootControl, BootControlError, BootPartition, Error, BOOTCTRL_MAGIC, BOOTCTRL_MAX_PRIORITY, BOOTCTRL_MAX_RETRY};

#[test]
fn bootctrl_default_is_valid_slot_a() {
    let bctl = BootControl::default();
    assert!(bctl.is_valid());
    assert_eq!(bctl.get_active_slot(), BootPartition::A);
    assert_eq!(bctl.get_current_suffix(), Some("_a"));
    let bytes = bctl.to_bytes();
    assert_eq!(bytes.len(), BOOTCTRL_SIZE);
    assert_eq!(&bytes[4..8], &BOOTCTRL_MAGIC.to_le_bytes());
    assert_eq!(bctl.crc32(), crc32fast::hash(&bytes[..28]));
    assert_eq!(&bytes[28..32], &bctl.crc32().to_le_bytes());
}

#[test]
fn bootctrl_set_active_slot_b_then_a() {
    let mut bctl = BootControl::default();
    let crc_a = bctl.crc32();
    bctl.set_active_slot(BootPartition::B);
    assert_eq!(bctl.get_active_slot(), BootPartition::B);
    assert_eq!(bctl.get_current_suffix(), Some("_b"));
    let b = bctl.get_slot(BootPartition::B);
    assert_eq!(b.priority(), BOOTCTRL_MAX_PRIORITY);
    assert_eq!(b.tries_remaining(), BOOTCTRL_MAX_RETRY);
    assert_eq!(b.successful_boot(), 0);
    assert_eq!(bctl.get_slot(BootPartition::A).priority(), BOOTCTRL_MAX_PRIORITY - 1);
    assert_ne!(bctl.crc32(), crc_a);
    assert_eq!(bctl.crc32(), crc32fast::hash(&bctl.to_bytes()[..28]));
    assert!(bctl.is_valid());

    bctl.set_active_slot(BootPartition::A);
    assert_eq!(bctl.get_active_slot(), BootPartition::A);
    assert_eq!(bctl.get_current_suffix(), Some("_a"));
}

#[test]
fn bootctrl_write_then_read_back() {
    let mut bctl = BootControl::default();
    bctl.set_active_slot(BootPartition::B);

    let mut buffer = vec![0u8; 32];
    let bytes_written = bctl.try_write(&mut buffer).expect("Failed to write BootControl");
    assert_eq!(bytes_written, BOOTCTRL_SIZE);

    let read_back = BootControl::try_read(&buffer).expect("Failed to read back BootControl");
    assert_eq!(read_back.get_active_slot(), BootPartition::B);
    assert_eq!(read_back.get_current_suffix(), Some("_b"));
    assert_eq!(read_back.crc32(), bctl.crc32());
    assert_eq!(read_back.to_bytes(), bctl.to_bytes());
}

#[test]
fn bootctrl_errors() {
    assert_eq!(
        BootControl::try_read(&[0u8; 31]).err().map(|e| e),
        Some(Error::BootControl(BootControlError::InvalidSize))
    );
    let mut small = [0u8; 16];
    assert_eq!(
        BootControl::default().try_write(&mut small),
        Err(Error::BootControl(BootControlError::InvalidSize))
    );
    let mut bytes = BootControl::default().to_bytes();
    bytes[4] ^= 0xFF;
    assert_eq!(
        BootControl::try_read(&bytes).err(),
        Some(Error::BootControl(BootControlError::InvalidData))
    );
}
