//! Parsing and editing of MediaTek boot images and security records.
pub mod bytes;
pub mod checksum;
pub mod common;
pub mod da;
pub mod error;
pub mod preloader;
pub mod search;
pub mod text;
pub mod traits;

pub use common::{
    bootctrl, gfh, lock_state, rpmb, seccfg, DmVerityState, LockState, RpmbInfoError, SecCfgError, SecCfgV4,
    SecRpmbInfo, BootControl, BootControlError, BootControlInfo, BootControlInfoBits,
    BootPartition, SlotMetadata, SlotMetadataBits, BOOTCTRL_DEFAULT_SLOT_COUNT, BOOTCTRL_MAGIC,
    BOOTCTRL_MAX_PRIORITY, BOOTCTRL_MAX_RETRY, BOOTCTRL_SLOT_A_SUFFIX, BOOTCTRL_SLOT_B_SUFFIX,
    OFFSET_SLOT_SUFFIX,
};
pub use error::{Error, Result};
pub use preloader::{Preloader, PreloaderError};
