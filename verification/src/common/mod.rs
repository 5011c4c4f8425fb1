pub mod bootctrl;
pub mod gfh;
pub mod image;
pub mod lock_state;
pub mod rpmb;
pub mod seccfg;

pub use bootctrl::{
    BootControl, BootControlError, BootControlInfo, BootControlInfoBits, BootPartition, SlotMetadata,
    SlotMetadataBits, BOOTCTRL_DEFAULT_SLOT_COUNT, BOOTCTRL_MAGIC, BOOTCTRL_MAX_PRIORITY,
    BOOTCTRL_MAX_RETRY, BOOTCTRL_SLOT_A_SUFFIX, BOOTCTRL_SLOT_B_SUFFIX, OFFSET_SLOT_SUFFIX,
};
pub use lock_state::LockState;
pub use rpmb::{RpmbInfoError, SecRpmbInfo};
pub use seccfg::{DmVerityState, SecCfgError, SecCfgV4};
