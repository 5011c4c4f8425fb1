pub mod brom_sec_cfg;
pub mod file;
pub mod file_info;
pub mod header;
pub mod tool_auth;

pub use file::{CtM1Key, Gfh, GfhError, GfhFile, GfhKind, GfhSigPadType};
pub use file_info::{GfhFileInfo, GfhFileType, GfhFlashDev, GfhSigType};
pub use header::{GfhHeader, GfhType};
pub use brom_sec_cfg::GfhBromSecCfg;
pub use tool_auth::GfhToolAuth;
