//! The crate-wide error type.
use vstd::prelude::*;


pub use crate::common::bootctrl::BootControlError;
pub use crate::common::gfh::GfhError;
pub use crate::common::image::ImageError;
pub use crate::da::DaError;
pub use crate::common::rpmb::RpmbInfoError;
pub use crate::preloader::PreloaderError;
pub use crate::common::seccfg::SecCfgError;

verus! {

pub type Result<T> = core::result::Result<T, Error>;

/// Any error that parsing or editing a record can give.
#[derive(Debug, PartialEq, Eq, Structural)]
pub enum Error {
    Image(ImageError),
    SecCfg(SecCfgError),
    Rpmb(RpmbInfoError),
    BootControl(BootControlError),
    Gfh(GfhError),
    Preloader(PreloaderError),
    Da(DaError),

    /// The bytes have the right length but do not form a value of the record: a field that
    /// holds an enumeration carries a code that names none of its variants.
    Zerocopy,
}

} // verus!
