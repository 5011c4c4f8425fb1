pub mod pl;

pub use pl::{Preloader, PreloaderError};
