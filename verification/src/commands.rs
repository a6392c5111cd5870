//! The three commands: what each of them decides, apart from the system
//! calls that carry the decisions out.

pub mod fadvise;
pub mod fallocate;
pub mod fincore;

pub use fadvise::Fadvise;
pub use fallocate::Fallocate;
pub use fincore::Fincore;
