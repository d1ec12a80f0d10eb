//! Bindings to the GMP-ECM factoring library, seen from the side that can be
//! reasoned about: the parameters of a factorization and what of them reaches
//! the native library, and the rules by which the native library is built,
//! cached, checked and linked.
//!
//! Nothing here touches a file, a process or the native library itself.
//! Every function takes plain values and gives plain values back, and says in
//! its contract what it gives.

pub mod cache;
pub mod header;
pub mod integer;
pub mod link;
pub mod number;
pub mod params;
pub mod target;
pub mod text;
pub mod version;

pub use integer::{parse_integer, IntegerError};
pub use params::{factor_or_input, EcmMethod, EcmParams, RawEcmParams, NTT};
