//! Proof-of-capacity deadline checking: scoop selection, nonce generation,
//! deadline computation, plot file checks and block header verification.

pub mod shabal;
pub mod poc;
pub mod text;
pub mod decimal;
pub mod hexcodec;
pub mod plot;
pub mod network;
pub mod verify;
pub mod extract;
