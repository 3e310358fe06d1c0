//! A three-asset constant-product market maker: integer roots and fixed-point
//! numbers, the pricing engine, the packed pool and mint records, the
//! instruction codec, the token-program interface and the instruction
//! processor.

pub mod error;
pub mod instruction;
pub mod math;
pub mod mint;
pub mod oracle;
pub mod pool;
pub mod processor;
pub mod pubkey;
pub mod token;
pub mod umath;
