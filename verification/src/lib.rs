//! Classification of "kiriban" numbers: integers whose decimal form shows a
//! notable pattern (a consecutive digit run, a single digit followed by
//! zeros, or a repeated digit).

pub mod classify;
pub mod digits;
pub mod message;
pub mod patterns;
