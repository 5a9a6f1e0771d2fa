pub mod bignum;
pub mod bytes;
pub mod dh;
pub mod modular;

pub use bignum::uinf;
pub use dh::{nist_p, DHKey};
pub use modular::{mod_exp, mod_exp_checked, mod_exp_spec, mod_mul, mod_mul_checked};
pub use bytes::{be_encoding, be_value, le_encoding, le_value};
