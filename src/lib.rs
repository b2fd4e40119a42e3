//! Code-signing checks: reading distinguished names, matching a certificate subject against
//! allowed publisher patterns, and turning a trust oracle's status code into a status with a
//! message.

pub mod decimal;
pub mod dn;
pub mod dn_laws;
pub mod text;
pub mod verify_signature;
