//! Secure-boot and component-attestation protocol library.
//!
//! An application processor (AP) gates system boot on the authenticity of
//! pluggable components reached over a shared, physically exposed bus. This
//! crate holds the verified core of that firmware: the secure channel codec
//! (obfuscated transaction framing), the master/slave exchange logic with its
//! transient-error retry policy, the persistent component registry with atomic
//! identity replacement, and the operator command handlers. Hardware access
//! (UART console, I2C bus, the entropy source and the block-cipher engine) is
//! left to the surrounding, unverified shell, which feeds this library plain
//! bytes and events.

pub mod codec;
pub mod commands;
pub mod hexnum;
pub mod host_msg;
pub mod registry;
pub mod transport;
