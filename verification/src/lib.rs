//! I/O gateway for a confidential VM: it sits between the guest and the
//! untrusted host, carries every virtio transfer across the shared-memory
//! boundary, and lets security modules inspect or transform each payload.
//!
//! The library works on three windows of memory that the embedding program
//! hands it for the time of one message ([`virtio::SharedMemory`]): the
//! control region and the data region that the guest shares with the
//! gateway, and the window through which the host's pages are reached.
//! Every handler in [`virtio`] reads a request out of a control page once,
//! validates it, and carries the data across; [`gateway`] routes a message
//! of the host to its handler. [`module`] keeps the security modules and
//! runs their hooks; [`module_cvm_hardening`] is the module that encrypts
//! block sectors and network payloads with the ciphers of [`aes`].
//!
//! What the library cannot do itself is left to the embedding program: the
//! calls to the monitor, whose parameter blocks [`rsi`] builds, and the
//! mapping of the three windows.

pub mod aes;
pub mod def;
pub mod entry;
pub mod gateway;
pub mod mem;
pub mod module;
pub mod module_cvm_hardening;
pub mod module_fl;
pub mod rsi;
pub mod virtio;
