//! An EtherCAT main-device core: wire codec, frame store, PDU loop and
//! distributed-clock engine.
//!
//! The library is organised as four cooperating parts:
//!
//! - [`wire`] and [`layout`]: bit- and byte-level packing and unpacking of
//!   protocol structures, driven by per-field layout metadata.
//! - [`pdu_loop`]: a fixed-capacity pool of frame slots, each with a
//!   lifecycle state machine, onto which many logical protocol data units
//!   (PDUs) are multiplexed; frame composition, the transmit and receive
//!   paths, and the response future's state machine with timeout and retry.
//! - [`ports`], [`subdevice`] and [`dc`]: topology reconstruction from
//!   per-port receive timestamps and propagation-delay computation.

pub mod command;
pub mod dc;
pub mod eeprom;
pub mod error;
pub mod frame_header;
pub mod layout;
pub mod maindevice;
pub mod maindevice_config;
pub mod pdu_loop;
pub mod ports;
pub mod subdevice;
pub mod wire;

pub use error::{Error, Item, PduError, WireError};
