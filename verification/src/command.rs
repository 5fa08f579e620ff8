//! EtherCAT commands: addressed reads and writes, and the builder used to
//! send them.
//!
//! A command packs to one code byte and four address bytes inside a PDU
//! header. Positional and configured modes pack a 16-bit address plus a
//! 16-bit register; logical modes pack a 32-bit address. All little-endian.

use vstd::prelude::*;

use crate::wire::{u16_hi, u16_lo};

verus! {

/// Read commands.
#[derive(PartialEq, Eq, Debug, Copy, Clone, Structural)]
pub enum Reads {
    /// APRD: auto-increment position read.
    Aprd {
        /// Auto-increment counter.
        address: u16,
        /// Memory location to read from.
        register: u16,
    },
    /// FPRD: configured-address read.
    Fprd {
        /// Configured station address.
        address: u16,
        /// Memory location to read from.
        register: u16,
    },
    /// BRD: broadcast read.
    Brd {
        /// Autoincremented by each sub-device visited.
        address: u16,
        /// Memory location to read from.
        register: u16,
    },
    /// LRD: logical read.
    Lrd {
        /// Logical address.
        address: u32,
    },
    /// FRMW: configured-address read, multiple write.
    Frmw {
        /// Configured station address.
        address: u16,
        /// Memory location to read from.
        register: u16,
    },
}

/// Write commands.
#[derive(PartialEq, Eq, Debug, Copy, Clone, Structural)]
pub enum Writes {
    /// BWR: broadcast write.
    Bwr {
        /// Autoincremented by each sub-device visited.
        address: u16,
        /// Memory location to write to.
        register: u16,
    },
    /// APWR: auto-increment position write.
    Apwr {
        /// Auto-increment counter.
        address: u16,
        /// Memory location to write to.
        register: u16,
    },
    /// FPWR: configured-address write.
    Fpwr {
        /// Configured station address.
        address: u16,
        /// Memory location to write to.
        register: u16,
    },
    /// LWR: logical write.
    Lwr {
        /// Logical address.
        address: u32,
    },
    /// LRW: logical read-write.
    Lrw {
        /// Logical address.
        address: u32,
    },
}

/// An EtherCAT command: either nothing, an addressed read, or an addressed
/// write.
#[derive(PartialEq, Eq, Debug, Copy, Clone, Structural)]
pub enum Command {
    /// NOP: no operation.
    Nop,
    /// A read command.
    Read(Reads),
    /// A write command.
    Write(Writes),
}

/// The code byte a command packs to.
pub open spec fn command_code_spec(c: Command) -> u8 {
    match c {
        Command::Nop => 0,
        Command::Read(r) => match r {
            Reads::Aprd { .. } => 1,
            Reads::Fprd { .. } => 4,
            Reads::Brd { .. } => 7,
            Reads::Lrd { .. } => 10,
            Reads::Frmw { .. } => 14,
        },
        Command::Write(w) => match w {
            Writes::Apwr { .. } => 2,
            Writes::Fpwr { .. } => 5,
            Writes::Bwr { .. } => 8,
            Writes::Lwr { .. } => 11,
            Writes::Lrw { .. } => 12,
        },
    }
}

/// The four little-endian address bytes a command packs to: station address
/// plus register for positional and configured modes, a 32-bit address for
/// logical modes, zeroes for NOP.
pub open spec fn command_addr_spec(c: Command) -> Seq<u8> {
    match c {
        Command::Nop => seq![0u8, 0u8, 0u8, 0u8],
        Command::Read(r) => match r {
            Reads::Aprd { address, register } => addr_reg_bytes(address, register),
            Reads::Fprd { address, register } => addr_reg_bytes(address, register),
            Reads::Brd { address, register } => addr_reg_bytes(address, register),
            Reads::Lrd { address } => logical_bytes(address),
            Reads::Frmw { address, register } => addr_reg_bytes(address, register),
        },
        Command::Write(w) => match w {
            Writes::Bwr { address, register } => addr_reg_bytes(address, register),
            Writes::Apwr { address, register } => addr_reg_bytes(address, register),
            Writes::Fpwr { address, register } => addr_reg_bytes(address, register),
            Writes::Lwr { address } => logical_bytes(address),
            Writes::Lrw { address } => logical_bytes(address),
        },
    }
}

/// A 16-bit address and 16-bit register, each little-endian.
pub open spec fn addr_reg_bytes(address: u16, register: u16) -> Seq<u8> {
    seq![u16_lo(address), u16_hi(address), u16_lo(register), u16_hi(register)]
}

/// A 32-bit logical address, little-endian.
pub open spec fn logical_bytes(address: u32) -> Seq<u8> {
    seq![
        (address % 0x100) as u8,
        ((address / 0x100) % 0x100) as u8,
        ((address / 0x1_0000) % 0x100) as u8,
        ((address / 0x100_0000) % 0x100) as u8,
    ]
}

impl Command {
    /// A broadcast read of `register`.
    pub fn brd(register: u16) -> (r: Reads)
        ensures
            r == (Reads::Brd { address: 0, register }),
    {
        Reads::Brd { address: 0, register }
    }

    /// A configured-address read of `register` on station `address`.
    pub fn fprd(address: u16, register: u16) -> (r: Reads)
        ensures
            r == (Reads::Fprd { address, register }),
    {
        Reads::Fprd { address, register }
    }

    /// A configured-address read-multiple-write at `register` on station
    /// `address`.
    pub fn frmw(address: u16, register: u16) -> (r: Reads)
        ensures
            r == (Reads::Frmw { address, register }),
    {
        Reads::Frmw { address, register }
    }

    /// A broadcast write to `register`.
    pub fn bwr(register: u16) -> (r: Writes)
        ensures
            r == (Writes::Bwr { address: 0, register }),
    {
        Writes::Bwr { address: 0, register }
    }

    /// A configured-address write to `register` on station `address`.
    pub fn fpwr(address: u16, register: u16) -> (r: Writes)
        ensures
            r == (Writes::Fpwr { address, register }),
    {
        Writes::Fpwr { address, register }
    }

    /// The code byte this command packs to.
    pub fn code(&self) -> (r: u8)
        ensures
            r == command_code_spec(*self),
    {
        match self {
            Command::Nop => 0,
            Command::Read(r) => match r {
                Reads::Aprd { .. } => 1,
                Reads::Fprd { .. } => 4,
                Reads::Brd { .. } => 7,
                Reads::Lrd { .. } => 10,
                Reads::Frmw { .. } => 14,
            },
            Command::Write(w) => match w {
                Writes::Apwr { .. } => 2,
                Writes::Fpwr { .. } => 5,
                Writes::Bwr { .. } => 8,
                Writes::Lwr { .. } => 11,
                Writes::Lrw { .. } => 12,
            },
        }
    }

    /// The four little-endian address bytes this command packs to.
    pub fn pack(&self) -> (r: [u8; 4])
        ensures
            r@ =~= command_addr_spec(*self),
    {
        match self {
            Command::Nop => [0, 0, 0, 0],
            Command::Read(r) => match r {
                Reads::Aprd { address, register } => pack_addr_reg(*address, *register),
                Reads::Fprd { address, register } => pack_addr_reg(*address, *register),
                Reads::Brd { address, register } => pack_addr_reg(*address, *register),
                Reads::Lrd { address } => pack_logical(*address),
                Reads::Frmw { address, register } => pack_addr_reg(*address, *register),
            },
            Command::Write(w) => match w {
                Writes::Bwr { address, register } => pack_addr_reg(*address, *register),
                Writes::Apwr { address, register } => pack_addr_reg(*address, *register),
                Writes::Fpwr { address, register } => pack_addr_reg(*address, *register),
                Writes::Lwr { address } => pack_logical(*address),
                Writes::Lrw { address } => pack_logical(*address),
            },
        }
    }
}

/// Pack a 16-bit address and 16-bit register little-endian.
fn pack_addr_reg(address: u16, register: u16) -> (r: [u8; 4])
    ensures
        r@ =~= addr_reg_bytes(address, register),
{
    [
        (address % 0x100) as u8,
        (address / 0x100) as u8,
        (register % 0x100) as u8,
        (register / 0x100) as u8,
    ]
}

/// Pack a 32-bit logical address little-endian.
fn pack_logical(address: u32) -> (r: [u8; 4])
    ensures
        r@ =~= logical_bytes(address),
{
    [
        (address % 0x100) as u8,
        ((address / 0x100) % 0x100) as u8,
        ((address / 0x1_0000) % 0x100) as u8,
        ((address / 0x100_0000) % 0x100) as u8,
    ]
}

impl From<Reads> for Command {
    /// Wrap a read command.
    fn from(r: Reads) -> (c: Command) {
        Command::Read(r)
    }
}

impl vstd::std_specs::convert::FromSpecImpl<Reads> for Command {
    open spec fn obeys_from_spec() -> bool {
        true
    }

    open spec fn from_spec(r: Reads) -> Command {
        Command::Read(r)
    }
}

impl From<Writes> for Command {
    /// Wrap a write command.
    fn from(w: Writes) -> (c: Command) {
        Command::Write(w)
    }
}

impl vstd::std_specs::convert::FromSpecImpl<Writes> for Command {
    open spec fn obeys_from_spec() -> bool {
        true
    }

    open spec fn from_spec(w: Writes) -> Command {
        Command::Write(w)
    }
}

/// A wrapped [`Writes`] exposing a builder API used to send data over the
/// wire.
#[derive(Debug, Copy, Clone)]
pub struct WrappedWrite {
    /// The EtherCAT write command.
    pub command: Writes,
    /// The expected working counter, or `None` to skip the check.
    pub wkc: Option<u16>,
    /// An explicit PDU length overriding the payload's own, if set.
    pub len_override: Option<u16>,
}

impl WrappedWrite {
    /// Wrap a write command with the default expected working counter of 1
    /// and no length override.
    pub fn new(command: Writes) -> (r: Self)
        ensures
            r.command == command,
            r.wkc == Some(1u16),
            r.len_override is None,
    {
        Self { command, wkc: Some(1), len_override: None }
    }

    /// Set an explicit length for the PDU instead of taking it from the sent
    /// data. The length used is the maximum of this value and the data's own
    /// length.
    pub fn with_len(self, new_len: u16) -> (r: Self)
        ensures
            r.command == self.command,
            r.wkc == self.wkc,
            r.len_override == Some(new_len),
    {
        Self { len_override: Some(new_len), ..self }
    }

    /// Do not check the working counter of the response.
    pub fn ignore_wkc(self) -> (r: Self)
        ensures
            r.command == self.command,
            r.wkc is None,
            r.len_override == self.len_override,
    {
        Self { wkc: None, ..self }
    }

    /// Change the expected working counter from its default of 1.
    pub fn with_wkc(self, wkc: u16) -> (r: Self)
        ensures
            r.command == self.command,
            r.wkc == Some(wkc),
            r.len_override == self.len_override,
    {
        Self { wkc: Some(wkc), ..self }
    }

    /// Check a received working counter against the expected one: a mismatch
    /// is an error unless the check was disabled with
    /// [`ignore_wkc`](WrappedWrite::ignore_wkc).
    pub fn check_wkc(&self, actual: u16) -> (r: Result<(), crate::error::Error>)
        ensures
            match self.wkc {
                Some(expected) => if expected == actual {
                    r is Ok
                } else {
                    r == Err::<(), _>(
                        crate::error::Error::WorkingCounter { expected, actual },
                    )
                },
                None => r is Ok,
            },
    {
        match self.wkc {
            Some(expected) => if expected == actual {
                Ok(())
            } else {
                Err(crate::error::Error::WorkingCounter { expected, actual })
            },
            None => Ok(()),
        }
    }
}

} // verus!
