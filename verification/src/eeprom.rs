//! Windowed access to a sub-device's EEPROM: a byte cursor over a word
//! range, backed by whatever provider actually fetches the words.

use vstd::prelude::*;

use crate::error::Error;
use crate::maindevice::MainDevice;

verus! {

/// An EEPROM data provider that talks to a physical sub-device through the
/// main device's register interface.
pub struct DeviceEeprom<'a> {
    /// The controller the reads and writes go through.
    pub maindevice: &'a MainDevice,
    /// The sub-device's configured station address.
    pub configured_address: u16,
}

impl<'a> DeviceEeprom<'a> {
    /// Create a new EEPROM reader for the sub-device at the given configured
    /// address.
    pub fn new(maindevice: &'a MainDevice, configured_address: u16) -> (r: Self)
        ensures
            r.configured_address == configured_address,
            r.maindevice == maindevice,
    {
        DeviceEeprom { maindevice, configured_address }
    }
}

/// A reader over a bounded range of EEPROM bytes. The provider `P` fetches
/// words; this keeps a byte-level cursor and refuses to move past the
/// range's end.
pub struct EepromRange<P> {
    /// The backing provider.
    pub reader: P,
    /// The current byte position within the whole address space.
    pub byte_pos: u16,
    /// One past the last byte this range may touch.
    pub end: u16,
}

impl<P> EepromRange<P> {
    /// A reader over `len_words` words starting at `start_word`. EEPROM is
    /// word-addressed; the cursor is byte-addressed.
    pub fn new(reader: P, start_word: u16, len_words: u16) -> (r: Self)
        requires
            2 * start_word + 2 * len_words <= u16::MAX,
        ensures
            r.byte_pos == 2 * start_word,
            r.end == 2 * start_word + 2 * len_words,
    {
        EepromRange { reader, byte_pos: start_word * 2, end: start_word * 2 + len_words * 2 }
    }

    /// Move the cursor `skip` bytes forward. Fails without moving when the
    /// new position would reach or pass the end of the range. The failure is
    /// reported as an internal error: the library's error set carries no
    /// EEPROM-specific kind, since EEPROM contents are an external
    /// collaborator's concern.
    pub fn skip_ahead_bytes(&mut self, skip: u16) -> (r: Result<(), Error>)
        ensures
            final(self).reader == old(self).reader,
            final(self).end == old(self).end,
            if old(self).byte_pos + skip >= old(self).end {
                r == Err::<(), Error>(Error::Internal) && final(self).byte_pos == old(
                    self,
                ).byte_pos
            } else {
                r is Ok && final(self).byte_pos == old(self).byte_pos + skip
            },
    {
        if self.byte_pos as u32 + skip as u32 >= self.end as u32 {
            return Err(Error::Internal);
        }
        self.byte_pos = self.byte_pos + skip;
        Ok(())
    }

    /// Give back the underlying provider.
    pub fn into_inner(self) -> (r: P)
        ensures
            r == self.reader,
    {
        self.reader
    }
}

} // verus!
