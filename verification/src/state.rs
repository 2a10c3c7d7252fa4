//! The connection to a receiver, held across commands.

use crate::storage::{Profile, ADDRESS_LEN, AES_BLOCK_LEN};
use vstd::prelude::*;

verus! {

/// Number of keys in one keyboard report.
pub const KEYS_LEN: usize = 6;

/// What the device knows of its receiver.
#[derive(Clone, Copy, Debug, PartialEq, Eq)]
pub struct Device {
    pub address: [u8; ADDRESS_LEN],
    pub aes_key: [u8; AES_BLOCK_LEN],
    pub aes_counter: u32,
    pub channel: u8,
}

/// One HID keyboard report: the modifier bitmask (bit 0 = left Ctrl, bit 1 =
/// left Shift, bit 2 = left Alt, ...) and up to six usages.
#[derive(Clone, Copy, Debug, PartialEq, Eq)]
pub struct KeyReport {
    pub modifier: u8,
    pub keys: [u8; KEYS_LEN],
}

impl KeyReport {
    /// The report with all keys up.
    pub open spec fn released() -> KeyReport {
        KeyReport { modifier: 0, keys: [0, 0, 0, 0, 0, 0] }
    }

    /// The report of one key, with left Shift or without.
    pub open spec fn of_key(code: u8, shift: bool) -> KeyReport {
        KeyReport {
            modifier: if shift {
                0x02
            } else {
                0x00
            },
            keys: [code, 0, 0, 0, 0, 0],
        }
    }

    /// The report with all keys up.
    pub fn release() -> (report: KeyReport)
        ensures
            report == KeyReport::released(),
    {
        KeyReport { modifier: 0, keys: [0, 0, 0, 0, 0, 0] }
    }

    /// The report of one key, with left Shift or without.
    pub fn press(code: u8, shift: bool) -> (report: KeyReport)
        ensures
            report == KeyReport::of_key(code, shift),
    {
        KeyReport {
            modifier: if shift {
                0x02
            } else {
                0x00
            },
            keys: [code, 0, 0, 0, 0, 0],
        }
    }
}

/// What a device tells a receiver about itself when it pairs.
#[derive(Clone, Copy, Debug, PartialEq, Eq)]
pub struct PairingParams {
    pub id: u8,
    pub product_id: u16,
    pub device_type: u16,
    pub crypto: u32,
    pub serial: u32,
    pub capabilities: u16,
    /// `RustKbd`.
    pub name: [u8; 7],
}

impl PairingParams {
    /// The parameters from two readings of the timer: the id is the low byte of
    /// the first one made odd, and the crypto seed the low word of the second.
    pub open spec fn at(id_ticks: u64, crypto_ticks: u64) -> PairingParams {
        PairingParams {
            id: (2 * (id_ticks % 0x100 / 2) + 1) as u8,
            product_id: 0x1025,
            device_type: 0x0147,
            crypto: (crypto_ticks % 0x1_0000_0000) as u32,
            serial: 0xA580_94B6,
            capabilities: 0x1E40,
            name: [0x52, 0x75, 0x73, 0x74, 0x4b, 0x62, 0x64],
        }
    }

    /// The parameters from two readings of the timer.
    pub fn from_ticks(id_ticks: u64, crypto_ticks: u64) -> (params: PairingParams)
        ensures
            params == PairingParams::at(id_ticks, crypto_ticks),
    {
        assert((id_ticks as u8) | 0x01 == 2 * (id_ticks % 0x100 / 2) + 1) by (bit_vector);
        assert(crypto_ticks as u32 == crypto_ticks % 0x1_0000_0000) by (bit_vector);
        PairingParams {
            id: #[verifier::truncate] (id_ticks as u8) | 0x01,
            product_id: 0x1025,
            device_type: 0x0147,
            crypto: #[verifier::truncate] (crypto_ticks as u32),
            serial: 0xA580_94B6,
            capabilities: 0x1E40,
            name: [0x52, 0x75, 0x73, 0x74, 0x4b, 0x62, 0x64],
        }
    }
}

/// The connection state.
#[derive(Clone, Copy, Debug, PartialEq, Eq)]
pub struct UnifyingState {
    pub device: Device,
    pub paired: bool,
    pub connected: bool,
    /// Held-key frames since the counter was last saved on their account.
    pub held_frames: u8,
}

/// The part of a device that is persisted.
pub open spec fn profile_of(device: Device) -> Profile {
    Profile {
        address: device.address,
        aes_key: device.aes_key,
        aes_counter: device.aes_counter,
        channel: device.channel,
    }
}

/// The device that a profile describes.
pub open spec fn device_of(p: Profile) -> Device {
    Device {
        address: p.address,
        aes_key: p.aes_key,
        aes_counter: p.aes_counter,
        channel: p.channel,
    }
}

impl UnifyingState {
    /// Neither paired nor connected, on the first channel.
    pub fn new(first_channel: u8) -> (state: Self)
        ensures
            forall|i: int| 0 <= i < ADDRESS_LEN ==> state.device.address@[i] == 0,
            forall|i: int| 0 <= i < AES_BLOCK_LEN ==> state.device.aes_key@[i] == 0,
            state.device.aes_counter == 0,
            state.device.channel == first_channel,
            !state.paired,
            !state.connected,
            state.held_frames == 0,
    {
        UnifyingState {
            device: Device {
                address: [0u8; ADDRESS_LEN],
                aes_key: [0u8; AES_BLOCK_LEN],
                aes_counter: 0,
                channel: first_channel,
            },
            paired: false,
            connected: false,
            held_frames: 0,
        }
    }

    /// Restores a persisted pairing.
    pub fn apply_profile(&mut self, p: &Profile)
        ensures
            *final(self) == (UnifyingState { device: device_of(*p), paired: true, ..*old(self) }),
    {
        self.device.address = p.address;
        self.device.aes_key = p.aes_key;
        self.device.aes_counter = p.aes_counter;
        self.device.channel = p.channel;
        self.paired = true;
    }

    /// The state at power-on: the persisted pairing, if there is one.
    pub fn restored(first_channel: u8, saved: Option<Profile>) -> (state: Self)
        ensures
            state.paired == (saved is Some),
            !state.connected,
            state.held_frames == 0,
            saved matches Some(p) ==> state.device == device_of(p),
            saved is None ==> state.device.channel == first_channel && state.device.aes_counter
                == 0,
            saved is None ==> forall|i: int|
                0 <= i < ADDRESS_LEN ==> state.device.address@[i] == 0,
            saved is None ==> forall|i: int|
                0 <= i < AES_BLOCK_LEN ==> state.device.aes_key@[i] == 0,
    {
        let mut state = UnifyingState::new(first_channel);
        if let Some(p) = saved {
            state.apply_profile(&p);
        }
        state
    }

    /// Snapshots the current pairing for persistence.
    pub fn current_profile(&self) -> (profile: Profile)
        ensures
            profile == profile_of(self.device),
    {
        Profile {
            address: self.device.address,
            aes_key: self.device.aes_key,
            aes_counter: self.device.aes_counter,
            channel: self.device.channel,
        }
    }
}

/// A pressed key is the only one of its report, and left Shift, which is bit 1 of
/// the modifiers, is held with it exactly if asked for; with all keys up the
/// report is all zeros.
pub proof fn report_layout(code: u8, shift: bool)
    ensures
        KeyReport::of_key(code, shift).keys@ == seq![code, 0, 0, 0, 0, 0],
        KeyReport::of_key(code, shift).modifier == if shift {
            0x02int
        } else {
            0x00int
        },
        KeyReport::released().keys@ == seq![0u8, 0, 0, 0, 0, 0],
        KeyReport::released().modifier == 0,
{
    assert(KeyReport::of_key(code, shift).keys@ =~= seq![code, 0, 0, 0, 0, 0]);
    assert(KeyReport::released().keys@ =~= seq![0u8, 0, 0, 0, 0, 0]);
}

/// The pairing id is odd and else the low byte of the first reading of the
/// timer, and the crypto seed the low 32 bits of the second; all else is fixed.
pub proof fn pairing_params_layout(id_ticks: u64, crypto_ticks: u64)
    ensures
        ({
            let p = PairingParams::at(id_ticks, crypto_ticks);
            let low = id_ticks as int % 256;
            &&& p.id % 2 == 1
            &&& p.id == if low % 2 == 1 {
                low
            } else {
                low + 1
            }
            &&& p.crypto == crypto_ticks as int % 0x1_0000_0000
            &&& p.product_id == 0x1025
            &&& p.device_type == 0x0147
            &&& p.serial == 0xA580_94B6
            &&& p.capabilities == 0x1E40
            &&& p.name@ == seq![0x52u8, 0x75, 0x73, 0x74, 0x4b, 0x62, 0x64]
        }),
{
    let p = PairingParams::at(id_ticks, crypto_ticks);
    assert(p.name@ =~= seq![0x52u8, 0x75, 0x73, 0x74, 0x4b, 0x62, 0x64]);
}

/// What is persisted of a device is its address, key, counter and channel, each
/// as it is, and each comes back as it was.
pub proof fn profile_fields(device: Device, p: Profile)
    ensures
        profile_of(device).address == device.address,
        profile_of(device).aes_key == device.aes_key,
        profile_of(device).aes_counter == device.aes_counter,
        profile_of(device).channel == device.channel,
        device_of(p).address == p.address,
        device_of(p).aes_key == p.aes_key,
        device_of(p).aes_counter == p.aes_counter,
        device_of(p).channel == p.channel,
{
}

/// A profile that is restored is the one that is persisted next, as long as the
/// device does nothing.
pub proof fn profile_survives(p: Profile, device: Device)
    ensures
        profile_of(device_of(p)) == p,
        device_of(profile_of(device)) == device,
{
}

} // verus!
