//! Devices that speak the virtio protocol.
use vstd::prelude::*;

verus! {

/// The kind of a virtio device.
#[derive(Clone, Copy, Debug, PartialEq, Eq, Structural)]
pub enum DeviceType {
    Reserved,
    NetworkCard,
    BlockDev,
    Console,
    EntropyDev,
    MemBalloonTrad,
    IoMem,
    RPMsg,
    SCSIHost,
    Transport9P,
    Mac80211Wlan,
    RProcSerial,
    Caif,
    MemBalloon,
    GPUDev,
    ClockDev,
    InputDev,
    SocketDev,
    CryptoDev,
    SigDistMod,
    PStoreDev,
    IOMMUDev,
    MemDev,
    AudioDev,
    FSDev,
    PMemDev,
    RPMBDev,
    Mac80211HWSim,
    VideoEncoder,
    VideoDecoder,
    SCMIDev,
    NitroSecureModule,
    I2cAdapter,
    WatchDog,
    CANDev,
    ParamServer,
    AudioPolDev,
    BluetoothDev,
    GPIODev,
    RDMADev,
}

impl DeviceType {
    /// The number that a device of this kind reports.
    pub open spec fn spec_id(self) -> usize {
        match self {
            DeviceType::Reserved => 0,
            DeviceType::NetworkCard => 1,
            DeviceType::BlockDev => 2,
            DeviceType::Console => 3,
            DeviceType::EntropyDev => 4,
            DeviceType::MemBalloonTrad => 5,
            DeviceType::IoMem => 6,
            DeviceType::RPMsg => 7,
            DeviceType::SCSIHost => 8,
            DeviceType::Transport9P => 9,
            DeviceType::Mac80211Wlan => 10,
            DeviceType::RProcSerial => 11,
            DeviceType::Caif => 12,
            DeviceType::MemBalloon => 13,
            DeviceType::GPUDev => 16,
            DeviceType::ClockDev => 17,
            DeviceType::InputDev => 18,
            DeviceType::SocketDev => 19,
            DeviceType::CryptoDev => 20,
            DeviceType::SigDistMod => 21,
            DeviceType::PStoreDev => 22,
            DeviceType::IOMMUDev => 23,
            DeviceType::MemDev => 24,
            DeviceType::AudioDev => 25,
            DeviceType::FSDev => 26,
            DeviceType::PMemDev => 27,
            DeviceType::RPMBDev => 28,
            DeviceType::Mac80211HWSim => 29,
            DeviceType::VideoEncoder => 30,
            DeviceType::VideoDecoder => 31,
            DeviceType::SCMIDev => 32,
            DeviceType::NitroSecureModule => 33,
            DeviceType::I2cAdapter => 34,
            DeviceType::WatchDog => 35,
            DeviceType::CANDev => 36,
            DeviceType::ParamServer => 38,
            DeviceType::AudioPolDev => 39,
            DeviceType::BluetoothDev => 40,
            DeviceType::GPIODev => 41,
            DeviceType::RDMADev => 42,
        }
    }

    /// Whether some kind of device reports the number `value`.
    pub open spec fn is_id(value: usize) -> bool {
        value <= 42 && value != 14 && value != 15 && value != 37
    }

    /// The number that a device of this kind reports.
    pub fn id(&self) -> (r: usize)
        ensures
            r == self.spec_id(),
            Self::is_id(r),
    {
        match self {
            DeviceType::Reserved => 0,
            DeviceType::NetworkCard => 1,
            DeviceType::BlockDev => 2,
            DeviceType::Console => 3,
            DeviceType::EntropyDev => 4,
            DeviceType::MemBalloonTrad => 5,
            DeviceType::IoMem => 6,
            DeviceType::RPMsg => 7,
            DeviceType::SCSIHost => 8,
            DeviceType::Transport9P => 9,
            DeviceType::Mac80211Wlan => 10,
            DeviceType::RProcSerial => 11,
            DeviceType::Caif => 12,
            DeviceType::MemBalloon => 13,
            DeviceType::GPUDev => 16,
            DeviceType::ClockDev => 17,
            DeviceType::InputDev => 18,
            DeviceType::SocketDev => 19,
            DeviceType::CryptoDev => 20,
            DeviceType::SigDistMod => 21,
            DeviceType::PStoreDev => 22,
            DeviceType::IOMMUDev => 23,
            DeviceType::MemDev => 24,
            DeviceType::AudioDev => 25,
            DeviceType::FSDev => 26,
            DeviceType::PMemDev => 27,
            DeviceType::RPMBDev => 28,
            DeviceType::Mac80211HWSim => 29,
            DeviceType::VideoEncoder => 30,
            DeviceType::VideoDecoder => 31,
            DeviceType::SCMIDev => 32,
            DeviceType::NitroSecureModule => 33,
            DeviceType::I2cAdapter => 34,
            DeviceType::WatchDog => 35,
            DeviceType::CANDev => 36,
            DeviceType::ParamServer => 38,
            DeviceType::AudioPolDev => 39,
            DeviceType::BluetoothDev => 40,
            DeviceType::GPIODev => 41,
            DeviceType::RDMADev => 42,
        }
    }

    /// The kind of device that reports the number `value`.
    pub fn from(value: usize) -> (r: Self)
        requires
            Self::is_id(value),
        ensures
            r.spec_id() == value,
    {
        match value {
            0 => Self::Reserved,
            1 => Self::NetworkCard,
            2 => Self::BlockDev,
            3 => Self::Console,
            4 => Self::EntropyDev,
            5 => Self::MemBalloonTrad,
            6 => Self::IoMem,
            7 => Self::RPMsg,
            8 => Self::SCSIHost,
            9 => Self::Transport9P,
            10 => Self::Mac80211Wlan,
            11 => Self::RProcSerial,
            12 => Self::Caif,
            13 => Self::MemBalloon,
            16 => Self::GPUDev,
            17 => Self::ClockDev,
            18 => Self::InputDev,
            19 => Self::SocketDev,
            20 => Self::CryptoDev,
            21 => Self::SigDistMod,
            22 => Self::PStoreDev,
            23 => Self::IOMMUDev,
            24 => Self::MemDev,
            25 => Self::AudioDev,
            26 => Self::FSDev,
            27 => Self::PMemDev,
            28 => Self::RPMBDev,
            29 => Self::Mac80211HWSim,
            30 => Self::VideoEncoder,
            31 => Self::VideoDecoder,
            32 => Self::SCMIDev,
            33 => Self::NitroSecureModule,
            34 => Self::I2cAdapter,
            35 => Self::WatchDog,
            36 => Self::CANDev,
            38 => Self::ParamServer,
            39 => Self::AudioPolDev,
            40 => Self::BluetoothDev,
            41 => Self::GPIODev,
            _ => Self::RDMADev,
        }
    }

    /// The kind of device that reports the number `value`, if there is one.
    pub fn from_id(value: usize) -> (r: Option<Self>)
        ensures
            r is Some <==> Self::is_id(value),
            r is Some ==> r->0.spec_id() == value,
    {
        if value <= 42 && value != 14 && value != 15 && value != 37 {
            Some(Self::from(value))
        } else {
            None
        }
    }
}

/// The number that a virtio device shows first.
pub const VIRTIO_MAGIC: u32 = 0x7472_6976;

/// The version of the protocol that the kernel speaks.
pub const VIRTIO_VERSION: u32 = 2;

/// The first registers of a virtio device, as read from it.
#[derive(Clone, Copy, Debug, PartialEq, Eq, Structural)]
pub struct VirtIoHeader {
    pub magic: u32,
    pub version: u32,
    pub device_id: u32,
    pub vendor_id: u32,
}

impl VirtIoHeader {
    /// The header, if it is one of a device that the kernel can talk to.
    pub fn from_registers(magic: u32, version: u32, device_id: u32, vendor_id: u32) -> (r: Option<
        Self,
    >)
        ensures
            r == if magic == VIRTIO_MAGIC || version == VIRTIO_VERSION {
                Some(VirtIoHeader { magic, version, device_id, vendor_id })
            } else {
                None
            },
    {
        let header = VirtIoHeader { magic, version, device_id, vendor_id };
        if !header.is_valid() {
            None
        } else {
            Some(header)
        }
    }

    /// Whether the registers are those of a device that the kernel can
    /// talk to: the magic number is right, or the version is.
    pub fn is_valid(&self) -> (r: bool)
        ensures
            r == (self.magic == VIRTIO_MAGIC || self.version == VIRTIO_VERSION),
    {
        let mut valid = self.magic == VIRTIO_MAGIC;
        valid = valid || self.version == VIRTIO_VERSION;
        valid
    }

    /// The kind of the device.
    pub fn dev_id(&self) -> (r: DeviceType)
        requires
            DeviceType::is_id(self.device_id as usize),
        ensures
            r.spec_id() == self.device_id,
    {
        DeviceType::from(self.device_id as usize)
    }
}

} // verus!
