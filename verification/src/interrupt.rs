//! Interrupts of the peripheral and sets of them, as the interrupt registers
//! hold them: one flag bit per interrupt, bits 30 and 31 reserved.
use vstd::prelude::*;
use vstd::string::StringExecFns;

use crate::bits::{bit_is_set, get_bit, lemma_with_bit, set_bit, with_bit};

verus! {

/// Flags of the interrupt registers that stand for an interrupt; the bits
/// above them are reserved.
pub const INTERRUPT_MASK: u32 = 0x3fff_ffff;

/// A single interrupt.
#[derive(Debug, Copy, Clone, PartialEq, Eq, Structural)]
pub enum Interrupt {
    /// RF0N
    RxFifo0NewMessage,
    /// RF0W
    RxFifo0WatermarkReached,
    /// RF0F
    RxFifo0Full,
    /// RF0L
    RxFifo0MessageLost,
    /// RF1N
    RxFifo1NewMessage,
    /// RF1W
    RxFifo1WatermarkReached,
    /// RF1F
    RxFifo1Full,
    /// RF1L
    RxFifo1MessageLost,
    /// HPM
    HighPriorityMessage,
    /// TC
    TransmissionCompleted,
    /// TCF
    TransmissionCancellationFinished,
    /// TFE
    TxFifoEmpty,
    /// TEFN
    TxEventFifoNewEntry,
    /// TEFW
    TxEventFifoWatermarkReached,
    /// TEFF
    TxEventFifoFull,
    /// TEFL
    TxEventFifoElementLost,
    /// TSW
    TimestampWraparound,
    /// MRAF
    MessageRamAccessFailure,
    /// TOO
    TimeoutOccured,
    /// DRX
    MessageStoredToDedicatedRxBuffer,
    /// BEC
    BitErrorCorrected,
    /// BEU
    BitErrorUncorrected,
    /// ELO
    ErrorLoggingOverflow,
    /// EP
    ErrorPassive,
    /// EW
    WarningStatusChanged,
    /// BO
    BusOff,
    /// WDI
    Watchdog,
    /// PEA
    ProtocolErrorArbitration,
    /// PED
    ProtocolErrorData,
    /// ARA
    AccessToReservedAddress,
}

/// The interrupt whose flag is bit `i` of the interrupt registers, for `i`
/// below 30.
pub open spec fn interrupt_at(i: u8) -> Interrupt {
    match i {
        0 => Interrupt::RxFifo0NewMessage,
        1 => Interrupt::RxFifo0WatermarkReached,
        2 => Interrupt::RxFifo0Full,
        3 => Interrupt::RxFifo0MessageLost,
        4 => Interrupt::RxFifo1NewMessage,
        5 => Interrupt::RxFifo1WatermarkReached,
        6 => Interrupt::RxFifo1Full,
        7 => Interrupt::RxFifo1MessageLost,
        8 => Interrupt::HighPriorityMessage,
        9 => Interrupt::TransmissionCompleted,
        10 => Interrupt::TransmissionCancellationFinished,
        11 => Interrupt::TxFifoEmpty,
        12 => Interrupt::TxEventFifoNewEntry,
        13 => Interrupt::TxEventFifoWatermarkReached,
        14 => Interrupt::TxEventFifoFull,
        15 => Interrupt::TxEventFifoElementLost,
        16 => Interrupt::TimestampWraparound,
        17 => Interrupt::MessageRamAccessFailure,
        18 => Interrupt::TimeoutOccured,
        19 => Interrupt::MessageStoredToDedicatedRxBuffer,
        20 => Interrupt::BitErrorCorrected,
        21 => Interrupt::BitErrorUncorrected,
        22 => Interrupt::ErrorLoggingOverflow,
        23 => Interrupt::ErrorPassive,
        24 => Interrupt::WarningStatusChanged,
        25 => Interrupt::BusOff,
        26 => Interrupt::Watchdog,
        27 => Interrupt::ProtocolErrorArbitration,
        28 => Interrupt::ProtocolErrorData,
        _ => Interrupt::AccessToReservedAddress,
    }
}

/// The name under which an interrupt set lists the flag at bit `i`.
pub open spec fn flag_name_spec(i: u8) -> Seq<char> {
    match i {
        0 => "RF0N"@,
        1 => "RF0W"@,
        2 => "RF0F"@,
        3 => "RF0L"@,
        4 => "RF1N"@,
        5 => "RF1W"@,
        6 => "RF1F"@,
        7 => "RF1L"@,
        8 => "HPM"@,
        9 => "TC"@,
        10 => "TCF"@,
        11 => "TFE"@,
        12 => "TEFN"@,
        13 => "TEFW"@,
        14 => "TEFF"@,
        15 => "TEFL"@,
        16 => "TSW"@,
        17 => "MRAF"@,
        18 => "TOO"@,
        19 => "DRX"@,
        20 => "BEC"@,
        21 => "BEU"@,
        22 => "ELO"@,
        23 => "EP"@,
        24 => "EW"@,
        25 => "BO"@,
        26 => "WDI"@,
        27 => "PEA"@,
        28 => "PED"@,
        _ => "ARA"@,
    }
}

impl Interrupt {
    /// The position of the interrupt's flag in the interrupt registers.
    pub open spec fn spec_index(self) -> u8 {
        match self {
            Interrupt::RxFifo0NewMessage => 0,
            Interrupt::RxFifo0WatermarkReached => 1,
            Interrupt::RxFifo0Full => 2,
            Interrupt::RxFifo0MessageLost => 3,
            Interrupt::RxFifo1NewMessage => 4,
            Interrupt::RxFifo1WatermarkReached => 5,
            Interrupt::RxFifo1Full => 6,
            Interrupt::RxFifo1MessageLost => 7,
            Interrupt::HighPriorityMessage => 8,
            Interrupt::TransmissionCompleted => 9,
            Interrupt::TransmissionCancellationFinished => 10,
            Interrupt::TxFifoEmpty => 11,
            Interrupt::TxEventFifoNewEntry => 12,
            Interrupt::TxEventFifoWatermarkReached => 13,
            Interrupt::TxEventFifoFull => 14,
            Interrupt::TxEventFifoElementLost => 15,
            Interrupt::TimestampWraparound => 16,
            Interrupt::MessageRamAccessFailure => 17,
            Interrupt::TimeoutOccured => 18,
            Interrupt::MessageStoredToDedicatedRxBuffer => 19,
            Interrupt::BitErrorCorrected => 20,
            Interrupt::BitErrorUncorrected => 21,
            Interrupt::ErrorLoggingOverflow => 22,
            Interrupt::ErrorPassive => 23,
            Interrupt::WarningStatusChanged => 24,
            Interrupt::BusOff => 25,
            Interrupt::Watchdog => 26,
            Interrupt::ProtocolErrorArbitration => 27,
            Interrupt::ProtocolErrorData => 28,
            Interrupt::AccessToReservedAddress => 29,
        }
    }

    /// The position of the interrupt's flag in the interrupt registers.
    pub fn index(self) -> (r: u8)
        ensures
            r == self.spec_index(),
            r < 30,
    {
        match self {
            Interrupt::RxFifo0NewMessage => 0,
            Interrupt::RxFifo0WatermarkReached => 1,
            Interrupt::RxFifo0Full => 2,
            Interrupt::RxFifo0MessageLost => 3,
            Interrupt::RxFifo1NewMessage => 4,
            Interrupt::RxFifo1WatermarkReached => 5,
            Interrupt::RxFifo1Full => 6,
            Interrupt::RxFifo1MessageLost => 7,
            Interrupt::HighPriorityMessage => 8,
            Interrupt::TransmissionCompleted => 9,
            Interrupt::TransmissionCancellationFinished => 10,
            Interrupt::TxFifoEmpty => 11,
            Interrupt::TxEventFifoNewEntry => 12,
            Interrupt::TxEventFifoWatermarkReached => 13,
            Interrupt::TxEventFifoFull => 14,
            Interrupt::TxEventFifoElementLost => 15,
            Interrupt::TimestampWraparound => 16,
            Interrupt::MessageRamAccessFailure => 17,
            Interrupt::TimeoutOccured => 18,
            Interrupt::MessageStoredToDedicatedRxBuffer => 19,
            Interrupt::BitErrorCorrected => 20,
            Interrupt::BitErrorUncorrected => 21,
            Interrupt::ErrorLoggingOverflow => 22,
            Interrupt::ErrorPassive => 23,
            Interrupt::WarningStatusChanged => 24,
            Interrupt::BusOff => 25,
            Interrupt::Watchdog => 26,
            Interrupt::ProtocolErrorArbitration => 27,
            Interrupt::ProtocolErrorData => 28,
            Interrupt::AccessToReservedAddress => 29,
        }
    }
}

/// The name of the flag at bit `i`, as an interrupt set lists it.
fn flag_name(i: u8) -> (r: &'static str)
    requires
        i < 30,
    ensures
        r@ == flag_name_spec(i),
{
    match i {
        0 => "RF0N",
        1 => "RF0W",
        2 => "RF0F",
        3 => "RF0L",
        4 => "RF1N",
        5 => "RF1W",
        6 => "RF1F",
        7 => "RF1L",
        8 => "HPM",
        9 => "TC",
        10 => "TCF",
        11 => "TFE",
        12 => "TEFN",
        13 => "TEFW",
        14 => "TEFF",
        15 => "TEFL",
        16 => "TSW",
        17 => "MRAF",
        18 => "TOO",
        19 => "DRX",
        20 => "BEC",
        21 => "BEU",
        22 => "ELO",
        23 => "EP",
        24 => "EW",
        25 => "BO",
        26 => "WDI",
        27 => "PEA",
        28 => "PED",
        _ => "ARA",
    }
}

/// The register layout: each interrupt's flag sits at its fixed bit of the
/// interrupt registers (IR, IE, ILS), and a set lists it under its register
/// name, the one its documentation gives.
pub proof fn law_interrupt_layout()
    ensures
        Interrupt::RxFifo0NewMessage.spec_index() == 0 && flag_name_spec(0) == "RF0N"@,
        Interrupt::RxFifo0WatermarkReached.spec_index() == 1 && flag_name_spec(1) == "RF0W"@,
        Interrupt::RxFifo0Full.spec_index() == 2 && flag_name_spec(2) == "RF0F"@,
        Interrupt::RxFifo0MessageLost.spec_index() == 3 && flag_name_spec(3) == "RF0L"@,
        Interrupt::RxFifo1NewMessage.spec_index() == 4 && flag_name_spec(4) == "RF1N"@,
        Interrupt::RxFifo1WatermarkReached.spec_index() == 5 && flag_name_spec(5) == "RF1W"@,
        Interrupt::RxFifo1Full.spec_index() == 6 && flag_name_spec(6) == "RF1F"@,
        Interrupt::RxFifo1MessageLost.spec_index() == 7 && flag_name_spec(7) == "RF1L"@,
        Interrupt::HighPriorityMessage.spec_index() == 8 && flag_name_spec(8) == "HPM"@,
        Interrupt::TransmissionCompleted.spec_index() == 9 && flag_name_spec(9) == "TC"@,
        Interrupt::TransmissionCancellationFinished.spec_index() == 10 && flag_name_spec(10) == "TCF"@,
        Interrupt::TxFifoEmpty.spec_index() == 11 && flag_name_spec(11) == "TFE"@,
        Interrupt::TxEventFifoNewEntry.spec_index() == 12 && flag_name_spec(12) == "TEFN"@,
        Interrupt::TxEventFifoWatermarkReached.spec_index() == 13 && flag_name_spec(13) == "TEFW"@,
        Interrupt::TxEventFifoFull.spec_index() == 14 && flag_name_spec(14) == "TEFF"@,
        Interrupt::TxEventFifoElementLost.spec_index() == 15 && flag_name_spec(15) == "TEFL"@,
        Interrupt::TimestampWraparound.spec_index() == 16 && flag_name_spec(16) == "TSW"@,
        Interrupt::MessageRamAccessFailure.spec_index() == 17 && flag_name_spec(17) == "MRAF"@,
        Interrupt::TimeoutOccured.spec_index() == 18 && flag_name_spec(18) == "TOO"@,
        Interrupt::MessageStoredToDedicatedRxBuffer.spec_index() == 19 && flag_name_spec(19) == "DRX"@,
        Interrupt::BitErrorCorrected.spec_index() == 20 && flag_name_spec(20) == "BEC"@,
        Interrupt::BitErrorUncorrected.spec_index() == 21 && flag_name_spec(21) == "BEU"@,
        Interrupt::ErrorLoggingOverflow.spec_index() == 22 && flag_name_spec(22) == "ELO"@,
        Interrupt::ErrorPassive.spec_index() == 23 && flag_name_spec(23) == "EP"@,
        Interrupt::WarningStatusChanged.spec_index() == 24 && flag_name_spec(24) == "EW"@,
        Interrupt::BusOff.spec_index() == 25 && flag_name_spec(25) == "BO"@,
        Interrupt::Watchdog.spec_index() == 26 && flag_name_spec(26) == "WDI"@,
        Interrupt::ProtocolErrorArbitration.spec_index() == 27 && flag_name_spec(27) == "PEA"@,
        Interrupt::ProtocolErrorData.spec_index() == 28 && flag_name_spec(28) == "PED"@,
        Interrupt::AccessToReservedAddress.spec_index() == 29 && flag_name_spec(29) == "ARA"@,
{
}

/// Looking an interrupt up by its position and taking its position back
/// gives the position again, for every position that stands for one.
pub proof fn lemma_index_of_interrupt_at(i: u8)
    requires
        i < 30,
    ensures
        interrupt_at(i).spec_index() == i,
{
}

/// Every interrupt is the one at its own position.
pub proof fn lemma_interrupt_at_index(x: Interrupt)
    ensures
        interrupt_at(x.spec_index()) == x,
        x.spec_index() < 30,
{
}

impl From<Interrupt> for u32 {
    /// The mask of the interrupt's flag.
    fn from(x: Interrupt) -> (r: u32) {
        let shift: u8 = x.index();
        1u32 << shift
    }
}

impl vstd::std_specs::convert::FromSpecImpl<Interrupt> for u32 {
    open spec fn obeys_from_spec() -> bool {
        true
    }

    open spec fn from_spec(x: Interrupt) -> u32 {
        1u32 << (x.spec_index() as u32)
    }
}

impl TryFrom<u8> for Interrupt {
    type Error = ();

    /// The interrupt whose flag is at position `value`; positions from 30 on
    /// stand for no interrupt.
    fn try_from(value: u8) -> (r: Result<Self, Self::Error>) {
        let ret = match value {
            0 => Interrupt::RxFifo0NewMessage,
            1 => Interrupt::RxFifo0WatermarkReached,
            2 => Interrupt::RxFifo0Full,
            3 => Interrupt::RxFifo0MessageLost,
            4 => Interrupt::RxFifo1NewMessage,
            5 => Interrupt::RxFifo1WatermarkReached,
            6 => Interrupt::RxFifo1Full,
            7 => Interrupt::RxFifo1MessageLost,
            8 => Interrupt::HighPriorityMessage,
            9 => Interrupt::TransmissionCompleted,
            10 => Interrupt::TransmissionCancellationFinished,
            11 => Interrupt::TxFifoEmpty,
            12 => Interrupt::TxEventFifoNewEntry,
            13 => Interrupt::TxEventFifoWatermarkReached,
            14 => Interrupt::TxEventFifoFull,
            15 => Interrupt::TxEventFifoElementLost,
            16 => Interrupt::TimestampWraparound,
            17 => Interrupt::MessageRamAccessFailure,
            18 => Interrupt::TimeoutOccured,
            19 => Interrupt::MessageStoredToDedicatedRxBuffer,
            20 => Interrupt::BitErrorCorrected,
            21 => Interrupt::BitErrorUncorrected,
            22 => Interrupt::ErrorLoggingOverflow,
            23 => Interrupt::ErrorPassive,
            24 => Interrupt::WarningStatusChanged,
            25 => Interrupt::BusOff,
            26 => Interrupt::Watchdog,
            27 => Interrupt::ProtocolErrorArbitration,
            28 => Interrupt::ProtocolErrorData,
            29 => Interrupt::AccessToReservedAddress,
            _ => return Err(()),
        };
        Ok(ret)
    }
}

impl vstd::std_specs::convert::TryFromSpecImpl<u8> for Interrupt {
    open spec fn obeys_try_from_spec() -> bool {
        true
    }

    open spec fn try_from_spec(value: u8) -> Result<Self, ()> {
        if value < 30 {
            Ok(interrupt_at(value))
        } else {
            Err(())
        }
    }
}

/// The interrupts whose flags are set in `bits` at positions `lo` to 29, in
/// the order of their positions.
pub open spec fn flagged_from(bits: u32, lo: int) -> Seq<Interrupt>
    decreases 30 - lo,
{
    if 0 <= lo < 30 {
        let rest = flagged_from(bits, lo + 1);
        if bit_is_set(bits, lo as u32) {
            seq![interrupt_at(lo as u8)] + rest
        } else {
            rest
        }
    } else {
        Seq::empty()
    }
}

/// The flags of the given interrupts, or-ed together.
pub open spec fn mask_of(interrupts: Seq<Interrupt>) -> u32
    decreases interrupts.len(),
{
    if interrupts.len() == 0 {
        0
    } else {
        mask_of(interrupts.drop_last()) | (1u32 << (interrupts.last().spec_index() as u32))
    }
}

/// The names of the flags set in `bits` at positions `lo` to 29, from the
/// highest position down, each followed by a space.
pub open spec fn flag_names(bits: u32, lo: int) -> Seq<char>
    decreases 30 - lo,
{
    if 0 <= lo < 30 {
        let rest = flag_names(bits, lo + 1);
        if bit_is_set(bits, lo as u32) {
            rest + flag_name_spec(lo as u8) + " "@
        } else {
            rest
        }
    } else {
        Seq::empty()
    }
}

/// A set of CAN interrupts.
#[derive(Copy, Clone, Debug)]
pub struct InterruptSet(pub u32);

impl InterruptSet {
    /// Whether the set holds interrupt `x`.
    pub open spec fn has(self, x: Interrupt) -> bool {
        bit_is_set(self.0, x.spec_index() as u32)
    }

    /// Access to Reserved Address
    pub fn ara(&self) -> (r: bool)
        ensures
            r == bit_is_set(self.0, 29),
            r == self.has(Interrupt::AccessToReservedAddress),
    {
        get_bit(self.0, 29)
    }

    /// Sets or clears the flag: Access to Reserved Address
    pub fn set_ara(&mut self, value: bool)
        ensures
            final(self).0 == with_bit(old(self).0, 29, value),
            final(self).has(Interrupt::AccessToReservedAddress) == value,
    {
        proof {
            lemma_with_bit(self.0, 29, value);
        }
        self.0 = set_bit(self.0, 29, value);
    }

    /// Protocol Error in Data phase
    pub fn ped(&self) -> (r: bool)
        ensures
            r == bit_is_set(self.0, 28),
            r == self.has(Interrupt::ProtocolErrorData),
    {
        get_bit(self.0, 28)
    }

    /// Sets or clears the flag: Protocol Error in Data phase
    pub fn set_ped(&mut self, value: bool)
        ensures
            final(self).0 == with_bit(old(self).0, 28, value),
            final(self).has(Interrupt::ProtocolErrorData) == value,
    {
        proof {
            lemma_with_bit(self.0, 28, value);
        }
        self.0 = set_bit(self.0, 28, value);
    }

    /// Protocol Error in Arbitration phase
    pub fn pea(&self) -> (r: bool)
        ensures
            r == bit_is_set(self.0, 27),
            r == self.has(Interrupt::ProtocolErrorArbitration),
    {
        get_bit(self.0, 27)
    }

    /// Sets or clears the flag: Protocol Error in Arbitration phase
    pub fn set_pea(&mut self, value: bool)
        ensures
            final(self).0 == with_bit(old(self).0, 27, value),
            final(self).has(Interrupt::ProtocolErrorArbitration) == value,
    {
        proof {
            lemma_with_bit(self.0, 27, value);
        }
        self.0 = set_bit(self.0, 27, value);
    }

    /// Watchdog
    pub fn wdi(&self) -> (r: bool)
        ensures
            r == bit_is_set(self.0, 26),
            r == self.has(Interrupt::Watchdog),
    {
        get_bit(self.0, 26)
    }

    /// Sets or clears the flag: Watchdog
    pub fn set_wdi(&mut self, value: bool)
        ensures
            final(self).0 == with_bit(old(self).0, 26, value),
            final(self).has(Interrupt::Watchdog) == value,
    {
        proof {
            lemma_with_bit(self.0, 26, value);
        }
        self.0 = set_bit(self.0, 26, value);
    }

    /// Bus Off
    pub fn bo(&self) -> (r: bool)
        ensures
            r == bit_is_set(self.0, 25),
            r == self.has(Interrupt::BusOff),
    {
        get_bit(self.0, 25)
    }

    /// Sets or clears the flag: Bus Off
    pub fn set_bo(&mut self, value: bool)
        ensures
            final(self).0 == with_bit(old(self).0, 25, value),
            final(self).has(Interrupt::BusOff) == value,
    {
        proof {
            lemma_with_bit(self.0, 25, value);
        }
        self.0 = set_bit(self.0, 25, value);
    }

    /// Warning status changed
    pub fn ew(&self) -> (r: bool)
        ensures
            r == bit_is_set(self.0, 24),
            r == self.has(Interrupt::WarningStatusChanged),
    {
        get_bit(self.0, 24)
    }

    /// Sets or clears the flag: Warning status changed
    pub fn set_ew(&mut self, value: bool)
        ensures
            final(self).0 == with_bit(old(self).0, 24, value),
            final(self).has(Interrupt::WarningStatusChanged) == value,
    {
        proof {
            lemma_with_bit(self.0, 24, value);
        }
        self.0 = set_bit(self.0, 24, value);
    }

    /// Error Passive
    pub fn ep(&self) -> (r: bool)
        ensures
            r == bit_is_set(self.0, 23),
            r == self.has(Interrupt::ErrorPassive),
    {
        get_bit(self.0, 23)
    }

    /// Sets or clears the flag: Error Passive
    pub fn set_ep(&mut self, value: bool)
        ensures
            final(self).0 == with_bit(old(self).0, 23, value),
            final(self).has(Interrupt::ErrorPassive) == value,
    {
        proof {
            lemma_with_bit(self.0, 23, value);
        }
        self.0 = set_bit(self.0, 23, value);
    }

    /// Error Logging Overflow
    pub fn elo(&self) -> (r: bool)
        ensures
            r == bit_is_set(self.0, 22),
            r == self.has(Interrupt::ErrorLoggingOverflow),
    {
        get_bit(self.0, 22)
    }

    /// Sets or clears the flag: Error Logging Overflow
    pub fn set_elo(&mut self, value: bool)
        ensures
            final(self).0 == with_bit(old(self).0, 22, value),
            final(self).has(Interrupt::ErrorLoggingOverflow) == value,
    {
        proof {
            lemma_with_bit(self.0, 22, value);
        }
        self.0 = set_bit(self.0, 22, value);
    }

    /// Bit Error Uncorrected
    pub fn beu(&self) -> (r: bool)
        ensures
            r == bit_is_set(self.0, 21),
            r == self.has(Interrupt::BitErrorUncorrected),
    {
        get_bit(self.0, 21)
    }

    /// Sets or clears the flag: Bit Error Uncorrected
    pub fn set_beu(&mut self, value: bool)
        ensures
            final(self).0 == with_bit(old(self).0, 21, value),
            final(self).has(Interrupt::BitErrorUncorrected) == value,
    {
        proof {
            lemma_with_bit(self.0, 21, value);
        }
        self.0 = set_bit(self.0, 21, value);
    }

    /// Bit Error Corrected
    pub fn bec(&self) -> (r: bool)
        ensures
            r == bit_is_set(self.0, 20),
            r == self.has(Interrupt::BitErrorCorrected),
    {
        get_bit(self.0, 20)
    }

    /// Sets or clears the flag: Bit Error Corrected
    pub fn set_bec(&mut self, value: bool)
        ensures
            final(self).0 == with_bit(old(self).0, 20, value),
            final(self).has(Interrupt::BitErrorCorrected) == value,
    {
        proof {
            lemma_with_bit(self.0, 20, value);
        }
        self.0 = set_bit(self.0, 20, value);
    }

    /// Message stored to Dedicated Rx Buffer
    pub fn drx(&self) -> (r: bool)
        ensures
            r == bit_is_set(self.0, 19),
            r == self.has(Interrupt::MessageStoredToDedicatedRxBuffer),
    {
        get_bit(self.0, 19)
    }

    /// Sets or clears the flag: Message stored to Dedicated Rx Buffer
    pub fn set_drx(&mut self, value: bool)
        ensures
            final(self).0 == with_bit(old(self).0, 19, value),
            final(self).has(Interrupt::MessageStoredToDedicatedRxBuffer) == value,
    {
        proof {
            lemma_with_bit(self.0, 19, value);
        }
        self.0 = set_bit(self.0, 19, value);
    }

    /// Timeout Occured
    pub fn too(&self) -> (r: bool)
        ensures
            r == bit_is_set(self.0, 18),
            r == self.has(Interrupt::TimeoutOccured),
    {
        get_bit(self.0, 18)
    }

    /// Sets or clears the flag: Timeout Occured
    pub fn set_too(&mut self, value: bool)
        ensures
            final(self).0 == with_bit(old(self).0, 18, value),
            final(self).has(Interrupt::TimeoutOccured) == value,
    {
        proof {
            lemma_with_bit(self.0, 18, value);
        }
        self.0 = set_bit(self.0, 18, value);
    }

    /// Message Ram Access Failure
    pub fn mraf(&self) -> (r: bool)
        ensures
            r == bit_is_set(self.0, 17),
            r == self.has(Interrupt::MessageRamAccessFailure),
    {
        get_bit(self.0, 17)
    }

    /// Sets or clears the flag: Message Ram Access Failure
    pub fn set_mraf(&mut self, value: bool)
        ensures
            final(self).0 == with_bit(old(self).0, 17, value),
            final(self).has(Interrupt::MessageRamAccessFailure) == value,
    {
        proof {
            lemma_with_bit(self.0, 17, value);
        }
        self.0 = set_bit(self.0, 17, value);
    }

    /// Timestamp Wraparound
    pub fn tsw(&self) -> (r: bool)
        ensures
            r == bit_is_set(self.0, 16),
            r == self.has(Interrupt::TimestampWraparound),
    {
        get_bit(self.0, 16)
    }

    /// Sets or clears the flag: Timestamp Wraparound
    pub fn set_tsw(&mut self, value: bool)
        ensures
            final(self).0 == with_bit(old(self).0, 16, value),
            final(self).has(Interrupt::TimestampWraparound) == value,
    {
        proof {
            lemma_with_bit(self.0, 16, value);
        }
        self.0 = set_bit(self.0, 16, value);
    }

    /// Tx Event Fifo Element Lost
    pub fn tefl(&self) -> (r: bool)
        ensures
            r == bit_is_set(self.0, 15),
            r == self.has(Interrupt::TxEventFifoElementLost),
    {
        get_bit(self.0, 15)
    }

    /// Sets or clears the flag: Tx Event Fifo Element Lost
    pub fn set_tefl(&mut self, value: bool)
        ensures
            final(self).0 == with_bit(old(self).0, 15, value),
            final(self).has(Interrupt::TxEventFifoElementLost) == value,
    {
        proof {
            lemma_with_bit(self.0, 15, value);
        }
        self.0 = set_bit(self.0, 15, value);
    }

    /// Tx Event Fifo Full
    pub fn teff(&self) -> (r: bool)
        ensures
            r == bit_is_set(self.0, 14),
            r == self.has(Interrupt::TxEventFifoFull),
    {
        get_bit(self.0, 14)
    }

    /// Sets or clears the flag: Tx Event Fifo Full
    pub fn set_teff(&mut self, value: bool)
        ensures
            final(self).0 == with_bit(old(self).0, 14, value),
            final(self).has(Interrupt::TxEventFifoFull) == value,
    {
        proof {
            lemma_with_bit(self.0, 14, value);
        }
        self.0 = set_bit(self.0, 14, value);
    }

    /// Tx Event Fifo Watermark Reached
    pub fn tefw(&self) -> (r: bool)
        ensures
            r == bit_is_set(self.0, 13),
            r == self.has(Interrupt::TxEventFifoWatermarkReached),
    {
        get_bit(self.0, 13)
    }

    /// Sets or clears the flag: Tx Event Fifo Watermark Reached
    pub fn set_tefw(&mut self, value: bool)
        ensures
            final(self).0 == with_bit(old(self).0, 13, value),
            final(self).has(Interrupt::TxEventFifoWatermarkReached) == value,
    {
        proof {
            lemma_with_bit(self.0, 13, value);
        }
        self.0 = set_bit(self.0, 13, value);
    }

    /// Tx Event Fifo New Entry
    pub fn tefn(&self) -> (r: bool)
        ensures
            r == bit_is_set(self.0, 12),
            r == self.has(Interrupt::TxEventFifoNewEntry),
    {
        get_bit(self.0, 12)
    }

    /// Sets or clears the flag: Tx Event Fifo New Entry
    pub fn set_tefn(&mut self, value: bool)
        ensures
            final(self).0 == with_bit(old(self).0, 12, value),
            final(self).has(Interrupt::TxEventFifoNewEntry) == value,
    {
        proof {
            lemma_with_bit(self.0, 12, value);
        }
        self.0 = set_bit(self.0, 12, value);
    }

    /// Tx Fifo Empty
    pub fn tfe(&self) -> (r: bool)
        ensures
            r == bit_is_set(self.0, 11),
            r == self.has(Interrupt::TxFifoEmpty),
    {
        get_bit(self.0, 11)
    }

    /// Sets or clears the flag: Tx Fifo Empty
    pub fn set_tfe(&mut self, value: bool)
        ensures
            final(self).0 == with_bit(old(self).0, 11, value),
            final(self).has(Interrupt::TxFifoEmpty) == value,
    {
        proof {
            lemma_with_bit(self.0, 11, value);
        }
        self.0 = set_bit(self.0, 11, value);
    }

    /// Transmission Cancellation Finished
    pub fn tcf(&self) -> (r: bool)
        ensures
            r == bit_is_set(self.0, 10),
            r == self.has(Interrupt::TransmissionCancellationFinished),
    {
        get_bit(self.0, 10)
    }

    /// Sets or clears the flag: Transmission Cancellation Finished
    pub fn set_tcf(&mut self, value: bool)
        ensures
            final(self).0 == with_bit(old(self).0, 10, value),
            final(self).has(Interrupt::TransmissionCancellationFinished) == value,
    {
        proof {
            lemma_with_bit(self.0, 10, value);
        }
        self.0 = set_bit(self.0, 10, value);
    }

    /// Transmission Completed
    pub fn tc(&self) -> (r: bool)
        ensures
            r == bit_is_set(self.0, 9),
            r == self.has(Interrupt::TransmissionCompleted),
    {
        get_bit(self.0, 9)
    }

    /// Sets or clears the flag: Transmission Completed
    pub fn set_tc(&mut self, value: bool)
        ensures
            final(self).0 == with_bit(old(self).0, 9, value),
            final(self).has(Interrupt::TransmissionCompleted) == value,
    {
        proof {
            lemma_with_bit(self.0, 9, value);
        }
        self.0 = set_bit(self.0, 9, value);
    }

    /// High Priority Message
    pub fn hpm(&self) -> (r: bool)
        ensures
            r == bit_is_set(self.0, 8),
            r == self.has(Interrupt::HighPriorityMessage),
    {
        get_bit(self.0, 8)
    }

    /// Sets or clears the flag: High Priority Message
    pub fn set_hpm(&mut self, value: bool)
        ensures
            final(self).0 == with_bit(old(self).0, 8, value),
            final(self).has(Interrupt::HighPriorityMessage) == value,
    {
        proof {
            lemma_with_bit(self.0, 8, value);
        }
        self.0 = set_bit(self.0, 8, value);
    }

    /// Rx Fifo1 Message Lost
    pub fn rf1l(&self) -> (r: bool)
        ensures
            r == bit_is_set(self.0, 7),
            r == self.has(Interrupt::RxFifo1MessageLost),
    {
        get_bit(self.0, 7)
    }

    /// Sets or clears the flag: Rx Fifo1 Message Lost
    pub fn set_rf1l(&mut self, value: bool)
        ensures
            final(self).0 == with_bit(old(self).0, 7, value),
            final(self).has(Interrupt::RxFifo1MessageLost) == value,
    {
        proof {
            lemma_with_bit(self.0, 7, value);
        }
        self.0 = set_bit(self.0, 7, value);
    }

    /// Rx Fifo1 Full
    pub fn rf1f(&self) -> (r: bool)
        ensures
            r == bit_is_set(self.0, 6),
            r == self.has(Interrupt::RxFifo1Full),
    {
        get_bit(self.0, 6)
    }

    /// Sets or clears the flag: Rx Fifo1 Full
    pub fn set_rf1f(&mut self, value: bool)
        ensures
            final(self).0 == with_bit(old(self).0, 6, value),
            final(self).has(Interrupt::RxFifo1Full) == value,
    {
        proof {
            lemma_with_bit(self.0, 6, value);
        }
        self.0 = set_bit(self.0, 6, value);
    }

    /// Rx Fifo1 Watermark Reached
    pub fn rf1w(&self) -> (r: bool)
        ensures
            r == bit_is_set(self.0, 5),
            r == self.has(Interrupt::RxFifo1WatermarkReached),
    {
        get_bit(self.0, 5)
    }

    /// Sets or clears the flag: Rx Fifo1 Watermark Reached
    pub fn set_rf1w(&mut self, value: bool)
        ensures
            final(self).0 == with_bit(old(self).0, 5, value),
            final(self).has(Interrupt::RxFifo1WatermarkReached) == value,
    {
        proof {
            lemma_with_bit(self.0, 5, value);
        }
        self.0 = set_bit(self.0, 5, value);
    }

    /// Rx Fifo1 New Message
    pub fn rf1n(&self) -> (r: bool)
        ensures
            r == bit_is_set(self.0, 4),
            r == self.has(Interrupt::RxFifo1NewMessage),
    {
        get_bit(self.0, 4)
    }

    /// Sets or clears the flag: Rx Fifo1 New Message
    pub fn set_rf1n(&mut self, value: bool)
        ensures
            final(self).0 == with_bit(old(self).0, 4, value),
            final(self).has(Interrupt::RxFifo1NewMessage) == value,
    {
        proof {
            lemma_with_bit(self.0, 4, value);
        }
        self.0 = set_bit(self.0, 4, value);
    }

    /// Rx Fifo0 Message Lost
    pub fn rf0l(&self) -> (r: bool)
        ensures
            r == bit_is_set(self.0, 3),
            r == self.has(Interrupt::RxFifo0MessageLost),
    {
        get_bit(self.0, 3)
    }

    /// Sets or clears the flag: Rx Fifo0 Message Lost
    pub fn set_rf0l(&mut self, value: bool)
        ensures
            final(self).0 == with_bit(old(self).0, 3, value),
            final(self).has(Interrupt::RxFifo0MessageLost) == value,
    {
        proof {
            lemma_with_bit(self.0, 3, value);
        }
        self.0 = set_bit(self.0, 3, value);
    }

    /// Rx Fifo0 Full
    pub fn rf0f(&self) -> (r: bool)
        ensures
            r == bit_is_set(self.0, 2),
            r == self.has(Interrupt::RxFifo0Full),
    {
        get_bit(self.0, 2)
    }

    /// Sets or clears the flag: Rx Fifo0 Full
    pub fn set_rf0f(&mut self, value: bool)
        ensures
            final(self).0 == with_bit(old(self).0, 2, value),
            final(self).has(Interrupt::RxFifo0Full) == value,
    {
        proof {
            lemma_with_bit(self.0, 2, value);
        }
        self.0 = set_bit(self.0, 2, value);
    }

    /// Rx Fifo0 Watermark Reached
    pub fn rf0w(&self) -> (r: bool)
        ensures
            r == bit_is_set(self.0, 1),
            r == self.has(Interrupt::RxFifo0WatermarkReached),
    {
        get_bit(self.0, 1)
    }

    /// Sets or clears the flag: Rx Fifo0 Watermark Reached
    pub fn set_rf0w(&mut self, value: bool)
        ensures
            final(self).0 == with_bit(old(self).0, 1, value),
            final(self).has(Interrupt::RxFifo0WatermarkReached) == value,
    {
        proof {
            lemma_with_bit(self.0, 1, value);
        }
        self.0 = set_bit(self.0, 1, value);
    }

    /// Rx Fifo0 New Message
    pub fn rf0n(&self) -> (r: bool)
        ensures
            r == bit_is_set(self.0, 0),
            r == self.has(Interrupt::RxFifo0NewMessage),
    {
        get_bit(self.0, 0)
    }

    /// Sets or clears the flag: Rx Fifo0 New Message
    pub fn set_rf0n(&mut self, value: bool)
        ensures
            final(self).0 == with_bit(old(self).0, 0, value),
            final(self).has(Interrupt::RxFifo0NewMessage) == value,
    {
        proof {
            lemma_with_bit(self.0, 0, value);
        }
        self.0 = set_bit(self.0, 0, value);
    }
    /// Bit `i` of the set, as the `bitfield` crate's `Bit::bit` reads it.
    pub fn bit(&self, i: usize) -> (r: bool)
        requires
            i < 32,
        ensures
            r == bit_is_set(self.0, i as u32),
    {
        get_bit(self.0, i)
    }

    /// Sets bit `i` of the set to `value`, as the `bitfield` crate's
    /// `BitMut::set_bit` writes it.
    pub fn set_bit(&mut self, i: usize, value: bool)
        requires
            i < 32,
        ensures
            final(self).0 == with_bit(old(self).0, i as u32, value),
    {
        self.0 = set_bit(self.0, i, value);
    }

    /// An iterator visiting all elements, in the order of their flags from
    /// bit 0 up.
    pub fn iter(&self) -> (r: Iter)
        ensures
            r.spec_flags() == self.0,
            r.spec_position() == 0,
            r@ == flagged_from(self.0, 0),
    {
        Iter { flags: *self, index: 0 }
    }

    /// The set of the given interrupts.
    pub fn from_iter(interrupts: Vec<Interrupt>) -> (r: Self)
        ensures
            r.0 == mask_of(interrupts@),
    {
        let mut set = 0_u32;
        let mut i: usize = 0;
        while i < interrupts.len()
            invariant
                i <= interrupts.len(),
                set == mask_of(interrupts@.take(i as int)),
            decreases interrupts.len() - i,
        {
            let interrupt = interrupts[i];
            assert(interrupts@.take(i + 1).drop_last() =~= interrupts@.take(i as int));
            set |= u32::from(interrupt);
            i += 1;
        }
        assert(interrupts@.take(i as int) =~= interrupts@);
        InterruptSet(set)
    }

    /// Lists the set interrupts, the way a debug view shows them:
    /// `InterruptSet { ` and the names of the set flags from bit 29 down,
    /// each followed by a space, then `}`.
    pub fn to_debug_string(&self) -> (r: String)
        ensures
            r@ == "InterruptSet { "@ + flag_names(self.0, 0) + "}"@,
    {
        let mut out = String::from_str("InterruptSet { ");
        let mut i: u8 = 30;
        while i > 0
            invariant
                i <= 30,
                out@ == "InterruptSet { "@ + flag_names(self.0, i as int),
            decreases i,
        {
            i -= 1;
            let pos: usize = i as usize;
            if get_bit(self.0, pos) {
                out.append(flag_name(i));
                out.append(" ");
            }
        }
        out.append("}");
        out
    }
}

/// Skipping an unset flag leaves the interrupts still to visit unchanged.
proof fn lemma_flagged_from_unfold(bits: u32, lo: int)
    requires
        0 <= lo < 30,
    ensures
        flagged_from(bits, lo) == (if bit_is_set(bits, lo as u32) {
            seq![interrupt_at(lo as u8)] + flagged_from(bits, lo + 1)
        } else {
            flagged_from(bits, lo + 1)
        }),
{
}

/// No interrupt is left to visit from position 30 on.
proof fn lemma_flagged_from_len(bits: u32, lo: int)
    ensures
        flagged_from(bits, lo).len() <= (if 0 <= lo < 30 { 30 - lo } else { 0 }),
    decreases 30 - lo,
{
    if 0 <= lo < 30 {
        lemma_flagged_from_len(bits, lo + 1);
    }
}

/// An iterator over the items of an [`InterruptSet`].
///
/// This `struct` is created by [`InterruptSet::iter`].
pub struct Iter {
    flags: InterruptSet,
    index: u8,
}

impl Iter {
    /// The flags of the set the iterator visits.
    pub closed spec fn spec_flags(&self) -> u32 {
        self.flags.0
    }

    /// The position of the next flag the iterator looks at.
    pub closed spec fn spec_position(&self) -> u8 {
        self.index
    }

    /// Advances the iterator and returns the next interrupt of the set: the
    /// one with the lowest flag at or above the current position.
    ///
    /// Once the flags are exhausted it keeps returning `None`; the position
    /// then moves on by one per call, up to 255.
    pub fn next(&mut self) -> (r: Option<Interrupt>)
        ensures
            final(self).spec_flags() == old(self).spec_flags(),
            match r {
                Some(x) => {
                    &&& old(self)@.len() > 0
                    &&& x == old(self)@[0]
                    &&& final(self)@ == old(self)@.drop_first()
                    &&& final(self).spec_position() == x.spec_index() + 1
                },
                None => {
                    &&& old(self)@.len() == 0
                    &&& final(self)@.len() == 0
                    &&& final(self).spec_position() == (if old(self).spec_position() <= 30 {
                        31
                    } else if old(self).spec_position() < 255 {
                        old(self).spec_position() + 1
                    } else {
                        255
                    })
                },
            },
    {
        loop
            invariant
                self.flags == old(self).flags,
                self.index == old(self).index || old(self).index < self.index <= 30,
                self@ == old(self)@,
            decreases 256 - self.index,
        {
            let i = self.index;
            proof {
                lemma_flagged_from_len(self.flags.0, i as int);
            }
            self.index = i.saturating_add(1);
            // Since there are no gaps in the interrupt flags, this will be `Some` until all
            // interrupts have been checked.
            let interrupt = match Interrupt::try_from(i) {
                Ok(found) => found,
                Err(_) => {
                    proof {
                        lemma_flagged_from_len(self.flags.0, self.index as int);
                    }
                    return None;
                },
            };
            proof {
                lemma_flagged_from_unfold(self.flags.0, i as int);
            }
            let shift: u32 = i as u32;
            if self.flags.0 & (1u32 << shift) != 0 {
                return Some(interrupt);
            }
        }
    }

    /// Consumes the iterator, counting the interrupts it would visit.
    pub fn count(self) -> (r: usize)
        ensures
            r == self@.len(),
    {
        let mut it = self;
        let mut n: usize = 0;
        proof {
            lemma_flagged_from_len(self.spec_flags(), self.spec_position() as int);
        }
        loop
            invariant
                n + it@.len() == self@.len(),
                self@.len() <= 30,
            decreases it@.len(),
        {
            match it.next() {
                Some(_) => n += 1,
                None => return n,
            }
        }
    }

    /// Consumes the iterator, collecting the interrupts it would visit.
    pub fn collect(self) -> (r: Vec<Interrupt>)
        ensures
            r@ == self@,
    {
        let mut it = self;
        let mut out: Vec<Interrupt> = Vec::new();
        loop
            invariant
                out@ + it@ == self@,
            decreases it@.len(),
        {
            match it.next() {
                Some(x) => {
                    proof {
                        assert(out@.push(x) + it@ =~= self@);
                    }
                    out.push(x);
                },
                None => {
                    assert(out@ =~= self@);
                    return out;
                },
            }
        }
    }
}

impl View for Iter {
    type V = Seq<Interrupt>;

    /// The interrupts the iterator has still to visit, in order.
    open spec fn view(&self) -> Seq<Interrupt> {
        flagged_from(self.spec_flags(), self.spec_position() as int)
    }
}

/// The interrupts left to visit from position `lo` are those whose flags are
/// set at or above `lo`, each once, in increasing order of position.
proof fn lemma_flagged_from_members(bits: u32, lo: int)
    requires
        0 <= lo <= 30,
    ensures
        forall|x: Interrupt|
            flagged_from(bits, lo).contains(x) <==> (lo <= x.spec_index() && bit_is_set(
                bits,
                x.spec_index() as u32,
            )),
        forall|i: int, j: int|
            0 <= i < j < flagged_from(bits, lo).len() ==> #[trigger] flagged_from(bits, lo)[i].spec_index()
                < #[trigger] flagged_from(bits, lo)[j].spec_index(),
        forall|i: int|
            0 <= i < flagged_from(bits, lo).len() ==> lo <= #[trigger] flagged_from(
                bits,
                lo,
            )[i].spec_index(),
    decreases 30 - lo,
{
    if lo < 30 {
        lemma_flagged_from_members(bits, lo + 1);
        let rest = flagged_from(bits, lo + 1);
        let x0 = interrupt_at(lo as u8);
        lemma_index_of_interrupt_at(lo as u8);
        if bit_is_set(bits, lo as u32) {
            let s = seq![x0] + rest;
            assert(flagged_from(bits, lo) == s);
            assert forall|x: Interrupt| s.contains(x) <==> (lo <= x.spec_index() && bit_is_set(
                bits,
                x.spec_index() as u32,
            )) by {
                if s.contains(x) {
                    let k = choose|k: int| 0 <= k < s.len() && s[k] == x;
                    if k > 0 {
                        assert(rest[k - 1] == x);
                        assert(rest.contains(x));
                    }
                }
                if lo <= x.spec_index() && bit_is_set(bits, x.spec_index() as u32) {
                    if x.spec_index() == lo {
                        lemma_interrupt_at_index(x);
                        assert(s[0] == x);
                    } else {
                        assert(rest.contains(x));
                        let k = choose|k: int| 0 <= k < rest.len() && rest[k] == x;
                        assert(s[k + 1] == x);
                    }
                }
            }
            assert forall|i: int, j: int| 0 <= i < j < s.len() implies #[trigger] s[i].spec_index()
                < #[trigger] s[j].spec_index() by {
                if i == 0 {
                    assert(s[j] == rest[j - 1]);
                } else {
                    assert(s[i] == rest[i - 1]);
                    assert(s[j] == rest[j - 1]);
                }
            }
            assert forall|i: int| 0 <= i < s.len() implies lo <= #[trigger] s[i].spec_index() by {
                if i > 0 {
                    assert(s[i] == rest[i - 1]);
                }
            }
        } else {
            assert forall|x: Interrupt|
                rest.contains(x) <==> (lo <= x.spec_index() && bit_is_set(
                    bits,
                    x.spec_index() as u32,
                )) by {
                if x.spec_index() == lo as u8 {
                    lemma_interrupt_at_index(x);
                }
            }
        }
    }
}

/// Or-ing the flags of `x` and of a sequence gives the flags of the sequence
/// with `x` in front.
proof fn lemma_mask_of_prepend(x: Interrupt, s: Seq<Interrupt>)
    ensures
        mask_of(seq![x] + s) == (1u32 << (x.spec_index() as u32)) | mask_of(s),
    decreases s.len(),
{
    let bx: u32 = 1u32 << (x.spec_index() as u32);
    if s.len() == 0 {
        let t = seq![x] + s;
        assert(t.drop_last() =~= Seq::<Interrupt>::empty());
        assert(t.last() == x);
        assert(mask_of(t.drop_last()) == 0);
        assert(mask_of(s) == 0);
        assert(0u32 | bx == bx | 0u32) by (bit_vector);
    } else {
        let t = seq![x] + s;
        assert(t.drop_last() =~= seq![x] + s.drop_last());
        lemma_mask_of_prepend(x, s.drop_last());
        let m = mask_of(s.drop_last());
        let bl: u32 = 1u32 << (s.last().spec_index() as u32);
        assert(t.last() == s.last());
        assert(mask_of(t) == mask_of(t.drop_last()) | bl);
        assert(mask_of(s) == m | bl);
        assert((bx | m) | bl == bx | (m | bl)) by (bit_vector);
    }
}

/// The flags of the interrupts left to visit from position `lo` are those of
/// `bits` from `lo` to 29.
proof fn lemma_mask_of_flagged_from(bits: u32, lo: u32)
    requires
        lo <= 30,
    ensures
        mask_of(flagged_from(bits, lo as int)) == bits & ((INTERRUPT_MASK >> lo) << lo),
    decreases 30 - lo,
{
    if lo == 30 {
        assert(bits & ((0x3fff_ffffu32 >> 30u32) << 30u32) == 0) by (bit_vector);
    } else {
        let hi: u32 = (lo + 1) as u32;
        lemma_mask_of_flagged_from(bits, hi);
        lemma_index_of_interrupt_at(lo as u8);
        let rest = flagged_from(bits, hi as int);
        if bit_is_set(bits, lo) {
            lemma_mask_of_prepend(interrupt_at(lo as u8), rest);
            assert((1u32 << lo) | (bits & ((0x3fff_ffffu32 >> hi) << hi)) == bits & ((
            0x3fff_ffffu32 >> lo) << lo)) by (bit_vector)
                requires
                    lo < 30,
                    hi == lo + 1,
                    bits & (1u32 << lo) != 0,
            ;
        } else {
            assert(bits & ((0x3fff_ffffu32 >> hi) << hi) == bits & ((0x3fff_ffffu32 >> lo) << lo))
                by (bit_vector)
                requires
                    lo < 30,
                    hi == lo + 1,
                    bits & (1u32 << lo) == 0,
            ;
        }
    }
}

/// Iterating over a set visits exactly the interrupts it holds, each once,
/// in increasing order of their flags; the reserved bits give none.
pub proof fn law_iter_visits_set_interrupts(set: InterruptSet)
    ensures
        forall|x: Interrupt| flagged_from(set.0, 0).contains(x) <==> set.has(x),
        forall|i: int, j: int|
            0 <= i < j < flagged_from(set.0, 0).len() ==> #[trigger] flagged_from(set.0, 0)[i].spec_index()
                < #[trigger] flagged_from(set.0, 0)[j].spec_index(),
        flagged_from(set.0, 0).len() <= 30,
{
    lemma_flagged_from_members(set.0, 0);
    lemma_flagged_from_len(set.0, 0);
}

/// Calling `next` again and again on `set.iter()`: after `k` calls that
/// returned `Some`, the interrupts still to visit are those of the whole
/// iteration from the `k`-th on, so the next call returns the interrupt of
/// the set with the lowest flag above the last one returned, and `None`
/// when the set has no flag above it.
pub proof fn law_next_after_calls(set: InterruptSet, k: int)
    requires
        0 <= k <= flagged_from(set.0, 0).len(),
    ensures
        ({
            let all = flagged_from(set.0, 0);
            &&& all.skip(k).len() == all.len() - k
            &&& k < all.len() ==> {
                &&& all.skip(k)[0] == all[k]
                &&& all.skip(k).drop_first() == all.skip(k + 1)
                &&& set.has(all[k])
                &&& k > 0 ==> all[k - 1].spec_index() < all[k].spec_index()
                &&& forall|x: Interrupt|
                    #![trigger set.has(x)]
                    set.has(x) && (k == 0 || all[k - 1].spec_index() < x.spec_index())
                        ==> all[k].spec_index() <= x.spec_index()
            }
            &&& k == all.len() ==> forall|x: Interrupt|
                #![trigger set.has(x)]
                set.has(x) ==> k > 0 && x.spec_index() <= all[k - 1].spec_index()
        }),
{
    let all = flagged_from(set.0, 0);
    lemma_flagged_from_members(set.0, 0);
    assert(all.skip(k).len() == all.len() - k);
    if k < all.len() {
        assert(all.skip(k).drop_first() =~= all.skip(k + 1));
        assert(all.contains(all[k]));
        assert forall|x: Interrupt|
            #![trigger set.has(x)]
            set.has(x) && (k == 0 || all[k - 1].spec_index() < x.spec_index()) implies all[k].spec_index()
            <= x.spec_index() by {
            assert(all.contains(x));
            let m = choose|m: int| 0 <= m < all.len() && all[m] == x;
            if m < k {
                if m < k - 1 {
                    assert(all[m].spec_index() < all[k - 1].spec_index());
                }
            } else if m > k {
                assert(all[k].spec_index() < all[m].spec_index());
            }
        }
    } else {
        assert forall|x: Interrupt| #![trigger set.has(x)] set.has(x) implies k > 0
            && x.spec_index() <= all[k - 1].spec_index() by {
            assert(all.contains(x));
            let m = choose|m: int| 0 <= m < all.len() && all[m] == x;
            if m < k - 1 {
                assert(all[m].spec_index() < all[k - 1].spec_index());
            }
        }
    }
}

/// Collecting the interrupts of a set and building a set from them again
/// keeps every interrupt and drops the reserved bits.
pub proof fn law_from_iter_of_iter(set: InterruptSet)
    ensures
        mask_of(flagged_from(set.0, 0)) == set.0 & INTERRUPT_MASK,
{
    lemma_mask_of_flagged_from(set.0, 0);
    let b = set.0;
    assert(b & ((0x3fff_ffffu32 >> 0u32) << 0u32) == b & 0x3fff_ffffu32) by (bit_vector);
}

/// The mask of a single interrupt is a set that holds that interrupt and no
/// other, and no reserved bit.
pub proof fn law_single_interrupt_mask(x: Interrupt)
    ensures
        forall|y: Interrupt| #[trigger] InterruptSet(1u32 << (x.spec_index() as u32)).has(y) <==> y == x,
        (1u32 << (x.spec_index() as u32)) & INTERRUPT_MASK == 1u32 << (x.spec_index() as u32),
{
    let i: u32 = x.spec_index() as u32;
    assert forall|y: Interrupt| #[trigger] InterruptSet(1u32 << i).has(y) <==> y == x by {
        let j: u32 = y.spec_index() as u32;
        assert(i < 30 && j < 30 ==> ((1u32 << i) & (1u32 << j) != 0 <==> i == j)) by (bit_vector);
        if y.spec_index() == x.spec_index() {
            lemma_interrupt_at_index(x);
            lemma_interrupt_at_index(y);
        }
    }
    assert(i < 30 ==> (1u32 << i) & 0x3fff_ffffu32 == 1u32 << i) by (bit_vector);
}

/// Looking an interrupt up by the position of its flag gives it back, and
/// every position from 30 on is refused.
pub proof fn law_try_from_index(x: Interrupt, value: u8)
    ensures
        <Interrupt as vstd::std_specs::convert::TryFromSpec<u8>>::try_from_spec(x.spec_index())
            == Ok::<Interrupt, ()>(x),
        <Interrupt as vstd::std_specs::convert::TryFromSpec<u8>>::try_from_spec(value) is Ok
            <==> value < 30,
{
    lemma_interrupt_at_index(x);
}

} // verus!
