//! Bus-level configuration: bit timing and the handling of frames.
use vstd::prelude::*;

verus! {

/// Counting mode of the time stamp counter.
#[derive(Clone, Copy, Debug, PartialEq, Eq, Structural)]
pub enum TimeStampSelect {
    /// The counter stays at zero.
    ZERO,
    /// The counter is incremented as the prescaler says.
    INC,
    /// The counter value comes from an external source.
    EXT,
}

/// Configuration for the CAN bus
pub struct CanConfig {
    /// Switch the bit rate in the data phase of CAN-FD frames
    pub bit_rate_switching: bool,
    /// Run peripheral in CAN-FD mode
    pub fd_mode: CanFdMode,
    /// Modes of testing
    pub test: TestMode,
    /// Bit timing parameters
    pub timing: TimingParams,
    /// Action when handling non-matching standard frame
    pub nm_std: NonMatchingAction,
    /// Action when handling non-matching extended frame
    pub nm_ext: NonMatchingAction,
}

/// Bit-timing parameters
pub struct TimingParams {
    /// Synchronization jump width
    pub sjw: u8,
    /// Propagation time and phase time before sample point
    pub phase_seg_1: u8,
    /// Time after sample point
    pub phase_seg_2: u8,
    /// Counting mode of time stamp timer
    pub ts_select: TimeStampSelect,
    /// Time stamp timer prescaler, bittimes per tic
    /// Valid values are: 1 <= ts_prescale <= 16
    pub ts_prescale: u8,
}

impl TimingParams {
    /// The number of time quanta in one bit: the synchronization segment
    /// and both phase segments, each of which the register holds minus one.
    pub open spec fn spec_quanta(&self) -> int {
        1 + (self.phase_seg_1 + 1) + (self.phase_seg_2 + 1)
    }

    /// Create a parameter field from spec-adherent values.
    ///
    /// The synchronization jump width and the second phase segment fit in
    /// seven bits, and the first phase segment is not zero.
    pub fn new(sjw: u8, phase_seg_1: u8, phase_seg_2: u8) -> (r: Self)
        requires
            sjw < 128,
            phase_seg_1 > 0,
            phase_seg_2 < 128,
        ensures
            r.sjw == sjw,
            r.phase_seg_1 == phase_seg_1,
            r.phase_seg_2 == phase_seg_2,
            r.ts_select == TimeStampSelect::ZERO,
            r.ts_prescale == 1,
    {
        Self { sjw, phase_seg_1, phase_seg_2, ts_select: TimeStampSelect::ZERO, ts_prescale: 1 }
    }

    /// Get total time for quanta
    pub fn quanta(&self) -> (r: u16)
        ensures
            r == self.spec_quanta(),
            r == self.phase_seg_1 + self.phase_seg_2 + 3,
    {
        1 + ((self.phase_seg_1 as u16) + 1) + ((self.phase_seg_2 as u16) + 1)
    }
}

/// What to do with non-matching frames
#[derive(Clone, Copy, Debug, PartialEq, Eq, Structural)]
pub enum NonMatchingAction {
    /// Put frame in FIFO 0
    Fifo0,
    /// Put frame in FIFO 1
    Fifo1,
    /// Reject frame
    Reject,
}

impl NonMatchingAction {
    /// The value of the register field that selects this action.
    pub open spec fn field_value(self) -> u8 {
        match self {
            NonMatchingAction::Fifo0 => 0,
            NonMatchingAction::Fifo1 => 1,
            NonMatchingAction::Reject => 2,
        }
    }
}

impl From<NonMatchingAction> for u8 {
    fn from(action: NonMatchingAction) -> (r: u8) {
        match action {
            NonMatchingAction::Fifo0 => 0,
            NonMatchingAction::Fifo1 => 1,
            NonMatchingAction::Reject => 2,
        }
    }
}

impl vstd::std_specs::convert::FromSpecImpl<NonMatchingAction> for u8 {
    open spec fn obeys_from_spec() -> bool {
        true
    }

    open spec fn from_spec(action: NonMatchingAction) -> u8 {
        action.field_value()
    }
}

impl Default for NonMatchingAction {
    /// Frames that match no filter are rejected unless configured otherwise.
    fn default() -> (r: Self)
        ensures
            r == NonMatchingAction::Reject,
    {
        NonMatchingAction::Reject
    }
}

/// Enable/disable CAN-FD on the controller
#[derive(Clone, Copy, Debug, PartialEq, Eq, Structural)]
pub enum CanFdMode {
    /// Classic mode with 8-bytes data
    Classic,
    /// FD-mode with at most 64-bytes data
    Fd,
}

impl CanFdMode {
    /// Whether the mode enables CAN-FD.
    pub open spec fn is_fd(self) -> bool {
        self == CanFdMode::Fd
    }
}

impl From<CanFdMode> for bool {
    fn from(mode: CanFdMode) -> (r: bool) {
        match mode {
            CanFdMode::Classic => false,
            CanFdMode::Fd => true,
        }
    }
}

impl vstd::std_specs::convert::FromSpecImpl<CanFdMode> for bool {
    open spec fn obeys_from_spec() -> bool {
        true
    }

    open spec fn from_spec(mode: CanFdMode) -> bool {
        mode.is_fd()
    }
}

/// Test modes for the bus
#[derive(Clone, Copy, Debug, PartialEq, Eq, Structural)]
pub enum TestMode {
    /// Do not initialize a test
    Disabled,
    /// Setup loopback
    Loopback,
}

/// A bit lasts one quantum of synchronization plus the two phase segments,
/// each one quantum longer than its register value; the synchronization jump
/// width and the time stamp settings do not change it.
pub proof fn law_quanta_from_phase_segments(a: TimingParams, b: TimingParams)
    ensures
        a.spec_quanta() == a.phase_seg_1 + a.phase_seg_2 + 3,
        a.phase_seg_1 == b.phase_seg_1 && a.phase_seg_2 == b.phase_seg_2 ==> a.spec_quanta()
            == b.spec_quanta(),
        3 <= a.spec_quanta() <= 513,
{
}

} // verus!
