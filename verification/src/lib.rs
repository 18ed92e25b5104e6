//! Configuration of the CAN bus of an M_CAN peripheral: bit timing, frame
//! filtering actions and the ownership of the peripheral's interrupts.

pub mod bits;
pub mod config;
pub mod control;
pub mod interrupt;

pub use config::{
    CanConfig, CanFdMode, NonMatchingAction, TestMode, TimeStampSelect, TimingParams,
};
pub use control::{
    InterruptConfiguration, InterruptLine, InterruptRegisters, MaskError, OwnedInterruptSet,
    RegisterWrite,
};
pub use interrupt::{Interrupt, InterruptSet, Iter, INTERRUPT_MASK};
