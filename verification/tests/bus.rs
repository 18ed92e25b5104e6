use mcan_bus::{
    CanFdMode, Interrupt, InterruptConfiguration, InterruptLine, InterruptRegisters,
    InterruptSet, NonMatchingAction, RegisterWrite, TimeStampSelect, TimingParams,
};

#[test]
fn iter_preserves_length() {
    assert_eq!(InterruptSet(0).iter().count(), 0);
    assert_eq!(InterruptSet(1).iter().count(), 1);
    assert_eq!(InterruptSet(0x1555_5555).iter().count(), 15);
    assert_eq!(InterruptSet(0x2aaa_aaaa).iter().count(), 15);
    assert_eq!(InterruptSet(0x3fff_ffff).iter().count(), 30);
    assert_eq!(InterruptSet(0xffff_ffff).iter().count(), 30);
}

fn iter_collect(int: u32) -> u32 {
    InterruptSet::from_iter(InterruptSet(int).iter().collect()).0
}

#[test]
fn iter_collect_preserves_interrupts() {
    assert_eq!(iter_collect(0), 0);
    assert_eq!(iter_collect(1), 1);
    assert_eq!(iter_collect(0x1555_5555), 0x1555_5555);
    assert_eq!(iter_collect(0x2aaa_aaaa), 0x2aaa_aaaa);
}

#[test]
fn iter_collect_drops_reserved_bits() {
    assert_eq!(iter_collect(0xffff_ffff), 0x3fff_ffff);
}

#[test]
fn timing_params_new_and_quanta() {
    let t = TimingParams::new(3, 10, 4);
    assert_eq!(t.sjw, 3);
    assert_eq!(t.phase_seg_1, 10);
    assert_eq!(t.phase_seg_2, 4);
    assert_eq!(t.ts_select, TimeStampSelect::ZERO);
    assert_eq!(t.ts_prescale, 1);
    assert_eq!(t.quanta(), 17);
    assert_eq!(TimingParams::new(127, 255, 127).quanta(), 1 + 256 + 128);
}

#[test]
fn non_matching_action_values() {
    let a: u8 = NonMatchingAction::Fifo0.into();
    let b: u8 = NonMatchingAction::Fifo1.into();
    let c: u8 = NonMatchingAction::Reject.into();
    assert_eq!((a, b, c), (0, 1, 2));
    assert_eq!(NonMatchingAction::default(), NonMatchingAction::Reject);
}

#[test]
fn fd_mode_flag() {
    let classic: bool = CanFdMode::Classic.into();
    let fd: bool = CanFdMode::Fd.into();
    assert!(!classic);
    assert!(fd);
}

#[test]
fn interrupt_conversions() {
    assert_eq!(u32::from(Interrupt::RxFifo0NewMessage), 1);
    assert_eq!(u32::from(Interrupt::BusOff), 1 << 25);
    assert_eq!(u32::from(Interrupt::AccessToReservedAddress), 1 << 29);
    assert_eq!(Interrupt::try_from(0u8), Ok(Interrupt::RxFifo0NewMessage));
    assert_eq!(Interrupt::try_from(19u8), Ok(Interrupt::MessageStoredToDedicatedRxBuffer));
    assert_eq!(Interrupt::try_from(29u8), Ok(Interrupt::AccessToReservedAddress));
    assert_eq!(Interrupt::try_from(30u8), Err(()));
    assert_eq!(Interrupt::try_from(255u8), Err(()));
    assert_eq!(Interrupt::Watchdog.index(), 26);
}

#[test]
fn flag_accessors() {
    let mut set = InterruptSet(0);
    assert!(!set.rf0n());
    set.set_rf0n(true);
    assert_eq!(set.0, 1);
    assert!(set.rf0n());
    set.set_ara(true);
    assert_eq!(set.0, 0x2000_0001);
    assert!(set.ara());
    assert!(!set.ped());
    set.set_rf0n(false);
    assert_eq!(set.0, 0x2000_0000);
    set.set_bo(true);
    assert!(set.bo());
    assert_eq!(set.0, 0x2200_0000);
}

#[test]
fn generic_bit_access() {
    let mut set = InterruptSet(0x8000_0000);
    assert!(set.bit(31));
    assert!(!set.bit(0));
    set.set_bit(3, true);
    assert_eq!(set.0, 0x8000_0008);
    assert!(set.rf0l());
    set.set_bit(31, false);
    assert_eq!(set.0, 0x0000_0008);
}

#[test]
fn debug_string_lists_flags() {
    assert_eq!(InterruptSet(0).to_debug_string(), "InterruptSet { }");
    assert_eq!(
        InterruptSet(0x2000_0001).to_debug_string(),
        "InterruptSet { ARA RF0N }"
    );
    assert_eq!(
        InterruptSet(0xc200_0110).to_debug_string(),
        "InterruptSet { BO HPM RF1N }"
    );
}

#[test]
fn iter_visits_in_flag_order_and_stays_exhausted() {
    let mut it = InterruptSet(0x8000_0112).iter();
    assert_eq!(it.next(), Some(Interrupt::RxFifo0WatermarkReached));
    assert_eq!(it.next(), Some(Interrupt::RxFifo1NewMessage));
    assert_eq!(it.next(), Some(Interrupt::HighPriorityMessage));
    assert_eq!(it.next(), None);
    assert_eq!(it.next(), None);
    assert_eq!(
        InterruptSet(0x2000_0004).iter().collect(),
        vec![Interrupt::RxFifo0Full, Interrupt::AccessToReservedAddress]
    );
}

#[test]
fn from_iter_sets_the_flags() {
    let set = InterruptSet::from_iter(vec![Interrupt::BusOff, Interrupt::TxFifoEmpty]);
    assert_eq!(set.0, (1 << 25) | (1 << 11));
    assert_eq!(InterruptSet::from_iter(vec![]).0, 0);
}

#[test]
fn enable_routes_and_enables() {
    let mut config = InterruptConfiguration::<()>::new();
    let mut writes = Vec::new();
    let mut regs = InterruptRegisters { ils: 0x0000_00f0, ile: 0, ie: 0 };
    let owned = config
        .enable(InterruptSet(0x0000_0011), InterruptLine::Line1, &mut regs, &mut writes)
        .unwrap();
    assert_eq!(regs, InterruptRegisters { ils: 0x0000_00f1, ile: 2, ie: 0x11 });
    assert_eq!(
        writes,
        vec![
            RegisterWrite::Ile(2),
            RegisterWrite::Ils(0x0000_00f1),
            RegisterWrite::Ie(0x11)
        ]
    );

    let other = config
        .enable(InterruptSet(0x0000_0060), InterruptLine::Line0, &mut regs, &mut writes)
        .unwrap();
    assert_eq!(regs, InterruptRegisters { ils: 0x0000_0091, ile: 3, ie: 0x71 });

    config.disable(owned, &mut regs, &mut writes);
    assert_eq!(regs, InterruptRegisters { ils: 0x0000_0091, ile: 3, ie: 0x60 });
    assert_eq!(writes.len(), 7);
    assert_eq!(writes[6], RegisterWrite::Ie(0x60));
    config.disable(other, &mut regs, &mut writes);
    assert_eq!(regs.ie, 0);
}

#[test]
fn enable_refuses_interrupts_not_owned() {
    let mut config = InterruptConfiguration::<()>::new();
    let mut writes = Vec::new();
    let mut regs = InterruptRegisters { ils: 0, ile: 0, ie: 0 };
    let _owned = config
        .enable(InterruptSet(0x0000_0003), InterruptLine::Line0, &mut regs, &mut writes)
        .unwrap();
    let before = regs;
    let written = writes.len();
    let err = config
        .enable(InterruptSet(0x0000_0006), InterruptLine::Line1, &mut regs, &mut writes)
        .err()
        .unwrap();
    assert_eq!(err.0 .0, 0x0000_0002);
    assert_eq!(regs, before);
    assert_eq!(writes.len(), written);

    let reserved = config
        .enable(InterruptSet(0xc000_0000), InterruptLine::Line1, &mut regs, &mut writes)
        .err()
        .unwrap();
    assert_eq!(reserved.0 .0, 0xc000_0000);

    // What was refused is still available.
    assert!(config
        .enable(InterruptSet(0x0000_0004), InterruptLine::Line1, &mut regs, &mut writes)
        .is_ok());
}

#[test]
fn disable_gives_interrupts_back() {
    let mut config = InterruptConfiguration::<()>::new();
    let mut writes = Vec::new();
    let mut regs = InterruptRegisters { ils: 0, ile: 0, ie: 0 };
    let owned = config
        .enable(InterruptSet(0x3fff_ffff), InterruptLine::Line0, &mut regs, &mut writes)
        .unwrap();
    assert_eq!(regs.ie, 0x3fff_ffff);
    assert!(config
        .enable(InterruptSet(1), InterruptLine::Line0, &mut regs, &mut writes)
        .is_err());
    config.disable(owned, &mut regs, &mut writes);
    assert_eq!(regs.ie, 0);
    assert!(config
        .enable(InterruptSet(0x3fff_ffff), InterruptLine::Line1, &mut regs, &mut writes)
        .is_ok());
    assert_eq!(regs.ils, 0x3fff_ffff);
}

#[test]
fn set_line_moves_only_the_owned_interrupts() {
    let mut config = InterruptConfiguration::<()>::new();
    let mut writes = Vec::new();
    let mut regs = InterruptRegisters { ils: 0xffff_ffff, ile: 0, ie: 0 };
    let owned = config
        .enable(InterruptSet(0x0000_0f00), InterruptLine::Line1, &mut regs, &mut writes)
        .unwrap();
    config.set_line(&owned, InterruptLine::Line0, &mut regs, &mut writes);
    assert_eq!(regs.ils, 0xffff_f0ff);
    assert_eq!(regs.ile, 3);
    assert_eq!(
        &writes[3..],
        &[RegisterWrite::Ile(3), RegisterWrite::Ils(0xffff_f0ff)]
    );
}

#[test]
fn owned_flags_are_masked() {
    let mut config = InterruptConfiguration::<()>::new();
    let mut writes = Vec::new();
    let mut regs = InterruptRegisters { ils: 0, ile: 0, ie: 0 };
    let owned = config
        .enable(InterruptSet(0x0000_0301), InterruptLine::Line0, &mut regs, &mut writes)
        .unwrap();
    assert_eq!(owned.interrupt_flags(0xffff_ffff).0, 0x0000_0301);
    assert_eq!(owned.interrupt_flags(0x0000_0003).0, 0x0000_0001);
    assert_eq!(owned.clear_interrupts(InterruptSet(0xffff_0f0f)), 0x0000_0301);
    let (it, clear) = owned.iter_flagged(0x0000_0207);
    assert_eq!(clear, 0x0000_0201);
    assert_eq!(
        it.collect(),
        vec![Interrupt::RxFifo0NewMessage, Interrupt::TransmissionCompleted]
    );
}
