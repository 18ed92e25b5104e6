//! Ownership of the peripheral's interrupts: which of them are enabled, on
//! which interrupt line they are signalled, and the flags of the enabled ones.
//!
//! The register block is read and written outside this module: the
//! functions here take the values read from the interrupt registers and give
//! back the values to write.
use core::marker::PhantomData;
use vstd::prelude::*;

use crate::interrupt::{flagged_from, InterruptSet, Iter, INTERRUPT_MASK};

verus! {

/// CAN interrupt lines
/// The CAN peripheral provides two interrupt lines to the system interrupt
/// controller. Which interrupts trigger which interrupt line is configurable
/// via [`InterruptConfiguration`].
#[derive(Copy, Clone, Debug, PartialEq, Eq, Structural)]
pub enum InterruptLine {
    /// CAN0-line
    Line0,
    /// CAN1-line
    Line1,
}

/// The bit of the line-enable register (ILE) that enables `line`.
pub open spec fn line_enable_bit(line: InterruptLine) -> u32 {
    match line {
        InterruptLine::Line0 => 1,
        InterruptLine::Line1 => 2,
    }
}

/// The line-select register (ILS) after the interrupts of `mask` are routed
/// to `line`: a cleared bit selects line 0, a set bit line 1.
pub open spec fn line_select_after(ils: u32, mask: u32, line: InterruptLine) -> u32 {
    match line {
        InterruptLine::Line0 => ils & !mask,
        InterruptLine::Line1 => ils | mask,
    }
}

/// The enable register (IE) after the interrupts of `mask` are enabled or
/// disabled.
pub open spec fn interrupt_enable_after(ie: u32, mask: u32, enabled: bool) -> u32 {
    if enabled {
        ie | mask
    } else {
        ie & !mask
    }
}

/// The interrupts of `subset` that `owned` does not hold.
pub open spec fn missing_from(owned: u32, subset: u32) -> u32 {
    !owned & subset
}

/// What `owned` keeps after handing out `subset`.
pub open spec fn remaining_after_split(owned: u32, subset: u32) -> u32 {
    owned & !subset
}

/// What `owned` holds after taking `other` back.
pub open spec fn joined(owned: u32, other: u32) -> u32 {
    owned | other
}

/// The values of the interrupt registers that an [`InterruptConfiguration`]
/// controls, as read from the peripheral or to be written to it.
#[derive(Copy, Clone, Debug, PartialEq, Eq, Structural)]
pub struct InterruptRegisters {
    /// Interrupt line select (ILS)
    pub ils: u32,
    /// Interrupt line enable (ILE)
    pub ile: u32,
    /// Interrupt enable (IE)
    pub ie: u32,
}

/// A write to one of the registers that an [`InterruptConfiguration`]
/// controls, with the value to write.
#[derive(Copy, Clone, Debug, PartialEq, Eq, Structural)]
pub enum RegisterWrite {
    /// Write the interrupt line enable register (ILE).
    Ile(u32),
    /// Write the interrupt line select register (ILS).
    Ils(u32),
    /// Write the interrupt enable register (IE).
    Ie(u32),
}

/// Has exclusive access to a set of interrupts for CAN peripheral `P`. Permits
/// safe access to the owned interrupt flags.
///
/// The ghost field names the configuration that handed the set out.
pub struct OwnedInterruptSet<P>(InterruptSet, PhantomData<P>, Ghost<int>);

/// An input [`InterruptSet`] contained interrupts that were not available. The
/// set wrapped in the error indicates which elements caused the problem.
#[derive(Debug)]
pub struct MaskError(pub InterruptSet);

impl<P> OwnedInterruptSet<P> {
    /// The reserved bits are never owned.
    #[verifier::type_invariant]
    spec fn no_reserved_bits(self) -> bool {
        self.0.0 & !INTERRUPT_MASK == 0
    }

    /// The flags of the owned interrupts.
    pub closed spec fn mask(&self) -> u32 {
        self.0.0
    }

    /// The configuration that handed the set out.
    pub closed spec fn owner(&self) -> int {
        self.2@
    }

    /// Assumes exclusive ownership of `interrupts`.
    ///
    /// Each interrupt of a CAN peripheral can only be contained in one
    /// `OwnedInterruptSet`, otherwise registers will be mutably aliased.
    /// The reserved bits must not be included.
    fn new(interrupts: InterruptSet, owner: Ghost<int>) -> (r: Self)
        requires
            interrupts.0 & !INTERRUPT_MASK == 0,
        ensures
            r.mask() == interrupts.0,
            r.owner() == owner@,
    {
        Self(interrupts, PhantomData, owner)
    }

    /// Moves ownership of the interrupts described by `subset` from `self` to
    /// the return value. If `self` does not contain `subset`, an error is
    /// returned.
    fn split(&mut self, subset: InterruptSet) -> (r: Result<Self, MaskError>)
        ensures
            r is Ok <==> missing_from(old(self).mask(), subset.0) == 0,
            final(self).owner() == old(self).owner(),
            match r {
                Ok(taken) => {
                    &&& taken.mask() == subset.0
                    &&& taken.owner() == old(self).owner()
                    &&& final(self).mask() == remaining_after_split(old(self).mask(), subset.0)
                },
                Err(e) => {
                    &&& e.0.0 == missing_from(old(self).mask(), subset.0)
                    &&& final(self).mask() == old(self).mask()
                },
            },
    {
        proof {
            use_type_invariant(&*self);
        }
        let wanted = subset.0;
        let missing = !self.0.0 & wanted;
        if missing != 0 {
            Err(MaskError(InterruptSet(missing)))
        } else {
            let owned = self.0.0;
            let remaining = self.0.0 & !wanted;
            assert(remaining & !INTERRUPT_MASK == 0) by (bit_vector)
                requires
                    owned & !0x3fff_ffffu32 == 0,
                    remaining == owned & !wanted,
            ;
            assert(wanted & !INTERRUPT_MASK == 0) by (bit_vector)
                requires
                    owned & !0x3fff_ffffu32 == 0,
                    missing == !owned & wanted,
                    missing == 0,
            ;
            self.0.0 = remaining;
            Ok(Self::new(subset, Ghost(self.2@)))
        }
    }

    /// Assume ownership of the interrupts in `other`.
    ///
    /// The sets are disjoint as long as they were handed out by splitting.
    fn join(&mut self, other: Self)
        requires
            old(self).mask() & other.mask() == 0,
        ensures
            final(self).mask() == joined(old(self).mask(), other.mask()),
            final(self).owner() == old(self).owner(),
    {
        proof {
            use_type_invariant(&*self);
            use_type_invariant(&other);
        }
        let a = self.0.0;
        let b = other.0.0;
        assert((a | b) & !INTERRUPT_MASK == 0) by (bit_vector)
            requires
                a & !0x3fff_ffffu32 == 0,
                b & !0x3fff_ffffu32 == 0,
        ;
        self.0.0 = a | b;
    }

    /// The owned interrupts.
    pub fn interrupts(&self) -> (r: InterruptSet)
        ensures
            r.0 == self.mask(),
            r.0 & !INTERRUPT_MASK == 0,
    {
        proof {
            use_type_invariant(self);
        }
        self.0
    }

    /// Get the subset of interrupts in this set that are flagged in `ir`, the
    /// value read from the interrupt register (IR).
    pub fn interrupt_flags(&self, ir: u32) -> (r: InterruptSet)
        ensures
            r.0 == ir & self.mask(),
            r.0 & !INTERRUPT_MASK == 0,
    {
        proof {
            use_type_invariant(self);
        }
        // The mask ensures that only flags under our control are returned.
        let owned = self.0.0;
        let masked = ir & owned;
        assert(masked & !INTERRUPT_MASK == 0) by (bit_vector)
            requires
                owned & !0x3fff_ffffu32 == 0,
                masked == ir & owned,
        ;
        InterruptSet(masked)
    }

    /// The value to write to the interrupt register (IR) to clear the
    /// indicated `interrupts`. Interrupts not owned by this
    /// `OwnedInterruptSet` are silently ignored.
    ///
    /// Writing a 0 bit leaves the flag unchanged, so masking the write with
    /// the owned interrupts ensures no other bits are affected.
    pub fn clear_interrupts(&self, interrupts: InterruptSet) -> (r: u32)
        ensures
            r == interrupts.0 & self.mask(),
            r & !self.mask() == 0,
            r & !INTERRUPT_MASK == 0,
    {
        proof {
            use_type_invariant(self);
        }
        let owned = self.0.0;
        let requested = interrupts.0;
        let masked = requested & owned;
        assert(masked & !owned == 0 && masked & !INTERRUPT_MASK == 0) by (bit_vector)
            requires
                owned & !0x3fff_ffffu32 == 0,
                masked == requested & owned,
        ;
        masked
    }

    /// Takes the flagged interrupts owned by this `OwnedInterruptSet` from
    /// `ir`, the value read from the interrupt register (IR), and provides an
    /// iterator over them together with the value to write to IR that clears
    /// them.
    pub fn iter_flagged(&self, ir: u32) -> (r: (Iter, u32))
        ensures
            r.0@ == flagged_from(ir & self.mask(), 0),
            r.1 == ir & self.mask(),
    {
        let interrupts = self.interrupt_flags(ir);
        let clear = self.clear_interrupts(interrupts);
        proof {
            let owned = self.mask();
            assert((ir & owned) & owned == ir & owned) by (bit_vector);
        }
        (interrupts.iter(), clear)
    }
}

/// Controls enabling and line selection of interrupts.
pub struct InterruptConfiguration<P> {
    disabled: OwnedInterruptSet<P>,
    _peripheral: PhantomData<P>,
}

/// A ghost identity for a new configuration. Its callers learn nothing of
/// its value, so sets handed out by two configurations are never known to
/// share one.
proof fn fresh_owner() -> (id: int) {
    0
}

impl<P> InterruptConfiguration<P> {
    /// The interrupts that are disabled and owned by the configuration.
    pub closed spec fn disabled_mask(&self) -> u32 {
        self.disabled.mask()
    }

    /// The identity of the configuration, which the sets it hands out carry.
    pub closed spec fn owner(&self) -> int {
        self.disabled.owner()
    }

    /// The interrupts that are disabled, which the configuration can still
    /// hand out.
    pub fn disabled_interrupts(&self) -> (r: InterruptSet)
        ensures
            r.0 == self.disabled_mask(),
    {
        self.disabled.interrupts()
    }

    /// A configuration that owns every interrupt of the peripheral, all of
    /// them disabled.
    ///
    /// The configuration stands for the interrupt registers ILS, ILE, IE and
    /// IR of one peripheral: create it once per peripheral only.
    pub fn new() -> (r: Self)
        ensures
            r.disabled_mask() == INTERRUPT_MASK,
    {
        assert(0x3fff_ffffu32 & !0x3fff_ffffu32 == 0) by (bit_vector);
        let ghost owner = fresh_owner();
        Self {
            // This represents owning all of IR. The reserved bits are excluded.
            disabled: OwnedInterruptSet::new(InterruptSet(0x3fff_ffff), Ghost(owner)),
            _peripheral: PhantomData,
        }
    }

    /// Request to enable the set of `interrupts` on the chosen interrupt line.
    /// Fails if some of the requested interrupts are already enabled.
    ///
    /// `regs` holds the values of the interrupt registers; on success they
    /// are updated to route the interrupts to `line` and enable them, and
    /// `writes` gets the register writes to make, in order: the line is
    /// enabled (ILE) and selected (ILS) before the interrupts are enabled
    /// (IE).
    pub fn enable(
        &mut self,
        interrupts: InterruptSet,
        line: InterruptLine,
        regs: &mut InterruptRegisters,
        writes: &mut Vec<RegisterWrite>,
    ) -> (r: Result<OwnedInterruptSet<P>, MaskError>)
        ensures
            old(self).disabled_mask() & !INTERRUPT_MASK == 0,
            final(self).disabled_mask() & !INTERRUPT_MASK == 0,
            final(self).owner() == old(self).owner(),
            r is Ok <==> missing_from(old(self).disabled_mask(), interrupts.0) == 0,
            match r {
                Ok(owned) => {
                    &&& owned.mask() == interrupts.0
                    &&& owned.owner() == old(self).owner()
                    &&& final(self).disabled_mask() == remaining_after_split(
                        old(self).disabled_mask(),
                        interrupts.0,
                    )
                    &&& final(regs).ile == old(regs).ile | line_enable_bit(line)
                    &&& final(regs).ils == line_select_after(old(regs).ils, interrupts.0, line)
                    &&& final(regs).ie == interrupt_enable_after(old(regs).ie, interrupts.0, true)
                    &&& final(writes)@ == old(writes)@ + seq![
                        RegisterWrite::Ile(final(regs).ile),
                        RegisterWrite::Ils(final(regs).ils),
                        RegisterWrite::Ie(final(regs).ie),
                    ]
                },
                Err(e) => {
                    &&& e.0.0 == missing_from(old(self).disabled_mask(), interrupts.0)
                    &&& final(self).disabled_mask() == old(self).disabled_mask()
                    &&& *final(regs) == *old(regs)
                    &&& final(writes)@ == old(writes)@
                },
            },
    {
        proof {
            use_type_invariant(&self.disabled);
        }
        let interrupts = match self.disabled.split(interrupts) {
            Ok(taken) => taken,
            Err(e) => return Err(e),
        };
        self.set_line(&interrupts, line, regs, writes);
        self.set_enabled(&interrupts, true, regs, writes);
        proof {
            use_type_invariant(&self.disabled);
        }
        Ok(interrupts)
    }

    /// Disable the set of `interrupts` and move ownership back to the
    /// `InterruptConfiguration`.
    ///
    /// The set must have been handed out by this configuration, so that the
    /// configuration does not own any of its interrupts. `writes` gets the
    /// write of the enable register (IE).
    pub fn disable(
        &mut self,
        interrupts: OwnedInterruptSet<P>,
        regs: &mut InterruptRegisters,
        writes: &mut Vec<RegisterWrite>,
    )
        requires
            interrupts.owner() == old(self).owner(),
            old(self).disabled_mask() & interrupts.mask() == 0,
        ensures
            final(self).owner() == old(self).owner(),
            final(self).disabled_mask() == joined(old(self).disabled_mask(), interrupts.mask()),
            final(self).disabled_mask() & !INTERRUPT_MASK == 0,
            final(regs).ie == interrupt_enable_after(old(regs).ie, interrupts.mask(), false),
            final(regs).ils == old(regs).ils,
            final(regs).ile == old(regs).ile,
            final(writes)@ == old(writes)@.push(RegisterWrite::Ie(final(regs).ie)),
    {
        self.set_enabled(&interrupts, false, regs, writes);
        self.disabled.join(interrupts);
        proof {
            use_type_invariant(&self.disabled);
        }
    }

    /// Set the interrupt line that will trigger for a set of peripheral
    /// interrupts.
    ///
    /// `writes` gets the writes of the line enable (ILE) and then the line
    /// select (ILS) register.
    pub fn set_line(
        &mut self,
        interrupts: &OwnedInterruptSet<P>,
        line: InterruptLine,
        regs: &mut InterruptRegisters,
        writes: &mut Vec<RegisterWrite>,
    )
        ensures
            final(self).disabled_mask() == old(self).disabled_mask(),
            final(self).owner() == old(self).owner(),
            final(regs).ile == old(regs).ile | line_enable_bit(line),
            final(regs).ils == line_select_after(old(regs).ils, interrupts.mask(), line),
            final(regs).ils & !INTERRUPT_MASK == old(regs).ils & !INTERRUPT_MASK,
            final(regs).ie == old(regs).ie,
            final(writes)@ == old(writes)@ + seq![
                RegisterWrite::Ile(final(regs).ile),
                RegisterWrite::Ils(final(regs).ils),
            ],
    {
        proof {
            use_type_invariant(interrupts);
        }
        self.enable_line(line, regs, writes);
        let mask = interrupts.0.0;
        let ils = regs.ils;
        let new_ils = match line {
            InterruptLine::Line0 => ils & !mask,
            InterruptLine::Line1 => ils | mask,
        };
        // The reserved bits are 0 by type invariant on `OwnedInterruptSet`.
        assert(new_ils & !INTERRUPT_MASK == ils & !INTERRUPT_MASK) by (bit_vector)
            requires
                mask & !0x3fff_ffffu32 == 0,
                new_ils == ils & !mask || new_ils == ils | mask,
        ;
        regs.ils = new_ils;
        writes.push(RegisterWrite::Ils(new_ils));
    }

    fn enable_line(
        &mut self,
        line: InterruptLine,
        regs: &mut InterruptRegisters,
        writes: &mut Vec<RegisterWrite>,
    )
        ensures
            final(self).disabled_mask() == old(self).disabled_mask(),
            final(self).owner() == old(self).owner(),
            final(regs).ile == old(regs).ile | line_enable_bit(line),
            final(regs).ils == old(regs).ils,
            final(regs).ie == old(regs).ie,
            final(writes)@ == old(writes)@.push(RegisterWrite::Ile(final(regs).ile)),
    {
        regs.ile = match line {
            InterruptLine::Line0 => regs.ile | 1,
            InterruptLine::Line1 => regs.ile | 2,
        };
        writes.push(RegisterWrite::Ile(regs.ile));
    }

    fn set_enabled(
        &mut self,
        interrupts: &OwnedInterruptSet<P>,
        enabled: bool,
        regs: &mut InterruptRegisters,
        writes: &mut Vec<RegisterWrite>,
    )
        ensures
            final(self).disabled_mask() == old(self).disabled_mask(),
            final(self).owner() == old(self).owner(),
            final(regs).ie == interrupt_enable_after(old(regs).ie, interrupts.mask(), enabled),
            final(regs).ie & !INTERRUPT_MASK == old(regs).ie & !INTERRUPT_MASK,
            final(regs).ils == old(regs).ils,
            final(regs).ile == old(regs).ile,
            final(writes)@ == old(writes)@.push(RegisterWrite::Ie(final(regs).ie)),
    {
        proof {
            use_type_invariant(interrupts);
        }
        let mask = interrupts.0.0;
        let ie = regs.ie;
        let new_ie = if enabled {
            ie | mask
        } else {
            ie & !mask
        };
        // The reserved bits are 0 by type invariant on `OwnedInterruptSet`.
        assert(new_ie & !INTERRUPT_MASK == ie & !INTERRUPT_MASK) by (bit_vector)
            requires
                mask & !0x3fff_ffffu32 == 0,
                new_ie == ie & !mask || new_ie == ie | mask,
        ;
        regs.ie = new_ie;
        writes.push(RegisterWrite::Ie(new_ie));
    }
}

/// Enabling a line sets exactly that line's bit of the line-enable register
/// (EINT0 is bit 0, EINT1 is bit 1): the other line's bit and every other
/// bit keep their values.
pub proof fn law_line_enable_sets_only_its_bit(ile: u32, line: InterruptLine)
    ensures
        (ile | line_enable_bit(line)) & 1 == (match line {
            InterruptLine::Line0 => 1u32,
            InterruptLine::Line1 => ile & 1,
        }),
        (ile | line_enable_bit(line)) & 2 == (match line {
            InterruptLine::Line0 => ile & 2,
            InterruptLine::Line1 => 2u32,
        }),
        (ile | line_enable_bit(line)) & !3u32 == ile & !3u32,
{
    assert((ile | 1) & 1 == 1 && (ile | 1) & 2 == ile & 2 && (ile | 1) & !3u32 == ile & !3u32)
        by (bit_vector);
    assert((ile | 2) & 1 == ile & 1 && (ile | 2) & 2 == 2 && (ile | 2) & !3u32 == ile & !3u32)
        by (bit_vector);
}

/// Joining back a set just split off gives the owner its set back: the
/// two parts are disjoint, and their union is the set before the split.
pub proof fn law_join_undoes_split(owned: u32, subset: u32)
    requires
        missing_from(owned, subset) == 0,
    ensures
        remaining_after_split(owned, subset) & subset == 0,
        joined(remaining_after_split(owned, subset), subset) == owned,
{
    assert(!owned & subset == 0 ==> (owned & !subset) & subset == 0 && ((owned & !subset) | subset)
        == owned) by (bit_vector);
}

/// Taking back what was just handed out gives the configuration its
/// interrupts back: the two sets are disjoint, so `disable` accepts the set,
/// and the disabled set after it is the one before `enable`. The enable
/// register ends with the set's bits cleared.
pub proof fn law_disable_undoes_enable(disabled: u32, mask: u32, ie: u32)
    requires
        missing_from(disabled, mask) == 0,
    ensures
        remaining_after_split(disabled, mask) & mask == 0,
        joined(remaining_after_split(disabled, mask), mask) == disabled,
        interrupt_enable_after(interrupt_enable_after(ie, mask, true), mask, false)
            == interrupt_enable_after(ie, mask, false),
{
    law_join_undoes_split(disabled, mask);
    assert((ie | mask) & !mask == ie & !mask) by (bit_vector);
}

/// Interrupts are handed out at most once: a set handed out is disjoint from
/// what the configuration keeps, and from any set handed out after it.
pub proof fn law_handed_out_sets_are_disjoint(disabled: u32, first: u32, second: u32)
    requires
        missing_from(disabled, first) == 0,
        missing_from(remaining_after_split(disabled, first), second) == 0,
    ensures
        first & remaining_after_split(disabled, first) == 0,
        first & second == 0,
        second & !disabled == 0,
{
    assert(!disabled & first == 0 && !(disabled & !first) & second == 0 ==> first & (disabled
        & !first) == 0 && first & second == 0 && second & !disabled == 0) by (bit_vector);
}

/// Routing a set of interrupts to a line changes the line-select bits of
/// that set only, and leaves each of them selecting that line.
pub proof fn law_line_select_changes_only_the_set(ils: u32, mask: u32, line: InterruptLine)
    ensures
        line_select_after(ils, mask, line) & !mask == ils & !mask,
        line_select_after(ils, mask, line) & mask == (match line {
            InterruptLine::Line0 => 0u32,
            InterruptLine::Line1 => mask,
        }),
{
    assert((ils & !mask) & !mask == ils & !mask && (ils & !mask) & mask == 0) by (bit_vector);
    assert((ils | mask) & !mask == ils & !mask && (ils | mask) & mask == mask) by (bit_vector);
}

/// Enabling or disabling a set of interrupts changes the enable bits of that
/// set only, and leaves each of them as asked.
pub proof fn law_enable_changes_only_the_set(ie: u32, mask: u32, enabled: bool)
    ensures
        interrupt_enable_after(ie, mask, enabled) & !mask == ie & !mask,
        interrupt_enable_after(ie, mask, enabled) & mask == (if enabled {
            mask
        } else {
            0u32
        }),
{
    assert((ie & !mask) & !mask == ie & !mask && (ie & !mask) & mask == 0) by (bit_vector);
    assert((ie | mask) & !mask == ie & !mask && (ie | mask) & mask == mask) by (bit_vector);
}

/// The masks of `sets`, or-ed together.
pub open spec fn union_of(sets: Seq<u32>) -> u32
    decreases sets.len(),
{
    if sets.len() == 0 {
        0
    } else {
        union_of(sets.drop_last()) | sets.last()
    }
}

/// The disabled set and the sets handed out are pairwise disjoint, and
/// together they make up every interrupt of the peripheral.
pub open spec fn is_partition(disabled: u32, handed_out: Seq<u32>) -> bool {
    &&& forall|i: int| 0 <= i < handed_out.len() ==> disabled & #[trigger] handed_out[i] == 0
    &&& forall|i: int, j: int|
        0 <= i < j < handed_out.len() ==> #[trigger] handed_out[i] & #[trigger] handed_out[j] == 0
    &&& disabled | union_of(handed_out) == INTERRUPT_MASK
}

proof fn lemma_union_push(sets: Seq<u32>, mask: u32)
    ensures
        union_of(sets.push(mask)) == union_of(sets) | mask,
{
    assert(sets.push(mask).drop_last() =~= sets);
}

proof fn lemma_union_remove(sets: Seq<u32>, k: int)
    requires
        0 <= k < sets.len(),
    ensures
        union_of(sets.remove(k)) | sets[k] == union_of(sets),
    decreases sets.len(),
{
    if k == sets.len() - 1 {
        assert(sets.remove(k) =~= sets.drop_last());
    } else {
        let front = sets.drop_last();
        lemma_union_remove(front, k);
        assert(sets.remove(k) =~= front.remove(k).push(sets.last()));
        lemma_union_push(front.remove(k), sets.last());
        let u = union_of(front.remove(k));
        let x = sets[k];
        let l = sets.last();
        assert((u | l) | x == (u | x) | l) by (bit_vector);
    }
}

/// A new configuration owns every interrupt and has handed out none.
pub proof fn law_partition_at_start()
    ensures
        is_partition(INTERRUPT_MASK, Seq::empty()),
{
    assert(0x3fff_ffffu32 | 0u32 == 0x3fff_ffffu32) by (bit_vector);
}

/// A successful `enable` keeps the partition: what it hands out joins the
/// sets handed out, and the configuration keeps the rest.
pub proof fn law_enable_keeps_partition(disabled: u32, handed_out: Seq<u32>, mask: u32)
    requires
        is_partition(disabled, handed_out),
        missing_from(disabled, mask) == 0,
    ensures
        is_partition(remaining_after_split(disabled, mask), handed_out.push(mask)),
{
    let d2 = remaining_after_split(disabled, mask);
    let outs = handed_out.push(mask);
    assert forall|i: int| 0 <= i < outs.len() implies d2 & #[trigger] outs[i] == 0 by {
        if i < handed_out.len() {
            let h = handed_out[i];
            assert(disabled & h == 0 ==> (disabled & !mask) & h == 0) by (bit_vector);
        } else {
            assert((disabled & !mask) & mask == 0) by (bit_vector);
        }
    }
    assert forall|i: int, j: int| 0 <= i < j < outs.len() implies #[trigger] outs[i]
        & #[trigger] outs[j] == 0 by {
        if j == handed_out.len() {
            let h = handed_out[i];
            assert(disabled & h == 0 && !disabled & mask == 0 ==> h & mask == 0) by (bit_vector);
        } else {
            assert(handed_out[i] & handed_out[j] == 0);
        }
    }
    lemma_union_push(handed_out, mask);
    let u = union_of(handed_out);
    assert(!disabled & mask == 0 ==> (disabled & !mask) | (u | mask) == disabled | u)
        by (bit_vector);
}

/// Every set that was handed out can be given back: `disable` accepts it,
/// and afterwards the configuration owns it again, the other sets still
/// being handed out, which keeps the partition. A handed-out set holds no
/// reserved bit.
pub proof fn law_disable_keeps_partition(disabled: u32, handed_out: Seq<u32>, k: int)
    requires
        is_partition(disabled, handed_out),
        0 <= k < handed_out.len(),
    ensures
        disabled & handed_out[k] == 0,
        handed_out[k] & !INTERRUPT_MASK == 0,
        is_partition(joined(disabled, handed_out[k]), handed_out.remove(k)),
{
    let x = handed_out[k];
    let d2 = joined(disabled, x);
    let outs = handed_out.remove(k);
    lemma_union_remove(handed_out, k);
    let u2 = union_of(outs);
    assert(disabled | (u2 | x) == 0x3fff_ffffu32 ==> x & !0x3fff_ffffu32 == 0 && (disabled | x)
        | u2 == 0x3fff_ffffu32) by (bit_vector);
    assert forall|i: int| 0 <= i < outs.len() implies d2 & #[trigger] outs[i] == 0 by {
        let j = if i < k {
            i
        } else {
            i + 1
        };
        assert(outs[i] == handed_out[j]);
        let h = handed_out[j];
        if j < k {
            assert(handed_out[j] & handed_out[k] == 0);
        } else {
            assert(handed_out[k] & handed_out[j] == 0);
        }
        assert(disabled & h == 0 && (x & h == 0 || h & x == 0) ==> (disabled | x) & h == 0)
            by (bit_vector);
    }
    assert forall|i: int, j: int| 0 <= i < j < outs.len() implies #[trigger] outs[i]
        & #[trigger] outs[j] == 0 by {
        let a = if i < k {
            i
        } else {
            i + 1
        };
        let b = if j < k {
            j
        } else {
            j + 1
        };
        assert(outs[i] == handed_out[a]);
        assert(outs[j] == handed_out[b]);
        assert(handed_out[a] & handed_out[b] == 0);
    }
}

/// One call on an [`InterruptConfiguration`], as the partition laws see it:
/// `Enable` asks for a mask, `Disable` gives back the set handed out at that
/// position among those not yet given back.
pub enum ConfigStep {
    /// A call of `enable` with the given mask.
    Enable(u32),
    /// A call of `disable` with a set handed out and not yet given back.
    Disable(nat),
}

/// The disabled set and the sets handed out and not yet given back, after
/// `new` and then `steps`. A refused `enable` changes nothing; a `Disable`
/// names a set that is out.
pub open spec fn after_steps(steps: Seq<ConfigStep>) -> (u32, Seq<u32>)
    decreases steps.len(),
{
    if steps.len() == 0 {
        (INTERRUPT_MASK, Seq::empty())
    } else {
        let (disabled, handed_out) = after_steps(steps.drop_last());
        match steps.last() {
            ConfigStep::Enable(mask) => if missing_from(disabled, mask) == 0 {
                (remaining_after_split(disabled, mask), handed_out.push(mask))
            } else {
                (disabled, handed_out)
            },
            ConfigStep::Disable(k) => if k < handed_out.len() {
                (joined(disabled, handed_out[k as int]), handed_out.remove(k as int))
            } else {
                (disabled, handed_out)
            },
        }
    }
}

/// A partition owns no reserved bit, in the disabled set or in any set
/// handed out.
proof fn lemma_partition_no_reserved(disabled: u32, handed_out: Seq<u32>)
    requires
        is_partition(disabled, handed_out),
    ensures
        disabled & !INTERRUPT_MASK == 0,
        forall|i: int| 0 <= i < handed_out.len() ==> #[trigger] handed_out[i] & !INTERRUPT_MASK == 0,
{
    let u = union_of(handed_out);
    assert(disabled | u == 0x3fff_ffffu32 ==> disabled & !0x3fff_ffffu32 == 0) by (bit_vector);
    assert forall|i: int| 0 <= i < handed_out.len() implies #[trigger] handed_out[i]
        & !INTERRUPT_MASK == 0 by {
        law_disable_keeps_partition(disabled, handed_out, i);
    }
}

/// After `new` and any sequence of `enable` and `disable` calls, each
/// `disable` giving back a set that `enable` handed out: the interrupts the
/// configuration keeps and the sets handed out are pairwise disjoint, make
/// up every interrupt of the peripheral together, and none of them holds a
/// reserved bit.
pub proof fn law_partition_over_any_calls(steps: Seq<ConfigStep>)
    ensures
        is_partition(after_steps(steps).0, after_steps(steps).1),
        after_steps(steps).0 & !INTERRUPT_MASK == 0,
        forall|i: int|
            0 <= i < after_steps(steps).1.len() ==> #[trigger] after_steps(steps).1[i]
                & !INTERRUPT_MASK == 0,
    decreases steps.len(),
{
    if steps.len() == 0 {
        law_partition_at_start();
    } else {
        law_partition_over_any_calls(steps.drop_last());
        let (disabled, handed_out) = after_steps(steps.drop_last());
        match steps.last() {
            ConfigStep::Enable(mask) => {
                if missing_from(disabled, mask) == 0 {
                    law_enable_keeps_partition(disabled, handed_out, mask);
                }
            },
            ConfigStep::Disable(k) => {
                if k < handed_out.len() {
                    law_disable_keeps_partition(disabled, handed_out, k as int);
                }
            },
        }
    }
    lemma_partition_no_reserved(after_steps(steps).0, after_steps(steps).1);
}

} // verus!
