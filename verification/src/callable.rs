//! Callable handles: forwarding invocation to a wrapped callable, and the
//! single-shot adapter that lets a one-time callable be driven through a
//! repeatable-invocation interface.
//!
//! The adapter is a one-directional state machine — holding the callable
//! until the first invocation consumes it, spent afterwards — in three
//! policy variants for a second invocation: [`StrictOnce`] reports it as the
//! failure [`RepeatedInvocation`], [`CheckedOnce`] reports an absent
//! outcome, and [`UncheckedOnce`] makes the caller rule it out up front, as
//! a precondition. All three are erased into the same behavior shape
//! consumed by [`ThinBox`], so downstream code holds one uniform handle type
//! whichever policy was chosen at construction.

use crate::allocator::{Allocator, CountingAllocator};
use crate::thin::{block_fits, block_layout, Erased, Metadata, ThinBox};
use vstd::prelude::*;

verus! {

/// A single-shot callable was invoked again after it had already been
/// consumed, under the policy that reports this as a failure.
#[derive(Clone, Copy, PartialEq, Eq, Structural, Debug)]
pub struct RepeatedInvocation;

/// A single-shot callable behind a repeatable-invocation interface, under
/// the strict policy: the first invocation consumes the callable and yields
/// its result; any later invocation fails with [`RepeatedInvocation`].
pub struct StrictOnce<F> {
    slot: Option<F>,
}

/// A single-shot callable behind a repeatable-invocation interface, under
/// the unchecked policy: the caller guarantees the adapter is invoked at
/// most once, and the invocation yields the result directly, with no
/// per-call tag. Here that guarantee is the invocation's precondition, so a
/// verified caller discharges it statically.
pub struct UncheckedOnce<F> {
    slot: Option<F>,
}

/// A single-shot callable behind a repeatable-invocation interface, under
/// the outcome-reporting policy: the first invocation yields a present
/// outcome wrapping the result; any later invocation yields an absent
/// outcome and performs no work.
pub struct CheckedOnce<F> {
    slot: Option<F>,
}

impl<F> StrictOnce<F> {
    /// Whether the callable has not been consumed yet.
    pub closed spec fn holding(self) -> bool {
        self.slot is Some
    }

    /// The callable still held.
    pub closed spec fn callable(self) -> F {
        self.slot->Some_0
    }
}

impl<F> CheckedOnce<F> {
    /// Whether the callable has not been consumed yet.
    pub closed spec fn holding(self) -> bool {
        self.slot is Some
    }

    /// The callable still held.
    pub closed spec fn callable(self) -> F {
        self.slot->Some_0
    }
}

impl<F> UncheckedOnce<F> {
    /// Whether the callable has not been consumed yet.
    pub closed spec fn holding(self) -> bool {
        self.slot is Some
    }

    /// The callable still held.
    pub closed spec fn callable(self) -> F {
        self.slot->Some_0
    }
}

impl<F: FnOnce() -> Out, Out> UncheckedOnce<F> {
    /// Wrap a one-time callable; the adapter starts out holding it.
    pub fn new(f: F) -> (r: Self)
        ensures
            r.holding(),
            r.callable() == f,
    {
        UncheckedOnce { slot: Some(f) }
    }

    /// Invoke under the unchecked policy: the caller vouches — through the
    /// precondition — that the callable has not been consumed, and the
    /// invocation consumes and runs it.
    pub fn invoke(&mut self) -> (r: Out)
        requires
            old(self).holding(),
            call_requires(old(self).callable(), ()),
        ensures
            !final(self).holding(),
            call_ensures(old(self).callable(), (), r),
    {
        let mut tmp = UncheckedOnce { slot: None };
        core::mem::swap(self, &mut tmp);
        match tmp.slot {
            Some(f) => f(),
            None => unreached(),
        }
    }
}

impl<F: FnOnce() -> Out, Out> StrictOnce<F> {
    /// Wrap a one-time callable; the adapter starts out holding it.
    pub fn new(f: F) -> (r: Self)
        ensures
            r.holding(),
            r.callable() == f,
    {
        StrictOnce { slot: Some(f) }
    }

    /// Invoke under the strict policy: consume and run the callable on the
    /// first invocation, fail with [`RepeatedInvocation`] — running nothing —
    /// on every later one.
    pub fn invoke(&mut self) -> (r: Result<Out, RepeatedInvocation>)
        requires
            old(self).holding() ==> call_requires(old(self).callable(), ()),
        ensures
            !final(self).holding(),
            r is Ok <==> old(self).holding(),
            r matches Ok(out) ==> call_ensures(old(self).callable(), (), out),
    {
        let mut tmp = StrictOnce { slot: None };
        core::mem::swap(self, &mut tmp);
        match tmp.slot {
            Some(f) => Ok(f()),
            None => Err(RepeatedInvocation),
        }
    }
}

impl<F: FnOnce() -> Out, Out> CheckedOnce<F> {
    /// Wrap a one-time callable; the adapter starts out holding it.
    pub fn new(f: F) -> (r: Self)
        ensures
            r.holding(),
            r.callable() == f,
    {
        CheckedOnce { slot: Some(f) }
    }

    /// Invoke under the outcome-reporting policy: a present outcome wrapping
    /// the result on the first invocation, an absent outcome — running
    /// nothing — on every later one.
    pub fn invoke(&mut self) -> (r: Option<Out>)
        requires
            old(self).holding() ==> call_requires(old(self).callable(), ()),
        ensures
            !final(self).holding(),
            r is Some <==> old(self).holding(),
            r matches Some(out) ==> call_ensures(old(self).callable(), (), out),
    {
        let mut tmp = CheckedOnce { slot: None };
        core::mem::swap(self, &mut tmp);
        match tmp.slot {
            Some(f) => Some(f()),
            None => None,
        }
    }
}

impl<F: Fn() -> Out, Out, A: Allocator> ThinBox<F, A> {
    /// Invoke the repeatable callable the handle wraps, by forwarding to the
    /// value reached through the handle: the outcomes are exactly those of
    /// calling the wrapped callable directly.
    pub fn call(&self) -> (r: Out)
        requires
            self.is_behavior(),
            call_requires(self.behavior_value(), ()),
        ensures
            call_ensures(self.behavior_value(), (), r),
    {
        let f = self.behavior_get();
        f()
    }
}

impl<F: FnMut() -> Out, Out, A: Allocator> ThinBox<F, A> {
    /// Invoke the repeatable callable the handle wraps through a mutable
    /// reference, by forwarding to the value reached through the handle: the
    /// outcomes are exactly those of calling the wrapped callable directly.
    pub fn call_mut(&mut self) -> (r: Out)
        requires
            old(self).wf(),
            old(self).is_behavior(),
            call_requires(old(self).behavior_value(), ()),
        ensures
            call_ensures(old(self).behavior_value(), (), r),
            final(self).wf(),
            final(self).is_behavior(),
            final(self).metadata_view() == old(self).metadata_view(),
            final(self).address() == old(self).address(),
            final(self).allocator_view() == old(self).allocator_view(),
    {
        let f = self.behavior_get_mut();
        f()
    }
}

impl<F: FnOnce() -> Out, Out, A: Allocator> ThinBox<StrictOnce<F>, A> {
    /// Erase a one-time callable, under the strict policy, into a
    /// repeatable-callable handle using the given allocator.
    pub fn from_once_in(f: F, alloc: A) -> (r: Self)
        requires
            alloc.wf(),
            block_fits::<StrictOnce<F>>(Metadata::Table),
            alloc.can_allocate(block_layout::<StrictOnce<F>>(Metadata::Table)),
        ensures
            r.wf(),
            r.is_behavior(),
            r.metadata_view() == Metadata::Table,
            r.behavior_value().holding(),
            r.behavior_value().callable() == f,
            r.allocator_view().wf(),
            r.allocator_view().live_blocks() == alloc.live_blocks() + 1,
    {
        Self::new_unsize_in(Erased::Behavior(StrictOnce::new(f)), alloc)
    }

    /// Invoke through the handle, forwarding to [`StrictOnce::invoke`]: the
    /// first invocation consumes the callable and yields its result; every
    /// later one fails with [`RepeatedInvocation`] and runs nothing.
    pub fn invoke(&mut self) -> (r: Result<Out, RepeatedInvocation>)
        requires
            old(self).wf(),
            old(self).is_behavior(),
            old(self).behavior_value().holding() ==> call_requires(
                old(self).behavior_value().callable(),
                (),
            ),
        ensures
            final(self).wf(),
            final(self).is_behavior(),
            !final(self).behavior_value().holding(),
            r is Ok <==> old(self).behavior_value().holding(),
            r matches Ok(out) ==> call_ensures(old(self).behavior_value().callable(), (), out),
            final(self).metadata_view() == old(self).metadata_view(),
            final(self).address() == old(self).address(),
            final(self).allocator_view() == old(self).allocator_view(),
    {
        let mut adapter = self.replace_behavior(StrictOnce { slot: None });
        adapter.invoke()
    }
}

impl<F: FnOnce() -> Out, Out, A: Allocator> ThinBox<CheckedOnce<F>, A> {
    /// Erase a one-time callable, under the outcome-reporting policy, into a
    /// repeatable-callable handle using the given allocator.
    pub fn from_once_checked_in(f: F, alloc: A) -> (r: Self)
        requires
            alloc.wf(),
            block_fits::<CheckedOnce<F>>(Metadata::Table),
            alloc.can_allocate(block_layout::<CheckedOnce<F>>(Metadata::Table)),
        ensures
            r.wf(),
            r.is_behavior(),
            r.metadata_view() == Metadata::Table,
            r.behavior_value().holding(),
            r.behavior_value().callable() == f,
            r.allocator_view().wf(),
            r.allocator_view().live_blocks() == alloc.live_blocks() + 1,
    {
        Self::new_unsize_in(Erased::Behavior(CheckedOnce::new(f)), alloc)
    }

    /// Invoke through the handle, forwarding to [`CheckedOnce::invoke`]: a
    /// present outcome wrapping the result on the first invocation, an
    /// absent outcome — with nothing run — on every later one.
    pub fn invoke(&mut self) -> (r: Option<Out>)
        requires
            old(self).wf(),
            old(self).is_behavior(),
            old(self).behavior_value().holding() ==> call_requires(
                old(self).behavior_value().callable(),
                (),
            ),
        ensures
            final(self).wf(),
            final(self).is_behavior(),
            !final(self).behavior_value().holding(),
            r is Some <==> old(self).behavior_value().holding(),
            r matches Some(out) ==> call_ensures(old(self).behavior_value().callable(), (), out),
            final(self).metadata_view() == old(self).metadata_view(),
            final(self).address() == old(self).address(),
            final(self).allocator_view() == old(self).allocator_view(),
    {
        let mut adapter = self.replace_behavior(CheckedOnce { slot: None });
        adapter.invoke()
    }
}

impl<F: FnOnce() -> Out, Out, A: Allocator> ThinBox<UncheckedOnce<F>, A> {
    /// Erase a one-time callable, under the unchecked policy, into a
    /// repeatable-callable handle using the given allocator.
    pub fn from_once_unchecked_in(f: F, alloc: A) -> (r: Self)
        requires
            alloc.wf(),
            block_fits::<UncheckedOnce<F>>(Metadata::Table),
            alloc.can_allocate(block_layout::<UncheckedOnce<F>>(Metadata::Table)),
        ensures
            r.wf(),
            r.is_behavior(),
            r.metadata_view() == Metadata::Table,
            r.behavior_value().holding(),
            r.behavior_value().callable() == f,
            r.allocator_view().wf(),
            r.allocator_view().live_blocks() == alloc.live_blocks() + 1,
    {
        Self::new_unsize_in(Erased::Behavior(UncheckedOnce::new(f)), alloc)
    }

    /// Invoke through the handle, forwarding to [`UncheckedOnce::invoke`]:
    /// the caller vouches, through the precondition, that this is the first
    /// invocation.
    pub fn invoke(&mut self) -> (r: Out)
        requires
            old(self).wf(),
            old(self).is_behavior(),
            old(self).behavior_value().holding(),
            call_requires(old(self).behavior_value().callable(), ()),
        ensures
            final(self).wf(),
            final(self).is_behavior(),
            !final(self).behavior_value().holding(),
            call_ensures(old(self).behavior_value().callable(), (), r),
            final(self).metadata_view() == old(self).metadata_view(),
            final(self).address() == old(self).address(),
            final(self).allocator_view() == old(self).allocator_view(),
    {
        let mut adapter = self.replace_behavior(UncheckedOnce { slot: None });
        adapter.invoke()
    }
}

impl<F: FnOnce() -> Out, Out> ThinBox<UncheckedOnce<F>, CountingAllocator> {
    /// Erase a one-time callable, under the unchecked policy, into a
    /// repeatable-callable handle with a fresh bookkeeping allocator.
    pub fn from_once_unchecked(f: F) -> (r: Self)
        requires
            block_fits::<UncheckedOnce<F>>(Metadata::Table),
        ensures
            r.wf(),
            r.is_behavior(),
            r.metadata_view() == Metadata::Table,
            r.behavior_value().holding(),
            r.behavior_value().callable() == f,
            r.allocator_view().live_blocks() == 1,
    {
        ThinBox::new_unsize(Erased::Behavior(UncheckedOnce::new(f)))
    }
}

impl<F: FnOnce() -> Out, Out> ThinBox<StrictOnce<F>, CountingAllocator> {
    /// Erase a one-time callable, under the strict policy, into a
    /// repeatable-callable handle with a fresh bookkeeping allocator.
    pub fn from_once(f: F) -> (r: Self)
        requires
            block_fits::<StrictOnce<F>>(Metadata::Table),
        ensures
            r.wf(),
            r.is_behavior(),
            r.metadata_view() == Metadata::Table,
            r.behavior_value().holding(),
            r.behavior_value().callable() == f,
            r.allocator_view().live_blocks() == 1,
    {
        ThinBox::new_unsize(Erased::Behavior(StrictOnce::new(f)))
    }
}

impl<F: FnOnce() -> Out, Out> ThinBox<CheckedOnce<F>, CountingAllocator> {
    /// Erase a one-time callable, under the outcome-reporting policy, into a
    /// repeatable-callable handle with a fresh bookkeeping allocator.
    pub fn from_once_checked(f: F) -> (r: Self)
        requires
            block_fits::<CheckedOnce<F>>(Metadata::Table),
        ensures
            r.wf(),
            r.is_behavior(),
            r.metadata_view() == Metadata::Table,
            r.behavior_value().holding(),
            r.behavior_value().callable() == f,
            r.allocator_view().live_blocks() == 1,
    {
        ThinBox::new_unsize(Erased::Behavior(CheckedOnce::new(f)))
    }
}

} // verus!
