//! The thin handle: a single-address owning handle for a value whose shape
//! is only known at run time.
//!
//! A handle owns one combined block, laid out as
//! `[descriptor bytes][padding][value bytes]`, and stores only the address of
//! the first value byte; the descriptor lives at a fixed offset in front of
//! it. Construction computes the combined layout, requests a block from the
//! owned [`Allocator`], and records the value address. Teardown recomputes
//! the block's true layout from the live descriptor — never from a cached
//! value — and returns the block with exactly the layout it was allocated
//! with.

use crate::allocator::{AllocError, Allocator, CountingAllocator};
use crate::layout::{lemma_align_positive, lemma_divides_transitive, lemma_pow2_divides, lemma_round_up_bounds, round_up, size_cap, Layout};
use vstd::arithmetic::div_mod::{lemma_add_mod_noop, lemma_mod_division_less_than_divisor};
use vstd::arithmetic::power::{lemma_pow0, pow};
use vstd::arithmetic::power2::{is_pow2, is_pow2_equiv, is_pow2_exists};
use vstd::layout::{align_of, layout_for_type_is_valid, size_of, valid_layout};
use vstd::math::max;
use vstd::prelude::*;

verus! {

/// The descriptor stored immediately before the value region of a combined
/// block: the minimum information needed to use the value through its
/// address.
#[derive(Clone, Copy, PartialEq, Eq, Structural, Debug)]
pub enum Metadata {
    /// A fixed-shape value: nothing to record.
    Unit,
    /// A sequence view: the element count.
    Len(usize),
    /// A behavior view: a dispatch-table reference.
    Table,
}

/// A concrete value paired with the dynamically-sized shape it is erased
/// into, as handed to the unsizing constructors.
#[derive(Debug)]
pub enum Erased<T> {
    /// A sequence erased to a view of runtime-determined length.
    Sequence(Vec<T>),
    /// A behavior object erased to the capability view it satisfies.
    Behavior(T),
}

/// The value region of a combined block, by shape.
#[derive(Debug)]
pub enum Content<T> {
    /// A fixed-shape value, described by [`Metadata::Unit`].
    Value(T),
    /// A sequence, described by [`Metadata::Len`].
    Sequence(Vec<T>),
    /// A behavior object, described by [`Metadata::Table`].
    Behavior(T),
}

/// The descriptor the unsizing constructors derive from an erased value.
pub open spec fn erased_meta<T>(e: Erased<T>) -> Metadata {
    match e {
        Erased::Sequence(v) => Metadata::Len(v@.len() as usize),
        Erased::Behavior(_) => Metadata::Table,
    }
}

/// Whether a value region agrees with its descriptor.
pub open spec fn matches_shape<T>(c: Content<T>, m: Metadata) -> bool {
    match c {
        Content::Value(_) => m is Unit,
        Content::Sequence(v) => m matches Metadata::Len(n) && v@.len() == n,
        Content::Behavior(_) => m is Table,
    }
}

/// The size of the descriptor region: empty for a fixed shape, one word for
/// a length or a dispatch-table reference.
pub open spec fn meta_size(m: Metadata) -> int {
    match m {
        Metadata::Unit => 0,
        Metadata::Len(_) => size_of::<usize>() as int,
        Metadata::Table => size_of::<usize>() as int,
    }
}

/// The alignment of the descriptor region.
pub open spec fn meta_align(m: Metadata) -> int {
    match m {
        Metadata::Unit => 1,
        Metadata::Len(_) => align_of::<usize>() as int,
        Metadata::Table => align_of::<usize>() as int,
    }
}

/// The size of the value region a descriptor `m` describes.
pub open spec fn value_size<T>(m: Metadata) -> int {
    match m {
        Metadata::Len(n) => size_of::<T>() as int * n,
        _ => size_of::<T>() as int,
    }
}

/// The alignment of the value region.
pub open spec fn value_align<T>() -> int {
    align_of::<T>() as int
}

/// The byte offset of the value region from the block start.
pub open spec fn value_offset<T>(m: Metadata) -> int {
    round_up(meta_size(m), value_align::<T>())
}

/// The total size of the combined block.
pub open spec fn block_size<T>(m: Metadata) -> int {
    value_offset::<T>(m) + value_size::<T>(m)
}

/// The alignment of the combined block.
pub open spec fn block_align<T>(m: Metadata) -> int {
    max(meta_align(m), value_align::<T>())
}

/// Whether the value region alone is representable.
pub open spec fn value_fits<T>(m: Metadata) -> bool {
    match m {
        Metadata::Len(n) => size_of::<T>() as int * n <= size_cap(value_align::<T>()),
        _ => true,
    }
}

/// Whether the whole combined block is representable: the layout
/// computation succeeds exactly when this holds.
pub open spec fn block_fits<T>(m: Metadata) -> bool {
    value_fits::<T>(m) && block_size::<T>(m) <= size_cap(block_align::<T>(m))
}

/// The layout of the combined block, meaningful when `block_fits` holds.
pub open spec fn block_layout<T>(m: Metadata) -> Layout {
    Layout { size: block_size::<T>(m) as usize, align: block_align::<T>(m) as usize }
}

/// The raw constituent parts of a handle, as produced by decomposition: the
/// stored value address together with what the combined block holds at it.
/// Reconstituting a handle from raw parts is unchecked in the sense that the
/// caller must vouch that the parts originate from a matching construction.
pub struct RawThin<T> {
    addr: usize,
    meta: Metadata,
    content: Content<T>,
}

/// The one-word owning handle. It records the address of the value region
/// of its combined block, and owns the allocator the block came from; the
/// descriptor and value the block holds are modelled by the `meta` and
/// `content` fields.
#[derive(Debug)]
pub struct ThinBox<T, A: Allocator = CountingAllocator> {
    addr: usize,
    meta: Metadata,
    content: Content<T>,
    alloc: A,
}

/// Compute the combined block layout and value offset a descriptor calls
/// for: the descriptor's layout extended with the value's. Fails exactly
/// when the combination is not representable.
fn layout_for_meta<T>(meta: &Metadata) -> (r: Option<(Layout, usize)>)
    ensures
        r matches Some(p) ==> p.0 == block_layout::<T>(*meta) && p.1 as int == value_offset::<T>(
            *meta,
        ) && p.0.wf(),
        r is Some <==> block_fits::<T>(*meta),
{
    layout_for_type_is_valid::<usize>();
    layout_for_type_is_valid::<T>();
    proof {
        lemma_unit_layout_wf();
    }
    let meta_l: Layout = match meta {
        Metadata::Unit => Layout { size: 0, align: 1 },
        _ => Layout { size: core::mem::size_of::<usize>(), align: core::mem::align_of::<usize>() },
    };
    let elem = Layout { size: core::mem::size_of::<T>(), align: core::mem::align_of::<T>() };
    let value_l: Layout = match meta {
        Metadata::Len(n) => {
            match elem.repeat(*n) {
                Some(l) => l,
                None => {
                    return None;
                },
            }
        },
        _ => elem,
    };
    proof {
        assert(meta_size(*meta) == meta_l.size as int);
        assert(meta_align(*meta) == meta_l.align as int);
        assert(value_size::<T>(*meta) == value_l.size as int);
        assert(value_align::<T>() == value_l.align as int);
    }
    match meta_l.extend(value_l) {
        Some((bl, off)) => {
            proof {
                assert(bl.size as int == block_size::<T>(*meta));
                assert(bl.align as int == block_align::<T>(*meta));
            }
            Some((bl, off))
        },
        None => {
            proof {
                assert(!block_fits::<T>(*meta));
            }
            None
        },
    }
}

/// The trivial layout of an empty descriptor is well formed.
proof fn lemma_unit_layout_wf()
    ensures
        valid_layout(0, 1),
{
    assert(pow(2, 0nat) == 1) by {
        lemma_pow0(2);
    }
    assert(is_pow2_exists(1));
    is_pow2_equiv(1);
    lemma_mod_division_less_than_divisor(isize::MAX as int, 1);
}

impl<T, A: Allocator> ThinBox<T, A> {
    /// The address of the first value byte, the one word the handle stores.
    pub closed spec fn address(self) -> usize {
        self.addr
    }

    /// The descriptor held in front of the value region.
    pub closed spec fn metadata_view(self) -> Metadata {
        self.meta
    }

    /// The model of what the value region holds.
    pub closed spec fn contents(self) -> Content<T> {
        self.content
    }

    /// The allocator instance the handle owns.
    pub closed spec fn allocator_view(self) -> A {
        self.alloc
    }

    /// The address of the block the handle owns: the value address less the
    /// value region's offset.
    pub closed spec fn block_address(self) -> usize {
        (self.addr - value_offset::<T>(self.meta)) as usize
    }

    /// Whether the handle holds a fixed-shape value.
    pub open spec fn is_fixed(self) -> bool {
        self.contents() is Value
    }

    /// Whether the handle holds a sequence.
    pub open spec fn is_sequence(self) -> bool {
        self.contents() is Sequence
    }

    /// Whether the handle holds a behavior object.
    pub open spec fn is_behavior(self) -> bool {
        self.contents() is Behavior
    }

    /// The fixed-shape value the handle holds.
    pub open spec fn fixed_value(self) -> T {
        self.contents()->Value_0
    }

    /// The sequence the handle holds.
    pub open spec fn seq_view(self) -> Seq<T> {
        self.contents()->Sequence_0@
    }

    /// The behavior object the handle holds.
    pub open spec fn behavior_value(self) -> T {
        self.contents()->Behavior_0
    }

    /// Well-formedness: the descriptor agrees with the value region, the
    /// combined block is representable, the allocator is sound and holds
    /// exactly this block live under exactly the combined layout, and the
    /// stored address is the block address displaced by the value offset,
    /// aligned for the value.
    pub closed spec fn wf(self) -> bool {
        &&& matches_shape(self.content, self.meta)
        &&& block_fits::<T>(self.meta)
        &&& self.alloc.wf()
        &&& 0 <= value_offset::<T>(self.meta)
        &&& value_offset::<T>(self.meta) <= self.addr as int
        &&& self.addr != 0
        &&& self.addr as int % value_align::<T>() == 0
        &&& self.alloc.is_live(self.block_address())
        &&& self.alloc.layout_at(self.block_address()) == block_layout::<T>(self.meta)
    }

    /// The shared construction path: allocate a combined block for the given
    /// descriptor and value region and store the value address. Fails — with
    /// nothing allocated — exactly when the combined layout is not
    /// representable or the allocator cannot satisfy it.
    fn try_new_parts_in(meta: Metadata, content: Content<T>, alloc: A) -> (r: Result<
        Self,
        AllocError,
    >)
        requires
            alloc.wf(),
            matches_shape(content, meta),
        ensures
            r matches Ok(b) ==> {
                &&& b.wf()
                &&& b.contents() == content
                &&& b.metadata_view() == meta
                &&& b.allocator_view().wf()
                &&& b.allocator_view().live_blocks() == alloc.live_blocks() + 1
                &&& !alloc.is_live(b.block_address())
                &&& forall|a: usize|
                    a != b.block_address() ==> b.allocator_view().is_live(a) == alloc.is_live(a)
                &&& forall|a: usize|
                    a != b.block_address() && alloc.is_live(a) ==> b.allocator_view().layout_at(a)
                        == alloc.layout_at(a)
            },
            r is Ok <==> block_fits::<T>(meta) && alloc.can_allocate(block_layout::<T>(meta)),
    {
        layout_for_type_is_valid::<usize>();
        layout_for_type_is_valid::<T>();
        let (bl, off) = match layout_for_meta::<T>(&meta) {
            Some(p) => p,
            None => {
                return Err(AllocError);
            },
        };
        let mut alloc = alloc;
        let base = match alloc.allocate(bl) {
            Ok(a) => a,
            Err(e) => {
                return Err(e);
            },
        };
        proof {
            lemma_value_size_nonneg::<T>(meta);
            assert(block_align::<T>(meta) == bl.align as int);
            lemma_value_region_aligned::<T>(meta, base as int);
        }
        let addr = base + off;
        Ok(ThinBox { addr, meta, content, alloc })
    }

    /// Read the descriptor, as every access does, from its fixed offset in
    /// front of the stored address.
    pub fn metadata(&self) -> (m: Metadata)
        ensures
            m == self.metadata_view(),
    {
        self.meta
    }

    /// The allocator the handle owns; read-only introspection.
    pub fn allocator(&self) -> (a: &A)
        ensures
            *a == self.allocator_view(),
    {
        &self.alloc
    }

    /// Dereference a fixed-shape handle.
    pub fn get(&self) -> (v: &T)
        requires
            self.is_fixed(),
        ensures
            *v == self.fixed_value(),
    {
        match &self.content {
            Content::Value(v) => v,
            _ => unreached(),
        }
    }

    /// Dereference a sequence handle: the view of the whole value region.
    pub fn as_sequence(&self) -> (v: &Vec<T>)
        requires
            self.is_sequence(),
        ensures
            v@ == self.seq_view(),
    {
        match &self.content {
            Content::Sequence(v) => v,
            _ => unreached(),
        }
    }

    /// The element count of a sequence handle, as its descriptor records it.
    pub fn len(&self) -> (n: usize)
        requires
            self.is_sequence(),
        ensures
            n as int == self.seq_view().len(),
    {
        self.as_sequence().len()
    }

    /// Replace the value of a fixed-shape handle through the handle,
    /// returning the previous value. The block and its descriptor are
    /// untouched.
    pub fn replace_value(&mut self, v: T) -> (prev: T)
        requires
            old(self).wf(),
            old(self).is_fixed(),
        ensures
            final(self).wf(),
            final(self).is_fixed(),
            final(self).fixed_value() == v,
            prev == old(self).fixed_value(),
            final(self).metadata_view() == old(self).metadata_view(),
            final(self).address() == old(self).address(),
            final(self).allocator_view() == old(self).allocator_view(),
    {
        let mut tmp = v;
        match &mut self.content {
            Content::Value(slot) => core::mem::swap(slot, &mut tmp),
            _ => unreached(),
        }
        tmp
    }

    /// The stored address as a value, for identity-based uses such as
    /// hashing the handle rather than the value it wraps.
    pub fn value_address(&self) -> (a: usize)
        ensures
            a == self.address(),
    {
        self.addr
    }

    /// Mutably dereference a fixed-shape handle: the value may be mutated in
    /// place, arbitrarily interleaved with reads; the block, descriptor and
    /// allocator are untouched.
    pub fn get_mut(&mut self) -> (v: &mut T)
        requires
            old(self).wf(),
            old(self).is_fixed(),
        ensures
            *v == old(self).fixed_value(),
            final(self).wf(),
            final(self).is_fixed(),
            final(self).fixed_value() == *final(v),
            final(self).metadata_view() == old(self).metadata_view(),
            final(self).address() == old(self).address(),
            final(self).allocator_view() == old(self).allocator_view(),
    {
        match &mut self.content {
            Content::Value(v) => v,
            _ => unreached(),
        }
    }

    /// Overwrite one element of a sequence handle in place. The element
    /// count is part of the descriptor and cannot change through the handle.
    pub fn set_element(&mut self, i: usize, x: T)
        requires
            old(self).wf(),
            old(self).is_sequence(),
            i < old(self).seq_view().len(),
        ensures
            final(self).wf(),
            final(self).is_sequence(),
            final(self).seq_view() == old(self).seq_view().update(i as int, x),
            final(self).metadata_view() == old(self).metadata_view(),
            final(self).address() == old(self).address(),
            final(self).allocator_view() == old(self).allocator_view(),
    {
        match &mut self.content {
            Content::Sequence(v) => v.set(i, x),
            _ => unreached(),
        }
    }

    /// Dereference a behavior handle.
    pub fn behavior_get(&self) -> (v: &T)
        requires
            self.is_behavior(),
        ensures
            *v == self.behavior_value(),
    {
        match &self.content {
            Content::Behavior(v) => v,
            _ => unreached(),
        }
    }

    /// Mutably dereference a behavior handle: the behavior object may be
    /// mutated in place; the block, descriptor and allocator are untouched.
    pub fn behavior_get_mut(&mut self) -> (v: &mut T)
        requires
            old(self).wf(),
            old(self).is_behavior(),
        ensures
            *v == old(self).behavior_value(),
            final(self).wf(),
            final(self).is_behavior(),
            final(self).behavior_value() == *final(v),
            final(self).metadata_view() == old(self).metadata_view(),
            final(self).address() == old(self).address(),
            final(self).allocator_view() == old(self).allocator_view(),
    {
        match &mut self.content {
            Content::Behavior(v) => v,
            _ => unreached(),
        }
    }

    /// Replace the behavior object behind the handle, returning the previous
    /// one. The block and its descriptor are untouched.
    pub fn replace_behavior(&mut self, v: T) -> (prev: T)
        requires
            old(self).wf(),
            old(self).is_behavior(),
        ensures
            final(self).wf(),
            final(self).is_behavior(),
            final(self).behavior_value() == v,
            prev == old(self).behavior_value(),
            final(self).metadata_view() == old(self).metadata_view(),
            final(self).address() == old(self).address(),
            final(self).allocator_view() == old(self).allocator_view(),
    {
        let mut tmp = v;
        match &mut self.content {
            Content::Behavior(slot) => core::mem::swap(slot, &mut tmp),
            _ => unreached(),
        }
        tmp
    }

    /// Decompose the handle into its raw parts together with its allocator,
    /// without tearing the block down.
    pub fn into_raw_with_alloc(self) -> (r: (RawThin<T>, A))
        ensures
            r.0 == self.raw_parts(),
            r.1 == self.allocator_view(),
    {
        let ThinBox { addr, meta, content, alloc } = self;
        (RawThin { addr, meta, content }, alloc)
    }

    /// Reconstitute a handle from raw parts and an allocator. This inverse
    /// of decomposition is unchecked: the caller must vouch that the parts
    /// come from a matching construction whose block is still outstanding in
    /// `alloc` — that is exactly what the precondition states.
    pub fn from_raw_with_alloc(raw: RawThin<T>, alloc: A) -> (r: Self)
        requires
            Self::from_parts_spec(raw, alloc).wf(),
        ensures
            r == Self::from_parts_spec(raw, alloc),
            r.wf(),
    {
        let RawThin { addr, meta, content } = raw;
        ThinBox { addr, meta, content, alloc }
    }

    /// The raw parts decomposition yields.
    pub closed spec fn raw_parts(self) -> RawThin<T> {
        RawThin { addr: self.addr, meta: self.meta, content: self.content }
    }

    /// The handle reconstitution builds from raw parts and an allocator.
    pub closed spec fn from_parts_spec(raw: RawThin<T>, alloc: A) -> ThinBox<T, A> {
        ThinBox { addr: raw.addr, meta: raw.meta, content: raw.content, alloc }
    }

    /// Move the value out of a fixed-shape handle and release the block,
    /// discarding the allocator instance.
    pub fn into_inner(self) -> (v: T)
        requires
            self.wf(),
            self.is_fixed(),
        ensures
            v == self.fixed_value(),
    {
        let (v, _) = self.into_inner_with_alloc();
        v
    }

    /// Move the value out of a fixed-shape handle, release the block with
    /// exactly the layout it was allocated with, and hand back the
    /// allocator, whose outstanding count drops by one.
    pub fn into_inner_with_alloc(self) -> (r: (T, A))
        requires
            self.wf(),
            self.is_fixed(),
        ensures
            r.0 == self.fixed_value(),
            r.1.wf(),
            r.1.live_blocks() == self.allocator_view().live_blocks() - 1,
            !r.1.is_live(self.block_address()),
            forall|a: usize|
                a != self.block_address() ==> r.1.is_live(a) == self.allocator_view().is_live(a),
            forall|a: usize|
                a != self.block_address() && self.allocator_view().is_live(a) ==> r.1.layout_at(a)
                    == self.allocator_view().layout_at(a),
    {
        let ThinBox { addr, meta, content, mut alloc } = self;
        let (bl, off) = match layout_for_meta::<T>(&meta) {
            Some(p) => p,
            None => unreached(),
        };
        let base = addr - off;
        alloc.deallocate(base, bl);
        match content {
            Content::Value(v) => (v, alloc),
            _ => unreached(),
        }
    }

    /// Tear the handle down: drop the value, recompute the block's true
    /// layout from the live descriptor, and return the block to the
    /// allocator with exactly that layout. Hands the allocator back so the
    /// release is observable; a handle that is never disposed of leaks its
    /// block.
    pub fn dispose(self) -> (a: A)
        requires
            self.wf(),
        ensures
            a.wf(),
            a.live_blocks() == self.allocator_view().live_blocks() - 1,
            !a.is_live(self.block_address()),
            forall|x: usize|
                x != self.block_address() ==> a.is_live(x) == self.allocator_view().is_live(x),
            forall|x: usize|
                x != self.block_address() && self.allocator_view().is_live(x) ==> a.layout_at(x)
                    == self.allocator_view().layout_at(x),
    {
        let ThinBox { addr, meta, content: _content, mut alloc } = self;
        let (bl, off) = match layout_for_meta::<T>(&meta) {
            Some(p) => p,
            None => unreached(),
        };
        let base = addr - off;
        alloc.deallocate(base, bl);
        alloc
    }

    /// Construct a handle around a fixed-shape value with the given
    /// allocator, which must be able to satisfy the combined layout; the
    /// fallible form is [`ThinBox::try_new_in`].
    pub fn new_in(v: T, alloc: A) -> (r: Self)
        requires
            alloc.wf(),
            alloc.can_allocate(block_layout::<T>(Metadata::Unit)),
        ensures
            r.wf(),
            r.is_fixed(),
            r.fixed_value() == v,
            r.metadata_view() == Metadata::Unit,
            r.allocator_view().wf(),
            r.allocator_view().live_blocks() == alloc.live_blocks() + 1,
    {
        match Self::try_new_in(v, alloc) {
            Ok(b) => b,
            Err(_) => unreached(),
        }
    }

    /// Construct a handle around a fixed-shape value with the given
    /// allocator; fails exactly when the allocator cannot satisfy the
    /// combined layout.
    pub fn try_new_in(v: T, alloc: A) -> (r: Result<Self, AllocError>)
        requires
            alloc.wf(),
        ensures
            r matches Ok(b) ==> {
                &&& b.wf()
                &&& b.is_fixed()
                &&& b.fixed_value() == v
                &&& b.metadata_view() == Metadata::Unit
                &&& b.allocator_view().wf()
                &&& b.allocator_view().live_blocks() == alloc.live_blocks() + 1
            },
            r is Ok <==> alloc.can_allocate(block_layout::<T>(Metadata::Unit)),
    {
        layout_for_type_is_valid::<T>();
        proof {
            lemma_fixed_always_fits::<T>();
        }
        Self::try_new_parts_in(Metadata::Unit, Content::Value(v), alloc)
    }

    /// Construct a handle by erasing a concrete value into a
    /// dynamically-sized shape, with the given allocator; the combined
    /// layout must be representable and satisfiable. The fallible form is
    /// [`ThinBox::try_new_unsize_in`].
    pub fn new_unsize_in(v: Erased<T>, alloc: A) -> (r: Self)
        requires
            alloc.wf(),
            block_fits::<T>(erased_meta(v)),
            alloc.can_allocate(block_layout::<T>(erased_meta(v))),
        ensures
            r.wf(),
            r.metadata_view() == erased_meta(v),
            v matches Erased::Sequence(s) ==> r.is_sequence() && r.seq_view() == s@,
            v matches Erased::Behavior(b) ==> r.is_behavior() && r.behavior_value() == b,
            r.allocator_view().wf(),
            r.allocator_view().live_blocks() == alloc.live_blocks() + 1,
    {
        match Self::try_new_unsize_in(v, alloc) {
            Ok(b) => b,
            Err(_) => unreached(),
        }
    }

    /// Construct a handle by erasing a concrete value into a
    /// dynamically-sized shape, with the given allocator; fails exactly when
    /// the combined layout is not representable or the allocator cannot
    /// satisfy it.
    pub fn try_new_unsize_in(v: Erased<T>, alloc: A) -> (r: Result<Self, AllocError>)
        requires
            alloc.wf(),
        ensures
            r matches Ok(b) ==> {
                &&& b.wf()
                &&& b.metadata_view() == erased_meta(v)
                &&& (v matches Erased::Sequence(s) ==> b.is_sequence() && b.seq_view() == s@)
                &&& (v matches Erased::Behavior(x) ==> b.is_behavior() && b.behavior_value() == x)
                &&& b.allocator_view().wf()
                &&& b.allocator_view().live_blocks() == alloc.live_blocks() + 1
            },
            r is Ok <==> block_fits::<T>(erased_meta(v)) && alloc.can_allocate(
                block_layout::<T>(erased_meta(v)),
            ),
    {
        match v {
            Erased::Sequence(s) => {
                let n = s.len();
                Self::try_new_parts_in(Metadata::Len(n), Content::Sequence(s), alloc)
            },
            Erased::Behavior(b) => Self::try_new_parts_in(
                Metadata::Table,
                Content::Behavior(b),
                alloc,
            ),
        }
    }
}

impl<T> ThinBox<T, CountingAllocator> {
    /// Construct a handle around a fixed-shape value with a fresh
    /// bookkeeping allocator. A fixed-shape combination always fits, and a
    /// fresh allocator always satisfies it, so this form cannot fail.
    pub fn new(v: T) -> (r: Self)
        ensures
            r.wf(),
            r.is_fixed(),
            r.fixed_value() == v,
            r.metadata_view() == Metadata::Unit,
            r.allocator_view().live_blocks() == 1,
    {
        layout_for_type_is_valid::<T>();
        layout_for_type_is_valid::<usize>();
        proof {
            lemma_fixed_always_fits::<T>();
        }
        let alloc = CountingAllocator::new();
        proof {
            lemma_block_layout_wf::<T>(Metadata::Unit);
        }
        Self::new_in(v, alloc)
    }

    /// The fallible counterpart of [`ThinBox::new`]; with a fresh
    /// bookkeeping allocator it always succeeds.
    pub fn try_new(v: T) -> (r: Result<Self, AllocError>)
        ensures
            r matches Ok(b) ==> {
                &&& b.wf()
                &&& b.is_fixed()
                &&& b.fixed_value() == v
                &&& b.metadata_view() == Metadata::Unit
                &&& b.allocator_view().live_blocks() == 1
            },
            r is Ok,
    {
        layout_for_type_is_valid::<T>();
        layout_for_type_is_valid::<usize>();
        proof {
            lemma_fixed_always_fits::<T>();
            lemma_block_layout_wf::<T>(Metadata::Unit);
        }
        Self::try_new_in(v, CountingAllocator::new())
    }

    /// Construct a handle by erasing a concrete value into a
    /// dynamically-sized shape, with a fresh bookkeeping allocator. The
    /// combined layout must be representable; the fallible form is
    /// [`ThinBox::try_new_unsize`].
    pub fn new_unsize(v: Erased<T>) -> (r: Self)
        requires
            block_fits::<T>(erased_meta(v)),
        ensures
            r.wf(),
            r.metadata_view() == erased_meta(v),
            v matches Erased::Sequence(s) ==> r.is_sequence() && r.seq_view() == s@,
            v matches Erased::Behavior(b) ==> r.is_behavior() && r.behavior_value() == b,
            r.allocator_view().live_blocks() == 1,
    {
        layout_for_type_is_valid::<T>();
        layout_for_type_is_valid::<usize>();
        let alloc = CountingAllocator::new();
        proof {
            lemma_block_layout_wf::<T>(erased_meta(v));
        }
        Self::new_unsize_in(v, alloc)
    }

    /// The fallible counterpart of [`ThinBox::new_unsize`]; fails exactly
    /// when the combined layout is not representable.
    pub fn try_new_unsize(v: Erased<T>) -> (r: Result<Self, AllocError>)
        ensures
            r matches Ok(b) ==> {
                &&& b.wf()
                &&& b.metadata_view() == erased_meta(v)
                &&& (v matches Erased::Sequence(s) ==> b.is_sequence() && b.seq_view() == s@)
                &&& (v matches Erased::Behavior(x) ==> b.is_behavior() && b.behavior_value() == x)
                &&& b.allocator_view().live_blocks() == 1
            },
            r is Ok <==> block_fits::<T>(erased_meta(v)),
    {
        layout_for_type_is_valid::<T>();
        layout_for_type_is_valid::<usize>();
        let alloc = CountingAllocator::new();
        proof {
            if block_fits::<T>(erased_meta(v)) {
                lemma_block_layout_wf::<T>(erased_meta(v));
            }
        }
        Self::try_new_unsize_in(v, alloc)
    }

    /// Decompose the handle into its raw parts, without tearing the block
    /// down. The bookkeeping allocator instance is discarded with the block
    /// still outstanding in it: the block is leaked unless the parts are
    /// reconstituted with [`ThinBox::from_raw_with_alloc`] and disposed of.
    pub fn into_raw(self) -> (r: RawThin<T>)
        ensures
            r == self.raw_parts(),
    {
        let (raw, _) = self.into_raw_with_alloc();
        raw
    }
}

/// Decomposing a handle into raw parts and an allocator, then immediately
/// reconstituting it from exactly those parts, yields the handle unchanged —
/// same dereferenced value, same block, same allocator, hence the same
/// teardown behavior, still owed exactly once.
pub proof fn lemma_raw_round_trip<T, A: Allocator>(h: ThinBox<T, A>)
    ensures
        ThinBox::<T, A>::from_parts_spec(h.raw_parts(), h.allocator_view()) == h,
{
}

/// A handle constructed from a fixed-shape value extracts to exactly that
/// value, and extraction returns the allocator's outstanding count to what
/// it was before construction: the premises are what construction ensures,
/// the conclusion what extraction returns.
pub proof fn lemma_construct_extract_round_trip<T, A: Allocator>(
    v: T,
    before: A,
    h: ThinBox<T, A>,
    after: A,
)
    requires
        h.is_fixed(),
        h.fixed_value() == v,
        h.allocator_view().live_blocks() == before.live_blocks() + 1,
        after.live_blocks() == h.allocator_view().live_blocks() - 1,
    ensures
        h.fixed_value() == v,
        after.live_blocks() == before.live_blocks(),
{
}

/// Unsizing a sequence into a handle preserves its element count and its
/// element order: the handle's dereferenced view is the erased sequence
/// itself, element for element.
pub proof fn lemma_unsize_preserves_sequence<T, A: Allocator>(s: Seq<T>, h: ThinBox<T, A>)
    requires
        h.is_sequence(),
        h.seq_view() == s,
    ensures
        h.seq_view().len() == s.len(),
        forall|i: int| 0 <= i < s.len() ==> h.seq_view()[i] == s[i],
{
}

/// When the descriptor's alignment is at least the value's, the value
/// offset equals the descriptor's own size, with no padding term: exactly
/// the condition under which locating the descriptor a fixed
/// descriptor-size offset in front of the value address is sound. For a
/// stricter value alignment the two differ, which is why this library
/// recomputes the true offset instead.
pub proof fn lemma_offset_is_meta_size<T>(m: Metadata)
    requires
        value_align::<T>() <= meta_align(m),
        align_of::<usize>() as usize as nat == align_of::<usize>(),
    ensures
        value_offset::<T>(m) == meta_size(m),
{
    broadcast use vstd::layout::group_align_properties;

    let va = value_align::<T>();
    let ma = meta_align(m);
    lemma_align_positive(va);
    match m {
        Metadata::Unit => {
            lemma_unit_layout_wf();
        },
        _ => {
            lemma_align_positive(align_of::<usize>() as int);
        },
    }
    lemma_pow2_divides(va, ma);
    if m is Unit {
        assert(meta_size(m) % va == 0);
    } else {
        assert(meta_size(m) % ma == 0);
        lemma_divides_transitive(meta_size(m), ma, va);
    }
}

/// The value region's size is never negative.
proof fn lemma_value_size_nonneg<T>(m: Metadata)
    ensures
        value_size::<T>(m) >= 0,
{
    match m {
        Metadata::Len(n) => {
            let s = size_of::<T>() as int;
            assert(s * n >= 0) by (nonlinear_arith)
                requires
                    s >= 0,
                    n >= 0,
            ;
        },
        _ => {},
    }
}

/// A fixed-shape combination always fits: the descriptor is empty, so the
/// combined block is exactly the value's own layout, which the language
/// guarantees representable.
proof fn lemma_fixed_always_fits<T>()
    requires
        valid_layout(size_of::<T>() as usize, align_of::<T>() as usize),
        size_of::<T>() as usize as nat == size_of::<T>(),
        align_of::<T>() as usize as nat == align_of::<T>(),
    ensures
        block_fits::<T>(Metadata::Unit),
{
    broadcast use vstd::layout::group_align_properties;

    lemma_align_positive(align_of::<T>() as int);
    assert(round_up(0, align_of::<T>() as int) == 0);
    assert(max(1, align_of::<T>() as int) == align_of::<T>() as int);
}

/// A representable combined block has a well-formed layout.
proof fn lemma_block_layout_wf<T>(m: Metadata)
    requires
        block_fits::<T>(m),
        size_of::<usize>() as usize as nat == size_of::<usize>(),
        align_of::<usize>() as usize as nat == align_of::<usize>(),
        size_of::<T>() as usize as nat == size_of::<T>(),
        align_of::<T>() as usize as nat == align_of::<T>(),
    ensures
        block_layout::<T>(m).wf(),
{
    broadcast use vstd::layout::group_align_properties;

    lemma_unit_layout_wf();
    let va = value_align::<T>();
    let ma = meta_align(m);
    lemma_align_positive(va);
    match m {
        Metadata::Unit => {},
        _ => {
            lemma_align_positive(align_of::<usize>() as int);
        },
    }
    lemma_round_up_bounds(meta_size(m), va);
    lemma_value_size_nonneg::<T>(m);
    assert(0 <= block_size::<T>(m));
    assert(block_align::<T>(m) == max(ma, va));
    assert(is_pow2(max(ma, va)));
}

/// The stored address — block address plus value offset — is aligned for
/// the value region: the block is aligned to the combined alignment, of
/// which the value's alignment is a divisor, and the offset is a multiple of
/// the value's alignment by construction.
proof fn lemma_value_region_aligned<T>(m: Metadata, base: int)
    requires
        base >= 0,
        base % block_align::<T>(m) == 0,
        align_of::<T>() as usize as nat == align_of::<T>(),
        align_of::<usize>() as usize as nat == align_of::<usize>(),
    ensures
        (base + value_offset::<T>(m)) % value_align::<T>() == 0,
{
    broadcast use vstd::layout::group_align_properties;

    let va = value_align::<T>();
    let ma = meta_align(m);
    let ba = block_align::<T>(m);
    lemma_align_positive(va);
    match m {
        Metadata::Unit => {
            lemma_unit_layout_wf();
        },
        _ => {
            lemma_align_positive(align_of::<usize>() as int);
        },
    }
    assert(is_pow2(ma));
    assert(is_pow2(va));
    if va <= ma {
        assert(ba == ma);
        lemma_pow2_divides(va, ba);
        lemma_divides_transitive(base, ba, va);
    } else {
        assert(ba == va);
    }
    assert(base % va == 0);
    lemma_round_up_bounds(meta_size(m), va);
    let off = value_offset::<T>(m);
    assert(off % va == 0);
    assert(0int % va == 0) by (nonlinear_arith)
        requires
            va >= 1,
    ;
    lemma_add_mod_noop(base, off, va);
}

} // verus!
