//! The allocation capability the handle consumes, and a bookkeeping
//! implementation of it.
//!
//! [`Allocator`] is the abstract interface: a request for a well-formed
//! layout either yields a fresh, aligned, non-null address or an
//! [`AllocError`], and every outstanding block can later be returned exactly
//! once, with exactly the layout it was allocated with. [`CountingAllocator`]
//! implements the capability by bumping a cursor through an address space it
//! never reuses, recording each block so the net number of outstanding blocks
//! is observable.

use crate::layout::{lemma_align_positive, round_up, Layout};
use vstd::arithmetic::power::{lemma_pow_increases, lemma_pow_positive, lemma_pow_strictly_increases_converse, pow};
use vstd::arithmetic::power2::{is_pow2, is_pow2_equiv, is_pow2_exists, lemma_pow2, pow2};
use vstd::layout::{signed_int_min_max_values, unsigned_int_max_values};
use vstd::prelude::*;

verus! {

/// An allocation request could not be satisfied: the combined layout was not
/// representable, or the memory was exhausted.
#[derive(Clone, Copy, PartialEq, Eq, Structural, Debug)]
pub struct AllocError;

/// The allocation capability: hand out blocks for well-formed layouts and
/// take them back.
///
/// A successful allocation yields a non-null address, aligned to the request
/// and distinct from every block still outstanding; deallocation demands the
/// exact layout the block was allocated with — the single most
/// safety-critical obligation this interface imposes on its callers.
pub trait Allocator: Sized {
    /// Well-formedness of the allocator's own bookkeeping; constructors
    /// establish it and both operations preserve it.
    spec fn wf(&self) -> bool;

    /// Whether a block at `addr` is currently outstanding.
    spec fn is_live(&self, addr: usize) -> bool;

    /// The layout a live block was allocated with.
    spec fn layout_at(&self, addr: usize) -> Layout;

    /// The net number of outstanding blocks.
    spec fn live_blocks(&self) -> int;

    /// Whether a request for layout `l` will be satisfied in this state.
    spec fn can_allocate(&self, l: Layout) -> bool;

    /// Request a block of layout `l`.
    fn allocate(&mut self, l: Layout) -> (r: Result<usize, AllocError>)
        requires
            old(self).wf(),
            l.wf(),
        ensures
            final(self).wf(),
            r is Ok <==> old(self).can_allocate(l),
            r matches Ok(addr) ==> {
                &&& addr != 0
                &&& addr as int % l.align as int == 0
                &&& addr as int + l.size as int <= usize::MAX as int
                &&& !old(self).is_live(addr)
                &&& final(self).is_live(addr)
                &&& final(self).layout_at(addr) == l
                &&& final(self).live_blocks() == old(self).live_blocks() + 1
                &&& forall|a: usize| a != addr ==> final(self).is_live(a) == old(self).is_live(a)
                &&& forall|a: usize|
                    a != addr && old(self).is_live(a) ==> final(self).layout_at(a) == old(
                        self,
                    ).layout_at(a)
            },
            r is Err ==> *final(self) == *old(self),
    ;

    /// Return the block at `addr`, which must be outstanding and must have
    /// been allocated with exactly the layout `l`.
    fn deallocate(&mut self, addr: usize, l: Layout)
        requires
            old(self).wf(),
            old(self).is_live(addr),
            old(self).layout_at(addr) == l,
        ensures
            final(self).wf(),
            !final(self).is_live(addr),
            final(self).live_blocks() == old(self).live_blocks() - 1,
            forall|a: usize| a != addr ==> final(self).is_live(a) == old(self).is_live(a),
            forall|a: usize|
                a != addr && old(self).is_live(a) ==> final(self).layout_at(a) == old(
                    self,
                ).layout_at(a),
    ;
}

/// One allocation recorded by [`CountingAllocator`]. Blocks are never
/// forgotten; a returned block is merely marked dead.
#[derive(Clone, Copy, Debug)]
struct Block {
    addr: usize,
    layout: Layout,
    live: bool,
}

/// The span of addresses a block occupies in the cursor's address space: at
/// least one, so that every block has an address of its own.
spec fn reserved(size: int) -> int {
    if size == 0 {
        1
    } else {
        size
    }
}

/// Whether some recorded block at `addr` is still live.
spec fn seq_is_live(s: Seq<Block>, addr: usize) -> bool
    decreases s.len(),
{
    s.len() > 0 && {
        let last = s[s.len() - 1];
        (last.live && last.addr == addr) || seq_is_live(s.drop_last(), addr)
    }
}

/// The layout of the live block at `addr`, if any.
spec fn seq_layout_at(s: Seq<Block>, addr: usize) -> Layout
    decreases s.len(),
{
    if s.len() == 0 {
        Layout { size: 0, align: 1 }
    } else {
        let last = s[s.len() - 1];
        if last.live && last.addr == addr {
            last.layout
        } else {
            seq_layout_at(s.drop_last(), addr)
        }
    }
}

/// How many recorded blocks are live.
spec fn seq_live_count(s: Seq<Block>) -> int
    decreases s.len(),
{
    if s.len() == 0 {
        0
    } else {
        seq_live_count(s.drop_last()) + if s[s.len() - 1].live {
            1int
        } else {
            0int
        }
    }
}

/// A bookkeeping allocator. Addresses start at one and only grow, so every
/// block ever handed out occupies its own address range; the record of past
/// blocks makes the net outstanding count observable.
#[derive(Debug)]
pub struct CountingAllocator {
    next: usize,
    blocks: Vec<Block>,
}

impl CountingAllocator {
    /// A fresh allocator: nothing outstanding, and any well-formed layout can
    /// be satisfied.
    pub fn new() -> (r: CountingAllocator)
        ensures
            r.wf(),
            r.live_blocks() == 0,
            forall|l: Layout| #[trigger] l.wf() ==> r.can_allocate(l),
    {
        let r = CountingAllocator { next: 1, blocks: Vec::new() };
        proof {
            assert forall|l: Layout| #[trigger] l.wf() implies r.can_allocate(l) by {
                lemma_fresh_cursor_fits(l);
            }
        }
        r
    }

    /// No two outstanding blocks overlap: the address ranges they occupy,
    /// each of its block's recorded size, are disjoint.
    pub proof fn lemma_live_blocks_disjoint(&self, a1: usize, a2: usize)
        requires
            self.wf(),
            self.is_live(a1),
            self.is_live(a2),
            a1 != a2,
        ensures
            a1 as int + self.layout_at(a1).size as int <= a2 as int || a2 as int + self.layout_at(
                a2,
            ).size as int <= a1 as int,
    {
        let s = self.blocks@;
        assert forall|p: int, q: int| 0 <= p < q < s.len() implies s[p].addr != s[q].addr by {
            assert(s[p].addr as int + reserved(s[p].layout.size as int) <= s[q].addr as int);
            assert(reserved(s[p].layout.size as int) >= 1);
        }
        lemma_live_has_index(s, a1);
        lemma_live_has_index(s, a2);
        let i = choose|k: int| 0 <= k < s.len() && (#[trigger] s[k]).live && s[k].addr == a1;
        let j = choose|k: int| 0 <= k < s.len() && (#[trigger] s[k]).live && s[k].addr == a2;
        lemma_layout_at_of_index(s, i);
        lemma_layout_at_of_index(s, j);
        if i < j {
            assert(s[i].addr as int + reserved(s[i].layout.size as int) <= s[j].addr as int);
        } else {
            assert(s[j].addr as int + reserved(s[j].layout.size as int) <= s[i].addr as int);
        }
    }

    /// The net number of blocks allocated and not yet returned.
    pub fn outstanding_blocks(&self) -> (n: usize)
        ensures
            n as int == self.live_blocks(),
    {
        let mut n: usize = 0;
        let mut i: usize = 0;
        let len = self.blocks.len();
        proof {
            assert(self.blocks@.take(0) =~= Seq::<Block>::empty());
        }
        while i < len
            invariant
                0 <= i <= len,
                len == self.blocks@.len(),
                n as int == seq_live_count(self.blocks@.take(i as int)),
                n <= i,
            decreases len - i,
        {
            let ghost prefix = self.blocks@.take(i as int);
            if self.blocks[i].live {
                n = n + 1;
            }
            i = i + 1;
            proof {
                assert(self.blocks@.take(i as int).drop_last() =~= prefix);
            }
        }
        proof {
            assert(self.blocks@.take(len as int) =~= self.blocks@);
        }
        n
    }
}

impl Allocator for CountingAllocator {
    closed spec fn wf(&self) -> bool {
        &&& self.next >= 1
        &&& forall|i: int|
            0 <= i < self.blocks@.len() ==> (#[trigger] self.blocks@[i]).addr >= 1
                && self.blocks@[i].addr as int + reserved(self.blocks@[i].layout.size as int)
                <= self.next as int
        &&& forall|i: int, j: int|
            0 <= i < j < self.blocks@.len() ==> (#[trigger] self.blocks@[i]).addr as int + reserved(
                self.blocks@[i].layout.size as int,
            ) <= (#[trigger] self.blocks@[j]).addr as int
    }

    closed spec fn is_live(&self, addr: usize) -> bool {
        seq_is_live(self.blocks@, addr)
    }

    closed spec fn layout_at(&self, addr: usize) -> Layout {
        seq_layout_at(self.blocks@, addr)
    }

    closed spec fn live_blocks(&self) -> int {
        seq_live_count(self.blocks@)
    }

    closed spec fn can_allocate(&self, l: Layout) -> bool {
        round_up(self.next as int, l.align as int) + reserved(l.size as int) <= usize::MAX as int
    }

    fn allocate(&mut self, l: Layout) -> (r: Result<usize, AllocError>) {
        proof {
            lemma_align_positive(l.align as int);
            crate::layout::lemma_round_up_bounds(self.next as int, l.align as int);
        }
        let rem = self.next % l.align;
        let pad = if rem == 0 {
            0usize
        } else {
            l.align - rem
        };
        let addr = match self.next.checked_add(pad) {
            Some(a) => a,
            None => {
                return Err(AllocError);
            },
        };
        let span = if l.size == 0 {
            1usize
        } else {
            l.size
        };
        let new_next = match addr.checked_add(span) {
            Some(x) => x,
            None => {
                return Err(AllocError);
            },
        };
        let ghost old_blocks = self.blocks@;
        let block = Block { addr, layout: l, live: true };
        self.next = new_next;
        self.blocks.push(block);
        proof {
            assert(self.blocks@.drop_last() =~= old_blocks);
            lemma_push_effects(old_blocks, block);
            assert forall|i: int| 0 <= i < old_blocks.len() implies old_blocks[i].addr != addr by {
                assert(old_blocks[i].addr as int + reserved(old_blocks[i].layout.size as int)
                    <= old(self).next as int);
            }
            lemma_no_address_not_live(old_blocks, addr);
        }
        Ok(addr)
    }

    fn deallocate(&mut self, addr: usize, l: Layout) {
        let len = self.blocks.len();
        let mut i: usize = 0;
        proof {
            lemma_live_has_index(self.blocks@, addr);
        }
        while i < len
            invariant_except_break
                0 <= i <= len,
                len == self.blocks@.len(),
                *self == *old(self),
                exists|k: int|
                    i <= k < len && (#[trigger] self.blocks@[k]).live && self.blocks@[k].addr
                        == addr,
            ensures
                0 <= i < len,
                len == self.blocks@.len(),
                *self == *old(self),
                self.blocks@[i as int].live,
                self.blocks@[i as int].addr == addr,
            decreases len - i,
        {
            let b = &self.blocks[i];
            if b.live && b.addr == addr {
                break ;
            }
            i = i + 1;
        }
        let b = self.blocks[i];
        let dead = Block { addr: b.addr, layout: b.layout, live: false };
        let ghost old_blocks = self.blocks@;
        self.blocks.set(i, dead);
        proof {
            assert forall|p: int, q: int|
                0 <= p < q < old_blocks.len() implies old_blocks[p].addr != old_blocks[q].addr by {
                assert(old_blocks[p].addr as int + reserved(old_blocks[p].layout.size as int)
                    <= old_blocks[q].addr as int);
                assert(reserved(old_blocks[p].layout.size as int) >= 1);
            }
            lemma_set_dead_effects(old_blocks, i as int, dead);
        }
    }
}

/// Any well-formed layout fits at a fresh cursor: its alignment, being a
/// power of two no greater than `usize::MAX`, is at most one past
/// `isize::MAX`, and its size is within `isize::MAX`.
proof fn lemma_fresh_cursor_fits(l: Layout)
    requires
        l.wf(),
    ensures
        round_up(1, l.align as int) + reserved(l.size as int) <= usize::MAX as int,
{
    let a = l.align as int;
    lemma_align_positive(a);
    crate::layout::lemma_round_up_bounds(1, a);
    assert(round_up(1, a) <= a);
    lemma_pow2_at_most_half_usize(a);
    assert(l.size as int <= isize::MAX as int);
    assert(isize::MAX as int + 1 + isize::MAX as int <= usize::MAX as int) by {
        unsigned_int_max_values();
        signed_int_min_max_values();
        let b = usize::BITS as nat;
        assert(usize::MAX as nat == pow2(b) - 1);
        assert(isize::MAX as nat == pow2((b - 1) as nat) - 1);
        assert(pow2(b) == pow2((b - 1) as nat) * 2) by {
            lemma_pow2((b - 1) as nat);
            lemma_pow2(b);
            vstd::arithmetic::power::lemma_pow_adds(2, (b - 1) as nat, 1);
            vstd::arithmetic::power::lemma_pow1(2);
        }
    }
}

/// A power of two representable as a `usize` is at most one past
/// `isize::MAX`, i.e. at most two to the word size less one.
proof fn lemma_pow2_at_most_half_usize(a: int)
    requires
        is_pow2(a),
        a <= usize::MAX as int,
    ensures
        a <= isize::MAX as int + 1,
{
    is_pow2_equiv(a);
    assert(is_pow2_exists(a));
    let e = choose|i: nat| pow(2, i) == a;
    lemma_pow_positive(2, e);
    unsigned_int_max_values();
    signed_int_min_max_values();
    let b = usize::BITS as nat;
    assert(usize::MAX as nat == pow2(b) - 1);
    assert(isize::MAX as nat == pow2((b - 1) as nat) - 1);
    lemma_pow2(b);
    lemma_pow2((b - 1) as nat);
    assert(a < pow(2, b));
    lemma_pow_strictly_increases_converse(2, e, b);
    assert(e <= b - 1);
    lemma_pow_increases(2, e, (b - 1) as nat);
}

/// Appending a block leaves every other address's status and layout alone,
/// makes the new block live if so marked, and counts it.
proof fn lemma_push_effects(s: Seq<Block>, b: Block)
    ensures
        forall|a: usize| a != b.addr ==> seq_is_live(s.push(b), a) == seq_is_live(s, a),
        forall|a: usize| a != b.addr ==> seq_layout_at(s.push(b), a) == seq_layout_at(s, a),
        b.live ==> seq_is_live(s.push(b), b.addr) && seq_layout_at(s.push(b), b.addr) == b.layout,
        seq_live_count(s.push(b)) == seq_live_count(s) + if b.live {
            1int
        } else {
            0int
        },
{
    let s2 = s.push(b);
    assert(s2.drop_last() =~= s);
    assert(s2[s2.len() - 1] == b);
}

/// An address no recorded block carries is not live.
proof fn lemma_no_address_not_live(s: Seq<Block>, addr: usize)
    requires
        forall|i: int| 0 <= i < s.len() ==> (#[trigger] s[i]).addr != addr,
    ensures
        !seq_is_live(s, addr),
    decreases s.len(),
{
    if s.len() > 0 {
        lemma_no_address_not_live(s.drop_last(), addr);
    }
}

/// With all recorded addresses distinct, the layout reported for a live
/// block's address is the layout that block was recorded with.
proof fn lemma_layout_at_of_index(s: Seq<Block>, k: int)
    requires
        0 <= k < s.len(),
        s[k].live,
        forall|p: int, q: int| 0 <= p < q < s.len() ==> s[p].addr != s[q].addr,
    ensures
        seq_is_live(s, s[k].addr),
        seq_layout_at(s, s[k].addr) == s[k].layout,
    decreases s.len(),
{
    if k < s.len() - 1 {
        assert(s[k].addr != s[s.len() - 1].addr);
        assert(s.drop_last()[k] == s[k]);
        lemma_layout_at_of_index(s.drop_last(), k);
    }
}

/// A live address is carried by some recorded live block.
proof fn lemma_live_has_index(s: Seq<Block>, addr: usize)
    requires
        seq_is_live(s, addr),
    ensures
        exists|k: int| 0 <= k < s.len() && (#[trigger] s[k]).live && s[k].addr == addr,
    decreases s.len(),
{
    let last = s[s.len() - 1];
    if last.live && last.addr == addr {
    } else {
        lemma_live_has_index(s.drop_last(), addr);
        let k = choose|k: int|
            0 <= k < s.drop_last().len() && (#[trigger] s.drop_last()[k]).live
                && s.drop_last()[k].addr == addr;
        assert(s[k].live && s[k].addr == addr);
    }
}

/// Marking the one live block at an address dead removes exactly that
/// address, lowers the live count by one, and leaves every other address's
/// status and layout alone. Requires all recorded addresses distinct.
proof fn lemma_set_dead_effects(s: Seq<Block>, i: int, dead: Block)
    requires
        0 <= i < s.len(),
        s[i].live,
        !dead.live,
        dead.addr == s[i].addr,
        forall|p: int, q: int| 0 <= p < q < s.len() ==> s[p].addr != s[q].addr,
    ensures
        !seq_is_live(s.update(i, dead), s[i].addr),
        seq_live_count(s.update(i, dead)) == seq_live_count(s) - 1,
        forall|a: usize| a != s[i].addr ==> seq_is_live(s.update(i, dead), a) == seq_is_live(s, a),
        forall|a: usize|
            a != s[i].addr ==> seq_layout_at(s.update(i, dead), a) == seq_layout_at(s, a),
    decreases s.len(),
{
    let s2 = s.update(i, dead);
    let addr = s[i].addr;
    if i == s.len() - 1 {
        assert(s2.drop_last() =~= s.drop_last());
        assert(s2[s2.len() - 1] == dead);
        assert forall|k: int| 0 <= k < s.drop_last().len() implies (#[trigger] s.drop_last()[k]).addr
            != addr by {
            assert(s[k].addr != s[i].addr);
        }
        lemma_no_address_not_live(s.drop_last(), addr);
        assert forall|a: usize| a != addr implies seq_is_live(s2, a) == seq_is_live(s, a) by {
            assert(seq_is_live(s2, a) == seq_is_live(s2.drop_last(), a));
            assert(seq_is_live(s, a) == seq_is_live(s.drop_last(), a));
        }
        assert forall|a: usize| a != addr implies seq_layout_at(s2, a) == seq_layout_at(s, a) by {
            assert(seq_layout_at(s2, a) == seq_layout_at(s2.drop_last(), a));
            assert(seq_layout_at(s, a) == seq_layout_at(s.drop_last(), a));
        }
    } else {
        assert(s2.drop_last() =~= s.drop_last().update(i, dead));
        assert(s2[s2.len() - 1] == s[s.len() - 1]);
        assert(s.drop_last()[i] == s[i]);
        lemma_set_dead_effects(s.drop_last(), i, dead);
        assert(s[s.len() - 1].addr != addr);
        assert forall|a: usize| a != addr implies seq_is_live(s2, a) == seq_is_live(s, a) by {
            assert(seq_is_live(s2.drop_last(), a) == seq_is_live(s.drop_last(), a));
        }
        assert forall|a: usize| a != addr implies seq_layout_at(s2, a) == seq_layout_at(s, a) by {
            assert(seq_layout_at(s2.drop_last(), a) == seq_layout_at(s.drop_last(), a));
        }
    }
}

} // verus!
