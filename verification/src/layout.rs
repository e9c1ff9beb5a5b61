//! The layout calculator: sizes, alignments, and the arithmetic that places a
//! descriptor and a value together in one combined block.
//!
//! A combined block is laid out as `[descriptor bytes][padding][value bytes]`.
//! [`Layout::extend`] computes the block's total layout and the byte offset of
//! the value region; [`Layout::repeat`] computes the layout of a sequence of
//! equally laid out elements. Both fail, rather than wrap, when the combined
//! size would exceed the largest size an allocation may have.

use vstd::arithmetic::div_mod::{
    lemma_fundamental_div_mod, lemma_mod_add_multiples_vanish, lemma_mod_division_less_than_divisor,
    lemma_mod_multiples_basic,
};
use vstd::arithmetic::power::{lemma_pow_adds, lemma_pow_positive, lemma_pow_strictly_increases, pow};
use vstd::arithmetic::power2::{is_pow2, is_pow2_equiv, is_pow2_exists};
use vstd::layout::valid_layout;
use vstd::math::max;
use vstd::prelude::*;

verus! {

/// Size and alignment of a region of memory, as handed to an allocator.
///
/// A layout is well formed when its alignment is a power of two and its size
/// does not exceed [`size_cap`] for that alignment, mirroring the conditions
/// every allocation request must satisfy.
#[derive(Clone, Copy, PartialEq, Eq, Structural, Debug)]
pub struct Layout {
    pub size: usize,
    pub align: usize,
}

/// The largest size a well-formed layout of alignment `align` may have:
/// rounding such a size up to the alignment still fits the address space's
/// signed limit.
pub open spec fn size_cap(align: int) -> int {
    isize::MAX as int - (isize::MAX as int % align)
}

/// `x` rounded up to the next multiple of `a`.
pub open spec fn round_up(x: int, a: int) -> int
    recommends
        x >= 0,
        a >= 1,
{
    if x % a == 0 {
        x
    } else {
        x + a - x % a
    }
}

impl Layout {
    /// Well-formedness: alignment is a power of two and the size is within
    /// the cap for that alignment.
    pub open spec fn wf(self) -> bool {
        valid_layout(self.size, self.align)
    }

    /// The byte offset of the second region when `next` is placed after
    /// `self` in one block: `self`'s size rounded up to `next`'s alignment.
    pub open spec fn extend_offset(self, next: Layout) -> int {
        round_up(self.size as int, next.align as int)
    }

    /// The alignment of the combined block: the stricter of the two.
    pub open spec fn extend_align(self, next: Layout) -> int {
        max(self.align as int, next.align as int)
    }

    /// The total size of the combined block.
    pub open spec fn extend_size(self, next: Layout) -> int {
        self.extend_offset(next) + next.size as int
    }

    /// Whether the combined block fits under the cap for its alignment.
    pub open spec fn extend_ok(self, next: Layout) -> bool {
        self.extend_size(next) <= size_cap(self.extend_align(next))
    }

    /// The combined layout, meaningful when `extend_ok` holds.
    pub open spec fn extend_layout(self, next: Layout) -> Layout {
        Layout { size: self.extend_size(next) as usize, align: self.extend_align(next) as usize }
    }

    /// Whether `n` elements of layout `self` fit under the cap.
    pub open spec fn repeat_ok(self, n: int) -> bool {
        self.size as int * n <= size_cap(self.align as int)
    }

    /// Place a region of layout `next` after a region of layout `self` in
    /// one block: the combined layout and the byte offset at which the second
    /// region begins. Fails exactly when the combined size exceeds the cap
    /// for the combined alignment.
    pub fn extend(self, next: Layout) -> (r: Option<(Layout, usize)>)
        requires
            self.wf(),
            next.wf(),
        ensures
            r matches Some(p) ==> p.0 == self.extend_layout(next) && p.1 as int
                == self.extend_offset(next) && p.0.wf(),
            r is Some <==> self.extend_ok(next),
    {
        proof {
            lemma_align_positive(self.align as int);
            lemma_align_positive(next.align as int);
            lemma_round_up_bounds(self.size as int, next.align as int);
        }
        let align = if self.align >= next.align {
            self.align
        } else {
            next.align
        };
        let rem = self.size % next.align;
        let pad = if rem == 0 {
            0usize
        } else {
            next.align - rem
        };
        let offset = match self.size.checked_add(pad) {
            Some(o) => o,
            None => {
                return None;
            },
        };
        let total = match offset.checked_add(next.size) {
            Some(t) => t,
            None => {
                return None;
            },
        };
        let cap = (isize::MAX as usize) - ((isize::MAX as usize) % align);
        if total <= cap {
            Some((Layout { size: total, align }, offset))
        } else {
            None
        }
    }

    /// The layout of `n` consecutive elements of layout `self`, whose size
    /// must be a multiple of its alignment so that elements tile without
    /// padding. Fails exactly when the total size exceeds the cap.
    pub fn repeat(self, n: usize) -> (r: Option<Layout>)
        requires
            self.wf(),
            self.size as int % self.align as int == 0,
        ensures
            r matches Some(l) ==> l.size as int == self.size as int * n as int && l.align
                == self.align && l.wf(),
            r is Some <==> self.repeat_ok(n as int),
    {
        proof {
            lemma_align_positive(self.align as int);
        }
        let total = match self.size.checked_mul(n) {
            Some(t) => t,
            None => {
                return None;
            },
        };
        let cap = (isize::MAX as usize) - ((isize::MAX as usize) % self.align);
        if total <= cap {
            Some(Layout { size: total, align: self.align })
        } else {
            None
        }
    }
}

/// A power of two is at least one.
pub proof fn lemma_align_positive(a: int)
    requires
        is_pow2(a),
    ensures
        a >= 1,
{
    is_pow2_equiv(a);
    assert(is_pow2_exists(a));
    let e = choose|i: nat| pow(2, i) == a;
    lemma_pow_positive(2, e);
}

/// Rounding up stays within one alignment of the argument and lands on a
/// multiple of the alignment.
pub proof fn lemma_round_up_bounds(x: int, a: int)
    requires
        x >= 0,
        a >= 1,
    ensures
        x <= round_up(x, a) <= x + a - 1,
        round_up(x, a) % a == 0,
{
    lemma_mod_division_less_than_divisor(x, a);
    if x % a != 0 {
        lemma_fundamental_div_mod(x, a);
        lemma_mod_multiples_basic(x / a, a);
        assert(a * (x / a) == (x / a) * a) by (nonlinear_arith);
        assert(x + a - x % a == a + (x / a) * a);
        lemma_mod_add_multiples_vanish((x / a) * a, a);
    }
}

/// A multiple of a multiple of `b` is a multiple of `b`.
pub proof fn lemma_divides_transitive(x: int, a: int, b: int)
    requires
        a >= 1,
        b >= 1,
        x % a == 0,
        a % b == 0,
    ensures
        x % b == 0,
{
    lemma_fundamental_div_mod(x, a);
    lemma_fundamental_div_mod(a, b);
    let q = x / a;
    let p = a / b;
    assert(x == (p * q) * b) by (nonlinear_arith)
        requires
            x == a * q + x % a,
            a == b * p + a % b,
            x % a == 0,
            a % b == 0,
    ;
    lemma_mod_multiples_basic(p * q, b);
}

/// The larger of two powers of two is a multiple of the smaller.
pub proof fn lemma_pow2_divides(a: int, b: int)
    requires
        is_pow2(a),
        is_pow2(b),
        a <= b,
    ensures
        b % a == 0,
{
    is_pow2_equiv(a);
    is_pow2_equiv(b);
    assert(is_pow2_exists(a));
    assert(is_pow2_exists(b));
    let i = choose|e: nat| pow(2, e) == a;
    let j = choose|e: nat| pow(2, e) == b;
    if i <= j {
        lemma_pow_adds(2, (j - i) as nat, i);
        assert(b == pow(2, (j - i) as nat) * a);
        lemma_pow_positive(2, (j - i) as nat);
        lemma_pow_positive(2, i);
        lemma_mod_multiples_basic(pow(2, (j - i) as nat), a);
    } else {
        lemma_pow_strictly_increases(2, j, i);
    }
}

/// The offset computed by [`Layout::extend`] equals the first layout's own
/// size exactly when that size is already a multiple of the second layout's
/// alignment — in particular whenever the first (descriptor) layout's
/// alignment is at least the second's. Locating a value region relative to
/// the block start by the descriptor's size alone is sound precisely under
/// this condition.
pub proof fn lemma_offset_is_descriptor_size(d: Layout, v: Layout)
    requires
        d.wf(),
        v.wf(),
        v.align <= d.align,
        d.size as int % d.align as int == 0,
    ensures
        d.extend_offset(v) == d.size as int,
{
    lemma_align_positive(d.align as int);
    lemma_align_positive(v.align as int);
    lemma_pow2_divides(v.align as int, d.align as int);
    lemma_divides_transitive(d.size as int, d.align as int, v.align as int);
}

} // verus!
