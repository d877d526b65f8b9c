use vstd::prelude::*;
use vstd::arithmetic::div_mod::{lemma_div_is_ordered, lemma_div_multiples_vanish};
use crate::base::{Length, U32_MAX};
use crate::flex::{AlignItem, JustifyContent};

verus! {

/// Sum of the first `k` extents.
pub open spec fn prefix_sum(s: Seq<u32>, k: int) -> int
    decreases k,
{
    if k <= 0 {
        0
    } else {
        prefix_sum(s, k - 1) + s[k - 1]
    }
}

/// The share of the free space that lies before child `k` of `n`, as `(numerator, denominator)`.
pub open spec fn free_share(jc: JustifyContent, n: int, k: int) -> (int, int) {
    match jc {
        JustifyContent::FlexStart => (0, 1),
        JustifyContent::FlexEnd => (1, 1),
        JustifyContent::Center => (1, 2),
        JustifyContent::SpaceBetween => if n > 1 {
            (k, n - 1)
        } else {
            (1, 2)
        },
        JustifyContent::SpaceAround => (2 * k + 1, 2 * n),
        JustifyContent::SpaceEvenly => (k + 1, n + 1),
    }
}

/// `v` held to the range of `u32`.
pub open spec fn clamp_u32(v: int) -> u32 {
    if v < 0 {
        0
    } else if v > u32::MAX {
        u32::MAX
    } else {
        v as u32
    }
}

/// Offset of child `k` on the main axis: the extents before it plus its share of the
/// free space, rounded down and held to the range of `u32`.
pub open spec fn main_offset(free: int, s: Seq<u32>, k: int, jc: JustifyContent) -> u32 {
    let (num, den) = free_share(jc, s.len() as int, k);
    clamp_u32((prefix_sum(s, k) * den + num * free) / den)
}

/// Offset of a child on a cross axis.
pub open spec fn cross_offset(container: Length, child: Length, a: AlignItem) -> Length {
    let room: int = if container.0 >= child.0 {
        container.0 - child.0
    } else {
        0
    };
    match a {
        AlignItem::FlexStart => Length(0),
        AlignItem::FlexEnd => Length(room as u32),
        AlignItem::Center => Length((room / 2) as u32),
    }
}

/// Offset of a child on a cross axis of its container.
pub fn align_offset(container: Length, child: Length, a: AlignItem) -> (r: Length)
    ensures
        r == cross_offset(container, child, a),
{
    let room = container.minus(child);
    match a {
        AlignItem::FlexStart => Length(0),
        AlignItem::FlexEnd => room,
        AlignItem::Center => Length(room.0 / 2),
    }
}

proof fn lemma_share_bounds(jc: JustifyContent, n: int, k: int)
    requires
        0 <= k < n,
    ensures
        0 <= free_share(jc, n, k).0 <= free_share(jc, n, k).1,
        1 <= free_share(jc, n, k).1 <= 2 * n + 2,
{
}

proof fn lemma_prefix_monotone(s: Seq<u32>, k: int)
    requires
        0 <= k,
    ensures
        prefix_sum(s, k) >= 0,
    decreases k,
{
    if k > 0 {
        lemma_prefix_monotone(s, k - 1);
    }
}

/// Capping the extents before a child at twice `u32::MAX` leaves its offset unchanged.
proof fn lemma_cap(p: int, num: int, den: int, free: int)
    requires
        p > 2 * 4294967295,
        0 <= num <= den,
        den >= 1,
        -4294967295 <= free <= 4294967295,
    ensures
        clamp_u32((p * den + num * free) / den) == u32::MAX,
        clamp_u32((2 * 4294967295 * den + num * free) / den) == u32::MAX,
{
    let m: int = 4294967295;
    assert(num * free >= -(den * m)) by (nonlinear_arith)
        requires
            0 <= num <= den,
            -m <= free,
            m == 4294967295,
    ;
    assert(p * den >= 2 * m * den) by (nonlinear_arith)
        requires
            p > 2 * m,
            den >= 1,
    ;
    let lo = m * den;
    assert(2 * m * den == 2 * (m * den)) by (nonlinear_arith);
    assert(lo <= 2 * m * den + num * free);
    lemma_div_is_ordered(lo, 2 * m * den + num * free, den);
    lemma_div_is_ordered(lo, p * den + num * free, den);
    lemma_div_multiples_vanish(m, den);
    assert(lo == den * m) by (nonlinear_arith)
        requires
            lo == m * den,
    ;
}

/// With `space-between`, a single child is centred: its offset is half the free space,
/// rounded down.
pub proof fn lemma_single_child_centred(free: int, s: Seq<u32>)
    requires
        s.len() == 1,
        0 <= free <= u32::MAX,
    ensures
        main_offset(free, s, 0, JustifyContent::SpaceBetween) == free / 2,
{
    assert(prefix_sum(s, 0) == 0);
    assert(free_share(JustifyContent::SpaceBetween, 1, 0) == (1int, 2int));
    assert(prefix_sum(s, 0) * 2 + 1 * free == free);
    assert(0 <= free / 2 <= free) by (nonlinear_arith)
        requires
            0 <= free,
    ;
    assert(clamp_u32(free / 2) == free / 2);
}

/// Offsets on the main axis of children with main-axis extents `sizes`, given the free space.
pub fn calculate_positions_on_axis(free: i64, sizes: &Vec<u32>, jc: JustifyContent) -> (r: Vec<
    u32,
>)
    requires
        -U32_MAX <= free <= U32_MAX,
    ensures
        r@.len() == sizes@.len(),
        forall|k: int| 0 <= k < sizes@.len() ==> #[trigger] r@[k] == main_offset(free as int, sizes@, k, jc),
{
    let n = sizes.len();
    let mut r: Vec<u32> = Vec::new();
    // the extents before child `k`, capped at twice `u32::MAX`
    let mut before: u64 = 0;
    let mut k: usize = 0;
    while k < n
        invariant
            n == sizes@.len(),
            -U32_MAX <= free <= U32_MAX,
            k <= n,
            r@.len() == k,
            before <= 2 * U32_MAX,
            before == if prefix_sum(sizes@, k as int) > 2 * U32_MAX {
                2 * U32_MAX
            } else {
                prefix_sum(sizes@, k as int)
            },
            forall|j: int| 0 <= j < k ==> #[trigger] r@[j] == main_offset(free as int, sizes@, j, jc),
        decreases n - k,
    {
        let (num, den): (i128, i128) = match jc {
            JustifyContent::FlexStart => (0, 1),
            JustifyContent::FlexEnd => (1, 1),
            JustifyContent::Center => (1, 2),
            JustifyContent::SpaceBetween => if n > 1 {
                (k as i128, n as i128 - 1)
            } else {
                (1, 2)
            },
            JustifyContent::SpaceAround => (2 * k as i128 + 1, 2 * n as i128),
            JustifyContent::SpaceEvenly => (k as i128 + 1, n as i128 + 1),
        };
        proof {
            lemma_share_bounds(jc, n as int, k as int);
            lemma_prefix_monotone(sizes@, k as int);
        }
        assert(free_share(jc, n as int, k as int) == (num as int, den as int));
        assert((before as int) * (den as int) <= 2 * U32_MAX * (2 * n + 2)) by (nonlinear_arith)
            requires
                0 <= before <= 2 * U32_MAX,
                1 <= den <= 2 * n + 2,
        ;
        assert((num as int) * (free as int) <= (2 * n + 2) * U32_MAX) by (nonlinear_arith)
            requires
                0 <= num <= den,
                den <= 2 * n + 2,
                -U32_MAX <= free <= U32_MAX,
        ;
        assert((num as int) * (free as int) >= -((2 * n + 2) * U32_MAX)) by (nonlinear_arith)
            requires
                0 <= num <= den,
                den <= 2 * n + 2,
                -U32_MAX <= free <= U32_MAX,
        ;
        assert(n <= usize::MAX);
        assert((before as int) * (den as int) <= 0x10000000000000000000000000) by (nonlinear_arith)
            requires
                (before as int) * (den as int) <= 2 * U32_MAX * (2 * n + 2),
                n <= 0xffffffffffffffff,
        ;
        assert((num as int) * (free as int) <= 0x10000000000000000000000000) by (nonlinear_arith)
            requires
                (num as int) * (free as int) <= (2 * n + 2) * U32_MAX,
                n <= 0xffffffffffffffff,
        ;
        assert((num as int) * (free as int) >= -0x10000000000000000000000000) by (nonlinear_arith)
            requires
                (num as int) * (free as int) >= -((2 * n + 2) * U32_MAX),
                n <= 0xffffffffffffffff,
        ;
        let a: i128 = (before as i128) * den;
        let b: i128 = num * (free as i128);
        let top: i128 = a + b;
        let pos: u32 = if top < 0 {
            0
        } else {
            let q = top / den;
            if q > U32_MAX as i128 {
                u32::MAX
            } else {
                q as u32
            }
        };
        proof {
            let p = prefix_sum(sizes@, k as int);
            if p > 2 * U32_MAX {
                lemma_cap(p, num as int, den as int, free as int);
            }
            if top < 0 {
                assert((top as int) / (den as int) < 0) by (nonlinear_arith)
                    requires
                        top < 0,
                        den >= 1,
                ;
            } else {
                assert((top as int) / (den as int) >= 0) by (nonlinear_arith)
                    requires
                        top >= 0,
                        den >= 1,
                ;
            }
        }
        r.push(pos);
        let size = sizes[k] as u64;
        assert(prefix_sum(sizes@, k as int + 1) == prefix_sum(sizes@, k as int) + sizes@[k as int]);
        before = if before + size > 2 * U32_MAX {
            2 * U32_MAX
        } else {
            before + size
        };
        k = k + 1;
    }
    r
}

} // verus!
