//! Work-group sizing for the per-frame compute dispatch.
//!
//! The compute program runs in groups of a fixed local size; to cover a
//! `width x height` image the scheduler must dispatch `ceil(width / l)`
//! groups along X and `ceil(height / l)` along Y, one layer along Z.  A
//! mismatch under- or over-covers the image silently, so the sizing and its
//! coverage properties are proved here.

use vstd::arithmetic::div_mod::{
    lemma_fundamental_div_mod, lemma_fundamental_div_mod_converse,
};
use vstd::prelude::*;

verus! {

/// Number of work groups needed along one axis: the least `n` with
/// `n * local_size >= extent`.
pub open spec fn ceil_div(extent: nat, local_size: nat) -> nat
    recommends
        local_size >= 1,
{
    (((extent + local_size - 1) as int) / (local_size as int)) as nat
}

/// Work-group counts for one dispatch, one per axis.
#[derive(Clone, Copy, PartialEq, Eq, Structural, Debug)]
pub struct DispatchDims {
    pub x: u32,
    pub y: u32,
    pub z: u32,
}

/// `(extent + local_size - 1) / local_size` equals the usual
/// divide-then-round-up computation `extent / local_size`, plus one when the
/// division has a remainder.
proof fn lemma_ceil_div_split(extent: nat, local_size: nat)
    requires
        local_size >= 1,
    ensures
        extent % local_size != 0 ==> ceil_div(extent, local_size) == extent / local_size + 1,
        extent % local_size == 0 ==> ceil_div(extent, local_size) == extent / local_size,
{
    let l = local_size as int;
    let e = extent as int;
    let q = e / l;
    let r = e % l;
    lemma_fundamental_div_mod(e, l);
    if r != 0 {
        assert(e + l - 1 == l * (q + 1) + (r - 1)) by (nonlinear_arith)
            requires
                e == l * q + r,
        ;
        lemma_fundamental_div_mod_converse(e + l - 1, l, q + 1, r - 1);
    } else {
        assert(e + l - 1 == l * q + (l - 1)) by (nonlinear_arith)
            requires
                e == l * q + r,
                r == 0,
        ;
        lemma_fundamental_div_mod_converse(e + l - 1, l, q, l - 1);
    }
}

/// Compute the dispatch size that covers a `width x height` image with
/// groups of `local_size x local_size x 1` invocations.
pub fn dispatch_dims(width: u32, height: u32, local_size: u32) -> (d: DispatchDims)
    requires
        local_size >= 1,
    ensures
        d.x == ceil_div(width as nat, local_size as nat),
        d.y == ceil_div(height as nat, local_size as nat),
        d.z == 1,
{
    proof {
        lemma_ceil_div_split(width as nat, local_size as nat);
        lemma_ceil_div_split(height as nat, local_size as nat);
    }
    let x = ceil_div_exec(width, local_size);
    let y = ceil_div_exec(height, local_size);
    DispatchDims { x, y, z: 1 }
}

/// Round an extent up to a whole number of groups.
fn ceil_div_exec(extent: u32, local_size: u32) -> (n: u32)
    requires
        local_size >= 1,
    ensures
        n == ceil_div(extent as nat, local_size as nat),
{
    proof {
        lemma_ceil_div_split(extent as nat, local_size as nat);
    }
    let q = extent / local_size;
    let r = extent % local_size;
    if r != 0 {
        proof {
            lemma_fundamental_div_mod(extent as int, local_size as int);
            assert(local_size >= 2) by {
                if local_size == 1 {
                    assert(extent as int % 1int == 0);
                }
            };
            assert((extent as int) / (local_size as int) < u32::MAX) by (nonlinear_arith)
                requires
                    local_size >= 2,
                    extent <= u32::MAX,
            ;
        }
        q + 1
    } else {
        q
    }
}

/// Every pixel of the image is covered by exactly one invocation of the
/// dispatch: the group `(px / l, py / l)` lies inside the dispatch grid, its
/// invocation `(px % l, py % l)` lands on the pixel, and no other
/// group/invocation pair does.
pub proof fn lemma_dispatch_covers_pixel(w: nat, h: nat, l: nat, px: nat, py: nat)
    requires
        l >= 1,
        px < w,
        py < h,
    ensures
        px / l < ceil_div(w, l),
        py / l < ceil_div(h, l),
        px % l < l,
        py % l < l,
        px == (px / l) * l + px % l,
        py == (py / l) * l + py % l,
        forall|g: nat, t: nat| t < l && px == #[trigger] (g * l + t) ==> g == px / l && t == px % l,
        forall|g: nat, t: nat| t < l && py == #[trigger] (g * l + t) ==> g == py / l && t == py % l,
{
    lemma_axis_covers(w, l, px);
    lemma_axis_covers(h, l, py);
}

/// One-axis version of the coverage argument.
proof fn lemma_axis_covers(w: nat, l: nat, p: nat)
    requires
        l >= 1,
        p < w,
    ensures
        p / l < ceil_div(w, l),
        p % l < l,
        p == (p / l) * l + p % l,
        forall|g: nat, t: nat| t < l && p == #[trigger] (g * l + t) ==> g == p / l && t == p % l,
{
    let pi = p as int;
    let li = l as int;
    let wi = w as int;
    let ci = ceil_div(w, l) as int;
    lemma_fundamental_div_mod(pi, li);
    lemma_fundamental_div_mod(wi + li - 1, li);
    assert(p == (p / l) * l + p % l) by (nonlinear_arith)
        requires
            pi == li * (pi / li) + pi % li,
            p / l == pi / li,
            p % l == pi % li,
            p == pi,
            l == li,
    ;
    assert(p / l < ceil_div(w, l)) by (nonlinear_arith)
        requires
            li >= 1,
            pi < wi,
            pi == (pi / li) * li + pi % li,
            0 <= pi % li < li,
            ci == (wi + li - 1) / li,
            wi + li - 1 == li * ((wi + li - 1) / li) + (wi + li - 1) % li,
            0 <= (wi + li - 1) % li < li,
            p / l == pi / li,
            ceil_div(w, l) == ci,
    ;
    assert forall|g: nat, t: nat| t < l && p == #[trigger] (g * l + t) implies g == p / l && t == p % l by {
        lemma_fundamental_div_mod_converse(p as int, l as int, g as int, t as int);
    }
}

/// When the extents are exact multiples of the local size, the dispatch
/// wastes nothing: every invocation of every group lands inside the image,
/// so each pixel is written by exactly one invocation and no invocation
/// writes outside the image.
pub proof fn lemma_dispatch_exact(w: nat, h: nat, l: nat)
    requires
        l >= 1,
        w % l == 0,
        h % l == 0,
    ensures
        ceil_div(w, l) * l == w,
        ceil_div(h, l) * l == h,
        forall|g: nat, t: nat| g < ceil_div(w, l) && t < l ==> #[trigger] (g * l + t) < w,
        forall|g: nat, t: nat| g < ceil_div(h, l) && t < l ==> #[trigger] (g * l + t) < h,
{
    lemma_axis_exact(w, l);
    lemma_axis_exact(h, l);
}

/// One-axis version of the exact-cover argument.
proof fn lemma_axis_exact(w: nat, l: nat)
    requires
        l >= 1,
        w % l == 0,
    ensures
        ceil_div(w, l) * l == w,
        forall|g: nat, t: nat| g < ceil_div(w, l) && t < l ==> #[trigger] (g * l + t) < w,
{
    let wi = w as int;
    let li = l as int;
    lemma_ceil_div_split(w, l);
    lemma_fundamental_div_mod(wi, li);
    assert(ceil_div(w, l) * l == w) by (nonlinear_arith)
        requires
            wi == li * (wi / li) + wi % li,
            wi % li == 0,
            ceil_div(w, l) == w / l,
            w / l == wi / li,
            w == wi,
            l == li,
    ;
    assert forall|g: nat, t: nat| g < ceil_div(w, l) && t < l implies #[trigger] (g * l + t) < w by {
        assert(g * l + t < ceil_div(w, l) * l) by (nonlinear_arith)
            requires
                g < ceil_div(w, l),
                t < l,
        ;
    }
}

} // verus!
