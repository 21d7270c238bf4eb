//! Dispatch sizes of the GPU compute passes (culling, Hi-Z, ray tracing).
use vstd::prelude::*;

verus! {

/// Invocations per workgroup of the culling shaders.
pub const WORKGROUP_SIZE: u32 = 64;

/// Workgroups of `group` invocations needed to cover `n` items: `n / group`
/// rounded up.
pub fn groups_for(n: u32, group: u32) -> (r: u32)
    requires
        group > 0,
        n + group - 1 <= u32::MAX,
    ensures
        r == (n + group - 1) / (group as int),
        r * group >= n,
        r * group < n + group,
{
    let r = (n + (group - 1)) / group;
    assert(r * group >= n && r * group < n + group) by (nonlinear_arith)
        requires
            r == (n + group - 1) / (group as int),
            group > 0,
    ;
    r
}

/// Workgroups of the culling passes (64 invocations each) for `n` items.
pub fn workgroup_count(n: u32) -> (r: u32)
    requires
        n + 63 <= u32::MAX,
    ensures
        r == (n + 63) / 64,
        r * 64 >= n,
        r * 64 < n + 64,
{
    groups_for(n, WORKGROUP_SIZE)
}

/// Size of level `level` of a mip chain whose level 0 has size `size`:
/// halved once per level, and never below 1.
pub open spec fn mip_size_spec(size: u32, level: u32) -> nat {
    let s = size as nat / vstd::arithmetic::power2::pow2(level as nat);
    if s == 0 {
        1
    } else {
        s
    }
}

/// Size of a level of the Hi-Z mip chain: `size >> level`, at least 1.
pub fn mip_size(size: u32, level: u32) -> (r: u32)
    requires
        level < 32,
    ensures
        r == mip_size_spec(size, level),
{
    proof {
        vstd::bits::lemma_u32_shr_is_div(size, level);
    }
    let s = size >> level;
    if s == 0 {
        1
    } else {
        s
    }
}

/// Levels of a mip chain whose level 0 has size `size`, down to size 1:
/// one level for sizes 0 and 1, and one more each time the size halves.
pub open spec fn mip_levels(size: nat) -> nat
    decreases size,
{
    if size <= 1 {
        1
    } else {
        1 + mip_levels(size / 2)
    }
}

proof fn lemma_mip_levels_bound(n: nat, k: nat)
    requires
        n < vstd::arithmetic::power2::pow2(k),
    ensures
        mip_levels(n) <= k + 1,
    decreases k,
{
    if n > 1 {
        if k == 0 {
            vstd::arithmetic::power2::lemma2_to64();
        } else {
            vstd::arithmetic::power2::lemma_pow2_unfold(k);
            lemma_mip_levels_bound(n / 2, (k - 1) as nat);
        }
    }
}

/// Levels of the Hi-Z mip chain of a `width` x `height` depth buffer: down
/// to 1x1 along its larger side, that is `floor(log2(max(width, height))) + 1`
/// (and 1 for an empty buffer).
pub fn mip_level_count(width: u32, height: u32) -> (r: u32)
    ensures
        r == mip_levels(if width >= height { width as nat } else { height as nat }),
{
    let mut n: u32 = if width >= height { width } else { height };
    let ghost total = mip_levels(n as nat);
    proof {
        vstd::arithmetic::power2::lemma2_to64();
        lemma_mip_levels_bound(n as nat, 32);
    }
    let mut levels: u32 = 1;
    while n > 1
        invariant
            total == mip_levels(if width >= height { width as nat } else { height as nat }),
            total <= 33,
            levels >= 1,
            levels + mip_levels(n as nat) - 1 == total,
        decreases n,
    {
        levels = levels + 1;
        n = n / 2;
    }
    levels
}

} // verus!
