//! Grouping of the static cubes of a scene into chunks: square tiles of the
//! XZ plane, culled as a whole before their cubes are.
use vstd::prelude::*;

verus! {

/// A chunk's coordinates: the tile indices along X and Z.
pub type ChunkKey = (i32, i32);

/// Chunk keys ordered by X, then by Z.
pub open spec fn key_lt(a: ChunkKey, b: ChunkKey) -> bool {
    a.0 < b.0 || (a.0 == b.0 && a.1 < b.1)
}

/// The keys are in strictly increasing order (so each occurs once).
pub open spec fn sorted_distinct(s: Seq<ChunkKey>) -> bool {
    forall|i: int, j: int| 0 <= i < j < s.len() ==> key_lt(#[trigger] s[i], #[trigger] s[j])
}

/// The indices, below `upto` and in increasing order, of the cubes whose key
/// is `key`.
pub open spec fn cubes_in_chunk(keys: Seq<ChunkKey>, key: ChunkKey, upto: nat) -> Seq<usize>
    decreases upto,
{
    if upto == 0 {
        Seq::empty()
    } else {
        let prev = cubes_in_chunk(keys, key, (upto - 1) as nat);
        if keys[upto - 1] == key {
            prev.push((upto - 1) as usize)
        } else {
            prev
        }
    }
}

/// Sum, over the first `m` chunks, of how many cubes below `upto` they hold.
pub open spec fn group_total(keys: Seq<ChunkKey>, chunks: Seq<ChunkKey>, m: nat, upto: nat) -> nat
    decreases m,
{
    if m == 0 {
        0
    } else {
        group_total(keys, chunks, (m - 1) as nat, upto) + cubes_in_chunk(
            keys,
            chunks[m - 1],
            upto,
        ).len()
    }
}

/// The result of [`build_chunks`]: the chunks in key order, and the cubes
/// reordered so that each chunk's cubes are contiguous.
pub struct ChunkLayout {
    /// The distinct keys, in increasing order.
    pub chunk_keys: Vec<ChunkKey>,
    /// Cube indices in instance order.
    pub order: Vec<usize>,
    /// For each instance, the index of its chunk.
    pub cube_chunk_ids: Vec<u32>,
    /// For each chunk, its first instance.
    pub starts: Vec<u32>,
    /// For each chunk, its number of instances.
    pub counts: Vec<u32>,
}

/// The instances of chunk `c`: its cubes in increasing index order, each
/// tagged with `c`, at `start`.
pub open spec fn chunk_placed(
    keys: Seq<ChunkKey>,
    key: ChunkKey,
    order: Seq<usize>,
    ids: Seq<u32>,
    start: int,
    count: int,
    c: int,
) -> bool {
    &&& 0 <= start
    &&& start + count <= order.len()
    &&& start + count <= ids.len()
    &&& count == cubes_in_chunk(keys, key, keys.len()).len()
    &&& order.subrange(start, start + count) == cubes_in_chunk(keys, key, keys.len())
    &&& ids.subrange(start, start + count) == Seq::new(count as nat, |_j: int| c as u32)
}

/// `layout` groups the cubes with keys `keys` as described on [`ChunkLayout`].
pub open spec fn is_chunk_layout(keys: Seq<ChunkKey>, layout: ChunkLayout) -> bool {
    let ck = layout.chunk_keys@;
    let n = keys.len();
    &&& sorted_distinct(ck)
    &&& forall|c: int| 0 <= c < ck.len() ==> keys.contains(#[trigger] ck[c])
    &&& forall|i: int| 0 <= i < n ==> ck.contains(#[trigger] keys[i])
    &&& layout.starts@.len() == ck.len()
    &&& layout.counts@.len() == ck.len()
    &&& layout.order@.len() == n
    &&& layout.cube_chunk_ids@.len() == n
    &&& ck.len() > 0 ==> layout.starts@[0] == 0
    &&& ck.len() > 0 ==> layout.starts@[ck.len() - 1] + layout.counts@[ck.len() - 1] == n
    &&& forall|c: int|
        0 <= c < ck.len() - 1 ==> layout.starts@[c + 1] == #[trigger] layout.starts@[c]
            + layout.counts@[c]
    &&& forall|c: int|
        0 <= c < ck.len() ==> chunk_placed(
            keys,
            #[trigger] ck[c],
            layout.order@,
            layout.cube_chunk_ids@,
            layout.starts@[c] as int,
            layout.counts@[c] as int,
            c,
        )
}

proof fn lemma_prefix_kept<T>(a: Seq<T>, b: Seq<T>, lo: int, hi: int)
    requires
        0 <= lo <= hi <= a.len() <= b.len(),
        b.subrange(0, a.len() as int) == a,
    ensures
        b.subrange(lo, hi) == a.subrange(lo, hi),
{
    assert(b.subrange(lo, hi) =~= b.subrange(0, a.len() as int).subrange(lo, hi));
}

proof fn lemma_group_total_zero(keys: Seq<ChunkKey>, chunks: Seq<ChunkKey>, m: nat)
    ensures
        group_total(keys, chunks, m, 0) == 0,
    decreases m,
{
    if m > 0 {
        lemma_group_total_zero(keys, chunks, (m - 1) as nat);
    }
}

proof fn lemma_group_total_step(keys: Seq<ChunkKey>, chunks: Seq<ChunkKey>, m: nat, upto: nat)
    requires
        upto < keys.len(),
        m <= chunks.len(),
        sorted_distinct(chunks),
    ensures
        group_total(keys, chunks, m, upto + 1) == group_total(keys, chunks, m, upto) + if exists|c: int|
            0 <= c < m && chunks[c] == keys[upto as int] {
            1nat
        } else {
            0nat
        },
    decreases m,
{
    if m > 0 {
        lemma_group_total_step(keys, chunks, (m - 1) as nat, upto);
        let k = keys[upto as int];
        if chunks[m - 1] == k {
            assert forall|c: int| 0 <= c < m - 1 implies chunks[c] != k by {
                assert(key_lt(chunks[c], chunks[m - 1]));
            }
        }
        if exists|c: int| 0 <= c < m && chunks[c] == k {
            let c = choose|c: int| 0 <= c < m && chunks[c] == k;
            if c < m - 1 {
                assert(exists|c: int| 0 <= c < m - 1 && chunks[c] == k);
            }
        }
        if exists|c: int| 0 <= c < m - 1 && chunks[c] == k {
            let c = choose|c: int| 0 <= c < m - 1 && chunks[c] == k;
            assert(0 <= c < m && chunks[c] == k);
        }
    }
}

proof fn lemma_group_total_all(keys: Seq<ChunkKey>, chunks: Seq<ChunkKey>, upto: nat)
    requires
        upto <= keys.len(),
        sorted_distinct(chunks),
        forall|i: int| 0 <= i < keys.len() ==> chunks.contains(#[trigger] keys[i]),
    ensures
        group_total(keys, chunks, chunks.len(), upto) == upto,
    decreases upto,
{
    if upto == 0 {
        lemma_group_total_zero(keys, chunks, chunks.len());
    } else {
        let u = (upto - 1) as nat;
        lemma_group_total_all(keys, chunks, u);
        lemma_group_total_step(keys, chunks, chunks.len(), u);
        assert(chunks.contains(keys[u as int]));
        let c = choose|c: int| 0 <= c < chunks.len() && chunks[c] == keys[u as int];
        assert(exists|c: int| 0 <= c < chunks.len() && chunks[c] == keys[u as int]);
        assert(group_total(keys, chunks, chunks.len(), u + 1) == u + 1);
        assert(u + 1 == upto);
    }
}

proof fn lemma_group_total_prefix(keys: Seq<ChunkKey>, chunks: Seq<ChunkKey>, m: nat, upto: nat)
    requires
        m <= chunks.len(),
    ensures
        group_total(keys, chunks, m, upto) <= group_total(keys, chunks, chunks.len(), upto),
    decreases chunks.len() - m,
{
    if m < chunks.len() {
        lemma_group_total_prefix(keys, chunks, m + 1, upto);
    }
}

proof fn lemma_chunk_nonempty(keys: Seq<ChunkKey>, key: ChunkKey, i: int, upto: nat)
    requires
        0 <= i < upto <= keys.len(),
        keys[i] == key,
    ensures
        cubes_in_chunk(keys, key, upto).len() >= 1,
    decreases upto,
{
    if i < upto - 1 {
        lemma_chunk_nonempty(keys, key, i, (upto - 1) as nat);
    }
}

proof fn lemma_cubes_in_chunk_len(keys: Seq<ChunkKey>, key: ChunkKey, upto: nat)
    ensures
        cubes_in_chunk(keys, key, upto).len() <= upto,
    decreases upto,
{
    if upto > 0 {
        lemma_cubes_in_chunk_len(keys, key, (upto - 1) as nat);
    }
}

fn key_less(a: ChunkKey, b: ChunkKey) -> (r: bool)
    ensures
        r == key_lt(a, b),
{
    a.0 < b.0 || (a.0 == b.0 && a.1 < b.1)
}

fn key_eq(a: ChunkKey, b: ChunkKey) -> (r: bool)
    ensures
        r == (a == b),
{
    a.0 == b.0 && a.1 == b.1
}

/// The distinct keys of the list, in increasing order.
fn sorted_keys(keys: &Vec<ChunkKey>) -> (r: Vec<ChunkKey>)
    ensures
        sorted_distinct(r@),
        forall|c: int| 0 <= c < r@.len() ==> keys@.contains(#[trigger] r@[c]),
        forall|i: int| 0 <= i < keys@.len() ==> r@.contains(#[trigger] keys@[i]),
{
    let mut out: Vec<ChunkKey> = Vec::new();
    let n = keys.len();
    for i in 0..n
        invariant
            n == keys@.len(),
            sorted_distinct(out@),
            forall|c: int| 0 <= c < out@.len() ==> keys@.contains(#[trigger] out@[c]),
            forall|j: int| 0 <= j < i ==> out@.contains(#[trigger] keys@[j]),
    {
        let k = keys[i];
        let mut p: usize = 0;
        while p < out.len() && key_less(out[p], k)
            invariant
                p <= out@.len(),
                forall|q: int| 0 <= q < p ==> key_lt(#[trigger] out@[q], k),
            decreases out@.len() - p,
        {
            p = p + 1;
        }
        assert(keys@[i as int] == k);
        if p < out.len() && key_eq(out[p], k) {
            assert(out@[p as int] == k);
        } else {
            let ghost before = out@;
            out.insert(p, k);
            proof {
                assert forall|a: int, b: int| 0 <= a < b < out@.len() implies key_lt(
                    #[trigger] out@[a],
                    #[trigger] out@[b],
                ) by {
                    if b < p {
                        assert(out@[a] == before[a] && out@[b] == before[b]);
                    } else if b == p {
                        assert(out@[a] == before[a]);
                    } else if a < p {
                        assert(out@[a] == before[a] && out@[b] == before[b - 1]);
                        assert(key_lt(before[a], k));
                        assert(!key_lt(before[p as int], k) && before[p as int] != k);
                        if b - 1 > p {
                            assert(key_lt(before[p as int], before[b - 1]));
                        }
                    } else if a == p {
                        assert(out@[b] == before[b - 1]);
                        assert(!key_lt(before[p as int], k) && before[p as int] != k);
                        if b - 1 > p {
                            assert(key_lt(before[p as int], before[b - 1]));
                        }
                    } else {
                        assert(out@[a] == before[a - 1] && out@[b] == before[b - 1]);
                    }
                }
                assert forall|c: int| 0 <= c < out@.len() implies keys@.contains(#[trigger] out@[c]) by {
                    if c < p {
                        assert(out@[c] == before[c]);
                    } else if c > p {
                        assert(out@[c] == before[c - 1]);
                    } else {
                        assert(keys@[i as int] == out@[c]);
                    }
                }
                assert forall|j: int| 0 <= j < i + 1 implies out@.contains(#[trigger] keys@[j]) by {
                    if j < i {
                        assert(before.contains(keys@[j]));
                        let q = choose|q: int| 0 <= q < before.len() && before[q] == keys@[j];
                        if q < p {
                            assert(out@[q] == keys@[j]);
                        } else {
                            assert(out@[q + 1] == keys@[j]);
                        }
                    } else {
                        assert(out@[p as int] == keys@[j]);
                    }
                }
            }
        }
    }
    out
}

/// Groups cubes into chunks: `keys[i]` is the chunk key of cube `i`. The
/// chunks come in increasing key order; the cubes of a chunk are contiguous
/// in the instance order and keep their relative order.
#[verifier::rlimit(60)]
pub fn build_chunks(keys: &Vec<ChunkKey>) -> (r: ChunkLayout)
    requires
        keys@.len() <= u32::MAX,
    ensures
        is_chunk_layout(keys@, r),
{
    let n = keys.len();
    let ck = sorted_keys(keys);
    let nk = ck.len();
    let mut order: Vec<usize> = Vec::new();
    let mut ids: Vec<u32> = Vec::new();
    let mut starts: Vec<u32> = Vec::new();
    let mut counts: Vec<u32> = Vec::new();
    proof {
        lemma_group_total_all(keys@, ck@, n as nat);
    }
    for c in 0..nk
        invariant
            n == keys@.len(),
            n <= u32::MAX,
            nk == ck@.len(),
            sorted_distinct(ck@),
            forall|d: int| 0 <= d < nk ==> keys@.contains(#[trigger] ck@[d]),
            group_total(keys@, ck@, nk as nat, n as nat) == n,
            order@.len() == group_total(keys@, ck@, c as nat, n as nat),
            ids@.len() == order@.len(),
            order@.len() >= c,
            starts@.len() == c,
            counts@.len() == c,
            c > 0 ==> starts@[0] == 0,
            forall|d: int| 0 <= d < c - 1 ==> starts@[d + 1] == #[trigger] starts@[d] + counts@[d],
            c > 0 ==> starts@[c - 1] + counts@[c - 1] == order@.len(),
            forall|d: int|
                0 <= d < c ==> chunk_placed(
                    keys@,
                    #[trigger] ck@[d],
                    order@,
                    ids@,
                    starts@[d] as int,
                    counts@[d] as int,
                    d,
                ),
    {
        proof {
            lemma_group_total_prefix(keys@, ck@, (c + 1) as nat, n as nat);
        }
        let key = ck[c];
        proof {
            assert(keys@.contains(ck@[c as int]));
            let w = choose|w: int| 0 <= w < keys@.len() && keys@[w] == key;
            lemma_chunk_nonempty(keys@, key, w, n as nat);
        }
        let start = order.len();
        let ghost order0 = order@;
        let ghost ids0 = ids@;
        let ghost starts0 = starts@;
        let ghost counts0 = counts@;
        for i in 0..n
            invariant
                n == keys@.len(),
                key == ck@[c as int],
                start == order0.len(),
                start == ids0.len(),
                order@ == order0 + cubes_in_chunk(keys@, key, i as nat),
                ids@ == ids0 + Seq::new(cubes_in_chunk(keys@, key, i as nat).len(), |_j: int| c as u32),
                order0.len() + cubes_in_chunk(keys@, key, n as nat).len() <= n,
                n <= u32::MAX,
        {
            proof {
                lemma_cubes_in_chunk_len(keys@, key, i as nat);
            }
            if key_eq(keys[i], key) {
                order.push(i);
                ids.push(c as u32);
            }
            proof {
                assert(order@ =~= order0 + cubes_in_chunk(keys@, key, (i + 1) as nat));
                assert(ids@ =~= ids0 + Seq::new(
                    cubes_in_chunk(keys@, key, (i + 1) as nat).len(),
                    |_j: int| c as u32,
                ));
            }
        }
        let count = order.len() - start;
        starts.push(start as u32);
        counts.push(count as u32);
        proof {
            assert(order@.subrange(start as int, start + count) =~= cubes_in_chunk(keys@, key, n as nat));
            assert(ids@.subrange(start as int, start + count) =~= Seq::new(count as nat, |_j: int| c as u32));
            assert(order@.subrange(0, order0.len() as int) =~= order0);
            assert(ids@.subrange(0, ids0.len() as int) =~= ids0);
            assert forall|d: int| 0 <= d < c + 1 implies chunk_placed(
                keys@,
                #[trigger] ck@[d],
                order@,
                ids@,
                starts@[d] as int,
                counts@[d] as int,
                d,
            ) by {
                if d < c {
                    assert(starts@[d] == starts0[d] && counts@[d] == counts0[d]);
                    assert(chunk_placed(keys@, ck@[d], order0, ids0, starts0[d] as int, counts0[d] as int, d));
                    lemma_prefix_kept(order0, order@, starts0[d] as int, starts0[d] + counts0[d]);
                    lemma_prefix_kept(ids0, ids@, starts0[d] as int, starts0[d] + counts0[d]);
                }
            }
        }
    }
    ChunkLayout { chunk_keys: ck, order, cube_chunk_ids: ids, starts, counts }
}

proof fn lemma_cube_in_own_chunk(keys: Seq<ChunkKey>, i: int, upto: nat)
    requires
        0 <= i < upto <= keys.len(),
    ensures
        cubes_in_chunk(keys, keys[i], upto).contains(i as usize),
    decreases upto,
{
    let s = cubes_in_chunk(keys, keys[i], upto);
    if i == upto - 1 {
        assert(s[s.len() - 1] == i as usize);
    } else {
        lemma_cube_in_own_chunk(keys, i, (upto - 1) as nat);
        let p = cubes_in_chunk(keys, keys[i], (upto - 1) as nat);
        let k = choose|k: int| 0 <= k < p.len() && p[k] == i as usize;
        assert(s[k] == i as usize);
    }
}

/// Every cube is placed: the instance order lists each cube index, inside
/// the range of the chunk of its key.
pub proof fn law_every_cube_placed(keys: Seq<ChunkKey>, layout: ChunkLayout, i: int)
    requires
        is_chunk_layout(keys, layout),
        0 <= i < keys.len(),
    ensures
        exists|c: int| 0 <= c < layout.chunk_keys@.len() && layout.chunk_keys@[c] == keys[i]
            && layout.order@.subrange(
                layout.starts@[c] as int,
                layout.starts@[c] + layout.counts@[c],
            ).contains(i as usize),
        layout.order@.contains(i as usize),
{
    let ck = layout.chunk_keys@;
    assert(ck.contains(keys[i]));
    let c = choose|c: int| 0 <= c < ck.len() && ck[c] == keys[i];
    assert(chunk_placed(keys, ck[c], layout.order@, layout.cube_chunk_ids@, layout.starts@[c] as int, layout.counts@[c] as int, c));
    lemma_cube_in_own_chunk(keys, i, keys.len());
    let sub = layout.order@.subrange(layout.starts@[c] as int, layout.starts@[c] + layout.counts@[c]);
    let k = choose|k: int| 0 <= k < sub.len() && sub[k] == i as usize;
    assert(layout.order@[layout.starts@[c] + k] == i as usize);
}

/// The cube capacity of a scene's dynamic models: the requested number,
/// but at least one cube.
pub fn dynamic_capacity(requested: usize) -> (r: usize)
    ensures
        r == if requested >= 1 { requested } else { 1 },
{
    if requested >= 1 {
        requested
    } else {
        1
    }
}

} // verus!
