use crate::text::{decimal, decimal_string, joined};
use vstd::prelude::*;

verus! {

/// A byte range `[start, end)` of a file, sent as one request.
#[derive(Debug, Clone, Copy, PartialEq, Eq, Structural)]
pub struct ChunkRange {
    pub start: i64,
    pub end: i64,
}

/// The number of parts a file is cut into: the requested count, at least one.
pub open spec fn part_count(requested: int) -> int {
    if requested < 1 {
        1
    } else {
        requested
    }
}

/// The length of every chunk but the last: the total divided by the number of
/// parts, rounded up.
pub open spec fn chunk_len(total: int, parts: int) -> int {
    if parts <= 1 {
        total
    } else {
        (total + parts - 1) / parts
    }
}

pub open spec fn min_int(a: int, b: int) -> int {
    if a <= b {
        a
    } else {
        b
    }
}

/// The `i`-th chunk of a file of `total` bytes cut into `requested` parts,
/// clipped to the file.
pub open spec fn chunk_bounds(total: int, requested: int, i: int) -> (int, int) {
    let c = chunk_len(total, part_count(requested));
    (min_int(i * c, total), min_int((i + 1) * c, total))
}

/// All chunks of a file, in the order they are sent.
pub open spec fn chunk_plan(total: int, requested: int) -> Seq<(int, int)> {
    Seq::new(part_count(requested) as nat, |i: int| chunk_bounds(total, requested, i))
}

proof fn lemma_chunk_len_covers(total: int, parts: int)
    requires
        total >= 0,
        parts >= 1,
    ensures
        chunk_len(total, parts) >= 0,
        chunk_len(total, parts) <= total,
        parts * chunk_len(total, parts) >= total,
{
    if parts > 1 {
        let c = (total + parts - 1) / parts;
        let r = (total + parts - 1) % parts;
        vstd::arithmetic::div_mod::lemma_fundamental_div_mod(total + parts - 1, parts);
        assert(0 <= r < parts) by {
            vstd::arithmetic::div_mod::lemma_mod_bound(total + parts - 1, parts);
        }
        assert(total + parts - 1 == parts * c + r);
        assert(c >= 0) by {
            vstd::arithmetic::div_mod::lemma_div_pos_is_pos(total + parts - 1, parts);
        }
        assert(c <= total) by (nonlinear_arith)
            requires
                total + parts - 1 == parts * c + r,
                0 <= r,
                parts > 1,
                total >= 0,
                c >= 0,
        {
            if c > total {
                assert(parts * c >= parts * (total + 1));
            }
        }
    }
}

proof fn lemma_mul_mono(a: int, b: int, c: int)
    requires
        0 <= a <= b,
        c >= 0,
    ensures
        a * c <= b * c,
{
    assert(a * c <= b * c) by (nonlinear_arith)
        requires
            0 <= a <= b,
            c >= 0,
    ;
}

/// The chunks of a file tile `[0, total)`: the first starts at 0, each starts
/// where the one before it ends, none runs backwards, and the last ends at
/// `total` (its last byte is `total - 1`).
pub proof fn lemma_chunk_plan_partitions(total: int, requested: int)
    requires
        total >= 0,
    ensures
        chunk_plan(total, requested).len() >= 1,
        chunk_plan(total, requested)[0].0 == 0,
        chunk_plan(total, requested).last().1 == total,
        forall|i: int|
            0 <= i < chunk_plan(total, requested).len() ==> 0 <= #[trigger] chunk_plan(
                total,
                requested,
            )[i].0 <= chunk_plan(total, requested)[i].1,
        forall|i: int|
            0 <= i < chunk_plan(total, requested).len() - 1 ==> #[trigger] chunk_plan(
                total,
                requested,
            )[i].1 == chunk_plan(total, requested)[i + 1].0,
{
    let n = part_count(requested);
    let c = chunk_len(total, n);
    lemma_chunk_len_covers(total, n);
    let p = chunk_plan(total, requested);
    assert(p[0].0 == 0);
    assert(p.last() == chunk_bounds(total, requested, n - 1));
    assert(n * c >= total);
    assert forall|i: int| 0 <= i < p.len() implies 0 <= #[trigger] p[i].0 <= p[i].1 by {
        lemma_mul_mono(i, i + 1, c);
        lemma_mul_mono(0, i, c);
    }
}

/// Chunk ends never decrease from one chunk to a later one.
pub proof fn lemma_chunk_ends_monotonic(total: int, requested: int, a: int, b: int)
    requires
        total >= 0,
        0 <= a <= b,
    ensures
        chunk_bounds(total, requested, a).1 <= chunk_bounds(total, requested, b).1,
        chunk_bounds(total, requested, a).1 <= total,
{
    let n = part_count(requested);
    lemma_chunk_len_covers(total, n);
    lemma_mul_mono(a + 1, b + 1, chunk_len(total, n));
}

/// Cuts a file of `total_size` bytes into the chunks that are sent for it.
pub fn plan_chunks(total_size: i64, requested_parts: i32) -> (r: Vec<ChunkRange>)
    requires
        total_size >= 0,
    ensures
        r@.len() == chunk_plan(total_size as int, requested_parts as int).len(),
        forall|i: int|
            0 <= i < r@.len() ==> (r@[i].start as int, r@[i].end as int) == chunk_plan(
                total_size as int,
                requested_parts as int,
            )[i],
{
    let n: i32 = if requested_parts < 1 {
        1
    } else {
        requested_parts
    };
    proof {
        lemma_chunk_len_covers(total_size as int, n as int);
    }
    let total = total_size as i128;
    let c: i128 = if n <= 1 {
        total
    } else {
        (total + n as i128 - 1) / n as i128
    };
    assert(c == chunk_len(total_size as int, part_count(requested_parts as int)));
    let mut r: Vec<ChunkRange> = Vec::new();
    let mut i: i32 = 0;
    while i < n
        invariant
            0 <= i <= n,
            n == part_count(requested_parts as int),
            total == total_size,
            total_size >= 0,
            c == chunk_len(total_size as int, n as int),
            0 <= c <= total_size,
            r@.len() == i,
            forall|k: int|
                0 <= k < i ==> (r@[k].start as int, r@[k].end as int) == chunk_bounds(
                    total_size as int,
                    requested_parts as int,
                    k,
                ),
        decreases n - i,
    {
        assert(0 <= (i as i128) * c <= 0x7fff_ffff * 0x7fff_ffff_ffff_ffff) by (nonlinear_arith)
            requires
                0 <= i <= 0x7fff_ffff,
                0 <= c <= 0x7fff_ffff_ffff_ffff,
        ;
        assert(0 <= (i as i128 + 1) * c <= 0x8000_0000 * 0x7fff_ffff_ffff_ffff) by (nonlinear_arith)
            requires
                0 <= i <= 0x7fff_ffff,
                0 <= c <= 0x7fff_ffff_ffff_ffff,
        ;
        let lo = (i as i128) * c;
        let hi = (i as i128 + 1) * c;
        let start: i64 = if lo < total {
            lo as i64
        } else {
            total_size
        };
        let end: i64 = if hi < total {
            hi as i64
        } else {
            total_size
        };
        r.push(ChunkRange { start, end });
        i = i + 1;
    }
    r
}

/// The `Content-Range` value of a chunk of a file of `total` bytes:
/// `bytes {start}-{last}/{total}`, where `last` is the chunk's last byte.
pub open spec fn content_range_text(start: int, end: int, total: int) -> Seq<char> {
    seq!['b', 'y', 't', 'e', 's', ' '] + decimal(start) + seq!['-'] + decimal(end - 1) + seq!['/']
        + decimal(total)
}

impl ChunkRange {
    /// The `Content-Range` header value of this chunk in a file of `total`
    /// bytes; an empty chunk at 0 gives `bytes 0--1/0`.
    pub fn content_range(&self, total: i64) -> (r: String)
        requires
            0 <= self.start <= self.end,
        ensures
            r@ == content_range_text(self.start as int, self.end as int, total as int),
    {
        let prefix = "bytes ";
        let dash = "-";
        let slash = "/";
        proof {
            reveal_strlit("bytes ");
            reveal_strlit("-");
            reveal_strlit("/");
        }
        let s = joined(prefix, decimal_string(self.start).as_str());
        let s = s.concat(dash);
        let s = s.concat(decimal_string(self.end - 1).as_str());
        let s = s.concat(slash);
        let s = s.concat(decimal_string(total).as_str());
        assert(s@ =~= content_range_text(self.start as int, self.end as int, total as int));
        s
    }
}

} // verus!
