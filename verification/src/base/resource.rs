//! Address, port and interrupt ranges that a device owns.
use vstd::prelude::*;

verus! {

/// I/O port range.
pub const IORESOURCE_IO: u64 = 0x100;
/// Memory-mapped range.
pub const IORESOURCE_MEM: u64 = 0x200;
/// Interrupt line(s).
pub const IORESOURCE_IRQ: u64 = 0x400;

/// A range `start..=end` with kind flags and an optional name.
#[derive(Clone, Copy, Debug, PartialEq, Eq)]
pub struct Resource {
    pub start: u64,
    pub end: u64,
    pub flags: u64,
    pub name: Option<&'static str>,
}

impl Resource {
    /// An unnamed range.
    pub fn new(start: u64, end: u64, flags: u64) -> (r: Resource)
        ensures
            r.start == start,
            r.end == end,
            r.flags == flags,
            r.name is None,
    {
        Resource { start, end, flags, name: None }
    }

    /// Number of units in the range, `end - start + 1`, wrapping as the
    /// unsigned arithmetic of the hardware does.
    pub fn size(&self) -> (n: u64)
        ensures
            n == ((self.end - self.start + 1) % 0x1_0000_0000_0000_0000int),
    {
        let d = self.end.wrapping_sub(self.start);
        let n = d.wrapping_add(1);
        assert(n == ((self.end - self.start + 1) % 0x1_0000_0000_0000_0000int)) by (nonlinear_arith)
            requires
                d == if self.end >= self.start { self.end - self.start } else { self.end - self.start + 0x1_0000_0000_0000_0000int },
                n == if d + 1 <= u64::MAX { d + 1 } else { d + 1 - 0x1_0000_0000_0000_0000int },
        {}
        n
    }
}

/// The kind bits of a resource: its flags masked to IO, MEM and IRQ.
pub open spec fn kind_of(r: Resource) -> u64 {
    r.flags & (IORESOURCE_IO | IORESOURCE_MEM | IORESOURCE_IRQ)
}

/// The kind bits of `r`.
pub fn resource_type(r: &Resource) -> (t: u64)
    ensures
        t == kind_of(*r),
{
    r.flags & (IORESOURCE_IO | IORESOURCE_MEM | IORESOURCE_IRQ)
}

/// Number of entries among the first `i` of `rs` that satisfy `p`.
pub open spec fn count_upto(rs: Seq<Resource>, p: spec_fn(Resource) -> bool, i: int) -> int
    decreases i,
{
    if i <= 0 {
        0
    } else {
        count_upto(rs, p, i - 1) + if p(rs[i - 1]) { 1int } else { 0int }
    }
}

/// `count_upto` grows by at most one per entry and never decreases.
pub proof fn lemma_count_upto_mono(rs: Seq<Resource>, p: spec_fn(Resource) -> bool, i: int, j: int)
    requires
        0 <= i <= j,
    ensures
        count_upto(rs, p, i) <= count_upto(rs, p, j),
        count_upto(rs, p, j) <= count_upto(rs, p, i) + (j - i),
    decreases j - i,
{
    if i < j {
        lemma_count_upto_mono(rs, p, i, j - 1);
    }
}

/// The `n`-th entry (from 0) of `rs` that satisfies `p`: `Some(k)` for the
/// unique position `k` with `p(rs[k])` and exactly `n` matches before it.
pub open spec fn nth_match(rs: Seq<Resource>, p: spec_fn(Resource) -> bool, n: int, k: int) -> bool {
    0 <= k < rs.len() && p(rs[k]) && count_upto(rs, p, k) == n
}

/// Finds the position of the `n`-th resource of `rs[..len]` satisfying
/// the kind test (`kind_of(r) == t` when `exact`, `r.flags & t != 0`
/// otherwise).
pub fn find_nth(rs: &[Resource], len: usize, t: u64, exact: bool, n: usize) -> (r: Option<usize>)
    requires
        len <= rs@.len(),
    ensures
        ({
            let p = if exact { |x: Resource| kind_of(x) == t } else { |x: Resource| x.flags & t != 0 };
            &&& r is None <==> count_upto(rs@.subrange(0, len as int), p, len as int) <= n
            &&& r is Some ==> nth_match(rs@.subrange(0, len as int), p, n as int, r.unwrap() as int)
        }),
{
    let ghost p = if exact { |x: Resource| kind_of(x) == t } else { |x: Resource| x.flags & t != 0 };
    let ghost s = rs@.subrange(0, len as int);
    let mut count = n;
    let mut i: usize = 0;
    while i < len
        invariant
            i <= len <= rs@.len(),
            s == rs@.subrange(0, len as int),
            p == (if exact { |x: Resource| kind_of(x) == t } else { |x: Resource| x.flags & t != 0 }),
            count_upto(s, p, i as int) <= n,
            count as int == n - count_upto(s, p, i as int),
        decreases len - i,
    {
        let hit = if exact { resource_type(&rs[i]) == t } else { rs[i].flags & t != 0 };
        assert(s[i as int] == rs@[i as int]);
        assert(hit == p(s[i as int]));
        if hit {
            if count == 0 {
                proof {
                    lemma_count_upto_mono(s, p, i as int + 1, len as int);
                }
                return Some(i);
            }
            count = count - 1;
        }
        i = i + 1;
    }
    None
}

} // verus!
