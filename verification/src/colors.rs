//! The host color table: a process-lifetime mapping from each host ever
//! seen to a stable palette slot, assigned in first-seen order and
//! cycling through a fixed palette.  Entries are never removed or
//! reassigned.
//!
//! The table only decides *which* slot a host gets; rendering a slot as
//! a styled string is the caller's business.

use vstd::prelude::*;

verus! {

/// Number of distinct color slots in the palette.
pub const PALETTE_SIZE: usize = 6;

/// Index of the first entry of `t` equal to `h`; -1 when none is.
pub open spec fn index_of_host(t: Seq<Seq<u8>>, h: Seq<u8>) -> int
    decreases t.len(),
{
    if t.len() == 0 {
        -1
    } else if t[0] == h {
        0
    } else {
        let r = index_of_host(t.drop_first(), h);
        if r == -1 {
            -1
        } else {
            1 + r
        }
    }
}

/// `index_of_host` is in range, points at `h`, nothing before it is
/// `h`, and -1 means `h` is absent altogether.
pub proof fn lemma_index_of_host_props(t: Seq<Seq<u8>>, h: Seq<u8>)
    ensures
        -1 <= index_of_host(t, h) < t.len(),
        index_of_host(t, h) >= 0 ==> t[index_of_host(t, h)] == h,
        index_of_host(t, h) >= 0 ==> forall|m: int| 0 <= m < index_of_host(t, h) ==> t[m] != h,
        index_of_host(t, h) == -1 ==> forall|m: int| 0 <= m < t.len() ==> t[m] != h,
    decreases t.len(),
{
    if t.len() > 0 && t[0] != h {
        let rest = t.drop_first();
        lemma_index_of_host_props(rest, h);
        assert(forall|m: int| 0 <= m < t.len() - 1 ==> #[trigger] t[m + 1] == rest[m]);
        let r = index_of_host(rest, h);
        if r >= 0 {
            assert(t[r + 1] == rest[r]);
            assert forall|m: int| 0 <= m < index_of_host(t, h) implies t[m] != h by {
                if m > 0 {
                    assert(t[(m - 1) + 1] == rest[m - 1]);
                }
            }
        } else {
            assert forall|m: int| 0 <= m < t.len() implies t[m] != h by {
                if m > 0 {
                    assert(t[(m - 1) + 1] == rest[m - 1]);
                }
            }
        }
    }
}

/// A position with no earlier match and a match (or the table's end) at
/// it decides `index_of_host`.
pub proof fn lemma_index_of_host_at(t: Seq<Seq<u8>>, h: Seq<u8>, j: int)
    requires
        0 <= j <= t.len(),
        forall|m: int| 0 <= m < j ==> t[m] != h,
        j == t.len() || t[j] == h,
    ensures
        index_of_host(t, h) == if j == t.len() {
            -1
        } else {
            j
        },
    decreases t.len(),
{
    if t.len() > 0 && j > 0 {
        assert(forall|m: int| 0 <= m < j - 1 ==> t.drop_first()[m] == t[m + 1]);
        lemma_index_of_host_at(t.drop_first(), h, j - 1);
    }
}

/// The slot that asking for `h` against table `t` yields: the stored
/// one when `h` is present, the next first-seen index (mod the palette
/// size) when it is new.
pub open spec fn color_slot(t: Seq<Seq<u8>>, h: Seq<u8>) -> int {
    if index_of_host(t, h) >= 0 {
        index_of_host(t, h) % (PALETTE_SIZE as int)
    } else {
        t.len() as int % (PALETTE_SIZE as int)
    }
}

/// The table after asking for `h`: unchanged when `h` is present,
/// extended by `h` when it is new.
pub open spec fn table_after(t: Seq<Seq<u8>>, h: Seq<u8>) -> Seq<Seq<u8>> {
    if index_of_host(t, h) >= 0 {
        t
    } else {
        t.push(h)
    }
}

/// Law: asking for the same host twice yields the same slot both
/// times, and the second ask leaves the table as the first left it.
pub proof fn lemma_color_idempotent(t: Seq<Seq<u8>>, h: Seq<u8>)
    ensures
        table_after(table_after(t, h), h) == table_after(t, h),
        color_slot(table_after(t, h), h) == color_slot(t, h),
{
    lemma_index_of_host_props(t, h);
    if index_of_host(t, h) == -1 {
        let t1 = t.push(h);
        assert(forall|m: int| 0 <= m < t.len() ==> t1[m] == t[m]);
        assert(t1[t.len() as int] == h);
        lemma_index_of_host_at(t1, h, t.len() as int);
    }
}

/// The table after asking for each host of `hs` in turn, left to right.
pub open spec fn table_after_all(t: Seq<Seq<u8>>, hs: Seq<Seq<u8>>) -> Seq<Seq<u8>>
    decreases hs.len(),
{
    if hs.len() == 0 {
        t
    } else {
        table_after_all(table_after(t, hs[0]), hs.drop_first())
    }
}

/// Feeding hosts none of which the table holds, pairwise distinct,
/// appends them in arrival order.
pub proof fn lemma_table_fill(t: Seq<Seq<u8>>, hs: Seq<Seq<u8>>)
    requires
        forall|a: int, b: int| 0 <= a < b < hs.len() ==> hs[a] != hs[b],
        forall|j: int| 0 <= j < hs.len() ==> index_of_host(t, #[trigger] hs[j]) == -1,
    ensures
        table_after_all(t, hs) == t + hs,
    decreases hs.len(),
{
    if hs.len() == 0 {
        assert(t + hs =~= t);
    } else {
        let h0 = hs[0];
        let rest = hs.drop_first();
        let t1 = t.push(h0);
        assert(table_after(t, h0) == t1);
        assert forall|j: int| 0 <= j < rest.len() implies index_of_host(
            t1,
            #[trigger] rest[j],
        ) == -1 by {
            assert(rest[j] == hs[j + 1]);
            lemma_index_of_host_props(t, hs[j + 1]);
            assert(forall|m: int| 0 <= m < t.len() ==> t1[m] == t[m]);
            assert(t1[t.len() as int] == h0);
            assert(hs[j + 1] != h0);
            lemma_index_of_host_at(t1, hs[j + 1], t1.len() as int);
        }
        assert(forall|a: int, b: int| 0 <= a < b < rest.len() ==> rest[a] != rest[b]) by {
            assert(forall|a: int, b: int| 0 <= a < b < rest.len() ==> rest[a] == hs[a + 1]
                && rest[b] == hs[b + 1]);
        }
        lemma_table_fill(t1, rest);
        assert(t1 + rest =~= t + hs);
    }
}

/// Law: starting from an empty table and feeding pairwise-distinct
/// hosts in order, the i-th host is assigned slot `i` modulo the
/// palette size, in first-seen order.
pub proof fn lemma_first_seen_order(hs: Seq<Seq<u8>>, i: int)
    requires
        0 <= i < hs.len(),
        forall|a: int, b: int| 0 <= a < b < hs.len() ==> hs[a] != hs[b],
    ensures
        table_after_all(Seq::<Seq<u8>>::empty(), hs.take(i)) == hs.take(i),
        color_slot(hs.take(i), hs[i]) == i % (PALETTE_SIZE as int),
{
    let pre = hs.take(i);
    let empty = Seq::<Seq<u8>>::empty();
    assert forall|j: int| 0 <= j < pre.len() implies index_of_host(empty, #[trigger] pre[j])
        == -1 by {}
    assert(forall|a: int, b: int| 0 <= a < b < pre.len() ==> pre[a] != pre[b]) by {
        assert(forall|a: int, b: int| 0 <= a < b < pre.len() ==> pre[a] == hs[a] && pre[b]
            == hs[b]);
    }
    lemma_table_fill(empty, pre);
    assert(empty + pre =~= pre);
    assert(forall|m: int| 0 <= m < i ==> pre[m] == hs[m]);
    assert(forall|m: int| 0 <= m < i ==> pre[m] != hs[i]);
    lemma_index_of_host_at(pre, hs[i], i);
    assert(index_of_host(pre, hs[i]) == -1);
}

/// Byte-for-byte equality of two spans.
pub fn bytes_eq(a: &[u8], b: &[u8]) -> (r: bool)
    ensures
        r == (a@ == b@),
{
    let n = a.len();
    if n != b.len() {
        return false;
    }
    let mut k: usize = 0;
    while k < n
        invariant
            0 <= k <= n,
            n == a@.len() == b@.len(),
            forall|m: int| 0 <= m < k ==> a@[m] == b@[m],
        decreases n - k,
    {
        if a[k] != b[k] {
            return false;
        }
        k = k + 1;
    }
    proof {
        assert(a@ =~= b@);
    }
    true
}

/// The color table itself: the distinct hosts seen so far, in
/// first-seen order.  A host's slot is its index here, mod the palette
/// size.
pub struct ColorTable {
    hosts: Vec<Vec<u8>>,
}

impl View for ColorTable {
    type V = Seq<Seq<u8>>;

    closed spec fn view(&self) -> Seq<Seq<u8>> {
        self.hosts@.map_values(|v: Vec<u8>| v@)
    }
}

impl ColorTable {
    /// An empty table: no host has been seen yet.
    pub fn new() -> (t: ColorTable)
        ensures
            t@ == Seq::<Seq<u8>>::empty(),
    {
        let t = ColorTable { hosts: Vec::new() };
        proof {
            assert(t@ =~= Seq::<Seq<u8>>::empty());
        }
        t
    }

    /// The slot for `host`: the stored one when it has been seen, a
    /// freshly assigned one (first-seen index, cycling through the
    /// palette) when it is new.  Deterministic in the arrival order of
    /// distinct hosts, never in their content.
    pub fn color_of(&mut self, host: &[u8]) -> (slot: usize)
        ensures
            final(self)@ == table_after(old(self)@, host@),
            slot == color_slot(old(self)@, host@),
            slot < PALETTE_SIZE,
    {
        let n = self.hosts.len();
        let mut k: usize = 0;
        while k < n
            invariant
                0 <= k <= n == self@.len(),
                self == old(self),
                forall|m: int| 0 <= m < k ==> self@[m] != host@,
            decreases n - k,
        {
            if bytes_eq(self.hosts[k].as_slice(), host) {
                proof {
                    assert(self@[k as int] == host@);
                    lemma_index_of_host_at(self@, host@, k as int);
                }
                return k % PALETTE_SIZE;
            }
            proof {
                assert(self@[k as int] == self.hosts@[k as int]@);
            }
            k = k + 1;
        }
        proof {
            lemma_index_of_host_at(self@, host@, n as int);
        }
        self.hosts.push(vstd::slice::slice_to_vec(host));
        proof {
            assert(self@ =~= old(self)@.push(host@));
        }
        n % PALETTE_SIZE
    }
}

} // verus!
