//! The guest's allocation and conversion interface.
//!
//! The guest runs inside an isolated linear memory with no host-visible
//! destructor hooks, so ownership is explicit: the host obtains byte buffers
//! from `malloc`, returns them through `free` with the identical size, and
//! conversion results are guest-owned objects reached through a handle that
//! must be queried and then released exactly once. The guest allocator is an
//! arena: regions are reserved from a growing frontier, never reused, and a
//! released region merely stops being addressable through the interface.

use crate::workload::{parse_wat, validate_wasm, wat_output, wasm_valid};
use crate::GuestFault;
use vstd::prelude::*;

verus! {

/// A byte region of guest linear memory: start address and length.
pub type Region = (usize, usize);

/// Two regions do not overlap and start at distinct addresses.
pub open spec fn region_sep(a: Region, b: Region) -> bool {
    &&& (a.0 + a.1 <= b.0 || b.0 + b.1 <= a.0)
    &&& a.0 != b.0
}

/// A region lies strictly inside a memory of the given size.
pub open spec fn region_ok(r: Region, mem_len: int) -> bool {
    &&& r.0 + r.1 <= mem_len
    &&& r.0 < mem_len
}

/// A conversion result owned by the guest: the produced binary module,
/// described by the region of guest linear memory that holds its bytes.
/// Opaque to the host, which may only query its address and length through
/// the owning guest and must release it exactly once.
#[derive(Clone, Copy)]
pub struct Wasm {
    ptr: usize,
    len: usize,
}

impl Wasm {
    /// The guest-memory region holding the result bytes.
    pub closed spec fn region(self) -> Region {
        (self.ptr, self.len)
    }
}

/// One guest instance: a linear memory, the set of live host-requested
/// buffers, and a handle table of conversion results. Created fresh per
/// benchmark configuration and used for exactly one workload invocation.
pub struct Guest {
    mem: Vec<u8>,
    allocs: Vec<Region>,
    results: Vec<Option<Wasm>>,
}

impl Guest {
    /// The contents of the guest's linear memory.
    pub closed spec fn mem_bytes(&self) -> Seq<u8> {
        self.mem@
    }

    /// The size of the guest's linear memory.
    pub open spec fn mem_size(&self) -> int {
        self.mem_bytes().len() as int
    }

    /// The live host-requested buffers, in allocation order.
    pub closed spec fn live(&self) -> Seq<Region> {
        self.allocs@
    }

    /// Whether a buffer of exactly this address and size is live.
    pub open spec fn is_live(&self, p: usize, s: usize) -> bool {
        self.live().contains((p, s))
    }

    /// The handle table of results: one slot per issued handle, `None` once
    /// released.
    pub closed spec fn results_table(&self) -> Seq<Option<Wasm>> {
        self.results@
    }

    /// The number of handles the result table has issued.
    pub closed spec fn result_count(&self) -> int {
        self.results@.len() as int
    }

    /// The memory region of the result behind a handle, if not yet released.
    pub closed spec fn result_region(&self, h: int) -> Option<Region> {
        if 0 <= h < self.results@.len() && self.results@[h] is Some {
            Some(self.results@[h]->0.region())
        } else {
            None
        }
    }

    /// Whether a handle refers to a result that has not been released.
    pub open spec fn live_handle(&self, h: usize) -> bool {
        self.result_region(h as int) is Some
    }

    /// The bytes of the result behind a handle, if not yet released.
    pub open spec fn result_bytes(&self, h: int) -> Option<Seq<u8>> {
        match self.result_region(h) {
            Some(r) => Some(self.mem_bytes().subrange(r.0 as int, r.0 + r.1)),
            None => None,
        }
    }

    /// A range of addresses the host may read: exactly a live buffer or
    /// exactly an unreleased result region.
    pub open spec fn readable(&self, p: usize, len: usize) -> bool {
        ||| self.is_live(p, len)
        ||| exists|h: int| self.result_region(h) == Some((p, len))
    }

    /// Well-formedness: the memory frontier is aligned, every live buffer and
    /// every unreleased result region lies inside memory, and all of them are
    /// pairwise separated.
    pub closed spec fn wf(&self) -> bool {
        &&& self.mem@.len() % 8 == 0
        &&& forall|i: int|
            0 <= i < self.allocs@.len() ==> region_ok(
                #[trigger] self.allocs@[i],
                self.mem@.len() as int,
            )
        &&& forall|i: int|
            0 <= i < self.allocs@.len() ==> (#[trigger] self.allocs@[i]).0 % 8 == 0
        &&& forall|i: int, j: int|
            0 <= i < self.allocs@.len() && 0 <= j < self.allocs@.len() && i != j ==> region_sep(
                #[trigger] self.allocs@[i],
                #[trigger] self.allocs@[j],
            )
        &&& forall|h: int|
            0 <= h < self.results@.len() && self.results@[h] is Some ==> region_ok(
                (#[trigger] self.results@[h])->0.region(),
                self.mem@.len() as int,
            )
        &&& forall|h: int, k: int|
            0 <= h < self.results@.len() && 0 <= k < self.results@.len() && h != k
                && self.results@[h] is Some && self.results@[k] is Some ==> region_sep(
                (#[trigger] self.results@[h])->0.region(),
                (#[trigger] self.results@[k])->0.region(),
            )
        &&& forall|i: int, h: int|
            0 <= i < self.allocs@.len() && 0 <= h < self.results@.len()
                && self.results@[h] is Some ==> region_sep(
                #[trigger] self.allocs@[i],
                (#[trigger] self.results@[h])->0.region(),
            )
    }

    /// A fresh guest instance with empty memory, no live buffers and no
    /// issued handles.
    pub fn new() -> (g: Guest)
        ensures
            g.wf(),
            g.live() == Seq::<Region>::empty(),
            g.result_count() == 0,
            g.mem_size() == 0,
    {
        Guest { mem: Vec::new(), allocs: Vec::new(), results: Vec::new() }
    }

    /// Extends linear memory by at least `size + 1` zero bytes, keeping the
    /// frontier aligned, and returns the start of the extension. Registers
    /// nothing: callers record the region as a buffer or a result.
    fn grow(&mut self, size: usize) -> (p: usize)
        requires
            old(self).wf(),
            old(self).mem_size() + size + 8 <= usize::MAX,
        ensures
            final(self).wf(),
            p == old(self).mem_size(),
            p % 8 == 0,
            p + size < final(self).mem_size(),
            final(self).mem_size() <= old(self).mem_size() + size + 8,
            final(self).mem_bytes().subrange(0, old(self).mem_size()) == old(self).mem_bytes(),
            forall|k: int| p <= k < final(self).mem_size() ==> final(self).mem_bytes()[k] == 0,
            final(self).live() == old(self).live(),
            final(self).results@ == old(self).results@,
    {
        let p = self.mem.len();
        let reserve: usize = (size / 8 + 1) * 8;
        proof {
            vstd::arithmetic::div_mod::lemma_fundamental_div_mod(size as int, 8);
            vstd::arithmetic::div_mod::lemma_mod_bound(size as int, 8);
            assert(reserve == (size as int / 8 + 1) * 8);
            assert(size < reserve <= size + 8);
            assert(reserve % 8 == 0) by {
                vstd::arithmetic::div_mod::lemma_mod_multiples_basic(size as int / 8 + 1, 8);
            }
        }
        let mut n: usize = reserve;
        while n > 0
            invariant
                n <= reserve,
                self.mem@.len() == p + reserve - n,
                self.mem@.subrange(0, p as int) == old(self).mem@,
                forall|k: int| p <= k < self.mem@.len() ==> self.mem@[k] == 0,
                self.allocs@ == old(self).allocs@,
                self.results@ == old(self).results@,
            decreases n,
        {
            self.mem.push(0u8);
            n -= 1;
            proof {
                assert(self.mem@.subrange(0, p as int) == old(self).mem@);
            }
        }
        proof {
            assert(self.mem@.len() == p + reserve);
            assert(self.mem@.len() as int % 8 == 0) by {
                vstd::arithmetic::div_mod::lemma_add_mod_noop(p as int, reserve as int, 8);
            }
            assert forall|i: int| 0 <= i < self.allocs@.len() implies region_ok(
                #[trigger] self.allocs@[i],
                self.mem@.len() as int,
            ) by {
                assert(region_ok(old(self).allocs@[i], old(self).mem@.len() as int));
            }
            assert forall|h: int|
                0 <= h < self.results@.len() && self.results@[h] is Some implies region_ok(
                (#[trigger] self.results@[h])->0.region(),
                self.mem@.len() as int,
            ) by {
                assert(old(self).results@[h] is Some);
                assert(region_ok(old(self).results@[h]->0.region(), old(self).mem@.len() as int));
            }
        }
        p
    }

    /// Reserves `size` bytes of guest memory, aligned for pointer-sized
    /// access, zero-filled, and disjoint from every live buffer and every
    /// unreleased result. The new buffer is live until returned through
    /// [`Guest::free`]; nothing already in memory moves or changes.
    pub fn malloc(&mut self, size: usize) -> (p: usize)
        requires
            old(self).wf(),
            old(self).mem_size() + size + 8 <= usize::MAX,
        ensures
            final(self).wf(),
            final(self).is_live(p, size),
            p % 8 == 0,
            p == old(self).mem_size(),
            p + size < final(self).mem_size(),
            final(self).mem_size() <= old(self).mem_size() + size + 8,
            final(self).live() == old(self).live().push((p, size)),
            final(self).results_table() == old(self).results_table(),
            final(self).mem_bytes().subrange(0, old(self).mem_size()) == old(self).mem_bytes(),
            forall|k: int| p <= k < p + size ==> final(self).mem_bytes()[k] == 0,
    {
        let p = self.grow(size);
        let ghost grown = *self;
        self.allocs.push((p, size));
        proof {
            let m = self.mem@.len() as int;
            let n = self.allocs@.len() as int;
            assert(self.allocs@ == grown.allocs@.push((p, size)));
            assert(self.allocs@[n - 1] == (p, size));
            assert forall|i: int| 0 <= i < n implies region_ok(#[trigger] self.allocs@[i], m)
                && self.allocs@[i].0 % 8 == 0 by {
                if i < n - 1 {
                    assert(self.allocs@[i] == grown.allocs@[i]);
                }
            }
            assert forall|i: int, j: int| 0 <= i < n && 0 <= j < n && i != j implies region_sep(
                #[trigger] self.allocs@[i],
                #[trigger] self.allocs@[j],
            ) by {
                if i < n - 1 && j < n - 1 {
                    assert(region_sep(grown.allocs@[i], grown.allocs@[j]));
                } else if i == n - 1 {
                    assert(region_ok(grown.allocs@[j], p as int));
                } else {
                    assert(region_ok(grown.allocs@[i], p as int));
                }
            }
            assert forall|i: int, h: int|
                0 <= i < n && 0 <= h < self.results@.len() && self.results@[h] is Some
                implies region_sep(
                #[trigger] self.allocs@[i],
                (#[trigger] self.results@[h])->0.region(),
            ) by {
                if i == n - 1 {
                    assert(region_ok(grown.results@[h]->0.region(), p as int));
                } else {
                    assert(region_sep(grown.allocs@[i], grown.results@[h]->0.region()));
                }
            }
            assert(self.live()[n - 1] == (p, size));
        }
        p
    }

    /// Finds the index of a live buffer in the allocation list.
    fn find_block(&self, p: usize, size: usize) -> (i: usize)
        requires
            self.is_live(p, size),
        ensures
            i < self.live().len(),
            self.live()[i as int] == (p, size),
    {
        let mut i: usize = 0;
        while i < self.allocs.len()
            invariant
                i <= self.allocs@.len(),
                forall|k: int| 0 <= k < i ==> self.allocs@[k] != (p, size),
            decreases self.allocs@.len() - i,
        {
            let (bp, bs) = self.allocs[i];
            if bp == p && bs == size {
                return i;
            }
            proof {
                assert(self.allocs@[i as int] == (bp, bs));
            }
            i += 1;
        }
        proof {
            assert(self.live().contains((p, size)));
            let w = choose|w: int|
                0 <= w < self.allocs@.len() && self.allocs@[w] == (p, size);
            assert(false);
        }
        0
    }

    /// Returns a buffer to the guest. The buffer must be live and `size`
    /// must be the size it was allocated with. Afterwards no buffer is live
    /// at this address; every other live buffer, every unreleased result and
    /// all memory contents are untouched.
    pub fn free(&mut self, p: usize, size: usize)
        requires
            old(self).wf(),
            old(self).is_live(p, size),
        ensures
            final(self).wf(),
            final(self).live().len() == old(self).live().len() - 1,
            forall|s2: usize| !final(self).is_live(p, s2),
            forall|q: usize, s2: usize|
                q != p && old(self).is_live(q, s2) ==> final(self).is_live(q, s2),
            forall|q: usize, s2: usize|
                final(self).is_live(q, s2) ==> old(self).is_live(q, s2),
            final(self).mem_bytes() == old(self).mem_bytes(),
            final(self).results_table() == old(self).results_table(),
            forall|h: int| final(self).result_region(h) == old(self).result_region(h),
    {
        let ghost pre = *old(self);
        let i = self.find_block(p, size);
        self.allocs.remove(i);
        proof {
            assert(self.allocs@ == pre.allocs@.remove(i as int));
            let n = self.allocs@.len() as int;
            assert forall|k: int| 0 <= k < n implies #[trigger] self.allocs@[k]
                == pre.allocs@[if k < i { k } else { k + 1 }] by {}
            assert forall|s2: usize| !final(self).is_live(p, s2) by {
                if self.live().contains((p, s2)) {
                    let w = choose|w: int| 0 <= w < n && self.allocs@[w] == (p, s2);
                    let w0: int = if w < i { w } else { w + 1 };
                    assert(pre.allocs@[w0] == (p, s2));
                    assert(region_sep(pre.allocs@[w0], pre.allocs@[i as int]));
                }
            }
            assert forall|q: usize, s2: usize| q != p && pre.is_live(q, s2)
                implies final(self).is_live(q, s2) by {
                let w = choose|w: int|
                    0 <= w < pre.allocs@.len() && pre.allocs@[w] == (q, s2);
                if w < i {
                    assert(self.allocs@[w] == (q, s2));
                } else {
                    assert(pre.allocs@[i as int].0 == p);
                    assert(w != i);
                    assert(self.allocs@[w - 1] == (q, s2));
                }
                assert(self.live().contains((q, s2)));
            }
            assert forall|q: usize, s2: usize| final(self).is_live(q, s2)
                implies pre.is_live(q, s2) by {
                let w = choose|w: int| 0 <= w < n && self.allocs@[w] == (q, s2);
                let w0: int = if w < i { w } else { w + 1 };
                assert(pre.allocs@[w0] == (q, s2));
                assert(pre.live().contains((q, s2)));
            }
        }
    }

    /// Copies bytes into memory below the frontier without any ownership
    /// check; callers restrict it to a region they own.
    fn copy_into(&mut self, p: usize, data: &[u8])
        requires
            p + data@.len() <= old(self).mem_size(),
        ensures
            final(self).mem_size() == old(self).mem_size(),
            forall|t: int|
                0 <= t < old(self).mem_size() && !(p <= t < p + data@.len())
                    ==> final(self).mem_bytes()[t] == old(self).mem_bytes()[t],
            forall|t: int| 0 <= t < data@.len() ==> final(self).mem_bytes()[p + t] == data@[t],
            final(self).live() == old(self).live(),
            final(self).results@ == old(self).results@,
            final(self).wf() == old(self).wf(),
    {
        let ghost pre = *old(self);
        let mut k: usize = 0;
        while k < data.len()
            invariant
                k <= data@.len(),
                p + data@.len() <= pre.mem@.len(),
                self.allocs@ == pre.allocs@,
                self.results@ == pre.results@,
                self.mem@.len() == pre.mem@.len(),
                forall|t: int|
                    0 <= t < pre.mem@.len() && !(p <= t < p + k) ==> self.mem@[t] == pre.mem@[t],
                forall|t: int| 0 <= t < k ==> self.mem@[p + t] == data@[t],
            decreases data@.len() - k,
        {
            proof {
                assert(self.mem.len() == self.mem@.len());
                assert(data.len() == data@.len());
            }
            let b = data[k];
            self.mem.set(p + k, b);
            k += 1;
        }
    }

    /// Copies the host's workload bytes into a live guest buffer that is at
    /// least as long as the data. Only that buffer's prefix changes: every
    /// byte outside it, every live buffer and every unreleased result keep
    /// their place and contents.
    pub fn write(&mut self, p: usize, data: &[u8])
        requires
            old(self).wf(),
            old(self).is_live(p, data@.len() as usize),
        ensures
            final(self).wf(),
            final(self).mem_size() == old(self).mem_size(),
            final(self).mem_bytes() == old(self).mem_bytes().subrange(0, p as int) + data@
                + old(self).mem_bytes().subrange(
                p + data@.len(),
                old(self).mem_size(),
            ),
            final(self).mem_bytes().subrange(p as int, p + data@.len()) == data@,
            final(self).live() == old(self).live(),
            final(self).results_table() == old(self).results_table(),
            forall|h: int|
                old(self).result_region(h) is Some ==> final(self).result_bytes(h) == old(
                    self,
                ).result_bytes(h),
    {
        proof {
            assert(data.len() == data@.len());
            assert(old(self).live().contains((p, data@.len() as usize)));
            let w = choose|w: int|
                0 <= w < old(self).allocs@.len() && old(self).allocs@[w] == (
                    p,
                    data@.len() as usize,
                );
            assert(region_ok(old(self).allocs@[w], old(self).mem@.len() as int));
        }
        let ghost pre = *old(self);
        self.copy_into(p, data);
        proof {
            assert(self.mem@ =~= pre.mem@.subrange(0, p as int) + data@ + pre.mem@.subrange(
                p + data@.len(),
                pre.mem@.len() as int,
            ));
            assert(self.mem@.subrange(p as int, p + data@.len()) =~= data@);
            let w = choose|w: int|
                0 <= w < pre.allocs@.len() && pre.allocs@[w] == (p, data@.len() as usize);
            assert forall|h: int| pre.result_region(h) is Some
                implies final(self).result_bytes(h) == pre.result_bytes(h) by {
                let r = pre.results@[h]->0.region();
                assert(region_sep(pre.allocs@[w], pre.results@[h]->0.region()));
                assert(region_ok(pre.results@[h]->0.region(), pre.mem@.len() as int));
                assert(self.mem@.subrange(r.0 as int, r.0 + r.1) =~= pre.mem@.subrange(
                    r.0 as int,
                    r.0 + r.1,
                ));
            }
        }
    }

    /// Reads a range the host may address: exactly a live buffer or exactly
    /// an unreleased result region. Pure: the guest is untouched.
    pub fn read(&self, p: usize, len: usize) -> (out: Vec<u8>)
        requires
            self.wf(),
            self.readable(p, len),
        ensures
            out@ == self.mem_bytes().subrange(p as int, p + len),
    {
        proof {
            assert(self.mem.len() == self.mem@.len());
            if self.is_live(p, len) {
                assert(self.live().contains((p, len)));
                let w = choose|w: int|
                    0 <= w < self.allocs@.len() && self.allocs@[w] == (p, len);
                assert(region_ok(self.allocs@[w], self.mem@.len() as int));
            } else {
                let h = choose|h: int| self.result_region(h) == Some((p, len));
                assert(region_ok(self.results@[h]->0.region(), self.mem@.len() as int));
            }
        }
        let mut out: Vec<u8> = Vec::new();
        let mut k: usize = 0;
        while k < len
            invariant
                k <= len,
                p + len <= self.mem@.len(),
                self.mem@.len() <= usize::MAX,
                out@ == self.mem@.subrange(p as int, p + k),
            decreases len - k,
        {
            let b = self.mem[p + k];
            out.push(b);
            proof {
                assert(out@ =~= self.mem@.subrange(p as int, p + k + 1));
            }
            k += 1;
        }
        out
    }

    /// Interprets the `len` bytes at `p` — a live buffer the host filled — as
    /// the textual input format, parses it into a binary module held by the
    /// guest, and returns a fresh handle to it. Fails with
    /// [`GuestFault::Malformed`] exactly when the bytes do not parse; on any
    /// failure the guest is unchanged. On success the input buffer stays
    /// live, every earlier result is untouched, and the new result's bytes
    /// are exactly the parser's output for the input bytes.
    pub fn wat2wasm(&mut self, p: usize, len: usize) -> (r: Result<usize, GuestFault>)
        requires
            old(self).wf(),
            old(self).is_live(p, len),
        ensures
            final(self).wf(),
            ({
                let input = old(self).mem_bytes().subrange(p as int, p + len);
                &&& (r matches Err(f) ==> f == GuestFault::Malformed || f
                    == GuestFault::OutOfMemory)
                &&& ((r matches Err(f) && f == GuestFault::Malformed) <==> wat_output(input)
                    is None)
                &&& (r matches Err(f) && f == GuestFault::OutOfMemory ==> wat_output(input)
                    is Some && old(self).mem_size() + wat_output(input)->0.len() + 8
                    > usize::MAX)
                &&& (r matches Ok(h) ==> {
                    &&& wat_output(input) is Some
                    &&& h == old(self).result_count()
                    &&& final(self).result_count() == old(self).result_count() + 1
                    &&& final(self).live_handle(h)
                    &&& final(self).result_bytes(h as int) == Some(wat_output(input)->0)
                })
            }),
            r is Err ==> *final(self) == *old(self),
            r is Ok ==> {
                &&& final(self).live() == old(self).live()
                &&& final(self).mem_bytes().subrange(0, old(self).mem_size()) == old(
                    self,
                ).mem_bytes()
                &&& forall|h2: int|
                    0 <= h2 < old(self).result_count() ==> final(self).result_region(h2)
                        == old(self).result_region(h2) && final(self).result_bytes(h2) == old(
                        self,
                    ).result_bytes(h2)
            },
    {
        let ghost pre = *old(self);
        let input = self.read(p, len);
        let parsed = parse_wat(input.as_slice());
        match parsed {
            None => Err(GuestFault::Malformed),
            Some(out) => {
                if out.len() > usize::MAX - 8 || self.mem.len() > usize::MAX - 8 - out.len() {
                    return Err(GuestFault::OutOfMemory);
                }
                let rp = self.grow(out.len());
                let ghost grown = *self;
                self.copy_into(rp, out.as_slice());
                let ghost copied = *self;
                let handle = self.results.len();
                self.results.push(Some(Wasm { ptr: rp, len: out.len() }));
                proof {
                    let m = self.mem@.len() as int;
                    let nr = self.results@.len() as int;
                    assert(self.results@ == copied.results@.push(
                        Some(Wasm { ptr: rp, len: out.len() }),
                    ));
                    assert(self.results@[nr - 1]->0.region() == (rp, out.len() as usize));
                    assert(copied.mem@ =~= grown.mem@.subrange(0, rp as int) + out@
                        + grown.mem@.subrange(rp + out@.len(), grown.mem@.len() as int));
                    assert(copied.mem@.len() == grown.mem@.len());
                    // the fresh result region sits beyond everything older
                    assert forall|h: int|
                        0 <= h < nr && self.results@[h] is Some implies region_ok(
                        (#[trigger] self.results@[h])->0.region(),
                        m,
                    ) by {
                        if h < nr - 1 {
                            assert(region_ok(grown.results@[h]->0.region(), pre.mem@.len() as int));
                        }
                    }
                    assert forall|h: int, k: int|
                        0 <= h < nr && 0 <= k < nr && h != k && self.results@[h] is Some
                            && self.results@[k] is Some implies region_sep(
                        (#[trigger] self.results@[h])->0.region(),
                        (#[trigger] self.results@[k])->0.region(),
                    ) by {
                        if h < nr - 1 && k < nr - 1 {
                            assert(region_sep(
                                grown.results@[h]->0.region(),
                                grown.results@[k]->0.region(),
                            ));
                        } else if h == nr - 1 {
                            assert(region_ok(grown.results@[k]->0.region(), rp as int));
                        } else {
                            assert(region_ok(grown.results@[h]->0.region(), rp as int));
                        }
                    }
                    assert forall|i: int, h: int|
                        0 <= i < self.allocs@.len() && 0 <= h < nr && self.results@[h] is Some
                        implies region_sep(
                        #[trigger] self.allocs@[i],
                        (#[trigger] self.results@[h])->0.region(),
                    ) by {
                        if h < nr - 1 {
                            assert(region_sep(
                                grown.allocs@[i],
                                grown.results@[h]->0.region(),
                            ));
                        } else {
                            assert(region_ok(grown.allocs@[i], rp as int));
                        }
                    }
                    // the new result holds exactly the parser's output
                    assert(self.mem@.subrange(rp as int, rp + out@.len()) =~= out@);
                    assert(self.result_bytes(handle as int) == Some(out@));
                    // older regions kept their bytes
                    assert(self.mem@.subrange(0, pre.mem@.len() as int) =~= pre.mem@);
                    assert forall|h2: int| 0 <= h2 < pre.result_count()
                        implies self.result_region(h2) == pre.result_region(h2)
                            && self.result_bytes(h2) == pre.result_bytes(h2) by {
                        assert(self.results@[h2] == pre.results@[h2]);
                        if pre.results@[h2] is Some {
                            let r = pre.results@[h2]->0.region();
                            assert(region_ok(r, pre.mem@.len() as int));
                            assert(self.mem@.subrange(r.0 as int, r.0 + r.1)
                                =~= pre.mem@.subrange(r.0 as int, r.0 + r.1));
                        }
                    }
                    assert(pre.mem@.subrange(p as int, p + len) == input@);
                }
                Ok(handle)
            }
        }
    }

    /// The guest-memory address of an unreleased result's bytes. A pure
    /// accessor: callable any number of times with the same answer while the
    /// handle is unreleased.
    pub fn wasm_ptr(&self, handle: usize) -> (p: usize)
        requires
            self.wf(),
            self.live_handle(handle),
        ensures
            self.result_region(handle as int) matches Some(r) && p == r.0,
    {
        match &self.results[handle] {
            Some(w) => w.ptr,
            None => {
                proof {
                    assert(false);
                }
                0
            }
        }
    }

    /// The length of an unreleased result's bytes. A pure accessor:
    /// callable any number of times with the same answer while the handle is
    /// unreleased.
    pub fn wasm_len(&self, handle: usize) -> (l: usize)
        requires
            self.wf(),
            self.live_handle(handle),
        ensures
            self.result_region(handle as int) matches Some(r) && l == r.1,
    {
        match &self.results[handle] {
            Some(w) => w.len,
            None => {
                proof {
                    assert(false);
                }
                0
            }
        }
    }

    /// Releases a result. The handle must be unreleased and becomes invalid;
    /// every other result, every live buffer and all memory contents are
    /// untouched. The arena does not reuse the region.
    pub fn wasm_free(&mut self, handle: usize)
        requires
            old(self).wf(),
            old(self).live_handle(handle),
        ensures
            final(self).wf(),
            final(self).result_count() == old(self).result_count(),
            final(self).result_region(handle as int) is None,
            forall|h: int|
                h != handle ==> final(self).result_region(h) == old(self).result_region(h),
            forall|h: int|
                h != handle ==> final(self).result_bytes(h) == old(self).result_bytes(h),
            final(self).live() == old(self).live(),
            final(self).mem_bytes() == old(self).mem_bytes(),
    {
        self.results.set(handle, None);
    }

    /// Checks the `len` bytes at `p` in place as a binary module, discarding
    /// everything but the yes-or-no outcome: succeeds exactly when they are
    /// well-formed. Pure: the guest is untouched.
    pub fn validate(&self, p: usize, len: usize) -> (r: Result<(), GuestFault>)
        requires
            self.wf(),
            self.readable(p, len),
        ensures
            r is Ok <==> wasm_valid(self.mem_bytes().subrange(p as int, p + len)),
            r is Err ==> r->Err_0 == GuestFault::Invalid,
    {
        let bytes = self.read(p, len);
        if validate_wasm(bytes.as_slice()) {
            Ok(())
        } else {
            Err(GuestFault::Invalid)
        }
    }
}

} // verus!
