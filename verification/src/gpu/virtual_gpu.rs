//! Allocation pool: exclusive, quota-bounded ownership of GPUs.
//!
//! The pool owns the allocation records. `allocate` either grants a device
//! to a consumer and returns its deterministic cost, or fails without any
//! mutation; `release` clears a record and is idempotent. At most one
//! consumer owns a device at any time.

use vstd::prelude::*;

verus! {

/// Credits charged per MB of VRAM: `VRAM_RATE_NUM / VRAM_RATE_DEN`.
pub const VRAM_RATE_NUM: u64 = 1;

/// Denominator of the per-MB rate.
pub const VRAM_RATE_DEN: u64 = 10;

/// Credits charged per compute unit.
pub const COMPUTE_UNIT_RATE: u64 = 2;

/// A GPU as the allocation pool sees it: capacity plus the consumer that
/// currently owns it, if any.
#[derive(Debug, Clone)]
pub struct VirtualGPU {
    pub id: u32,
    pub vram_mb: u32,
    pub compute_units: u32,
    pub allocated_to: Option<String>,
}

/// Mathematical image of a [`VirtualGPU`]: the owner is a character
/// sequence rather than heap-allocated text.
pub ghost struct GpuV {
    pub id: u32,
    pub vram_mb: u32,
    pub compute_units: u32,
    pub allocated_to: Option<Seq<char>>,
}

impl View for VirtualGPU {
    type V = GpuV;

    open spec fn view(&self) -> GpuV {
        GpuV {
            id: self.id,
            vram_mb: self.vram_mb,
            compute_units: self.compute_units,
            allocated_to: match self.allocated_to {
                Some(u) => Some(u@),
                None => None,
            },
        }
    }
}

/// Per-consumer limits on what the pool may grant concurrently.
#[derive(Debug, Clone, Copy)]
pub struct Quota {
    /// Greatest number of devices one consumer may hold at once.
    pub max_gpus: u64,
    /// Greatest total VRAM, in MB, one consumer may hold at once.
    pub max_vram_mb: u64,
}

/// Why an allocation-pool operation was refused; each variant names the
/// offending device.
#[derive(Debug, Clone, Copy, PartialEq, Eq, Structural)]
pub enum AllocationError {
    /// No device with this id is in the pool.
    NotFound(u32),
    /// An allocation record for this device already exists.
    AlreadyAllocated(u32),
    /// Granting this device would exceed the consumer's quota.
    QuotaExceeded(u32),
}

/// The pool of shareable GPUs with their allocation records.
pub struct GPUPool {
    pub gpus: Vec<VirtualGPU>,
    pub quota: Quota,
}

/// The deterministic allocation cost of a device: computed once when the
/// device is granted and immutable thereafter.
pub open spec fn spec_cost(vram_mb: u32, compute_units: u32) -> int {
    (vram_mb as int) * (VRAM_RATE_NUM as int) / (VRAM_RATE_DEN as int)
        + (compute_units as int) * (COMPUTE_UNIT_RATE as int)
}

/// The views of the pool's devices, in pool order.
pub open spec fn pool_view(gpus: Seq<VirtualGPU>) -> Seq<GpuV> {
    gpus.map_values(|g: VirtualGPU| g@)
}

/// Whether `g` is currently allocated to `user`.
pub open spec fn owned_by(g: GpuV, user: Seq<char>) -> bool {
    g.allocated_to == Some(user)
}

/// How many devices of `s` are allocated to `user`.
pub open spec fn gpu_count_of(s: Seq<GpuV>, user: Seq<char>) -> int
    decreases s.len(),
{
    if s.len() == 0 {
        0
    } else {
        gpu_count_of(s.drop_last(), user) + if owned_by(s.last(), user) {
            1int
        } else {
            0int
        }
    }
}

/// Total VRAM, in MB, of the devices of `s` allocated to `user`.
pub open spec fn vram_footprint_of(s: Seq<GpuV>, user: Seq<char>) -> int
    decreases s.len(),
{
    if s.len() == 0 {
        0
    } else {
        vram_footprint_of(s.drop_last(), user) + if owned_by(s.last(), user) {
            s.last().vram_mb as int
        } else {
            0int
        }
    }
}

/// Whether some device of `s` has id `id`.
pub open spec fn has_gpu(s: Seq<GpuV>, id: u32) -> bool {
    exists|i: int| 0 <= i < s.len() && (#[trigger] s[i]).id == id
}

/// The index of the device with id `id` (unique when the pool is
/// well formed).
pub open spec fn idx_of(s: Seq<GpuV>, id: u32) -> int {
    choose|i: int| 0 <= i < s.len() && (#[trigger] s[i]).id == id
}

/// Device ids are unique across the pool.
pub open spec fn wf_gpus(s: Seq<GpuV>) -> bool {
    forall|i: int, j: int|
        0 <= i < j < s.len() ==> (#[trigger] s[i]).id != (#[trigger] s[j]).id
}

/// Whether granting the device at `i` to `user` stays within `q`.
pub open spec fn quota_admits(s: Seq<GpuV>, q: Quota, user: Seq<char>, i: int) -> bool {
    gpu_count_of(s, user) + 1 <= q.max_gpus
        && vram_footprint_of(s, user) + s[i].vram_mb <= q.max_vram_mb
}

/// The result and the successor pool of one `allocate` call: the whole
/// transition, so that relations between calls can be stated and proved.
pub open spec fn spec_allocate(s: Seq<GpuV>, q: Quota, user: Seq<char>, id: u32) -> (Result<
    u64,
    AllocationError,
>, Seq<GpuV>) {
    if !has_gpu(s, id) {
        (Err(AllocationError::NotFound(id)), s)
    } else {
        let i = idx_of(s, id);
        if s[i].allocated_to is Some {
            (Err(AllocationError::AlreadyAllocated(id)), s)
        } else if !quota_admits(s, q, user, i) {
            (Err(AllocationError::QuotaExceeded(id)), s)
        } else {
            (
                Ok(spec_cost(s[i].vram_mb, s[i].compute_units) as u64),
                s.update(i, GpuV { allocated_to: Some(user), ..s[i] }),
            )
        }
    }
}

/// The result and the successor pool of one `release` call.
pub open spec fn spec_release(s: Seq<GpuV>, id: u32) -> (Result<(), AllocationError>, Seq<GpuV>) {
    if !has_gpu(s, id) {
        (Err(AllocationError::NotFound(id)), s)
    } else {
        let i = idx_of(s, id);
        (Ok(()), s.update(i, GpuV { allocated_to: None, ..s[i] }))
    }
}

impl VirtualGPU {
    /// The cost of allocating this device.
    pub fn cost(&self) -> (c: u64)
        ensures
            c == spec_cost(self.vram_mb, self.compute_units),
    {
        (self.vram_mb as u64) * VRAM_RATE_NUM / VRAM_RATE_DEN
            + (self.compute_units as u64) * COMPUTE_UNIT_RATE
    }
}

impl GPUPool {
    /// Device ids are unique, so an allocation record names one device.
    pub open spec fn wf(&self) -> bool {
        wf_gpus(pool_view(self.gpus@))
    }

    /// A fresh pool holding the two built-in shareable GPUs, none
    /// allocated, under a permissive default quota.
    pub fn new() -> (pool: GPUPool)
        ensures
            pool.wf(),
            pool_view(pool.gpus@) =~= seq![
                GpuV { id: 0, vram_mb: 8192, compute_units: 32, allocated_to: None },
                GpuV { id: 1, vram_mb: 16384, compute_units: 64, allocated_to: None },
            ],
            pool.quota.max_gpus == 8,
            pool.quota.max_vram_mb == 1048576,
    {
        let mut gpus: Vec<VirtualGPU> = Vec::new();
        gpus.push(VirtualGPU { id: 0, vram_mb: 8192, compute_units: 32, allocated_to: None });
        gpus.push(VirtualGPU { id: 1, vram_mb: 16384, compute_units: 64, allocated_to: None });
        let pool = GPUPool { gpus, quota: Quota { max_gpus: 8, max_vram_mb: 1048576 } };
        proof {
            assert(pool_view(pool.gpus@) =~= seq![
                GpuV { id: 0, vram_mb: 8192, compute_units: 32, allocated_to: None },
                GpuV { id: 1, vram_mb: 16384, compute_units: 64, allocated_to: None },
            ]);
        }
        pool
    }

    /// Index of the device with id `gpu_id`, if any.
    fn find_index(&self, gpu_id: u32) -> (r: Option<usize>)
        requires
            self.wf(),
        ensures
            match r {
                Some(i) => i < self.gpus@.len() && self.gpus@[i as int]@.id == gpu_id
                    && i as int == idx_of(pool_view(self.gpus@), gpu_id)
                    && has_gpu(pool_view(self.gpus@), gpu_id),
                None => !has_gpu(pool_view(self.gpus@), gpu_id),
            },
    {
        let ghost s = pool_view(self.gpus@);
        let n = self.gpus.len();
        let mut i: usize = 0;
        while i < n
            invariant
                n == self.gpus@.len(),
                i <= n,
                s == pool_view(self.gpus@),
                wf_gpus(s),
                forall|k: int| 0 <= k < i ==> (#[trigger] s[k]).id != gpu_id,
            decreases n - i,
        {
            if self.gpus[i].id == gpu_id {
                proof {
                    assert(s[i as int].id == gpu_id);
                    let c = idx_of(s, gpu_id);
                    assert(0 <= c < s.len() && s[c].id == gpu_id);
                    if c != i as int {
                        assert(false);
                    }
                }
                return Some(i);
            }
            proof {
                assert(s[i as int] == self.gpus@[i as int]@);
            }
            i = i + 1;
        }
        None
    }

    /// How many devices `user` currently holds, and their total VRAM.
    fn footprint(&self, user: &str) -> (r: (u64, u128))
        ensures
            r.0 == gpu_count_of(pool_view(self.gpus@), user@),
            r.1 == vram_footprint_of(pool_view(self.gpus@), user@),
            r.1 <= self.gpus@.len() * (u32::MAX as int),
    {
        let ghost s = pool_view(self.gpus@);
        let n = self.gpus.len();
        let mut count: u64 = 0;
        let mut vram: u128 = 0;
        let mut i: usize = 0;
        while i < n
            invariant
                n == self.gpus@.len(),
                i <= n,
                s == pool_view(self.gpus@),
                count == gpu_count_of(s.take(i as int), user@),
                vram == vram_footprint_of(s.take(i as int), user@),
                count <= i,
                vram <= (i as int) * (u32::MAX as int),
            decreases n - i,
        {
            let owned = match &self.gpus[i].allocated_to {
                Some(owner) => crate::utils::str_eq(owner.as_str(), user),
                None => false,
            };
            proof {
                assert(s[i as int] == self.gpus@[i as int]@);
                assert(s.take(i + 1).drop_last() =~= s.take(i as int));
                assert(s.take(i + 1).last() == s[i as int]);
                assert(owned == owned_by(s[i as int], user@));
            }
            if owned {
                count = count + 1;
                let v = self.gpus[i].vram_mb;
                vram = vram + v as u128;
            }
            i = i + 1;
        }
        proof {
            assert(s.take(n as int) =~= s);
        }
        (count, vram)
    }

    /// Whether the device `gpu_id` is currently allocated to `user`: the
    /// ownership question the passthrough orchestrator asks before it
    /// touches a device.
    pub fn is_allocated_to(&self, gpu_id: u32, user: &str) -> (r: bool)
        requires
            self.wf(),
        ensures
            r == ({
                let s = pool_view(self.gpus@);
                has_gpu(s, gpu_id) && owned_by(s[idx_of(s, gpu_id)], user@)
            }),
    {
        match self.find_index(gpu_id) {
            Some(i) => match &self.gpus[i].allocated_to {
                Some(o) => crate::utils::str_eq(o.as_str(), user),
                None => false,
            },
            None => false,
        }
    }

    /// Grants the device `gpu_id` exclusively to `user` and returns the
    /// recorded cost. Fails closed: on any error the pool is unchanged.
    pub fn allocate(&mut self, user: &str, gpu_id: u32) -> (r: Result<u64, AllocationError>)
        requires
            old(self).wf(),
        ensures
            final(self).wf(),
            final(self).quota == old(self).quota,
            (r, pool_view(final(self).gpus@)) == spec_allocate(
                pool_view(old(self).gpus@),
                old(self).quota,
                user@,
                gpu_id,
            ),
            r is Err ==> final(self).gpus@ == old(self).gpus@,
    {
        let ghost s0 = pool_view(self.gpus@);
        let found = self.find_index(gpu_id);
        let i = match found {
            None => {
                return Err(AllocationError::NotFound(gpu_id));
            },
            Some(i) => i,
        };
        let already = self.gpus[i].allocated_to.is_some();
        if already {
            return Err(AllocationError::AlreadyAllocated(gpu_id));
        }
        let (count, vram) = self.footprint(user);
        let n = self.gpus.len();
        proof {
            assert(self.gpus@.len() <= usize::MAX);
            assert(vram <= (usize::MAX as int) * (u32::MAX as int)) by (nonlinear_arith)
                requires
                    vram <= self.gpus@.len() * (u32::MAX as int),
                    self.gpus@.len() <= usize::MAX,
            ;
        }
        let vram_mb = self.gpus[i].vram_mb;
        let compute_units = self.gpus[i].compute_units;
        if count >= u64::MAX || (count + 1) as u128 > self.quota.max_gpus as u128
            || vram + vram_mb as u128 > self.quota.max_vram_mb as u128 {
            proof {
                assert(!quota_admits(s0, self.quota, user@, i as int));
            }
            return Err(AllocationError::QuotaExceeded(gpu_id));
        }
        proof {
            assert(quota_admits(s0, self.quota, user@, i as int));
        }
        let cost = self.gpus[i].cost();
        let replacement = VirtualGPU {
            id: gpu_id,
            vram_mb,
            compute_units,
            allocated_to: Some(user.to_owned()),
        };
        self.gpus.set(i, replacement);
        proof {
            assert(pool_view(self.gpus@) =~= s0.update(
                i as int,
                GpuV { allocated_to: Some(user@), ..s0[i as int] },
            ));
        }
        Ok(cost)
    }

    /// Clears the allocation record of `gpu_id`; idempotent, and fails
    /// only when the pool holds no such device.
    pub fn release(&mut self, gpu_id: u32) -> (r: Result<(), AllocationError>)
        requires
            old(self).wf(),
        ensures
            final(self).wf(),
            final(self).quota == old(self).quota,
            (r, pool_view(final(self).gpus@)) == spec_release(pool_view(old(self).gpus@), gpu_id),
            r is Err ==> final(self).gpus@ == old(self).gpus@,
    {
        let ghost s0 = pool_view(self.gpus@);
        let found = self.find_index(gpu_id);
        let i = match found {
            None => {
                return Err(AllocationError::NotFound(gpu_id));
            },
            Some(i) => i,
        };
        let vram_mb = self.gpus[i].vram_mb;
        let compute_units = self.gpus[i].compute_units;
        let replacement = VirtualGPU { id: gpu_id, vram_mb, compute_units, allocated_to: None };
        self.gpus.set(i, replacement);
        proof {
            assert(pool_view(self.gpus@) =~= s0.update(
                i as int,
                GpuV { allocated_to: None, ..s0[i as int] },
            ));
        }
        Ok(())
    }

    /// The devices currently allocated to `user`, in pool order.
    pub fn get_allocated_gpus(&self, user: &str) -> (r: Vec<VirtualGPU>)
        ensures
            pool_view(r@) == pool_view(self.gpus@).filter(|g: GpuV| owned_by(g, user@)),
    {
        let ghost s = pool_view(self.gpus@);
        let n = self.gpus.len();
        let mut r: Vec<VirtualGPU> = Vec::new();
        let mut i: usize = 0;
        while i < n
            invariant
                n == self.gpus@.len(),
                i <= n,
                s == pool_view(self.gpus@),
                pool_view(r@) =~= s.take(i as int).filter(|g: GpuV| owned_by(g, user@)),
            decreases n - i,
        {
            let ghost r_pre = pool_view(r@);
            let owned = match &self.gpus[i].allocated_to {
                Some(owner) => crate::utils::str_eq(owner.as_str(), user),
                None => false,
            };
            proof {
                assert(s[i as int] == self.gpus@[i as int]@);
            }
            if owned {
                let g = &self.gpus[i];
                let copy = VirtualGPU {
                    id: g.id,
                    vram_mb: g.vram_mb,
                    compute_units: g.compute_units,
                    allocated_to: match &g.allocated_to {
                        Some(owner) => Some(owner.clone()),
                        None => None,
                    },
                };
                proof {
                    assert(copy@ == s[i as int]);
                }
                r.push(copy);
                proof {
                    assert(pool_view(r@) =~= r_pre.push(s[i as int]));
                }
            }
            proof {
                assert(s.take(i + 1).drop_last() =~= s.take(i as int));
                reveal(Seq::filter);
                assert(s.take(i + 1).filter(|g: GpuV| owned_by(g, user@)) == if owned_by(
                    s[i as int],
                    user@,
                ) {
                    s.take(i as int).filter(|g: GpuV| owned_by(g, user@)).push(s[i as int])
                } else {
                    s.take(i as int).filter(|g: GpuV| owned_by(g, user@))
                });
            }
            i = i + 1;
        }
        proof {
            assert(s.take(n as int) =~= s);
        }
        r
    }
}

/// Exclusivity: when one of two `allocate` calls for the same device has
/// succeeded, the other — whoever issued it and in either order — fails
/// with `AlreadyAllocated` and leaves the pool exactly as the first call
/// left it.
pub proof fn lemma_allocate_exclusive(
    s: Seq<GpuV>,
    q: Quota,
    user1: Seq<char>,
    user2: Seq<char>,
    id: u32,
)
    requires
        wf_gpus(s),
        spec_allocate(s, q, user1, id).0 is Ok,
    ensures
        spec_allocate(spec_allocate(s, q, user1, id).1, q, user2, id).0 == Result::<
            u64,
            AllocationError,
        >::Err(AllocationError::AlreadyAllocated(id)),
        spec_allocate(spec_allocate(s, q, user1, id).1, q, user2, id).1 == spec_allocate(
            s,
            q,
            user1,
            id,
        ).1,
{
    let s1 = spec_allocate(s, q, user1, id).1;
    let i = idx_of(s, id);
    assert(has_gpu(s, id));
    assert(0 <= i < s.len() && s[i].id == id);
    assert(s1 == s.update(i, GpuV { allocated_to: Some(user1), ..s[i] }));
    assert(s1[i].id == id);
    assert(has_gpu(s1, id));
    let j = idx_of(s1, id);
    assert(0 <= j < s1.len() && s1[j].id == id);
    lemma_unique_update_keeps_wf(s, i, GpuV { allocated_to: Some(user1), ..s[i] });
    if j != i {
        assert(false);
    }
    assert(s1[i].allocated_to is Some);
}

/// Updating a device in place, with its id kept, preserves id uniqueness.
proof fn lemma_unique_update_keeps_wf(s: Seq<GpuV>, i: int, g: GpuV)
    requires
        wf_gpus(s),
        0 <= i < s.len(),
        g.id == s[i].id,
    ensures
        wf_gpus(s.update(i, g)),
{
}


/// Release makes room: after `release(id)`, an `allocate(user, id)` by any
/// consumer whose quota admits the device succeeds, at the device's
/// deterministic cost.
pub proof fn lemma_release_then_allocate(s: Seq<GpuV>, q: Quota, user: Seq<char>, id: u32)
    requires
        wf_gpus(s),
        has_gpu(s, id),
        quota_admits(spec_release(s, id).1, q, user, idx_of(spec_release(s, id).1, id)),
    ensures
        spec_allocate(spec_release(s, id).1, q, user, id).0 == Result::<
            u64,
            AllocationError,
        >::Ok(
            spec_cost(s[idx_of(s, id)].vram_mb, s[idx_of(s, id)].compute_units) as u64,
        ),
{
    let i = idx_of(s, id);
    assert(0 <= i < s.len() && s[i].id == id);
    let s1 = spec_release(s, id).1;
    assert(s1 == s.update(i, GpuV { allocated_to: None, ..s[i] }));
    lemma_unique_update_keeps_wf(s, i, GpuV { allocated_to: None, ..s[i] });
    assert(s1[i].id == id);
    assert(has_gpu(s1, id));
    let j = idx_of(s1, id);
    assert(0 <= j < s1.len() && s1[j].id == id);
    if j != i {
        assert(false);
    }
    assert(s1[i].allocated_to is None);
}

/// Cost determinism: allocating a device, releasing it, and allocating it
/// again — to anyone — yields the same cost both times.
pub proof fn lemma_cost_deterministic(
    s: Seq<GpuV>,
    q: Quota,
    user1: Seq<char>,
    user2: Seq<char>,
    id: u32,
)
    requires
        wf_gpus(s),
        spec_allocate(s, q, user1, id).0 is Ok,
        spec_allocate(
            spec_release(spec_allocate(s, q, user1, id).1, id).1,
            q,
            user2,
            id,
        ).0 is Ok,
    ensures
        spec_allocate(
            spec_release(spec_allocate(s, q, user1, id).1, id).1,
            q,
            user2,
            id,
        ).0 == spec_allocate(s, q, user1, id).0,
{
    let i = idx_of(s, id);
    assert(has_gpu(s, id));
    assert(0 <= i < s.len() && s[i].id == id);
    let g1 = GpuV { allocated_to: Some(user1), ..s[i] };
    let s1 = spec_allocate(s, q, user1, id).1;
    assert(s1 == s.update(i, g1));
    lemma_unique_update_keeps_wf(s, i, g1);
    assert(s1[i].id == id);
    assert(has_gpu(s1, id));
    let j = idx_of(s1, id);
    if j != i {
        assert(false);
    }
    let g2 = GpuV { allocated_to: None, ..s1[i] };
    let s2 = spec_release(s1, id).1;
    assert(s2 == s1.update(i, g2));
    lemma_unique_update_keeps_wf(s1, i, g2);
    assert(s2[i].id == id);
    assert(has_gpu(s2, id));
    let k = idx_of(s2, id);
    if k != i {
        assert(false);
    }
    assert(s2[i].vram_mb == s[i].vram_mb && s2[i].compute_units == s[i].compute_units);
}

/// A refused allocation mutates nothing: in particular, a `QuotaExceeded`
/// answer leaves the consumer's device count and VRAM footprint unchanged.
pub proof fn lemma_failed_allocate_unchanged(s: Seq<GpuV>, q: Quota, user: Seq<char>, id: u32)
    requires
        spec_allocate(s, q, user, id).0 is Err,
    ensures
        spec_allocate(s, q, user, id).1 == s,
        gpu_count_of(spec_allocate(s, q, user, id).1, user) == gpu_count_of(s, user),
        vram_footprint_of(spec_allocate(s, q, user, id).1, user) == vram_footprint_of(s, user),
{
}

} // verus!
