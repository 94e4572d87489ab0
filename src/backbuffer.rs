//! Sizing policy of the swap chain's back buffer. The buffer only grows:
//! a request within the allocated size leaves it alone, so that an
//! interactive resize does not reallocate on every step.
use vstd::prelude::*;

verus! {

/// Allocated sizes are whole multiples of this many pixels.
pub const BACKBUFFER_ALIGNMENT: i32 = 512;

/// Every allocated size stays below this many pixels on each axis.
pub const BACKBUFFER_LIMIT: u32 = 16384;

/// The largest client extent whose aligned size stays below the limit.
pub const MAX_CLIENT_EXTENT: i32 = 15872;

/// The smallest multiple of `a` that is at least `x` (for `x >= 0`, `a > 0`).
pub open spec fn aligned_up(x: int, a: int) -> int {
    ((x + a - 1) / a) * a
}

/// Rounds `x` up to a whole multiple of `alignment`.
pub fn align_up(x: i32, alignment: i32) -> (r: i32)
    requires
        0 <= x,
        0 < alignment,
        x + alignment - 1 <= i32::MAX,
    ensures
        r == aligned_up(x as int, alignment as int),
        r % alignment == 0,
        x <= r < x + alignment,
{
    let q = (x + (alignment - 1)) / alignment;
    proof {
        let a = alignment as int;
        let s = x as int + a - 1;
        assert(q * a <= s && s < q * a + a) by (nonlinear_arith)
            requires q == s / a, a > 0, s >= 0;
        assert((q * a) % a == 0) by (nonlinear_arith)
            requires a > 0, q >= 0;
        assert(q * a <= i32::MAX) by (nonlinear_arith)
            requires q * a <= s, s <= i32::MAX;
    }
    q * alignment
}

/// The size a client area asks for: each extent aligned up.
pub open spec fn requested_dim(client: (i32, i32)) -> (u32, u32) {
    (
        aligned_up(client.0 as int, 512) as u32,
        aligned_up(client.1 as int, 512) as u32,
    )
}

/// Whether a request exceeds what is allocated on some axis (or nothing is).
pub open spec fn exceeds(allocated: Option<(u32, u32)>, req: (u32, u32)) -> bool {
    match allocated {
        None => true,
        Some(d) => req.0 > d.0 || req.1 > d.1,
    }
}

/// The larger of two extents.
pub open spec fn larger(a: u32, b: u32) -> u32 {
    if a >= b {
        a
    } else {
        b
    }
}

/// The allocation after a request: where the request exceeds the allocated
/// size on some axis, the larger of the two on each axis; else unchanged.
/// It never shrinks.
pub open spec fn after_request(allocated: Option<(u32, u32)>, client: (i32, i32)) -> Option<
    (u32, u32),
> {
    let req = requested_dim(client);
    match allocated {
        None => Some(req),
        Some(d) => if exceeds(allocated, req) {
            Some((larger(d.0, req.0), larger(d.1, req.1)))
        } else {
            allocated
        },
    }
}

/// A client size the back buffer can be made for.
pub open spec fn valid_client(client: (i32, i32)) -> bool {
    0 <= client.0 <= 15872 && 0 <= client.1 <= 15872
}

/// How many reallocations a sequence of client sizes causes, from `allocated`.
pub open spec fn reallocations(allocated: Option<(u32, u32)>, reqs: Seq<(i32, i32)>) -> nat
    decreases reqs.len(),
{
    if reqs.len() == 0 {
        0
    } else {
        let step: nat = if exceeds(allocated, requested_dim(reqs[0])) {
            1
        } else {
            0
        };
        step + reallocations(after_request(allocated, reqs[0]), reqs.drop_first())
    }
}

/// The allocated size of the back buffer, if one has been made.
#[derive(Debug, Clone, Copy)]
pub struct BackBufferSize {
    pub dim: Option<(u32, u32)>,
}

impl BackBufferSize {
    /// Allocated sizes are whole multiples of the alignment and stay below
    /// the limit on both axes.
    pub open spec fn wf(&self) -> bool {
        match self.dim {
            None => true,
            Some(d) => d.0 < 16384 && d.1 < 16384 && d.0 % 512 == 0 && d.1 % 512 == 0,
        }
    }

    /// Nothing allocated yet.
    pub fn new() -> (r: BackBufferSize)
        ensures
            r.dim is None,
            r.wf(),
    {
        BackBufferSize { dim: None }
    }

    /// Takes the current client size. Returns whether the buffers must be
    /// reallocated, which is so exactly when the aligned request exceeds the
    /// allocated size on some axis; the new size, the larger of the two on
    /// each axis, is then recorded.
    pub fn request(&mut self, client: (i32, i32)) -> (realloc: bool)
        requires
            old(self).wf(),
            valid_client(client),
        ensures
            final(self).wf(),
            realloc == exceeds(old(self).dim, requested_dim(client)),
            final(self).dim == after_request(old(self).dim, client),
    {
        let w = align_up(client.0, BACKBUFFER_ALIGNMENT);
        let h = align_up(client.1, BACKBUFFER_ALIGNMENT);
        let req: (u32, u32) = (w as u32, h as u32);
        assert(req == requested_dim(client));
        match self.dim {
            None => {
                self.dim = Some(req);
                true
            },
            Some(d) => {
                if req.0 > d.0 || req.1 > d.1 {
                    let w = if d.0 >= req.0 {
                        d.0
                    } else {
                        req.0
                    };
                    let h = if d.1 >= req.1 {
                        d.1
                    } else {
                        req.1
                    };
                    self.dim = Some((w, h));
                    true
                } else {
                    false
                }
            },
        }
    }
}

/// The back buffer grows only: once a size is allocated, client sizes that
/// all fit within it cause no reallocation at all.
pub proof fn lemma_requests_within_allocation(d: (u32, u32), reqs: Seq<(i32, i32)>)
    requires
        forall|i: int|
            0 <= i < reqs.len() ==> #[trigger] requested_dim(reqs[i]).0 <= d.0
                && requested_dim(reqs[i]).1 <= d.1,
    ensures
        reallocations(Some(d), reqs) == 0,
    decreases reqs.len(),
{
    if reqs.len() > 0 {
        let rest = reqs.drop_first();
        assert forall|i: int| 0 <= i < rest.len() implies #[trigger] requested_dim(rest[i]).0 <= d.0
            && requested_dim(rest[i]).1 <= d.1 by {
            assert(rest[i] == reqs[i + 1]);
        }
        assert(requested_dim(reqs[0]).0 <= d.0);
        lemma_requests_within_allocation(d, rest);
    }
}

/// A reallocation happens only where a request exceeds the allocation on
/// some axis, and the allocation after it covers both that request and the
/// allocation before it: the back buffer never shrinks.
pub proof fn lemma_request_grows_only(allocated: Option<(u32, u32)>, client: (i32, i32))
    ensures
        !exceeds(allocated, requested_dim(client)) ==> after_request(allocated, client)
            == allocated,
        after_request(allocated, client) is Some,
        requested_dim(client).0 <= after_request(allocated, client)->Some_0.0,
        requested_dim(client).1 <= after_request(allocated, client)->Some_0.1,
        allocated matches Some(d) ==> d.0 <= after_request(allocated, client)->Some_0.0 && d.1
            <= after_request(allocated, client)->Some_0.1,
{
}

} // verus!
