//! Service-level cache keys and the background warmer's plan.
use crate::errors::ServiceError;
use vstd::prelude::*;

verus! {

/// What a cached computation is about: one comic page (no id means the
/// latest), the current maximum id, or the rendered feed document.
#[derive(Clone, Copy, Debug)]
pub enum CacheKey {
    /// The comic page for an id; `None` asks for the most recent comic.
    Comic(Option<u32>),
    /// The current maximum comic id.
    MaxId,
    /// The rendered feed document.
    Feed,
}

impl CacheKey {
    /// The numeric form under which the memoizing cache files this key.
    pub open spec fn spec_encode(&self) -> u64 {
        match *self {
            CacheKey::MaxId => 0,
            CacheKey::Feed => 1,
            CacheKey::Comic(None) => 2,
            CacheKey::Comic(Some(id)) => (3 + id as u64) as u64,
        }
    }

    /// Encode this key for the memoizing cache.
    pub fn encode(&self) -> (r: u64)
        ensures
            r == self.spec_encode(),
    {
        match *self {
            CacheKey::MaxId => 0,
            CacheKey::Feed => 1,
            CacheKey::Comic(None) => 2,
            CacheKey::Comic(Some(id)) => 3 + id as u64,
        }
    }
}

/// Law: distinct keys are filed under distinct codes, so computations for
/// different keys never share a cache entry or a flight claim.
pub proof fn lemma_encode_injective(a: CacheKey, b: CacheKey)
    requires
        a.spec_encode() == b.spec_encode(),
    ensures
        a == b,
{
}

/// The ids a warmer cycle walks: `1..=max_id`, in ascending order.
pub open spec fn warm_ids(max_id: u32) -> Seq<u32> {
    Seq::new(max_id as nat, |i: int| (i + 1) as u32)
}

/// Plan one warmer cycle from the outcome of the max-id resolution: on
/// success, every id from one to the maximum, in ascending order, each to be
/// re-primed in turn; on failure, nothing — the cycle is skipped and retried
/// on the next period tick.
pub fn warm_plan(max_id_outcome: &Result<u32, ServiceError>) -> (r: Vec<u32>)
    ensures
        match *max_id_outcome {
            Ok(m) => r@ == warm_ids(m),
            Err(_) => r@.len() == 0,
        },
{
    match max_id_outcome {
        Ok(m) => {
            let max_id = *m;
            let mut v: Vec<u32> = Vec::new();
            let mut i: u32 = 0;
            while i < max_id
                invariant
                    i <= max_id,
                    v@.len() == i as nat,
                    forall|j: int| 0 <= j < i ==> v@[j] == j + 1,
                decreases max_id - i,
            {
                v.push(i + 1);
                i = i + 1;
            }
            proof {
                assert(v@ =~= warm_ids(max_id));
            }
            v
        },
        Err(_) => Vec::new(),
    }
}

} // verus!
