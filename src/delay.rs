use vstd::prelude::*;
use crate::error::ConfigError;
use rand::Rng;

verus! {

/// Per-worker delays in seconds, fixed before any worker starts.
pub struct DelayTable {
    delays: Vec<u64>,
    max_delay: u64,
}

/// Relies on `rand::thread_rng` and `Rng::gen_range` over `0..=max_delay`:
/// a value drawn from that inclusive range, which is never empty.
#[verifier::external_body]
fn random_delay(max_delay: u64) -> (r: u64)
    ensures
        r <= max_delay,
{
    rand::thread_rng().gen_range(0..=max_delay)
}

impl View for DelayTable {
    type V = Seq<u64>;

    closed spec fn view(&self) -> Seq<u64> {
        self.delays@
    }
}

impl DelayTable {
    /// The largest delay any entry may hold.
    pub closed spec fn max_delay_spec(&self) -> u64 {
        self.max_delay
    }

    /// Every entry lies in `[0, max_delay]`.
    pub open spec fn wf(&self) -> bool {
        forall|i: int| 0 <= i < self@.len() ==> #[trigger] self@[i] <= self.max_delay_spec()
    }

    /// Builds the table from delays already drawn, one per worker, in worker
    /// order. Fails on the first draw above `max_delay`.
    pub fn from_draws(draws: Vec<u64>, max_delay: u64) -> (r: Result<DelayTable, ConfigError>)
        ensures
            r is Ok <==> (forall|i: int| 0 <= i < draws@.len() ==> #[trigger] draws@[i] <= max_delay),
            r matches Ok(t) ==> built_from(t, draws@, max_delay),
            r matches Err(e) ==> (e matches ConfigError::DelayOutOfRange { index } && index < draws@.len()
                && draws@[index as int] > max_delay && forall|i: int| 0 <= i < index ==> #[trigger] draws@[i] <= max_delay),
    {
        let mut i: usize = 0;
        while i < draws.len()
            invariant
                i <= draws@.len(),
                forall|j: int| 0 <= j < i ==> #[trigger] draws@[j] <= max_delay,
            decreases draws@.len() - i,
        {
            if draws[i] > max_delay {
                return Err(ConfigError::DelayOutOfRange { index: i });
            }
            i = i + 1;
        }
        Ok(DelayTable { delays: draws, max_delay })
    }

    /// Draws an independent delay in `[0, max_delay]` for each of `n` workers.
    pub fn build(n: usize, max_delay: u64) -> (r: DelayTable)
        ensures
            r@.len() == n,
            r.max_delay_spec() == max_delay,
            r.wf(),
    {
        let mut draws: Vec<u64> = Vec::new();
        let mut i: usize = 0;
        while i < n
            invariant
                i <= n,
                draws@.len() == i,
                forall|j: int| 0 <= j < i ==> #[trigger] draws@[j] <= max_delay,
            decreases n - i,
        {
            let d = random_delay(max_delay);
            draws.push(d);
            i = i + 1;
        }
        match DelayTable::from_draws(draws, max_delay) {
            Ok(t) => t,
            Err(_) => DelayTable { delays: Vec::new(), max_delay },
        }
    }

    /// The number of workers the table was built for.
    pub fn len(&self) -> (r: usize)
        ensures
            r == self@.len(),
    {
        self.delays.len()
    }

    /// The largest delay allowed.
    pub fn max_delay(&self) -> (r: u64)
        ensures
            r == self.max_delay_spec(),
    {
        self.max_delay
    }

    /// The delay of worker `index`, if the table has one.
    pub fn delay_of(&self, index: usize) -> (r: Option<u64>)
        ensures
            r is Some <==> index < self@.len(),
            r matches Some(d) ==> d == self@[index as int],
    {
        if index < self.delays.len() {
            Some(self.delays[index])
        } else {
            None
        }
    }

    /// All delays, in worker order.
    pub fn delays(&self) -> (r: Vec<u64>)
        ensures
            r@ == self@,
    {
        self.delays.clone()
    }
}

/// `t` is the table built from `draws` with largest delay `max_delay`.
pub open spec fn built_from(t: DelayTable, draws: Seq<u64>, max_delay: u64) -> bool {
    &&& t@ == draws
    &&& t.max_delay_spec() == max_delay
    &&& t.wf()
}

/// Building a table twice from the same drawn delays (as a seeded source
/// yields them) gives identical tables: every worker gets the same delay
/// from both.
pub proof fn lemma_build_deterministic(
    draws: Seq<u64>,
    max_delay: u64,
    first: DelayTable,
    second: DelayTable,
)
    requires
        built_from(first, draws, max_delay),
        built_from(second, draws, max_delay),
    ensures
        first@ == second@,
        first.max_delay_spec() == second.max_delay_spec(),
        forall|i: int| 0 <= i < draws.len() ==> #[trigger] first@[i] == second@[i],
{
}

} // verus!
