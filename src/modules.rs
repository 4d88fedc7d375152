//! The multi-rate polling aggregator: producers, cadences, cache slots and the tick.
use vstd::prelude::*;
use crate::output::{block_text, error_color, error_fragment, error_output, opt_text, ModuleOutput};
use vstd::arithmetic::div_mod::{lemma_fundamental_div_mod, lemma_mod_multiples_vanish, lemma_small_mod};

verus! {

/// What a producer hands back: a fragment, or a failure with or without a message.
pub type ModuleRes = Result<ModuleOutput, Option<String>>;

/// A source of one block of the status line.
pub trait Module {
    /// Samples the source.
    fn get_output(&mut self) -> ModuleRes;

    /// The number of ticks between samples; read once, when the aggregator is built.
    fn rate(&self) -> usize {
        1
    }
}

/// What one sample contributes to the line: a block, an error block, or nothing.
pub open spec fn contribution(r: ModuleRes) -> Option<Seq<char>> {
    match r {
        Ok(o) => Some(block_text(o@)),
        Err(Some(m)) => if m@.len() > 0 {
            Some(block_text(error_fragment(m@)))
        } else {
            None
        },
        Err(None) => None,
    }
}

/// The abstract state of the aggregator.
pub ghost struct Schedule {
    pub rates: Seq<nat>,
    pub cache: Seq<Option<Seq<char>>>,
    pub tick: nat,
}

impl Schedule {
    /// One cache slot per producer, every cadence positive, and no slot filled for a
    /// producer sampled on every tick.
    pub open spec fn wf(self) -> bool {
        &&& self.cache.len() == self.rates.len()
        &&& forall|i: int| 0 <= i < self.rates.len() ==> #[trigger] self.rates[i] >= 1
        &&& forall|i: int|
            0 <= i < self.rates.len() && #[trigger] self.rates[i] == 1 ==> self.cache[i] is None
    }

    /// Whether producer `i` is sampled on the current tick.
    pub open spec fn is_due(self, i: int) -> bool {
        self.tick % self.rates[i] == 0
    }

    /// What producer `i` contributes on the current tick, given the samples taken.
    /// A producer that is due and has no sample contributes nothing.
    pub open spec fn part(self, samples: Seq<Option<ModuleRes>>, i: int) -> Option<Seq<char>> {
        if self.is_due(i) {
            match samples[i] {
                Some(r) => contribution(r),
                None => None,
            }
        } else {
            self.cache[i]
        }
    }

    /// The contributions of all producers, in registration order.
    pub open spec fn parts(self, samples: Seq<Option<ModuleRes>>) -> Seq<Option<Seq<char>>> {
        Seq::new(self.rates.len(), |i: int| self.part(samples, i))
    }

    /// Cache slot `i` after the current tick.
    pub open spec fn next_slot(self, samples: Seq<Option<ModuleRes>>, i: int) -> Option<Seq<char>> {
        if self.is_due(i) && self.rates[i] > 1 {
            match samples[i] {
                Some(Ok(o)) => Some(block_text(o@)),
                _ => None,
            }
        } else {
            self.cache[i]
        }
    }

    /// The state after the current tick.
    pub open spec fn next(self, samples: Seq<Option<ModuleRes>>) -> Schedule {
        Schedule {
            rates: self.rates,
            cache: Seq::new(self.rates.len(), |i: int| self.next_slot(samples, i)),
            tick: self.tick + 1,
        }
    }

    /// The line emitted on the current tick.
    pub open spec fn line(self, samples: Seq<Option<ModuleRes>>) -> Seq<char> {
        "["@ + join(present(self.parts(samples))) + "]"@
    }

    /// Whether `samples` holds a sample for exactly the producers due on the current tick.
    pub open spec fn sampled_when_due(self, samples: Seq<Option<ModuleRes>>) -> bool {
        &&& samples.len() == self.rates.len()
        &&& forall|i: int| 0 <= i < samples.len() ==> (#[trigger] samples[i] is Some <==> self.is_due(i))
    }
}

/// The contributions that are present, in order.
pub open spec fn present(ps: Seq<Option<Seq<char>>>) -> Seq<Seq<char>>
    decreases ps.len(),
{
    if ps.len() == 0 {
        seq![]
    } else {
        match ps.last() {
            Some(t) => present(ps.drop_last()).push(t),
            None => present(ps.drop_last()),
        }
    }
}

/// The texts joined by `", "`.
pub open spec fn join(xs: Seq<Seq<char>>) -> Seq<char>
    decreases xs.len(),
{
    if xs.len() == 0 {
        seq![]
    } else if xs.len() == 1 {
        xs[0]
    } else {
        join(xs.drop_last()) + ", "@ + xs.last()
    }
}

proof fn lemma_present_step(ps: Seq<Option<Seq<char>>>, i: int)
    requires
        0 <= i < ps.len(),
    ensures
        present(ps.take(i + 1)) == match ps[i] {
            Some(t) => present(ps.take(i)).push(t),
            None => present(ps.take(i)),
        },
{
    assert(ps.take(i + 1).drop_last() =~= ps.take(i));
}

proof fn lemma_join_push(xs: Seq<Seq<char>>, t: Seq<char>)
    ensures
        join(xs.push(t)) == if xs.len() == 0 {
            t
        } else {
            join(xs) + ", "@ + t
        },
{
    assert(xs.push(t).drop_last() =~= xs);
}

/// The state after taking one tick for each entry of `steps`, in order.
pub open spec fn run(s: Schedule, steps: Seq<Seq<Option<ModuleRes>>>) -> Schedule
    decreases steps.len(),
{
    if steps.len() == 0 {
        s
    } else {
        run(s, steps.drop_last()).next(steps.last())
    }
}

/// Where the block of producer `i` stands in the line, if it is present.
pub open spec fn position(ps: Seq<Option<Seq<char>>>, i: int) -> int {
    present(ps.take(i)).len() as int
}

proof fn lemma_run_take(s: Schedule, steps: Seq<Seq<Option<ModuleRes>>>, k: int)
    requires
        s.wf(),
        0 <= k <= steps.len(),
    ensures
        run(s, steps.take(k)).wf(),
        run(s, steps.take(k)).rates == s.rates,
        run(s, steps.take(k)).tick == s.tick + k,
        k > 0 ==> run(s, steps.take(k)) == run(s, steps.take(k - 1)).next(steps[k - 1]),
    decreases k,
{
    if k > 0 {
        assert(steps.take(k).drop_last() =~= steps.take(k - 1));
        lemma_run_take(s, steps, k - 1);
        let p = run(s, steps.take(k - 1));
        let q = p.next(steps[k - 1]);
        assert forall|j: int| 0 <= j < q.rates.len() && #[trigger] q.rates[j] == 1 implies q.cache[j] is None by {
            assert(p.rates[j] == 1);
        }
    } else {
        assert(steps.take(0) =~= Seq::<Seq<Option<ModuleRes>>>::empty());
    }
}

proof fn lemma_offset_not_due(a: nat, d: nat, c: nat)
    requires
        c >= 1,
        a % c == 0,
        d < c,
    ensures
        (a + d) % c == d,
        (a + c) % c == 0,
{
    lemma_fundamental_div_mod(a as int, c as int);
    let q = (a / c) as int;
    assert(a == c * q);
    lemma_mod_multiples_vanish(q, d as int, c as int);
    lemma_mod_multiples_vanish(q + 1, 0, c as int);
    assert(c * (q + 1) == c * q + c) by (nonlinear_arith);
    lemma_small_mod(d, c);
    lemma_small_mod(0, c);
}

/// After a tick on which producer `i` is due, it is not due again for the rest of its
/// cadence, and its cache slot stays as that tick left it.
proof fn lemma_slot_holds(s: Schedule, steps: Seq<Seq<Option<ModuleRes>>>, i: int, m: int, k: int)
    requires
        s.wf(),
        0 <= i < s.rates.len(),
        0 <= m < k <= steps.len(),
        k < m + s.rates[i],
        run(s, steps.take(m)).is_due(i),
    ensures
        !run(s, steps.take(k)).is_due(i),
        run(s, steps.take(k)).cache[i] == run(s, steps.take(m + 1)).cache[i],
    decreases k - m,
{
    let c = s.rates[i];
    lemma_run_take(s, steps, m);
    lemma_run_take(s, steps, k);
    lemma_offset_not_due(s.tick + m as nat, (k - m) as nat, c);
    if k > m + 1 {
        lemma_slot_holds(s, steps, i, m, k - 1);
        lemma_run_take(s, steps, k - 1);
    }
}

/// A producer of cadence `c` that succeeds on a tick where it is due is sampled on that
/// tick and on none of the `c - 1` ticks after it, and its block is the same on all `c`.
pub proof fn lemma_cadence(
    s: Schedule,
    i: int,
    steps: Seq<Seq<Option<ModuleRes>>>,
    o: ModuleOutput,
)
    requires
        s.wf(),
        0 <= i < s.rates.len(),
        s.is_due(i),
        steps.len() == s.rates[i],
        steps[0][i] == Some::<ModuleRes>(Ok(o)),
    ensures
        forall|k: int|
            0 < k < steps.len() ==> !(#[trigger] run(s, steps.take(k))).is_due(i),
        forall|k: int|
            0 <= k < steps.len() ==> (#[trigger] run(s, steps.take(k))).part(steps[k], i) == Some(
                block_text(o@),
            ),
{
    lemma_run_take(s, steps, 0);
    lemma_run_take(s, steps, 1);
    assert forall|k: int| 0 < k < steps.len() implies !(#[trigger] run(s, steps.take(k))).is_due(i)
        && run(s, steps.take(k)).part(steps[k], i) == Some(block_text(o@)) by {
        lemma_slot_holds(s, steps, i, 0, k);
    }
}

/// A producer of cadence above 1 that fails silently on a tick where it is due shows no
/// block on that tick nor on the rest of its cadence: the cached block is dropped.
pub proof fn lemma_cache_clear(s: Schedule, i: int, steps: Seq<Seq<Option<ModuleRes>>>, m: int)
    requires
        s.wf(),
        0 <= i < s.rates.len(),
        s.rates[i] > 1,
        0 <= m,
        m + s.rates[i] <= steps.len(),
        run(s, steps.take(m)).is_due(i),
        steps[m][i] == Some::<ModuleRes>(Err(None)) || (steps[m][i] matches Some(Err(Some(msg)))
            && msg@.len() == 0),
    ensures
        forall|k: int|
            m <= k < m + s.rates[i] ==> (#[trigger] run(s, steps.take(k))).part(steps[k], i)
                is None,
{
    lemma_run_take(s, steps, m);
    lemma_run_take(s, steps, m + 1);
    assert forall|k: int| m < k < m + s.rates[i] implies (#[trigger] run(s, steps.take(k))).part(
        steps[k],
        i,
    ) is None by {
        lemma_slot_holds(s, steps, i, m, k);
    }
}

/// A failure with a message shows, on the tick it occurs, a block whose text is the
/// message and whose color is the error color; it is not cached, so the rest of the
/// producer's cadence shows no block.
pub proof fn lemma_error_visible(
    s: Schedule,
    i: int,
    steps: Seq<Seq<Option<ModuleRes>>>,
    message: String,
)
    requires
        s.wf(),
        0 <= i < s.rates.len(),
        s.is_due(i),
        steps.len() == s.rates[i],
        steps[0][i] == Some::<ModuleRes>(Err(Some(message))),
        message@.len() > 0,
    ensures
        s.part(steps[0], i) == Some(block_text(error_fragment(message@))),
        error_fragment(message@).text == message@,
        error_fragment(message@).fg == Some(error_color()),
        forall|k: int|
            0 < k < steps.len() ==> (#[trigger] run(s, steps.take(k))).part(steps[k], i) is None,
{
    lemma_run_take(s, steps, 0);
    lemma_run_take(s, steps, 1);
    assert forall|k: int| 0 < k < steps.len() implies (#[trigger] run(s, steps.take(k))).part(
        steps[k],
        i,
    ) is None by {
        lemma_slot_holds(s, steps, i, 0, k);
    }
}

proof fn lemma_present_prefix(ps: Seq<Option<Seq<char>>>, a: int, b: int)
    requires
        0 <= a <= b <= ps.len(),
    ensures
        present(ps.take(a)).len() <= present(ps.take(b)).len(),
        present(ps.take(b)).take(present(ps.take(a)).len() as int) == present(ps.take(a)),
    decreases b - a,
{
    if a < b {
        lemma_present_prefix(ps, a, b - 1);
        lemma_present_step(ps, b - 1);
        assert(present(ps.take(b)).take(present(ps.take(a)).len() as int) =~= present(
            ps.take(a),
        ));
    } else {
        assert(present(ps.take(b)).take(present(ps.take(a)).len() as int) =~= present(
            ps.take(a),
        ));
    }
}

/// The blocks of the line stand in registration order: the block of producer `i` sits at
/// `position(ps, i)`, and an earlier producer's block sits before a later one's.
pub proof fn lemma_order(s: Schedule, samples: Seq<Option<ModuleRes>>, i: int, j: int)
    requires
        0 <= i < j < s.rates.len(),
        s.parts(samples)[i] is Some,
        s.parts(samples)[j] is Some,
    ensures
        s.line(samples) == "["@ + join(present(s.parts(samples))) + "]"@,
        position(s.parts(samples), i) < position(s.parts(samples), j),
        position(s.parts(samples), j) < present(s.parts(samples)).len(),
        present(s.parts(samples))[position(s.parts(samples), i)] == s.parts(samples)[i]->Some_0,
        present(s.parts(samples))[position(s.parts(samples), j)] == s.parts(samples)[j]->Some_0,
{
    let ps = s.parts(samples);
    let n = ps.len() as int;
    assert(ps.take(n) =~= ps);
    lemma_present_step(ps, i);
    lemma_present_step(ps, j);
    lemma_present_prefix(ps, i + 1, j);
    lemma_present_prefix(ps, i + 1, n);
    lemma_present_prefix(ps, j + 1, n);
    assert(present(ps)[position(ps, i)] == present(ps.take(n)).take(
        present(ps.take(i + 1)).len() as int,
    )[position(ps, i)]);
    assert(present(ps)[position(ps, j)] == present(ps.take(n)).take(
        present(ps.take(j + 1)).len() as int,
    )[position(ps, j)]);
}

/// The aggregator: the producers in registration order, their cadences, one cache slot
/// each, and the tick counter.
pub struct Modules<M> {
    modules: Vec<M>,
    rates: Vec<usize>,
    cache: Vec<Option<String>>,
    tick: usize,
}

impl<M> View for Modules<M> {
    type V = Schedule;

    closed spec fn view(&self) -> Schedule {
        Schedule {
            rates: self.rates@.map_values(|r: usize| r as nat),
            cache: self.cache@.map_values(|o: Option<String>| opt_text(o)),
            tick: self.tick as nat,
        }
    }
}

impl<M: Module> Modules<M> {
    /// One cadence and one cache slot per producer, and the abstract state well formed.
    pub closed spec fn wf(&self) -> bool {
        &&& self.modules.len() == self.rates.len()
        &&& self.cache.len() == self.rates.len()
        &&& self@.wf()
    }

    /// The producers, in registration order.
    pub closed spec fn producers(&self) -> Seq<M> {
        self.modules@
    }

    /// Builds the aggregator; each producer's cadence is read once, and a cadence of 0
    /// is taken as 1.
    pub fn new(modules: Vec<M>) -> (r: Self)
        ensures
            r.wf(),
            r@.wf(),
            r.producers() == modules@,
            r@.rates.len() == modules@.len(),
            r@.tick == 0,
            forall|i: int| 0 <= i < modules@.len() ==> #[trigger] r@.cache[i] is None,
    {
        let mut rates: Vec<usize> = Vec::new();
        let mut cache: Vec<Option<String>> = Vec::new();
        let mut i: usize = 0;
        while i < modules.len()
            invariant
                i <= modules.len(),
                rates.len() == i,
                cache.len() == i,
                forall|k: int| 0 <= k < i ==> rates[k] >= 1,
                forall|k: int| 0 <= k < i ==> cache[k] is None,
            decreases modules.len() - i,
        {
            let r = modules[i].rate();
            rates.push(if r == 0 { 1 } else { r });
            cache.push(None);
            i = i + 1;
        }
        Modules { modules, rates, cache, tick: 0 }
    }

    /// The number of ticks taken so far.
    pub fn tick(&self) -> (r: usize)
        ensures
            r == self@.tick,
    {
        self.tick
    }

    /// The number of producers.
    pub fn len(&self) -> (r: usize)
        requires
            self.wf(),
        ensures
            r == self@.rates.len(),
    {
        self.rates.len()
    }

    /// Whether producer `i` is sampled on the current tick.
    pub fn is_due(&self, i: usize) -> (r: bool)
        requires
            self.wf(),
            i < self@.rates.len(),
        ensures
            r == self@.is_due(i as int),
    {
        assert(self@.rates[i as int] >= 1);
        self.tick % self.rates[i] == 0
    }

    /// Takes one tick given the samples of this tick (`None` for a producer not sampled):
    /// builds the line, updates the cache slots and advances the tick.
    pub fn combine_samples(&mut self, samples: Vec<Option<ModuleRes>>) -> (r: String)
        requires
            old(self).wf(),
            samples@.len() == old(self)@.rates.len(),
            old(self)@.tick < usize::MAX,
        ensures
            final(self).wf(),
            final(self)@.wf(),
            final(self).producers() == old(self).producers(),
            r@ == old(self)@.line(samples@),
            final(self)@ == old(self)@.next(samples@),
    {
        let ghost s = self@;
        let ghost ps = s.parts(samples@);
        let n = self.rates.len();
        let mut body = String::new();
        let mut count: usize = 0;
        let mut i: usize = 0;
        while i < n
            invariant
                n == s.rates.len(),
                s == old(self)@,
                s.wf(),
                i <= n,
                self.wf(),
                self.modules@ == old(self).modules@,
                self.tick == s.tick,
                self@.rates == s.rates,
                samples@.len() == n,
                ps == s.parts(samples@),
                forall|k: int| 0 <= k < i ==> #[trigger] self@.cache[k] == s.next_slot(samples@, k),
                forall|k: int| i <= k < n ==> #[trigger] self@.cache[k] == s.cache[k],
                count == present(ps.take(i as int)).len(),
                body@ == join(present(ps.take(i as int))),
                count <= i,
            decreases n - i,
        {
            let piece: Option<String>;
            let ghost before = self.cache@;
            let ghost before_view = self@.cache;
            assert(self@.rates[i as int] >= 1);
            if self.tick % self.rates[i] == 0 {
                let mut slot: Option<String> = None;
                match &samples[i] {
                    Some(Ok(o)) => {
                        let b = o.to_block();
                        slot = Some(b.clone());
                        piece = Some(b);
                    },
                    Some(Err(Some(m))) => {
                        if m.as_str().is_empty() {
                            piece = None;
                        } else {
                            piece = Some(error_output(m.clone()).to_block());
                        }
                    },
                    _ => {
                        piece = None;
                    },
                }
                if self.rates[i] > 1 {
                    self.cache.set(i, slot);
                }
            } else {
                piece = match &self.cache[i] {
                    Some(t) => Some(t.clone()),
                    None => None,
                };
            }
            assert forall|k: int| i < k < n implies #[trigger] self@.cache[k] == s.cache[k] by {
                assert(self.cache@[k] == before[k]);
                assert(before_view[k] == s.cache[k]);
            }
            assert(opt_text(piece) == ps[i as int]);
            proof {
                lemma_present_step(ps, i as int);
            }
            match piece {
                Some(t) => {
                    proof {
                        lemma_join_push(present(ps.take(i as int)), t@);
                    }
                    if count > 0 {
                        body.append(", ");
                    }
                    body.append(t.as_str());
                    count = count + 1;
                },
                None => {},
            }
            i = i + 1;
        }
        assert(ps.take(n as int) =~= ps);
        assert(self@.cache =~= s.next(samples@).cache);
        let mut r = String::from_str("[");
        r.append(body.as_str());
        r.append("]");
        self.tick = self.tick + 1;
        r
    }

    /// Takes one tick: samples each producer that is due, in registration order, reuses
    /// the cache for the others, and returns the line.
    pub fn combine_modules(&mut self) -> (r: String)
        requires
            old(self).wf(),
            old(self)@.tick < usize::MAX,
        ensures
            final(self).wf(),
            final(self)@.wf(),
            final(self).producers().len() == old(self).producers().len(),
            forall|i: int|
                0 <= i < old(self).producers().len() && !old(self)@.is_due(i)
                    ==> #[trigger] final(self).producers()[i] == old(self).producers()[i],
            exists|samples: Seq<Option<ModuleRes>>|
                #[trigger] old(self)@.sampled_when_due(samples)
                    && r@ == old(self)@.line(samples)
                    && final(self)@ == old(self)@.next(samples),
    {
        let ghost s = self@;
        let n = self.rates.len();
        let mut samples: Vec<Option<ModuleRes>> = Vec::new();
        let mut i: usize = 0;
        while i < n
            invariant
                n == s.rates.len(),
                s == old(self)@,
                i <= n,
                self.wf(),
                self@ == s,
                self.modules@.len() == n,
                forall|k: int|
                    i <= k < n || (0 <= k < i && !s.is_due(k))
                        ==> #[trigger] self.modules@[k] == old(self).modules@[k],
                samples@.len() == i,
                forall|k: int| 0 <= k < i ==> (#[trigger] samples@[k] is Some <==> s.is_due(k)),
            decreases n - i,
        {
            assert(self@.rates[i as int] >= 1);
            if self.tick % self.rates[i] == 0 {
                let out = self.modules[i].get_output();
                samples.push(Some(out));
            } else {
                samples.push(None);
            }
            i = i + 1;
        }
        let ghost taken = samples@;
        let r = self.combine_samples(samples);
        assert(s.sampled_when_due(taken));
        r
    }
}

} // verus!
