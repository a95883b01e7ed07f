//! Supervision decisions: keeping what the user asked for and what the
//! hardware is doing in agreement.
//!
//! The supervising thread owns the host, the streams and the configuration,
//! and performs every action. What it should do is decided here, from plain
//! values: how large a destination's buffer is, how long a refusing device is
//! left alone, and, on every tick, whether a stream is kept, rebuilt, waited
//! for or opened.
//!
//! Reconciliation is idempotent: it compares the desired state with the live
//! one, then closes, opens, or leaves things alone. Recovering from an
//! unplugged device is therefore not a special case, merely the ordinary path
//! taken with one device missing.
//!
//! Time is a monotonic clock in milliseconds, read by the caller.

use vstd::prelude::*;
use crate::model::{fault_is_fatal, fault_message, fault_text, is_fatal, LinkState, MirrorConfig, SourceConfig, TargetConfig};
use crate::render::CHUNK_FRAMES;

verus! {

/// First retry delay, in milliseconds, doubling on each consecutive failure.
pub const RETRY_BASE_MS: u64 = 250;

/// Retry delay ceiling, in milliseconds. A device that has been refusing for a
/// while is retried steadily rather than never.
pub const RETRY_CEILING_MS: u64 = 5000;

/// Supervision period, in milliseconds.
pub const TICK_MS: u64 = 50;

/// How often the device list is re-enumerated, in milliseconds.
pub const SCAN_INTERVAL_MS: u64 = 1000;

/// `2^n`.
pub open spec fn doubling(n: nat) -> nat
    decreases n,
{
    if n == 0 {
        1
    } else {
        2 * doubling((n - 1) as nat)
    }
}

/// Doublings of the base after `failures` consecutive failures: none for the
/// first, one more for each failure after it, five at most.
pub open spec fn doublings_after(failures: u32) -> nat {
    if failures <= 1 {
        0
    } else if failures - 1 < 5 {
        (failures - 1) as nat
    } else {
        5
    }
}

/// Delay before the next attempt after `failures` consecutive failures: the
/// base for the first, doubled on each further failure, never above the
/// ceiling. The delays run 250, 500, 1000, 2000, 4000, then 5000 ms.
pub open spec fn backoff_ms(failures: u32) -> nat {
    let delay: nat = (RETRY_BASE_MS * doubling(doublings_after(failures))) as nat;
    if delay < RETRY_CEILING_MS {
        delay
    } else {
        RETRY_CEILING_MS as nat
    }
}

proof fn lemma_doubling_grows(a: nat, b: nat)
    requires
        a <= b,
    ensures
        1 <= doubling(a) <= doubling(b),
    decreases b,
{
    if b > 0 {
        if a < b {
            lemma_doubling_grows(a, (b - 1) as nat);
        } else {
            lemma_doubling_grows((a - 1) as nat, (b - 1) as nat);
        }
    }
}

/// The retry delay never shrinks as failures accumulate and stays within the
/// ceiling. The first failure waits the base, each further one twice the
/// delay before it, until the ceiling holds from the sixth on.
pub proof fn lemma_backoff_grows_then_settles(fewer: u32, more: u32)
    requires
        fewer <= more,
    ensures
        backoff_ms(fewer) <= backoff_ms(more),
        backoff_ms(more) <= RETRY_CEILING_MS,
        fewer >= 1 ==> backoff_ms(fewer) >= RETRY_BASE_MS,
        backoff_ms(1) == RETRY_BASE_MS,
        1 <= fewer <= 4 ==> backoff_ms((fewer + 1) as u32) == 2 * backoff_ms(fewer),
        more >= 6 ==> backoff_ms(more) == RETRY_CEILING_MS,
{
    lemma_doubling_grows(doublings_after(fewer), doublings_after(more));
    reveal_with_fuel(doubling, 6);
}

fn retry_delay_ms(failures: u32) -> (delay: u64)
    ensures
        delay == backoff_ms(failures),
{
    let doublings: u32 = if failures <= 1 {
        0
    } else if failures - 1 < 5 {
        failures - 1
    } else {
        5
    };
    let mut delay: u64 = RETRY_BASE_MS;
    let mut step: u32 = 0;
    while step < doublings
        invariant
            doublings <= 5,
            doublings == doublings_after(failures),
            step <= doublings,
            delay == RETRY_BASE_MS * doubling(step as nat),
        decreases doublings - step,
    {
        proof {
            lemma_doubling_grows(step as nat, 4);
            reveal_with_fuel(doubling, 6);
        }
        delay = delay * 2;
        step = step + 1;
    }
    if delay < RETRY_CEILING_MS {
        delay
    } else {
        RETRY_CEILING_MS
    }
}

/// Connection state of one link, with its retry schedule.
#[derive(Clone, Debug)]
pub struct Link {
    pub state: LinkState,
    pub failures: u32,
    /// Clock reading, in milliseconds, before which no attempt is made.
    pub next_try: u64,
    pub detail: Option<String>,
}

impl Link {
    pub fn new(now: u64) -> (link: Self)
        ensures
            link.state == LinkState::Idle,
            link.failures == 0,
            link.next_try == now,
            link.detail is None,
    {
        Link { state: LinkState::Idle, failures: 0, next_try: now, detail: None }
    }

    /// Records a failure and pushes the next attempt back, doubling the delay so
    /// a device that will not open stops costing anything.
    pub fn fail(&mut self, detail: String, now: u64)
        requires
            now + RETRY_CEILING_MS <= u64::MAX,
        ensures
            final(self).failures == if old(self).failures == u32::MAX {
                u32::MAX
            } else {
                (old(self).failures + 1) as u32
            },
            final(self).next_try == now + backoff_ms(final(self).failures),
            final(self).detail == Some(detail),
            final(self).state == LinkState::Failed,
    {
        self.failures = self.failures.saturating_add(1);
        let backoff = retry_delay_ms(self.failures);
        proof {
            lemma_backoff_grows_then_settles(self.failures, self.failures);
        }
        self.next_try = now + backoff;
        self.detail = Some(detail);
        self.state = LinkState::Failed;
    }

    /// Records a loss that is not the device's fault, so the next attempt can
    /// happen as soon as it comes back.
    pub fn interrupt(&mut self, state: LinkState, detail: Option<String>, now: u64)
        ensures
            final(self).next_try == now,
            final(self).detail == detail,
            final(self).state == state,
            final(self).failures == old(self).failures,
    {
        self.next_try = now;
        self.detail = detail;
        self.state = state;
    }

    pub fn succeed(&mut self)
        ensures
            final(self).failures == 0,
            final(self).detail is None,
            final(self).state == LinkState::Live,
            final(self).next_try == old(self).next_try,
    {
        self.failures = 0;
        self.detail = None;
        self.state = LinkState::Live;
    }

    /// A destination stream just opened: healthy, its buffer still filling.
    pub fn start_priming(&mut self)
        ensures
            final(self).failures == 0,
            final(self).detail is None,
            final(self).state == LinkState::Priming,
            final(self).next_try == old(self).next_try,
    {
        self.failures = 0;
        self.detail = None;
        self.state = LinkState::Priming;
    }

    pub fn ready(&self, now: u64) -> (ready: bool)
        ensures
            ready == (now >= self.next_try),
    {
        now >= self.next_try
    }

    pub fn retry_in_ms(&self, now: u64) -> (delay: Option<u64>)
        ensures
            delay == if self.next_try > now {
                Some((self.next_try - now) as u64)
            } else {
                None::<u64>
            },
    {
        if self.next_try > now {
            Some(self.next_try - now)
        } else {
            None
        }
    }
}

/// After a failure a link waits, for a while that never exceeds the ceiling;
/// an interruption, by contrast, lets it try again at once.
pub proof fn lemma_failure_waits_interruption_does_not(failures: u32, now: u64)
    requires
        failures >= 1,
        now + RETRY_CEILING_MS <= u64::MAX,
    ensures
        !(now >= now + backoff_ms(failures)),
        now + backoff_ms(failures) <= now + RETRY_CEILING_MS,
{
    lemma_backoff_grows_then_settles(failures, failures);
}

/// What inspecting a running stream concluded.
#[derive(Clone, Debug)]
pub enum Verdict {
    /// Still good.
    Keep,
    /// Open and healthy, but not yet rendering: its buffer is still filling.
    Priming,
    /// Must be torn down, with the state and reason to report meanwhile.
    Reopen(LinkState, Option<String>),
}

/// The reason a fault code is reported with.
pub open spec fn fault_detail(code: u32) -> Option<Seq<char>> {
    fault_text(code)
}

fn owned_fault_message(code: u32) -> (detail: Option<String>)
    ensures
        match detail {
            Some(text) => fault_text(code) == Some(text@),
            None => fault_text(code) is None,
        },
{
    match fault_message(code) {
        Some(text) => Some(text.to_owned()),
        None => None,
    }
}

/// Whether a verdict is the given rebuild.
pub open spec fn is_reopen(verdict: Verdict, state: LinkState, detail: Option<Seq<char>>) -> bool {
    match verdict {
        Verdict::Reopen(s, d) => s == state && match (d, detail) {
            (Some(text), Some(expected)) => text@ == expected,
            (None, None) => true,
            _ => false,
        },
        _ => false,
    }
}

/// Inspects the running capture stream.
///
/// Capture has no priming phase: it either delivers or it does not.
pub fn source_verdict(same_device: bool, fault: u32, present: bool) -> (verdict: Verdict)
    ensures
        !same_device ==> is_reopen(verdict, LinkState::Connecting, None),
        same_device && is_fatal(fault) ==> is_reopen(verdict, LinkState::Connecting, fault_detail(fault)),
        same_device && !is_fatal(fault) && !present ==> is_reopen(verdict, LinkState::Missing, None),
        same_device && !is_fatal(fault) && present ==> verdict is Keep,
{
    if !same_device {
        return Verdict::Reopen(LinkState::Connecting, None);
    }
    if fault_is_fatal(fault) {
        Verdict::Reopen(LinkState::Connecting, owned_fault_message(fault))
    } else if !present {
        Verdict::Reopen(LinkState::Missing, None)
    } else {
        Verdict::Keep
    }
}

/// Inspects a running destination stream.
pub fn target_verdict(same_generation: bool, fault: u32, present: bool, live: bool) -> (verdict: Verdict)
    ensures
        !same_generation ==> is_reopen(verdict, LinkState::Connecting, None),
        same_generation && is_fatal(fault) ==> is_reopen(
            verdict,
            LinkState::Connecting,
            fault_detail(fault),
        ),
        same_generation && !is_fatal(fault) && !present ==> is_reopen(verdict, LinkState::Missing, None),
        same_generation && !is_fatal(fault) && present && live ==> verdict is Keep,
        same_generation && !is_fatal(fault) && present && !live ==> verdict is Priming,
{
    if !same_generation {
        // The source reopened, possibly in another format: this stream was
        // built against the previous one.
        return Verdict::Reopen(LinkState::Connecting, None);
    }
    if fault_is_fatal(fault) {
        Verdict::Reopen(LinkState::Connecting, owned_fault_message(fault))
    } else if !present {
        Verdict::Reopen(LinkState::Missing, None)
    } else if live {
        Verdict::Keep
    } else {
        Verdict::Priming
    }
}

/// What a reconciliation step asks the supervisor to do with one stream.
#[derive(Clone, Copy, Debug, PartialEq, Eq, Structural)]
pub struct Step {
    /// Tear the current stream down first.
    pub close: bool,
    /// Then attempt to open a fresh one.
    pub open: bool,
}

/// The link after a verdict has been applied and before the presence and
/// schedule checks.
pub open spec fn link_after_verdict(link: Link, verdict: Verdict, now: u64) -> Link {
    match verdict {
        Verdict::Keep => Link { failures: 0, detail: None, state: LinkState::Live, ..link },
        Verdict::Priming => Link { failures: 0, detail: None, state: LinkState::Priming, ..link },
        Verdict::Reopen(state, detail) => Link { next_try: now, detail, state, ..link },
    }
}

/// State a stream that is neither kept nor opened is reported in.
pub open spec fn waiting_state(link: Link, present: bool, now: u64) -> LinkState {
    if !present {
        LinkState::Missing
    } else if link.state == LinkState::Failed {
        LinkState::Failed
    } else {
        LinkState::Connecting
    }
}

/// Plans the capture stream for one tick. `verdict` is the inspection of the
/// running stream, absent when none runs; `present` tells whether the wanted
/// device is on the system. When `open` comes back set, the supervisor opens
/// the device and reports the outcome with [`Link::succeed`] or
/// [`Link::fail`].
pub fn plan_source(link: &mut Link, verdict: Option<Verdict>, present: bool, now: u64) -> (step: Step)
    ensures
        match verdict {
            Some(Verdict::Keep) | Some(Verdict::Priming) => {
                &&& step == (Step { close: false, open: false })
                &&& *final(link) == link_after_verdict(*old(link), Verdict::Keep, now)
            },
            _ => {
                let base = match verdict {
                    Some(v) => link_after_verdict(*old(link), v, now),
                    None => *old(link),
                };
                &&& step.close == (verdict is Some)
                &&& step.open == (present && now >= base.next_try)
                &&& step.open ==> *final(link) == base
                &&& !step.open ==> *final(link) == (Link { state: waiting_state(base, present, now), ..base })
            },
        },
{
    let mut close = false;
    match verdict {
        Some(Verdict::Keep) | Some(Verdict::Priming) => {
            link.succeed();
            return Step { close: false, open: false };
        },
        Some(Verdict::Reopen(state, detail)) => {
            close = true;
            link.interrupt(state, detail, now);
        },
        None => {},
    }
    if !present {
        link.state = LinkState::Missing;
        return Step { close, open: false };
    }
    if !link.ready(now) {
        if link.state != LinkState::Failed {
            link.state = LinkState::Connecting;
        }
        return Step { close, open: false };
    }
    Step { close, open: true }
}

/// Plans one destination stream for one tick. A disabled destination, or one
/// with no source to mirror, is closed and held. Otherwise `verdict` inspects
/// its running stream, if any. When `open` comes back set, the supervisor
/// opens the device and reports the outcome with [`Link::start_priming`] or
/// [`Link::fail`].
pub fn plan_target(
    link: &mut Link,
    enabled: bool,
    source_open: bool,
    verdict: Option<Verdict>,
    present: bool,
    now: u64,
) -> (step: Step)
    ensures
        !enabled ==> step == (Step { close: true, open: false })
            && *final(link) == (Link { state: LinkState::Idle, ..*old(link) }),
        enabled && !source_open ==> step == (Step { close: true, open: false })
            && *final(link) == (Link { state: LinkState::Connecting, ..*old(link) }),
        enabled && source_open ==> match verdict {
            Some(Verdict::Keep) => step == (Step { close: false, open: false })
                && *final(link) == link_after_verdict(*old(link), Verdict::Keep, now),
            Some(Verdict::Priming) => step == (Step { close: false, open: false })
                && *final(link) == link_after_verdict(*old(link), Verdict::Priming, now),
            _ => {
                let base = match verdict {
                    Some(v) => link_after_verdict(*old(link), v, now),
                    None => *old(link),
                };
                &&& step.close == (verdict is Some)
                &&& step.open == (present && now >= base.next_try)
                &&& step.open ==> *final(link) == base
                &&& !step.open ==> *final(link) == (Link { state: waiting_state(base, present, now), ..base })
            },
        },
{
    if !enabled {
        link.state = LinkState::Idle;
        return Step { close: true, open: false };
    }
    if !source_open {
        // Nothing to mirror yet: hold the destination rather than burn
        // retries against a source that is not there.
        link.state = LinkState::Connecting;
        return Step { close: true, open: false };
    }
    let mut close = false;
    match verdict {
        Some(Verdict::Keep) => {
            link.succeed();
            return Step { close: false, open: false };
        },
        Some(Verdict::Priming) => {
            // Not a failure: the stream is open and its buffer is filling.
            link.start_priming();
            return Step { close: false, open: false };
        },
        Some(Verdict::Reopen(state, detail)) => {
            close = true;
            link.interrupt(state, detail, now);
        },
        None => {},
    }
    if !present {
        link.state = LinkState::Missing;
        return Step { close, open: false };
    }
    if !link.ready(now) {
        if link.state != LinkState::Failed {
            link.state = LinkState::Connecting;
        }
        return Step { close, open: false };
    }
    Step { close, open: true }
}

/// Ring occupancy target, in frames, for a latency setting.
pub open spec fn plan_target_frames(buffer_ms: u32, sample_rate: u32, capture_block: u32) -> int {
    let block: int = if capture_block == 0 { sample_rate as int / 100 } else { capture_block as int };
    let requested: int = (buffer_ms as int * sample_rate as int) / 1000;
    let floor: int = block * 3 / 2 + CHUNK_FRAMES as int;
    let at_least_floor = if requested >= floor { requested } else { floor };
    if at_least_floor >= 2 * CHUNK_FRAMES as int { at_least_floor } else { 2 * CHUNK_FRAMES as int }
}

/// Capture block assumed for a host: the advertised one, or ten milliseconds
/// of audio when it advertises none.
pub open spec fn effective_block(sample_rate: u32, capture_block: u32) -> int {
    if capture_block == 0 { sample_rate as int / 100 } else { capture_block as int }
}

/// Turns a latency setting into a ring target and capacity, in source frames.
///
/// The requested value is a floor, not a promise: capture delivers whole blocks
/// at a time, so occupancy swings by one block every cycle. A target smaller
/// than that block would touch zero on every round and stutter constantly,
/// whatever the drift corrector does. The plan therefore never goes below one
/// block and a half.
pub fn buffer_plan(buffer_ms: u32, sample_rate: u32, capture_block: u32) -> (plan: (usize, usize))
    requires
        4 * plan_target_frames(buffer_ms, sample_rate, capture_block) + 2 * effective_block(sample_rate, capture_block)
            <= usize::MAX,
    ensures
        plan.0 == plan_target_frames(buffer_ms, sample_rate, capture_block),
        plan.1 == 4 * plan.0 + 2 * effective_block(sample_rate, capture_block),
{
    // A host that does not advertise its block size is assumed to use the usual
    // ten milliseconds of shared-mode audio.
    let block: u64 = if capture_block == 0 { (sample_rate / 100) as u64 } else { capture_block as u64 };

    assert((buffer_ms as int) * (sample_rate as int) <= 0xFFFF_FFFFint * 0xFFFF_FFFFint) by (nonlinear_arith)
        requires
            buffer_ms <= 0xFFFF_FFFFint,
            sample_rate <= 0xFFFF_FFFFint,
    ;
    let product: u64 = (buffer_ms as u64) * (sample_rate as u64);
    let requested: u64 = product / 1000;
    let floor: u64 = block * 3 / 2 + CHUNK_FRAMES as u64;
    let at_least_floor: u64 = if requested >= floor { requested } else { floor };
    let target: u64 = if at_least_floor >= 2 * CHUNK_FRAMES as u64 {
        at_least_floor
    } else {
        2 * CHUNK_FRAMES as u64
    };

    // Room for the target plus several capture blocks, so a scheduling hiccup
    // costs latency rather than dropped frames.
    let capacity: u64 = target * 4 + block * 2;

    (target as usize, capacity as usize)
}

/// Whether the plan for these settings can be laid out in memory at all:
/// what [`buffer_plan`] needs of its arguments.
pub fn plan_fits(buffer_ms: u32, sample_rate: u32, capture_block: u32) -> (fits: bool)
    ensures
        fits == (4 * plan_target_frames(buffer_ms, sample_rate, capture_block) + 2 * effective_block(
            sample_rate,
            capture_block,
        ) <= usize::MAX),
{
    let block: u128 = if capture_block == 0 { (sample_rate / 100) as u128 } else { capture_block as u128 };
    assert((buffer_ms as int) * (sample_rate as int) <= 0xFFFF_FFFFint * 0xFFFF_FFFFint) by (nonlinear_arith)
        requires
            buffer_ms <= 0xFFFF_FFFFint,
            sample_rate <= 0xFFFF_FFFFint,
    ;
    let requested: u128 = (buffer_ms as u128) * (sample_rate as u128) / 1000;
    let floor: u128 = block * 3 / 2 + CHUNK_FRAMES as u128;
    let at_least_floor: u128 = if requested >= floor { requested } else { floor };
    let target: u128 = if at_least_floor >= 2 * CHUNK_FRAMES as u128 {
        at_least_floor
    } else {
        2 * CHUNK_FRAMES as u128
    };
    target * 4 + block * 2 <= usize::MAX as u128
}

/// The plan honours the request when it is comfortable, never sinks below one
/// block and a half of capture nor two resampling passes, and leaves the ring
/// room for more than twice the target.
pub proof fn lemma_buffer_plan_bounds(buffer_ms: u32, sample_rate: u32, capture_block: u32)
    ensures
        plan_target_frames(buffer_ms, sample_rate, capture_block) >= (buffer_ms as int * sample_rate as int) / 1000,
        plan_target_frames(buffer_ms, sample_rate, capture_block)
            >= effective_block(sample_rate, capture_block) * 3 / 2 + CHUNK_FRAMES as int,
        plan_target_frames(buffer_ms, sample_rate, capture_block) >= 2 * CHUNK_FRAMES as int,
        4 * plan_target_frames(buffer_ms, sample_rate, capture_block) + 2 * effective_block(sample_rate, capture_block)
            > 2 * plan_target_frames(buffer_ms, sample_rate, capture_block),
{
}

/// One destination as the supervisor tracks it: the identifier it answers to,
/// the key its tap carries, the source generation its stream was built
/// against, the stream itself when one is open, and its link.
pub struct LiveTarget<S> {
    pub id: String,
    pub key: u64,
    pub generation: u64,
    pub sink: Option<S>,
    pub link: Link,
}

/// A destination after its stream was closed: no stream, no generation.
pub open spec fn without_stream<S>(entry: LiveTarget<S>) -> LiveTarget<S> {
    LiveTarget { sink: None, generation: 0, ..entry }
}

/// Closes a destination's stream, if one runs, and hands it back so the
/// supervisor can detach its tap from the source and drop it.
pub fn close_stream<S>(target: &mut LiveTarget<S>) -> (closed: Option<S>)
    ensures
        closed == old(target).sink,
        *final(target) == without_stream(*old(target)),
{
    target.generation = 0;
    target.sink.take()
}

/// A destination after every stream was closed for a reason that is not its
/// own: it may try again at once.
pub open spec fn interrupted<S>(entry: LiveTarget<S>, state: LinkState, now: u64) -> LiveTarget<S> {
    LiveTarget { link: Link { next_try: now, detail: None, state, ..entry.link }, ..without_stream(entry) }
}

/// The streams open among these destinations, in order, each with the key
/// its tap carries.
pub open spec fn open_streams<S>(live: Seq<LiveTarget<S>>) -> Seq<(u64, S)>
    decreases live.len(),
{
    if live.len() == 0 {
        Seq::empty()
    } else {
        let rest = open_streams(live.drop_last());
        match live.last().sink {
            Some(stream) => rest.push((live.last().key, stream)),
            None => rest,
        }
    }
}

/// Closes every destination's stream and reports each in `state`, ready to
/// try again at once. The streams that were open are handed back with their
/// keys, in order, so their taps can be detached.
pub fn close_all<S>(live: &mut Vec<LiveTarget<S>>, state: LinkState, now: u64) -> (closed: Vec<(u64, S)>)
    ensures
        final(live)@.len() == old(live)@.len(),
        forall|i: int|
            0 <= i < final(live)@.len() ==> #[trigger] final(live)@[i] == interrupted(old(live)@[i], state, now),
        closed@ == open_streams(old(live)@),
{
    let mut rest: Vec<LiveTarget<S>> = Vec::new();
    std::mem::swap(live, &mut rest);
    let ghost all = rest@;
    let total = rest.len();
    let mut closed: Vec<(u64, S)> = Vec::new();
    let mut taken: usize = 0;
    assert(all.take(0) =~= Seq::<LiveTarget<S>>::empty());
    while rest.len() > 0
        invariant
            taken + rest@.len() == all.len(),
            total == all.len(),
            rest@ == all.skip(taken as int),
            live@.len() == taken,
            forall|i: int| 0 <= i < taken ==> #[trigger] live@[i] == interrupted(all[i], state, now),
            closed@ == open_streams(all.take(taken as int)),
        decreases rest@.len(),
    {
        let mut entry = rest.remove(0);
        proof {
            assert(all.take(taken + 1).drop_last() =~= all.take(taken as int));
            assert(all.take(taken + 1).last() == entry);
            assert(rest@ =~= all.skip(taken + 1));
        }
        let key = entry.key;
        match close_stream(&mut entry) {
            Some(stream) => closed.push((key, stream)),
            None => {},
        }
        entry.link.interrupt(state, None, now);
        live.push(entry);
        taken = taken + 1;
    }
    proof {
        assert(all.take(taken as int) =~= all);
    }
    closed
}

/// Whether some configured destination carries this identifier.
pub open spec fn is_wanted<G>(targets: Seq<TargetConfig<G>>, id: Seq<char>) -> bool {
    exists|i: int| 0 <= i < targets.len() && #[trigger] targets[i].id@ == id
}

/// The tracked destinations still configured, in order.
pub open spec fn still_wanted<S, G>(live: Seq<LiveTarget<S>>, targets: Seq<TargetConfig<G>>) -> Seq<LiveTarget<S>>
    decreases live.len(),
{
    if live.len() == 0 {
        Seq::empty()
    } else {
        let rest = still_wanted(live.drop_last(), targets);
        if is_wanted(targets, live.last().id@) {
            rest.push(live.last())
        } else {
            rest
        }
    }
}

/// The tracked destinations no longer configured, in order.
pub open spec fn no_longer_wanted<S, G>(live: Seq<LiveTarget<S>>, targets: Seq<TargetConfig<G>>) -> Seq<LiveTarget<S>>
    decreases live.len(),
{
    if live.len() == 0 {
        Seq::empty()
    } else {
        let rest = no_longer_wanted(live.drop_last(), targets);
        if is_wanted(targets, live.last().id@) {
            rest
        } else {
            rest.push(live.last())
        }
    }
}

fn wanted_in<G>(targets: &Vec<TargetConfig<G>>, id: &String) -> (wanted: bool)
    ensures
        wanted == is_wanted(targets@, id@),
{
    let mut index: usize = 0;
    while index < targets.len()
        invariant
            0 <= index <= targets@.len(),
            forall|j: int| 0 <= j < index ==> #[trigger] targets@[j].id@ != id@,
        decreases targets@.len() - index,
    {
        if targets[index].id == *id {
            return true;
        }
        index = index + 1;
    }
    false
}

/// Lets go of the destinations the user removed, keeping the others in
/// order. The removed ones are handed back so their streams can be closed.
pub fn retire_removed<S, G>(live: &mut Vec<LiveTarget<S>>, config: &MirrorConfig<G>) -> (removed: Vec<LiveTarget<S>>)
    ensures
        final(live)@ == still_wanted(old(live)@, config.targets@),
        removed@ == no_longer_wanted(old(live)@, config.targets@),
{
    let mut rest: Vec<LiveTarget<S>> = Vec::new();
    std::mem::swap(live, &mut rest);
    let ghost all = rest@;
    let total = rest.len();
    let mut removed: Vec<LiveTarget<S>> = Vec::new();
    let mut taken: usize = 0;
    assert(all.take(0) =~= Seq::<LiveTarget<S>>::empty());
    while rest.len() > 0
        invariant
            taken + rest@.len() == all.len(),
            total == all.len(),
            rest@ == all.skip(taken as int),
            live@ == still_wanted(all.take(taken as int), config.targets@),
            removed@ == no_longer_wanted(all.take(taken as int), config.targets@),
        decreases rest@.len(),
    {
        let entry = rest.remove(0);
        proof {
            assert(all.take(taken + 1).drop_last() =~= all.take(taken as int));
            assert(all.take(taken + 1).last() == entry);
            assert(rest@ =~= all.skip(taken + 1));
        }
        if wanted_in(&config.targets, &entry.id) {
            live.push(entry);
        } else {
            removed.push(entry);
        }
        taken = taken + 1;
    }
    proof {
        assert(all.take(taken as int) =~= all);
    }
    removed
}

/// Letting go of removed destinations splits the roster in two: every entry
/// kept is still configured, every entry let go is not, and each entry of the
/// roster lands on exactly one side.
pub proof fn lemma_retire_partitions<S, G>(live: Seq<LiveTarget<S>>, targets: Seq<TargetConfig<G>>)
    ensures
        forall|i: int|
            0 <= i < still_wanted(live, targets).len() ==> is_wanted(
                targets,
                (#[trigger] still_wanted(live, targets)[i]).id@,
            ),
        forall|i: int|
            0 <= i < no_longer_wanted(live, targets).len() ==> !is_wanted(
                targets,
                (#[trigger] no_longer_wanted(live, targets)[i]).id@,
            ),
        still_wanted(live, targets).len() + no_longer_wanted(live, targets).len() == live.len(),
        forall|j: int|
            0 <= j < live.len() && is_wanted(targets, live[j].id@) ==> #[trigger] still_wanted(
                live,
                targets,
            ).contains(live[j]),
        forall|j: int|
            0 <= j < live.len() && !is_wanted(targets, live[j].id@) ==> #[trigger] no_longer_wanted(
                live,
                targets,
            ).contains(live[j]),
    decreases live.len(),
{
    if live.len() > 0 {
        let before = live.drop_last();
        let last = live.last();
        lemma_retire_partitions(before, targets);
        let kept = still_wanted(before, targets);
        let gone = no_longer_wanted(before, targets);
        assert forall|j: int|
            0 <= j < live.len() && is_wanted(targets, live[j].id@) implies #[trigger] still_wanted(
            live,
            targets,
        ).contains(live[j]) by {
            if j < live.len() - 1 {
                assert(before[j] == live[j]);
                assert(kept.contains(before[j]));
                if is_wanted(targets, last.id@) {
                    let k = choose|k: int| 0 <= k < kept.len() && kept[k] == before[j];
                    assert(kept.push(last)[k] == live[j]);
                }
            } else {
                assert(kept.push(last)[kept.len() as int] == live[j]);
            }
        }
        assert forall|j: int|
            0 <= j < live.len() && !is_wanted(targets, live[j].id@) implies #[trigger] no_longer_wanted(
            live,
            targets,
        ).contains(live[j]) by {
            if j < live.len() - 1 {
                assert(before[j] == live[j]);
                assert(gone.contains(before[j]));
                if !is_wanted(targets, last.id@) {
                    let k = choose|k: int| 0 <= k < gone.len() && gone[k] == before[j];
                    assert(gone.push(last)[k] == live[j]);
                }
            } else {
                assert(gone.push(last)[gone.len() as int] == live[j]);
            }
        }
        assert forall|i: int|
            0 <= i < still_wanted(live, targets).len() implies is_wanted(
            targets,
            (#[trigger] still_wanted(live, targets)[i]).id@,
        ) by {
            if i < kept.len() {
                assert(is_wanted(targets, kept[i].id@));
            }
        }
        assert forall|i: int|
            0 <= i < no_longer_wanted(live, targets).len() implies !is_wanted(
            targets,
            (#[trigger] no_longer_wanted(live, targets)[i]).id@,
        ) by {
            if i < gone.len() {
                assert(!is_wanted(targets, gone[i].id@));
            }
        }
    }
}

/// Whether some tracked destination answers to this identifier.
pub open spec fn is_tracked<S>(live: Seq<LiveTarget<S>>, id: Seq<char>) -> bool {
    exists|i: int| 0 <= i < live.len() && #[trigger] live[i].id@ == id
}

fn tracked_in<S>(live: &Vec<LiveTarget<S>>, id: &String) -> (known: bool)
    ensures
        known == is_tracked(live@, id@),
{
    let mut index: usize = 0;
    while index < live.len()
        invariant
            0 <= index <= live@.len(),
            forall|j: int| 0 <= j < index ==> #[trigger] live@[j].id@ != id@,
        decreases live@.len() - index,
    {
        if live[index].id == *id {
            return true;
        }
        index = index + 1;
    }
    false
}

/// Starts tracking every configured destination not tracked yet, in
/// configuration order, each with a fresh key, no stream, and a new link.
/// Entries already tracked stay as they are.
pub fn track_new<S, G>(live: &mut Vec<LiveTarget<S>>, config: &MirrorConfig<G>, next_key: &mut u64, now: u64)
    requires
        *old(next_key) + config.targets@.len() <= u64::MAX,
    ensures
        final(live)@.len() >= old(live)@.len(),
        final(live)@.subrange(0, old(live)@.len() as int) == old(live)@,
        *final(next_key) == *old(next_key) + (final(live)@.len() - old(live)@.len()),
        forall|i: int| 0 <= i < config.targets@.len() ==> is_tracked(final(live)@, #[trigger] config.targets@[i].id@),
        (forall|i: int| 0 <= i < old(live)@.len() ==> is_wanted(config.targets@, (#[trigger] old(live)@[i]).id@))
            ==> (forall|i: int|
            0 <= i < final(live)@.len() ==> is_wanted(config.targets@, (#[trigger] final(live)@[i]).id@)),
        forall|i: int|
            old(live)@.len() <= i < final(live)@.len() ==> {
                &&& (#[trigger] final(live)@[i]).key == *old(next_key) + (i - old(live)@.len())
                &&& final(live)@[i].generation == 0
                &&& final(live)@[i].sink is None
                &&& final(live)@[i].link == Link::new_spec(now)
                &&& is_wanted(config.targets@, final(live)@[i].id@)
                &&& !is_tracked(old(live)@, final(live)@[i].id@)
            },
{
    let ghost start = live@;
    let ghost first_key = *next_key;
    let mut index: usize = 0;
    while index < config.targets.len()
        invariant
            0 <= index <= config.targets@.len(),
            *next_key == first_key + (live@.len() - start.len()),
            live@.len() >= start.len(),
            live@.len() - start.len() <= index,
            first_key + config.targets@.len() <= u64::MAX,
            live@.subrange(0, start.len() as int) == start,
            forall|j: int| 0 <= j < index ==> is_tracked(live@, #[trigger] config.targets@[j].id@),
            forall|i: int|
                start.len() <= i < live@.len() ==> {
                    &&& (#[trigger] live@[i]).key == first_key + (i - start.len())
                    &&& live@[i].generation == 0
                    &&& live@[i].sink is None
                    &&& live@[i].link == Link::new_spec(now)
                    &&& is_wanted(config.targets@, live@[i].id@)
                    &&& !is_tracked(start, live@[i].id@)
                },
        decreases config.targets@.len() - index,
    {
        let id = &config.targets[index].id;
        if !tracked_in(live, id) {
            let key = *next_key;
            *next_key = *next_key + 1;
            let ghost before = live@;
            proof {
                assert(!is_tracked(start, id@)) by {
                    if is_tracked(start, id@) {
                        let k = choose|k: int| 0 <= k < start.len() && #[trigger] start[k].id@ == id@;
                        assert(before[k] == start[k]);
                    }
                }
            }
            live.push(LiveTarget { id: id.clone(), key, generation: 0, sink: None, link: Link::new(now) });
            proof {
                assert(live@.subrange(0, start.len() as int) =~= before.subrange(0, start.len() as int));
                assert forall|j: int| 0 <= j < index + 1 implies is_tracked(live@, #[trigger] config.targets@[j].id@) by {
                    if j < index {
                        let k = choose|k: int| 0 <= k < before.len() && #[trigger] before[k].id@ == config.targets@[j].id@;
                        assert(live@[k] == before[k]);
                    } else {
                        assert(live@[before.len() as int].id@ == config.targets@[j].id@);
                    }
                }
                assert(is_wanted(config.targets@, config.targets@[index as int].id@));
            }
        } else {
            proof {
                assert forall|j: int| 0 <= j < index + 1 implies is_tracked(live@, #[trigger] config.targets@[j].id@) by {
                }
            }
        }
        index = index + 1;
    }
    proof {
        if forall|i: int| 0 <= i < start.len() ==> is_wanted(config.targets@, (#[trigger] start[i]).id@) {
            assert forall|i: int| 0 <= i < live@.len() implies is_wanted(
                config.targets@,
                (#[trigger] live@[i]).id@,
            ) by {
                if i < start.len() {
                    assert(live@.subrange(0, start.len() as int)[i] == live@[i]);
                    assert(is_wanted(config.targets@, start[i].id@));
                }
            }
        }
    }
}

impl Link {
    /// A link as [`Link::new`] creates it.
    pub open spec fn new_spec(now: u64) -> Link {
        Link { state: LinkState::Idle, failures: 0, next_try: now, detail: None }
    }
}

/// How long until a link's next attempt, when one is scheduled ahead of now.
pub open spec fn retry_delay(link: Link, now: u64) -> Option<u64> {
    if link.next_try > now {
        Some((link.next_try - now) as u64)
    } else {
        None
    }
}

/// Position of the first tracked destination answering to `id`, if any.
pub open spec fn first_live<S>(live: Seq<LiveTarget<S>>, id: Seq<char>) -> Option<int> {
    if exists|i: int| 0 <= i < live.len() && #[trigger] live[i].id@ == id {
        Some(choose|i: int|
            0 <= i < live.len() && #[trigger] live[i].id@ == id && forall|j: int|
                0 <= j < i ==> #[trigger] live[j].id@ != id)
    } else {
        None
    }
}

/// What the interface is shown of one configured destination, apart from
/// the figures its stream measures.
#[derive(Clone, Debug)]
pub struct TargetRow {
    pub id: String,
    pub name: String,
    pub state: LinkState,
    pub detail: Option<String>,
    pub retry_in_ms: Option<u64>,
    /// Position in the roster of the entry, when its stream is open.
    pub stream: Option<usize>,
}

/// The row of a configured destination: its identifier and name as
/// configured, and the link state, reason and retry delay of the first
/// tracked entry answering to it, or an idle row when none does.
pub open spec fn row_of<S, G>(row: TargetRow, target: TargetConfig<G>, live: Seq<LiveTarget<S>>, now: u64) -> bool {
    &&& row.id == target.id
    &&& row.name == target.name
    &&& match first_live(live, target.id@) {
        Some(j) => {
            &&& row.state == live[j].link.state
            &&& row.detail == live[j].link.detail
            &&& row.retry_in_ms == retry_delay(live[j].link, now)
            &&& row.stream == if live[j].sink is Some { Some(j as usize) } else { None::<usize> }
        },
        None => {
            &&& row.state == LinkState::Idle
            &&& row.detail is None
            &&& row.retry_in_ms is None
            &&& row.stream is None
        },
    }
}

fn find_live<S>(live: &Vec<LiveTarget<S>>, id: &String) -> (position: Option<usize>)
    ensures
        match position {
            Some(i) => i < live@.len() && first_live(live@, id@) == Some(i as int),
            None => first_live(live@, id@) is None,
        },
{
    let mut index: usize = 0;
    while index < live.len()
        invariant
            0 <= index <= live@.len(),
            forall|j: int| 0 <= j < index ==> #[trigger] live@[j].id@ != id@,
        decreases live@.len() - index,
    {
        if live[index].id == *id {
            proof {
                let i = index as int;
                assert(exists|k: int| 0 <= k < live@.len() && #[trigger] live@[k].id@ == id@) by {
                    assert(live@[i].id@ == id@);
                }
                let c = first_live(live@, id@)->0;
                assert(c == i) by {
                    if c < i {
                        assert(live@[c].id@ != id@);
                    } else if c > i {
                        assert(live@[i].id@ != id@);
                    }
                }
            }
            return Some(index);
        }
        index = index + 1;
    }
    None
}

fn copied_detail(detail: &Option<String>) -> (copy: Option<String>)
    ensures
        copy == *detail,
{
    match detail {
        Some(text) => Some(text.clone()),
        None => None,
    }
}

/// One row per configured destination, in configuration order. A device
/// that disappears keeps its place: its row stays, with the state its link
/// reports, or idle when nothing tracks it.
pub fn target_rows<S, G>(config: &MirrorConfig<G>, live: &Vec<LiveTarget<S>>, now: u64) -> (rows: Vec<TargetRow>)
    ensures
        rows@.len() == config.targets@.len(),
        forall|i: int| 0 <= i < rows@.len() ==> row_of(#[trigger] rows@[i], config.targets@[i], live@, now),
{
    let mut rows: Vec<TargetRow> = Vec::new();
    let mut index: usize = 0;
    while index < config.targets.len()
        invariant
            0 <= index <= config.targets@.len(),
            rows@.len() == index,
            forall|i: int| 0 <= i < index ==> row_of(#[trigger] rows@[i], config.targets@[i], live@, now),
        decreases config.targets@.len() - index,
    {
        let target = &config.targets[index];
        let row = match find_live(live, &target.id) {
            Some(position) => {
                let entry = &live[position];
                TargetRow {
                    id: target.id.clone(),
                    name: target.name.clone(),
                    state: entry.link.state,
                    detail: copied_detail(&entry.link.detail),
                    retry_in_ms: entry.link.retry_in_ms(now),
                    stream: if entry.sink.is_some() { Some(position) } else { None },
                }
            },
            None => TargetRow {
                id: target.id.clone(),
                name: target.name.clone(),
                state: LinkState::Idle,
                detail: None,
                retry_in_ms: None,
                stream: None,
            },
        };
        rows.push(row);
        index = index + 1;
    }
    rows
}

/// What the interface is shown of the chosen source, apart from the figures
/// its stream measures.
#[derive(Clone, Debug)]
pub struct SourceRow {
    pub id: String,
    pub name: String,
    pub state: LinkState,
    pub detail: Option<String>,
    pub retry_in_ms: Option<u64>,
    /// A capture stream is open.
    pub open: bool,
}

/// The source's row: identifier as configured, the name of the open device
/// or else the one configured, and its link's state, reason and retry delay.
pub open spec fn source_row_of(row: SourceRow, wanted: SourceConfig, link: Link, open_name: Option<String>, now: u64) -> bool {
    &&& row.id == wanted.id
    &&& row.name == match open_name {
        Some(name) => name,
        None => wanted.name,
    }
    &&& row.state == link.state
    &&& row.detail == link.detail
    &&& row.retry_in_ms == retry_delay(link, now)
    &&& row.open == (open_name is Some)
}

/// The source's row, when a source is chosen. `open_name` is the name of the
/// device whose capture stream is open, if one is.
pub fn source_row<G>(config: &MirrorConfig<G>, link: &Link, open_name: Option<String>, now: u64) -> (row: Option<SourceRow>)
    ensures
        match config.source {
            Some(wanted) => row is Some && source_row_of(row->0, wanted, *link, open_name, now),
            None => row is None,
        },
{
    match &config.source {
        Some(wanted) => {
            let open = open_name.is_some();
            let name = match open_name {
                Some(name) => name,
                None => wanted.name.clone(),
            };
            Some(SourceRow {
                id: wanted.id.clone(),
                name,
                state: link.state,
                detail: copied_detail(&link.detail),
                retry_in_ms: link.retry_in_ms(now),
                open,
            })
        },
        None => None,
    }
}

/// Whether the device list is due for enumeration at `now`: never
/// enumerated yet, or last enumerated at least [`SCAN_INTERVAL_MS`] ago.
pub fn scan_due(last_scan: Option<u64>, now: u64) -> (due: bool)
    ensures
        due == match last_scan {
            None => true,
            Some(last) => now >= last && now - last >= SCAN_INTERVAL_MS,
        },
{
    match last_scan {
        None => true,
        Some(last) => now >= last && now - last >= SCAN_INTERVAL_MS,
    }
}

/// What happened while the supervisor drained a burst of commands.
pub enum BurstEvent {
    /// A command was applied; whether it changed the persisted configuration.
    Handled(bool),
    /// Nothing more is queued.
    Drained,
    /// The application is shutting down.
    Shutdown,
}

/// What the supervisor does next while draining a burst.
#[derive(Clone, Copy, Debug, PartialEq, Eq, Structural)]
pub enum BurstAction {
    /// Take the next queued command.
    Continue,
    /// The burst is over and changed the configuration: announce it once, then
    /// reconcile.
    Announce,
    /// The burst is over and changed nothing persisted: reconcile.
    Settle,
    /// Stop the supervisor at once.
    Stop,
}

/// Folds a burst of queued commands into one reconciliation and at most one
/// announcement of the configuration. `mutated` tells whether a command of
/// the burst so far changed the configuration; the new value comes back
/// with the action.
pub fn burst_step(mutated: bool, event: BurstEvent) -> (next: (bool, BurstAction))
    ensures
        match event {
            BurstEvent::Handled(changed) => next == (mutated || changed, BurstAction::Continue),
            BurstEvent::Drained => next == (false, if mutated { BurstAction::Announce } else { BurstAction::Settle }),
            BurstEvent::Shutdown => next == (mutated, BurstAction::Stop),
        },
{
    match event {
        BurstEvent::Handled(changed) => (mutated || changed, BurstAction::Continue),
        BurstEvent::Drained => (false, if mutated { BurstAction::Announce } else { BurstAction::Settle }),
        BurstEvent::Shutdown => (mutated, BurstAction::Stop),
    }
}

/// What the interface last saw of the destinations: identifier and state.
pub open spec fn shape_view(shape: Seq<(String, LinkState)>) -> Seq<(Seq<char>, LinkState)> {
    shape.map_values(|entry: (String, LinkState)| (entry.0@, entry.1))
}

fn same_shape(a: &Vec<(String, LinkState)>, b: &Vec<(String, LinkState)>) -> (same: bool)
    ensures
        same == (shape_view(a@) == shape_view(b@)),
{
    if a.len() != b.len() {
        proof {
            assert(shape_view(a@).len() != shape_view(b@).len());
        }
        return false;
    }
    let mut index: usize = 0;
    while index < a.len()
        invariant
            a@.len() == b@.len(),
            0 <= index <= a@.len(),
            forall|j: int| 0 <= j < index ==> #[trigger] shape_view(a@)[j] == shape_view(b@)[j],
        decreases a@.len() - index,
    {
        if a[index].0 != b[index].0 || a[index].1 != b[index].1 {
            proof {
                assert(shape_view(a@)[index as int] != shape_view(b@)[index as int]);
            }
            return false;
        }
        index = index + 1;
    }
    proof {
        assert(shape_view(a@) =~= shape_view(b@));
    }
    true
}

/// Whether a status tick is worth handing to the interface. While nobody is
/// watching the meters, only structural changes are: a destination appearing,
/// disappearing or changing state, the source changing state, the mirror
/// being switched.
pub fn worth_publishing(
    watching: bool,
    shape: &Vec<(String, LinkState)>,
    published: &Vec<(String, LinkState)>,
    source_state: Option<LinkState>,
    published_source: Option<LinkState>,
    enabled: bool,
    published_enabled: bool,
) -> (publish: bool)
    ensures
        publish == (watching || shape_view(shape@) != shape_view(published@) || source_state != published_source
            || enabled != published_enabled),
{
    let structural = !same_shape(shape, published) || source_state != published_source || enabled
        != published_enabled;
    watching || structural
}

/// The mirror is running as soon as one destination renders.
pub fn is_mirroring(states: &Vec<LinkState>) -> (mirroring: bool)
    ensures
        mirroring == exists|i: int| 0 <= i < states@.len() && #[trigger] states@[i] == LinkState::Live,
{
    let mut index: usize = 0;
    while index < states.len()
        invariant
            0 <= index <= states@.len(),
            forall|j: int| 0 <= j < index ==> #[trigger] states@[j] != LinkState::Live,
        decreases states@.len() - index,
    {
        if states[index] == LinkState::Live {
            return true;
        }
        index = index + 1;
    }
    false
}

} // verus!
