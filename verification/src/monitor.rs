//! The monitor's state: the latest readings, bounded histories for the
//! graphs, the polling rate and the keys that change it.
//!
//! History samples are of any copyable type `S`; the monitor only stores and
//! windows them (the physical quantities are computed outside).

use vstd::prelude::*;
use crate::readings::PsuReadings;
use crate::text::{contains_run, str_contains};

verus! {

/// The smaller of two lengths.
pub open spec fn min_len(a: int, b: int) -> int {
    if a <= b { a } else { b }
}

/// How many samples each history keeps.
pub const HISTORY_LEN: usize = 60;
/// The polling interval at start, in milliseconds.
pub const INITIAL_TICK_RATE_MS: u64 = 1000;
/// The step by which keys change the polling interval.
pub const TICK_RATE_STEP_MS: u64 = 250;
/// The shortest polling interval the keys set.
pub const FASTEST_TICK_RATE_MS: u64 = 250;
/// The longest polling interval the keys set.
pub const SLOWEST_TICK_RATE_MS: u64 = 5000;

/// `h` after appending `x`, dropping the oldest sample once there are more
/// than `HISTORY_LEN`.
pub open spec fn window<S>(h: Seq<S>, x: S) -> Seq<S> {
    if h.len() + 1 > HISTORY_LEN { h.push(x).drop_first() } else { h.push(x) }
}

/// The history that a sequence of samples leaves, pushed one by one into an
/// empty history.
pub open spec fn history_of<S>(samples: Seq<S>) -> Seq<S>
    decreases samples.len(),
{
    if samples.len() == 0 {
        Seq::empty()
    } else {
        window(history_of(samples.drop_last()), samples.last())
    }
}

/// Appends `x` to the history `h`, keeping at most `HISTORY_LEN` once it held
/// no more than that.
pub fn push_window<S>(h: &mut Vec<S>, x: S)
    ensures
        final(h)@ == window(old(h)@, x),
{
    h.push(x);
    if h.len() > HISTORY_LEN {
        h.remove(0);
    }
}

/// A history never grows past `HISTORY_LEN`, and its newest sample is the one
/// just pushed.
pub proof fn lemma_window_bounded<S>(h: Seq<S>, x: S)
    requires
        h.len() <= HISTORY_LEN,
    ensures
        window(h, x).len() <= HISTORY_LEN,
        window(h, x).len() == if h.len() < HISTORY_LEN { h.len() + 1 } else { HISTORY_LEN as nat },
        window(h, x).last() == x,
{
}

/// A history holds exactly the last `HISTORY_LEN` samples pushed into it (all
/// of them while there are fewer).
pub proof fn lemma_history_is_suffix<S>(samples: Seq<S>)
    ensures
        history_of(samples) == samples.skip(
            if samples.len() > HISTORY_LEN { samples.len() - HISTORY_LEN } else { 0 },
        ),
    decreases samples.len(),
{
    if samples.len() == 0 {
        assert(samples.skip(0) =~= Seq::<S>::empty());
    } else {
        let init = samples.drop_last();
        lemma_history_is_suffix(init);
        let d = if init.len() > HISTORY_LEN { init.len() - HISTORY_LEN } else { 0 };
        let h = init.skip(d);
        if samples.len() > HISTORY_LEN {
            assert(h.push(samples.last()).drop_first() =~= samples.skip(samples.len() - HISTORY_LEN));
        } else {
            assert(h.push(samples.last()) =~= samples.skip(0));
        }
    }
}

/// The next polling interval when asked to poll faster: 250 ms shorter, but
/// never below the 250 ms minimum; an interval already at or below the
/// minimum stays as it is.
pub open spec fn spec_faster(rate: u64) -> u64 {
    if rate > FASTEST_TICK_RATE_MS {
        if rate - TICK_RATE_STEP_MS > FASTEST_TICK_RATE_MS {
            (rate - TICK_RATE_STEP_MS) as u64
        } else {
            FASTEST_TICK_RATE_MS
        }
    } else {
        rate
    }
}

/// The next polling interval when asked to poll slower: 250 ms longer, but
/// never above the 5 s maximum; an interval already at or above the maximum
/// stays as it is.
pub open spec fn spec_slower(rate: u64) -> u64 {
    if rate < SLOWEST_TICK_RATE_MS {
        if rate + TICK_RATE_STEP_MS < SLOWEST_TICK_RATE_MS {
            (rate + TICK_RATE_STEP_MS) as u64
        } else {
            SLOWEST_TICK_RATE_MS
        }
    } else {
        rate
    }
}

/// Polling faster never goes below 250 ms from an interval of at least
/// 250 ms, and shortens every interval above 250 ms; polling slower never goes
/// above 5 s from an interval of at most 5 s, and lengthens every interval
/// below 5 s.
pub proof fn lemma_rate_limits(rate: u64)
    ensures
        rate >= FASTEST_TICK_RATE_MS ==> FASTEST_TICK_RATE_MS <= spec_faster(rate) <= rate,
        rate > FASTEST_TICK_RATE_MS ==> spec_faster(rate) < rate,
        rate <= SLOWEST_TICK_RATE_MS ==> rate <= spec_slower(rate) <= SLOWEST_TICK_RATE_MS,
        rate < SLOWEST_TICK_RATE_MS ==> spec_slower(rate) > rate,
{
}

/// The polling interval, once in `250..=5000` ms, stays there whatever keys
/// are pressed; a multiple of 250 ms stays a multiple of 250 ms.
pub proof fn lemma_rate_stays_in_range(rate: u64)
    requires
        FASTEST_TICK_RATE_MS <= rate <= SLOWEST_TICK_RATE_MS,
    ensures
        FASTEST_TICK_RATE_MS <= spec_faster(rate) <= SLOWEST_TICK_RATE_MS,
        FASTEST_TICK_RATE_MS <= spec_slower(rate) <= SLOWEST_TICK_RATE_MS,
        rate % TICK_RATE_STEP_MS == 0 ==> spec_faster(rate) % TICK_RATE_STEP_MS == 0,
        rate % TICK_RATE_STEP_MS == 0 ==> spec_slower(rate) % TICK_RATE_STEP_MS == 0,
{
}

/// Polling faster then slower gives back the interval one started with when
/// neither step met a limit (from 500 ms to 5 s), and so does polling slower
/// then faster (from 250 ms to 4.75 s).
pub proof fn lemma_rate_steps_undo(rate: u64)
    ensures
        500 <= rate <= SLOWEST_TICK_RATE_MS ==> spec_slower(spec_faster(rate)) == rate,
        FASTEST_TICK_RATE_MS <= rate <= 4750 ==> spec_faster(spec_slower(rate)) == rate,
{
}

/// Nanoseconds in a millisecond.
pub const NANOS_PER_MILLI: u128 = 1_000_000;

/// Whether a new round of readings is due, `elapsed_nanos` after the last one.
pub fn poll_due(tick_rate_ms: u64, elapsed_nanos: u128) -> (b: bool)
    ensures
        b == (elapsed_nanos >= tick_rate_ms * NANOS_PER_MILLI),
{
    let period = tick_rate_ms as u128 * NANOS_PER_MILLI;
    elapsed_nanos >= period
}

/// How long to wait for a key, `elapsed_nanos` after the last round of
/// readings: what is left of the polling interval, or nothing once it is over.
pub fn poll_timeout_nanos(tick_rate_ms: u64, elapsed_nanos: u128) -> (t: u128)
    ensures
        t == if elapsed_nanos >= tick_rate_ms * NANOS_PER_MILLI {
            0
        } else {
            tick_rate_ms * NANOS_PER_MILLI - elapsed_nanos
        },
{
    let period = tick_rate_ms as u128 * NANOS_PER_MILLI;
    if elapsed_nanos >= period { 0 } else { period - elapsed_nanos }
}

/// A key press, as far as the monitor tells keys apart.
#[derive(Clone, Copy, Debug, PartialEq, Eq)]
pub enum Key {
    Char(char),
    Esc,
    Other,
}

/// The three samples a readout adds to a supply's histories.
#[derive(Clone, Copy, Debug)]
pub struct Sample<S> {
    pub power: S,
    pub temp: S,
    pub fan: S,
}

/// "AX1600", the model whose fixed power scale the graphs use.
pub open spec fn ax1600_tag() -> Seq<char> {
    seq!['A', 'X', '1', '6', '0', '0']
}

/// Whether any supply read is an AX1600 model.
pub fn any_ax1600i(readings: &Vec<PsuReadings>) -> (b: bool)
    ensures
        b == exists|j: int| 0 <= j < readings@.len() && contains_run(#[trigger] readings@[j].name@, ax1600_tag()),
{
    let tag = "AX1600";
    proof {
        reveal_strlit("AX1600");
    }
    assert(tag@ =~= ax1600_tag());
    let mut j: usize = 0;
    while j < readings.len()
        invariant
            j <= readings@.len(),
            tag@ == ax1600_tag(),
            forall|t: int| 0 <= t < j ==> !contains_run(#[trigger] readings@[t].name@, ax1600_tag()),
        decreases readings@.len() - j,
    {
        if str_contains(readings[j].name.as_str(), tag) {
            return true;
        }
        j += 1;
    }
    false
}

/// The monitor's state.
pub struct App<S> {
    pub readings: Vec<PsuReadings>,
    pub power_history: Vec<Vec<S>>,
    pub temp_history: Vec<Vec<S>>,
    pub fan_history: Vec<Vec<S>>,
    pub total_power_history: Vec<S>,
    pub should_quit: bool,
    pub tick_count: u64,
    pub tick_rate_ms: u64,
    pub is_ax1600i: bool,
}

impl<S: Copy> App<S> {
    /// A temperature and a fan history for every supply that has a power history.
    pub open spec fn wf(&self) -> bool {
        &&& self.temp_history@.len() >= self.power_history@.len()
        &&& self.fan_history@.len() >= self.power_history@.len()
    }

    /// Every history holds at most `HISTORY_LEN` samples.
    pub open spec fn histories_bounded(&self) -> bool {
        &&& forall|i: int| 0 <= i < self.power_history@.len() ==> #[trigger] self.power_history@[i]@.len() <= HISTORY_LEN
        &&& forall|i: int| 0 <= i < self.temp_history@.len() ==> #[trigger] self.temp_history@[i]@.len() <= HISTORY_LEN
        &&& forall|i: int| 0 <= i < self.fan_history@.len() ==> #[trigger] self.fan_history@[i]@.len() <= HISTORY_LEN
        &&& self.total_power_history@.len() <= HISTORY_LEN
    }

    /// A monitor for `num_psus` supplies: empty histories, polling every second.
    pub fn new(num_psus: usize) -> (app: App<S>)
        ensures
            app.wf(),
            app.readings@.len() == 0,
            app.power_history@.len() == num_psus,
            app.temp_history@.len() == num_psus,
            app.fan_history@.len() == num_psus,
            forall|i: int| 0 <= i < num_psus ==> #[trigger] app.power_history@[i]@.len() == 0,
            forall|i: int| 0 <= i < num_psus ==> #[trigger] app.temp_history@[i]@.len() == 0,
            forall|i: int| 0 <= i < num_psus ==> #[trigger] app.fan_history@[i]@.len() == 0,
            app.total_power_history@.len() == 0,
            app.histories_bounded(),
            !app.should_quit,
            app.tick_count == 0,
            app.tick_rate_ms == INITIAL_TICK_RATE_MS,
            !app.is_ax1600i,
    {
        let mut power_history: Vec<Vec<S>> = Vec::new();
        let mut temp_history: Vec<Vec<S>> = Vec::new();
        let mut fan_history: Vec<Vec<S>> = Vec::new();
        let mut i: usize = 0;
        while i < num_psus
            invariant
                i <= num_psus,
                power_history@.len() == i,
                temp_history@.len() == i,
                fan_history@.len() == i,
                forall|t: int| 0 <= t < i ==> #[trigger] power_history@[t]@.len() == 0,
                forall|t: int| 0 <= t < i ==> #[trigger] temp_history@[t]@.len() == 0,
                forall|t: int| 0 <= t < i ==> #[trigger] fan_history@[t]@.len() == 0,
            decreases num_psus - i,
        {
            power_history.push(Vec::with_capacity(HISTORY_LEN));
            temp_history.push(Vec::with_capacity(HISTORY_LEN));
            fan_history.push(Vec::with_capacity(HISTORY_LEN));
            i += 1;
        }
        App {
            readings: Vec::new(),
            power_history,
            temp_history,
            fan_history,
            total_power_history: Vec::with_capacity(HISTORY_LEN),
            should_quit: false,
            tick_count: 0,
            tick_rate_ms: INITIAL_TICK_RATE_MS,
            is_ax1600i: false,
        }
    }

    /// Polls faster: 250 ms less, down to 250 ms at the least.
    pub fn increase_tick_rate(&mut self)
        ensures
            final(self).tick_rate_ms == spec_faster(old(self).tick_rate_ms),
            final(self).readings == old(self).readings,
            final(self).power_history == old(self).power_history,
            final(self).temp_history == old(self).temp_history,
            final(self).fan_history == old(self).fan_history,
            final(self).total_power_history == old(self).total_power_history,
            final(self).should_quit == old(self).should_quit,
            final(self).tick_count == old(self).tick_count,
            final(self).is_ax1600i == old(self).is_ax1600i,
    {
        if self.tick_rate_ms > FASTEST_TICK_RATE_MS {
            let shorter = self.tick_rate_ms - TICK_RATE_STEP_MS;
            self.tick_rate_ms = if shorter > FASTEST_TICK_RATE_MS { shorter } else { FASTEST_TICK_RATE_MS };
        }
    }

    /// Polls slower: 250 ms more, up to 5 s at the most.
    pub fn decrease_tick_rate(&mut self)
        ensures
            final(self).tick_rate_ms == spec_slower(old(self).tick_rate_ms),
            final(self).readings == old(self).readings,
            final(self).power_history == old(self).power_history,
            final(self).temp_history == old(self).temp_history,
            final(self).fan_history == old(self).fan_history,
            final(self).total_power_history == old(self).total_power_history,
            final(self).should_quit == old(self).should_quit,
            final(self).tick_count == old(self).tick_count,
            final(self).is_ax1600i == old(self).is_ax1600i,
    {
        if self.tick_rate_ms < SLOWEST_TICK_RATE_MS {
            let longer = self.tick_rate_ms + TICK_RATE_STEP_MS;
            self.tick_rate_ms = if longer < SLOWEST_TICK_RATE_MS { longer } else { SLOWEST_TICK_RATE_MS };
        }
    }

    /// A key press: q, Q or Esc quits; = or + polls faster; - polls slower;
    /// anything else does nothing.
    pub fn handle_key(&mut self, key: Key)
        ensures
            final(self).should_quit == (old(self).should_quit || key == Key::Char('q')
                || key == Key::Char('Q') || key == Key::Esc),
            final(self).tick_rate_ms == if key == Key::Char('=') || key == Key::Char('+') {
                spec_faster(old(self).tick_rate_ms)
            } else if key == Key::Char('-') {
                spec_slower(old(self).tick_rate_ms)
            } else {
                old(self).tick_rate_ms
            },
            final(self).readings == old(self).readings,
            final(self).power_history == old(self).power_history,
            final(self).temp_history == old(self).temp_history,
            final(self).fan_history == old(self).fan_history,
            final(self).total_power_history == old(self).total_power_history,
            final(self).tick_count == old(self).tick_count,
            final(self).is_ax1600i == old(self).is_ax1600i,
    {
        match key {
            Key::Char(c) => {
                if c == 'q' || c == 'Q' {
                    self.should_quit = true;
                } else if c == '=' || c == '+' {
                    self.increase_tick_rate();
                } else if c == '-' {
                    self.decrease_tick_rate();
                }
            },
            Key::Esc => {
                self.should_quit = true;
            },
            Key::Other => {},
        }
    }

    /// Notes which model the supplies are, from their first readings.
    pub fn detect_model(&mut self, readings: &Vec<PsuReadings>)
        ensures
            final(self).is_ax1600i == exists|j: int|
                0 <= j < readings@.len() && contains_run(#[trigger] readings@[j].name@, ax1600_tag()),
            final(self).readings == old(self).readings,
            final(self).power_history == old(self).power_history,
            final(self).temp_history == old(self).temp_history,
            final(self).fan_history == old(self).fan_history,
            final(self).total_power_history == old(self).total_power_history,
            final(self).should_quit == old(self).should_quit,
            final(self).tick_count == old(self).tick_count,
            final(self).tick_rate_ms == old(self).tick_rate_ms,
    {
        self.is_ax1600i = any_ax1600i(readings);
    }

    /// A new round of readings: one tick more; the histories of each supply
    /// that has a power history get its samples (supplies beyond them are not
    /// recorded); the total history gets `total`; the readings replace the
    /// previous ones. Histories of at most `HISTORY_LEN` samples stay so.
    /// Every supply recorded needs a temperature and a fan history.
    pub fn update(&mut self, readings: Vec<PsuReadings>, samples: Vec<Sample<S>>, total: S)
        requires
            old(self).temp_history@.len() >= min_len(samples@.len() as int, old(self).power_history@.len() as int),
            old(self).fan_history@.len() >= min_len(samples@.len() as int, old(self).power_history@.len() as int),
            samples@.len() == readings@.len(),
            old(self).tick_count < u64::MAX,
        ensures
            old(self).wf() ==> final(self).wf(),
            final(self).tick_count == old(self).tick_count + 1,
            final(self).readings@ == readings@,
            final(self).power_history@.len() == old(self).power_history@.len(),
            final(self).temp_history@.len() == old(self).temp_history@.len(),
            final(self).fan_history@.len() == old(self).fan_history@.len(),
            forall|i: int| 0 <= i < old(self).power_history@.len() ==> #[trigger] final(self).power_history@[i]@ == if i < samples@.len() {
                window(old(self).power_history@[i]@, samples@[i].power)
            } else {
                old(self).power_history@[i]@
            },
            forall|i: int| 0 <= i < old(self).temp_history@.len() ==> #[trigger] final(self).temp_history@[i]@ == if i < samples@.len() && i < old(self).power_history@.len() {
                window(old(self).temp_history@[i]@, samples@[i].temp)
            } else {
                old(self).temp_history@[i]@
            },
            forall|i: int| 0 <= i < old(self).fan_history@.len() ==> #[trigger] final(self).fan_history@[i]@ == if i < samples@.len() && i < old(self).power_history@.len() {
                window(old(self).fan_history@[i]@, samples@[i].fan)
            } else {
                old(self).fan_history@[i]@
            },
            final(self).total_power_history@ == window(old(self).total_power_history@, total),
            old(self).histories_bounded() ==> final(self).histories_bounded(),
            final(self).should_quit == old(self).should_quit,
            final(self).tick_rate_ms == old(self).tick_rate_ms,
            final(self).is_ax1600i == old(self).is_ax1600i,
    {
        self.tick_count += 1;
        let n = self.power_history.len();
        let ghost nt = self.temp_history@.len();
        let ghost nf = self.fan_history@.len();
        let mut i: usize = 0;
        while i < samples.len()
            invariant
                i <= samples@.len(),
                n == self.power_history@.len(),
                self.temp_history@.len() == nt,
                self.fan_history@.len() == nf,
                nt >= min_len(samples@.len() as int, n as int),
                nf >= min_len(samples@.len() as int, n as int),
                forall|t: int| 0 <= t < n ==> #[trigger] self.power_history@[t]@ == if t < i && t < samples@.len() {
                    window(old(self).power_history@[t]@, samples@[t].power)
                } else {
                    old(self).power_history@[t]@
                },
                forall|t: int| 0 <= t < nt ==> #[trigger] self.temp_history@[t]@ == if t < i && t < samples@.len() && t < n {
                    window(old(self).temp_history@[t]@, samples@[t].temp)
                } else {
                    old(self).temp_history@[t]@
                },
                forall|t: int| 0 <= t < nf ==> #[trigger] self.fan_history@[t]@ == if t < i && t < samples@.len() && t < n {
                    window(old(self).fan_history@[t]@, samples@[t].fan)
                } else {
                    old(self).fan_history@[t]@
                },
                old(self).power_history@.len() == n,
                old(self).temp_history@.len() == nt,
                old(self).fan_history@.len() == nf,
                self.total_power_history == old(self).total_power_history,
                self.should_quit == old(self).should_quit,
                self.tick_rate_ms == old(self).tick_rate_ms,
                self.is_ax1600i == old(self).is_ax1600i,
                self.tick_count == old(self).tick_count + 1,
            decreases samples@.len() - i,
        {
            if i < n {
                let s = samples[i];
                push_window(&mut self.power_history[i], s.power);
                push_window(&mut self.temp_history[i], s.temp);
                push_window(&mut self.fan_history[i], s.fan);
            }
            i += 1;
        }
        push_window(&mut self.total_power_history, total);
        self.readings = readings;
        proof {
            if old(self).histories_bounded() {
                assert forall|t: int| 0 <= t < self.power_history@.len() implies #[trigger] self.power_history@[t]@.len() <= HISTORY_LEN by {
                    assert(old(self).power_history@[t]@.len() <= HISTORY_LEN);
                }
                assert forall|t: int| 0 <= t < self.temp_history@.len() implies #[trigger] self.temp_history@[t]@.len() <= HISTORY_LEN by {
                    assert(old(self).temp_history@[t]@.len() <= HISTORY_LEN);
                }
                assert forall|t: int| 0 <= t < self.fan_history@.len() implies #[trigger] self.fan_history@[t]@.len() <= HISTORY_LEN by {
                    assert(old(self).fan_history@[t]@.len() <= HISTORY_LEN);
                }
            }
        }
    }
}

} // verus!
