//! Key repeat, driven by the caller's clock.
//!
//! There is no timer behind this: whoever polls passes the current time in milliseconds,
//! taken from a clock that does not run backwards. A held key goes through two phases. For
//! `delay_ms` after the press nothing happens. From then on each poll may yield one more
//! press of the key, and two such presses are at least `rate_ms` apart.

use crate::input::{is_modifier_key, Key, KeyEvent, KeyState};
use vstd::prelude::*;

verus! {

/// The key that is being held, and when it last produced a press.
pub struct HeldKey {
    /// The press that started it.
    pub event: KeyEvent,
    /// When the key went down.
    pub since: u64,
    /// When the last repeated press was produced; `None` while the first is still to come.
    pub last_repeat: Option<u64>,
}

/// The repeat state: idle, or tracking one held key.
pub struct KeyRepeat {
    pub held: Option<HeldKey>,
    /// How long a key must be held before it repeats, in milliseconds.
    pub delay_ms: u32,
    /// The least distance between two repeated presses, in milliseconds.
    pub rate_ms: u32,
}

/// The time that has passed from `from` to `now`; zero where `now` lies before `from`.
pub open spec fn elapsed(from: u64, now: u64) -> u64 {
    if now >= from {
        (now - from) as u64
    } else {
        0
    }
}

/// Computes [`elapsed`].
pub fn elapsed_ms(from: u64, now: u64) -> (e: u64)
    ensures
        e == elapsed(from, now),
{
    if now >= from {
        now - from
    } else {
        0
    }
}

impl KeyRepeat {
    /// A repeated press is due at `now`: a key is held, the initial delay has passed, and
    /// the last repeated press, if there was one, lies at least `rate_ms` back.
    pub open spec fn due(self, now: u64) -> bool {
        match self.held {
            Some(held) => elapsed(held.since, now) >= self.delay_ms && match held.last_repeat {
                Some(last) => elapsed(last, now) >= self.rate_ms,
                None => true,
            },
            None => false,
        }
    }

    /// The press that a poll yields when one is due: the held key's event, as a press.
    pub open spec fn repeated_event(self) -> KeyEvent {
        KeyEvent { state: KeyState::Pressed, ..self.held->0.event }
    }

    /// The state after a poll at `now`: where a press was due, it has been produced now.
    pub open spec fn after_poll(self, now: u64) -> KeyRepeat {
        if self.due(now) {
            KeyRepeat {
                held: Some(HeldKey { last_repeat: Some(now), ..self.held->0 }),
                ..self
            }
        } else {
            self
        }
    }

    /// The state after a key went down at `now`. A key that is no modifier becomes the held
    /// key, in place of any other. A modifier changes nothing.
    pub open spec fn after_press(self, event: KeyEvent, now: u64) -> KeyRepeat {
        if is_modifier_key(event.key) {
            self
        } else {
            KeyRepeat { held: Some(HeldKey { event, since: now, last_repeat: None }), ..self }
        }
    }

    /// The state after a key came up: idle, where it was the held key.
    pub open spec fn after_release(self, key: Key) -> KeyRepeat {
        match self.held {
            Some(held) => if held.event.key == key {
                KeyRepeat { held: None, ..self }
            } else {
                self
            },
            None => self,
        }
    }

    /// How long the caller may wait at `now` before it polls again: nothing at all where
    /// a press is due, the rest of the delay or of the interval where one is to come, and
    /// `None`, for as long as it likes, where no key is held.
    pub open spec fn wait(self, now: u64) -> Option<u32> {
        match self.held {
            Some(held) => {
                let held_for = elapsed(held.since, now);
                if held_for < self.delay_ms {
                    Some((self.delay_ms - held_for) as u32)
                } else {
                    match held.last_repeat {
                        Some(last) => if elapsed(last, now) >= self.rate_ms {
                            Some(0u32)
                        } else {
                            Some((self.rate_ms - elapsed(last, now)) as u32)
                        },
                        None => Some(0u32),
                    }
                }
            },
            None => None,
        }
    }

    /// The times, among those of a sequence of polls, at which a press is produced.
    pub open spec fn emissions(self, times: Seq<u64>) -> Seq<u64>
        decreases times.len(),
    {
        if times.len() == 0 {
            Seq::empty()
        } else {
            let rest = self.after_poll(times[0]).emissions(times.drop_first());
            if self.due(times[0]) {
                seq![times[0]] + rest
            } else {
                rest
            }
        }
    }

    /// An idle repeat state with the given timing.
    pub fn new(delay_ms: u32, rate_ms: u32) -> (k: KeyRepeat)
        ensures
            k == (KeyRepeat { held: None, delay_ms, rate_ms }),
    {
        KeyRepeat { held: None, delay_ms, rate_ms }
    }

    /// Whether a key is being held.
    pub fn is_active(&self) -> (active: bool)
        ensures
            active == self.held is Some,
    {
        self.held.is_some()
    }

    /// A key went down at `now_ms`.
    pub fn press(&mut self, event: KeyEvent, now_ms: u64)
        ensures
            *final(self) == old(self).after_press(event, now_ms),
    {
        if !event.key.is_modifier() {
            self.held = Some(HeldKey { event, since: now_ms, last_repeat: None });
        }
    }

    /// A key came up.
    pub fn release(&mut self, key: Key)
        ensures
            *final(self) == old(self).after_release(key),
    {
        let stop = match &self.held {
            Some(held) => held.event.key == key,
            None => false,
        };
        if stop {
            self.held = None;
        }
    }

    /// Yields the repeated press that is due at `now_ms`, if one is.
    pub fn poll(&mut self, now_ms: u64) -> (repeated: Option<KeyEvent>)
        ensures
            *final(self) == old(self).after_poll(now_ms),
            repeated == if old(self).due(now_ms) {
                Some(old(self).repeated_event())
            } else {
                None
            },
    {
        let delay = self.delay_ms as u64;
        let rate = self.rate_ms as u64;
        match &mut self.held {
            Some(held) => {
                if elapsed_ms(held.since, now_ms) >= delay {
                    let due = match held.last_repeat {
                        Some(last) => elapsed_ms(last, now_ms) >= rate,
                        None => true,
                    };
                    if due {
                        held.last_repeat = Some(now_ms);
                        let mut event = held.event.duplicate();
                        event.state = KeyState::Pressed;
                        return Some(event);
                    }
                }
                None
            },
            None => None,
        }
    }

    /// How long the caller may wait before the next poll, in milliseconds.
    pub fn timeout(&self, now_ms: u64) -> (wait: Option<u32>)
        ensures
            wait == self.wait(now_ms),
    {
        match &self.held {
            Some(held) => {
                let held_for = elapsed_ms(held.since, now_ms);
                if held_for < self.delay_ms as u64 {
                    Some((self.delay_ms as u64 - held_for) as u32)
                } else {
                    match held.last_repeat {
                        Some(last) => {
                            let since_last = elapsed_ms(last, now_ms);
                            if since_last >= self.rate_ms as u64 {
                                Some(0)
                            } else {
                                Some((self.rate_ms as u64 - since_last) as u32)
                            }
                        },
                        None => Some(0),
                    }
                }
            },
            None => None,
        }
    }
}

/// The times of a sequence of polls do not run backwards.
pub open spec fn non_decreasing(times: Seq<u64>) -> bool {
    forall|i: int, j: int| 0 <= i <= j < times.len() ==> times[i] <= times[j]
}

/// While the initial delay has not passed, a poll yields nothing and changes nothing, and
/// the time to wait is what is left of the delay.
pub proof fn lemma_quiet_before_delay(k: KeyRepeat, now: u64)
    requires
        k.held is Some,
        elapsed(k.held->0.since, now) < k.delay_ms,
    ensures
        !k.due(now),
        k.after_poll(now) == k,
        k.wait(now) == Some((k.delay_ms - elapsed(k.held->0.since, now)) as u32),
        k.wait(now)->0 > 0,
{
}

/// No sequence of polls yields a press before the held key's initial delay has passed.
pub proof fn lemma_no_repeat_before_delay(k: KeyRepeat, times: Seq<u64>)
    requires
        k.held is Some,
        forall|i: int| 0 <= i < times.len() ==> elapsed(k.held->0.since, #[trigger] times[i]) < k.delay_ms,
    ensures
        k.emissions(times) == Seq::<u64>::empty(),
    decreases times.len(),
{
    if times.len() > 0 {
        lemma_quiet_before_delay(k, times[0]);
        let rest = times.drop_first();
        assert forall|i: int| 0 <= i < rest.len() implies elapsed(
            k.held->0.since,
            #[trigger] rest[i],
        ) < k.delay_ms by {
            assert(rest[i] == times[i + 1]);
        }
        lemma_no_repeat_before_delay(k, rest);
    }
}

/// A key pressed at `t0` and held repeats for the first time at `t0 + delay_ms`: a poll
/// at that moment yields the press, and a second poll at the same moment yields nothing
/// more (as long as the interval is not zero). The time to wait is then the interval.
pub proof fn lemma_first_repeat_at_delay(k: KeyRepeat, event: KeyEvent, t0: u64)
    requires
        !is_modifier_key(event.key),
        t0 + k.delay_ms <= u64::MAX,
    ensures
        ({
            let at = (t0 + k.delay_ms) as u64;
            let held = k.after_press(event, t0);
            &&& held.due(at)
            &&& held.repeated_event() == (KeyEvent { state: KeyState::Pressed, ..event })
            &&& held.wait(at) == Some(0u32)
            &&& k.rate_ms > 0 ==> !held.after_poll(at).due(at)
            &&& held.after_poll(at).wait(at) == Some(k.rate_ms)
            &&& k.rate_ms > 0 ==> held.emissions(seq![at, at]) == seq![at]
        }),
{
    let at = (t0 + k.delay_ms) as u64;
    let held = k.after_press(event, t0);
    let once = held.after_poll(at);
    let times = seq![at, at];
    assert(times.drop_first() =~= seq![at]);
    assert(seq![at].drop_first() =~= Seq::<u64>::empty());
    if k.rate_ms > 0 {
        assert(once.after_poll(at) == once);
        assert(once.emissions(seq![at].drop_first()) =~= Seq::<u64>::empty());
        assert(once.emissions(seq![at]) =~= Seq::<u64>::empty());
        assert(held.emissions(times) =~= seq![at] + once.emissions(times.drop_first()));
    }
}

/// After a repeated press at `first`, the next one comes no sooner than `rate_ms` later.
pub proof fn lemma_next_repeat_waits(k: KeyRepeat, first: u64, next: u64)
    requires
        k.due(first),
        k.after_poll(first).due(next),
    ensures
        elapsed(first, next) >= k.rate_ms,
        next >= first || k.rate_ms == 0,
{
}

/// Every time at which a sequence of polls yields a press is one of the poll times.
pub proof fn lemma_emissions_are_polls(k: KeyRepeat, times: Seq<u64>)
    ensures
        forall|i: int|
            0 <= i < k.emissions(times).len() ==> times.contains(#[trigger] k.emissions(times)[i]),
    decreases times.len(),
{
    if times.len() > 0 {
        let rest = times.drop_first();
        let next = k.after_poll(times[0]);
        lemma_emissions_are_polls(next, rest);
        let e = k.emissions(times);
        assert forall|i: int| 0 <= i < e.len() implies times.contains(#[trigger] e[i]) by {
            if k.due(times[0]) && i == 0 {
                assert(times[0] == e[0]);
            } else {
                let j = if k.due(times[0]) {
                    i - 1
                } else {
                    i
                };
                assert(e[i] == next.emissions(rest)[j]);
                let p = choose|p: int| 0 <= p < rest.len() && rest[p] == next.emissions(rest)[j];
                assert(times[p + 1] == rest[p]);
            }
        }
    }
}

/// The repeated presses of a held key are spaced: with a clock that does not run backwards,
/// any two presses that follow one another in a sequence of polls are at least `rate_ms`
/// apart, and so is the first of them from the press that came before the sequence.
#[verifier::rlimit(50)]
pub proof fn lemma_repeats_are_spaced(k: KeyRepeat, times: Seq<u64>)
    requires
        non_decreasing(times),
        k.held matches Some(held) && (held.last_repeat matches Some(last) ==> times.len() > 0
            ==> last <= times[0]),
    ensures
        forall|i: int, j: int|
            0 <= i && j == i + 1 && j < k.emissions(times).len() ==> #[trigger] k.emissions(
                times,
            )[j] - #[trigger] k.emissions(times)[i] >= k.rate_ms,
        k.held->0.last_repeat matches Some(last) ==> k.emissions(times).len() > 0
            ==> k.emissions(times)[0] - last >= k.rate_ms,
        forall|i: int|
            0 <= i < k.emissions(times).len() ==> elapsed(
                k.held->0.since,
                #[trigger] k.emissions(times)[i],
            ) >= k.delay_ms,
    decreases times.len(),
{
    if times.len() > 0 {
        let rest = times.drop_first();
        let next = k.after_poll(times[0]);
        assert(non_decreasing(rest)) by {
            assert forall|i: int, j: int| 0 <= i <= j < rest.len() implies rest[i] <= rest[j] by {
                assert(rest[i] == times[i + 1] && rest[j] == times[j + 1]);
            }
        }
        if rest.len() > 0 {
            assert(rest[0] == times[1]);
            assert(times[0] <= times[1]);
        }
        lemma_repeats_are_spaced(next, rest);
        lemma_emissions_are_polls(next, rest);
        let e = k.emissions(times);
        let tail = next.emissions(rest);
        assert forall|i: int| 0 <= i < tail.len() implies times[0] <= #[trigger] tail[i] by {
            let p = choose|p: int| 0 <= p < rest.len() && rest[p] == tail[i];
            assert(rest[p] == times[p + 1]);
        }
        if k.due(times[0]) {
            assert(e =~= seq![times[0]] + tail);
            assert forall|i: int, j: int| 0 <= i && j == i + 1 && j < e.len() implies #[trigger] e[j]
                - #[trigger] e[i] >= k.rate_ms by {
                if i > 0 {
                    assert(e[j] == tail[j - 1] && e[i] == tail[i - 1]);
                } else {
                    assert(e[1] == tail[0]);
                }
            }
            assert forall|i: int| 0 <= i < e.len() implies elapsed(
                k.held->0.since,
                #[trigger] e[i],
            ) >= k.delay_ms by {
                if i > 0 {
                    assert(e[i] == tail[i - 1]);
                }
            }
        } else {
            assert(e =~= tail);
        }
    }
}

/// Releasing the held key stops the repetition: no later poll yields a press, and the
/// caller may wait as long as it likes.
pub proof fn lemma_release_stops_repeat(k: KeyRepeat, key: Key, times: Seq<u64>)
    requires
        k.held matches Some(held) && held.event.key == key,
    ensures
        k.after_release(key).held is None,
        k.after_release(key).emissions(times) == Seq::<u64>::empty(),
        forall|now: u64| k.after_release(key).wait(now) is None,
    decreases times.len(),
{
    let idle = k.after_release(key);
    lemma_idle_never_repeats(idle, times);
}

/// Without a held key no poll yields a press.
pub proof fn lemma_idle_never_repeats(k: KeyRepeat, times: Seq<u64>)
    requires
        k.held is None,
    ensures
        k.emissions(times) == Seq::<u64>::empty(),
    decreases times.len(),
{
    if times.len() > 0 {
        lemma_idle_never_repeats(k, times.drop_first());
    }
}

/// Pressing another key while one is held replaces the held key: the new key starts its
/// own delay, and the old one no longer repeats.
pub proof fn lemma_press_replaces_held_key(k: KeyRepeat, event: KeyEvent, now: u64)
    requires
        !is_modifier_key(event.key),
    ensures
        k.after_press(event, now).held == Some(
            HeldKey { event, since: now, last_repeat: None },
        ),
        k.after_press(event, now).delay_ms == k.delay_ms,
        k.after_press(event, now).rate_ms == k.rate_ms,
{
}

} // verus!
