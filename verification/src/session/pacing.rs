//! Rates, clock probes and identifiers of a session.
use vstd::prelude::*;

use super::messages::SessionContext;
use super::pending::{add_duration, saturating};
use crate::random::{first_eight, le_value, random_bytes, u64_from_le};

verus! {

/// Length of a rate window in microseconds.
pub const RATE_WINDOW: u64 = 1_000_000;

pub const MAX_CONTROL_MESSAGES_PER_SECOND: u32 = 20_000;

pub const MAX_DATAGRAMS_PER_SECOND: u32 = 50_000;

/// Microseconds between clock probes.
pub const PROBE_INTERVAL: u64 = 100_000;

/// Microseconds after which an unanswered probe is forgotten.
pub const PROBE_MAX_AGE: u64 = 2_000_000;

pub const MAX_PENDING_PROBES: usize = 64;

/// The peer exceeded the event-rate limit.
#[derive(Clone, Copy, Debug, PartialEq, Eq, Structural)]
pub struct RateExceeded;

/// Counts events within fixed windows.
#[derive(Clone, Copy, Debug, PartialEq, Eq, Structural)]
pub struct EventRate {
    pub window_started: u64,
    pub count: u32,
    pub maximum: u32,
}

impl EventRate {
    pub fn new(maximum: u32, now: u64) -> (result: Self)
        ensures
            result == (EventRate { window_started: now, count: 0, maximum }),
    {
        EventRate { window_started: now, count: 0, maximum }
    }

    pub open spec fn window_over(self, now: u64) -> bool {
        now >= self.window_started && now - self.window_started >= RATE_WINDOW
    }

    /// The state after one more event.
    pub open spec fn after(self, now: u64) -> EventRate {
        let counted = if self.window_over(now) {
            0
        } else {
            self.count as int
        };
        EventRate {
            window_started: if self.window_over(now) {
                now
            } else {
                self.window_started
            },
            count: if counted < u32::MAX {
                (counted + 1) as u32
            } else {
                u32::MAX
            },
            maximum: self.maximum,
        }
    }

    /// Counts an event, and refuses it once the window is full.
    pub fn observe(&mut self, now: u64) -> (result: Result<(), RateExceeded>)
        ensures
            *final(self) == old(self).after(now),
            result is Ok <==> final(self).count <= old(self).maximum,
    {
        if now.saturating_sub(self.window_started) >= RATE_WINDOW {
            self.window_started = now;
            self.count = 0;
        }
        self.count = self.count.saturating_add(1);
        if self.count > self.maximum {
            return Err(RateExceeded);
        }
        Ok(())
    }
}

/// Once a window is full, every further event in it is refused.
pub proof fn a_full_window_stays_full(rate: EventRate, now: u64)
    requires
        rate.count >= rate.maximum,
        rate.maximum < u32::MAX,
        !rate.window_over(now),
    ensures
        rate.after(now).count > rate.maximum,
{
}

// ---------------------------------------------------------------------------
// Clock probes
// ---------------------------------------------------------------------------

/// A probe that waits for its echo.
#[derive(Clone, Copy, Debug, PartialEq, Eq, Structural)]
pub struct PendingProbe {
    pub sequence: u64,
    pub sent_at: u64,
}

/// Probes of the active activation.
#[derive(Debug)]
pub struct ProbeBook {
    pub next_sequence: u64,
    pub next_at: u64,
    pub context: Option<SessionContext>,
    pub pending: Vec<PendingProbe>,
}

/// The probe numbers are used up.
#[derive(Clone, Copy, Debug, PartialEq, Eq, Structural)]
pub struct ProbesExhausted;

pub open spec fn oldest_kept(now: u64) -> u64 {
    if now >= PROBE_MAX_AGE {
        (now - PROBE_MAX_AGE) as u64
    } else {
        0
    }
}

/// Probes that are not too old, in order.
pub open spec fn recent(pending: Seq<PendingProbe>, oldest: u64) -> Seq<PendingProbe>
    decreases pending.len(),
{
    if pending.len() == 0 {
        Seq::empty()
    } else if pending.last().sent_at >= oldest {
        recent(pending.drop_last(), oldest).push(pending.last())
    } else {
        recent(pending.drop_last(), oldest)
    }
}

/// Probe numbers increase and are below the next one.
pub open spec fn numbered(pending: Seq<PendingProbe>, next: u64) -> bool {
    &&& forall|i: int, j: int|
        0 <= i < j < pending.len() ==> (#[trigger] pending[i]).sequence < (
        #[trigger] pending[j]).sequence
    &&& forall|i: int| 0 <= i < pending.len() ==> (#[trigger] pending[i]).sequence < next
}

pub open spec fn has_probe(pending: Seq<PendingProbe>, sequence: u64) -> bool {
    exists|i: int| 0 <= i < pending.len() && (#[trigger] pending[i]).sequence == sequence
}

proof fn recent_is_numbered(pending: Seq<PendingProbe>, oldest: u64, next: u64)
    requires
        numbered(pending, next),
    ensures
        numbered(recent(pending, oldest), next),
        recent(pending, oldest).len() <= pending.len(),
        forall|i: int|
            0 <= i < recent(pending, oldest).len() ==> pending.contains(
                #[trigger] recent(pending, oldest)[i],
            ),
    decreases pending.len(),
{
    if pending.len() > 0 {
        let shorter = pending.drop_last();
        assert(numbered(shorter, next));
        recent_is_numbered(shorter, oldest, next);
        let kept = recent(pending, oldest);
        let before = recent(shorter, oldest);
        assert forall|i: int| 0 <= i < kept.len() implies pending.contains(
            #[trigger] kept[i],
        ) by {
            if i < before.len() {
                assert(shorter.contains(before[i]));
                let k = choose|k: int| 0 <= k < shorter.len() && shorter[k] == before[i];
                assert(pending[k] == kept[i]);
            } else {
                assert(pending[pending.len() - 1] == kept[i]);
            }
        }
        assert forall|i: int, j: int| 0 <= i < j < kept.len() implies (#[trigger] kept[i]).sequence
            < (#[trigger] kept[j]).sequence by {
            if j == before.len() {
                assert(shorter.contains(before[i]));
                let k = choose|k: int| 0 <= k < shorter.len() && shorter[k] == before[i];
                assert(pending[k].sequence < pending[pending.len() - 1].sequence);
            }
        }
        assert forall|i: int| 0 <= i < kept.len() implies (#[trigger] kept[i]).sequence < next by {
            assert(pending.contains(kept[i]));
        }
    }
}

impl ProbeBook {
    pub open spec fn wf(&self) -> bool {
        &&& self.pending@.len() <= MAX_PENDING_PROBES
        &&& numbered(self.pending@, self.next_sequence)
    }

    pub fn new(now: u64) -> (result: Self)
        ensures
            result.wf(),
            result.next_sequence == 1,
            result.next_at == saturating(now + PROBE_INTERVAL),
            result.context is None,
            result.pending@.len() == 0,
    {
        ProbeBook {
            next_sequence: 1,
            next_at: add_duration(now, PROBE_INTERVAL),
            context: None,
            pending: Vec::new(),
        }
    }

    /// Probes that still count at `now` for the activation `active`.
    pub open spec fn kept(&self, now: u64, active: Option<SessionContext>) -> Seq<PendingProbe> {
        if self.context == active {
            recent(self.pending@, oldest_kept(now))
        } else {
            Seq::empty()
        }
    }

    /// The next probe is due.
    pub open spec fn due(&self, now: u64, active: Option<SessionContext>) -> bool {
        &&& self.context == active
        &&& active is Some
        &&& now >= self.next_at
        &&& self.kept(now, active).len() < MAX_PENDING_PROBES
    }

    /// Forgets probes of another activation and old ones, and says which probe
    /// to send next, if one is due.
    pub fn tick(&mut self, now: u64, active: Option<SessionContext>) -> (result: Result<
        Option<PendingProbe>,
        ProbesExhausted,
    >)
        requires
            old(self).wf(),
        ensures
            final(self).wf(),
            final(self).context == active,
            if old(self).due(now, active) {
                let probe = PendingProbe { sequence: old(self).next_sequence, sent_at: now };
                if old(self).next_sequence < u64::MAX {
                    &&& result == Ok::<Option<PendingProbe>, ProbesExhausted>(Some(probe))
                    &&& final(self).pending@ == old(self).kept(now, active).push(probe)
                    &&& final(self).next_sequence == old(self).next_sequence + 1
                    &&& final(self).next_at == saturating(now + PROBE_INTERVAL)
                } else {
                    result is Err
                }
            } else {
                &&& result == Ok::<Option<PendingProbe>, ProbesExhausted>(None)
                &&& final(self).pending@ == old(self).kept(now, active)
                &&& final(self).next_sequence == old(self).next_sequence
                &&& final(self).next_at == if old(self).context == active {
                    old(self).next_at
                } else {
                    saturating(now + PROBE_INTERVAL)
                }
            },
    {
        let ghost before = self.pending@;
        let same = match (self.context, active) {
            (Some(current), Some(next)) => current == next,
            (None, None) => true,
            _ => false,
        };
        let fresh: u64 = add_duration(now, PROBE_INTERVAL);
        let mut kept: Vec<PendingProbe> = Vec::new();
        if same {
            let oldest: u64 = now.saturating_sub(PROBE_MAX_AGE);
            let mut at: usize = 0;
            assert(before.take(0) =~= Seq::empty());
            while at < self.pending.len()
                invariant
                    before == self.pending@,
                    at <= before.len(),
                    kept@ == recent(before.take(at as int), oldest),
                decreases before.len() - at,
            {
                assert(before.take(at + 1).drop_last() =~= before.take(at as int));
                if self.pending[at].sent_at >= oldest {
                    kept.push(self.pending[at]);
                }
                at = at + 1;
            }
            assert(before.take(at as int) =~= before);
            proof {
                recent_is_numbered(before, oldest, self.next_sequence);
            }
        }
        assert(kept@ =~= old(self).kept(now, active));
        let due = same && active.is_some() && now >= self.next_at && kept.len()
            < MAX_PENDING_PROBES;
        self.context = active;
        if !same {
            self.next_at = fresh;
        }
        if !due {
            self.pending = kept;
            return Ok(None);
        }
        let probe = PendingProbe { sequence: self.next_sequence, sent_at: now };
        match self.next_sequence.checked_add(1) {
            Some(next) => {
                kept.push(probe);
                self.pending = kept;
                self.next_sequence = next;
                self.next_at = fresh;
                Ok(Some(probe))
            },
            None => {
                self.pending = kept;
                Err(ProbesExhausted)
            },
        }
    }

    /// Takes an echo. It counts only for a waiting probe of the same activation
    /// with the same send time; a waiting probe is answered once.
    pub fn echo(
        &mut self,
        session: SessionContext,
        sequence: u64,
        sent_at: u64,
        active: Option<SessionContext>,
    ) -> (accepted: bool)
        requires
            old(self).wf(),
        ensures
            final(self).wf(),
            final(self).next_sequence == old(self).next_sequence,
            final(self).next_at == old(self).next_at,
            final(self).context == old(self).context,
            accepted == (active == Some(session) && old(self).pending@.contains(
                PendingProbe { sequence, sent_at },
            )),
            active == Some(session) ==> !has_probe(final(self).pending@, sequence),
            active == Some(session) ==> forall|probe: PendingProbe|
                probe.sequence != sequence ==> #[trigger] final(self).pending@.contains(probe)
                    == old(self).pending@.contains(probe),
            active != Some(session) ==> final(self).pending@ == old(self).pending@,
    {
        match active {
            Some(current) => {
                if current != session {
                    return false;
                }
            },
            None => return false,
        }
        let ghost before = self.pending@;
        let mut at: usize = 0;
        while at < self.pending.len()
            invariant
                *self == *old(self),
                self.wf(),
                active == Some(session),
                before == self.pending@,
                at <= before.len(),
                forall|i: int| 0 <= i < at ==> (#[trigger] before[i]).sequence != sequence,
            decreases before.len() - at,
        {
            if self.pending[at].sequence == sequence {
                let found = self.pending.remove(at);
                proof {
                    let after = self.pending@;
                    assert(after =~= before.remove(at as int));
                    assert forall|i: int| 0 <= i < after.len() implies after[i] == before[if i
                        < at {
                        i
                    } else {
                        i + 1
                    }] by {}
                    assert forall|i: int, j: int| 0 <= i < j < after.len() implies (
                    #[trigger] after[i]).sequence < (#[trigger] after[j]).sequence by {
                        let m = if i < at {
                            i
                        } else {
                            i + 1
                        };
                        let n = if j < at {
                            j
                        } else {
                            j + 1
                        };
                        assert(before[m].sequence < before[n].sequence);
                    }
                    assert forall|i: int| 0 <= i < after.len() implies (
                    #[trigger] after[i]).sequence < self.next_sequence && after[i].sequence
                        != sequence by {
                        let m = if i < at {
                            i
                        } else {
                            i + 1
                        };
                        if m < at {
                            assert(before[m].sequence < before[at as int].sequence);
                        } else {
                            assert(before[at as int].sequence < before[m].sequence);
                        }
                    }
                    assert forall|probe: PendingProbe|
                        probe.sequence != sequence implies #[trigger] after.contains(probe)
                        == before.contains(probe) by {
                        if before.contains(probe) {
                            let k = choose|k: int| 0 <= k < before.len() && before[k] == probe;
                            assert(after[if k < at {
                                k
                            } else {
                                k - 1
                            }] == probe);
                        }
                        if after.contains(probe) {
                            let k = choose|k: int| 0 <= k < after.len() && after[k] == probe;
                            assert(before[if k < at {
                                k
                            } else {
                                k + 1
                            }] == probe);
                        }
                    }
                    let echoed = PendingProbe { sequence, sent_at };
                    if before.contains(echoed) {
                        let k = choose|k: int| 0 <= k < before.len() && before[k] == echoed;
                        if k < at {
                            assert(before[k].sequence != sequence);
                        } else if k > at {
                            assert(before[at as int].sequence < before[k].sequence);
                        }
                    }
                    if found.sent_at == sent_at {
                        assert(before[at as int] == echoed);
                    }
                }
                return found.sent_at == sent_at;
            }
            at = at + 1;
        }
        proof {
            let echoed = PendingProbe { sequence, sent_at };
            if before.contains(echoed) {
                let k = choose|k: int| 0 <= k < before.len() && before[k] == echoed;
                assert(before[k].sequence != sequence);
            }
        }
        false
    }
}

// ---------------------------------------------------------------------------
// Identifiers
// ---------------------------------------------------------------------------

/// An answer to a probe of the peer.
#[derive(Clone, Copy, Debug, PartialEq, Eq, Structural)]
pub struct ProbeEcho {
    pub session: SessionContext,
    pub sequence: u64,
    pub probe_sent_at: u64,
    pub received_at: u64,
    pub echoed_at: u64,
}

/// Answers a probe of the activation in which this side sends; any other probe
/// is stale.
pub fn answer_probe(
    outbound: Option<SessionContext>,
    session: SessionContext,
    sequence: u64,
    sent_at: u64,
    now: u64,
) -> (result: Option<ProbeEcho>)
    ensures
        result == if outbound == Some(session) {
            Some(
                ProbeEcho {
                    session,
                    sequence,
                    probe_sent_at: sent_at,
                    received_at: now,
                    echoed_at: now,
                },
            )
        } else {
            None
        },
{
    match outbound {
        Some(active) => if active == session {
            Some(
                ProbeEcho {
                    session,
                    sequence,
                    probe_sent_at: sent_at,
                    received_at: now,
                    echoed_at: now,
                },
            )
        } else {
            None
        },
        None => None,
    }
}

/// A session identifier from random bytes; zero is no identifier.
pub fn session_id_from(bytes: [u8; 8]) -> (result: Option<u64>)
    ensures
        match result {
            Some(id) => id == le_value(bytes@) && id != 0,
            None => le_value(bytes@) == 0,
        },
{
    let value: u64 = u64_from_le(bytes);
    if value == 0 {
        None
    } else {
        Some(value)
    }
}

#[derive(Clone, Copy, Debug, PartialEq, Eq, Structural)]
pub enum SessionIdError {
    /// The system gave no random data.
    NoRandomness,
    /// All random data that could be asked for was zero.
    Zero,
}

/// What a draw of random bytes comes to: an identifier, an error where the
/// system gave none, or `None` where zero was drawn and another draw is due.
pub fn session_id_drawn(drawn: Option<[u8; 8]>) -> (result: Option<Result<u64, SessionIdError>>)
    ensures
        match drawn {
            None => result == Some(Err::<u64, SessionIdError>(SessionIdError::NoRandomness)),
            Some(bytes) => if le_value(bytes@) == 0 {
                result is None
            } else {
                result matches Some(Ok(id)) && id == le_value(bytes@)
            },
        },
{
    match drawn {
        Some(bytes) => match session_id_from(bytes) {
            Some(id) => Some(Ok(id)),
            None => None,
        },
        None => Some(Err(SessionIdError::NoRandomness)),
    }
}

/// Draws a session identifier, and again where zero was drawn. Each draw is
/// decided by `session_id_drawn`; which bytes a draw gives, and whether it gives
/// any, is up to the system.
pub fn random_session_id() -> (result: Result<u64, SessionIdError>)
    ensures
        result matches Ok(id) ==> id != 0,
{
    let mut tries: u64 = u64::MAX;
    while tries > 0
        decreases tries,
    {
        let drawn = match random_bytes(8) {
            Some(bytes) => Some(first_eight(&bytes)),
            None => None,
        };
        match session_id_drawn(drawn) {
            Some(outcome) => return outcome,
            None => {
                tries = tries - 1;
            },
        }
    }
    Err(SessionIdError::Zero)
}

/// The state after a run of events at these times.
pub open spec fn rate_run(rate: EventRate, times: Seq<u64>) -> EventRate
    decreases times.len(),
{
    if times.len() == 0 {
        rate
    } else {
        rate_run(rate, times.drop_last()).after(times.last())
    }
}

/// Within one second after a window began, exactly as many events pass as are
/// allowed: the event after them is refused, and each before them passes.
pub proof fn windows_pass_their_maximum(rate: EventRate, times: Seq<u64>)
    requires
        rate.count == 0,
        times.len() < u32::MAX,
        rate.window_started <= u64::MAX - 1_000_000,
        forall|i: int|
            0 <= i < times.len() ==> #[trigger] times[i] < rate.window_started + 1_000_000,
    ensures
        rate_run(rate, times).count == times.len(),
        rate_run(rate, times).window_started == rate.window_started,
        rate_run(rate, times).maximum == rate.maximum,
    decreases times.len(),
{
    if times.len() > 0 {
        let before = times.drop_last();
        assert forall|i: int| 0 <= i < before.len() implies #[trigger] before[i]
            < rate.window_started + 1_000_000 by {
            assert(before[i] == times[i]);
        }
        assert(times.last() == times[times.len() - 1]);
        windows_pass_their_maximum(rate, before);
    }
}

/// A second after its beginning a window is over, and the next begins with the
/// event that came then.
pub proof fn windows_last_a_second(rate: EventRate, now: u64)
    requires
        now >= rate.window_started + 1_000_000,
    ensures
        rate.after(now).count == 1,
        rate.after(now).window_started == now,
        rate.after(now).maximum == rate.maximum,
{
}

/// Probes are kept for two seconds: exactly those sent within them stay.
pub proof fn probes_are_kept_for_two_seconds(
    pending: Seq<PendingProbe>,
    now: u64,
    probe: PendingProbe,
)
    ensures
        recent(pending, oldest_kept(now)).contains(probe) <==> pending.contains(probe)
            && probe.sent_at + 2_000_000 >= now,
    decreases pending.len(),
{
    let oldest = oldest_kept(now);
    if pending.len() > 0 {
        let before = pending.drop_last();
        let last = pending.last();
        probes_are_kept_for_two_seconds(before, now, probe);
        let kept = recent(pending, oldest);
        if pending.contains(probe) {
            let i = choose|i: int| 0 <= i < pending.len() && pending[i] == probe;
            if i < before.len() {
                assert(before[i] == probe);
            }
        }
        if before.contains(probe) {
            let i = choose|i: int| 0 <= i < before.len() && before[i] == probe;
            assert(pending[i] == probe);
        }
        if last.sent_at >= oldest {
            let older = recent(before, oldest);
            assert(kept == older.push(last));
            if older.contains(probe) {
                let i = choose|i: int| 0 <= i < older.len() && older[i] == probe;
                assert(kept[i] == probe);
            }
            if kept.contains(probe) && probe != last {
                let i = choose|i: int| 0 <= i < kept.len() && kept[i] == probe;
                assert(older[i] == probe);
            }
            assert(kept[older.len() as int] == last);
        }
        assert(pending[pending.len() - 1] == last);
    }
}

/// A probe is due exactly from its time on, while an activation is open for which
/// probes are kept, and while fewer than 64 are on their way.
pub proof fn probes_are_due_from_their_time_on(
    book: ProbeBook,
    now: u64,
    active: Option<SessionContext>,
)
    ensures
        book.due(now, active) ==> now >= book.next_at && active is Some && book.context == active
            && recent(book.pending@, oldest_kept(now)).len() < 64,
        now >= book.next_at && active is Some && book.context == active && recent(
            book.pending@,
            oldest_kept(now),
        ).len() < 64 ==> book.due(now, active),
        book.context != active ==> book.kept(now, active).len() == 0,
{
}

} // verus!
