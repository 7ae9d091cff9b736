//! Latency profile of one run: a sequence of named phases that partition the
//! time from the start of the run to the report.
//!
//! Time is kept as signed nanoseconds from the instant the profile was
//! started with (negative before it), read through `std::time::Instant`; a
//! duration is the difference of two readings, zero when it would be
//! negative, as `Instant::duration_since` gives it. Every recording
//! operation exists twice: one reads the clock, the other takes the reading
//! as an argument and is specified exactly in terms of it.
use std::time::Duration;
use std::time::Instant;
use vstd::prelude::*;

verus! {

#[verifier::external_type_specification]
#[verifier::external_body]
pub struct ExInstant(Instant);

/// Calls `Instant::now`. What it returns depends on the clock: nothing is stated.
#[verifier::external_body]
fn instant_now() -> Instant {
    Instant::now()
}

/// What `Instant::duration_since` gives for `later` and `earlier`: a fixed
/// function of the two instants (zero when `earlier` is the later one).
pub uninterp spec fn instant_duration(later: Instant, earlier: Instant) -> Duration;

/// Calls `Instant::duration_since`; its result depends on the two instants alone.
#[verifier::external_body]
fn instant_duration_since(later: &Instant, earlier: &Instant) -> (r: Duration)
    ensures
        r == instant_duration(*later, *earlier),
{
    later.duration_since(*earlier)
}

/// What `Duration::as_nanos` gives for `d`: the whole nanoseconds it holds.
pub uninterp spec fn duration_nanos(d: Duration) -> u128;

/// Calls `Duration::as_nanos`; its result depends on the duration alone,
/// and no duration holds more than `Duration::MAX`.
#[verifier::external_body]
fn duration_as_nanos(d: &Duration) -> (r: u128)
    ensures
        r == duration_nanos(*d),
        r <= max_duration_nanos(),
{
    d.as_nanos()
}

/// The most nanoseconds a `Duration` holds: `Duration::MAX` is `u64::MAX`
/// seconds and 999 999 999 nanoseconds.
pub open spec fn max_duration_nanos() -> int {
    18446744073709551615int * 1000000000 + 999999999
}

/// The reading of instant `t` on a profile started at `origin`: the signed
/// nanoseconds from `origin` to `t`, negative when `t` is the earlier one.
pub open spec fn reading_of(origin: Instant, t: Instant) -> i128 {
    let ahead = duration_nanos(instant_duration(t, origin));
    if ahead > 0 {
        ahead as i128
    } else {
        (0 - duration_nanos(instant_duration(origin, t))) as i128
    }
}

/// The reading of `t`, when there is an instant.
pub open spec fn optional_reading(origin: Instant, t: Option<Instant>) -> Option<i128> {
    match t {
        Some(i) => Some(reading_of(origin, i)),
        None => None,
    }
}

/// Signed nanoseconds from `origin` to `t`. The difference of two readings,
/// when not negative, is what `Instant::duration_since` gives for the two
/// instants; readings are exact, without bound but `Duration`'s.
fn nanos_since(origin: &Instant, t: &Instant) -> (r: i128)
    ensures
        r == reading_of(*origin, *t),
{
    let d = instant_duration_since(t, origin);
    let ahead = duration_as_nanos(&d);
    if ahead > 0 {
        ahead as i128
    } else {
        let back = instant_duration_since(origin, t);
        let behind = duration_as_nanos(&back);
        0 - (behind as i128)
    }
}

/// `now - since` when `now` is not earlier, zero otherwise; it always fits.
pub fn gap(now: i128, since: i128) -> (r: u128)
    ensures
        r == elapsed(now, since),
{
    if now < since {
        0
    } else if since >= 0 || now < 0 {
        (now - since) as u128
    } else {
        (now as u128) + ((-(since + 1)) as u128) + 1
    }
}

/// Name of the phase a profile starts in.
pub open spec fn startup_phase() -> Seq<char> {
    "startup / arguments"@
}

/// Name of the phase entered at the first streamed content.
pub open spec fn streaming_phase() -> Seq<char> {
    "streaming content"@
}

/// Name of the phase from the last streamed content to the end of the stream.
pub open spec fn tail_phase() -> Seq<char> {
    "stream tail"@
}

/// Name of the phase entered when the stream has finished.
pub open spec fn finalization_phase() -> Seq<char> {
    "response finalization / stats"@
}

/// Time from `since` to `now`, zero if `now` is earlier (as `Instant::duration_since`).
pub open spec fn elapsed(now: i128, since: i128) -> u128 {
    if now >= since {
        (now - since) as u128
    } else {
        0
    }
}

/// `a + b`, or `u128::MAX` when that does not fit.
pub open spec fn sat_add(a: u128, b: u128) -> u128 {
    if a + b > u128::MAX {
        u128::MAX
    } else {
        (a + b) as u128
    }
}

/// The recorded state of an enabled profile. Times are signed nanoseconds
/// from the start of the profile; durations are nanoseconds.
pub struct StateView {
    /// The phase that is running.
    pub phase: Seq<char>,
    /// When the running phase began.
    pub phase_start: i128,
    /// The completed phases, oldest first, with their durations.
    pub phases: Seq<(Seq<char>, u128)>,
    /// When the first streamed content arrived.
    pub first_content: Option<i128>,
    /// When the latest streamed content arrived.
    pub last_content: Option<i128>,
    /// Time from the first content to the first flushed non-empty output.
    pub first_flush: Option<u128>,
    /// Total time spent writing and flushing output.
    pub output: u128,
}

/// The state a profile starts in.
pub open spec fn initial_state() -> StateView {
    StateView {
        phase: startup_phase(),
        phase_start: 0,
        phases: Seq::empty(),
        first_content: None,
        last_content: None,
        first_flush: None,
        output: 0,
    }
}

/// `s` after entering `phase` at `now`: the running phase is closed with its duration.
pub open spec fn entered(s: StateView, phase: Seq<char>, now: i128) -> StateView {
    StateView {
        phases: s.phases.push((s.phase, elapsed(now, s.phase_start))),
        phase: phase,
        phase_start: now,
        ..s
    }
}

/// `s` after content arrived at `now`: the first content enters the streaming phase.
pub open spec fn content_arrived(s: StateView, now: i128) -> StateView {
    let s1 = if s.first_content is None {
        entered(StateView { first_content: Some(now), ..s }, streaming_phase(), now)
    } else {
        s
    };
    StateView { last_content: Some(now), ..s1 }
}

/// `s` after output was flushed at `now`; `write_start` is when the write began.
pub open spec fn output_flushed(
    s: StateView,
    write_start: Option<i128>,
    nonempty: bool,
    now: i128,
) -> StateView {
    StateView {
        output: match write_start {
            Some(t) => sat_add(s.output, elapsed(now, t)),
            None => s.output,
        },
        first_flush: if nonempty && s.first_flush is None {
            match s.first_content {
                Some(f) => Some(elapsed(now, f)),
                None => None,
            }
        } else {
            s.first_flush
        },
        ..s
    }
}

/// `s` after the stream finished at `now`: the tail phase (from the last
/// content on, when there was content) and then the finalization phase.
pub open spec fn stream_ended(s: StateView, now: i128) -> StateView {
    let s1 = match s.last_content {
        Some(last) => entered(s, tail_phase(), last),
        None => s,
    };
    entered(s1, finalization_phase(), now)
}

/// Relations between the content fields that every reachable state keeps.
pub open spec fn consistent(s: StateView) -> bool {
    &&& (s.first_content is Some <==> s.last_content is Some)
    &&& (s.first_flush is Some ==> s.first_content is Some)
}

/// Sum of the durations of `phases`.
pub open spec fn total_duration(phases: Seq<(Seq<char>, u128)>) -> int
    decreases phases.len(),
{
    if phases.len() == 0 {
        0
    } else {
        total_duration(phases.drop_last()) + phases.last().1
    }
}

/// The completed phases account for all the time up to the running phase.
pub open spec fn partitioned(s: StateView) -> bool {
    total_duration(s.phases) == s.phase_start as int
}

/// One completed phase of a report.
pub struct ReportPhase {
    pub name: String,
    pub nanos: u128,
    /// The phase was running when the run failed.
    pub incomplete: bool,
}

/// The finished profile of one run.
pub struct ProfileReport {
    pub success: bool,
    /// The running phase, when the run failed.
    pub failed_phase: Option<String>,
    /// Nanoseconds from the start to the report (zero if the report is earlier).
    pub total_nanos: u128,
    pub phases: Vec<ReportPhase>,
    pub first_content_to_flush_nanos: Option<u128>,
    /// Time spent writing and flushing output; it overlaps the phases.
    pub output_nanos: u128,
}

impl ProfileReport {
    /// The phases as (name, nanoseconds, incomplete).
    pub open spec fn phase_list(&self) -> Seq<(Seq<char>, u128, bool)> {
        self.phases@.map_values(|p: ReportPhase| (p.name@, p.nanos, p.incomplete))
    }

    /// `"success"` or `"error"`.
    pub fn outcome(&self) -> (r: &'static str)
        ensures
            r@ == (if self.success {
                "success"@
            } else {
                "error"@
            }),
    {
        if self.success {
            "success"
        } else {
            "error"
        }
    }
}

/// Sum of the durations of a report's phases.
pub open spec fn report_total(phases: Seq<(Seq<char>, u128, bool)>) -> int
    decreases phases.len(),
{
    if phases.len() == 0 {
        0
    } else {
        report_total(phases.drop_last()) + phases.last().1
    }
}

/// The report of `s` at `end`.
pub open spec fn report_of(r: ProfileReport, s: StateView, end: i128, success: bool) -> bool {
    &&& r.success == success
    &&& r.failed_phase.is_some() == !success
    &&& (r.failed_phase matches Some(f) ==> f@ == s.phase)
    &&& r.total_nanos == elapsed(end, 0)
    &&& r.phase_list() == s.phases.map_values(
        |p: (Seq<char>, u128)| (p.0, p.1, false),
    ).push((s.phase, elapsed(end, s.phase_start), !success))
    &&& r.first_content_to_flush_nanos == s.first_flush
    &&& r.output_nanos == s.output
}

struct Phase {
    name: String,
    nanos: u128,
}

struct State {
    origin: Instant,
    phase: String,
    phase_start: i128,
    phases: Vec<Phase>,
    first_content: Option<i128>,
    last_content: Option<i128>,
    first_flush: Option<u128>,
    output: u128,
}

impl State {
    spec fn view(&self) -> StateView {
        StateView {
            phase: self.phase@,
            phase_start: self.phase_start,
            phases: self.phases@.map_values(|p: Phase| (p.name@, p.nanos)),
            first_content: self.first_content,
            last_content: self.last_content,
            first_flush: self.first_flush,
            output: self.output,
        }
    }

    fn enter_at(&mut self, phase: String, now: i128)
        ensures
            final(self).view() == entered(old(self).view(), phase@, now),
            final(self).origin == old(self).origin,
    {
        let nanos = gap(now, self.phase_start);
        let mut name = phase;
        std::mem::swap(&mut name, &mut self.phase);
        self.phases.push(Phase { name, nanos });
        self.phase_start = now;
        assert(self.view().phases =~= entered(old(self).view(), phase@, now).phases);
    }
}

/// Records the phases of a run when enabled; does nothing when disabled.
pub struct Profile {
    state: Option<State>,
}

impl View for Profile {
    type V = Option<StateView>;

    closed spec fn view(&self) -> Option<StateView> {
        match self.state {
            Some(s) => Some(s.view()),
            None => None,
        }
    }
}

impl Profile {
    /// The instant the profile was started at, when enabled; readings are
    /// nanoseconds since it.
    pub closed spec fn origin(&self) -> Option<Instant> {
        match self.state {
            Some(s) => Some(s.origin),
            None => None,
        }
    }
}

impl Default for Profile {
    /// A disabled profile.
    fn default() -> (p: Self)
        ensures
            p@ is None,
    {
        Profile { state: None }
    }
}

impl Profile {
    /// A profile that records from `start` on when `enabled`, and a disabled one otherwise.
    pub fn new(enabled: bool, start: Instant) -> (p: Self)
        ensures
            enabled ==> p@ == Some(initial_state()) && p.origin() == Some(start),
            !enabled ==> p@ is None,
    {
        if enabled {
            let phase = "startup / arguments".to_owned();
            let p = Profile {
                state: Some(
                    State {
                        origin: start,
                        phase,
                        phase_start: 0,
                        phases: Vec::new(),
                        first_content: None,
                        last_content: None,
                        first_flush: None,
                        output: 0,
                    },
                ),
            };
            proof {
                reveal_strlit("startup / arguments");
                assert(p@->0.phases =~= Seq::<(Seq<char>, u128)>::empty());
            }
            p
        } else {
            Profile { state: None }
        }
    }

    /// Whether the profile records anything.
    pub fn is_enabled(&self) -> (r: bool)
        ensures
            r == self@ is Some,
    {
        self.state.is_some()
    }

    /// The current instant when enabled, for timing an output write.
    pub fn clock(&self) -> (r: Option<Instant>)
        ensures
            r is Some == self@ is Some,
    {
        match &self.state {
            Some(_) => Some(instant_now()),
            None => None,
        }
    }

    /// Time from the first content to the first flushed non-empty output, when known.
    pub fn first_flush_nanos(&self) -> (r: Option<u128>)
        ensures
            r == match self@ {
                Some(s) => s.first_flush,
                None => None,
            },
    {
        match &self.state {
            Some(s) => s.first_flush,
            None => None,
        }
    }

    /// Nanoseconds from the start of the profile to `t`, when enabled.
    fn reading(&self, t: &Instant) -> (r: i128)
        requires
            self@ is Some,
        ensures
            r == reading_of(self.origin()->0, *t),
    {
        match &self.state {
            Some(s) => nanos_since(&s.origin, t),
            None => 0,
        }
    }

    /// Enters `phase` at `now` (signed nanoseconds from the start).
    pub fn record_enter(&mut self, phase: &str, now: i128)
        ensures
            final(self)@ == match old(self)@ {
                Some(s) => Some(entered(s, phase@, now)),
                None => None,
            },
            final(self).origin() == old(self).origin(),
    {
        match &mut self.state {
            Some(s) => s.enter_at(phase.to_owned(), now),
            None => {},
        }
    }

    /// Records streamed content arriving at `now`.
    pub fn record_content(&mut self, now: i128)
        ensures
            final(self)@ == match old(self)@ {
                Some(s) => Some(content_arrived(s, now)),
                None => None,
            },
            final(self).origin() == old(self).origin(),
    {
        match &mut self.state {
            Some(s) => {
                if s.first_content.is_none() {
                    s.first_content = Some(now);
                    s.enter_at("streaming content".to_owned(), now);
                    proof {
                        reveal_strlit("streaming content");
                    }
                }
                s.last_content = Some(now);
            },
            None => {},
        }
    }

    /// Records an output write that began at `write_start` and was flushed at
    /// `now`; `nonempty` tells whether it carried content.
    pub fn record_flushed(&mut self, write_start: Option<i128>, nonempty: bool, now: i128)
        ensures
            final(self)@ == match old(self)@ {
                Some(s) => Some(output_flushed(s, write_start, nonempty, now)),
                None => None,
            },
            final(self).origin() == old(self).origin(),
    {
        match &mut self.state {
            Some(s) => {
                match write_start {
                    Some(t) => {
                        let d = gap(now, t);
                        s.output = s.output.saturating_add(d);
                    },
                    None => {},
                }
                if nonempty && s.first_flush.is_none() {
                    s.first_flush =
                        match s.first_content {
                            Some(f) => Some(gap(now, f)),
                            None => None,
                        };
                }
            },
            None => {},
        }
    }

    /// Records the end of the stream at `now`.
    pub fn record_stream_finished(&mut self, now: i128)
        ensures
            final(self)@ == match old(self)@ {
                Some(s) => Some(stream_ended(s, now)),
                None => None,
            },
            final(self).origin() == old(self).origin(),
    {
        match &mut self.state {
            Some(s) => {
                match s.last_content {
                    Some(last) => {
                        s.enter_at("stream tail".to_owned(), last);
                        proof {
                            reveal_strlit("stream tail");
                        }
                    },
                    None => {},
                }
                s.enter_at("response finalization / stats".to_owned(), now);
                proof {
                    reveal_strlit("response finalization / stats");
                }
            },
            None => {},
        }
    }

    /// The report at `end` (signed nanoseconds from the start); the profile is
    /// disabled afterwards.
    pub fn report_at(&mut self, end: i128, success: bool) -> (r: ProfileReport)
        requires
            old(self)@ is Some,
        ensures
            report_of(r, old(self)@->0, end, success),
            final(self)@ is None,
    {
        let s = self.state.take().unwrap();
        let ghost sv = s.view();
        let mut phases: Vec<ReportPhase> = Vec::new();
        let mut i: usize = 0;
        while i < s.phases.len()
            invariant
                i <= s.phases@.len(),
                phases@.len() == i,
                sv == s.view(),
                phases@.map_values(|p: ReportPhase| (p.name@, p.nanos, p.incomplete))
                    == sv.phases.map_values(|p: (Seq<char>, u128)| (p.0, p.1, false)).take(
                    i as int,
                ),
            decreases s.phases@.len() - i,
        {
            let name = s.phases[i].name.clone();
            let ghost before = phases@;
            phases.push(ReportPhase { name, nanos: s.phases[i].nanos, incomplete: false });
            assert(phases@ == before.push(phases@[i as int]));
            assert(sv.phases[i as int] == (s.phases@[i as int].name@, s.phases@[i as int].nanos));
            assert(phases@.map_values(|p: ReportPhase| (p.name@, p.nanos, p.incomplete))
                =~= sv.phases.map_values(|p: (Seq<char>, u128)| (p.0, p.1, false)).take(i + 1));
            i = i + 1;
        }
        let last = gap(end, s.phase_start);
        let failed_phase = if success {
            None
        } else {
            Some(s.phase.clone())
        };
        let ghost before = phases@;
        assert(before.len() == sv.phases.len());
        assert(before.map_values(|p: ReportPhase| (p.name@, p.nanos, p.incomplete))
            =~= sv.phases.map_values(|p: (Seq<char>, u128)| (p.0, p.1, false)));
        phases.push(ReportPhase { name: s.phase, nanos: last, incomplete: !success });
        assert(phases@ == before.push(phases@[before.len() as int]));
        let r = ProfileReport {
            success,
            failed_phase,
            total_nanos: gap(end, 0),
            phases,
            first_content_to_flush_nanos: s.first_flush,
            output_nanos: s.output,
        };
        assert(r.phase_list() =~= sv.phases.map_values(
            |p: (Seq<char>, u128)| (p.0, p.1, false),
        ).push((sv.phase, elapsed(end, sv.phase_start), !success)));
        r
    }

    /// Enters `phase` now.
    pub fn enter(&mut self, phase: &str)
        ensures
            old(self)@ is None ==> final(self)@ is None,
            old(self)@ is Some ==> exists|t: Instant|
                final(self)@ == Some(
                    entered(old(self)@->0, phase@, #[trigger] reading_of(old(self).origin()->0, t)),
                ),
            final(self).origin() == old(self).origin(),
    {
        if self.is_enabled() {
            let t = instant_now();
            let now = self.reading(&t);
            self.record_enter(phase, now);
        }
    }

    /// Enters `phase` at the instant `now`.
    pub fn enter_at(&mut self, phase: &str, now: Instant)
        ensures
            final(self)@ == match old(self)@ {
                Some(s) => Some(entered(s, phase@, reading_of(old(self).origin()->0, now))),
                None => None,
            },
            final(self).origin() == old(self).origin(),
    {
        if self.is_enabled() {
            let t = self.reading(&now);
            self.record_enter(phase, t);
        }
    }

    /// Records streamed content arriving now.
    pub fn content(&mut self)
        ensures
            old(self)@ is None ==> final(self)@ is None,
            old(self)@ is Some ==> exists|t: Instant|
                final(self)@ == Some(
                    content_arrived(old(self)@->0, #[trigger] reading_of(old(self).origin()->0, t)),
                ),
            final(self).origin() == old(self).origin(),
    {
        if self.is_enabled() {
            let t = instant_now();
            let now = self.reading(&t);
            self.record_content(now);
        }
    }

    /// Records an output write that began at `start` (from `clock`) and was flushed now.
    pub fn flushed(&mut self, start: Option<Instant>, nonempty: bool)
        ensures
            old(self)@ is None ==> final(self)@ is None,
            old(self)@ is Some ==> exists|t: Instant|
                final(self)@ == Some(
                    output_flushed(
                        old(self)@->0,
                        optional_reading(old(self).origin()->0, start),
                        nonempty,
                        #[trigger] reading_of(old(self).origin()->0, t),
                    ),
                ),
            final(self).origin() == old(self).origin(),
    {
        if self.is_enabled() {
            let t = instant_now();
            let now = self.reading(&t);
            let w = match &start {
                Some(s) => Some(self.reading(s)),
                None => None,
            };
            self.record_flushed(w, nonempty, now);
        }
    }

    /// Records the end of the stream now.
    pub fn stream_finished(&mut self)
        ensures
            old(self)@ is None ==> final(self)@ is None,
            old(self)@ is Some ==> exists|t: Instant|
                final(self)@ == Some(
                    stream_ended(old(self)@->0, #[trigger] reading_of(old(self).origin()->0, t)),
                ),
            final(self).origin() == old(self).origin(),
    {
        if self.is_enabled() {
            let t = instant_now();
            let now = self.reading(&t);
            self.record_stream_finished(now);
        }
    }

    /// The report at the instant `end`: its total is the time from the start
    /// of the profile to `end`. The profile is disabled afterwards.
    pub fn finish(&mut self, end: Instant, success: bool) -> (r: ProfileReport)
        requires
            old(self)@ is Some,
        ensures
            report_of(r, old(self)@->0, reading_of(old(self).origin()->0, end), success),
            final(self)@ is None,
    {
        let t = self.reading(&end);
        self.report_at(t, success)
    }
}

// ---------------------------------------------------------------------------
// Laws
// ---------------------------------------------------------------------------

/// A new profile has no content metrics and its phases account for no time.
pub proof fn law_initial_state()
    ensures
        consistent(initial_state()),
        partitioned(initial_state()),
{
}

/// Entering a phase no earlier than the running one began keeps the phases
/// partitioning the time, and keeps the content fields consistent.
pub proof fn law_enter_partitions(s: StateView, phase: Seq<char>, now: i128)
    requires
        partitioned(s),
        s.phase_start <= now,
    ensures
        partitioned(entered(s, phase, now)),
        consistent(entered(s, phase, now)) == consistent(s),
{
    assert(entered(s, phase, now).phases.drop_last() =~= s.phases);
}

/// Recording content no earlier than the running phase began keeps the
/// partition and the consistency; the streaming phase is entered once only,
/// at the first content.
pub proof fn law_content_partitions(s: StateView, now: i128)
    requires
        partitioned(s),
        consistent(s),
        s.phase_start <= now,
    ensures
        partitioned(content_arrived(s, now)),
        consistent(content_arrived(s, now)),
        content_arrived(s, now).last_content == Some(now),
        s.first_content is Some ==> content_arrived(s, now).phases == s.phases,
        s.first_content is None ==> content_arrived(s, now).phase == streaming_phase(),
{
    if s.first_content is None {
        law_enter_partitions(StateView { first_content: Some(now), ..s }, streaming_phase(), now);
    }
}

/// Flushing output changes no phase; the first-flush time, once known, is
/// never changed, and it is only known once content has arrived.
pub proof fn law_flush_keeps_phases(
    s: StateView,
    write_start: Option<i128>,
    nonempty: bool,
    now: i128,
)
    requires
        consistent(s),
    ensures
        output_flushed(s, write_start, nonempty, now).phases == s.phases,
        output_flushed(s, write_start, nonempty, now).phase == s.phase,
        output_flushed(s, write_start, nonempty, now).phase_start == s.phase_start,
        consistent(output_flushed(s, write_start, nonempty, now)),
        s.first_flush is Some ==> output_flushed(s, write_start, nonempty, now).first_flush
            == s.first_flush,
        s.first_content is None ==> output_flushed(s, write_start, nonempty, now).first_flush
            is None,
{
}

/// Ending the stream at a time no earlier than the last content (and that no
/// earlier than the running phase) keeps the partition.
pub proof fn law_stream_end_partitions(s: StateView, now: i128)
    requires
        partitioned(s),
        consistent(s),
        match s.last_content {
            Some(last) => s.phase_start <= last <= now,
            None => s.phase_start <= now,
        },
    ensures
        partitioned(stream_ended(s, now)),
        consistent(stream_ended(s, now)),
        stream_ended(s, now).phase == finalization_phase(),
{
    match s.last_content {
        Some(last) => {
            law_enter_partitions(s, tail_phase(), last);
            law_enter_partitions(entered(s, tail_phase(), last), finalization_phase(), now);
        },
        None => {
            law_enter_partitions(s, finalization_phase(), now);
        },
    }
}

/// A stream without content closes only the running phase: neither a
/// streaming phase nor a tail phase is added, and no flush time is known.
pub proof fn law_empty_stream_has_no_content_phases(s: StateView, now: i128)
    requires
        consistent(s),
        s.first_content is None,
    ensures
        stream_ended(s, now).phases == s.phases.push((s.phase, elapsed(now, s.phase_start))),
        stream_ended(s, now).first_flush is None,
{
}

/// The report of a partitioned profile, taken no earlier than the running
/// phase began, has phase durations that add up to its total.
pub proof fn law_report_partitions_total(
    r: ProfileReport,
    s: StateView,
    end: i128,
    success: bool,
)
    requires
        partitioned(s),
        s.phase_start <= end,
        report_of(r, s, end, success),
    ensures
        report_total(r.phase_list()) == r.total_nanos,
{
    let f = |p: (Seq<char>, u128)| (p.0, p.1, false);
    lemma_total_duration_not_negative(s.phases);
    lemma_report_total_of_completed(s.phases, f);
    let l = s.phases.map_values(f).push((s.phase, elapsed(end, s.phase_start), !success));
    assert(l.drop_last() =~= s.phases.map_values(f));
}

proof fn lemma_total_duration_not_negative(phases: Seq<(Seq<char>, u128)>)
    ensures
        total_duration(phases) >= 0,
    decreases phases.len(),
{
    if phases.len() > 0 {
        lemma_total_duration_not_negative(phases.drop_last());
    }
}

proof fn lemma_report_total_of_completed(
    phases: Seq<(Seq<char>, u128)>,
    f: spec_fn((Seq<char>, u128)) -> (Seq<char>, u128, bool),
)
    requires
        f == (|p: (Seq<char>, u128)| (p.0, p.1, false)),
    ensures
        report_total(phases.map_values(f)) == total_duration(phases),
    decreases phases.len(),
{
    if phases.len() > 0 {
        lemma_report_total_of_completed(phases.drop_last(), f);
        assert(phases.map_values(f).drop_last() =~= phases.drop_last().map_values(f));
    }
}

/// A failed run's report names the running phase as failed and marks it, and
/// only it, incomplete; a successful run's report has no failed or incomplete phase.
pub proof fn law_failure_marks_running_phase(
    r: ProfileReport,
    s: StateView,
    end: i128,
    success: bool,
)
    requires
        report_of(r, s, end, success),
    ensures
        !success ==> (r.failed_phase matches Some(f) && f@ == s.phase),
        success ==> r.failed_phase is None,
        r.phase_list().len() == s.phases.len() + 1,
        r.phase_list().last() == (s.phase, elapsed(end, s.phase_start), !success),
        forall|i: int| 0 <= i < s.phases.len() ==> !(#[trigger] r.phase_list()[i]).2,
{
    assert forall|i: int| 0 <= i < s.phases.len() implies !(#[trigger] r.phase_list()[i]).2 by {
        assert(r.phase_list()[i] == s.phases.map_values(
            |p: (Seq<char>, u128)| (p.0, p.1, false),
        )[i]);
    }
}

/// One recorded event, at its reading (signed nanoseconds from the start).
pub enum ProfileEvent {
    /// `enter`: the named phase begins.
    Enter(Seq<char>, i128),
    /// `content`: streamed content arrived.
    Content(i128),
    /// `flushed`: an output write, begun at the first reading (if timed),
    /// carrying content or not, was flushed at the last.
    Flushed(Option<i128>, bool, i128),
    /// `stream_finished`.
    StreamEnd(i128),
}

/// `s` after event `e`.
pub open spec fn apply_event(s: StateView, e: ProfileEvent) -> StateView {
    match e {
        ProfileEvent::Enter(name, t) => entered(s, name, t),
        ProfileEvent::Content(t) => content_arrived(s, t),
        ProfileEvent::Flushed(w, nonempty, t) => output_flushed(s, w, nonempty, t),
        ProfileEvent::StreamEnd(t) => stream_ended(s, t),
    }
}

/// `s` after the events `es`, in order.
pub open spec fn run_events(s: StateView, es: Seq<ProfileEvent>) -> StateView
    decreases es.len(),
{
    if es.len() == 0 {
        s
    } else {
        run_events(apply_event(s, es[0]), es.drop_first())
    }
}

/// Event `e` comes no earlier than the running phase began; the end of the
/// stream also comes no earlier than the last content, and that no earlier
/// than the running phase began (no phase was entered after the last content).
pub open spec fn event_in_time(s: StateView, e: ProfileEvent) -> bool {
    match e {
        ProfileEvent::Enter(_, t) => s.phase_start <= t,
        ProfileEvent::Content(t) => s.phase_start <= t,
        ProfileEvent::Flushed(_, _, _) => true,
        ProfileEvent::StreamEnd(t) => match s.last_content {
            Some(last) => s.phase_start <= last <= t,
            None => s.phase_start <= t,
        },
    }
}

/// Every event of `es`, applied in order from `s`, is in time.
pub open spec fn events_in_time(s: StateView, es: Seq<ProfileEvent>) -> bool
    decreases es.len(),
{
    es.len() == 0 || (event_in_time(s, es[0]) && events_in_time(
        apply_event(s, es[0]),
        es.drop_first(),
    ))
}

/// The phase names of `s`, completed and running, all lie in `names`.
pub open spec fn names_within(s: StateView, names: Set<Seq<char>>) -> bool {
    &&& names.contains(s.phase)
    &&& forall|i: int| 0 <= i < s.phases.len() ==> names.contains(#[trigger] s.phases[i].0)
}

/// The names a profile can hold after the events `es`: its own four phase
/// names and the names of the phases that `es` enters.
pub open spec fn allowed_names(es: Seq<ProfileEvent>) -> Set<Seq<char>> {
    Set::new(
        |n: Seq<char>|
            n == startup_phase() || n == streaming_phase() || n == tail_phase() || n
                == finalization_phase() || exists|i: int|
                0 <= i < es.len() && #[trigger] es[i] == ProfileEvent::Enter(n, enter_time(es[i])),
    )
}

/// The reading of an `Enter` event (zero for the others).
pub open spec fn enter_time(e: ProfileEvent) -> i128 {
    match e {
        ProfileEvent::Enter(_, t) => t,
        _ => 0,
    }
}

proof fn lemma_run_keeps(s: StateView, es: Seq<ProfileEvent>, names: Set<Seq<char>>)
    requires
        partitioned(s),
        consistent(s),
        events_in_time(s, es),
        names_within(s, names),
        names.contains(streaming_phase()),
        names.contains(tail_phase()),
        names.contains(finalization_phase()),
        forall|i: int|
            0 <= i < es.len() ==> (#[trigger] es[i] matches ProfileEvent::Enter(n, _) ==> names.contains(n)),
    ensures
        partitioned(run_events(s, es)),
        consistent(run_events(s, es)),
        names_within(run_events(s, es), names),
    decreases es.len(),
{
    if es.len() > 0 {
        let e = es[0];
        let s1 = apply_event(s, e);
        match e {
            ProfileEvent::Enter(n, t) => {
                law_enter_partitions(s, n, t);
            },
            ProfileEvent::Content(t) => {
                law_content_partitions(s, t);
                if s.first_content is None {
                    law_enter_partitions(StateView { first_content: Some(t), ..s }, streaming_phase(), t);
                }
            },
            ProfileEvent::Flushed(w, nonempty, t) => {
                law_flush_keeps_phases(s, w, nonempty, t);
            },
            ProfileEvent::StreamEnd(t) => {
                law_stream_end_partitions(s, t);
            },
        }
        assert(names_within(s1, names)) by {
            assert forall|i: int| 0 <= i < s1.phases.len() implies names.contains(
                #[trigger] s1.phases[i].0,
            ) by {
                if i < s.phases.len() {
                    match e {
                        ProfileEvent::StreamEnd(t) => {
                            if s.last_content is Some {
                                assert(s1.phases[i] == s.phases[i]);
                            }
                        },
                        _ => {},
                    }
                }
            }
        }
        assert forall|i: int| 0 <= i < es.drop_first().len() implies (#[trigger] es.drop_first()[i] matches ProfileEvent::Enter(n, _) ==> names.contains(n)) by {
            assert(es.drop_first()[i] == es[i + 1]);
        }
        lemma_run_keeps(s1, es.drop_first(), names);
    }
}

/// Recorded in time, the events of a run leave phases that partition the
/// time: a report taken at any later reading has phase durations that add up
/// to its total, the time from the start to the report. The report holds no
/// phase name but the profile's own and those the events entered.
pub proof fn law_run_partitions_total(
    es: Seq<ProfileEvent>,
    end: i128,
    success: bool,
    r: ProfileReport,
)
    requires
        events_in_time(initial_state(), es),
        run_events(initial_state(), es).phase_start <= end,
        report_of(r, run_events(initial_state(), es), end, success),
    ensures
        report_total(r.phase_list()) == r.total_nanos,
        r.total_nanos == end,
        forall|i: int|
            0 <= i < r.phase_list().len() ==> allowed_names(es).contains(
                #[trigger] r.phase_list()[i].0,
            ),
{
    let names = allowed_names(es);
    assert forall|i: int|
        0 <= i < es.len() implies (#[trigger] es[i] matches ProfileEvent::Enter(n, _) ==> names.contains(n)) by {
        match es[i] {
            ProfileEvent::Enter(n, t) => {
                assert(es[i] == ProfileEvent::Enter(n, enter_time(es[i])));
            },
            _ => {},
        }
    }
    assert(names.contains(startup_phase()));
    lemma_run_keeps(initial_state(), es, names);
    let s = run_events(initial_state(), es);
    lemma_total_duration_not_negative(s.phases);
    law_report_partitions_total(r, s, end, success);
    assert forall|i: int| 0 <= i < r.phase_list().len() implies names.contains(
        #[trigger] r.phase_list()[i].0,
    ) by {
        if i < s.phases.len() {
            assert(r.phase_list()[i] == s.phases.map_values(
                |p: (Seq<char>, u128)| (p.0, p.1, false),
            )[i]);
        }
    }
}

} // verus!
