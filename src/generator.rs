use vstd::prelude::*;

use crate::codec::{
    encode, fields_fit, id_of, lemma_fields_of_id, lemma_id_order, MAX_INSTANCE_ID, MAX_SEQUENCE,
    MAX_TIMESTAMP,
};

verus! {

/// Options a generator is built from; each one left out takes its default.
pub struct SnowflakeConfig {
    pub custom_epoch: Option<u64>,
    pub instance_id: Option<u16>,
}

/// Why a generator could not be built.
#[derive(Debug, Clone, Copy, PartialEq, Eq, Structural)]
pub enum SnowflakeError {
    /// The instance id does not fit in its 12-bit field.
    InvalidInstanceId,
}

/// A generator of 64-bit, time-sortable identifiers.
///
/// Once `has_issued` is set, `last_timestamp` and `sequence` are the fields of
/// the most recent identifier handed out; every later one is strictly greater.
/// A fresh generator has handed out nothing, so its first identifier starts a
/// new millisecond at sequence 0.
#[derive(Debug)]
pub struct Snowflake {
    last_timestamp: u64,
    custom_epoch: u64,
    sequence: u16,
    instance_id: u16,
    has_issued: bool,
}

/// The state of a generator, as plain values.
pub struct SnowflakeView {
    pub last_timestamp: u64,
    pub custom_epoch: u64,
    pub sequence: u16,
    pub instance_id: u16,
    pub has_issued: bool,
}

impl SnowflakeView {
    /// Every field stays within the width the identifier layout gives it.
    pub open spec fn wf(self) -> bool {
        fields_fit(self.last_timestamp as int, self.instance_id as int, self.sequence as int)
    }

    /// The most recent identifier handed out, or -1, below every identifier,
    /// when there is none yet.
    pub open spec fn last_id(self) -> int {
        if self.has_issued {
            id_of(self.last_timestamp as int, self.instance_id as int, self.sequence as int)
        } else {
            -1
        }
    }
}

impl View for Snowflake {
    type V = SnowflakeView;

    closed spec fn view(&self) -> SnowflakeView {
        SnowflakeView {
            last_timestamp: self.last_timestamp,
            custom_epoch: self.custom_epoch,
            sequence: self.sequence,
            instance_id: self.instance_id,
            has_issued: self.has_issued,
        }
    }
}

/// The epoch to use: the one configured, else the wall-clock time at construction.
pub open spec fn resolved_epoch(opts: Option<SnowflakeConfig>, now_ms: u64) -> u64 {
    match opts {
        Some(cfg) => match cfg.custom_epoch {
            Some(e) => e,
            None => now_ms,
        },
        None => now_ms,
    }
}

/// The instance id to use: the one configured, else the randomly drawn one.
pub open spec fn resolved_instance_id(opts: Option<SnowflakeConfig>, random_instance_id: u16) -> u16 {
    match opts {
        Some(cfg) => match cfg.instance_id {
            Some(i) => i,
            None => random_instance_id,
        },
        None => random_instance_id,
    }
}

/// The epoch-relative millisecond of a wall-clock reading. A reading at or
/// before the epoch counts as millisecond 0, and one past the 42-bit range as
/// its last millisecond.
pub open spec fn relative_timestamp(epoch: u64, now_ms: u64) -> int {
    if now_ms <= epoch {
        0
    } else if now_ms - epoch > MAX_TIMESTAMP {
        MAX_TIMESTAMP as int
    } else {
        now_ms - epoch
    }
}

/// One generation attempt at wall-clock time `now_ms`: the next state, and the
/// identifier handed out, if any.
///
/// The first attempt of a generator, and one at a millisecond later than the
/// last one, start that millisecond at sequence 0. A reading
/// at or before the last millisecond (the same millisecond, or a clock that went
/// back) continues the last millisecond's sequence, so timestamps never decrease.
/// When that sequence is used up, nothing is handed out and the state is kept:
/// the caller waits for the clock to advance.
pub open spec fn step(s: SnowflakeView, now_ms: u64) -> (SnowflakeView, Option<u64>) {
    let cur = relative_timestamp(s.custom_epoch, now_ms);
    if !s.has_issued || cur > s.last_timestamp {
        (
            SnowflakeView { last_timestamp: cur as u64, sequence: 0, has_issued: true, ..s },
            Some(id_of(cur, s.instance_id as int, 0) as u64),
        )
    } else if s.sequence < MAX_SEQUENCE {
        (
            SnowflakeView { sequence: (s.sequence + 1) as u16, ..s },
            Some(id_of(s.last_timestamp as int, s.instance_id as int, s.sequence + 1) as u64),
        )
    } else {
        (s, None)
    }
}

/// The identifiers handed out by attempts at the given clock readings, in order.
pub open spec fn run_ids(s: SnowflakeView, clock: Seq<u64>) -> Seq<u64>
    decreases clock.len(),
{
    if clock.len() == 0 {
        Seq::empty()
    } else {
        let (next, out) = step(s, clock[0]);
        match out {
            Some(id) => seq![id].add(run_ids(next, clock.drop_first())),
            None => run_ids(next, clock.drop_first()),
        }
    }
}

/// The state after attempts at the given clock readings, in order.
pub open spec fn run_state(s: SnowflakeView, clock: Seq<u64>) -> SnowflakeView
    decreases clock.len(),
{
    if clock.len() == 0 {
        s
    } else {
        run_state(step(s, clock[0]).0, clock.drop_first())
    }
}

/// `n` clock readings that all give `now_ms`.
pub open spec fn repeated(now_ms: u64, n: nat) -> Seq<u64> {
    Seq::new(n, |i: int| now_ms)
}

/// Within the last millisecond, each further attempt hands out the next sequence
/// value, as long as there is one.
proof fn lemma_same_millisecond(s: SnowflakeView, now_ms: u64, n: nat)
    requires
        s.wf(),
        s.has_issued,
        s.last_timestamp == relative_timestamp(s.custom_epoch, now_ms),
        s.sequence + n <= MAX_SEQUENCE,
    ensures
        run_ids(s, repeated(now_ms, n)) == Seq::new(
            n,
            |j: int|
                id_of(s.last_timestamp as int, s.instance_id as int, s.sequence + 1 + j) as u64,
        ),
        run_state(s, repeated(now_ms, n)) == (SnowflakeView { sequence: (s.sequence + n) as u16, ..s }),
    decreases n,
{
    let expected = Seq::new(
        n,
        |j: int| id_of(s.last_timestamp as int, s.instance_id as int, s.sequence + 1 + j) as u64,
    );
    if n == 0 {
        assert(run_ids(s, repeated(now_ms, n)) =~= expected);
    } else {
        let next = step(s, now_ms).0;
        assert(repeated(now_ms, n).drop_first() =~= repeated(now_ms, (n - 1) as nat));
        lemma_same_millisecond(next, now_ms, (n - 1) as nat);
        assert(run_ids(s, repeated(now_ms, n)) =~= expected);
    }
}

/// Sequence rollover: from a generator that has handed out nothing at the
/// millisecond of `now_ms`, 1024 attempts at that reading hand out sequences 0
/// to 1023 of that millisecond; a 1025th attempt there hands out nothing and
/// keeps the state; the first attempt at a later millisecond hands out
/// sequence 0 of that later millisecond.
pub proof fn lemma_sequence_rollover(s: SnowflakeView, now_ms: u64, later_ms: u64)
    requires
        s.wf(),
        !s.has_issued || s.last_timestamp < relative_timestamp(s.custom_epoch, now_ms),
        relative_timestamp(s.custom_epoch, now_ms) < relative_timestamp(s.custom_epoch, later_ms),
    ensures
        run_ids(s, repeated(now_ms, 1024)) == Seq::new(
            1024,
            |j: int|
                id_of(relative_timestamp(s.custom_epoch, now_ms), s.instance_id as int, j) as u64,
        ),
        step(run_state(s, repeated(now_ms, 1024)), now_ms) == (
            run_state(s, repeated(now_ms, 1024)),
            None::<u64>,
        ),
        step(run_state(s, repeated(now_ms, 1024)), later_ms).1 == Some(
            id_of(relative_timestamp(s.custom_epoch, later_ms), s.instance_id as int, 0) as u64,
        ),
{
    let t = relative_timestamp(s.custom_epoch, now_ms);
    let first = step(s, now_ms).0;
    lemma_step(s, now_ms);
    assert(repeated(now_ms, 1024).drop_first() =~= repeated(now_ms, 1023));
    lemma_same_millisecond(first, now_ms, 1023);
    lemma_fields_of_id(t, s.instance_id as int, 0);
    assert(run_ids(s, repeated(now_ms, 1024)) =~= Seq::new(
        1024,
        |j: int| id_of(t, s.instance_id as int, j) as u64,
    ));
}

/// A generation attempt keeps the generator well formed, and an identifier it
/// hands out is strictly greater than the last one and becomes the last one.
pub proof fn lemma_step(s: SnowflakeView, now_ms: u64)
    requires
        s.wf(),
    ensures
        step(s, now_ms).0.wf(),
        step(s, now_ms).0.instance_id == s.instance_id,
        step(s, now_ms).0.custom_epoch == s.custom_epoch,
        match step(s, now_ms).1 {
            Some(id) => id as int == step(s, now_ms).0.last_id() && id > s.last_id(),
            None => step(s, now_ms).0 == s,
        },
{
    let (next, out) = step(s, now_ms);
    lemma_id_order(
        s.instance_id as int,
        s.last_timestamp as int,
        s.sequence as int,
        next.last_timestamp as int,
        next.sequence as int,
    );
    lemma_fields_of_id(next.last_timestamp as int, next.instance_id as int, next.sequence as int);
}

/// Monotonicity: of two generation attempts one after the other that both hand
/// out an identifier, the later identifier is strictly greater.
pub proof fn lemma_generate_monotonic(s: SnowflakeView, first_ms: u64, second_ms: u64)
    requires
        s.wf(),
        step(s, first_ms).1 is Some,
        step(step(s, first_ms).0, second_ms).1 is Some,
    ensures
        step(s, first_ms).1.unwrap() < step(step(s, first_ms).0, second_ms).1.unwrap(),
{
    lemma_step(s, first_ms);
    lemma_step(step(s, first_ms).0, second_ms);
}

/// Uniqueness: for any sequence of clock readings, the identifiers one
/// generator hands out are strictly increasing, so no two are equal, and each
/// is greater than the last one handed out before.
pub proof fn lemma_generate_unique(s: SnowflakeView, clock: Seq<u64>)
    requires
        s.wf(),
    ensures
        forall|i: int| 0 <= i < run_ids(s, clock).len() ==> #[trigger] run_ids(s, clock)[i] > s.last_id(),
        forall|i: int, j: int|
            0 <= i < j < run_ids(s, clock).len() ==> run_ids(s, clock)[i] < run_ids(s, clock)[j],
        forall|i: int, j: int|
            0 <= i < run_ids(s, clock).len() && 0 <= j < run_ids(s, clock).len() && i != j
                ==> run_ids(s, clock)[i] != run_ids(s, clock)[j],
    decreases clock.len(),
{
    if clock.len() > 0 {
        let (next, out) = step(s, clock[0]);
        lemma_step(s, clock[0]);
        lemma_generate_unique(next, clock.drop_first());
        let rest = run_ids(next, clock.drop_first());
        let ids = run_ids(s, clock);
        match out {
            Some(id) => {
                assert(ids == seq![id].add(rest));
                assert forall|i: int, j: int| 0 <= i < j < ids.len() implies ids[i] < ids[j] by {
                    if i > 0 {
                        assert(ids[i] == rest[i - 1]);
                    }
                    assert(ids[j] == rest[j - 1]);
                }
                assert forall|i: int| 0 <= i < ids.len() implies #[trigger] ids[i] > s.last_id() by {
                    if i > 0 {
                        assert(ids[i] == rest[i - 1]);
                    }
                }
            },
            None => {},
        }
        assert forall|i: int, j: int|
            0 <= i < ids.len() && 0 <= j < ids.len() && i != j implies ids[i] != ids[j] by {
            if i < j {
                assert(ids[i] < ids[j]);
            } else {
                assert(ids[j] < ids[i]);
            }
        }
    }
}

impl Snowflake {
    /// Builds a generator. A missing epoch takes `now_ms`, the wall-clock time
    /// at construction; a missing instance id takes `random_instance_id`, drawn
    /// by the caller. Fails when the instance id does not fit in 12 bits.
    pub fn new(opts: Option<SnowflakeConfig>, now_ms: u64, random_instance_id: u16) -> (r: Result<
        Snowflake,
        SnowflakeError,
    >)
        ensures
            match r {
                Ok(g) => resolved_instance_id(opts, random_instance_id) <= MAX_INSTANCE_ID
                    && g@ == (SnowflakeView {
                    last_timestamp: 0,
                    custom_epoch: resolved_epoch(opts, now_ms),
                    sequence: 0,
                    instance_id: resolved_instance_id(opts, random_instance_id),
                    has_issued: false,
                }),
                Err(e) => resolved_instance_id(opts, random_instance_id) > MAX_INSTANCE_ID && e
                    == SnowflakeError::InvalidInstanceId,
            },
    {
        let (custom_epoch, instance_id) = match opts {
            Some(cfg) => (
                match cfg.custom_epoch {
                    Some(e) => e,
                    None => now_ms,
                },
                match cfg.instance_id {
                    Some(i) => i,
                    None => random_instance_id,
                },
            ),
            None => (now_ms, random_instance_id),
        };
        if instance_id > MAX_INSTANCE_ID {
            return Err(SnowflakeError::InvalidInstanceId);
        }
        Ok(Snowflake { last_timestamp: 0, custom_epoch, sequence: 0, instance_id, has_issued: false })
    }

    /// One generation attempt at wall-clock time `now_ms`, as `step` describes.
    /// `None` means this millisecond's 1024 identifiers are used up: read the
    /// clock again and retry once it has moved on.
    pub fn get_unique_id(&mut self, now_ms: u64) -> (r: Option<u64>)
        requires
            old(self)@.wf(),
        ensures
            (final(self)@, r) == step(old(self)@, now_ms),
            final(self)@.wf(),
    {
        proof {
            lemma_step(self@, now_ms);
        }
        let cur: u64 = if now_ms <= self.custom_epoch {
            0
        } else if now_ms - self.custom_epoch > MAX_TIMESTAMP {
            MAX_TIMESTAMP
        } else {
            now_ms - self.custom_epoch
        };
        if !self.has_issued || cur > self.last_timestamp {
            self.last_timestamp = cur;
            self.sequence = 0;
            self.has_issued = true;
        } else if self.sequence < MAX_SEQUENCE {
            self.sequence = self.sequence + 1;
        } else {
            return None;
        }
        Some(encode(self.last_timestamp, self.instance_id, self.sequence))
    }

    /// The identifier stamped with absolute time `timestamp`, this generator's
    /// instance id and sequence 0: the smallest identifier this generator can
    /// give at that millisecond. Reads no generation state.
    pub fn id_from_timestamp(&self, timestamp: u64) -> (r: u64)
        requires
            self@.custom_epoch <= timestamp,
            timestamp - self@.custom_epoch <= MAX_TIMESTAMP,
            self@.wf(),
        ensures
            r == id_of(timestamp - self@.custom_epoch, self@.instance_id as int, 0),
    {
        encode(timestamp - self.custom_epoch, self.instance_id, 0)
    }

    /// The instance id stamped into every identifier of this generator.
    pub fn instance_id(&self) -> (r: u16)
        ensures
            r == self@.instance_id,
    {
        self.instance_id
    }

    /// The epoch, in milliseconds since the UNIX epoch, that timestamps are relative to.
    pub fn custom_epoch(&self) -> (r: u64)
        ensures
            r == self@.custom_epoch,
    {
        self.custom_epoch
    }
}

} // verus!
