//! The decisions of the service around the core: settings read from text,
//! the steps of seeding the catalog, and the answer to a course lookup.
//!
//! Reading the environment, talking to the database and answering requests
//! are the caller's part; it hands in what it read and carries out what is
//! decided here.
use crate::text::{
    all_digits, decimal_value, is_digit_ascii, lemma_decimal_value_push, spec_is_digit_ascii,
};
use vstd::prelude::*;

verus! {

/// The digits of an unsigned number as written: the text without one leading
/// plus sign, if it has one.
pub open spec fn unsigned_digits(s: Seq<char>) -> Seq<char> {
    if s.len() > 0 && s[0] == '+' {
        s.skip(1)
    } else {
        s
    }
}

/// The number that a text denotes, with `max` the largest that fits: the text
/// is an optional plus sign and then one or more decimal digits, and what
/// they denote is at most `max`. Any other text denotes nothing.
pub open spec fn spec_parse_unsigned(s: Seq<char>, max: nat) -> Option<nat> {
    let digits = unsigned_digits(s);
    if digits.len() >= 1 && all_digits(digits) && decimal_value(digits) <= max {
        Some(decimal_value(digits))
    } else {
        None
    }
}

/// The setting that a text gives: its number where it denotes one that fits,
/// else the default. A missing text gives the default.
pub open spec fn spec_setting(value: Option<Seq<char>>, default_: nat, max: nat) -> nat {
    match value {
        Some(s) => match spec_parse_unsigned(s, max) {
            Some(n) => n,
            None => default_,
        },
        None => default_,
    }
}

/// Reads an unsigned decimal number of at most `max`.
pub fn parse_unsigned(text: &str, max: u64) -> (r: Option<u64>)
    ensures
        match r {
            Some(n) => spec_parse_unsigned(text@, max as nat) == Some(n as nat),
            None => spec_parse_unsigned(text@, max as nat) is None,
        },
{
    let n: usize = text.unicode_len();
    let start: usize = if n > 0 && text.get_char(0) == '+' {
        1
    } else {
        0
    };
    let ghost digits = unsigned_digits(text@);
    assert(digits =~= text@.subrange(start as int, n as int));
    if start == n {
        return None;
    }
    let mut i: usize = start;
    let mut value: u128 = 0;
    let mut overflow: bool = false;
    assert(text@.subrange(start as int, start as int) =~= Seq::<char>::empty());
    while i < n
        invariant
            n == text@.len(),
            start <= i <= n,
            digits == unsigned_digits(text@),
            digits == text@.subrange(start as int, n as int),
            all_digits(text@.subrange(start as int, i as int)),
            !overflow ==> value == decimal_value(text@.subrange(start as int, i as int)) && value
                <= max,
            overflow ==> decimal_value(text@.subrange(start as int, i as int)) > max,
        decreases n - i,
    {
        let ch = text.get_char(i);
        if !is_digit_ascii(ch) {
            assert(!spec_is_digit_ascii(digits[i - start]));
            return None;
        }
        let d: u128 = ((ch as u32) - 48) as u128;
        proof {
            let run = text@.subrange(start as int, i as int);
            lemma_decimal_value_push(run, ch);
            assert(text@.subrange(start as int, i + 1) =~= run.push(ch));
        }
        if !overflow {
            value = value * 10 + d;
            if value > max as u128 {
                overflow = true;
            }
        }
        i = i + 1;
    }
    assert(text@.subrange(start as int, n as int) == digits);
    if overflow {
        None
    } else {
        Some(value as u64)
    }
}

/// The setting that a text gives, as a 32-bit number.
pub fn env_u32(value: Option<&str>, default_: u32) -> (r: u32)
    ensures
        r == spec_setting(
            match value {
                Some(s) => Some(s@),
                None => None,
            },
            default_ as nat,
            u32::MAX as nat,
        ),
{
    match value {
        Some(s) => match parse_unsigned(s, 4294967295) {
            Some(n) => n as u32,
            None => default_,
        },
        None => default_,
    }
}

/// The setting that a text gives, as a 64-bit number.
pub fn env_u64(value: Option<&str>, default_: u64) -> (r: u64)
    ensures
        r == spec_setting(
            match value {
                Some(s) => Some(s@),
                None => None,
            },
            default_ as nat,
            u64::MAX as nat,
        ),
{
    match value {
        Some(s) => match parse_unsigned(s, 18446744073709551615) {
            Some(n) => n,
            None => default_,
        },
        None => default_,
    }
}

/// The settings of the database connection pool.
#[derive(Debug, Clone, Copy, PartialEq, Eq, Structural)]
pub struct PoolSettings {
    pub max_connections: u32,
    pub min_connections: u32,
    pub acquire_timeout_secs: u64,
    pub idle_timeout_secs: u64,
    pub max_lifetime_secs: u64,
}

impl PoolSettings {
    /// The settings that the given texts give. Where a text is missing or
    /// denotes no number, the default stands: 10 connections at most, 1 at
    /// least, 10 seconds to acquire one, 300 seconds idle, 3600 seconds of
    /// life.
    pub fn from_values(
        max_connections: Option<&str>,
        min_connections: Option<&str>,
        acquire_timeout_secs: Option<&str>,
        idle_timeout_secs: Option<&str>,
        max_lifetime_secs: Option<&str>,
    ) -> (r: PoolSettings)
        ensures
            r.max_connections == spec_setting(
                match max_connections {
                    Some(s) => Some(s@),
                    None => None,
                },
                10,
                u32::MAX as nat,
            ),
            r.min_connections == spec_setting(
                match min_connections {
                    Some(s) => Some(s@),
                    None => None,
                },
                1,
                u32::MAX as nat,
            ),
            r.acquire_timeout_secs == spec_setting(
                match acquire_timeout_secs {
                    Some(s) => Some(s@),
                    None => None,
                },
                10,
                u64::MAX as nat,
            ),
            r.idle_timeout_secs == spec_setting(
                match idle_timeout_secs {
                    Some(s) => Some(s@),
                    None => None,
                },
                300,
                u64::MAX as nat,
            ),
            r.max_lifetime_secs == spec_setting(
                match max_lifetime_secs {
                    Some(s) => Some(s@),
                    None => None,
                },
                3600,
                u64::MAX as nat,
            ),
    {
        PoolSettings {
            max_connections: env_u32(max_connections, 10),
            min_connections: env_u32(min_connections, 1),
            acquire_timeout_secs: env_u64(acquire_timeout_secs, 10),
            idle_timeout_secs: env_u64(idle_timeout_secs, 300),
            max_lifetime_secs: env_u64(max_lifetime_secs, 3600),
        }
    }
}

/// How a lookup of a course ended.
#[derive(Debug, Clone, Copy, PartialEq, Eq, Structural)]
pub enum LookupOutcome {
    Found,
    Missing,
    Failed,
}

/// The status code that answers a lookup: 200 for a course that was found,
/// 404 for one that is not there, 500 where the lookup failed.
pub fn lookup_status(outcome: LookupOutcome) -> (r: u16)
    ensures
        r == match outcome {
            LookupOutcome::Found => 200u16,
            LookupOutcome::Missing => 404u16,
            LookupOutcome::Failed => 500u16,
        },
{
    match outcome {
        LookupOutcome::Found => 200,
        LookupOutcome::Missing => 404,
        LookupOutcome::Failed => 500,
    }
}

/// What the seeding of the catalog does next.
#[derive(Debug, Clone, Copy, PartialEq, Eq, Structural)]
pub enum SeedAction {
    /// Ask whether the course at this position is in the catalog already.
    Lookup { index: usize },
    /// Insert the course at this position.
    Insert { index: usize },
    /// Stop: every course was looked at, and this many were inserted.
    Finish { inserted: usize },
    /// Stop with an error: a lookup failed, or an answer came that was not
    /// asked for.
    Abort,
}

/// What the catalog answered.
#[derive(Debug, Clone, Copy, PartialEq, Eq, Structural)]
pub enum SeedEvent {
    /// The course is in the catalog already.
    Found,
    /// The course is not in the catalog.
    Missing,
    /// The lookup failed.
    LookupFailed,
    /// The course was inserted.
    Inserted,
    /// The insertion failed.
    InsertFailed,
}

/// How far the seeding has come.
#[derive(Debug, Clone, Copy, PartialEq, Eq, Structural)]
pub struct SeedState {
    /// How many courses there are.
    pub total: usize,
    /// The position of the course that is looked at.
    pub next: usize,
    /// How many courses were inserted.
    pub inserted: usize,
    /// Whether the answer to an insertion is awaited, not that to a lookup.
    pub inserting: bool,
}

impl SeedState {
    /// A state that seeding can reach: no more courses were inserted than
    /// were looked at, and none beyond the last is looked at.
    pub open spec fn wf(self) -> bool {
        self.inserted <= self.next <= self.total && (self.inserting ==> self.next < self.total)
    }

    /// What follows once the course at `next` is done with.
    pub open spec fn advance(self, inserted: usize) -> (SeedState, SeedAction) {
        let state = SeedState {
            total: self.total,
            next: (self.next + 1) as usize,
            inserted,
            inserting: false,
        };
        if self.next + 1 >= self.total {
            (state, SeedAction::Finish { inserted })
        } else {
            (state, SeedAction::Lookup { index: (self.next + 1) as usize })
        }
    }

    /// The state and the action that follow an answer. A course that is
    /// found is passed over. One that is missing is inserted. An insertion
    /// that went through counts; one that failed does not, and seeding goes
    /// on. A failed lookup ends seeding with an error, and so does an answer
    /// that was not asked for.
    pub open spec fn spec_step(self, event: SeedEvent) -> (SeedState, SeedAction) {
        if self.next >= self.total {
            (self, SeedAction::Abort)
        } else if self.inserting {
            match event {
                SeedEvent::Inserted => self.advance((self.inserted + 1) as usize),
                SeedEvent::InsertFailed => self.advance(self.inserted),
                _ => (self, SeedAction::Abort),
            }
        } else {
            match event {
                SeedEvent::Found => self.advance(self.inserted),
                SeedEvent::Missing => (
                    SeedState {
                        total: self.total,
                        next: self.next,
                        inserted: self.inserted,
                        inserting: true,
                    },
                    SeedAction::Insert { index: self.next },
                ),
                _ => (self, SeedAction::Abort),
            }
        }
    }

    /// Starts seeding `total` courses: with none there is nothing to do;
    /// else the first is looked up.
    pub fn start(total: usize) -> (r: (SeedState, SeedAction))
        ensures
            r.0 == (SeedState { total, next: 0, inserted: 0, inserting: false }),
            r.0.wf(),
            r.1 == if total == 0 {
                SeedAction::Finish { inserted: 0 }
            } else {
                SeedAction::Lookup { index: 0 }
            },
    {
        let state = SeedState { total, next: 0, inserted: 0, inserting: false };
        if total == 0 {
            (state, SeedAction::Finish { inserted: 0 })
        } else {
            (state, SeedAction::Lookup { index: 0 })
        }
    }

    /// The state and the action that follow an answer.
    pub fn step(self, event: SeedEvent) -> (r: (SeedState, SeedAction))
        requires
            self.wf(),
        ensures
            r == self.spec_step(event),
            r.0.wf(),
    {
        if self.next >= self.total {
            return (self, SeedAction::Abort);
        }
        let inserted: usize = if self.inserting {
            match event {
                SeedEvent::Inserted => self.inserted + 1,
                SeedEvent::InsertFailed => self.inserted,
                _ => {
                    return (self, SeedAction::Abort);
                },
            }
        } else {
            match event {
                SeedEvent::Found => self.inserted,
                SeedEvent::Missing => {
                    return (
                        SeedState {
                            total: self.total,
                            next: self.next,
                            inserted: self.inserted,
                            inserting: true,
                        },
                        SeedAction::Insert { index: self.next },
                    );
                },
                _ => {
                    return (self, SeedAction::Abort);
                },
            }
        };
        let state = SeedState { total: self.total, next: self.next + 1, inserted, inserting: false };
        if state.next >= self.total {
            (state, SeedAction::Finish { inserted })
        } else {
            (state, SeedAction::Lookup { index: state.next })
        }
    }
}

/// While seeding goes on, the action names a course of the list; when it
/// ends, no more courses were inserted than there are.
pub proof fn law_seed_stays_within_the_list(state: SeedState, event: SeedEvent)
    requires
        state.wf(),
    ensures
        match state.spec_step(event).1 {
            SeedAction::Lookup { index } => index < state.total,
            SeedAction::Insert { index } => index < state.total,
            SeedAction::Finish { inserted } => inserted <= state.total,
            SeedAction::Abort => true,
        },
{
}

} // verus!
