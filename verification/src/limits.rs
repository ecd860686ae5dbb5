//! Execution ceilings for effect resolution.
//!
//! A [`BattleLimits`] value is threaded through whatever resolves chained
//! effects. Each guarded operation bumps one counter and reports failure once
//! that counter has passed its ceiling. The first failure is remembered, with
//! the side that caused it and a reason, and is never overwritten.

use vstd::prelude::*;

verus! {

/// Deepest chain of nested effect resolutions a battle may reach.
pub const MAX_RECURSION_DEPTH: u32 = 50;

/// Most units that may be spawned over a whole battle.
pub const MAX_SPAWNS_PER_BATTLE: u32 = 100;

/// Most triggers that may fire within one phase.
pub const MAX_TRIGGERS_PER_PHASE: u32 = 200;

/// The contending side to which a unit of work is attributed.
#[derive(Debug, Clone, Copy, PartialEq, Eq, Hash, Structural)]
pub enum Team {
    Player,
    Enemy,
}

impl Team {
    /// The upper-case label of the side.
    pub open spec fn label(self) -> Seq<char> {
        match self {
            Team::Player => "PLAYER"@,
            Team::Enemy => "ENEMY"@,
        }
    }

    /// The upper-case label of the side, as an owned string.
    pub fn to_string(&self) -> (s: String)
        ensures
            s@ == self.label(),
    {
        match self {
            Team::Player => "PLAYER".to_string(),
            Team::Enemy => "ENEMY".to_string(),
        }
    }
}

/// The three counters a guard keeps.
pub enum Ceiling {
    Recursion,
    Spawns,
    Triggers,
}

impl Ceiling {
    /// The largest value the counter may take without tripping.
    pub open spec fn max(self) -> nat {
        match self {
            Ceiling::Recursion => MAX_RECURSION_DEPTH as nat,
            Ceiling::Spawns => MAX_SPAWNS_PER_BATTLE as nat,
            Ceiling::Triggers => MAX_TRIGGERS_PER_PHASE as nat,
        }
    }

    /// The text recorded when the counter first passes its ceiling.
    pub open spec fn reason(self) -> Seq<char> {
        match self {
            Ceiling::Recursion => "Recursion depth exceeded (max 50)"@,
            Ceiling::Spawns => "Spawn limit exceeded (max 100)"@,
            Ceiling::Triggers => "Trigger limit exceeded (max 200 per phase)"@,
        }
    }
}

/// Mathematical content of a [`BattleLimits`].
pub struct LimitsView {
    pub recursion_depth: nat,
    pub total_spawns: nat,
    pub phase_triggers: nat,
    pub current_executing_team: Option<Team>,
    pub limit_exceeded_by: Option<Team>,
    pub limit_exceeded_reason: Option<Seq<char>>,
}

impl LimitsView {
    /// The guard with which every battle starts.
    pub open spec fn fresh() -> LimitsView {
        LimitsView {
            recursion_depth: 0,
            total_spawns: 0,
            phase_triggers: 0,
            current_executing_team: None,
            limit_exceeded_by: None,
            limit_exceeded_reason: None,
        }
    }

    /// Whether some ceiling has tripped.
    pub open spec fn is_exceeded(self) -> bool {
        self.limit_exceeded_by is Some
    }

    /// The value of one counter.
    pub open spec fn counter(self, c: Ceiling) -> nat {
        match c {
            Ceiling::Recursion => self.recursion_depth,
            Ceiling::Spawns => self.total_spawns,
            Ceiling::Triggers => self.phase_triggers,
        }
    }

    /// The guard with one counter replaced.
    pub open spec fn with_counter(self, c: Ceiling, n: nat) -> LimitsView {
        match c {
            Ceiling::Recursion => LimitsView { recursion_depth: n, ..self },
            Ceiling::Spawns => LimitsView { total_spawns: n, ..self },
            Ceiling::Triggers => LimitsView { phase_triggers: n, ..self },
        }
    }

    /// Whether bumping counter `c` now is refused.
    pub open spec fn bump_fails(self, c: Ceiling) -> bool {
        self.counter(c) + 1 > c.max()
    }

    /// The guard after `team` bumps counter `c`: the counter grows by one,
    /// the side becomes the current one, and a first exceedance is recorded.
    pub open spec fn bump(self, c: Ceiling, team: Team) -> LimitsView {
        let counted = LimitsView {
            current_executing_team: Some(team),
            ..self.with_counter(c, self.counter(c) + 1)
        };
        if self.bump_fails(c) && !self.is_exceeded() {
            LimitsView {
                limit_exceeded_by: Some(team),
                limit_exceeded_reason: Some(c.reason()),
                ..counted
            }
        } else {
            counted
        }
    }

    /// The guard after one level of recursion is left.
    pub open spec fn leave(self) -> LimitsView {
        if self.recursion_depth > 0 {
            LimitsView { recursion_depth: (self.recursion_depth - 1) as nat, ..self }
        } else {
            self
        }
    }

    /// The guard after `n` bumps of counter `c` in a row, all by `team`.
    pub open spec fn bump_times(self, c: Ceiling, team: Team, n: nat) -> LimitsView
        decreases n,
    {
        if n == 0 {
            self
        } else {
            self.bump_times(c, team, (n - 1) as nat).bump(c, team)
        }
    }
}

/// Counters that bound the work one battle may cause.
#[derive(Debug, Clone)]
pub struct BattleLimits {
    pub recursion_depth: u32,
    pub total_spawns: u32,
    pub phase_triggers: u32,
    pub current_executing_team: Option<Team>,
    pub limit_exceeded_by: Option<Team>,
    pub limit_exceeded_reason: Option<String>,
}

impl View for BattleLimits {
    type V = LimitsView;

    open spec fn view(&self) -> LimitsView {
        LimitsView {
            recursion_depth: self.recursion_depth as nat,
            total_spawns: self.total_spawns as nat,
            phase_triggers: self.phase_triggers as nat,
            current_executing_team: self.current_executing_team,
            limit_exceeded_by: self.limit_exceeded_by,
            limit_exceeded_reason: match self.limit_exceeded_reason {
                Some(s) => Some(s@),
                None => None,
            },
        }
    }
}

impl BattleLimits {
    /// A guard with every counter at zero and nothing exceeded.
    pub fn new() -> (limits: BattleLimits)
        ensures
            limits@ == LimitsView::fresh(),
    {
        BattleLimits {
            recursion_depth: 0,
            total_spawns: 0,
            phase_triggers: 0,
            current_executing_team: None,
            limit_exceeded_by: None,
            limit_exceeded_reason: None,
        }
    }

    /// Zeroes the per-phase trigger counter and nothing else.
    pub fn reset_phase_counters(&mut self)
        ensures
            final(self)@ == old(self)@.with_counter(Ceiling::Triggers, 0),
    {
        self.phase_triggers = 0;
    }

    /// Whether some ceiling has tripped.
    pub fn is_exceeded(&self) -> (exceeded: bool)
        ensures
            exceeded == self@.is_exceeded(),
    {
        self.limit_exceeded_by.is_some()
    }

    /// Records the first exceedance; a later one leaves the record alone.
    fn note_exceeded(&mut self, team: Team, reason: String)
        ensures
            final(self)@ == (if old(self)@.is_exceeded() {
                old(self)@
            } else {
                LimitsView {
                    limit_exceeded_by: Some(team),
                    limit_exceeded_reason: Some(reason@),
                    ..old(self)@
                }
            }),
    {
        if self.limit_exceeded_by.is_none() {
            self.limit_exceeded_by = Some(team);
            self.limit_exceeded_reason = Some(reason);
        }
    }

    /// Enters one more level of recursion on behalf of `team`. Fails once the
    /// depth has passed [`MAX_RECURSION_DEPTH`].
    pub fn enter_recursion(&mut self, team: Team) -> (outcome: Result<(), ()>)
        requires
            old(self).recursion_depth < u32::MAX,
        ensures
            final(self)@ == old(self)@.bump(Ceiling::Recursion, team),
            outcome is Err <==> old(self)@.bump_fails(Ceiling::Recursion),
    {
        self.current_executing_team = Some(team);
        self.recursion_depth += 1;
        if self.recursion_depth > MAX_RECURSION_DEPTH {
            self.note_exceeded(team, "Recursion depth exceeded (max 50)".to_string());
            return Err(());
        }
        Ok(())
    }

    /// Leaves one level of recursion; at depth zero nothing changes.
    pub fn exit_recursion(&mut self)
        ensures
            final(self)@ == old(self)@.leave(),
    {
        if self.recursion_depth > 0 {
            self.recursion_depth -= 1;
        }
    }

    /// Counts one spawn on behalf of `team`. Fails once the total has passed
    /// [`MAX_SPAWNS_PER_BATTLE`].
    pub fn record_spawn(&mut self, team: Team) -> (outcome: Result<(), ()>)
        requires
            old(self).total_spawns < u32::MAX,
        ensures
            final(self)@ == old(self)@.bump(Ceiling::Spawns, team),
            outcome is Err <==> old(self)@.bump_fails(Ceiling::Spawns),
    {
        self.current_executing_team = Some(team);
        self.total_spawns += 1;
        if self.total_spawns > MAX_SPAWNS_PER_BATTLE {
            self.note_exceeded(team, "Spawn limit exceeded (max 100)".to_string());
            return Err(());
        }
        Ok(())
    }

    /// Counts one trigger on behalf of `team`. Fails once the count of the
    /// current phase has passed [`MAX_TRIGGERS_PER_PHASE`].
    pub fn record_trigger(&mut self, team: Team) -> (outcome: Result<(), ()>)
        requires
            old(self).phase_triggers < u32::MAX,
        ensures
            final(self)@ == old(self)@.bump(Ceiling::Triggers, team),
            outcome is Err <==> old(self)@.bump_fails(Ceiling::Triggers),
    {
        self.current_executing_team = Some(team);
        self.phase_triggers += 1;
        if self.phase_triggers > MAX_TRIGGERS_PER_PHASE {
            self.note_exceeded(team, "Trigger limit exceeded (max 200 per phase)".to_string());
            return Err(());
        }
        Ok(())
    }
}

/// Bumping one counter `n` times in a row, from any guard, adds `n` to that
/// counter and leaves the other two as they were.
pub proof fn lemma_bump_times_counts(v: LimitsView, c: Ceiling, team: Team, n: nat)
    ensures
        v.bump_times(c, team, n).counter(c) == v.counter(c) + n,
        forall|d: Ceiling| d != c ==> v.bump_times(c, team, n).counter(d) == v.counter(d),
    decreases n,
{
    if n > 0 {
        lemma_bump_times_counts(v, c, team, (n - 1) as nat);
    }
}

/// From a fresh guard, the `n`-th bump in a row of one counter by one side
/// fails exactly when `n` is above the counter's ceiling. While no bump has
/// failed nothing is recorded; from the first failure on, the record names
/// that side and that counter's reason.
pub proof fn lemma_first_failure_is_recorded(c: Ceiling, team: Team, n: nat)
    ensures
        n >= 1 ==> (LimitsView::fresh().bump_times(c, team, (n - 1) as nat).bump_fails(c) <==> n
            > c.max()),
        n <= c.max() ==> !LimitsView::fresh().bump_times(c, team, n).is_exceeded(),
        n > c.max() ==> LimitsView::fresh().bump_times(c, team, n).limit_exceeded_by == Some(team)
            && LimitsView::fresh().bump_times(c, team, n).limit_exceeded_reason == Some(
            c.reason(),
        ),
    decreases n,
{
    if n > 0 {
        lemma_first_failure_is_recorded(c, team, (n - 1) as nat);
        lemma_bump_times_counts(LimitsView::fresh(), c, team, (n - 1) as nat);
    }
}

/// Once a guard is exceeded, no bump of any counter by any side changes who
/// is recorded as having exceeded it, nor the recorded reason; leaving a
/// recursion level and resetting the phase counter do not change them either.
pub proof fn lemma_record_is_sticky(v: LimitsView, c: Ceiling, team: Team)
    requires
        v.is_exceeded(),
    ensures
        v.bump(c, team).limit_exceeded_by == v.limit_exceeded_by,
        v.bump(c, team).limit_exceeded_reason == v.limit_exceeded_reason,
        v.leave().limit_exceeded_by == v.limit_exceeded_by,
        v.leave().limit_exceeded_reason == v.limit_exceeded_reason,
        v.with_counter(Ceiling::Triggers, 0).limit_exceeded_by == v.limit_exceeded_by,
        v.with_counter(Ceiling::Triggers, 0).limit_exceeded_reason == v.limit_exceeded_reason,
{
}

/// A bump that is refused leaves the guard exceeded, and a bump of a counter
/// that is already above its ceiling is refused again.
pub proof fn lemma_failure_persists(v: LimitsView, c: Ceiling, team: Team, other: Team)
    requires
        v.bump_fails(c),
    ensures
        v.bump(c, team).is_exceeded(),
        v.bump(c, team).bump_fails(c),
        v.bump(c, team).bump(c, other).is_exceeded(),
{
}

} // verus!
