//! The loop that everything runs in: sync the state, stay alive, pick the next
//! incomplete step, run it.

use crate::state::is_dragon_dead;
use crate::steps::{get_next_step, is_next, next_step, StepId};
use crate::text::{contains, occurs_in, same};
use crate::types::GameState;
use vstd::prelude::*;

verus! {

// ── joining ─────────────────────────────────────────────────────────────────

/// So many chunks make the world queryable.
pub const CHUNKS_NEEDED: u32 = 12;

/// What the server tells the bot while it joins.
#[derive(Debug, Clone, Copy, PartialEq, Eq, Structural)]
pub enum JoinEvent {
    Spawn,
    ChunkLoad,
    Death,
    Kicked,
    /// The connection has ended.
    Closed,
    Other,
}

#[derive(Debug, Clone, Copy, PartialEq, Eq, Structural)]
pub enum JoinAction {
    /// Wait for the next event.
    Wait,
    /// Joined dead: respawn, so that chunks and a live spawn arrive.
    Respawn,
    /// The world is ready.
    Ready,
    /// Give up.
    Stop,
}

/// What `join` does next.
pub open spec fn join_next(chunks: u32, event: JoinEvent) -> (u32, JoinAction) {
    match event {
        JoinEvent::ChunkLoad => {
            if chunks + 1 >= CHUNKS_NEEDED {
                ((chunks + 1) as u32, JoinAction::Ready)
            } else {
                ((chunks + 1) as u32, JoinAction::Wait)
            }
        },
        JoinEvent::Death => (chunks, JoinAction::Respawn),
        JoinEvent::Kicked | JoinEvent::Closed => (chunks, JoinAction::Stop),
        JoinEvent::Spawn | JoinEvent::Other => (chunks, JoinAction::Wait),
    }
}

/// Waits for spawn and a few chunks; `chunks` is how many have come.
pub fn join(chunks: u32, event: JoinEvent) -> (r: (u32, JoinAction))
    requires
        chunks < CHUNKS_NEEDED,
    ensures
        r == join_next(chunks, event),
{
    match event {
        JoinEvent::ChunkLoad => {
            if chunks + 1 >= CHUNKS_NEEDED {
                ((chunks + 1) as u32, JoinAction::Ready)
            } else {
                ((chunks + 1) as u32, JoinAction::Wait)
            }
        },
        JoinEvent::Death => (chunks, JoinAction::Respawn),
        JoinEvent::Kicked | JoinEvent::Closed => (chunks, JoinAction::Stop),
        JoinEvent::Spawn | JoinEvent::Other => (chunks, JoinAction::Wait),
    }
}

/// The world is ready exactly with the twelfth chunk, and only a kick or the end of
/// the connection makes the bot give up.
pub proof fn law_joining_counts_chunks(chunks: u32, event: JoinEvent)
    requires
        chunks < CHUNKS_NEEDED,
    ensures
        join_next(chunks, event).1 == JoinAction::Ready <==> event == JoinEvent::ChunkLoad && chunks
            == 11,
        join_next(chunks, event).1 == JoinAction::Wait ==> join_next(chunks, event).0 < CHUNKS_NEEDED,
        join_next(chunks, event).1 == JoinAction::Stop <==> event == JoinEvent::Kicked || event
            == JoinEvent::Closed,
{
}

// ── when to stop ────────────────────────────────────────────────────────────

/// The pickaxe of the goal, or a better one, is carried.
pub open spec fn reaches_goal(goal: Seq<char>, rank: int) -> bool {
    ||| goal == "iron_pickaxe"@ && rank >= 3
    ||| goal == "stone_pickaxe"@ && rank >= 2
    ||| goal == "wooden_pickaxe"@ && rank >= 1
}

/// Race finish line: whether the goal tool is reached with a pickaxe of this rank.
pub fn goal_reached(goal: &str, rank: i32) -> (r: bool)
    ensures
        r == reaches_goal(goal@, rank as int),
{
    (same(goal, "iron_pickaxe") && rank >= 3) || (same(goal, "stone_pickaxe") && rank >= 2)
        || (same(
        goal,
        "wooden_pickaxe",
    ) && rank >= 1)
}

/// A better pickaxe does not undo a goal.
pub proof fn law_goals_stay_reached(goal: Seq<char>, rank: int, better: int)
    requires
        reaches_goal(goal, rank),
        rank <= better,
    ensures
        reaches_goal(goal, better),
{
}

/// The message tells of a dead connection.
pub open spec fn tells_of_loss(m: Seq<char>) -> bool {
    ||| occurs_in("disconnect"@, m)
    ||| occurs_in("Broken pipe"@, m)
    ||| occurs_in("os error 32"@, m)
    ||| occurs_in("Connection reset"@, m)
}

/// Whether a step failed on a dead connection: without this check the bot would go
/// on forever, failing each craft.
pub fn connection_lost(message: &str) -> (r: bool)
    ensures
        r == tells_of_loss(message@),
{
    contains(message, "disconnect") || contains(message, "Broken pipe") || contains(
        message,
        "os error 32",
    ) || contains(message, "Connection reset")
}

// ── the loop ────────────────────────────────────────────────────────────────

/// So many turns without a step make the bot stop.
pub const IDLE_LIMIT: u32 = 200;

#[derive(Debug, Clone, Copy, PartialEq, Eq, Structural)]
pub enum SessionPhase {
    /// Has synced the state.
    Synced,
    /// Has run the survival reflexes.
    Checked,
    /// Has run a step.
    Ran,
    /// Has waited for a step to become available.
    Idled,
    Over,
}

#[derive(Debug, Clone, Copy, PartialEq, Eq, Structural)]
pub struct Session {
    /// Turns in a row without a step.
    pub idle: u32,
    pub phase: SessionPhase,
}

/// What the loop has seen besides the state of the game.
pub struct SessionSeen {
    /// The goal of the race, if this is one.
    pub goal: Option<String>,
    /// A survival reflex fired.
    pub reflex: bool,
    /// What the last step reported.
    pub message: String,
}

/// The goal of the race is reached.
pub open spec fn race_is_won(game: GameState, goal: Option<String>) -> bool {
    goal matches Some(g) && reaches_goal(g@, game.equipment.pickaxe_or_none().level())
}

#[derive(Debug, Clone, Copy, PartialEq, Eq, Structural)]
pub enum SessionEnd {
    Victory,
    GoalReached,
    ConnectionLost,
    Idle,
}

#[derive(Debug, Clone, Copy, PartialEq, Eq, Structural)]
pub enum SessionAction {
    /// Let packets settle and sync the state.
    Sync,
    /// Respawn, let chunks settle, and sync the state.
    Respawn,
    /// Run the survival reflexes.
    CheckSurvival,
    Run(StepId),
    /// Wait for a step to become available; tell so the first time.
    Wait(bool),
    Stop(SessionEnd),
}

pub open spec fn session_start() -> Session {
    Session { idle: 0, phase: SessionPhase::Synced }
}

/// The state of the loop once the state of the game has been synced for the first
/// time.
pub fn start_session() -> (r: Session)
    ensures
        r == session_start(),
{
    Session { idle: 0, phase: SessionPhase::Synced }
}

/// What `session` does next.
pub open spec fn session_next(state: Session, game: GameState, seen: SessionSeen) -> (
    Session,
    SessionAction,
) {
    match state.phase {
        SessionPhase::Synced => {
            if game.world.dragon_dead {
                (
                    Session { phase: SessionPhase::Over, ..state },
                    SessionAction::Stop(SessionEnd::Victory),
                )
            } else if !game.alive {
                (state, SessionAction::Respawn)
            } else {
                (Session { phase: SessionPhase::Checked, ..state }, SessionAction::CheckSurvival)
            }
        },
        SessionPhase::Checked => {
            if seen.reflex {
                (Session { phase: SessionPhase::Synced, ..state }, SessionAction::Sync)
            } else if race_is_won(game, seen.goal) {
                (
                    Session { phase: SessionPhase::Over, ..state },
                    SessionAction::Stop(SessionEnd::GoalReached),
                )
            } else {
                match next_step(game) {
                    Some(step) => (
                        Session { idle: 0, phase: SessionPhase::Ran },
                        SessionAction::Run(step),
                    ),
                    None => (
                        Session { idle: (state.idle + 1) as u32, phase: SessionPhase::Idled },
                        SessionAction::Wait(state.idle == 0),
                    ),
                }
            }
        },
        SessionPhase::Ran => {
            if tells_of_loss(seen.message@) {
                (
                    Session { phase: SessionPhase::Over, ..state },
                    SessionAction::Stop(SessionEnd::ConnectionLost),
                )
            } else {
                (Session { phase: SessionPhase::Synced, ..state }, SessionAction::Sync)
            }
        },
        SessionPhase::Idled => {
            if state.idle > IDLE_LIMIT {
                (
                    Session { phase: SessionPhase::Over, ..state },
                    SessionAction::Stop(SessionEnd::Idle),
                )
            } else {
                (Session { phase: SessionPhase::Synced, ..state }, SessionAction::Sync)
            }
        },
        SessionPhase::Over => (state, SessionAction::Stop(SessionEnd::Idle)),
    }
}

/// Whether the goal of the race is reached.
fn is_race_won(game: &GameState, goal: &Option<String>) -> (r: bool)
    ensures
        r == race_is_won(*game, *goal),
{
    match goal {
        Some(g) => goal_reached(g.as_str(), game.equipment.pickaxe_tier().rank()),
        None => false,
    }
}

/// One turn of the loop: victory, then death, then the survival reflexes, then the goal
/// of the race, then the next step.
pub fn session(state: Session, game: &GameState, seen: &SessionSeen) -> (r: (Session, SessionAction))
    requires
        state.idle < u32::MAX,
    ensures
        r == session_next(state, *game, *seen),
{
    match state.phase {
        SessionPhase::Synced => {
            if is_dragon_dead(game) {
                (
                    Session { phase: SessionPhase::Over, ..state },
                    SessionAction::Stop(SessionEnd::Victory),
                )
            } else if !game.alive {
                (state, SessionAction::Respawn)
            } else {
                (Session { phase: SessionPhase::Checked, ..state }, SessionAction::CheckSurvival)
            }
        },
        SessionPhase::Checked => {
            if seen.reflex {
                (Session { phase: SessionPhase::Synced, ..state }, SessionAction::Sync)
            } else if is_race_won(game, &seen.goal) {
                (
                    Session { phase: SessionPhase::Over, ..state },
                    SessionAction::Stop(SessionEnd::GoalReached),
                )
            } else {
                match get_next_step(game) {
                    Some(step) => (
                        Session { idle: 0, phase: SessionPhase::Ran },
                        SessionAction::Run(step.which),
                    ),
                    None => (
                        Session { idle: (state.idle + 1) as u32, phase: SessionPhase::Idled },
                        SessionAction::Wait(state.idle == 0),
                    ),
                }
            }
        },
        SessionPhase::Ran => {
            if connection_lost(seen.message.as_str()) {
                (
                    Session { phase: SessionPhase::Over, ..state },
                    SessionAction::Stop(SessionEnd::ConnectionLost),
                )
            } else {
                (Session { phase: SessionPhase::Synced, ..state }, SessionAction::Sync)
            }
        },
        SessionPhase::Idled => {
            if state.idle > IDLE_LIMIT {
                (
                    Session { phase: SessionPhase::Over, ..state },
                    SessionAction::Stop(SessionEnd::Idle),
                )
            } else {
                (Session { phase: SessionPhase::Synced, ..state }, SessionAction::Sync)
            }
        },
        SessionPhase::Over => (state, SessionAction::Stop(SessionEnd::Idle)),
    }
}

/// The loop counts no more than 201 idle turns.
pub open spec fn session_wf(state: Session) -> bool {
    &&& state.idle <= IDLE_LIMIT + 1
    &&& state.phase == SessionPhase::Synced || state.phase == SessionPhase::Checked ==> state.idle
        <= IDLE_LIMIT
    &&& state.phase == SessionPhase::Ran ==> state.idle == 0
}

/// The bot does not idle forever.
pub proof fn law_idle_turns_are_bounded(state: Session, game: GameState, seen: SessionSeen)
    requires
        session_wf(state),
    ensures
        session_wf(session_next(state, game, seen).0),
        state.phase == SessionPhase::Idled && state.idle == IDLE_LIMIT + 1 ==> session_next(
            state,
            game,
            seen,
        ).1 == SessionAction::Stop(SessionEnd::Idle),
{
}

/// Staying alive comes first: a step is run only after the reflexes were checked and
/// none fired, and they are checked only for a bot that is alive. The step that is run
/// is the next one.
pub proof fn law_survival_comes_first(state: Session, game: GameState, seen: SessionSeen, step: StepId)
    ensures
        session_next(state, game, seen).1 == SessionAction::Run(step) ==> state.phase
            == SessionPhase::Checked && !seen.reflex && !race_is_won(game, seen.goal) && is_next(
            step,
            game,
        ),
        session_next(state, game, seen).0.phase == SessionPhase::Checked ==> state.phase
            == SessionPhase::Synced && game.alive && !game.world.dragon_dead,
{
}

/// A bot that died respawns and goes on: death does not end the loop.
pub proof fn law_death_is_not_the_end(state: Session, game: GameState, seen: SessionSeen)
    requires
        state.phase == SessionPhase::Synced,
        !game.alive,
        !game.world.dragon_dead,
    ensures
        session_next(state, game, seen) == (state, SessionAction::Respawn),
{
}

/// A step that failed on a dead connection ends the loop, whatever it was about.
pub proof fn law_dead_connections_end_the_loop(state: Session, game: GameState, seen: SessionSeen)
    requires
        state.phase == SessionPhase::Ran,
        tells_of_loss(seen.message@),
    ensures
        session_next(state, game, seen).1 == SessionAction::Stop(SessionEnd::ConnectionLost),
{
}

/// A dead bot that joins respawns, chunks are counted one by one, and nothing else moves the
/// count.
pub proof fn law_joining_goes_on(chunks: u32, event: JoinEvent)
    requires
        chunks < CHUNKS_NEEDED,
    ensures
        join_next(chunks, event).1 == JoinAction::Respawn <==> event == JoinEvent::Death,
        join_next(chunks, event).0 == chunks + (if event == JoinEvent::ChunkLoad {
            1int
        } else {
            0
        }),
        CHUNKS_NEEDED == 12,
{
}

/// A race is won with the pickaxe of its goal or a better one: wood is rank 1, stone 2 and
/// iron 3. There is no other goal, and without a goal there is no race.
pub proof fn law_races_are_won_with_the_pickaxe(goal: Seq<char>, rank: int, game: GameState)
    ensures
        reaches_goal(goal, rank) ==> rank >= 1,
        reaches_goal("wooden_pickaxe"@, rank) <==> rank >= 1,
        reaches_goal("stone_pickaxe"@, rank) <==> rank >= 2,
        reaches_goal("iron_pickaxe"@, rank) <==> rank >= 3,
        reaches_goal(goal, rank) ==> seq!["wooden_pickaxe"@, "stone_pickaxe"@, "iron_pickaxe"@].contains(goal),
        !race_is_won(game, None),
{
    reveal_strlit("wooden_pickaxe");
    reveal_strlit("stone_pickaxe");
    reveal_strlit("iron_pickaxe");
    assert("wooden_pickaxe"@[0] == 'w' && "stone_pickaxe"@[0] == 's' && "iron_pickaxe"@[0] == 'i');
    let goals = seq!["wooden_pickaxe"@, "stone_pickaxe"@, "iron_pickaxe"@];
    assert(goals[0] == "wooden_pickaxe"@ && goals[1] == "stone_pickaxe"@ && goals[2] == "iron_pickaxe"@);
}

/// A race is won exactly if the pickaxe that is carried reaches its goal.
pub proof fn law_races_go_by_what_is_carried(game: GameState, goal: String)
    ensures
        race_is_won(game, Some(goal)) <==> reaches_goal(
            goal@,
            match game.equipment.pickaxe {
                Some(t) => t.level(),
                None => 0,
            },
        ),
{
}

/// A message tells of a dead connection by one of four phrases.
pub proof fn law_losses_are_told_by_phrase(m: Seq<char>)
    ensures
        tells_of_loss(m) <==> exists|part: Seq<char>|
            #[trigger] occurs_in(part, m) && seq![
                "disconnect"@,
                "Broken pipe"@,
                "os error 32"@,
                "Connection reset"@,
            ].contains(part),
{
    let phrases = seq!["disconnect"@, "Broken pipe"@, "os error 32"@, "Connection reset"@];
    assert(phrases[0] == "disconnect"@ && phrases[1] == "Broken pipe"@ && phrases[2] == "os error 32"@
        && phrases[3] == "Connection reset"@);
}

/// The loop ends only with the dragon dead, the race won, the connection lost during a step,
/// or after more than 200 turns in a row without a step.
pub proof fn law_the_loop_ends_for_a_reason(state: Session, game: GameState, seen: SessionSeen)
    requires
        session_wf(state),
        state.phase != SessionPhase::Over,
    ensures
        ({
            let (next, action) = session_next(state, game, seen);
            &&& action == SessionAction::Stop(SessionEnd::Victory) <==> state.phase == SessionPhase::Synced
                && game.world.dragon_dead
            &&& action == SessionAction::Stop(SessionEnd::GoalReached) <==> state.phase
                == SessionPhase::Checked && !seen.reflex && race_is_won(game, seen.goal)
            &&& action == SessionAction::Stop(SessionEnd::ConnectionLost) <==> state.phase == SessionPhase::Ran
                && tells_of_loss(seen.message@)
            &&& action == SessionAction::Stop(SessionEnd::Idle) <==> state.phase == SessionPhase::Idled
                && state.idle > 200
            &&& action is Stop <==> next.phase == SessionPhase::Over
        }),
{
}

/// Until then every turn goes on: a living bot checks for dangers, a reflex or a step or a
/// wait leads to the next turn, the next step is run where there is one, and the turns without
/// a step are counted from the last one with a step.
pub proof fn law_the_loop_goes_on(state: Session, game: GameState, seen: SessionSeen)
    requires
        session_wf(state),
    ensures
        ({
            let (next, action) = session_next(state, game, seen);
            &&& action == SessionAction::CheckSurvival <==> state.phase == SessionPhase::Synced && game.alive
                && !game.world.dragon_dead
            &&& action == SessionAction::CheckSurvival ==> next.phase == SessionPhase::Checked && next.idle
                == state.idle
            &&& action == SessionAction::Respawn <==> state.phase == SessionPhase::Synced && !game.alive
                && !game.world.dragon_dead
            &&& action == SessionAction::Sync <==> (state.phase == SessionPhase::Checked && seen.reflex) || (
            state.phase == SessionPhase::Ran && !tells_of_loss(seen.message@)) || (state.phase
                == SessionPhase::Idled && state.idle <= 200)
            &&& action == SessionAction::Sync ==> next.phase == SessionPhase::Synced && next.idle == state.idle
            &&& state.phase == SessionPhase::Checked && !seen.reflex && !race_is_won(game, seen.goal)
                ==> match next_step(game) {
                Some(step) => action == SessionAction::Run(step) && next.phase == SessionPhase::Ran && next.idle
                    == 0,
                None => action == SessionAction::Wait(state.idle == 0) && next.phase == SessionPhase::Idled
                    && next.idle == state.idle + 1,
            }
        }),
        session_start().idle == 0,
        session_start().phase == SessionPhase::Synced,
{
}

} // verus!
