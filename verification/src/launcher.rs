//! Launching games and tracking the running one: one game at a time, and
//! a session's length from its start and end.

use vstd::prelude::*;
use crate::numfmt::push_str;

verus! {

/// The game being played.
pub struct RunningGame {
    pub game_id: String,
    pub pid: u32,
    pub session_id: String,
    /// Start, in Unix seconds.
    pub started_at: i64,
}

/// The launcher: at most one running game.
pub struct LauncherState {
    running: Option<RunningGame>,
}

impl LauncherState {
    /// The running game, if any.
    pub closed spec fn current(&self) -> Option<RunningGame> {
        self.running
    }

    /// Nothing running.
    pub fn new() -> (s: Self)
        ensures
            s.current().is_none(),
    {
        LauncherState { running: None }
    }

    /// Check that a game may be launched: refused while another runs.
    pub fn check_can_launch(&self) -> (r: Result<(), String>)
        ensures
            r.is_ok() <==> self.current().is_none(),
            r.is_err() ==> r.unwrap_err()@ == "A game is already running. Close it before launching another."@,
    {
        if self.running.is_some() {
            Err("A game is already running. Close it before launching another.".to_string())
        } else {
            Ok(())
        }
    }

    /// Record the game just launched.
    pub fn start(&mut self, game: RunningGame)
        requires
            old(self).current().is_none(),
        ensures
            final(self).current() == Some(game),
    {
        self.running = Some(game);
    }

    /// Check and record in one step: the game becomes the running one when
    /// nothing runs; otherwise it is refused and the state is unchanged.
    pub fn try_start(&mut self, game: RunningGame) -> (r: Result<(), String>)
        ensures
            r.is_ok() <==> old(self).current().is_none(),
            r.is_ok() ==> final(self).current() == Some(game),
            r.is_err() ==> final(self).current() == old(self).current(),
            r.is_err() ==> r.unwrap_err()@ == "A game is already running. Close it before launching another."@,
    {
        if self.running.is_some() {
            Err("A game is already running. Close it before launching another.".to_string())
        } else {
            self.running = Some(game);
            Ok(())
        }
    }

    /// Record the process id of the running game once it has started.
    pub fn record_pid(&mut self, pid: u32)
        requires
            old(self).current().is_some(),
        ensures
            final(self).current() == Some(RunningGame { pid, ..old(self).current().unwrap() }),
    {
        match self.running.take() {
            Some(g) => {
                self.running = Some(RunningGame { pid, ..g });
            },
            None => {},
        }
    }

    /// The id of the running game.
    pub fn running_game_id(&self) -> (r: Option<String>)
        ensures
            match r {
                Some(id) => self.current().is_some() && id@ == self.current().unwrap().game_id@,
                None => self.current().is_none(),
            },
    {
        match &self.running {
            Some(g) => Some(g.game_id.clone()),
            None => None,
        }
    }

    /// The running game ended: nothing runs any more.
    pub fn stop(&mut self)
        ensures
            final(self).current().is_none(),
    {
        self.running = None;
    }
}

/// A session's length: end minus start in seconds, never below 0.
pub fn session_duration(started_unix: i64, ended_unix: i64) -> (d: i64)
    requires
        i64::MIN <= ended_unix - started_unix <= i64::MAX,
    ensures
        d == if ended_unix - started_unix > 0 { ended_unix - started_unix } else { 0 },
{
    let d = ended_unix - started_unix;
    if d > 0 { d } else { 0 }
}

/// What the monitor does after a poll.
#[derive(Clone, Copy, Debug, PartialEq, Eq, Structural)]
pub enum MonitorStep {
    /// The process still runs: poll again after five seconds.
    KeepWatching,
    /// The process is gone: close the session with this length.
    Finish { duration_secs: i64 },
}

/// The monitor's decision from whether the process is still alive.
pub fn monitor_step(alive: bool, started_unix: i64, now_unix: i64) -> (s: MonitorStep)
    requires
        i64::MIN <= now_unix - started_unix <= i64::MAX,
    ensures
        alive ==> s == MonitorStep::KeepWatching,
        !alive ==> s == (MonitorStep::Finish {
            duration_secs: if now_unix - started_unix > 0 { (now_unix - started_unix) as i64 } else { 0 },
        }),
{
    if alive {
        MonitorStep::KeepWatching
    } else {
        MonitorStep::Finish { duration_secs: session_duration(started_unix, now_unix) }
    }
}

/// The error for a process that could not be started.
pub fn launch_failed_message(exe_path: &str, err: &str) -> (m: String)
    ensures
        m@ == "Failed to launch '"@ + exe_path@ + "': "@ + err@,
{
    let mut m = String::new();
    push_str(&mut m, "Failed to launch '");
    push_str(&mut m, exe_path);
    push_str(&mut m, "': ");
    push_str(&mut m, err);
    m
}

/// The error for an unknown game id.
pub fn game_not_found_message(err: &str) -> (m: String)
    ensures
        m@ == "Game not found: "@ + err@,
{
    let mut m = String::new();
    push_str(&mut m, "Game not found: ");
    push_str(&mut m, err);
    m
}

} // verus!
