use vstd::prelude::*;
use crate::events::Event;

verus! {

/// Whether the current level is still being played or has been won.
///
/// While a level is loaded the state only moves from `Playing` to `Won`;
/// loading a level anew resets it to `Playing`.
#[derive(Clone, Copy, Debug, PartialEq, Eq, Structural)]
pub enum GameplayState {
    Playing,
    Won,
}

impl Default for GameplayState {
    fn default() -> (s: Self)
        ensures
            s == GameplayState::Playing,
    {
        GameplayState::Playing
    }
}

impl GameplayState {
    /// The state as display text for the UI overlay.
    pub fn label(&self) -> (s: String)
        ensures
            self == GameplayState::Playing ==> s@ == "Playing"@,
            self == GameplayState::Won ==> s@ == "Won"@,
    {
        match self {
            GameplayState::Playing => "Playing".to_owned(),
            GameplayState::Won => "Won".to_owned(),
        }
    }
}

/// Ordered, append-only buffer of the domain events of a tick.
///
/// Producers push to the back; the tick scheduler drains the queue once
/// per tick, after the evaluators ran, and hands the drained events to
/// the audio and UI collaborators in insertion order.
#[derive(Clone, Debug, PartialEq)]
pub struct EventQueue {
    pub events: Vec<Event>,
}

impl Default for EventQueue {
    fn default() -> (q: Self)
        ensures
            q.events@ =~= Seq::<Event>::empty(),
    {
        EventQueue { events: Vec::new() }
    }
}

impl EventQueue {
    /// Take all queued events, leaving the queue empty.
    ///
    /// This is the drain point of the tick: consuming collaborators see
    /// every event exactly once and the queue cannot grow across ticks.
    pub fn drain(&mut self) -> (drained: Vec<Event>)
        ensures
            drained@ == old(self).events@,
            final(self).events@ =~= Seq::<Event>::empty(),
    {
        let mut taken: Vec<Event> = Vec::new();
        core::mem::swap(&mut taken, &mut self.events);
        taken
    }
}

/// The gameplay resource: the win state, the number of moves made, and
/// the index of the level being played.
#[derive(Clone, Copy, Debug, PartialEq, Eq, Structural)]
pub struct Gameplay {
    pub state: GameplayState,
    pub moves_count: u32,
    pub level: u8,
}

impl Default for Gameplay {
    fn default() -> (g: Self)
        ensures
            g.state == GameplayState::Playing,
            g.moves_count == 0,
            g.level == 0,
    {
        Gameplay { state: GameplayState::Playing, moves_count: 0, level: 0 }
    }
}

/// Elapsed time handed to the render batcher, in milliseconds.
#[derive(Clone, Copy, Debug, PartialEq, Eq, Structural)]
pub struct Time {
    pub delta_ms: u64,
}

impl Default for Time {
    fn default() -> (t: Self)
        ensures
            t.delta_ms == 0,
    {
        Time { delta_ms: 0 }
    }
}

} // verus!
