//! The decisions of the driving loop: when the grid advances, when the
//! display is drawn, and how long the loop rests between two events.

use vstd::prelude::*;
use crate::grid::Grid;

verus! {

/// The nanoseconds in a second.
pub const NANOS_PER_SECOND: u64 = 1_000_000_000;

/// The running simulation: the grid and the limit on events per second, where
/// a limit of 0 freezes the grid and lets the loop run unpaced.
pub struct App {
    pub map: Grid,
    pub fps_limit: u32,
}

/// What the driving loop hands to the simulation.
#[derive(Clone, Copy, Debug, PartialEq, Eq, Structural)]
pub enum LoopEvent {
    /// The display is due to be drawn.
    Render,
    /// The simulation is due to advance.
    Update,
    /// Anything else: input, idle time.
    Other,
}

/// What the driving loop is to do about an event.
#[derive(Clone, Copy, Debug, PartialEq, Eq, Structural)]
pub struct Reaction {
    /// Draw the grid.
    pub draw: bool,
    /// Rest for what is left of the event's share of time.
    pub pace: bool,
}

/// The time that each event may take under a limit of `fps_limit` events per
/// second, in whole nanoseconds.
pub open spec fn time_share(fps_limit: u32) -> int {
    NANOS_PER_SECOND as int / fps_limit as int
}

/// What is left of an event's share of time once `elapsed_nanos` of it are
/// spent; nothing where the event has overrun its share.
pub open spec fn time_left(fps_limit: u32, elapsed_nanos: int) -> int {
    if time_share(fps_limit) <= elapsed_nanos {
        0
    } else {
        time_share(fps_limit) - elapsed_nanos
    }
}

impl App {
    /// Advances the grid by one generation.
    pub fn update(&mut self)
        requires
            old(self).map.wf(),
        ensures
            old(self).map.steps_to(&final(self).map),
            final(self).fps_limit == old(self).fps_limit,
    {
        self.map.step();
    }

    /// Reacts to one event of the driving loop. A render event asks for a
    /// drawing. With a limit of 0 nothing else happens: the grid stands still
    /// and the loop does not rest. Otherwise an update event advances the
    /// grid by one generation, and every event is paced.
    pub fn on_event(&mut self, event: LoopEvent) -> (reaction: Reaction)
        requires
            old(self).map.wf(),
        ensures
            reaction.draw == (event is Render),
            reaction.pace == (old(self).fps_limit != 0),
            final(self).fps_limit == old(self).fps_limit,
            final(self).map.wf(),
            if event is Update && old(self).fps_limit != 0 {
                old(self).map.steps_to(&final(self).map)
            } else {
                final(self).map == old(self).map
            },
    {
        let draw: bool = match event {
            LoopEvent::Render => true,
            _ => false,
        };
        if self.fps_limit == 0 {
            return Reaction { draw, pace: false };
        }
        match event {
            LoopEvent::Update => {
                self.update();
            },
            _ => {},
        }
        Reaction { draw, pace: true }
    }

    /// The nanoseconds that the loop rests after an event that took
    /// `elapsed_nanos`: what is left of a second divided by the limit.
    pub fn wait_time(&self, elapsed_nanos: u128) -> (nanos: u64)
        requires
            self.fps_limit != 0,
        ensures
            nanos == time_left(self.fps_limit, elapsed_nanos as int),
            nanos <= NANOS_PER_SECOND,
    {
        let share: u64 = NANOS_PER_SECOND / (self.fps_limit as u64);
        if share as u128 <= elapsed_nanos {
            0
        } else {
            share - (elapsed_nanos as u64)
        }
    }
}

} // verus!
