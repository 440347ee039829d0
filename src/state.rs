//! A minimal input state: a count of one key and a text buffer.

use vstd::prelude::*;
use crate::client::{Event, push_char};

verus! {

/// Counts presses of `c` and collects every other typed character.
pub struct State {
    pub counter: u32,
    pub text_area: String,
}

impl State {
    /// No press counted and an empty buffer.
    pub fn new() -> (r: State)
        ensures
            r.counter == 0,
            r.text_area@.len() == 0,
    {
        State { counter: 0, text_area: String::new() }
    }

    /// A typed `c` adds one to the counter, wrapping at the largest value;
    /// another typed character goes to the end of the buffer. Other events
    /// change nothing.
    pub fn update(&mut self, event: &Event)
        ensures
            match *event {
                Event::Input(c) => if c == 'c' {
                    &&& final(self).counter == old(self).counter.wrapping_add(1)
                    &&& final(self).text_area@ == old(self).text_area@
                } else {
                    &&& final(self).counter == old(self).counter
                    &&& final(self).text_area@ == old(self).text_area@.push(c)
                },
                _ => {
                    &&& final(self).counter == old(self).counter
                    &&& final(self).text_area@ == old(self).text_area@
                },
            },
    {
        match event {
            Event::Input(c) => {
                if *c == 'c' {
                    self.counter = self.counter.wrapping_add(1);
                } else {
                    push_char(&mut self.text_area, *c);
                }
            },
            _ => {},
        }
    }
}

impl Default for State {
    fn default() -> (r: State)
        ensures
            r.counter == 0,
            r.text_area@.len() == 0,
    {
        State::new()
    }
}

} // verus!
