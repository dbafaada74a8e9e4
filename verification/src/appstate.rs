//! The process-wide slot holding the most recently fetched configuration, or
//! nothing before the first successful fetch. Callers in the surrounding
//! program guard one `AppState` value with a mutual-exclusion lock; every
//! access goes through `read` and `write`, which copy the value in and out so
//! that no caller ever holds a reference into the slot.

use vstd::prelude::*;
use crate::config::Config;

verus! {

/// The shared configuration slot.
pub struct AppState {
    /// The most recent configuration, or `None` before the first successful
    /// fetch.
    pub config: Option<Config>,
}

impl AppState {
    /// An empty slot, as at process start.
    pub fn new() -> (s: AppState)
        ensures
            s.config is None,
    {
        AppState { config: None }
    }

    /// Returns a copy of the current value, or `None` if no configuration has
    /// ever been written.
    pub fn read(&self) -> (r: Option<Config>)
        ensures
            r == self.config,
    {
        match &self.config {
            Some(c) => Some(c.clone()),
            None => None,
        }
    }

    /// Replaces the current value; every later `read` sees the new one.
    pub fn write(&mut self, c: Config)
        ensures
            final(self).config == Some(c),
    {
        self.config = Some(c);
    }
}

impl Default for AppState {
    /// The default slot is empty.
    fn default() -> (s: AppState)
        ensures
            s.config is None,
    {
        AppState::new()
    }
}

} // verus!
