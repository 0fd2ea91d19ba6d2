use vstd::prelude::*;

verus! {

/// What the tool remembers between runs: the last hardware clock mode it
/// saw and when it saw it (seconds since the Unix epoch).
#[derive(Debug)]
pub struct AppState {
    pub last_known_timezone: String,
    pub last_judgment_timestamp: i64,
}

impl Default for AppState {
    /// The state of a first run: no mode recorded yet, timestamp zero.
    fn default() -> (s: Self)
        ensures
            s.last_known_timezone@ == Seq::<char>::empty(),
            s.last_judgment_timestamp == 0,
    {
        AppState { last_known_timezone: String::new(), last_judgment_timestamp: 0 }
    }
}

impl AppState {
    /// The state a run starts from: the stored state where one could be
    /// read back, the default state otherwise.
    pub fn load(stored: Option<AppState>) -> (s: AppState)
        ensures
            match stored {
                Some(st) => s == st,
                None => s.last_known_timezone@ == Seq::<char>::empty() && s.last_judgment_timestamp
                    == 0,
            },
    {
        match stored {
            Some(st) => st,
            None => AppState::default(),
        }
    }
}

} // verus!
