use vstd::prelude::*;
use crate::state::AppState;
use crate::adjtime::{hwclock_mode, hwclock_mode_from_adjtime, mode_of_the_third_line, nth_line, strip_cr, trim, uppercase_of};

verus! {

/// The verdict on the hardware clock's configuration.
#[derive(Debug, Clone, Copy, PartialEq, Eq, Structural)]
pub enum Judgment {
    /// Do nothing, stay silent.
    Silent,
    /// Show the penguin.
    Guilty,
}

/// The verdict for a hardware clock mode (`None` where it could not be read)
/// and the last mode recorded: guilty exactly when the clock keeps local time
/// and local time has not been recorded yet.
pub open spec fn judgment_for(mode: Option<Seq<char>>, last_known: Seq<char>) -> Judgment {
    if mode == Some("LOCAL"@) && last_known != "LOCAL"@ {
        Judgment::Guilty
    } else {
        Judgment::Silent
    }
}

/// Judges an already read hardware clock mode against the loaded state.
pub fn judge_with_mode(mode: Option<String>, state: &AppState) -> (j: Judgment)
    ensures
        j == judgment_for(mode.deep_view(), state.last_known_timezone@),
{
    proof {
        reveal_strlit("UTC");
        reveal_strlit("LOCAL");
        assert("UTC"@.len() != "LOCAL"@.len());
    }
    let hwclock_mode = match mode {
        Some(m) => m,
        None => return Judgment::Silent,
    };
    if hwclock_mode == String::from_str("UTC") {
        return Judgment::Silent;
    }
    if !(hwclock_mode == String::from_str("LOCAL")) {
        return Judgment::Silent;
    }
    if state.last_known_timezone == hwclock_mode {
        return Judgment::Silent;
    }
    Judgment::Guilty
}


/// The verdict for an adjtime file with text `adjtime` (`None` where it
/// could not be read) and the last mode recorded.
pub open spec fn judgment_of(adjtime: Option<Seq<char>>, last_known: Seq<char>) -> Judgment {
    judgment_for(mode_of(adjtime), last_known)
}

/// The hardware clock mode named by an adjtime file that could be read.
pub open spec fn mode_of(adjtime: Option<Seq<char>>) -> Option<Seq<char>> {
    match adjtime {
        Some(content) => hwclock_mode(content),
        None => None,
    }
}

/// The mode recorded after a run: the mode read, or `UTC` where none could
/// be read.
pub open spec fn recorded_mode(adjtime: Option<Seq<char>>) -> Seq<char> {
    match mode_of(adjtime) {
        Some(m) => m,
        None => "UTC"@,
    }
}

/// The timestamp recorded after a run: the clock's seconds since the Unix
/// epoch as an `i64` (wrapping as `as` does), or 0 where the clock stood
/// before the epoch.
pub open spec fn recorded_timestamp(secs_since_epoch: Option<u64>) -> i64 {
    match secs_since_epoch {
        Some(secs) => secs as i64,
        None => 0,
    }
}

/// Judges the hardware clock described by the text of an adjtime file
/// (`None` where it could not be read) against the loaded state.
pub fn judge(adjtime: Option<&str>, state: &AppState) -> (j: Judgment)
    ensures
        j == judgment_of(adjtime.deep_view(), state.last_known_timezone@),
{
    let mode = match adjtime {
        Some(content) => hwclock_mode_from_adjtime(content),
        None => None,
    };
    judge_with_mode(mode, state)
}


/// The state to persist after a run, whatever the verdict was: the hardware
/// clock mode read from the adjtime text (`UTC` where none could be read),
/// stamped with the clock reading (seconds since the Unix epoch, `None` where
/// the clock stood before it).
pub fn update_state_after_judgment(adjtime: Option<&str>, secs_since_epoch: Option<u64>) -> (s:
    AppState)
    ensures
        s.last_known_timezone@ == recorded_mode(adjtime.deep_view()),
        s.last_judgment_timestamp == recorded_timestamp(secs_since_epoch),
{
    let mode = match adjtime {
        Some(content) => hwclock_mode_from_adjtime(content),
        None => None,
    };
    let hwclock_mode = match mode {
        Some(m) => m,
        None => String::from_str("UTC"),
    };
    let timestamp_now: i64 = match secs_since_epoch {
        Some(secs) => secs as i64,
        None => 0,
    };
    AppState { last_known_timezone: hwclock_mode, last_judgment_timestamp: timestamp_now }
}


/// A hardware clock kept in UTC is never judged, whatever was recorded.
pub proof fn utc_is_silent(last_known: Seq<char>)
    ensures
        judgment_for(Some("UTC"@), last_known) == Judgment::Silent,
{
    reveal_strlit("UTC");
    reveal_strlit("LOCAL");
    assert("UTC"@.len() != "LOCAL"@.len());
}

/// Only a hardware clock kept in local time is ever judged: an unreadable
/// adjtime file, a missing or blank third line, or any mode but `LOCAL`
/// stays silent.
pub proof fn only_local_is_judged(adjtime: Option<Seq<char>>, last_known: Seq<char>)
    ensures
        judgment_of(adjtime, last_known) == Judgment::Guilty ==> mode_of(adjtime) == Some(
            "LOCAL"@,
        ),
        adjtime is None ==> judgment_of(adjtime, last_known) == Judgment::Silent,
{
}

/// A hardware clock in local time is judged exactly when local time has not
/// been recorded yet.
pub proof fn local_is_judged_until_recorded(adjtime: Option<Seq<char>>, last_known: Seq<char>)
    requires
        mode_of(adjtime) == Some("LOCAL"@),
    ensures
        judgment_of(adjtime, last_known) == Judgment::Guilty <==> last_known != "LOCAL"@,
{
}

/// Judged once, never nagged again: after the state is updated from an
/// adjtime file, judging the same file against that state is silent (the
/// state's timestamp plays no part in a verdict).
pub proof fn judged_once_never_again(adjtime: Option<Seq<char>>)
    ensures
        judgment_of(adjtime, recorded_mode(adjtime)) == Judgment::Silent,
{
}

/// A guilty verdict is followed by a state that records local time.
pub proof fn guilty_records_local(adjtime: Option<Seq<char>>, last_known: Seq<char>)
    requires
        judgment_of(adjtime, last_known) == Judgment::Guilty,
    ensures
        recorded_mode(adjtime) == "LOCAL"@,
{
}

/// Deleting the state resets the judgment: from the state of a first run
/// (nothing recorded), a hardware clock in local time is judged again.
pub proof fn reset_state_judges_again(adjtime: Option<Seq<char>>)
    requires
        mode_of(adjtime) == Some("LOCAL"@),
    ensures
        judgment_of(adjtime, Seq::<char>::empty()) == Judgment::Guilty,
{
    reveal_strlit("LOCAL");
    assert("LOCAL"@.len() != 0);
}


/// The verdict on a readable adjtime text is the verdict on the mode read
/// from it: every text is judged by its mode, however long or short it is.
pub proof fn verdict_on_the_mode_read(content: Seq<char>, last_known: Seq<char>)
    ensures
        judgment_of(Some(content), last_known) == judgment_for(hwclock_mode(content), last_known),
        judgment_of(None, last_known) == judgment_for(None, last_known),
{
}

/// A third line that reads `local` (in any case, with any white space
/// around it) is judged guilty against any state that has not recorded
/// local time, and silent against one that has, whatever the other lines
/// hold.
pub proof fn local_third_line_is_judged(
    l0: Seq<char>,
    l1: Seq<char>,
    l2: Seq<char>,
    rest: Seq<char>,
    last_known: Seq<char>,
)
    requires
        forall|j: int| 0 <= j < l0.len() ==> l0[j] != '\n',
        forall|j: int| 0 <= j < l1.len() ==> l1[j] != '\n',
        forall|j: int| 0 <= j < l2.len() ==> l2[j] != '\n',
        uppercase_of(trim(strip_cr(l2))) == "LOCAL"@,
    ensures
        judgment_of(Some(l0 + seq!['\n'] + l1 + seq!['\n'] + l2 + seq!['\n'] + rest), last_known)
            == (if last_known == "LOCAL"@ {
            Judgment::Silent
        } else {
            Judgment::Guilty
        }),
{
    reveal_strlit("LOCAL");
    mode_of_the_third_line(l0, l1, l2, rest);
}

/// The state records the mode read, whatever it is: a readable text with a
/// mode records that mode, and anything else records `UTC`.
pub proof fn recorded_mode_is_the_mode_read(adjtime: Option<Seq<char>>)
    ensures
        recorded_mode(adjtime) == match adjtime {
            Some(c) => match hwclock_mode(c) {
                Some(m) => m,
                None => "UTC"@,
            },
            None => "UTC"@,
        },
{
}

/// The mode recorded from `l0\nl1\nl2\nrest` is `l2` trimmed and
/// upper-cased, or `UTC` where that is empty.
pub proof fn recorded_mode_of_the_third_line(
    l0: Seq<char>,
    l1: Seq<char>,
    l2: Seq<char>,
    rest: Seq<char>,
)
    requires
        forall|j: int| 0 <= j < l0.len() ==> l0[j] != '\n',
        forall|j: int| 0 <= j < l1.len() ==> l1[j] != '\n',
        forall|j: int| 0 <= j < l2.len() ==> l2[j] != '\n',
    ensures
        recorded_mode(Some(l0 + seq!['\n'] + l1 + seq!['\n'] + l2 + seq!['\n'] + rest)) == (if uppercase_of(
            trim(strip_cr(l2)),
        ).len() == 0 {
            "UTC"@
        } else {
            uppercase_of(trim(strip_cr(l2)))
        }),
{
    mode_of_the_third_line(l0, l1, l2, rest);
}


/// The clock reading is recorded as it is: any number of seconds that fits
/// an `i64` is the recorded timestamp, and a clock before the epoch records
/// 0.
pub proof fn recorded_timestamp_is_the_clock(secs: u64)
    ensures
        secs <= i64::MAX ==> recorded_timestamp(Some(secs)) == secs,
        recorded_timestamp(None) == 0,
{
}

} // verus!
