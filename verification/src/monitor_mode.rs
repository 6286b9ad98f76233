//! Activity-monitor modes and the picker plumbing that maps them to row indices.

use vstd::prelude::*;

verus! {

/// How a terminal session is watched for activity.
#[derive(Debug, Clone, Copy, PartialEq, Eq, Structural)]
pub enum MonitorMode {
    /// Nothing is watched.
    Off,
    /// New output after a quiet period notifies.
    Activity,
    /// A stretch without output notifies.
    Silence,
    /// The remote shell reporting a finished command notifies.
    Command,
}

/// Picker position of each mode: the order of [`MonitorMode::all`].
pub open spec fn mode_index(m: MonitorMode) -> nat {
    match m {
        MonitorMode::Off => 0,
        MonitorMode::Activity => 1,
        MonitorMode::Silence => 2,
        MonitorMode::Command => 3,
    }
}

/// The mode at picker position `i`; positions past the end mean `Off`.
pub open spec fn mode_at(i: int) -> MonitorMode {
    if i == 1 {
        MonitorMode::Activity
    } else if i == 2 {
        MonitorMode::Silence
    } else if i == 3 {
        MonitorMode::Command
    } else {
        MonitorMode::Off
    }
}

/// The mode that follows `m` when cycling.
pub open spec fn next_mode(m: MonitorMode) -> MonitorMode {
    mode_at(((mode_index(m) + 1) % 4) as int)
}

/// The untranslated label of a mode.
pub open spec fn mode_name(m: MonitorMode) -> Seq<char> {
    match m {
        MonitorMode::Off => "Off"@,
        MonitorMode::Activity => "Activity"@,
        MonitorMode::Silence => "Silence"@,
        MonitorMode::Command => "Command finished"@,
    }
}

/// Number of modes offered by the picker.
pub const MODE_COUNT: u32 = 4;

impl MonitorMode {
    /// Every mode, in picker order.
    pub fn all() -> (v: Vec<MonitorMode>)
        ensures
            v@.len() == MODE_COUNT,
            forall|i: int| 0 <= i < v@.len() ==> v@[i] == mode_at(i),
    {
        let mut v: Vec<MonitorMode> = Vec::new();
        v.push(MonitorMode::Off);
        v.push(MonitorMode::Activity);
        v.push(MonitorMode::Silence);
        v.push(MonitorMode::Command);
        v
    }

    /// The next mode when the user cycles a session: Off, Activity, Silence,
    /// Command, then back to Off.
    pub fn next(self) -> (m: MonitorMode)
        ensures
            m == next_mode(self),
    {
        match self {
            MonitorMode::Off => MonitorMode::Activity,
            MonitorMode::Activity => MonitorMode::Silence,
            MonitorMode::Silence => MonitorMode::Command,
            MonitorMode::Command => MonitorMode::Off,
        }
    }

    /// The label shown for this mode, before translation.
    pub fn display_name(self) -> (s: &'static str)
        ensures
            s@ == mode_name(self),
    {
        match self {
            MonitorMode::Off => "Off",
            MonitorMode::Activity => "Activity",
            MonitorMode::Silence => "Silence",
            MonitorMode::Command => "Command finished",
        }
    }
}

impl Default for MonitorMode {
    fn default() -> (m: MonitorMode)
        ensures
            m == MonitorMode::Off,
    {
        MonitorMode::Off
    }
}

/// Labels for the mode picker, in [`MonitorMode::all`] order.
pub fn labels() -> (v: Vec<String>)
    ensures
        v@.len() == MODE_COUNT,
        forall|i: int| 0 <= i < v@.len() ==> v@[i]@ == mode_name(mode_at(i)),
{
    let modes = MonitorMode::all();
    let mut v: Vec<String> = Vec::new();
    let mut i: usize = 0;
    while i < modes.len()
        invariant
            modes@.len() == MODE_COUNT,
            forall|k: int| 0 <= k < modes@.len() ==> modes@[k] == mode_at(k),
            i <= modes@.len(),
            v@.len() == i,
            forall|k: int| 0 <= k < i ==> v@[k]@ == mode_name(mode_at(k)),
        decreases modes@.len() - i,
    {
        let name = modes[i].display_name();
        v.push(name.to_owned());
        i = i + 1;
    }
    v
}

/// The picker index showing `mode`.
pub fn index_of(mode: MonitorMode) -> (i: u32)
    ensures
        i as nat == mode_index(mode),
{
    let modes = MonitorMode::all();
    let mut i: usize = 0;
    while i < modes.len()
        invariant
            modes@.len() == MODE_COUNT,
            forall|k: int| 0 <= k < modes@.len() ==> modes@[k] == mode_at(k),
            i <= modes@.len(),
            forall|k: int| 0 <= k < i ==> mode_at(k) != mode,
        decreases modes@.len() - i,
    {
        if modes[i] == mode {
            assert(mode_index(mode_at(i as int)) == i);
            return i as u32;
        }
        i = i + 1;
    }
    // Every mode is in the list, so the search cannot fall through.
    assert(mode_at(mode_index(mode) as int) == mode);
    0
}

/// The mode at picker index `index`, or `Off` past the end.
pub fn from_index(index: u32) -> (m: MonitorMode)
    ensures
        m == mode_at(index as int),
{
    let modes = MonitorMode::all();
    if (index as usize) < modes.len() {
        modes[index as usize]
    } else {
        MonitorMode::Off
    }
}

/// The subtitle of the mode row, naming what Command mode needs.
pub fn mode_row_subtitle() -> (s: String)
    ensures
        s@ == "Command finished needs shell integration on the remote host"@,
{
    "Command finished needs shell integration on the remote host".to_owned()
}

/// Every mode survives the picker: reading back the index shown for a mode
/// gives that mode again.
pub proof fn law_index_round_trip(m: MonitorMode)
    ensures
        mode_at(mode_index(m) as int) == m,
        mode_index(m) < MODE_COUNT,
{
}

/// Cycling visits every mode and returns to the start after four steps.
pub proof fn law_cycle_returns(m: MonitorMode)
    ensures
        next_mode(next_mode(next_mode(next_mode(m)))) == m,
        next_mode(m) != m,
{
}

} // verus!
