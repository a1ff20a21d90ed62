//! The lighting state that the control surface writes and the render loop reads.

use crate::names::{ascii_bytes, ascii_upper, lemma_ascii_text_bytes, names_match, spells};
use crate::pixel::{FULL_TURN, ONE};
use vstd::prelude::*;
use vstd::string::StringSliceAdditionalSpecFns;
use vstd::utf8::is_ascii_chars;

verus! {

/// What the strip shows. The order of the variants is the numeric code of each
/// mode, from 0 upwards, and does not change.
#[derive(Clone, Copy, Debug, PartialEq, Eq, Structural)]
pub enum Mode {
    Off,
    Static,
    Rainbow,
    Sleep,
    Alarm,
    ColorChase,
    Strobe,
    Identify,
}

/// How many modes there are.
pub const MODE_COUNT: u8 = 8;

/// The length of a cycle, in milliseconds, of a mode that does not animate by time.
pub const IDLE_INTERVAL: u64 = 300_000;

impl Mode {
    /// The numeric code of this mode.
    pub open spec fn spec_code(self) -> u8 {
        match self {
            Mode::Off => 0,
            Mode::Static => 1,
            Mode::Rainbow => 2,
            Mode::Sleep => 3,
            Mode::Alarm => 4,
            Mode::ColorChase => 5,
            Mode::Strobe => 6,
            Mode::Identify => 7,
        }
    }

    /// The mode with the numeric code `code`, if there is one.
    pub open spec fn spec_from_repr(code: u8) -> Option<Mode> {
        match code {
            0 => Some(Mode::Off),
            1 => Some(Mode::Static),
            2 => Some(Mode::Rainbow),
            3 => Some(Mode::Sleep),
            4 => Some(Mode::Alarm),
            5 => Some(Mode::ColorChase),
            6 => Some(Mode::Strobe),
            7 => Some(Mode::Identify),
            _ => None,
        }
    }

    /// The name of this mode, in capitals.
    pub open spec fn spec_name(self) -> Seq<char> {
        match self {
            Mode::Off => "OFF"@,
            Mode::Static => "STATIC"@,
            Mode::Rainbow => "RAINBOW"@,
            Mode::Sleep => "SLEEP"@,
            Mode::Alarm => "ALARM"@,
            Mode::ColorChase => "COLORCHASE"@,
            Mode::Strobe => "STROBE"@,
            Mode::Identify => "IDENTIFY"@,
        }
    }

    /// The name of this mode, in small letters.
    pub open spec fn spec_plain_name(self) -> Seq<char> {
        match self {
            Mode::Off => "off"@,
            Mode::Static => "static"@,
            Mode::Rainbow => "rainbow"@,
            Mode::Sleep => "sleep"@,
            Mode::Alarm => "alarm"@,
            Mode::ColorChase => "colorchase"@,
            Mode::Strobe => "strobe"@,
            Mode::Identify => "identify"@,
        }
    }

    /// Whether the strip is redrawn at every tick in this mode.
    pub open spec fn animates(self) -> bool {
        match self {
            Mode::Off | Mode::Static | Mode::Identify => false,
            _ => true,
        }
    }

    /// The numeric code of this mode.
    pub fn code(&self) -> (c: u8)
        ensures
            c == self.spec_code(),
            c < MODE_COUNT,
    {
        match self {
            Mode::Off => 0,
            Mode::Static => 1,
            Mode::Rainbow => 2,
            Mode::Sleep => 3,
            Mode::Alarm => 4,
            Mode::ColorChase => 5,
            Mode::Strobe => 6,
            Mode::Identify => 7,
        }
    }

    /// The mode with the numeric code `code`; none for a code that no mode has.
    pub fn from_repr(code: u8) -> (m: Option<Mode>)
        ensures
            m == Mode::spec_from_repr(code),
            m is Some <==> code < MODE_COUNT,
            m matches Some(mode) ==> mode.spec_code() == code,
    {
        match code {
            0 => Some(Mode::Off),
            1 => Some(Mode::Static),
            2 => Some(Mode::Rainbow),
            3 => Some(Mode::Sleep),
            4 => Some(Mode::Alarm),
            5 => Some(Mode::ColorChase),
            6 => Some(Mode::Strobe),
            7 => Some(Mode::Identify),
            _ => None,
        }
    }

    /// The name of this mode, in capitals.
    pub fn name(&self) -> (s: &'static str)
        ensures
            s@ == self.spec_name(),
    {
        match self {
            Mode::Off => "OFF",
            Mode::Static => "STATIC",
            Mode::Rainbow => "RAINBOW",
            Mode::Sleep => "SLEEP",
            Mode::Alarm => "ALARM",
            Mode::ColorChase => "COLORCHASE",
            Mode::Strobe => "STROBE",
            Mode::Identify => "IDENTIFY",
        }
    }

    /// The name of this mode, in small letters.
    pub fn plain_name(&self) -> (s: &'static str)
        ensures
            s@ == self.spec_plain_name(),
    {
        match self {
            Mode::Off => "off",
            Mode::Static => "static",
            Mode::Rainbow => "rainbow",
            Mode::Sleep => "sleep",
            Mode::Alarm => "alarm",
            Mode::ColorChase => "colorchase",
            Mode::Strobe => "strobe",
            Mode::Identify => "identify",
        }
    }
}

impl Mode {
    /// The mode whose name `input` spells, in capitals, small letters or both,
    /// if there is one.
    pub open spec fn spec_from_name(input: &str) -> Option<Mode> {
        if spells(input, Mode::Off.spec_name()) {
            Some(Mode::Off)
        } else if spells(input, Mode::Static.spec_name()) {
            Some(Mode::Static)
        } else if spells(input, Mode::Rainbow.spec_name()) {
            Some(Mode::Rainbow)
        } else if spells(input, Mode::Sleep.spec_name()) {
            Some(Mode::Sleep)
        } else if spells(input, Mode::Alarm.spec_name()) {
            Some(Mode::Alarm)
        } else if spells(input, Mode::ColorChase.spec_name()) {
            Some(Mode::ColorChase)
        } else if spells(input, Mode::Strobe.spec_name()) {
            Some(Mode::Strobe)
        } else if spells(input, Mode::Identify.spec_name()) {
            Some(Mode::Identify)
        } else {
            None
        }
    }

    /// The mode whose name `input` spells, in whatever case; none for any other text.
    pub fn from_name(input: &str) -> (m: Option<Mode>)
        ensures
            m == Mode::spec_from_name(input),
            m matches Some(mode) ==> spells(input, mode.spec_name()),
    {
        proof {
            reveal_strlit("OFF");
            lemma_ascii_text_bytes("OFF");
            reveal_strlit("STATIC");
            lemma_ascii_text_bytes("STATIC");
            reveal_strlit("RAINBOW");
            lemma_ascii_text_bytes("RAINBOW");
            reveal_strlit("SLEEP");
            lemma_ascii_text_bytes("SLEEP");
            reveal_strlit("ALARM");
            lemma_ascii_text_bytes("ALARM");
            reveal_strlit("COLORCHASE");
            lemma_ascii_text_bytes("COLORCHASE");
            reveal_strlit("STROBE");
            lemma_ascii_text_bytes("STROBE");
            reveal_strlit("IDENTIFY");
            lemma_ascii_text_bytes("IDENTIFY");
        }
        if names_match(input, "OFF") {
            Some(Mode::Off)
        } else if names_match(input, "STATIC") {
            Some(Mode::Static)
        } else if names_match(input, "RAINBOW") {
            Some(Mode::Rainbow)
        } else if names_match(input, "SLEEP") {
            Some(Mode::Sleep)
        } else if names_match(input, "ALARM") {
            Some(Mode::Alarm)
        } else if names_match(input, "COLORCHASE") {
            Some(Mode::ColorChase)
        } else if names_match(input, "STROBE") {
            Some(Mode::Strobe)
        } else if names_match(input, "IDENTIFY") {
            Some(Mode::Identify)
        } else {
            None
        }
    }
}

/// The names of the modes are made of ASCII characters.
pub proof fn lemma_names_are_ascii(mode: Mode)
    ensures
        is_ascii_chars(mode.spec_name()),
        is_ascii_chars(mode.spec_plain_name()),
{
    reveal_strlit("OFF");
    reveal_strlit("STATIC");
    reveal_strlit("RAINBOW");
    reveal_strlit("SLEEP");
    reveal_strlit("ALARM");
    reveal_strlit("COLORCHASE");
    reveal_strlit("STROBE");
    reveal_strlit("IDENTIFY");
    reveal_strlit("off");
    reveal_strlit("static");
    reveal_strlit("rainbow");
    reveal_strlit("sleep");
    reveal_strlit("alarm");
    reveal_strlit("colorchase");
    reveal_strlit("strobe");
    reveal_strlit("identify");
}

/// A mode is found again by its own name, in capitals and in small letters.
pub proof fn lemma_name_round_trip(mode: Mode, input: &str)
    requires
        input@ == mode.spec_name() || input@ == mode.spec_plain_name(),
    ensures
        Mode::spec_from_name(input) == Some(mode),
{
    lemma_names_are_ascii(mode);
    lemma_ascii_text_bytes(input);
    let given = input.spec_bytes();
    reveal_strlit("OFF");
    reveal_strlit("STATIC");
    reveal_strlit("RAINBOW");
    reveal_strlit("SLEEP");
    reveal_strlit("ALARM");
    reveal_strlit("COLORCHASE");
    reveal_strlit("STROBE");
    reveal_strlit("IDENTIFY");
    reveal_strlit("off");
    reveal_strlit("static");
    reveal_strlit("rainbow");
    reveal_strlit("sleep");
    reveal_strlit("alarm");
    reveal_strlit("colorchase");
    reveal_strlit("strobe");
    reveal_strlit("identify");
    let own = ascii_bytes(mode.spec_name());
    assert(given.len() == own.len());
    assert forall|i: int| 0 <= i < given.len() implies ascii_upper(#[trigger] given[i])
        == ascii_upper(own[i]) by {}
    assert(spells(input, mode.spec_name()));
    if mode == Mode::Alarm {
        let other = ascii_bytes(Mode::Sleep.spec_name());
        assert(ascii_upper(given[0]) != ascii_upper(other[0]));
    }
    if mode == Mode::Strobe {
        let other = ascii_bytes(Mode::Static.spec_name());
        assert(ascii_upper(given[2]) != ascii_upper(other[2]));
    }
}

/// Every mode is the one that its own code stands for.
pub proof fn lemma_code_round_trip(mode: Mode)
    ensures
        Mode::spec_from_repr(mode.spec_code()) == Some(mode),
        mode.spec_code() < MODE_COUNT,
{
}

/// Two modes with the same code are the same mode.
pub proof fn lemma_code_injective(a: Mode, b: Mode)
    requires
        a.spec_code() == b.spec_code(),
    ensures
        a == b,
{
}

/// The length of one cycle, in milliseconds, that a mode has at the hue `hue`
/// (in thousandths of a degree): one second for the alarm; from 500 ms at
/// hue 0 up to 10 s at a full turn for the colour chase; from 50 ms up to
/// 1 s for the strobe; parts of a millisecond are dropped. Every other mode
/// has `IDLE_INTERVAL`.
pub open spec fn interval_for(mode: Mode, hue: int) -> int {
    match mode {
        Mode::Alarm => 1000,
        Mode::ColorChase => 500 + (9500 * hue) / (FULL_TURN as int),
        Mode::Strobe => 50 + (950 * hue) / (FULL_TURN as int),
        _ => IDLE_INTERVAL as int,
    }
}

/// Whether the length of a cycle depends on the hue in this mode.
pub open spec fn interval_follows_hue(mode: Mode) -> bool {
    mode == Mode::ColorChase || mode == Mode::Strobe
}

/// The length of one cycle of `mode` at the hue `hue`, in milliseconds.
pub fn mode_interval(mode: Mode, hue: u32) -> (ms: u64)
    ensures
        ms == interval_for(mode, hue as int),
        ms >= 50,
{
    match mode {
        Mode::Alarm => 1000,
        Mode::ColorChase => 500 + (9500 * (hue as u64)) / 360_000,
        Mode::Strobe => 50 + (950 * (hue as u64)) / 360_000,
        _ => IDLE_INTERVAL,
    }
}

/// The lighting state. Hue is in thousandths of a degree, saturation and
/// value are in units of 1/255000, times are in milliseconds.
#[derive(Clone, Copy, Debug)]
pub struct StateStruct {
    pub hue: u32,
    pub sat: u32,
    pub val: u32,
    pub mode: Mode,
    /// The length of one cycle of the animation.
    pub interval: u64,
    /// When the current mode began.
    pub start: u64,
    /// Whether the strip has to be redrawn.
    pub render: bool,
}

/// What a reader of the state gets to see.
#[derive(Clone, Copy, Debug)]
pub struct Snapshot {
    pub hue: u32,
    pub sat: u32,
    pub val: u32,
    pub mode: Mode,
    pub mode_name: &'static str,
}

impl StateStruct {
    /// What holds of a state that only `init` and the mutators have written:
    /// the hue lies within one turn, saturation and value within 0 and 1.0,
    /// and a cycle has a length.
    pub open spec fn wf(self) -> bool {
        &&& self.hue < FULL_TURN
        &&& self.sat <= ONE
        &&& self.val <= ONE
        &&& self.interval > 0
    }

    /// The state's hue, saturation, value and mode, with the mode's name.
    pub fn get_snapshot(&self) -> (snap: Snapshot)
        ensures
            snap.hue == self.hue,
            snap.sat == self.sat,
            snap.val == self.val,
            snap.mode == self.mode,
            snap.mode_name@ == self.mode.spec_name(),
    {
        Snapshot {
            hue: self.hue,
            sat: self.sat,
            val: self.val,
            mode: self.mode,
            mode_name: self.mode.name(),
        }
    }
}

/// The state at the start, at the time `now`: hue 0, full saturation and
/// value, the strip off, and a redraw pending.
pub fn init(now: u64) -> (state: StateStruct)
    ensures
        state == (StateStruct {
            hue: 0,
            sat: ONE as u32,
            val: ONE as u32,
            mode: Mode::Off,
            interval: IDLE_INTERVAL,
            start: now,
            render: true,
        }),
        state.wf(),
{
    StateStruct {
        hue: 0,
        sat: ONE as u32,
        val: ONE as u32,
        mode: Mode::Off,
        interval: IDLE_INTERVAL,
        start: now,
        render: true,
    }
}

/// A cycle always has a length; within one turn of hue it is at most ten seconds
/// for the modes whose cycle follows the hue.
pub proof fn lemma_interval_bounds(mode: Mode, hue: int)
    requires
        0 <= hue,
    ensures
        interval_for(mode, hue) >= 50,
        mode == Mode::Alarm ==> interval_for(mode, hue) == 1000,
        mode == Mode::ColorChase && hue <= FULL_TURN ==> 500 <= interval_for(mode, hue) <= 10_000,
        mode == Mode::Strobe && hue <= FULL_TURN ==> 50 <= interval_for(mode, hue) <= 1000,
        !interval_follows_hue(mode) && mode != Mode::Alarm ==> interval_for(mode, hue)
            == IDLE_INTERVAL,
{
}

} // verus!
