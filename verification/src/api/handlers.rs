//! Reading and changing the lighting state.
//!
//! Each operation takes the state by reference: whoever holds the state for
//! the length of a call sees each change whole or not at all.

use crate::names::{lemma_ascii_text_bytes, names_match, spells};
use crate::pixel::{canonical, canonical_hue, clamp_unit, unit, FULL_TURN, ONE};
use crate::state::{interval_follows_hue, interval_for, mode_interval, Mode, StateStruct, MODE_COUNT};
use vstd::prelude::*;

verus! {

/// One of the three components of the colour.
#[derive(Clone, Copy, Debug, PartialEq, Eq, Structural)]
pub enum HSVComponent {
    H,
    S,
    V,
}

/// What a plain reading asks for.
#[derive(Clone, Copy, Debug, PartialEq, Eq, Structural)]
pub enum PlainTarget {
    H,
    S,
    V,
    Mode,
}

/// What a plain reading gives: a component as a number, or the mode's name in
/// small letters.
#[derive(Clone, Copy, Debug)]
pub enum PlainValue {
    Number(u32),
    Name(&'static str),
}

/// A numeric code that no mode has.
#[derive(Clone, Copy, Debug, PartialEq, Eq, Structural)]
pub struct InvalidModeCode {
    pub code: u8,
}

impl HSVComponent {
    /// The name of this component.
    pub open spec fn spec_name(self) -> Seq<char> {
        match self {
            HSVComponent::H => "HUE"@,
            HSVComponent::S => "SAT"@,
            HSVComponent::V => "VAL"@,
        }
    }

    /// The name of this component.
    pub fn name(&self) -> (s: &'static str)
        ensures
            s@ == self.spec_name(),
    {
        match self {
            HSVComponent::H => "HUE",
            HSVComponent::S => "SAT",
            HSVComponent::V => "VAL",
        }
    }
}

impl HSVComponent {
    /// The component that `input` spells, with its letter `H`, `S` or `V` in
    /// either case, if there is one.
    pub open spec fn spec_from_name(input: &str) -> Option<HSVComponent> {
        if spells(input, "H"@) {
            Some(HSVComponent::H)
        } else if spells(input, "S"@) {
            Some(HSVComponent::S)
        } else if spells(input, "V"@) {
            Some(HSVComponent::V)
        } else {
            None
        }
    }

    /// The component that `input` spells; none for any other text.
    pub fn from_name(input: &str) -> (c: Option<HSVComponent>)
        ensures
            c == HSVComponent::spec_from_name(input),
    {
        proof {
            reveal_strlit("H");
            lemma_ascii_text_bytes("H");
            reveal_strlit("S");
            lemma_ascii_text_bytes("S");
            reveal_strlit("V");
            lemma_ascii_text_bytes("V");
        }
        if names_match(input, "H") {
            Some(HSVComponent::H)
        } else if names_match(input, "S") {
            Some(HSVComponent::S)
        } else if names_match(input, "V") {
            Some(HSVComponent::V)
        } else {
            None
        }
    }
}

impl PlainTarget {
    /// What `input` asks for: a component by its letter, or the mode by the
    /// word `Mode`, in whatever case; nothing for any other text.
    pub open spec fn spec_from_name(input: &str) -> Option<PlainTarget> {
        if spells(input, "H"@) {
            Some(PlainTarget::H)
        } else if spells(input, "S"@) {
            Some(PlainTarget::S)
        } else if spells(input, "V"@) {
            Some(PlainTarget::V)
        } else if spells(input, "Mode"@) {
            Some(PlainTarget::Mode)
        } else {
            None
        }
    }

    /// What `input` asks for; nothing for a text that names no target.
    pub fn from_name(input: &str) -> (t: Option<PlainTarget>)
        ensures
            t == PlainTarget::spec_from_name(input),
    {
        proof {
            reveal_strlit("H");
            lemma_ascii_text_bytes("H");
            reveal_strlit("S");
            lemma_ascii_text_bytes("S");
            reveal_strlit("V");
            lemma_ascii_text_bytes("V");
            reveal_strlit("Mode");
            lemma_ascii_text_bytes("Mode");
        }
        if names_match(input, "H") {
            Some(PlainTarget::H)
        } else if names_match(input, "S") {
            Some(PlainTarget::S)
        } else if names_match(input, "V") {
            Some(PlainTarget::V)
        } else if names_match(input, "Mode") {
            Some(PlainTarget::Mode)
        } else {
            None
        }
    }
}

/// The state after the mode `mode` was chosen at the time `now`: the cycle has
/// the length of that mode at the present hue, the mode begins now, and a
/// redraw is pending. Hue, saturation and value stay.
pub open spec fn after_set_mode(state: StateStruct, mode: Mode, now: u64) -> StateStruct {
    StateStruct {
        mode: mode,
        interval: interval_for(mode, state.hue as int) as u64,
        start: now,
        render: true,
        ..state
    }
}

/// What is stored when a component is set to `value`: a hue goes round the
/// circle into one turn, a saturation or a value is clamped to 0 and 1.0.
pub open spec fn stored_component(component: HSVComponent, value: int) -> int {
    match component {
        HSVComponent::H => canonical_hue(value),
        HSVComponent::S => unit(value),
        HSVComponent::V => unit(value),
    }
}

/// The state after a component was set to `value`: that component holds what
/// `stored_component` gives, and a redraw is pending. With a new hue the cycle
/// gets the length that the mode has at that hue, in the modes where it depends
/// on it. Mode and start stay, and so do the other two components.
pub open spec fn after_set_component(
    state: StateStruct,
    component: HSVComponent,
    value: int,
) -> StateStruct {
    let stored = stored_component(component, value) as u32;
    match component {
        HSVComponent::H => StateStruct {
            hue: stored,
            interval: if interval_follows_hue(state.mode) {
                interval_for(state.mode, stored as int) as u64
            } else {
                state.interval
            },
            render: true,
            ..state
        },
        HSVComponent::S => StateStruct { sat: stored, render: true, ..state },
        HSVComponent::V => StateStruct { val: stored, render: true, ..state },
    }
}

/// The component `component` of the state.
pub open spec fn component_of(state: StateStruct, component: HSVComponent) -> u32 {
    match component {
        HSVComponent::H => state.hue,
        HSVComponent::S => state.sat,
        HSVComponent::V => state.val,
    }
}

/// The mode of the state.
pub fn get_mode(state: &StateStruct) -> (mode: Mode)
    ensures
        mode == state.mode,
{
    state.mode
}

/// Chooses the mode `new_mode` at the time `now`, and returns it.
pub fn set_mode(new_mode: Mode, state: &mut StateStruct, now: u64) -> (mode: Mode)
    ensures
        *final(state) == after_set_mode(*old(state), new_mode, now),
        mode == new_mode,
        final(state).interval > 0,
        old(state).wf() ==> final(state).wf(),
{
    state.interval = mode_interval(new_mode, state.hue);
    state.render = true;
    state.start = now;
    state.mode = new_mode;
    new_mode
}

/// Chooses the mode with the numeric code `new_mode` at the time `now`. A code
/// that no mode has is refused, and the state stays as it is.
pub fn set_mode_int(new_mode: u8, state: &mut StateStruct, now: u64) -> (r: Result<
    Mode,
    InvalidModeCode,
>)
    ensures
        r is Ok <==> new_mode < MODE_COUNT,
        r matches Ok(mode) ==> Mode::spec_from_repr(new_mode) == Some(mode) && *final(state)
            == after_set_mode(*old(state), mode, now),
        r matches Err(e) ==> e.code == new_mode && *final(state) == *old(state),
        old(state).wf() ==> final(state).wf(),
{
    match Mode::from_repr(new_mode) {
        Some(mode) => Ok(set_mode(mode, state, now)),
        None => Err(InvalidModeCode { code: new_mode }),
    }
}

/// The component `component` of the state.
pub fn get_component(component: HSVComponent, state: &StateStruct) -> (value: u32)
    ensures
        value == component_of(*state, component),
{
    match component {
        HSVComponent::H => state.hue,
        HSVComponent::S => state.sat,
        HSVComponent::V => state.val,
    }
}

/// Sets a component to `value`, and returns what was stored: the hue taken
/// round the circle, the saturation or value clamped.
pub fn set_component(component: HSVComponent, value: i64, state: &mut StateStruct) -> (stored: u32)
    ensures
        *final(state) == after_set_component(*old(state), component, value as int),
        stored == stored_component(component, value as int),
        stored == component_of(*final(state), component),
        component == HSVComponent::H ==> stored < FULL_TURN,
        component != HSVComponent::H ==> stored <= ONE,
        old(state).wf() ==> final(state).wf(),
{
    let stored: u32 = match component {
        HSVComponent::H => {
            let hue: u32 = canonical(value) as u32;
            state.hue = hue;
            match state.mode {
                Mode::ColorChase => {
                    state.interval = mode_interval(Mode::ColorChase, hue);
                },
                Mode::Strobe => {
                    state.interval = mode_interval(Mode::Strobe, hue);
                },
                _ => {},
            }
            hue
        },
        HSVComponent::S => {
            let sat: u32 = clamp_unit(value) as u32;
            state.sat = sat;
            sat
        },
        HSVComponent::V => {
            let val: u32 = clamp_unit(value) as u32;
            state.val = val;
            val
        },
    };
    state.render = true;
    stored
}

/// Sets a component from a whole number: a hue in degrees, a saturation or a
/// value as a byte that stands for `value/255`. The result is that of
/// `set_component` at that many degrees, or at that fraction.
pub fn set_component_int(component: HSVComponent, value: i16, state: &mut StateStruct) -> (stored:
    u32)
    ensures
        *final(state) == after_set_component(*old(state), component, 1000 * (value as int)),
        stored == stored_component(component, 1000 * (value as int)),
        stored == component_of(*final(state), component),
        old(state).wf() ==> final(state).wf(),
{
    let result: i64 = match component {
        HSVComponent::H => {
            let degrees: i16 = ((value % 360) + 360) % 360;
            assert(canonical_hue(1000 * (degrees as int)) == canonical_hue(1000 * (value as int)))
                by {
                let turns: int = ((value as int) - (degrees as int)) / 360;
                assert(1000 * (value as int) == 1000 * (degrees as int) + turns * FULL_TURN);
                crate::pixel::lemma_canonical_hue_periodic(1000 * (degrees as int), turns);
            }
            1000 * (degrees as i64)
        },
        HSVComponent::S | HSVComponent::V => {
            let byte: i16 = if value < 0 {
                0
            } else if value > 255 {
                255
            } else {
                value
            };
            1000 * (byte as i64)
        },
    };
    set_component(component, result, state)
}

/// A component as a number, or the mode's name in small letters.
pub fn get_plain(target: PlainTarget, state: &StateStruct) -> (plain: PlainValue)
    ensures
        match target {
            PlainTarget::H => plain == PlainValue::Number(state.hue),
            PlainTarget::S => plain == PlainValue::Number(state.sat),
            PlainTarget::V => plain == PlainValue::Number(state.val),
            PlainTarget::Mode => plain matches PlainValue::Name(name) && name@
                == state.mode.spec_plain_name(),
        },
{
    match target {
        PlainTarget::H => PlainValue::Number(state.hue),
        PlainTarget::S => PlainValue::Number(state.sat),
        PlainTarget::V => PlainValue::Number(state.val),
        PlainTarget::Mode => PlainValue::Name(state.mode.plain_name()),
    }
}

/// The mode with the numeric code `code`, for a code below `MODE_COUNT`.
pub open spec fn mode_of_code(code: int) -> Mode {
    Mode::spec_from_repr(code as u8)->0
}

/// The name of every mode with its numeric code, in the order of the codes.
pub fn static_all_modes() -> (list: Vec<(&'static str, u8)>)
    ensures
        list@.len() == MODE_COUNT,
        forall|i: int|
            0 <= i < MODE_COUNT ==> (#[trigger] list@[i]).1 == i && list@[i].0@ == mode_of_code(
                i,
            ).spec_name(),
{
    let mut list: Vec<(&'static str, u8)> = Vec::new();
    let mut code: u8 = 0;
    while code < MODE_COUNT
        invariant
            code <= MODE_COUNT,
            list@.len() == code,
            forall|i: int|
                0 <= i < code ==> (#[trigger] list@[i]).1 == i && list@[i].0@ == mode_of_code(
                    i,
                ).spec_name(),
        decreases MODE_COUNT - code,
    {
        if let Some(mode) = Mode::from_repr(code) {
            list.push((mode.name(), code));
        }
        code = code + 1;
    }
    list
}

/// Whatever hue is set, the stored hue lies within one turn, and a hue that
/// differs by whole turns leaves the same state.
pub proof fn lemma_set_hue_periodic(state: StateStruct, value: int, turns: int)
    ensures
        after_set_component(state, HSVComponent::H, value).hue < FULL_TURN,
        after_set_component(state, HSVComponent::H, value + turns * FULL_TURN)
            == after_set_component(state, HSVComponent::H, value),
{
    crate::pixel::lemma_canonical_hue_periodic(value, turns);
}

/// A saturation or a value is stored clamped: what lies below 0 is stored as 0,
/// what lies above 1.0 as 1.0, and what lies between as it is.
pub proof fn lemma_set_level_clamped(state: StateStruct, component: HSVComponent, value: int)
    requires
        component != HSVComponent::H,
    ensures
        0 <= component_of(after_set_component(state, component, value), component) <= ONE,
        value < 0 ==> component_of(after_set_component(state, component, value), component) == 0,
        value > ONE ==> component_of(after_set_component(state, component, value), component)
            == ONE,
        0 <= value <= ONE ==> component_of(after_set_component(state, component, value), component)
            == value,
{
}

/// Choosing a mode fixes the length of the cycle whatever it was before; for
/// the alarm it is one second at every hue.
pub proof fn lemma_set_mode_interval(state: StateStruct, mode: Mode, now: u64)
    ensures
        after_set_mode(state, mode, now).interval == interval_for(mode, state.hue as int),
        after_set_mode(state, Mode::Alarm, now).interval == 1000,
        after_set_mode(state, mode, now).interval >= 50,
        after_set_mode(state, mode, now).start == now,
        after_set_mode(state, mode, now).render,
{
    crate::state::lemma_interval_bounds(mode, state.hue as int);
}

/// After a hue was set, the length of the cycle is the one that the mode has at
/// the stored hue, in the modes where it depends on the hue.
pub proof fn lemma_interval_follows_hue(state: StateStruct, value: int)
    requires
        interval_follows_hue(state.mode),
    ensures
        ({
            let after = after_set_component(state, HSVComponent::H, value);
            after.interval == interval_for(after.mode, after.hue as int)
        }),
{
    crate::pixel::lemma_canonical_hue_periodic(value, 0);
    crate::state::lemma_interval_bounds(state.mode, canonical_hue(value));
}

/// Changes of two different components do not touch each other: in either
/// order they leave the same state, and each leaves the other's component alone.
pub proof fn lemma_components_independent(
    state: StateStruct,
    a: HSVComponent,
    x: int,
    b: HSVComponent,
    y: int,
)
    requires
        a != b,
    ensures
        after_set_component(after_set_component(state, a, x), b, y) == after_set_component(
            after_set_component(state, b, y),
            a,
            x,
        ),
        component_of(after_set_component(state, a, x), b) == component_of(state, b),
{
}

/// The mutators keep a state well-formed, and make one so as far as they write it.
pub proof fn lemma_mutators_keep_wf(
    state: StateStruct,
    mode: Mode,
    now: u64,
    component: HSVComponent,
    value: int,
)
    requires
        state.wf(),
    ensures
        after_set_mode(state, mode, now).wf(),
        after_set_component(state, component, value).wf(),
{
    crate::state::lemma_interval_bounds(mode, state.hue as int);
    crate::pixel::lemma_canonical_hue_periodic(value, 0);
    crate::state::lemma_interval_bounds(state.mode, canonical_hue(value));
}

} // verus!
