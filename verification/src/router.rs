//! From state changes to lights: each event sets the state and the colour of
//! the light that stands for its unit.

use crate::color::Color;
use crate::config::Config;
use crate::led::{first_for_unit, frame_of, lemma_first_for_unit_found, LedCollection, LedView};
use crate::state::{state_name, ServiceState};
use crate::systemd::ServiceEvent;
use vstd::prelude::*;

verus! {

/// What became of an event.
#[derive(Debug, Clone, Copy, PartialEq, Eq, Structural)]
pub enum RouteOutcome {
    /// No light stands for the event's unit: nothing changed.
    UnknownUnit,
    /// The light at `position` took the event's state, and the colour where
    /// the configuration gives one for that state; without one it kept its
    /// colour.
    Applied { position: usize, color: Option<Color> },
}

/// The lights after the event that `unit_name` is in `state`: the first light
/// for that unit takes the state and the colour that the configuration gives
/// for its position; all others stay.
pub open spec fn routed(
    config: Config,
    leds: Seq<LedView>,
    unit_name: Seq<char>,
    state: ServiceState,
) -> Seq<LedView> {
    match first_for_unit(leds, unit_name) {
        Some(p) => leds.update(p, leds[p].with_state(state, config.resolve(p, state_name(state)))),
        None => leds,
    }
}

/// Applies an event to the lights. Nothing is read or written but the
/// configuration and the lights.
pub fn route_event(config: &Config, leds: &mut LedCollection, event: &ServiceEvent) -> (outcome:
    RouteOutcome)
    requires
        old(leds).wf(),
    ensures
        final(leds).wf(),
        final(leds).spec_capacity() == old(leds).spec_capacity(),
        final(leds)@ == routed(*config, old(leds)@, event.unit_name@, event.state),
        match outcome {
            RouteOutcome::UnknownUnit => first_for_unit(old(leds)@, event.unit_name@) is None,
            RouteOutcome::Applied { position, color } => {
                &&& first_for_unit(old(leds)@, event.unit_name@) == Some(position as int)
                &&& color == config.resolve(position as int, state_name(event.state))
            },
        },
{
    let position = match leds.get_led_by_unit(event.unit_name.as_str()) {
        Some(led) => led.position(),
        None => {
            return RouteOutcome::UnknownUnit;
        },
    };
    let color = config.get_color_for_state(position, event.state.name());
    let applied = leds.set_state(position, event.state, color);
    assert(applied is Ok);
    RouteOutcome::Applied { position, color }
}

/// An event changes no light but the one that stands for its unit, and adds
/// or removes none.
pub proof fn lemma_route_touches_one(
    config: Config,
    leds: Seq<LedView>,
    unit_name: Seq<char>,
    state: ServiceState,
    other: int,
)
    requires
        0 <= other < leds.len(),
        first_for_unit(leds, unit_name) != Some(other),
    ensures
        routed(config, leds, unit_name, state).len() == leds.len(),
        routed(config, leds, unit_name, state)[other] == leds[other],
{
    lemma_first_for_unit_found(leds, unit_name);
}

/// After an event for a unit that has a light, that light is in the event's
/// state, and shows the configured colour where there is one.
pub proof fn lemma_route_sets_state(
    config: Config,
    leds: Seq<LedView>,
    unit_name: Seq<char>,
    state: ServiceState,
)
    requires
        first_for_unit(leds, unit_name) is Some,
    ensures
        ({
            let p = first_for_unit(leds, unit_name).unwrap();
            let after = routed(config, leds, unit_name, state);
            &&& 0 <= p < leds.len()
            &&& after[p].state == state
            &&& after[p].unit_name == unit_name
            &&& after[p].position == leds[p].position
            &&& match config.resolve(p, state_name(state)) {
                Some(c) => after[p].color == c,
                None => after[p].color == leds[p].color,
            }
        }),
{
    lemma_first_for_unit_found(leds, unit_name);
}

/// In the frame after an event, the four bytes of the event's light spell the
/// configured colour, where there is one; every other byte is as it was
/// before.
pub proof fn lemma_route_frame(
    config: Config,
    leds: Seq<LedView>,
    unit_name: Seq<char>,
    state: ServiceState,
    strip_length: nat,
    i: int,
)
    requires
        0 <= i < 4 * strip_length,
    ensures
        ({
            let before = frame_of(leds, strip_length);
            let after = frame_of(routed(config, leds, unit_name, state), strip_length);
            match first_for_unit(leds, unit_name) {
                Some(p) => match config.resolve(p, state_name(state)) {
                    Some(c) => after[i] == if i / 4 == p {
                        c.bytes()[i % 4]
                    } else {
                        before[i]
                    },
                    None => after[i] == before[i],
                },
                None => after[i] == before[i],
            }
        }),
{
    lemma_first_for_unit_found(leds, unit_name);
}

} // verus!
