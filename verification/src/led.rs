//! The lights of a strip: one cell per monitored unit, and the collection that
//! orders them by position.

use crate::color::Color;
use crate::state::ServiceState;
use crate::text::str_eq;
use vstd::prelude::*;

verus! {

/// What a light holds, as plain values.
pub struct LedView {
    pub color: Color,
    pub position: nat,
    pub unit_name: Seq<char>,
    pub state: ServiceState,
}

/// One light of the strip and the unit it stands for.
#[derive(Debug, Clone)]
pub struct Led {
    color: Color,
    position: usize,
    unit_name: String,
    service_state: ServiceState,
}

/// Why an operation on a collection of lights was refused.
#[derive(Debug, Clone, Copy, PartialEq, Eq, Structural)]
pub enum LedError {
    /// The collection already holds as many lights as the strip has.
    CapacityExceeded { capacity: usize },
    /// No light stands at the position asked for.
    NotFound { position: usize },
}

impl View for Led {
    type V = LedView;

    closed spec fn view(&self) -> LedView {
        LedView {
            color: self.color,
            position: self.position as nat,
            unit_name: self.unit_name@,
            state: self.service_state,
        }
    }
}

impl LedView {
    /// A light as it is before anything is known of its unit: off, and in
    /// state `Unknown`.
    pub open spec fn fresh(position: nat, unit_name: Seq<char>) -> LedView {
        LedView { color: Color::off(), position, unit_name, state: ServiceState::Unknown }
    }

    /// The same light with another colour.
    pub open spec fn with_color(self, color: Color) -> LedView {
        LedView { color, ..self }
    }

    /// The same light in another state, and with another colour if one is
    /// given.
    pub open spec fn with_state(self, state: ServiceState, color: Option<Color>) -> LedView {
        LedView {
            state,
            color: match color {
                Some(c) => c,
                None => self.color,
            },
            ..self
        }
    }

    /// The same light switched off, its state forgotten.
    pub open spec fn cleared(self) -> LedView {
        LedView { color: Color::off(), state: ServiceState::Unknown, ..self }
    }
}

impl Led {
    /// A light at `position` for the unit `unit_name`: off, in state
    /// `Unknown`.
    pub fn new(position: usize, unit_name: String) -> (led: Led)
        ensures
            led@ == LedView::fresh(position as nat, unit_name@),
    {
        Led {
            color: Color { red: 0, green: 0, blue: 0, white: 0 },
            position,
            unit_name,
            service_state: ServiceState::Unknown,
        }
    }

    /// The colour the light shows.
    pub fn color(&self) -> (c: Color)
        ensures
            c == self@.color,
    {
        self.color
    }

    /// Gives the light another colour; nothing else changes.
    pub fn set_color(&mut self, color: Color)
        ensures
            final(self)@ == old(self)@.with_color(color),
    {
        self.color = color;
    }

    /// The light's place on the strip, counted from zero.
    pub fn position(&self) -> (p: usize)
        ensures
            p == self@.position,
    {
        self.position
    }

    /// The unit the light stands for.
    pub fn unit_name(&self) -> (name: &str)
        ensures
            name@ == self@.unit_name,
    {
        self.unit_name.as_str()
    }

    /// The state last recorded for the unit.
    pub fn service_state(&self) -> (s: ServiceState)
        ensures
            s == self@.state,
    {
        self.service_state
    }

    /// Records a state and, where a colour comes with it, the colour: both in
    /// one step. Without a colour the light keeps the one it has.
    pub fn set_service_state(&mut self, state: ServiceState, color: Option<Color>)
        ensures
            final(self)@ == old(self)@.with_state(state, color),
    {
        self.service_state = state;
        if let Some(c) = color {
            self.color = c;
        }
    }

    /// The colour's four channels in transmission order.
    pub fn to_bytes(&self) -> (b: [u8; 4])
        ensures
            b@ == self@.color.bytes(),
    {
        self.color.to_bytes()
    }

    /// Switches the light off and forgets the state.
    pub fn reset(&mut self)
        ensures
            final(self)@ == old(self)@.cleared(),
    {
        self.color = Color { red: 0, green: 0, blue: 0, white: 0 };
        self.service_state = ServiceState::Unknown;
    }
}

/// The frame for a strip of `strip_length` lights: four bytes per position in
/// ascending order, the colour of the light that stands there, zeros where
/// none does.
pub open spec fn frame_of(leds: Seq<LedView>, strip_length: nat) -> Seq<u8> {
    Seq::new(
        4 * strip_length,
        |i: int|
            if i / 4 < leds.len() {
                leds[i / 4].color.bytes()[i % 4]
            } else {
                0u8
            },
    )
}

/// The frame that darkens a strip of `strip_length` lights: all zeros.
pub open spec fn dark_frame(strip_length: nat) -> Seq<u8> {
    Seq::new(4 * strip_length, |i: int| 0u8)
}

/// Every light switched off, its state forgotten.
pub open spec fn all_cleared(leds: Seq<LedView>) -> Seq<LedView> {
    Seq::new(leds.len(), |i: int| leds[i].cleared())
}

/// Every light given the same colour.
pub open spec fn all_colored(leds: Seq<LedView>, color: Color) -> Seq<LedView> {
    Seq::new(leds.len(), |i: int| leds[i].with_color(color))
}

/// The position of the first light that stands for `unit_name`, if any.
pub open spec fn first_for_unit(leds: Seq<LedView>, unit_name: Seq<char>) -> Option<int>
    decreases leds.len(),
{
    if leds.len() == 0 {
        None
    } else if first_for_unit(leds.drop_last(), unit_name) is Some {
        first_for_unit(leds.drop_last(), unit_name)
    } else if leds.last().unit_name == unit_name {
        Some(leds.len() - 1)
    } else {
        None
    }
}

/// The lights of a strip, in the order of their positions.
#[derive(Debug)]
pub struct LedCollection {
    leds: Vec<Led>,
    capacity: usize,
}

impl View for LedCollection {
    type V = Seq<LedView>;

    closed spec fn view(&self) -> Seq<LedView> {
        Seq::new(self.leds@.len(), |i: int| self.leds@[i]@)
    }
}

impl LedCollection {
    /// How many lights the collection may hold.
    pub closed spec fn spec_capacity(&self) -> usize {
        self.capacity
    }

    /// The collection holds no more lights than it may, and each light stands
    /// at the position that it names.
    pub open spec fn wf(&self) -> bool {
        &&& self@.len() <= self.spec_capacity()
        &&& forall|i: int| 0 <= i < self@.len() ==> (#[trigger] self@[i]).position == i
    }

    /// An empty collection for a strip of `capacity` lights.
    pub fn new(capacity: usize) -> (c: LedCollection)
        ensures
            c.wf(),
            c@ == Seq::<LedView>::empty(),
            c.spec_capacity() == capacity,
    {
        let c = LedCollection { leds: Vec::new(), capacity };
        assert(c@ =~= Seq::<LedView>::empty());
        c
    }

    /// How many lights the collection may hold.
    pub fn capacity(&self) -> (n: usize)
        ensures
            n == self.spec_capacity(),
    {
        self.capacity
    }

    /// Adds a light for `unit_name` at the next free position and returns that
    /// position. A full collection refuses and stays as it is.
    pub fn add_led(&mut self, unit_name: String) -> (r: Result<usize, LedError>)
        requires
            old(self).wf(),
        ensures
            final(self).wf(),
            final(self).spec_capacity() == old(self).spec_capacity(),
            match r {
                Ok(position) => {
                    &&& old(self)@.len() < old(self).spec_capacity()
                    &&& position == old(self)@.len()
                    &&& final(self)@ == old(self)@.push(
                        LedView::fresh(position as nat, unit_name@),
                    )
                },
                Err(e) => {
                    &&& old(self)@.len() == old(self).spec_capacity()
                    &&& e == (LedError::CapacityExceeded { capacity: old(self).spec_capacity() })
                    &&& *final(self) == *old(self)
                },
            },
    {
        let position = self.leds.len();
        if position >= self.capacity {
            return Err(LedError::CapacityExceeded { capacity: self.capacity });
        }
        let ghost before = self@;
        let led = Led::new(position, unit_name);
        self.leds.push(led);
        assert(self@ =~= before.push(LedView::fresh(position as nat, unit_name@)));
        Ok(position)
    }

    /// The light at `position`, if one stands there.
    pub fn get_led(&self, position: usize) -> (r: Option<&Led>)
        ensures
            match r {
                Some(led) => position < self@.len() && led@ == self@[position as int],
                None => position >= self@.len(),
            },
    {
        if position < self.leds.len() {
            Some(&self.leds[position])
        } else {
            None
        }
    }

    /// The first light that stands for `unit_name`, if any does.
    pub fn get_led_by_unit(&self, unit_name: &str) -> (r: Option<&Led>)
        ensures
            match r {
                Some(led) => {
                    &&& first_for_unit(self@, unit_name@) is Some
                    &&& 0 <= first_for_unit(self@, unit_name@).unwrap() < self@.len()
                    &&& led@ == self@[first_for_unit(self@, unit_name@).unwrap()]
                },
                None => first_for_unit(self@, unit_name@) is None,
            },
    {
        let mut i: usize = 0;
        while i < self.leds.len()
            invariant
                i <= self.leds.len(),
                first_for_unit(self@.take(i as int), unit_name@) is None,
            decreases self.leds.len() - i,
        {
            proof {
                assert(self@.take(i + 1).drop_last() =~= self@.take(i as int));
            }
            if str_eq(self.leds[i].unit_name(), unit_name) {
                proof {
                    lemma_first_for_unit_prefix(self@, unit_name@, i + 1);
                }
                return Some(&self.leds[i]);
            }
            i += 1;
        }
        assert(self@.take(i as int) =~= self@);
        None
    }

    /// All the lights, in the order of their positions.
    pub fn leds(&self) -> (all: &[Led])
        ensures
            all@.len() == self@.len(),
            forall|i: int| 0 <= i < all@.len() ==> (#[trigger] all@[i])@ == self@[i],
    {
        self.leds.as_slice()
    }

    /// How many lights the collection holds.
    pub fn len(&self) -> (n: usize)
        ensures
            n == self@.len(),
    {
        self.leds.len()
    }

    /// Whether the collection holds no light.
    pub fn is_empty(&self) -> (b: bool)
        ensures
            b == (self@.len() == 0),
    {
        self.leds.len() == 0
    }

    /// Gives the light at `position` another colour. Without a light there,
    /// nothing changes.
    pub fn set_color(&mut self, position: usize, color: Color) -> (r: Result<(), LedError>)
        requires
            old(self).wf(),
        ensures
            final(self).wf(),
            final(self).spec_capacity() == old(self).spec_capacity(),
            match r {
                Ok(_) => {
                    &&& position < old(self)@.len()
                    &&& final(self)@ == old(self)@.update(
                        position as int,
                        old(self)@[position as int].with_color(color),
                    )
                },
                Err(e) => {
                    &&& position >= old(self)@.len()
                    &&& e == (LedError::NotFound { position })
                    &&& *final(self) == *old(self)
                },
            },
    {
        if position >= self.leds.len() {
            return Err(LedError::NotFound { position });
        }
        let ghost before = self@;
        self.leds[position].set_color(color);
        assert(self@ =~= before.update(position as int, before[position as int].with_color(color)));
        Ok(())
    }

    /// Records a state for the light at `position`, with its colour where one
    /// is given: a reader sees both or neither. Without a light there, nothing
    /// changes.
    pub fn set_state(&mut self, position: usize, state: ServiceState, color: Option<Color>) -> (r:
        Result<(), LedError>)
        requires
            old(self).wf(),
        ensures
            final(self).wf(),
            final(self).spec_capacity() == old(self).spec_capacity(),
            match r {
                Ok(_) => {
                    &&& position < old(self)@.len()
                    &&& final(self)@ == old(self)@.update(
                        position as int,
                        old(self)@[position as int].with_state(state, color),
                    )
                },
                Err(e) => {
                    &&& position >= old(self)@.len()
                    &&& e == (LedError::NotFound { position })
                    &&& *final(self) == *old(self)
                },
            },
    {
        if position >= self.leds.len() {
            return Err(LedError::NotFound { position });
        }
        let ghost before = self@;
        self.leds[position].set_service_state(state, color);
        assert(self@ =~= before.update(
            position as int,
            before[position as int].with_state(state, color),
        ));
        Ok(())
    }

    /// The frame for a strip of `strip_length` lights.
    pub fn to_buffer(&self, strip_length: usize) -> (buffer: Vec<u8>)
        requires
            self.wf(),
            strip_length * 4 <= usize::MAX,
        ensures
            buffer@ == frame_of(self@, strip_length as nat),
    {
        let mut buffer: Vec<u8> = Vec::new();
        let mut p: usize = 0;
        while p < strip_length
            invariant
                p <= strip_length,
                buffer@ == frame_of(self@, p as nat),
            decreases strip_length - p,
        {
            let ghost before = buffer@;
            if p < self.leds.len() {
                let bytes = self.leds[p].to_bytes();
                buffer.push(bytes[0]);
                buffer.push(bytes[1]);
                buffer.push(bytes[2]);
                buffer.push(bytes[3]);
            } else {
                buffer.push(0u8);
                buffer.push(0u8);
                buffer.push(0u8);
                buffer.push(0u8);
            }
            p += 1;
            assert(buffer@ =~= frame_of(self@, p as nat));
        }
        buffer
    }

    /// Gives every light the same colour.
    pub fn fill(&mut self, color: Color)
        requires
            old(self).wf(),
        ensures
            final(self).wf(),
            final(self).spec_capacity() == old(self).spec_capacity(),
            final(self)@ == all_colored(old(self)@, color),
    {
        let ghost before = self@;
        let n = self.leds.len();
        let mut i: usize = 0;
        while i < n
            invariant
                i <= n,
                n == self.leds@.len(),
                self@.len() == before.len(),
                self.spec_capacity() == old(self).spec_capacity(),
                forall|j: int| 0 <= j < i ==> (#[trigger] self.leds@[j])@ == before[j].with_color(color),
                forall|j: int| i <= j < n ==> (#[trigger] self.leds@[j])@ == before[j],
            decreases n - i,
        {
            self.leds[i].set_color(color);
            i += 1;
        }
        assert(self@ =~= all_colored(before, color));
    }

    /// Switches every light off and forgets every state.
    pub fn reset_all(&mut self)
        requires
            old(self).wf(),
        ensures
            final(self).wf(),
            final(self).spec_capacity() == old(self).spec_capacity(),
            final(self)@ == all_cleared(old(self)@),
    {
        let ghost before = self@;
        let n = self.leds.len();
        let mut i: usize = 0;
        while i < n
            invariant
                i <= n,
                n == self.leds@.len(),
                self@.len() == before.len(),
                self.spec_capacity() == old(self).spec_capacity(),
                forall|j: int| 0 <= j < i ==> (#[trigger] self.leds@[j])@ == before[j].cleared(),
                forall|j: int| i <= j < n ==> (#[trigger] self.leds@[j])@ == before[j],
            decreases n - i,
        {
            self.leds[i].reset();
            i += 1;
        }
        assert(self@ =~= all_cleared(before));
    }
}

/// A unit found among the first `n` lights is found at the same position
/// among all of them.
pub proof fn lemma_first_for_unit_prefix(leds: Seq<LedView>, unit_name: Seq<char>, n: int)
    requires
        0 <= n <= leds.len(),
        first_for_unit(leds.take(n), unit_name) is Some,
    ensures
        first_for_unit(leds, unit_name) == first_for_unit(leds.take(n), unit_name),
        0 <= first_for_unit(leds, unit_name).unwrap() < n,
        leds[first_for_unit(leds, unit_name).unwrap()].unit_name == unit_name,
    decreases leds.len() - n,
{
    lemma_first_for_unit_found(leds.take(n), unit_name);
    if n < leds.len() {
        assert(leds.take(n + 1).drop_last() =~= leds.take(n));
        lemma_first_for_unit_prefix(leds, unit_name, n + 1);
    } else {
        assert(leds.take(n) =~= leds);
    }
}

/// Where a unit is found, a light for it stands, and none stands before.
pub proof fn lemma_first_for_unit_found(leds: Seq<LedView>, unit_name: Seq<char>)
    ensures
        match first_for_unit(leds, unit_name) {
            Some(i) => {
                &&& 0 <= i < leds.len()
                &&& leds[i].unit_name == unit_name
                &&& forall|j: int| 0 <= j < i ==> (#[trigger] leds[j]).unit_name != unit_name
            },
            None => forall|j: int| 0 <= j < leds.len() ==> (#[trigger] leds[j]).unit_name != unit_name,
        },
    decreases leds.len(),
{
    if leds.len() > 0 {
        lemma_first_for_unit_found(leds.drop_last(), unit_name);
        assert forall|j: int| 0 <= j < leds.len() - 1 implies leds.drop_last()[j] == leds[j] by {}
    }
}

/// Switching everything off twice leaves what switching it off once leaves.
pub proof fn lemma_reset_idempotent(leds: Seq<LedView>)
    ensures
        all_cleared(all_cleared(leds)) == all_cleared(leds),
{
    assert(all_cleared(all_cleared(leds)) =~= all_cleared(leds));
}

/// The frame of lights that are all off is all zeros.
pub proof fn lemma_cleared_frame_is_dark(leds: Seq<LedView>, strip_length: nat)
    ensures
        frame_of(all_cleared(leds), strip_length) == dark_frame(strip_length),
{
    assert(frame_of(all_cleared(leds), strip_length) =~= dark_frame(strip_length));
}

} // verus!
