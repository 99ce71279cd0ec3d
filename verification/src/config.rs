//! The configuration: which units are monitored, the strip they are shown on,
//! and the colour of each state.

use crate::color::{parse_color, Color};
use crate::color::{hex_digit_value, is_hex_text, strip_prefix};
use crate::table::{lemma_index_of, lemma_upsert_lookup, lemma_upsert_new, lookup, ColorTable};
use vstd::prelude::*;
use vstd::utf8::{encode_utf8, is_ascii_chars, is_ascii_chars_encode_utf8};

verus! {

/// One monitored unit, with the colours that it overrides.
#[derive(Debug, Clone)]
pub struct ServiceConfig {
    /// The unit's name, such as `ssh.service`.
    pub name: String,
    /// Colour texts by state name, for this unit only.
    pub states_map: ColorTable,
}

/// The strip as the configuration describes it.
#[derive(Debug, Clone)]
pub struct StripConfig {
    /// The device's bus and chip select, such as `0.0`.
    pub spidev: String,
    /// Colour channels per light.
    pub channels: u8,
    /// Lights on the strip.
    pub length: u8,
    /// Refresh frequency in hertz.
    pub hertz: u32,
    /// Colour texts by state name, for every unit.
    pub colours: ColorTable,
}

/// The whole configuration.
#[derive(Debug, Clone)]
pub struct Config {
    /// The monitored units; a unit's index is its light's position.
    pub services: Vec<ServiceConfig>,
    /// The strip.
    pub strip: StripConfig,
}

/// Why a configuration was refused.
#[derive(Debug, Clone, PartialEq, Eq)]
pub enum ConfigError {
    /// No unit is configured.
    NoServices,
    /// More units are configured than the strip has lights.
    TooManyServices { services: usize, leds: u8 },
    /// A colour text of the strip's table is no colour.
    InvalidStripColor { state: String, color: String },
    /// A colour text of a unit's own table is no colour.
    InvalidServiceColor { service: String, state: String, color: String },
}

/// Whether a text spells a colour.
pub open spec fn color_text_valid(text: Seq<char>) -> bool {
    parse_color(encode_utf8(text)) is Some
}

/// Every line of a table spells a colour.
pub open spec fn all_valid(lines: Seq<(Seq<char>, Seq<char>)>) -> bool {
    forall|i: int| 0 <= i < lines.len() ==> color_text_valid((#[trigger] lines[i]).1)
}

/// Line `i` is the first of the table that spells no colour.
pub open spec fn is_first_invalid(lines: Seq<(Seq<char>, Seq<char>)>, i: int) -> bool {
    &&& 0 <= i < lines.len()
    &&& !color_text_valid(lines[i].1)
    &&& forall|j: int| 0 <= j < i ==> color_text_valid((#[trigger] lines[j]).1)
}

/// The colour that a table gives for a state: none where the table has no
/// line for it, and none where the line's text spells no colour.
pub open spec fn table_color(lines: Seq<(Seq<char>, Seq<char>)>, state: Seq<char>) -> Option<
    Color,
> {
    match lookup(lines, state) {
        Some(text) => parse_color(encode_utf8(text)),
        None => None,
    }
}

/// The lines of the strip's table by default.
pub open spec fn default_colour_lines() -> Seq<(Seq<char>, Seq<char>)> {
    seq![
        ("active"@, "00ff0000"@),
        ("inactive"@, "01010101"@),
        ("reloading"@, "11551100"@),
        ("failed"@, "55002200"@),
        ("activating"@, "00442200"@),
        ("deactivating"@, "22440000"@),
    ]
}

/// The colour text that the strip's table holds by default for a state.
pub open spec fn default_colour_text(state: Seq<char>) -> Option<Seq<char>> {
    if state == "active"@ {
        Some("00ff0000"@)
    } else if state == "inactive"@ {
        Some("01010101"@)
    } else if state == "reloading"@ {
        Some("11551100"@)
    } else if state == "failed"@ {
        Some("55002200"@)
    } else if state == "activating"@ {
        Some("00442200"@)
    } else if state == "deactivating"@ {
        Some("22440000"@)
    } else {
        None
    }
}

/// A decimal digit or a lower-case letter from `a` to `f`.
pub open spec fn is_plain_hex_digit(c: char) -> bool {
    ('0' <= c <= '9') || ('a' <= c <= 'f')
}

/// Eight plain hexadecimal digits spell a colour.
pub proof fn lemma_plain_digits_valid(text: Seq<char>)
    requires
        text.len() == 8,
        is_plain_hex_digit(text[0]),
        is_plain_hex_digit(text[1]),
        is_plain_hex_digit(text[2]),
        is_plain_hex_digit(text[3]),
        is_plain_hex_digit(text[4]),
        is_plain_hex_digit(text[5]),
        is_plain_hex_digit(text[6]),
        is_plain_hex_digit(text[7]),
    ensures
        color_text_valid(text),
{
    assert forall|i: int| 0 <= i < text.len() implies is_plain_hex_digit(#[trigger] text[i]) by {
        if i == 0 {
        } else if i == 1 {
        } else if i == 2 {
        } else if i == 3 {
        } else if i == 4 {
        } else if i == 5 {
        } else if i == 6 {
        } else {
            assert(i == 7);
        }
    }
    assert(is_ascii_chars(text));
    is_ascii_chars_encode_utf8(text);
    let bytes = encode_utf8(text);
    assert forall|i: int| 0 <= i < bytes.len() implies hex_digit_value(#[trigger] bytes[i])
        is Some by {
        assert(is_plain_hex_digit(text[i]));
        assert(bytes[i] == text[i] as u8);
    }
    assert(is_plain_hex_digit(text[0]) && is_plain_hex_digit(text[1]));
    assert(bytes[0] == text[0] as u8 && bytes[1] == text[1] as u8);
    assert(strip_prefix(bytes) =~= bytes);
    assert(is_hex_text(bytes));
}

/// Every colour text of the default table spells a colour.
pub proof fn lemma_default_colours_valid(state: Seq<char>)
    ensures
        match default_colour_text(state) {
            Some(text) => color_text_valid(text),
            None => true,
        },
{
    reveal_strlit("00ff0000");
    reveal_strlit("01010101");
    reveal_strlit("11551100");
    reveal_strlit("55002200");
    reveal_strlit("00442200");
    reveal_strlit("22440000");
    lemma_plain_digits_valid("00ff0000"@);
    lemma_plain_digits_valid("01010101"@);
    lemma_plain_digits_valid("11551100"@);
    lemma_plain_digits_valid("55002200"@);
    lemma_plain_digits_valid("00442200"@);
    lemma_plain_digits_valid("22440000"@);
}

/// The index of the first line of `table` that spells no colour.
fn first_invalid_line(table: &ColorTable) -> (r: Option<usize>)
    ensures
        match r {
            Some(i) => is_first_invalid(table@, i as int),
            None => all_valid(table@),
        },
{
    let mut i: usize = 0;
    while i < table.len()
        invariant
            i <= table@.len(),
            forall|j: int| 0 <= j < i ==> color_text_valid((#[trigger] table@[j]).1),
        decreases table@.len() - i,
    {
        if Color::from_hex(table.color_at(i)).is_err() {
            return Some(i);
        }
        i += 1;
    }
    None
}

impl Config {
    /// At least one unit, no more units than lights, and every colour text of
    /// every table spells a colour.
    pub open spec fn valid(&self) -> bool {
        &&& 0 < self.services@.len() <= self.strip.length
        &&& all_valid(self.strip.colours@)
        &&& forall|k: int|
            0 <= k < self.services@.len() ==> all_valid((#[trigger] self.services@[k]).states_map@)
    }

    /// The colour shown for `state` by the unit at `service_index`: the unit's
    /// own, where its table gives one; else the strip's, where that table
    /// gives one; else none. An index past the last unit has no table of its
    /// own.
    pub open spec fn resolve(&self, service_index: int, state: Seq<char>) -> Option<Color> {
        let own = if 0 <= service_index < self.services@.len() {
            table_color(self.services@[service_index].states_map@, state)
        } else {
            None
        };
        if own is Some {
            own
        } else {
            table_color(self.strip.colours@, state)
        }
    }

    /// Checks the configuration. The first fault found is reported: no unit;
    /// more units than lights; the first line of the strip's table that spells
    /// no colour; the first such line of the first unit that has one.
    pub fn validate(&self) -> (r: Result<(), ConfigError>)
        ensures
            r is Ok <==> self.valid(),
            match r {
                Ok(_) => true,
                Err(ConfigError::NoServices) => self.services@.len() == 0,
                Err(ConfigError::TooManyServices { services, leds }) => {
                    &&& self.services@.len() > self.strip.length
                    &&& services == self.services@.len()
                    &&& leds == self.strip.length
                },
                Err(ConfigError::InvalidStripColor { state, color }) => {
                    &&& 0 < self.services@.len() <= self.strip.length
                    &&& exists|i: int|
                        {
                            &&& #[trigger] is_first_invalid(self.strip.colours@, i)
                            &&& state@ == self.strip.colours@[i].0
                            &&& color@ == self.strip.colours@[i].1
                        }
                },
                Err(ConfigError::InvalidServiceColor { service, state, color }) => {
                    &&& 0 < self.services@.len() <= self.strip.length
                    &&& all_valid(self.strip.colours@)
                    &&& exists|k: int, i: int|
                        {
                            &&& 0 <= k < self.services@.len()
                            &&& forall|h: int|
                                0 <= h < k ==> all_valid(
                                    (#[trigger] self.services@[h]).states_map@,
                                )
                            &&& #[trigger] is_first_invalid(self.services@[k].states_map@, i)
                            &&& service@ == self.services@[k].name@
                            &&& state@ == self.services@[k].states_map@[i].0
                            &&& color@ == self.services@[k].states_map@[i].1
                        }
                },
            },
    {
        if self.services.len() == 0 {
            return Err(ConfigError::NoServices);
        }
        if self.services.len() > self.strip.length as usize {
            return Err(
                ConfigError::TooManyServices {
                    services: self.services.len(),
                    leds: self.strip.length,
                },
            );
        }
        if let Some(i) = first_invalid_line(&self.strip.colours) {
            return Err(
                ConfigError::InvalidStripColor {
                    state: self.strip.colours.state_at(i).to_owned(),
                    color: self.strip.colours.color_at(i).to_owned(),
                },
            );
        }
        let mut k: usize = 0;
        while k < self.services.len()
            invariant
                k <= self.services@.len(),
                0 < self.services@.len() <= self.strip.length,
                all_valid(self.strip.colours@),
                forall|h: int|
                    0 <= h < k ==> all_valid((#[trigger] self.services@[h]).states_map@),
            decreases self.services@.len() - k,
        {
            let service = &self.services[k];
            if let Some(i) = first_invalid_line(&service.states_map) {
                assert(is_first_invalid(self.services@[k as int].states_map@, i as int));
                return Err(
                    ConfigError::InvalidServiceColor {
                        service: service.name.clone(),
                        state: service.states_map.state_at(i).to_owned(),
                        color: service.states_map.color_at(i).to_owned(),
                    },
                );
            }
            k += 1;
        }
        Ok(())
    }

    /// The colour shown for `state` by the unit at `service_index`, if the
    /// configuration gives one.
    pub fn get_color_for_state(&self, service_index: usize, state: &str) -> (r: Option<Color>)
        ensures
            r == self.resolve(service_index as int, state@),
    {
        if service_index < self.services.len() {
            if let Some(text) = self.services[service_index].states_map.get(state) {
                if let Ok(color) = Color::from_hex(text) {
                    return Some(color);
                }
            }
        }
        if let Some(text) = self.strip.colours.get(state) {
            match Color::from_hex(text) {
                Ok(color) => Some(color),
                Err(_) => None,
            }
        } else {
            None
        }
    }
}

impl Default for Config {
    /// One example unit on a strip of five RGBW lights, with a colour for each
    /// of the six known states.
    fn default() -> (c: Config)
        ensures
            c.services@.len() == 1,
            c.services@[0].name@ == "example.service"@,
            c.services@[0].states_map@.len() == 0,
            c.strip.spidev@ == "0.0"@,
            c.strip.channels == 4,
            c.strip.length == 5,
            c.strip.hertz == 1200,
            c.strip.colours.wf(),
            c.strip.colours@ == default_colour_lines(),
            forall|state: Seq<char>|
                lookup(c.strip.colours@, state) == #[trigger] default_colour_text(state),
            c.valid(),
    {
        let mut colours = ColorTable::new();
        let ghost t0 = colours@;
        colours.insert("active".to_owned(), "00ff0000".to_owned());
        let ghost t1 = colours@;
        colours.insert("inactive".to_owned(), "01010101".to_owned());
        let ghost t2 = colours@;
        colours.insert("reloading".to_owned(), "11551100".to_owned());
        let ghost t3 = colours@;
        colours.insert("failed".to_owned(), "55002200".to_owned());
        let ghost t4 = colours@;
        colours.insert("activating".to_owned(), "00442200".to_owned());
        let ghost t5 = colours@;
        colours.insert("deactivating".to_owned(), "22440000".to_owned());
        proof {
            reveal_strlit("active");
            reveal_strlit("inactive");
            reveal_strlit("reloading");
            reveal_strlit("failed");
            reveal_strlit("activating");
            reveal_strlit("deactivating");
            assert("active"@.len() == 6 && "active"@[0] == 'a');
            assert("inactive"@.len() == 8);
            assert("reloading"@.len() == 9);
            assert("failed"@.len() == 6 && "failed"@[0] == 'f');
            assert("activating"@.len() == 10);
            assert("deactivating"@.len() == 12);
            lemma_upsert_new(t0, "active"@, "00ff0000"@);
            lemma_upsert_new(t1, "inactive"@, "01010101"@);
            lemma_upsert_new(t2, "reloading"@, "11551100"@);
            lemma_upsert_new(t3, "failed"@, "55002200"@);
            lemma_upsert_new(t4, "activating"@, "00442200"@);
            lemma_upsert_new(t5, "deactivating"@, "22440000"@);
            assert(colours@ =~= default_colour_lines());
            assert forall|state: Seq<char>|
                lookup(colours@, state) == #[trigger] default_colour_text(state) by {
                lemma_upsert_lookup(t0, "active"@, "00ff0000"@, state);
                lemma_upsert_lookup(t1, "inactive"@, "01010101"@, state);
                lemma_upsert_lookup(t2, "reloading"@, "11551100"@, state);
                lemma_upsert_lookup(t3, "failed"@, "55002200"@, state);
                lemma_upsert_lookup(t4, "activating"@, "00442200"@, state);
                lemma_upsert_lookup(t5, "deactivating"@, "22440000"@, state);
            }
            let lines = colours@;
            assert forall|i: int| 0 <= i < lines.len() implies color_text_valid(
                (#[trigger] lines[i]).1,
            ) by {
                lemma_index_of(lines, lines[i].0);
                assert(lookup(lines, lines[i].0) == default_colour_text(lines[i].0));
                lemma_default_colours_valid(lines[i].0);
            }
        }
        let mut services: Vec<ServiceConfig> = Vec::new();
        services.push(
            ServiceConfig { name: "example.service".to_owned(), states_map: ColorTable::new() },
        );
        assert(services@[0].states_map@.len() == 0);
        Config {
            services,
            strip: StripConfig {
                spidev: "0.0".to_owned(),
                channels: 4,
                length: 5,
                hertz: 1200,
                colours,
            },
        }
    }
}

/// A colour that a unit's own table gives for a state is the one shown,
/// whatever the strip's table says.
pub proof fn lemma_override_wins(config: Config, service_index: int, state: Seq<char>)
    requires
        0 <= service_index < config.services@.len(),
        table_color(config.services@[service_index].states_map@, state) is Some,
    ensures
        config.resolve(service_index, state) == table_color(
            config.services@[service_index].states_map@,
            state,
        ),
{
}

/// Where a unit's own table gives no colour for a state, the strip's table
/// decides; where that gives none either, there is no colour.
pub proof fn lemma_default_decides(config: Config, service_index: int, state: Seq<char>)
    requires
        0 <= service_index < config.services@.len() ==> table_color(
            config.services@[service_index].states_map@,
            state,
        ) is None,
    ensures
        config.resolve(service_index, state) == table_color(config.strip.colours@, state),
        lookup(config.strip.colours@, state) is None ==> config.resolve(service_index, state)
            is None,
{
}

} // verus!
