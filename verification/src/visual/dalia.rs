//! Dalia-inspired geometry recipes.
//!
//! These presets are data. A native renderer consumes them directly; a
//! compatibility renderer approximates them with the same palette and movement
//! parameters.
use crate::text::same_text;
use vstd::prelude::*;

verus! {

/// What a preset draws.
#[derive(Clone, Copy, Debug, PartialEq, Eq, Structural)]
pub enum Motif {
    Orbit,
    Lissajous,
    Lattice,
    Spiral,
    Pulse,
    Ribbon,
    Shards,
    Tunnel,
    Wave,
    Bloom,
}

/// A colour of the presets' palette.
#[derive(Clone, Copy, Debug, PartialEq, Eq, Structural)]
pub enum Hue {
    Cobalt,
    Guava,
    Violet,
    Nickel,
    Mango,
}

impl Hue {
    /// Red, green and blue in thousandths.
    pub open spec fn thousandths(self) -> (u16, u16, u16) {
        match self {
            Hue::Cobalt => (102, 400, 980),
            Hue::Guava => (1_000, 270, 204),
            Hue::Violet => (560, 310, 910),
            Hue::Nickel => (710, 780, 784),
            Hue::Mango => (1_000, 690, 160),
        }
    }

    /// Red, green and blue in thousandths.
    pub fn rgb(self) -> (parts: (u16, u16, u16))
        ensures
            parts == self.thousandths(),
            parts.0 <= 1_000,
            parts.1 <= 1_000,
            parts.2 <= 1_000,
    {
        match self {
            Hue::Cobalt => (102, 400, 980),
            Hue::Guava => (1_000, 270, 204),
            Hue::Violet => (560, 310, 910),
            Hue::Nickel => (710, 780, 784),
            Hue::Mango => (1_000, 690, 160),
        }
    }
}

/// A named, deterministic starting point.
#[derive(Clone, Copy, Debug, PartialEq, Eq)]
pub struct DaliaPreset {
    pub id: &'static str,
    pub label: &'static str,
    pub motif: Motif,
    pub base: Hue,
    pub accent: Hue,
    /// How much loudness affects size, in hundredths.
    pub loudness_gain: u8,
    /// How much stereo width bends the form, in hundredths.
    pub width_gain: u8,
    /// How much spectral centroid spins the form, in hundredths.
    pub spectral_gain: u8,
}

/// How many presets there are.
pub const PRESET_COUNT: usize = 20;

/// The name under which a saved session finds a preset. Names stay as they are:
/// a session refers to an intent, not to a position in a menu.
pub open spec fn preset_id(index: int) -> Seq<char> {
    if index == 0 {
        "neta-linea"@
    } else if index == 1 {
        "neta-azotea"@
    } else if index == 2 {
        "neta-luciernaga"@
    } else if index == 3 {
        "neta-telefono"@
    } else if index == 4 {
        "neta-marea"@
    } else if index == 5 {
        "neta-barrio"@
    } else if index == 6 {
        "neta-cenit"@
    } else if index == 7 {
        "neta-bruja"@
    } else if index == 8 {
        "neta-petalo"@
    } else if index == 9 {
        "neta-eco"@
    } else if index == 10 {
        "neta-tiniebla"@
    } else if index == 11 {
        "neta-cromo"@
    } else if index == 12 {
        "neta-temblor"@
    } else if index == 13 {
        "neta-limbo"@
    } else if index == 14 {
        "neta-volador"@
    } else if index == 15 {
        "neta-peso"@
    } else if index == 16 {
        "neta-trompo"@
    } else if index == 17 {
        "neta-sombra"@
    } else if index == 18 {
        "neta-zocalo"@
    } else {
        "neta-satelite"@
    }
}

/// What the page calls a preset.
pub open spec fn preset_label(index: int) -> Seq<char> {
    if index == 0 {
        "Línea"@
    } else if index == 1 {
        "Azotea"@
    } else if index == 2 {
        "Luciérnaga"@
    } else if index == 3 {
        "Teléfono"@
    } else if index == 4 {
        "Marea"@
    } else if index == 5 {
        "Barrio"@
    } else if index == 6 {
        "Cénit"@
    } else if index == 7 {
        "Bruja"@
    } else if index == 8 {
        "Pétalo"@
    } else if index == 9 {
        "Eco"@
    } else if index == 10 {
        "Tiniebla"@
    } else if index == 11 {
        "Cromo"@
    } else if index == 12 {
        "Temblor"@
    } else if index == 13 {
        "Limbo"@
    } else if index == 14 {
        "Volador"@
    } else if index == 15 {
        "Peso"@
    } else if index == 16 {
        "Trompo"@
    } else if index == 17 {
        "Sombra"@
    } else if index == 18 {
        "Zócalo"@
    } else {
        "Satélite"@
    }
}

/// The form and the colours of a preset.
pub open spec fn preset_form(index: int) -> (Motif, Hue, Hue) {
    if index == 0 {
        (Motif::Wave, Hue::Cobalt, Hue::Nickel)
    } else if index == 1 {
        (Motif::Lattice, Hue::Cobalt, Hue::Guava)
    } else if index == 2 {
        (Motif::Orbit, Hue::Mango, Hue::Guava)
    } else if index == 3 {
        (Motif::Pulse, Hue::Violet, Hue::Nickel)
    } else if index == 4 {
        (Motif::Ribbon, Hue::Cobalt, Hue::Violet)
    } else if index == 5 {
        (Motif::Shards, Hue::Guava, Hue::Mango)
    } else if index == 6 {
        (Motif::Tunnel, Hue::Nickel, Hue::Cobalt)
    } else if index == 7 {
        (Motif::Lissajous, Hue::Violet, Hue::Guava)
    } else if index == 8 {
        (Motif::Bloom, Hue::Guava, Hue::Nickel)
    } else if index == 9 {
        (Motif::Spiral, Hue::Cobalt, Hue::Mango)
    } else if index == 10 {
        (Motif::Tunnel, Hue::Violet, Hue::Cobalt)
    } else if index == 11 {
        (Motif::Lattice, Hue::Nickel, Hue::Violet)
    } else if index == 12 {
        (Motif::Shards, Hue::Guava, Hue::Cobalt)
    } else if index == 13 {
        (Motif::Orbit, Hue::Violet, Hue::Nickel)
    } else if index == 14 {
        (Motif::Ribbon, Hue::Mango, Hue::Cobalt)
    } else if index == 15 {
        (Motif::Pulse, Hue::Guava, Hue::Violet)
    } else if index == 16 {
        (Motif::Spiral, Hue::Mango, Hue::Violet)
    } else if index == 17 {
        (Motif::Wave, Hue::Nickel, Hue::Cobalt)
    } else if index == 18 {
        (Motif::Lissajous, Hue::Guava, Hue::Mango)
    } else {
        (Motif::Bloom, Hue::Cobalt, Hue::Violet)
    }
}

/// How much loudness, width and spectrum move a preset, in hundredths.
pub open spec fn preset_gains(index: int) -> (u8, u8, u8) {
    if index == 0 {
        (24, 10, 15)
    } else if index == 1 {
        (20, 23, 11)
    } else if index == 2 {
        (33, 15, 28)
    } else if index == 3 {
        (39, 8, 18)
    } else if index == 4 {
        (26, 30, 14)
    } else if index == 5 {
        (31, 34, 22)
    } else if index == 6 {
        (19, 12, 44)
    } else if index == 7 {
        (27, 38, 29)
    } else if index == 8 {
        (41, 16, 12)
    } else if index == 9 {
        (16, 18, 41)
    } else if index == 10 {
        (22, 32, 36)
    } else if index == 11 {
        (17, 29, 20)
    } else if index == 12 {
        (46, 42, 9)
    } else if index == 13 {
        (12, 41, 31)
    } else if index == 14 {
        (29, 35, 25)
    } else if index == 15 {
        (50, 6, 7)
    } else if index == 16 {
        (21, 27, 50)
    } else if index == 17 {
        (14, 19, 23)
    } else if index == 18 {
        (35, 39, 18)
    } else {
        (28, 26, 39)
    }
}

impl DaliaPreset {
    /// Whether this is the preset at a place of the table.
    pub open spec fn is_at(self, index: int) -> bool {
        &&& self.id@ == preset_id(index)
        &&& self.label@ == preset_label(index)
        &&& (self.motif, self.base, self.accent) == preset_form(index)
        &&& (self.loudness_gain, self.width_gain, self.spectral_gain) == preset_gains(index)
    }
}

/// One row of the table.
fn row(
    id: &'static str,
    label: &'static str,
    form: (Motif, Hue, Hue),
    gains: (u8, u8, u8),
) -> (preset: DaliaPreset)
    ensures
        preset.id@ == id@,
        preset.label@ == label@,
        (preset.motif, preset.base, preset.accent) == form,
        (preset.loudness_gain, preset.width_gain, preset.spectral_gain) == gains,
{
    DaliaPreset {
        id,
        label,
        motif: form.0,
        base: form.1,
        accent: form.2,
        loudness_gain: gains.0,
        width_gain: gains.1,
        spectral_gain: gains.2,
    }
}

/// The preset at a place of the table.
pub fn preset(index: usize) -> (preset: DaliaPreset)
    requires
        index < PRESET_COUNT,
    ensures
        preset.is_at(index as int),
{
    if index == 0 {
        row("neta-linea", "Línea", (Motif::Wave, Hue::Cobalt, Hue::Nickel), (24, 10, 15))
    } else if index == 1 {
        row("neta-azotea", "Azotea", (Motif::Lattice, Hue::Cobalt, Hue::Guava), (20, 23, 11))
    } else if index == 2 {
        row("neta-luciernaga", "Luciérnaga", (Motif::Orbit, Hue::Mango, Hue::Guava), (33, 15, 28))
    } else if index == 3 {
        row("neta-telefono", "Teléfono", (Motif::Pulse, Hue::Violet, Hue::Nickel), (39, 8, 18))
    } else if index == 4 {
        row("neta-marea", "Marea", (Motif::Ribbon, Hue::Cobalt, Hue::Violet), (26, 30, 14))
    } else if index == 5 {
        row("neta-barrio", "Barrio", (Motif::Shards, Hue::Guava, Hue::Mango), (31, 34, 22))
    } else if index == 6 {
        row("neta-cenit", "Cénit", (Motif::Tunnel, Hue::Nickel, Hue::Cobalt), (19, 12, 44))
    } else if index == 7 {
        row("neta-bruja", "Bruja", (Motif::Lissajous, Hue::Violet, Hue::Guava), (27, 38, 29))
    } else if index == 8 {
        row("neta-petalo", "Pétalo", (Motif::Bloom, Hue::Guava, Hue::Nickel), (41, 16, 12))
    } else if index == 9 {
        row("neta-eco", "Eco", (Motif::Spiral, Hue::Cobalt, Hue::Mango), (16, 18, 41))
    } else if index == 10 {
        row("neta-tiniebla", "Tiniebla", (Motif::Tunnel, Hue::Violet, Hue::Cobalt), (22, 32, 36))
    } else if index == 11 {
        row("neta-cromo", "Cromo", (Motif::Lattice, Hue::Nickel, Hue::Violet), (17, 29, 20))
    } else if index == 12 {
        row("neta-temblor", "Temblor", (Motif::Shards, Hue::Guava, Hue::Cobalt), (46, 42, 9))
    } else if index == 13 {
        row("neta-limbo", "Limbo", (Motif::Orbit, Hue::Violet, Hue::Nickel), (12, 41, 31))
    } else if index == 14 {
        row("neta-volador", "Volador", (Motif::Ribbon, Hue::Mango, Hue::Cobalt), (29, 35, 25))
    } else if index == 15 {
        row("neta-peso", "Peso", (Motif::Pulse, Hue::Guava, Hue::Violet), (50, 6, 7))
    } else if index == 16 {
        row("neta-trompo", "Trompo", (Motif::Spiral, Hue::Mango, Hue::Violet), (21, 27, 50))
    } else if index == 17 {
        row("neta-sombra", "Sombra", (Motif::Wave, Hue::Nickel, Hue::Cobalt), (14, 19, 23))
    } else if index == 18 {
        row("neta-zocalo", "Zócalo", (Motif::Lissajous, Hue::Guava, Hue::Mango), (35, 39, 18))
    } else {
        row("neta-satelite", "Satélite", (Motif::Bloom, Hue::Cobalt, Hue::Violet), (28, 26, 39))
    }
}

/// Twenty named, deterministic starting points.
pub fn presets() -> (table: Vec<DaliaPreset>)
    ensures
        table@.len() == PRESET_COUNT,
        forall|i: int| 0 <= i < PRESET_COUNT ==> (#[trigger] table@[i]).is_at(i),
{
    let mut table: Vec<DaliaPreset> = Vec::with_capacity(PRESET_COUNT);
    while table.len() < PRESET_COUNT
        invariant
            table@.len() <= PRESET_COUNT,
            forall|i: int| 0 <= i < table@.len() ==> (#[trigger] table@[i]).is_at(i),
        decreases PRESET_COUNT - table@.len(),
    {
        let next = preset(table.len());
        table.push(next);
    }
    table
}

/// The preset with a name, if there is one.
pub fn by_id(id: &str) -> (found: Option<DaliaPreset>)
    ensures
        match found {
            Some(preset) => exists|index: int|
                0 <= index < PRESET_COUNT && preset_id(index) == id@ && #[trigger] preset.is_at(
                    index,
                ),
            None => forall|index: int| 0 <= index < PRESET_COUNT ==> #[trigger] preset_id(index) != id@,
        },
{
    let mut index: usize = 0;
    while index < PRESET_COUNT
        invariant
            index <= PRESET_COUNT,
            forall|i: int| 0 <= i < index ==> #[trigger] preset_id(i) != id@,
        decreases PRESET_COUNT - index,
    {
        let candidate = preset(index);
        if same_text(candidate.id, id) {
            assert(candidate.is_at(index as int));
            return Some(candidate);
        }
        index = index + 1;
    }
    None
}

/// No two presets share a name, so a name finds the preset that it was saved
/// for.
pub proof fn preset_ids_are_distinct(one: int, other: int)
    requires
        0 <= one < PRESET_COUNT,
        0 <= other < PRESET_COUNT,
    ensures
        (preset_id(one) == preset_id(other)) == (one == other),
{
    reveal_strlit("neta-linea");
    reveal_strlit("neta-azotea");
    reveal_strlit("neta-luciernaga");
    reveal_strlit("neta-telefono");
    reveal_strlit("neta-marea");
    reveal_strlit("neta-barrio");
    reveal_strlit("neta-cenit");
    reveal_strlit("neta-bruja");
    reveal_strlit("neta-petalo");
    reveal_strlit("neta-eco");
    reveal_strlit("neta-tiniebla");
    reveal_strlit("neta-cromo");
    reveal_strlit("neta-temblor");
    reveal_strlit("neta-limbo");
    reveal_strlit("neta-volador");
    reveal_strlit("neta-peso");
    reveal_strlit("neta-trompo");
    reveal_strlit("neta-sombra");
    reveal_strlit("neta-zocalo");
    reveal_strlit("neta-satelite");
    if one != other {
        assert(fingerprint(preset_id(one)) == place_fingerprint(one));
        assert(fingerprint(preset_id(other)) == place_fingerprint(other));
    }
}

/// The length of a name and two of its letters.
spec fn fingerprint(id: Seq<char>) -> (int, char, char) {
    (id.len() as int, id[5], id[7])
}

/// The fingerprint of the name at a place.
spec fn place_fingerprint(index: int) -> (int, char, char) {
    if index == 0 {
        (10, 'l', 'n')
    } else if index == 1 {
        (11, 'a', 'o')
    } else if index == 2 {
        (15, 'l', 'c')
    } else if index == 3 {
        (13, 't', 'l')
    } else if index == 4 {
        (10, 'm', 'r')
    } else if index == 5 {
        (11, 'b', 'r')
    } else if index == 6 {
        (10, 'c', 'n')
    } else if index == 7 {
        (10, 'b', 'u')
    } else if index == 8 {
        (11, 'p', 't')
    } else if index == 9 {
        (8, 'e', 'o')
    } else if index == 10 {
        (13, 't', 'n')
    } else if index == 11 {
        (10, 'c', 'o')
    } else if index == 12 {
        (12, 't', 'm')
    } else if index == 13 {
        (10, 'l', 'm')
    } else if index == 14 {
        (12, 'v', 'l')
    } else if index == 15 {
        (9, 'p', 's')
    } else if index == 16 {
        (11, 't', 'o')
    } else if index == 17 {
        (11, 's', 'm')
    } else if index == 18 {
        (11, 'z', 'c')
    } else {
        (13, 's', 't')
    }
}

} // verus!
