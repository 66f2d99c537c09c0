//! Combatant data: the raw table record, the normalized in-roster state,
//! hit-point banding, and the display formatters.

use vstd::prelude::*;
use vstd::string::*;
use crate::invisible_marker;
use crate::text::{
    blank, contains_seq, dec, pad2, is_blank, contains_sub, u64_dec, u32_pad2,
};

verus! {

/// Mathematical view of a combatant's normalized state.
#[verifier::ext_equal]
pub ghost struct CombatantV {
    pub player: bool,
    pub turn: bool,
    pub init: u32,
    pub hp_cur: u32,
    pub hp_max: u32,
    pub ac: u32,
    pub extra: Seq<char>,
}

/// The typed, normalized form of one table row, as held in the roster.
pub struct CombatantState {
    pub player: bool,
    pub turn: bool,
    pub init: u32,
    pub hp_cur: u32,
    pub hp_max: u32,
    pub ac: u32,
    pub extra: String,
}

impl View for CombatantState {
    type V = CombatantV;

    open spec fn view(&self) -> CombatantV {
        CombatantV {
            player: self.player,
            turn: self.turn,
            init: self.init,
            hp_cur: self.hp_cur,
            hp_max: self.hp_max,
            ac: self.ac,
            extra: self.extra@,
        }
    }
}

/// A combatant is invisible when its tag string contains the marker token.
pub open spec fn invis(c: CombatantV) -> bool {
    contains_seq(c.extra, invisible_marker())
}

/// Mathematical view of one raw table row.
#[verifier::ext_equal]
pub ghost struct RecordV {
    pub init: u32,
    pub turn: Seq<char>,
    pub name: Seq<char>,
    pub player: Seq<char>,
    pub hp_cur: u32,
    pub hp_max: u32,
    pub ac: u32,
    pub extra: Seq<char>,
}

/// One raw row of the source table: marker fields are still strings
/// (non-blank means true).
pub struct CombatantRecord {
    pub init: u32,
    pub turn: String,
    pub name: String,
    pub player: String,
    pub hp_cur: u32,
    pub hp_max: u32,
    pub ac: u32,
    pub extra: String,
}

impl View for CombatantRecord {
    type V = RecordV;

    open spec fn view(&self) -> RecordV {
        RecordV {
            init: self.init,
            turn: self.turn@,
            name: self.name@,
            player: self.player@,
            hp_cur: self.hp_cur,
            hp_max: self.hp_max,
            ac: self.ac,
            extra: self.extra@,
        }
    }
}

/// Normalization of a raw row: the two marker fields become booleans
/// (non-blank means set), everything else carries over.
pub open spec fn state_of(r: RecordV) -> CombatantV {
    CombatantV {
        player: !blank(r.player),
        turn: !blank(r.turn),
        init: r.init,
        hp_cur: r.hp_cur,
        hp_max: r.hp_max,
        ac: r.ac,
        extra: r.extra,
    }
}

// ---------------------------------------------------------------------------
// Hit-point banding
// ---------------------------------------------------------------------------

/// Qualitative health bands shown for non-player combatants. `Unknown`
/// covers percentages above 100 (current above maximum).
#[derive(Clone, Copy, PartialEq, Eq, Structural, Debug)]
pub enum HpBand {
    Healthy,
    Good,
    Injured,
    Bloodied,
    Mutilated,
    Dead,
    Unknown,
}

/// The band for a hit-point ratio, from the truncated percentage
/// `hp_cur * 100 / hp_max`. The Injured and Bloodied ranges overlap on
/// paper (50..=75 against 25..=51); the earlier range wins, which this
/// first-match chain preserves. A zero maximum is Dead at zero current
/// hit points and out of range otherwise.
pub open spec fn band_of(cur: nat, max: nat) -> HpBand {
    if max == 0 {
        if cur == 0 {
            HpBand::Dead
        } else {
            HpBand::Unknown
        }
    } else {
        let p = cur * 100 / max;
        if p == 100 {
            HpBand::Healthy
        } else if 75 <= p <= 100 {
            HpBand::Good
        } else if 50 <= p <= 75 {
            HpBand::Injured
        } else if 25 <= p <= 51 {
            HpBand::Bloodied
        } else if 1 <= p <= 25 {
            HpBand::Mutilated
        } else if p == 0 {
            HpBand::Dead
        } else {
            HpBand::Unknown
        }
    }
}

/// Computes the health band of `hp_cur` out of `hp_max`.
pub fn hp_band(hp_cur: u32, hp_max: u32) -> (b: HpBand)
    ensures
        b == band_of(hp_cur as nat, hp_max as nat),
{
    if hp_max == 0 {
        if hp_cur == 0 {
            HpBand::Dead
        } else {
            HpBand::Unknown
        }
    } else {
        let p: u64 = (hp_cur as u64) * 100 / (hp_max as u64);
        if p == 100 {
            HpBand::Healthy
        } else if 75 <= p && p <= 100 {
            HpBand::Good
        } else if 50 <= p && p <= 75 {
            HpBand::Injured
        } else if 25 <= p && p <= 51 {
            HpBand::Bloodied
        } else if 1 <= p && p <= 25 {
            HpBand::Mutilated
        } else if p == 0 {
            HpBand::Dead
        } else {
            HpBand::Unknown
        }
    }
}

/// The colour control code attached to each band.
pub open spec fn band_colour(b: HpBand) -> Seq<char> {
    match b {
        HpBand::Healthy => "\u{3}09"@,
        HpBand::Good => "\u{3}03"@,
        HpBand::Injured => "\u{3}10"@,
        HpBand::Bloodied => "\u{3}07"@,
        HpBand::Mutilated => "\u{3}05"@,
        HpBand::Dead => "\u{3}04"@,
        HpBand::Unknown => "\u{3}14"@,
    }
}

/// The display word for each band.
pub open spec fn band_name(b: HpBand) -> Seq<char> {
    match b {
        HpBand::Healthy => "Healthy"@,
        HpBand::Good => "Good"@,
        HpBand::Injured => "Injured"@,
        HpBand::Bloodied => "Bloodied"@,
        HpBand::Mutilated => "Mutilated"@,
        HpBand::Dead => "Dead"@,
        HpBand::Unknown => "wat"@,
    }
}

fn band_colour_str(b: HpBand) -> (r: &'static str)
    ensures
        r@ == band_colour(b),
{
    match b {
        HpBand::Healthy => "\u{3}09",
        HpBand::Good => "\u{3}03",
        HpBand::Injured => "\u{3}10",
        HpBand::Bloodied => "\u{3}07",
        HpBand::Mutilated => "\u{3}05",
        HpBand::Dead => "\u{3}04",
        HpBand::Unknown => "\u{3}14",
    }
}

fn band_name_str(b: HpBand) -> (r: &'static str)
    ensures
        r@ == band_name(b),
{
    match b {
        HpBand::Healthy => "Healthy",
        HpBand::Good => "Good",
        HpBand::Injured => "Injured",
        HpBand::Bloodied => "Bloodied",
        HpBand::Mutilated => "Mutilated",
        HpBand::Dead => "Dead",
        HpBand::Unknown => "wat",
    }
}

// ---------------------------------------------------------------------------
// Display formatters
// ---------------------------------------------------------------------------

/// The initiative glyph: a highlighted starred marker when it is this
/// combatant's turn, a plain dash otherwise, with the value zero-padded
/// to two digits.
pub open spec fn init_glyph(c: CombatantV) -> Seq<char> {
    if c.turn {
        "\u{2}\u{3}04* "@ + pad2(c.init as nat) + "\u{f}"@
    } else {
        "- "@ + pad2(c.init as nat) + "\u{f}"@
    }
}

/// The armor-class suffix, shown only for player combatants.
pub open spec fn ac_suffix(c: CombatantV) -> Seq<char> {
    if c.player {
        ", AC "@ + dec(c.ac as nat)
    } else {
        Seq::empty()
    }
}

/// The tag suffix, shown only when the tag string is not blank. The full,
/// untrimmed tag string is what gets displayed.
pub open spec fn extra_suffix(c: CombatantV) -> Seq<char> {
    if !blank(c.extra) {
        ", "@ + c.extra
    } else {
        Seq::empty()
    }
}

/// The hit-point display: exact current/maximum for players, the band
/// word for non-players, both wrapped in the band's colour code.
pub open spec fn hp_text(c: CombatantV) -> Seq<char> {
    band_colour(band_of(c.hp_cur as nat, c.hp_max as nat)) + (if c.player {
        dec(c.hp_cur as nat) + "/"@ + dec(c.hp_max as nat)
    } else {
        band_name(band_of(c.hp_cur as nat, c.hp_max as nat))
    }) + "\u{f}"@
}

/// One combatant's full display line.
pub open spec fn combatant_line(name: Seq<char>, c: CombatantV) -> Seq<char> {
    init_glyph(c) + " <\u{2}"@ + (if !c.player {
        "\u{3}07"@
    } else {
        Seq::empty()
    }) + name + "\u{f}> "@ + hp_text(c) + extra_suffix(c) + ac_suffix(c)
}

impl CombatantState {
    /// A deep copy whose view equals this one's.
    pub fn duplicate(&self) -> (r: CombatantState)
        ensures
            r@ == self@,
    {
        let r = CombatantState {
            player: self.player,
            turn: self.turn,
            init: self.init,
            hp_cur: self.hp_cur,
            hp_max: self.hp_max,
            ac: self.ac,
            extra: self.extra.clone(),
        };
        assert(r@ =~= self@);
        r
    }

    /// Whether this combatant's tags carry the invisibility marker.
    pub fn is_invisible(&self) -> (r: bool)
        ensures
            r == invis(self@),
    {
        contains_sub(self.extra.as_str(), "invisible")
    }

    /// Renders the initiative glyph.
    pub fn get_init(&self) -> (r: String)
        ensures
            r@ == init_glyph(self@),
    {
        let num = u32_pad2(self.init);
        if self.turn {
            let r = String::from_str("\u{2}\u{3}04* ").concat(num.as_str()).concat("\u{f}");
            assert(r@ =~= init_glyph(self@));
            r
        } else {
            let r = String::from_str("- ").concat(num.as_str()).concat("\u{f}");
            assert(r@ =~= init_glyph(self@));
            r
        }
    }

    /// Renders the armor-class suffix.
    pub fn get_ac(&self) -> (r: String)
        ensures
            r@ == ac_suffix(self@),
    {
        if self.player {
            let num = u64_dec(self.ac as u64);
            let r = String::from_str(", AC ").concat(num.as_str());
            assert(r@ =~= ac_suffix(self@));
            r
        } else {
            let r = String::new();
            assert(r@ =~= ac_suffix(self@));
            r
        }
    }

    /// Renders the tag suffix.
    pub fn get_extra(&self) -> (r: String)
        ensures
            r@ == extra_suffix(self@),
    {
        if !is_blank(self.extra.as_str()) {
            let r = String::from_str(", ").concat(self.extra.as_str());
            assert(r@ =~= extra_suffix(self@));
            r
        } else {
            let r = String::new();
            assert(r@ =~= extra_suffix(self@));
            r
        }
    }

    /// Renders the hit-point display.
    pub fn get_hp(&self) -> (r: String)
        ensures
            r@ == hp_text(self@),
    {
        let b = hp_band(self.hp_cur, self.hp_max);
        let colour = band_colour_str(b);
        if self.player {
            let cur = u64_dec(self.hp_cur as u64);
            let max = u64_dec(self.hp_max as u64);
            let r = String::from_str(colour)
                .concat(cur.as_str())
                .concat("/")
                .concat(max.as_str())
                .concat("\u{f}");
            assert(r@ =~= hp_text(self@));
            r
        } else {
            let r = String::from_str(colour).concat(band_name_str(b)).concat("\u{f}");
            assert(r@ =~= hp_text(self@));
            r
        }
    }
}

/// Renders one combatant's full display line.
pub fn render_line(name: &str, c: &CombatantState) -> (r: String)
    ensures
        r@ == combatant_line(name@, c@),
{
    let glyph = c.get_init();
    let hp = c.get_hp();
    let extra = c.get_extra();
    let ac = c.get_ac();
    let r = glyph
        .concat(" <\u{2}")
        .concat(if !c.player {
            "\u{3}07"
        } else {
            ""
        })
        .concat(name)
        .concat("\u{f}> ")
        .concat(hp.as_str())
        .concat(extra.as_str())
        .concat(ac.as_str());
    proof {
        reveal_strlit("");
    }
    assert(r@ =~= combatant_line(name@, c@));
    r
}

impl CombatantRecord {
    /// Normalizes this raw row into a roster state.
    pub fn to_state(&self) -> (c: CombatantState)
        ensures
            c@ == state_of(self@),
    {
        let c = CombatantState {
            player: !is_blank(self.player.as_str()),
            turn: !is_blank(self.turn.as_str()),
            init: self.init,
            hp_cur: self.hp_cur,
            hp_max: self.hp_max,
            ac: self.ac,
            extra: self.extra.clone(),
        };
        assert(c@ =~= state_of(self@));
        c
    }
}

} // verus!
