//! Narrative events: the structured outcome of diffing one snapshot record
//! against the roster's prior entry, and the rendering of each event into
//! its outbound message.

use vstd::prelude::*;
use vstd::string::*;
use crate::combatant::{
    CombatantState, CombatantV, combatant_line, hp_text, invis, render_line,
};
use crate::text::{blank, dec, int_dec, i64_dec, u64_dec, is_blank};

verus! {

/// Mathematical view of a narrative event.
#[verifier::ext_equal]
pub ghost enum Ev {
    /// A combatant without a prior entry joined, visibly.
    Joined { name: Seq<char> },
    /// A full display line for one combatant follows the announcement.
    Line { name: Seq<char>, state: CombatantV },
    /// A visible combatant became invisible.
    Disappeared { name: Seq<char> },
    /// An invisible combatant became visible.
    Appeared { name: Seq<char> },
    /// Hit points changed; `delta` is old minus new (negative for healing).
    HpChanged { name: Seq<char>, delta: int, before: CombatantV, after: CombatantV },
    /// Initiative changed.
    InitChanged { name: Seq<char>, from: u32, to: u32 },
    /// The tag string changed and the new one is not blank: it is quoted.
    TagsNow { name: Seq<char>, tags: Seq<char> },
    /// The tag string changed to a blank one: the old tags are quoted.
    TagsGone { name: Seq<char>, tags: Seq<char> },
    /// The turn flag flipped from off to on.
    TurnStart { name: Seq<char> },
}

/// One narrative event, ready to be rendered into an outbound message.
pub enum NarrativeEvent {
    Joined { name: String },
    Line { name: String, state: CombatantState },
    Disappeared { name: String },
    Appeared { name: String },
    HpChanged { name: String, delta: i64, before: CombatantState, after: CombatantState },
    InitChanged { name: String, from: u32, to: u32 },
    TagsNow { name: String, tags: String },
    TagsGone { name: String, tags: String },
    TurnStart { name: String },
}

impl View for NarrativeEvent {
    type V = Ev;

    open spec fn view(&self) -> Ev {
        match self {
            NarrativeEvent::Joined { name } => Ev::Joined { name: name@ },
            NarrativeEvent::Line { name, state } => Ev::Line { name: name@, state: state@ },
            NarrativeEvent::Disappeared { name } => Ev::Disappeared { name: name@ },
            NarrativeEvent::Appeared { name } => Ev::Appeared { name: name@ },
            NarrativeEvent::HpChanged { name, delta, before, after } => Ev::HpChanged {
                name: name@,
                delta: *delta as int,
                before: before@,
                after: after@,
            },
            NarrativeEvent::InitChanged { name, from, to } => Ev::InitChanged {
                name: name@,
                from: *from,
                to: *to,
            },
            NarrativeEvent::TagsNow { name, tags } => Ev::TagsNow { name: name@, tags: tags@ },
            NarrativeEvent::TagsGone { name, tags } => Ev::TagsGone { name: name@, tags: tags@ },
            NarrativeEvent::TurnStart { name } => Ev::TurnStart { name: name@ },
        }
    }
}

/// The deep view of a vector of narrative events.
pub open spec fn events_view(s: Seq<NarrativeEvent>) -> Seq<Ev> {
    s.map_values(|e: NarrativeEvent| e@)
}

/// The combatant a narrative event speaks of.
pub open spec fn ev_name(e: Ev) -> Seq<char> {
    match e {
        Ev::Joined { name } => name,
        Ev::Line { name, .. } => name,
        Ev::Disappeared { name } => name,
        Ev::Appeared { name } => name,
        Ev::HpChanged { name, .. } => name,
        Ev::InitChanged { name, .. } => name,
        Ev::TagsNow { name, .. } => name,
        Ev::TagsGone { name, .. } => name,
        Ev::TurnStart { name } => name,
    }
}

// ---------------------------------------------------------------------------
// The per-record diff
// ---------------------------------------------------------------------------

/// The field-by-field diff, run only when the combatant is visible in both
/// the old and the new state. The applicable branches all fire, in this
/// fixed order; they are not mutually exclusive.
pub open spec fn field_diffs(name: Seq<char>, c: CombatantV, new: CombatantV) -> Seq<Ev> {
    (if c.hp_cur != new.hp_cur {
        seq![Ev::HpChanged { name, delta: c.hp_cur - new.hp_cur, before: c, after: new }]
    } else {
        Seq::empty()
    }) + (if c.init != new.init {
        seq![Ev::InitChanged { name, from: c.init, to: new.init }]
    } else {
        Seq::empty()
    }) + (if c.extra != new.extra {
        if !blank(new.extra) {
            seq![Ev::TagsNow { name, tags: new.extra }]
        } else {
            seq![Ev::TagsGone { name, tags: c.extra }]
        }
    } else {
        Seq::empty()
    }) + (if !c.turn && new.turn {
        seq![Ev::TurnStart { name }, Ev::Line { name, state: new }]
    } else {
        Seq::empty()
    })
}

/// The narrative events for one snapshot record, given the prior roster
/// entry of the same name (if any) and the record's normalized new state.
/// An invisibility toggle in either direction suppresses the field diff
/// for that cycle; a combatant invisible on both sides is updated silently.
pub open spec fn diff_events(prior: Option<CombatantV>, name: Seq<char>, new: CombatantV) -> Seq<
    Ev,
> {
    match prior {
        Option::None => if !invis(new) {
            seq![Ev::Joined { name }, Ev::Line { name, state: new }]
        } else {
            Seq::empty()
        },
        Option::Some(c) => {
            if invis(c) != invis(new) {
                if invis(new) {
                    seq![Ev::Disappeared { name }]
                } else {
                    seq![Ev::Appeared { name }, Ev::Line { name, state: new }]
                }
            } else if invis(new) {
                Seq::empty()
            } else {
                field_diffs(name, c, new)
            }
        },
    }
}

/// Computes the narrative events for one record against its prior entry.
pub fn diff_one(prior: Option<&CombatantState>, name: &str, new: &CombatantState) -> (evs: Vec<
    NarrativeEvent,
>)
    ensures
        events_view(evs@) == diff_events(
            match prior {
                Option::Some(c) => Option::Some(c@),
                Option::None => Option::None,
            },
            name@,
            new@,
        ),
{
    let mut evs: Vec<NarrativeEvent> = Vec::new();
    match prior {
        Option::None => {
            if !new.is_invisible() {
                evs.push(NarrativeEvent::Joined { name: String::from_str(name) });
                evs.push(
                    NarrativeEvent::Line { name: String::from_str(name), state: new.duplicate() },
                );
            }
        },
        Option::Some(c) => {
            let invis_old = c.is_invisible();
            let invis_new = new.is_invisible();
            if invis_old != invis_new {
                if invis_new {
                    evs.push(NarrativeEvent::Disappeared { name: String::from_str(name) });
                } else {
                    evs.push(NarrativeEvent::Appeared { name: String::from_str(name) });
                    evs.push(
                        NarrativeEvent::Line {
                            name: String::from_str(name),
                            state: new.duplicate(),
                        },
                    );
                }
            } else if !invis_new {
                if c.hp_cur != new.hp_cur {
                    let delta: i64 = c.hp_cur as i64 - new.hp_cur as i64;
                    evs.push(
                        NarrativeEvent::HpChanged {
                            name: String::from_str(name),
                            delta,
                            before: c.duplicate(),
                            after: new.duplicate(),
                        },
                    );
                }
                if c.init != new.init {
                    evs.push(
                        NarrativeEvent::InitChanged {
                            name: String::from_str(name),
                            from: c.init,
                            to: new.init,
                        },
                    );
                }
                if !crate::text::str_eq(c.extra.as_str(), new.extra.as_str()) {
                    if !is_blank(new.extra.as_str()) {
                        evs.push(
                            NarrativeEvent::TagsNow {
                                name: String::from_str(name),
                                tags: new.extra.clone(),
                            },
                        );
                    } else {
                        evs.push(
                            NarrativeEvent::TagsGone {
                                name: String::from_str(name),
                                tags: c.extra.clone(),
                            },
                        );
                    }
                }
                if !c.turn && new.turn {
                    evs.push(NarrativeEvent::TurnStart { name: String::from_str(name) });
                    evs.push(
                        NarrativeEvent::Line {
                            name: String::from_str(name),
                            state: new.duplicate(),
                        },
                    );
                }
            }
        },
    }
    proof {
        assert(events_view(evs@) =~= diff_events(
            match prior {
                Option::Some(c) => Option::Some(c@),
                Option::None => Option::None,
            },
            name@,
            new@,
        ));
    }
    evs
}

// ---------------------------------------------------------------------------
// Rendering events into outbound messages
// ---------------------------------------------------------------------------

pub open spec fn joined_msg(name: Seq<char>) -> Seq<char> {
    "Combatant \u{2}"@ + name + "\u{f} joined the encounter!"@
}

pub open spec fn disappeared_msg(name: Seq<char>) -> Seq<char> {
    "A wild \u{2}"@ + name + "\u{f} disappeared."@
}

pub open spec fn appeared_msg(name: Seq<char>) -> Seq<char> {
    "A wild \u{2}"@ + name + "\u{f} appeared!"@
}

pub open spec fn hp_msg(name: Seq<char>, delta: int, before: CombatantV, after: CombatantV) -> Seq<
    char,
> {
    "\u{2}"@ + name + "\u{f} took \u{2}"@ + int_dec(delta) + "\u{f} points of damage! ("@ + hp_text(
        before,
    ) + " -> "@ + hp_text(after) + ")"@
}

pub open spec fn init_msg(name: Seq<char>, from: u32, to: u32) -> Seq<char> {
    "\u{2}"@ + name + "\u{f}'s initiative changed from \u{2}"@ + dec(from as nat)
        + "\u{f} to \u{2}"@ + dec(to as nat) + "\u{f}."@
}

pub open spec fn tags_now_msg(name: Seq<char>, tags: Seq<char>) -> Seq<char> {
    "\u{2}"@ + name + "\u{f} has tags: "@ + tags
}

pub open spec fn tags_gone_msg(name: Seq<char>, tags: Seq<char>) -> Seq<char> {
    "\u{2}"@ + name + "\u{f} is no longer: "@ + tags
}

pub open spec fn turn_msg(name: Seq<char>) -> Seq<char> {
    "It's now \u{2}"@ + name + "\u{f}'s turn."@
}

/// The outbound message for each narrative event.
pub open spec fn render_ev(e: Ev) -> Seq<char> {
    match e {
        Ev::Joined { name } => joined_msg(name),
        Ev::Line { name, state } => combatant_line(name, state),
        Ev::Disappeared { name } => disappeared_msg(name),
        Ev::Appeared { name } => appeared_msg(name),
        Ev::HpChanged { name, delta, before, after } => hp_msg(name, delta, before, after),
        Ev::InitChanged { name, from, to } => init_msg(name, from, to),
        Ev::TagsNow { name, tags } => tags_now_msg(name, tags),
        Ev::TagsGone { name, tags } => tags_gone_msg(name, tags),
        Ev::TurnStart { name } => turn_msg(name),
    }
}

/// Renders one narrative event into its outbound message.
pub fn render_event(e: &NarrativeEvent) -> (r: String)
    ensures
        r@ == render_ev(e@),
{
    match e {
        NarrativeEvent::Joined { name } => {
            let r = String::from_str("Combatant \u{2}").concat(name.as_str()).concat(
                "\u{f} joined the encounter!",
            );
            assert(r@ =~= render_ev(e@));
            r
        },
        NarrativeEvent::Line { name, state } => render_line(name.as_str(), state),
        NarrativeEvent::Disappeared { name } => {
            let r = String::from_str("A wild \u{2}").concat(name.as_str()).concat(
                "\u{f} disappeared.",
            );
            assert(r@ =~= render_ev(e@));
            r
        },
        NarrativeEvent::Appeared { name } => {
            let r = String::from_str("A wild \u{2}").concat(name.as_str()).concat(
                "\u{f} appeared!",
            );
            assert(r@ =~= render_ev(e@));
            r
        },
        NarrativeEvent::HpChanged { name, delta, before, after } => {
            let d = i64_dec(*delta);
            let hp_before = before.get_hp();
            let hp_after = after.get_hp();
            let r = String::from_str("\u{2}")
                .concat(name.as_str())
                .concat("\u{f} took \u{2}")
                .concat(d.as_str())
                .concat("\u{f} points of damage! (")
                .concat(hp_before.as_str())
                .concat(" -> ")
                .concat(hp_after.as_str())
                .concat(")");
            assert(r@ =~= render_ev(e@));
            r
        },
        NarrativeEvent::InitChanged { name, from, to } => {
            let f = u64_dec(*from as u64);
            let t = u64_dec(*to as u64);
            let r = String::from_str("\u{2}")
                .concat(name.as_str())
                .concat("\u{f}'s initiative changed from \u{2}")
                .concat(f.as_str())
                .concat("\u{f} to \u{2}")
                .concat(t.as_str())
                .concat("\u{f}.");
            assert(r@ =~= render_ev(e@));
            r
        },
        NarrativeEvent::TagsNow { name, tags } => {
            let r = String::from_str("\u{2}").concat(name.as_str()).concat(
                "\u{f} has tags: ",
            ).concat(tags.as_str());
            assert(r@ =~= render_ev(e@));
            r
        },
        NarrativeEvent::TagsGone { name, tags } => {
            let r = String::from_str("\u{2}").concat(name.as_str()).concat(
                "\u{f} is no longer: ",
            ).concat(tags.as_str());
            assert(r@ =~= render_ev(e@));
            r
        },
        NarrativeEvent::TurnStart { name } => {
            let r = String::from_str("It's now \u{2}").concat(name.as_str()).concat(
                "\u{f}'s turn.",
            );
            assert(r@ =~= render_ev(e@));
            r
        },
    }
}

} // verus!
