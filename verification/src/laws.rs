//! The engine's guarantees, stated and proved once and for all inputs:
//! display order, idempotence, invisibility transitions, hit-point deltas,
//! silent pruning, and hit-point banding.

use vstd::prelude::*;
use vstd::arithmetic::div_mod::{
    lemma_div_multiples_vanish, lemma_multiply_divide_lt, lemma_div_is_ordered, lemma_div_by_self,
};
use crate::combatant::{CombatantV, RecordV, HpBand, band_of, invis, state_of};
use crate::events::{Ev, diff_events, ev_name, field_diffs};
use crate::state::{
    EntryV, find_entry, has_name, names, normalized, record_names, snapshot_events, unique_names,
};

verus! {

// ---------------------------------------------------------------------------
// Display order
// ---------------------------------------------------------------------------

/// After reconciliation the roster's display order always equals the
/// snapshot's record order, whatever the roster held before: the new
/// roster is the normalized snapshot itself, name for name.
pub proof fn law_display_order(snap: Seq<RecordV>)
    ensures
        names(normalized(snap)) == record_names(snap),
{
    assert(names(normalized(snap)) =~~= record_names(snap));
}

// ---------------------------------------------------------------------------
// Idempotence
// ---------------------------------------------------------------------------

proof fn lemma_diff_self(name: Seq<char>, c: CombatantV)
    ensures
        diff_events(Option::Some(c), name, c) == Seq::<Ev>::empty(),
{
    if !invis(c) {
        assert(field_diffs(name, c, c) =~= Seq::<Ev>::empty());
    }
}

proof fn lemma_find_in_unique(r: Seq<EntryV>, i: int)
    requires
        unique_names(names(r)),
        0 <= i < r.len(),
    ensures
        find_entry(r, r[i].name) == Option::Some(r[i].state),
    decreases i,
{
    assert(names(r)[i] == r[i].name);
    if i == 0 {
    } else {
        assert(names(r)[0] == r[0].name);
        assert(r[0].name != r[i].name);
        assert(names(r.skip(1)) =~= names(r).skip(1));
        assert(unique_names(names(r.skip(1)))) by {
            assert(forall|a: int, b: int|
                0 <= a < b < names(r).skip(1).len() ==> names(r).skip(1)[a] != names(r).skip(1)[b]);
        }
        lemma_find_in_unique(r.skip(1), i - 1);
        assert(r.skip(1)[i - 1] == r[i]);
    }
}

proof fn lemma_quiet(roster: Seq<EntryV>, snap: Seq<RecordV>)
    requires
        forall|i: int|
            0 <= i < snap.len() ==> find_entry(roster, (#[trigger] snap[i]).name)
                == Option::Some(state_of(snap[i])),
    ensures
        snapshot_events(roster, snap) == Seq::<Ev>::empty(),
    decreases snap.len(),
{
    if snap.len() > 0 {
        lemma_diff_self(snap[0].name, state_of(snap[0]));
        assert(forall|i: int|
            0 <= i < snap.skip(1).len() ==> (#[trigger] snap.skip(1)[i]) == snap[i + 1]);
        lemma_quiet(roster, snap.skip(1));
        assert(snapshot_events(roster, snap) =~= Seq::<Ev>::empty());
    }
}

/// Idempotence: reconciling a snapshot and then reconciling the very same
/// snapshot again produces no narrative events the second time, because
/// the roster then already equals the snapshot's normalized records.
pub proof fn law_idempotent(snap: Seq<RecordV>)
    requires
        unique_names(record_names(snap)),
    ensures
        snapshot_events(normalized(snap), snap) == Seq::<Ev>::empty(),
{
    law_display_order(snap);
    let norm = normalized(snap);
    assert(forall|i: int|
        0 <= i < snap.len() ==> find_entry(norm, (#[trigger] snap[i]).name) == Option::Some(
            state_of(snap[i]),
        )) by {
        assert forall|i: int| 0 <= i < snap.len() implies find_entry(
            norm,
            (#[trigger] snap[i]).name,
        ) == Option::Some(state_of(snap[i])) by {
            lemma_find_in_unique(norm, i);
            assert(norm[i].name == snap[i].name);
            assert(norm[i].state == state_of(snap[i]));
        }
    }
    lemma_quiet(norm, snap);
}

// ---------------------------------------------------------------------------
// Invisibility transitions
// ---------------------------------------------------------------------------

/// A combatant that turns from visible to invisible produces exactly one
/// disappearance event and nothing else that cycle: no field diff runs.
pub proof fn law_vanish(prior: CombatantV, name: Seq<char>, new: CombatantV)
    requires
        !invis(prior),
        invis(new),
    ensures
        diff_events(Option::Some(prior), name, new) == seq![Ev::Disappeared { name }],
{
}

// ---------------------------------------------------------------------------
// Hit-point deltas
// ---------------------------------------------------------------------------

/// When a visible combatant's hit points change, the announced delta is
/// exactly the old value minus the new one (negative for healing), the
/// announcement is the first event of the cycle, and no other event of
/// the cycle announces hit points.
pub proof fn law_hp_delta(prior: CombatantV, name: Seq<char>, new: CombatantV)
    requires
        !invis(prior),
        !invis(new),
    ensures
        prior.hp_cur != new.hp_cur ==> diff_events(Option::Some(prior), name, new)[0]
            == (Ev::HpChanged {
            name,
            delta: prior.hp_cur - new.hp_cur,
            before: prior,
            after: new,
        }),
        forall|k: int|
            0 <= k < diff_events(Option::Some(prior), name, new).len() ==> ((#[trigger] diff_events(
                Option::Some(prior),
                name,
                new,
            )[k]) matches Ev::HpChanged { delta, .. } ==> delta == prior.hp_cur - new.hp_cur),
{
    let a: Seq<Ev> = if prior.hp_cur != new.hp_cur {
        seq![
            Ev::HpChanged {
                name,
                delta: prior.hp_cur - new.hp_cur,
                before: prior,
                after: new,
            },
        ]
    } else {
        Seq::empty()
    };
    let b: Seq<Ev> = if prior.init != new.init {
        seq![Ev::InitChanged { name, from: prior.init, to: new.init }]
    } else {
        Seq::empty()
    };
    let c: Seq<Ev> = if prior.extra != new.extra {
        if !crate::text::blank(new.extra) {
            seq![Ev::TagsNow { name, tags: new.extra }]
        } else {
            seq![Ev::TagsGone { name, tags: prior.extra }]
        }
    } else {
        Seq::empty()
    };
    let d: Seq<Ev> = if !prior.turn && new.turn {
        seq![Ev::TurnStart { name }, Ev::Line { name, state: new }]
    } else {
        Seq::empty()
    };
    let evs = diff_events(Option::Some(prior), name, new);
    assert(evs == a + b + c + d);
    assert forall|k: int| 0 <= k < evs.len() implies ((#[trigger] evs[k]) matches Ev::HpChanged {
        delta,
        ..
    } ==> delta == prior.hp_cur - new.hp_cur) by {
        if k < a.len() {
            assert(evs[k] == a[k]);
        } else if k < a.len() + b.len() {
            assert(evs[k] == b[k - a.len()]);
        } else if k < a.len() + b.len() + c.len() {
            assert(evs[k] == c[k - a.len() - b.len()]);
        } else {
            assert(evs[k] == d[k - a.len() - b.len() - c.len()]);
        }
    }
}

// ---------------------------------------------------------------------------
// Silent pruning
// ---------------------------------------------------------------------------

proof fn lemma_diff_names(prior: Option<CombatantV>, name: Seq<char>, new: CombatantV)
    ensures
        forall|k: int|
            0 <= k < diff_events(prior, name, new).len() ==> ev_name(
                #[trigger] diff_events(prior, name, new)[k],
            ) == name,
{
    let evs = diff_events(prior, name, new);
    assert forall|k: int| 0 <= k < evs.len() implies ev_name(evs[k]) == name by {
        match prior {
            Option::None => {},
            Option::Some(c) => {
                if invis(c) == invis(new) && !invis(new) {
                    let a: Seq<Ev> = if c.hp_cur != new.hp_cur {
                        seq![
                            Ev::HpChanged {
                                name,
                                delta: c.hp_cur - new.hp_cur,
                                before: c,
                                after: new,
                            },
                        ]
                    } else {
                        Seq::empty()
                    };
                    let b: Seq<Ev> = if c.init != new.init {
                        seq![Ev::InitChanged { name, from: c.init, to: new.init }]
                    } else {
                        Seq::empty()
                    };
                    let cc: Seq<Ev> = if c.extra != new.extra {
                        if !crate::text::blank(new.extra) {
                            seq![Ev::TagsNow { name, tags: new.extra }]
                        } else {
                            seq![Ev::TagsGone { name, tags: c.extra }]
                        }
                    } else {
                        Seq::empty()
                    };
                    let dd: Seq<Ev> = if !c.turn && new.turn {
                        seq![Ev::TurnStart { name }, Ev::Line { name, state: new }]
                    } else {
                        Seq::empty()
                    };
                    assert(evs == a + b + cc + dd);
                    if k < a.len() {
                        assert(evs[k] == a[k]);
                    } else if k < a.len() + b.len() {
                        assert(evs[k] == b[k - a.len()]);
                    } else if k < a.len() + b.len() + cc.len() {
                        assert(evs[k] == cc[k - a.len() - b.len()]);
                    } else {
                        assert(evs[k] == dd[k - a.len() - b.len() - cc.len()]);
                    }
                }
            },
        }
    }
}

proof fn lemma_snapshot_event_names(roster: Seq<EntryV>, snap: Seq<RecordV>)
    ensures
        forall|k: int|
            0 <= k < snapshot_events(roster, snap).len() ==> record_names(snap).contains(
                ev_name(#[trigger] snapshot_events(roster, snap)[k]),
            ),
    decreases snap.len(),
{
    if snap.len() > 0 {
        let evs = snapshot_events(roster, snap);
        let head = diff_events(find_entry(roster, snap[0].name), snap[0].name, state_of(snap[0]));
        let tail = snapshot_events(roster, snap.skip(1));
        lemma_diff_names(find_entry(roster, snap[0].name), snap[0].name, state_of(snap[0]));
        lemma_snapshot_event_names(roster, snap.skip(1));
        assert forall|k: int| 0 <= k < evs.len() implies record_names(snap).contains(
            ev_name(evs[k]),
        ) by {
            if k < head.len() {
                assert(evs[k] == head[k]);
                assert(record_names(snap)[0] == snap[0].name);
            } else {
                assert(evs[k] == tail[k - head.len()]);
                assert(record_names(snap.skip(1)).contains(ev_name(tail[k - head.len()])));
                let j = choose|j: int|
                    0 <= j < record_names(snap.skip(1)).len() && record_names(snap.skip(1))[j]
                        == ev_name(tail[k - head.len()]);
                assert(record_names(snap.skip(1))[j] == snap.skip(1)[j].name);
                assert(record_names(snap)[j + 1] == snap[j + 1].name);
                assert(snap.skip(1)[j] == snap[j + 1]);
            }
        }
    }
}

/// Pruning is silent and complete: a combatant present in the roster but
/// absent by name from the new snapshot is gone from the reconciled
/// roster (both the lookup and the display order, which are one structure
/// here), and no narrative event of that cycle mentions it.
pub proof fn law_prune_silent(roster: Seq<EntryV>, snap: Seq<RecordV>, name: Seq<char>)
    requires
        has_name(roster, name),
        !record_names(snap).contains(name),
    ensures
        !has_name(normalized(snap), name),
        !names(normalized(snap)).contains(name),
        forall|k: int|
            0 <= k < snapshot_events(roster, snap).len() ==> ev_name(
                #[trigger] snapshot_events(roster, snap)[k],
            ) != name,
{
    law_display_order(snap);
    assert(!has_name(normalized(snap), name)) by {
        if has_name(normalized(snap), name) {
            let i = choose|i: int|
                0 <= i < normalized(snap).len() && normalized(snap)[i].name == name;
            assert(record_names(snap)[i] == snap[i].name);
            assert(normalized(snap)[i].name == snap[i].name);
            assert(record_names(snap).contains(name));
        }
    }
    assert(!names(normalized(snap)).contains(name)) by {
        if names(normalized(snap)).contains(name) {
            let i = choose|i: int|
                0 <= i < names(normalized(snap)).len() && names(normalized(snap))[i] == name;
            assert(record_names(snap)[i] == name);
            assert(record_names(snap).contains(name));
        }
    }
    lemma_snapshot_event_names(roster, snap);
}

// ---------------------------------------------------------------------------
// Hit-point banding
// ---------------------------------------------------------------------------

/// The banding of a non-player hit-point display: full hit points are
/// Healthy, zero is Dead, and a positive ratio under a quarter is
/// Mutilated. The truncated percentage must still be at least one for the
/// Mutilated clause: a positive ratio under one percent truncates to zero
/// and reads Dead.
pub proof fn law_hp_banding(cur: nat, max: nat)
    ensures
        cur == max && max > 0 ==> band_of(cur, max) == HpBand::Healthy,
        cur == 0 ==> band_of(cur, max) == HpBand::Dead,
        max <= cur * 100 && cur * 100 < 25 * max ==> band_of(cur, max) == HpBand::Mutilated,
{
    if max > 0 {
        if cur == max {
            lemma_div_multiples_vanish(100, max as int);
            assert((max as int * 100) / (max as int) == 100);
            assert(cur * 100 / max == 100);
        }
        if cur == 0 {
            assert(cur * 100 == 0);
            assert(cur * 100 / max == 0);
        }
        if max <= cur * 100 && cur * 100 < 25 * max {
            let p = cur * 100 / max;
            lemma_multiply_divide_lt(cur as int * 100, max as int, 25);
            assert(p < 25);
            lemma_div_is_ordered(max as int, cur as int * 100, max as int);
            lemma_div_by_self(max as int);
            assert(p >= 1);
            assert(band_of(cur, max) == HpBand::Mutilated);
        }
    }
}

} // verus!
