//! The roster store and the reconciliation engine: the authoritative
//! in-memory view of the table, the snapshot diff, bootstrap, and the
//! command dispatch decisions of the driver loop.

use vstd::prelude::*;
use vstd::string::*;
use crate::combatant::{
    CombatantRecord, CombatantState, CombatantV, RecordV, combatant_line, invis, render_line,
    state_of,
};
use crate::events::{Ev, NarrativeEvent, diff_events, diff_one, events_view};
use crate::text::{
    contains_seq, nick_of, strip_first, str_eq, contains_sub, remove_first, nick_part,
};

verus! {

/// One roster slot: a combatant's name and its current state. The slot
/// order of the roster is its display order.
pub struct Entry {
    pub name: String,
    pub state: CombatantState,
}

/// Mathematical view of a roster slot.
#[verifier::ext_equal]
pub ghost struct EntryV {
    pub name: Seq<char>,
    pub state: CombatantV,
}

impl View for Entry {
    type V = EntryV;

    open spec fn view(&self) -> EntryV {
        EntryV { name: self.name@, state: self.state@ }
    }
}

// ---------------------------------------------------------------------------
// Spec-level roster operations
// ---------------------------------------------------------------------------

/// The deep view of a vector of roster slots.
pub open spec fn roster_of(v: Seq<Entry>) -> Seq<EntryV> {
    v.map_values(|e: Entry| e@)
}

/// The names of a roster, in display order.
pub open spec fn names(r: Seq<EntryV>) -> Seq<Seq<char>> {
    r.map_values(|e: EntryV| e.name)
}

/// The state stored under `name`: the first slot of that name, if any.
pub open spec fn find_entry(r: Seq<EntryV>, name: Seq<char>) -> Option<CombatantV>
    decreases r.len(),
{
    if r.len() == 0 {
        Option::None
    } else if r[0].name == name {
        Option::Some(r[0].state)
    } else {
        find_entry(r.skip(1), name)
    }
}

/// Whether some slot carries `name`.
pub open spec fn has_name(r: Seq<EntryV>, name: Seq<char>) -> bool {
    exists|i: int| 0 <= i < r.len() && r[i].name == name
}

/// No two elements are equal: names never repeat.
pub open spec fn unique_names(ns: Seq<Seq<char>>) -> bool {
    forall|i: int, j: int| 0 <= i < j < ns.len() ==> ns[i] != ns[j]
}

/// The names of a snapshot's records, in record order.
pub open spec fn record_names(snap: Seq<RecordV>) -> Seq<Seq<char>> {
    snap.map_values(|r: RecordV| r.name)
}

/// The roster a snapshot normalizes to: every record, in record order,
/// keyed by name and holding its normalized state.
pub open spec fn normalized(snap: Seq<RecordV>) -> Seq<EntryV> {
    snap.map_values(|r: RecordV| EntryV { name: r.name, state: state_of(r) })
}

/// The deep view of a vector of raw records.
pub open spec fn records_view(s: Seq<CombatantRecord>) -> Seq<RecordV> {
    s.map_values(|r: CombatantRecord| r@)
}

/// The narrative events of reconciling `snap` against `roster`: the
/// per-record diffs, in record order, each against the prior entry of the
/// record's name.
pub open spec fn snapshot_events(roster: Seq<EntryV>, snap: Seq<RecordV>) -> Seq<Ev>
    decreases snap.len(),
{
    if snap.len() == 0 {
        Seq::empty()
    } else {
        diff_events(find_entry(roster, snap[0].name), snap[0].name, state_of(snap[0]))
            + snapshot_events(roster, snap.skip(1))
    }
}

/// The deep view of a vector of outbound messages.
pub open spec fn strings_view(s: Seq<String>) -> Seq<Seq<char>> {
    s.map_values(|m: String| m@)
}

/// The display lines of the visible combatants of a roster, in display
/// order; invisible combatants are silently skipped.
pub open spec fn visible_lines(r: Seq<EntryV>) -> Seq<Seq<char>>
    decreases r.len(),
{
    if r.len() == 0 {
        Seq::empty()
    } else {
        (if invis(r[0].state) {
            Seq::empty()
        } else {
            seq![combatant_line(r[0].name, r[0].state)]
        }) + visible_lines(r.skip(1))
    }
}

/// The full-roster rendering: a header line, then one line per visible
/// combatant in display order.
pub open spec fn full_state_lines(r: Seq<EntryV>) -> Seq<Seq<char>> {
    seq!["\u{2}\u{3}04Initiative table:"@] + visible_lines(r)
}

/// The diagnostic sent to the channel when a snapshot read fails.
pub open spec fn read_failure_text(diag: Seq<char>) -> Seq<char> {
    "\u{2}\u{3}04[!!] You screwed up the spreadsheet, you idiot: "@ + diag
}

// ---------------------------------------------------------------------------
// Lemmas about spec-level roster operations
// ---------------------------------------------------------------------------

proof fn lemma_find_skip(r: Seq<EntryV>, name: Seq<char>, i: int)
    requires
        0 <= i <= r.len(),
        forall|k: int| 0 <= k < i ==> r[k].name != name,
    ensures
        find_entry(r, name) == find_entry(r.skip(i), name),
    decreases i,
{
    if i > 0 {
        lemma_find_skip(r.skip(1), name, i - 1);
        assert(r.skip(1).skip(i - 1) =~= r.skip(i));
    } else {
        assert(r.skip(0) =~= r);
    }
}

proof fn lemma_roster_of_push(v: Seq<Entry>, e: Entry)
    ensures
        roster_of(v.push(e)) == roster_of(v).push(e@),
{
    assert(roster_of(v.push(e)) =~~= roster_of(v).push(e@));
}

proof fn lemma_normalized_snoc(snap: Seq<RecordV>, r: RecordV)
    ensures
        normalized(snap.push(r)) == normalized(snap).push(
            EntryV { name: r.name, state: state_of(r) },
        ),
{
    assert(normalized(snap.push(r)) =~~= normalized(snap).push(
        EntryV { name: r.name, state: state_of(r) },
    ));
}

proof fn lemma_strings_view_push(s: Seq<String>, x: String)
    ensures
        strings_view(s.push(x)) == strings_view(s).push(x@),
{
    assert(strings_view(s.push(x)) =~~= strings_view(s).push(x@));
}

proof fn lemma_names_snoc(r: Seq<EntryV>, e: EntryV)
    ensures
        names(r.push(e)) == names(r).push(e.name),
{
    assert(names(r.push(e)) =~~= names(r).push(e.name));
}

proof fn lemma_events_view_add(a: Seq<NarrativeEvent>, b: Seq<NarrativeEvent>)
    ensures
        events_view(a + b) == events_view(a) + events_view(b),
{
    assert(events_view(a + b) =~~= events_view(a) + events_view(b));
}

proof fn lemma_names_of_normalized(snap: Seq<RecordV>)
    ensures
        names(normalized(snap)) == record_names(snap),
{
    assert(names(normalized(snap)) =~~= record_names(snap));
}

// ---------------------------------------------------------------------------
// The store and the engine
// ---------------------------------------------------------------------------

/// The engine's whole state: the roster (slots in display order) and the
/// two driver-loop flags.
pub struct State {
    /// The roster: one slot per combatant, in display order.
    pub entries: Vec<Entry>,
    /// Whether the one-time identification handshake has been sent.
    pub id: bool,
    /// Whether the bootstrap channel join has been observed.
    pub ready: bool,
}

/// What the driver loop should do with one inbound chat event.
pub enum Directive {
    /// Nothing to do.
    Nothing,
    /// Send these messages to the channel, in order.
    Send(Vec<String>),
    /// Relay this text verbatim to the channel.
    Relay(String),
    /// The bot's own join was observed: read the table and bootstrap.
    Bootstrap,
}

/// An inbound chat event, already decoded into plain values.
pub enum ChatEvent {
    /// A channel message with its text.
    Privmsg { text: String },
    /// A member joined; `prefix` is the sender prefix (nickname, possibly
    /// followed by `'!'` and host details), when the protocol supplied one.
    Join { prefix: Option<String>, chanlist: String },
    /// Anything else; ignored.
    Other,
}

impl State {
    /// The roster as a mathematical sequence of slots.
    pub open spec fn roster(self) -> Seq<EntryV> {
        roster_of(self.entries@)
    }

    /// Well-formed: no two slots share a name.
    pub open spec fn wf(self) -> bool {
        unique_names(names(self.roster()))
    }

    /// An empty roster, neither identified nor ready.
    pub fn new() -> (s: State)
        ensures
            s.roster() == Seq::<EntryV>::empty(),
            !s.id,
            !s.ready,
            s.wf(),
    {
        let s = State { entries: Vec::new(), id: false, ready: false };
        assert(s.roster() =~= Seq::<EntryV>::empty());
        assert(names(s.roster()) =~= Seq::<Seq<char>>::empty());
        s
    }

    /// Looks a name up in the roster.
    pub fn get<'a>(&'a self, name: &str) -> (r: Option<&'a CombatantState>)
        ensures
            match r {
                Option::Some(c) => find_entry(self.roster(), name@) == Option::Some(c@),
                Option::None => find_entry(self.roster(), name@) is None,
            },
    {
        let n = self.entries.len();
        let mut i: usize = 0;
        while i < n
            invariant
                n == self.entries@.len(),
                0 <= i <= n,
                forall|k: int| 0 <= k < i ==> self.roster()[k].name != name@,
            decreases n - i,
        {
            if str_eq(self.entries[i].name.as_str(), name) {
                proof {
                    lemma_find_skip(self.roster(), name@, i as int);
                    assert(self.roster().skip(i as int)[0] == self.roster()[i as int]);
                }
                return Some(&self.entries[i].state);
            }
            i += 1;
        }
        proof {
            lemma_find_skip(self.roster(), name@, n as int);
            assert(self.roster().skip(n as int) =~= Seq::<EntryV>::empty());
        }
        None
    }

    /// The combatants' names in display order.
    pub fn names_in_order(&self) -> (r: Vec<String>)
        ensures
            strings_view(r@) == names(self.roster()),
    {
        let mut r: Vec<String> = Vec::new();
        proof {
            assert(strings_view(r@) =~= names(self.roster().take(0)));
        }
        let n = self.entries.len();
        let mut i: usize = 0;
        while i < n
            invariant
                n == self.entries@.len(),
                0 <= i <= n,
                strings_view(r@) == names(self.roster().take(i as int)),
            decreases n - i,
        {
            let ghost pre = r@;
            let name = self.entries[i].name.clone();
            let ghost nv = name@;
            r.push(name);
            proof {
                assert(strings_view(r@) =~~= strings_view(pre).push(nv));
                lemma_names_snoc(self.roster().take(i as int), self.roster()[i as int]);
                assert(self.roster().take(i as int).push(self.roster()[i as int]) =~= self.roster()
                    .take(i as int + 1));
                assert(strings_view(r@) == names(self.roster().take(i as int + 1)));
            }
            i += 1;
        }
        proof {
            assert(self.roster().take(n as int) =~= self.roster());
        }
        r
    }

    /// Renders one combatant's display line, unless the combatant is
    /// invisible, in which case nothing is ever shown.
    pub fn print_combatant(&self, name: &str, c: &CombatantState) -> (r: Option<String>)
        ensures
            match r {
                Option::Some(s) => !invis(c@) && s@ == combatant_line(name@, c@),
                Option::None => invis(c@),
            },
    {
        if c.is_invisible() {
            None
        } else {
            Some(render_line(name, c))
        }
    }

    /// Renders the whole roster: the header line, then one line per
    /// visible combatant in display order.
    pub fn print_full_state(&self) -> (lines: Vec<String>)
        ensures
            strings_view(lines@) == full_state_lines(self.roster()),
    {
        let mut lines: Vec<String> = Vec::new();
        lines.push(String::from_str("\u{2}\u{3}04Initiative table:"));
        proof {
            assert(strings_view(lines@) =~~= full_state_lines(self.roster().take(0)));
        }
        let n = self.entries.len();
        let mut i: usize = 0;
        while i < n
            invariant
                n == self.entries@.len(),
                0 <= i <= n,
                strings_view(lines@) == full_state_lines(self.roster().take(i as int)),
            decreases n - i,
        {
            let e = &self.entries[i];
            let ghost r = self.roster();
            let ghost pre = lines@;
            proof {
                lemma_visible_lines_snoc(r.take(i as int), r[i as int]);
                assert(r.take(i as int).push(r[i as int]) =~= r.take(i as int + 1));
                assert(r[i as int] == e@);
            }
            if !e.state.is_invisible() {
                let line = render_line(e.name.as_str(), &e.state);
                proof {
                    lemma_strings_view_push(pre, line);
                }
                lines.push(line);
                proof {
                    assert(visible_lines(r.take(i as int + 1)) == visible_lines(r.take(i as int))
                        + seq![combatant_line(e@.name, e@.state)]);
                    assert(strings_view(lines@) == full_state_lines(r.take(i as int)).push(
                        combatant_line(e@.name, e@.state),
                    ));
                    assert(full_state_lines(r.take(i as int)).push(
                        combatant_line(e@.name, e@.state),
                    ) =~= full_state_lines(r.take(i as int + 1)));
                }
            } else {
                proof {
                    assert(visible_lines(r.take(i as int + 1)) == visible_lines(r.take(i as int))
                        + Seq::<Seq<char>>::empty());
                    assert(visible_lines(r.take(i as int)) + Seq::<Seq<char>>::empty()
                        =~= visible_lines(r.take(i as int)));
                    assert(strings_view(lines@) == full_state_lines(r.take(i as int + 1)));
                }
            }
            i += 1;
        }
        proof {
            assert(self.roster().take(n as int) =~= self.roster());
        }
        lines
    }

    /// Bootstrap: populates the empty roster from the snapshot, in record
    /// order and with no change narration, and returns the one full-table
    /// broadcast (header plus visible lines).
    pub fn on_ready(&mut self, snapshot: &Vec<CombatantRecord>) -> (lines: Vec<String>)
        requires
            old(self).roster().len() == 0,
            unique_names(record_names(records_view(snapshot@))),
        ensures
            final(self).roster() == normalized(records_view(snapshot@)),
            final(self).id == old(self).id,
            final(self).ready == old(self).ready,
            final(self).wf(),
            strings_view(lines@) == full_state_lines(final(self).roster()),
    {
        let ghost snap = records_view(snapshot@);
        proof {
            assert(self.roster() =~= normalized(snap.take(0)));
        }
        let n = snapshot.len();
        let mut i: usize = 0;
        while i < n
            invariant
                n == snapshot@.len(),
                0 <= i <= n,
                snap == records_view(snapshot@),
                self.roster() == normalized(snap.take(i as int)),
                self.id == old(self).id,
                self.ready == old(self).ready,
            decreases n - i,
        {
            let rec = &snapshot[i];
            let state = rec.to_state();
            let entry = Entry { name: rec.name.clone(), state };
            let ghost pre = self.entries@;
            proof {
                assert(records_view(snapshot@)[i as int] == snapshot@[i as int]@);
                assert(entry@ =~~= EntryV {
                    name: snap[i as int].name,
                    state: state_of(snap[i as int]),
                });
            }
            self.entries.push(entry);
            proof {
                lemma_roster_of_push(pre, entry);
                lemma_normalized_snoc(snap.take(i as int), snap[i as int]);
                assert(snap.take(i as int).push(snap[i as int]) =~= snap.take(i as int + 1));
                assert(self.roster() == normalized(snap.take(i as int + 1)));
            }
            i += 1;
        }
        proof {
            assert(snap.take(n as int) =~= snap);
            lemma_names_of_normalized(snap);
        }
        self.print_full_state()
    }

    /// Steady-state reconciliation: diffs the snapshot against the roster,
    /// replaces the roster wholesale with the snapshot's normalized records
    /// (pruning, silently, every combatant absent from the snapshot and
    /// taking over the snapshot's record order as the display order), and
    /// returns the narrative events of the per-record diffs, in record
    /// order.
    pub fn update_state(&mut self, snapshot: &Vec<CombatantRecord>) -> (events: Vec<
        NarrativeEvent,
    >)
        requires
            old(self).wf(),
            unique_names(record_names(records_view(snapshot@))),
        ensures
            final(self).roster() == normalized(records_view(snapshot@)),
            final(self).id == old(self).id,
            final(self).ready == old(self).ready,
            final(self).wf(),
            events_view(events@) == snapshot_events(old(self).roster(), records_view(snapshot@)),
    {
        let ghost snap = records_view(snapshot@);
        let ghost roster0 = self.roster();
        let mut new_entries: Vec<Entry> = Vec::new();
        let mut events: Vec<NarrativeEvent> = Vec::new();
        proof {
            assert(roster_of(new_entries@) =~= normalized(snap.take(0)));
            assert(events_view(events@) =~= snapshot_events(roster0, snap.take(0)));
        }
        let n = snapshot.len();
        let mut i: usize = 0;
        while i < n
            invariant
                n == snapshot@.len(),
                0 <= i <= n,
                snap == records_view(snapshot@),
                roster0 == self.roster(),
                *self == *old(self),
                roster_of(new_entries@) == normalized(snap.take(i as int)),
                events_view(events@) == snapshot_events(roster0, snap.take(i as int)),
            decreases n - i,
        {
            let rec = &snapshot[i];
            let new_state = rec.to_state();
            proof {
                assert(records_view(snapshot@)[i as int] == snapshot@[i as int]@);
            }
            let prior = self.get(rec.name.as_str());
            let mut evs = diff_one(prior, rec.name.as_str(), &new_state);
            let ghost pre_events = events@;
            let ghost pre_entries = new_entries@;
            let ghost evs_snapshot = evs@;
            let entry = Entry { name: rec.name.clone(), state: new_state };
            proof {
                assert(entry@ =~~= EntryV {
                    name: snap[i as int].name,
                    state: state_of(snap[i as int]),
                });
            }
            events.append(&mut evs);
            new_entries.push(entry);
            proof {
                lemma_events_view_add(pre_events, evs_snapshot);
                lemma_snapshot_events_snoc(roster0, snap.take(i as int), snap[i as int]);
                assert(snap.take(i as int).push(snap[i as int]) =~= snap.take(i as int + 1));
                assert(events_view(events@) == snapshot_events(roster0, snap.take(i as int + 1)));
                lemma_roster_of_push(pre_entries, entry);
                lemma_normalized_snoc(snap.take(i as int), snap[i as int]);
                assert(roster_of(new_entries@) == normalized(snap.take(i as int + 1)));
            }
            i += 1;
        }
        self.entries = new_entries;
        proof {
            assert(snap.take(n as int) =~= snap);
            lemma_names_of_normalized(snap);
        }
        events
    }

    /// The file-change gate: reconciliation runs only once the bootstrap
    /// join has been observed; earlier notifications are ignored entirely.
    pub fn handle_inotify(&self) -> (reconcile: bool)
        ensures
            reconcile == self.ready,
    {
        self.ready
    }

    /// The start of one scheduling turn: reports whether the one-time
    /// identification handshake still has to be sent, and records that it
    /// now has been.
    pub fn begin_turn(&mut self) -> (send_id: bool)
        ensures
            send_id == !old(self).id,
            final(self).id,
            final(self).ready == old(self).ready,
            final(self).entries == old(self).entries,
    {
        let r = !self.id;
        self.id = true;
        r
    }

    /// Command dispatch for one inbound chat event. `!table` asks for the
    /// full roster; text containing `!send ` relays the text with the first
    /// occurrence of the literal stripped; the bot's own join marks the
    /// engine ready and asks for bootstrap. Everything else is silently
    /// ignored.
    pub fn handle_irc_message(&mut self, m: &ChatEvent, own_nick: &str) -> (d: Directive)
        ensures
            final(self).entries == old(self).entries,
            final(self).id == old(self).id,
            match m {
                ChatEvent::Privmsg { text } => final(self).ready == old(self).ready && (if text@
                    == "!table"@ {
                    d matches Directive::Send(v) && strings_view(v@) == full_state_lines(
                        old(self).roster(),
                    )
                } else if contains_seq(text@, "!send "@) {
                    d matches Directive::Relay(r) && r@ == strip_first(text@, "!send "@)
                } else {
                    d is Nothing
                }),
                ChatEvent::Join { prefix, .. } => match prefix {
                    Option::Some(p) => if nick_of(p@) == own_nick@ {
                        final(self).ready && d is Bootstrap
                    } else {
                        final(self).ready == old(self).ready && d is Nothing
                    },
                    Option::None => final(self).ready == old(self).ready && d is Nothing,
                },
                ChatEvent::Other => final(self).ready == old(self).ready && d is Nothing,
            },
    {
        match m {
            ChatEvent::Privmsg { text } => {
                if str_eq(text.as_str(), "!table") {
                    Directive::Send(self.print_full_state())
                } else if contains_sub(text.as_str(), "!send ") {
                    Directive::Relay(remove_first(text.as_str(), "!send "))
                } else {
                    Directive::Nothing
                }
            },
            ChatEvent::Join { prefix, .. } => {
                match prefix {
                    Option::Some(p) => {
                        let nick = nick_part(p.as_str());
                        if str_eq(nick.as_str(), own_nick) {
                            self.ready = true;
                            Directive::Bootstrap
                        } else {
                            Directive::Nothing
                        }
                    },
                    Option::None => Directive::Nothing,
                }
            },
            ChatEvent::Other => Directive::Nothing,
        }
    }
}

/// The diagnostic message sent when a snapshot read fails; the roster is
/// left untouched in that case.
pub fn read_failure_message(diag: &str) -> (r: String)
    ensures
        r@ == read_failure_text(diag@),
{
    let r = String::from_str("\u{2}\u{3}04[!!] You screwed up the spreadsheet, you idiot: ")
        .concat(diag);
    assert(r@ =~= read_failure_text(diag@));
    r
}

/// Checks that no two records of a snapshot share a name, as the record
/// source promises; reconciliation relies on it.
pub fn snapshot_names_unique(snapshot: &Vec<CombatantRecord>) -> (r: bool)
    ensures
        r == unique_names(record_names(records_view(snapshot@))),
{
    let n = snapshot.len();
    let mut i: usize = 0;
    while i < n
        invariant
            n == snapshot@.len(),
            0 <= i <= n,
            forall|a: int, b: int|
                0 <= a < b < n && a < i ==> record_names(records_view(snapshot@))[a] != record_names(
                    records_view(snapshot@),
                )[b],
        decreases n - i,
    {
        let mut j: usize = i + 1;
        while j < n
            invariant
                n == snapshot@.len(),
                0 <= i < j <= n,
                forall|b: int|
                    i < b < j ==> record_names(records_view(snapshot@))[i as int] != record_names(
                        records_view(snapshot@),
                    )[b],
            decreases n - j,
        {
            if str_eq(snapshot[i].name.as_str(), snapshot[j].name.as_str()) {
                assert(record_names(records_view(snapshot@))[i as int] == record_names(
                    records_view(snapshot@),
                )[j as int]);
                return false;
            }
            j += 1;
        }
        i += 1;
    }
    true
}

// ---------------------------------------------------------------------------
// Structural lemmas used by the loops above
// ---------------------------------------------------------------------------

proof fn lemma_visible_lines_snoc(r: Seq<EntryV>, e: EntryV)
    ensures
        visible_lines(r.push(e)) == visible_lines(r) + (if invis(e.state) {
            Seq::<Seq<char>>::empty()
        } else {
            seq![combatant_line(e.name, e.state)]
        }),
    decreases r.len(),
{
    let t: Seq<Seq<char>> = if invis(e.state) {
        Seq::empty()
    } else {
        seq![combatant_line(e.name, e.state)]
    };
    let s = r.push(e);
    if r.len() == 0 {
        assert(s.len() == 1);
        assert(s[0] == e);
        assert(s.skip(1) =~= Seq::<EntryV>::empty());
        assert(visible_lines(s.skip(1)) == Seq::<Seq<char>>::empty());
        assert(visible_lines(s) == t + visible_lines(s.skip(1)));
        assert(t + Seq::<Seq<char>>::empty() =~= t);
        assert(visible_lines(r) == Seq::<Seq<char>>::empty());
        assert(Seq::<Seq<char>>::empty() + t =~= t);
        assert(visible_lines(s) == visible_lines(r) + t);
    } else {
        lemma_visible_lines_snoc(r.skip(1), e);
        let h: Seq<Seq<char>> = if invis(r[0].state) {
            Seq::empty()
        } else {
            seq![combatant_line(r[0].name, r[0].state)]
        };
        assert(s.skip(1) =~= r.skip(1).push(e));
        assert(s[0] == r[0]);
        assert(visible_lines(s) == h + visible_lines(s.skip(1)));
        assert(visible_lines(s.skip(1)) == visible_lines(r.skip(1)) + t);
        assert(visible_lines(r) == h + visible_lines(r.skip(1)));
        assert(h + (visible_lines(r.skip(1)) + t) =~= (h + visible_lines(r.skip(1))) + t);
        assert(visible_lines(s) == visible_lines(r) + t);
    }
}

proof fn lemma_snapshot_events_snoc(roster: Seq<EntryV>, snap: Seq<RecordV>, r: RecordV)
    ensures
        snapshot_events(roster, snap.push(r)) == snapshot_events(roster, snap) + diff_events(
            find_entry(roster, r.name),
            r.name,
            state_of(r),
        ),
    decreases snap.len(),
{
    let t = diff_events(find_entry(roster, r.name), r.name, state_of(r));
    let s = snap.push(r);
    if snap.len() == 0 {
        assert(s.len() == 1);
        assert(s[0] == r);
        assert(s.skip(1) =~= Seq::<RecordV>::empty());
        assert(snapshot_events(roster, s.skip(1)) == Seq::<Ev>::empty());
        assert(snapshot_events(roster, s) == t + snapshot_events(roster, s.skip(1)));
        assert(t + Seq::<Ev>::empty() =~= t);
        assert(snapshot_events(roster, snap) == Seq::<Ev>::empty());
        assert(Seq::<Ev>::empty() + t =~= t);
        assert(snapshot_events(roster, s) == snapshot_events(roster, snap) + t);
    } else {
        lemma_snapshot_events_snoc(roster, snap.skip(1), r);
        let h = diff_events(find_entry(roster, snap[0].name), snap[0].name, state_of(snap[0]));
        assert(s.skip(1) =~= snap.skip(1).push(r));
        assert(s[0] == snap[0]);
        assert(snapshot_events(roster, s) == h + snapshot_events(roster, s.skip(1)));
        assert(snapshot_events(roster, s.skip(1)) == snapshot_events(roster, snap.skip(1)) + t);
        assert(snapshot_events(roster, snap) == h + snapshot_events(roster, snap.skip(1)));
        assert(h + (snapshot_events(roster, snap.skip(1)) + t) =~= (h + snapshot_events(
            roster,
            snap.skip(1),
        )) + t);
        assert(snapshot_events(roster, s) == snapshot_events(roster, snap) + t);
    }
}

} // verus!
