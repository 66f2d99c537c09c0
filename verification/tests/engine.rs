use inittrack::combatant::CombatantRecord;
use inittrack::events::NarrativeEvent;
use inittrack::state::{ChatEvent, Directive, State};
use inittrack::state::{read_failure_message, snapshot_names_unique};

fn rec(
    name: &str,
    init: u32,
    turn: &str,
    player: &str,
    hp_cur: u32,
    hp_max: u32,
    ac: u32,
    extra: &str,
) -> CombatantRecord {
    CombatantRecord {
        init,
        turn: String::from(turn),
        name: String::from(name),
        player: String::from(player),
        hp_cur,
        hp_max,
        ac,
        extra: String::from(extra),
    }
}

fn base_snapshot() -> Vec<CombatantRecord> {
    vec![
        rec("Orc", 12, "", "", 10, 10, 0, ""),
        rec("Bob", 15, "x", "x", 20, 20, 16, ""),
    ]
}

fn bootstrapped() -> State {
    let mut s = State::new();
    let lines = s.on_ready(&base_snapshot());
    assert_eq!(lines.len(), 3);
    s
}

fn names_of(s: &State) -> Vec<String> {
    s.names_in_order()
}

#[test]
fn bootstrap_two_records() {
    let mut s = State::new();
    let lines = s.on_ready(&base_snapshot());
    assert_eq!(names_of(&s), vec!["Orc".to_string(), "Bob".to_string()]);
    assert_eq!(lines.len(), 3);
    assert_eq!(lines[0], "\x02\x0304Initiative table:");
    assert_eq!(lines[1], "- 12\x0f <\x02\x0307Orc\x0f> \x0309Healthy\x0f");
    assert_eq!(lines[2], "\x02\x0304* 15\x0f <\x02Bob\x0f> \x030920/20\x0f, AC 16");
}

#[test]
fn damage_produces_one_message_with_exact_delta() {
    let mut s = bootstrapped();
    let mut snap = base_snapshot();
    snap[0].hp_cur = 6;
    let events = s.update_state(&snap);
    assert_eq!(events.len(), 1);
    match &events[0] {
        NarrativeEvent::HpChanged { name, delta, .. } => {
            assert_eq!(name, "Orc");
            assert_eq!(*delta, 4);
        }
        _ => panic!("expected a hit-point event"),
    }
    let msg = inittrack::events::render_event(&events[0]);
    assert_eq!(
        msg,
        "\x02Orc\x0f took \x024\x0f points of damage! (\x0309Healthy\x0f -> \x0310Injured\x0f)"
    );
    assert_eq!(s.entries[0].state.hp_cur, 6);
}

#[test]
fn healing_produces_negative_delta() {
    let mut s = bootstrapped();
    let mut snap = base_snapshot();
    snap[0].hp_cur = 6;
    s.update_state(&snap);
    let events = s.update_state(&base_snapshot());
    assert_eq!(events.len(), 1);
    match &events[0] {
        NarrativeEvent::HpChanged { delta, .. } => assert_eq!(*delta, -4),
        _ => panic!("expected a hit-point event"),
    }
    let msg = inittrack::events::render_event(&events[0]);
    assert_eq!(
        msg,
        "\x02Orc\x0f took \x02-4\x0f points of damage! (\x0310Injured\x0f -> \x0309Healthy\x0f)"
    );
}

#[test]
fn invisible_newcomer_is_silent_but_stored() {
    let mut s = bootstrapped();
    let mut snap = base_snapshot();
    snap.push(rec("Goblin", 9, "", "", 7, 7, 0, "invisible"));
    let events = s.update_state(&snap);
    assert_eq!(events.len(), 0);
    assert_eq!(names_of(&s), vec!["Orc".to_string(), "Bob".to_string(), "Goblin".to_string()]);
}

#[test]
fn visible_newcomer_joins_with_line() {
    let mut s = bootstrapped();
    let mut snap = base_snapshot();
    snap.push(rec("Goblin", 9, "", "", 7, 7, 0, ""));
    let events = s.update_state(&snap);
    assert_eq!(events.len(), 2);
    assert!(matches!(&events[0], NarrativeEvent::Joined { name } if name == "Goblin"));
    assert!(matches!(&events[1], NarrativeEvent::Line { name, .. } if name == "Goblin"));
    let msg = inittrack::events::render_event(&events[0]);
    assert_eq!(msg, "Combatant \x02Goblin\x0f joined the encounter!");
}

#[test]
fn turn_flip_off_is_a_non_event() {
    let mut s = bootstrapped();
    let mut snap = base_snapshot();
    snap[1].turn = String::new();
    let events = s.update_state(&snap);
    assert_eq!(events.len(), 0);
    assert!(!s.entries[1].state.turn);
}

#[test]
fn turn_flip_on_announces_turn_and_line() {
    let mut s = bootstrapped();
    let mut snap = base_snapshot();
    snap[0].turn = String::from("x");
    snap[1].turn = String::new();
    let events = s.update_state(&snap);
    assert_eq!(events.len(), 2);
    assert!(matches!(&events[0], NarrativeEvent::TurnStart { name } if name == "Orc"));
    assert!(matches!(&events[1], NarrativeEvent::Line { name, .. } if name == "Orc"));
    let msg = inittrack::events::render_event(&events[0]);
    assert_eq!(msg, "It's now \x02Orc\x0f's turn.");
}

#[test]
fn identical_snapshot_is_quiet() {
    let mut s = bootstrapped();
    let events = s.update_state(&base_snapshot());
    assert_eq!(events.len(), 0);
}

#[test]
fn changes_across_records_keep_record_order() {
    let mut s = bootstrapped();
    let mut snap = base_snapshot();
    snap[0].hp_cur = 6;
    snap[1].hp_cur = 12;
    let events = s.update_state(&snap);
    assert_eq!(events.len(), 2);
    assert!(matches!(&events[0], NarrativeEvent::HpChanged { name, delta: 4, .. } if name == "Orc"));
    assert!(matches!(&events[1], NarrativeEvent::HpChanged { name, delta: 8, .. } if name == "Bob"));
}

#[test]
fn order_follows_latest_snapshot() {
    let mut s = bootstrapped();
    let snap = vec![
        rec("Bob", 15, "x", "x", 20, 20, 16, ""),
        rec("Orc", 12, "", "", 10, 10, 0, ""),
    ];
    let events = s.update_state(&snap);
    assert_eq!(events.len(), 0);
    assert_eq!(names_of(&s), vec!["Bob".to_string(), "Orc".to_string()]);
}

#[test]
fn absent_combatant_is_pruned_silently() {
    let mut s = bootstrapped();
    let snap = vec![rec("Bob", 15, "x", "x", 20, 20, 16, "")];
    let events = s.update_state(&snap);
    assert_eq!(events.len(), 0);
    assert_eq!(names_of(&s), vec!["Bob".to_string()]);
    assert!(s.get("Orc").is_none());
}

#[test]
fn turning_invisible_announces_exactly_one_disappearance() {
    let mut s = bootstrapped();
    let mut snap = base_snapshot();
    snap[0].extra = String::from("invisible");
    snap[0].hp_cur = 3;
    let events = s.update_state(&snap);
    assert_eq!(events.len(), 1);
    assert!(matches!(&events[0], NarrativeEvent::Disappeared { name } if name == "Orc"));
    let msg = inittrack::events::render_event(&events[0]);
    assert_eq!(msg, "A wild \x02Orc\x0f disappeared.");
    assert_eq!(s.entries[0].state.hp_cur, 3);
}

#[test]
fn turning_visible_announces_appearance_with_line() {
    let mut s = bootstrapped();
    let mut snap = base_snapshot();
    snap[0].extra = String::from("invisible");
    s.update_state(&snap);
    let events = s.update_state(&base_snapshot());
    assert_eq!(events.len(), 2);
    assert!(matches!(&events[0], NarrativeEvent::Appeared { name } if name == "Orc"));
    assert!(matches!(&events[1], NarrativeEvent::Line { name, .. } if name == "Orc"));
    let msg = inittrack::events::render_event(&events[0]);
    assert_eq!(msg, "A wild \x02Orc\x0f appeared!");
}

#[test]
fn invisible_on_both_sides_updates_silently() {
    let mut s = State::new();
    let snap = vec![rec("Ghost", 8, "", "", 5, 5, 0, "invisible")];
    s.on_ready(&snap);
    let snap2 = vec![rec("Ghost", 8, "", "", 2, 5, 0, "invisible")];
    let events = s.update_state(&snap2);
    assert_eq!(events.len(), 0);
    assert_eq!(s.entries[0].state.hp_cur, 2);
}

#[test]
fn initiative_change_is_announced() {
    let mut s = bootstrapped();
    let mut snap = base_snapshot();
    snap[0].init = 18;
    let events = s.update_state(&snap);
    assert_eq!(events.len(), 1);
    let msg = inittrack::events::render_event(&events[0]);
    assert_eq!(msg, "\x02Orc\x0f's initiative changed from \x0212\x0f to \x0218\x0f.");
}

#[test]
fn gaining_tags_quotes_the_new_tags() {
    let mut s = bootstrapped();
    let mut snap = base_snapshot();
    snap[0].extra = String::from("burning");
    let events = s.update_state(&snap);
    assert_eq!(events.len(), 1);
    let msg = inittrack::events::render_event(&events[0]);
    assert_eq!(msg, "\x02Orc\x0f has tags: burning");
}

#[test]
fn losing_tags_quotes_the_old_tags() {
    let mut s = bootstrapped();
    let mut snap = base_snapshot();
    snap[0].extra = String::from("burning");
    s.update_state(&snap);
    let events = s.update_state(&base_snapshot());
    assert_eq!(events.len(), 1);
    let msg = inittrack::events::render_event(&events[0]);
    assert_eq!(msg, "\x02Orc\x0f is no longer: burning");
}

#[test]
fn several_field_changes_fire_in_order() {
    let mut s = bootstrapped();
    let mut snap = base_snapshot();
    snap[0].hp_cur = 4;
    snap[0].init = 3;
    snap[0].extra = String::from("prone");
    snap[0].turn = String::from("x");
    snap[1].turn = String::new();
    let events = s.update_state(&snap);
    assert_eq!(events.len(), 5);
    assert!(matches!(&events[0], NarrativeEvent::HpChanged { .. }));
    assert!(matches!(&events[1], NarrativeEvent::InitChanged { from: 12, to: 3, .. }));
    assert!(matches!(&events[2], NarrativeEvent::TagsNow { .. }));
    assert!(matches!(&events[3], NarrativeEvent::TurnStart { .. }));
    assert!(matches!(&events[4], NarrativeEvent::Line { .. }));
}

#[test]
fn empty_snapshot_empties_the_roster() {
    let mut s = bootstrapped();
    let events = s.update_state(&Vec::new());
    assert_eq!(events.len(), 0);
    assert!(s.entries.is_empty());
}

#[test]
fn table_command_sends_the_full_roster() {
    let mut s = bootstrapped();
    let d = s.handle_irc_message(
        &ChatEvent::Privmsg { text: String::from("!table") },
        "tablebot",
    );
    match d {
        Directive::Send(lines) => {
            assert_eq!(lines.len(), 3);
            assert_eq!(lines[0], "\x02\x0304Initiative table:");
        }
        _ => panic!("expected the roster to be sent"),
    }
}

#[test]
fn send_command_strips_first_occurrence_only() {
    let mut s = State::new();
    let d = s.handle_irc_message(
        &ChatEvent::Privmsg { text: String::from("!send hi !send there") },
        "tablebot",
    );
    match d {
        Directive::Relay(text) => assert_eq!(text, "hi !send there"),
        _ => panic!("expected a relay"),
    }
}

#[test]
fn unrelated_chatter_is_ignored() {
    let mut s = State::new();
    let d = s.handle_irc_message(
        &ChatEvent::Privmsg { text: String::from("good morning") },
        "tablebot",
    );
    assert!(matches!(d, Directive::Nothing));
    assert!(!s.ready);
}

#[test]
fn own_join_triggers_bootstrap() {
    let mut s = State::new();
    assert!(!s.handle_inotify());
    let d = s.handle_irc_message(
        &ChatEvent::Join {
            prefix: Some(String::from("tablebot!ident@host")),
            chanlist: String::from("#game"),
        },
        "tablebot",
    );
    assert!(matches!(d, Directive::Bootstrap));
    assert!(s.ready);
    assert!(s.handle_inotify());
}

#[test]
fn foreign_join_is_ignored() {
    let mut s = State::new();
    let d = s.handle_irc_message(
        &ChatEvent::Join {
            prefix: Some(String::from("alice!ident@host")),
            chanlist: String::from("#game"),
        },
        "tablebot",
    );
    assert!(matches!(d, Directive::Nothing));
    assert!(!s.ready);
}

#[test]
fn identification_is_sent_exactly_once() {
    let mut s = State::new();
    assert!(s.begin_turn());
    assert!(!s.begin_turn());
    assert!(!s.begin_turn());
}

#[test]
fn read_failure_message_carries_the_diagnostic() {
    let msg = read_failure_message("missing column");
    assert_eq!(
        msg,
        "\x02\x0304[!!] You screwed up the spreadsheet, you idiot: missing column"
    );
}

#[test]
fn duplicate_names_are_detected() {
    let snap = vec![
        rec("Orc", 12, "", "", 10, 10, 0, ""),
        rec("Orc", 15, "", "", 8, 8, 0, ""),
    ];
    assert!(!snapshot_names_unique(&snap));
    assert!(snapshot_names_unique(&base_snapshot()));
    assert!(snapshot_names_unique(&Vec::new()));
}
