use inittrack::combatant::{CombatantRecord, CombatantState, HpBand, hp_band, render_line};
use inittrack::state::State;
use inittrack::text::{find_sub, i64_dec, nick_part, remove_first, u64_dec, u32_pad2};

fn combatant(
    player: bool,
    turn: bool,
    init: u32,
    hp_cur: u32,
    hp_max: u32,
    ac: u32,
    extra: &str,
) -> CombatantState {
    CombatantState { player, turn, init, hp_cur, hp_max, ac, extra: String::from(extra) }
}

#[test]
fn init_glyph_highlights_the_turn() {
    let c = combatant(false, true, 12, 10, 10, 0, "");
    assert_eq!(c.get_init(), "\x02\x0304* 12\x0f");
    let c = combatant(false, false, 12, 10, 10, 0, "");
    assert_eq!(c.get_init(), "- 12\x0f");
}

#[test]
fn init_glyph_zero_pads_to_two_digits() {
    let c = combatant(false, false, 5, 10, 10, 0, "");
    assert_eq!(c.get_init(), "- 05\x0f");
    let c = combatant(false, false, 0, 10, 10, 0, "");
    assert_eq!(c.get_init(), "- 00\x0f");
    let c = combatant(false, false, 123, 10, 10, 0, "");
    assert_eq!(c.get_init(), "- 123\x0f");
}

#[test]
fn ac_suffix_is_for_players_only() {
    let c = combatant(true, false, 10, 20, 20, 16, "");
    assert_eq!(c.get_ac(), ", AC 16");
    let c = combatant(false, false, 10, 20, 20, 16, "");
    assert_eq!(c.get_ac(), "");
}

#[test]
fn tag_suffix_skips_blank_tags() {
    let c = combatant(false, false, 10, 20, 20, 0, "prone, stunned");
    assert_eq!(c.get_extra(), ", prone, stunned");
    let c = combatant(false, false, 10, 20, 20, 0, "   ");
    assert_eq!(c.get_extra(), "");
    let c = combatant(false, false, 10, 20, 20, 0, "");
    assert_eq!(c.get_extra(), "");
}

#[test]
fn players_see_exact_hit_points() {
    let c = combatant(true, false, 10, 13, 20, 0, "");
    assert_eq!(c.get_hp(), "\x031013/20\x0f");
    let c = combatant(true, false, 10, 16, 20, 0, "");
    assert_eq!(c.get_hp(), "\x030316/20\x0f");
}

#[test]
fn non_players_see_the_band_word() {
    assert_eq!(combatant(false, false, 1, 10, 10, 0, "").get_hp(), "\x0309Healthy\x0f");
    assert_eq!(combatant(false, false, 1, 8, 10, 0, "").get_hp(), "\x0303Good\x0f");
    assert_eq!(combatant(false, false, 1, 6, 10, 0, "").get_hp(), "\x0310Injured\x0f");
    assert_eq!(combatant(false, false, 1, 3, 10, 0, "").get_hp(), "\x0307Bloodied\x0f");
    assert_eq!(combatant(false, false, 1, 1, 10, 0, "").get_hp(), "\x0305Mutilated\x0f");
    assert_eq!(combatant(false, false, 1, 0, 10, 0, "").get_hp(), "\x0304Dead\x0f");
    assert_eq!(combatant(false, false, 1, 15, 10, 0, "").get_hp(), "\x0314wat\x0f");
}

#[test]
fn banding_edges() {
    assert_eq!(hp_band(10, 10), HpBand::Healthy);
    assert_eq!(hp_band(0, 10), HpBand::Dead);
    assert_eq!(hp_band(0, 0), HpBand::Dead);
    assert_eq!(hp_band(5, 0), HpBand::Unknown);
    // the Injured range wins the paper overlap at 50 and 51 percent
    assert_eq!(hp_band(50, 100), HpBand::Injured);
    assert_eq!(hp_band(51, 100), HpBand::Injured);
    assert_eq!(hp_band(49, 100), HpBand::Bloodied);
    assert_eq!(hp_band(25, 100), HpBand::Bloodied);
    assert_eq!(hp_band(24, 100), HpBand::Mutilated);
    assert_eq!(hp_band(75, 100), HpBand::Good);
    assert_eq!(hp_band(99, 100), HpBand::Good);
    // a positive ratio under one percent truncates to zero and reads Dead
    assert_eq!(hp_band(1, 1000), HpBand::Dead);
    assert_eq!(hp_band(1, 100), HpBand::Mutilated);
}

#[test]
fn full_line_composition() {
    let c = combatant(true, true, 9, 20, 20, 16, "blessed");
    assert_eq!(
        render_line("Bob", &c),
        "\x02\x0304* 09\x0f <\x02Bob\x0f> \x030920/20\x0f, blessed, AC 16"
    );
    let c = combatant(false, false, 12, 10, 10, 0, "");
    assert_eq!(render_line("Orc", &c), "- 12\x0f <\x02\x0307Orc\x0f> \x0309Healthy\x0f");
}

#[test]
fn invisible_combatants_are_never_printed() {
    let s = State::new();
    let c = combatant(false, false, 12, 10, 10, 0, "very invisible now");
    assert!(s.print_combatant("Orc", &c).is_none());
    let c = combatant(false, false, 12, 10, 10, 0, "visible");
    assert!(s.print_combatant("Orc", &c).is_some());
}

#[test]
fn full_state_skips_invisible_entries() {
    let mut s = State::new();
    let snap = vec![
        CombatantRecord {
            init: 12,
            turn: String::new(),
            name: String::from("Orc"),
            player: String::new(),
            hp_cur: 10,
            hp_max: 10,
            ac: 0,
            extra: String::from("invisible"),
        },
        CombatantRecord {
            init: 15,
            turn: String::new(),
            name: String::from("Bob"),
            player: String::from("x"),
            hp_cur: 20,
            hp_max: 20,
            ac: 16,
            extra: String::new(),
        },
    ];
    let lines = s.on_ready(&snap);
    assert_eq!(lines.len(), 2);
    assert_eq!(lines[0], "\x02\x0304Initiative table:");
    assert_eq!(lines[1], "- 15\x0f <\x02Bob\x0f> \x030920/20\x0f, AC 16");
}

#[test]
fn marker_fields_decode_by_blankness() {
    let r = CombatantRecord {
        init: 7,
        turn: String::from("  "),
        name: String::from("Imp"),
        player: String::from(" yes "),
        hp_cur: 4,
        hp_max: 4,
        ac: 13,
        extra: String::new(),
    };
    let c = r.to_state();
    assert!(!c.turn);
    assert!(c.player);
    assert_eq!(c.init, 7);
    assert_eq!(c.ac, 13);
}

#[test]
fn decimal_rendering_is_exact() {
    assert_eq!(u64_dec(0), "0");
    assert_eq!(u64_dec(7), "7");
    assert_eq!(u64_dec(40960), "40960");
    assert_eq!(u64_dec(18446744073709551615), "18446744073709551615");
    assert_eq!(u32_pad2(7), "07");
    assert_eq!(u32_pad2(70), "70");
    assert_eq!(i64_dec(-42), "-42");
    assert_eq!(i64_dec(42), "42");
    assert_eq!(i64_dec(i64::MIN), "-9223372036854775808");
}

#[test]
fn substring_search_finds_the_first_match() {
    assert_eq!(find_sub("abcabc", "bc"), Some(1));
    assert_eq!(find_sub("abcabc", "zz"), None);
    assert_eq!(find_sub("abc", ""), Some(0));
    assert_eq!(remove_first("say !send it !send twice", "!send "), "say it !send twice");
}

#[test]
fn nick_extraction_stops_at_the_bang() {
    assert_eq!(nick_part("alice!ident@host"), "alice");
    assert_eq!(nick_part("alice"), "alice");
    assert_eq!(nick_part("!ident"), "");
}
