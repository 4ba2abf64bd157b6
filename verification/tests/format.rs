use ohh_converter::{
    act_line_with_context, build_header, build_seats, build_table, card, cards, fmt_money,
    name_by_id, seat_by_id, street_header, summarize, Action, OhhHand, Player,
};
use std::collections::HashMap;

fn empty_hand() -> OhhHand {
    OhhHand {
        spec_version: None,
        game_number: "42".to_string(),
        game_type: None,
        bet_limit: None,
        small_blind_amount: 50,
        big_blind_amount: 100,
        currency: None,
        start_date_utc: "2023-12-05T02:50:49.886Z".to_string(),
        table_name: "Alpha".to_string(),
        table_size: 6,
        table_handle: None,
        dealer_seat: 3,
        hero_player_id: None,
        site_name: None,
        network_name: None,
        players: Vec::new(),
        rounds: Vec::new(),
        pots: Vec::new(),
    }
}

fn player(id: &str, seat: u8, name: &str, stack: i64) -> Player {
    Player {
        id: id.to_string(),
        seat,
        name: name.to_string(),
        display: None,
        starting_stack: stack,
        player_bounty: None,
    }
}

#[test]
fn test_fmt_money() {
    assert_eq!(fmt_money(1050), "$10.50");
    assert_eq!(fmt_money(100000), "$1,000.00");
    assert_eq!(fmt_money(5), "$0.05");
    assert_eq!(fmt_money(-500), "-$5.00");
}

#[test]
fn test_fmt_money_edges() {
    assert_eq!(fmt_money(0), "$0.00");
    assert_eq!(fmt_money(99), "$0.99");
    assert_eq!(fmt_money(123456789), "$1,234,567.89");
    assert_eq!(fmt_money(100000000), "$1,000,000.00");
    assert_eq!(fmt_money(-123), "-$1.23");
}

#[test]
fn test_card() {
    assert_eq!(card("Ah"), "Ah");
    assert_eq!(card("td"), "Td");
    assert_eq!(card("2c"), "2c");
}

#[test]
fn test_card_idempotent() {
    for raw in ["Ah", "td", "2c", "KS", "x", "", "qH"] {
        assert_eq!(card(&card(raw)), card(raw));
    }
}

#[test]
fn test_cards() {
    let board = vec!["Ah".to_string(), "Kd".to_string(), "Qc".to_string()];
    assert_eq!(cards(&board), "Ah Kd Qc");
}

#[test]
fn test_street_header_lines() {
    let flop: Vec<String> = vec!["ah".into(), "kd".into(), "qc".into()];
    let none: Vec<String> = Vec::new();
    assert_eq!(street_header("Preflop", &none, &none), "*** HOLE CARDS ***");
    assert_eq!(street_header("Flop", &flop, &flop), "*** FLOP *** [Ah Kd Qc]");

    let mut all = flop.clone();
    all.push("2s".into());
    let turn: Vec<String> = vec!["2s".into()];
    assert_eq!(
        street_header("Turn", &turn, &all),
        "*** TURN *** [Ah Kd Qc] [2s]"
    );
    // with fewer than four known board cards the turn header falls back to
    // the street's own cards
    assert_eq!(street_header("Turn", &turn, &turn), "*** TURN *** [2s]");

    all.push("9d".into());
    let river: Vec<String> = vec!["9d".into()];
    assert_eq!(
        street_header("River", &river, &all),
        "*** RIVER *** [Ah Kd Qc 2s] [9d]"
    );
    assert_eq!(street_header("Showdown", &none, &none), "*** SHOW DOWN ***");
    assert_eq!(street_header("Lobby", &none, &none), "");
}

#[test]
fn test_build_header_defaults() {
    let h = empty_hand();
    assert_eq!(
        build_header(&h),
        "PokerStars Hand #42: Hold'em No Limit ($0.50/$1.00 USD) - 2023-12-05 02:50:49 UTC"
    );
}

#[test]
fn test_build_header_no_fraction() {
    let mut h = empty_hand();
    h.currency = Some("PPC".to_string());
    h.start_date_utc = "2020-01-02T03:04:05".to_string();
    assert_eq!(
        build_header(&h),
        "PokerStars Hand #42: Hold'em No Limit ($0.50/$1.00 PPC) - 2020-01-02 03:04:05 UTC"
    );
}

#[test]
fn test_build_table() {
    let h = empty_hand();
    assert_eq!(build_table(&h), "Table 'Alpha' 6-max Seat #3 is the button");
}

#[test]
fn test_build_seats_sorted() {
    let mut h = empty_hand();
    h.players.push(player("b", 5, "Bea", 2000));
    h.players.push(player("a", 1, "Al", 1050));
    assert_eq!(
        build_seats(&h),
        "Seat 1: Al ($10.50 in chips)\nSeat 5: Bea ($20.00 in chips)"
    );
}

#[test]
fn test_name_and_seat_lookup() {
    let mut h = empty_hand();
    h.players.push(player("p1", 4, "Dana", 1000));
    assert_eq!(name_by_id(&h, "p1"), "Dana");
    assert_eq!(seat_by_id(&h, "p1"), 4);
    assert_eq!(name_by_id(&h, "nobody"), "Unknown");
    assert_eq!(seat_by_id(&h, "nobody"), 0);
}

#[test]
fn test_act_line_basic() {
    let mut h = empty_hand();
    h.players.push(player("p1", 1, "Al", 1000));
    let tracker: HashMap<u32, (i64, i64, bool)> = HashMap::new();

    let fold = Action {
        action_number: 0,
        player_id: Some("p1".to_string()),
        action: "Fold".to_string(),
        amount: None,
        is_allin: None,
        cards: None,
    };
    assert_eq!(act_line_with_context(&h, &fold, &tracker), Some("Al: folds".to_string()));

    let call = Action {
        action_number: 1,
        player_id: Some("p1".to_string()),
        action: "Call".to_string(),
        amount: Some(30),
        is_allin: Some(true),
        cards: None,
    };
    assert_eq!(
        act_line_with_context(&h, &call, &tracker),
        Some("Al: calls $0.30 and is all-in".to_string())
    );

    let anon = Action {
        action_number: 2,
        player_id: None,
        action: "Fold".to_string(),
        amount: None,
        is_allin: None,
        cards: None,
    };
    assert_eq!(act_line_with_context(&h, &anon, &tracker), None);
}

#[test]
fn test_act_line_bet_vs_raise() {
    let mut h = empty_hand();
    h.players.push(player("p1", 1, "Al", 1000));
    let bet = Action {
        action_number: 5,
        player_id: Some("p1".to_string()),
        action: "Bet".to_string(),
        amount: Some(150),
        is_allin: None,
        cards: None,
    };

    // no tracker entry: a plain bet
    let empty: HashMap<u32, (i64, i64, bool)> = HashMap::new();
    assert_eq!(act_line_with_context(&h, &bet, &empty), Some("Al: bets $1.50".to_string()));

    // a recorded prior bet of $0.50 turns the same action into a raise
    let mut tracker: HashMap<u32, (i64, i64, bool)> = HashMap::new();
    tracker.insert(5, (50, 150, true));
    assert_eq!(
        act_line_with_context(&h, &bet, &tracker),
        Some("Al: raises $1.00 to $1.50".to_string())
    );
}

#[test]
fn test_summarize_empty_pots() {
    let h = empty_hand();
    assert_eq!(summarize(&h), "*** SUMMARY ***\nTotal pot $0.00 | Rake $0.00");
}
