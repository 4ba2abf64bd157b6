use ohh_converter::convert_ohh_file;

#[test]
fn test_hand_conversion_with_dealt_cards() {
    let input = r#"{"ohh":{"spec_version":"1.4.3","site_name":"iPoker","game_number":"test123","start_date_utc":"2023-12-05T02:50:49.886Z","table_name":"TestTable","table_size":6,"dealer_seat":3,"small_blind_amount":0.05,"big_blind_amount":0.1,"currency":"PPC","players":[{"id":1,"seat":1,"name":"Player1","starting_stack":10.0},{"id":2,"seat":2,"name":"Player2","starting_stack":10.0}],"rounds":[{"id":0,"street":"Preflop","cards":[],"actions":[{"action_number":0,"player_id":1,"action":"Dealt Cards","cards":["As","Kd"]},{"action_number":1,"player_id":1,"action":"Post SB","amount":0.05},{"action_number":2,"player_id":2,"action":"Post BB","amount":0.1},{"action_number":3,"player_id":1,"action":"Raise","amount":0.3},{"action_number":4,"player_id":2,"action":"Fold"}]}],"pots":[{"number":0,"amount":0.2,"rake":0,"player_wins":[{"player_id":1,"win_amount":0.2}]}]}}"#;

    let result = convert_ohh_file(input);
    assert!(result.is_ok(), "Conversion should succeed");

    let output = result.unwrap();
    println!("\n=== TEST OUTPUT ===\n{}\n=== END ===\n", output);

    assert!(
        output.contains("PokerStars Hand #test123"),
        "Should have header"
    );
    assert!(
        output.contains("Player1: posts small blind $0.05"),
        "Should have SB"
    );
    assert!(
        output.contains("Player2: posts big blind $0.10"),
        "Should have BB"
    );
    assert!(
        output.contains("*** HOLE CARDS ***"),
        "Should have hole cards header"
    );
    assert!(
        output.contains("Dealt to Player1 [As Kd]"),
        "Should show dealt cards"
    );
    assert!(
        output.contains("Player1: raises"),
        "Should have raise action"
    );
    assert!(output.contains("Player2: folds"), "Should have fold");
    assert!(output.contains("*** SUMMARY ***"), "Should have summary");
}

#[test]
fn test_raise_formatting() {
    let input = r#"{"ohh":{"spec_version":"1.4.3","site_name":"iPoker","game_number":"raise_test","start_date_utc":"2023-12-05T02:50:49.886Z","table_name":"TestTable","table_size":6,"dealer_seat":3,"small_blind_amount":0.05,"big_blind_amount":0.1,"currency":"USD","players":[{"id":1,"seat":1,"name":"Player1","starting_stack":10.0},{"id":2,"seat":2,"name":"Player2","starting_stack":10.0}],"rounds":[{"id":0,"street":"Preflop","cards":[],"actions":[{"action_number":0,"player_id":1,"action":"Post SB","amount":0.05},{"action_number":1,"player_id":2,"action":"Post BB","amount":0.1},{"action_number":2,"player_id":1,"action":"Raise","amount":0.3},{"action_number":3,"player_id":2,"action":"Call","amount":0.3}]},{"id":1,"street":"Flop","cards":["Ah","Kd","Qc"],"actions":[{"action_number":0,"player_id":1,"action":"Check"},{"action_number":1,"player_id":2,"action":"Bet","amount":0.5},{"action_number":2,"player_id":1,"action":"Raise","amount":1.5}]}],"pots":[{"number":0,"amount":3.6,"rake":0,"player_wins":[{"player_id":1,"win_amount":3.6}]}]}}"#;

    let result = convert_ohh_file(input);
    assert!(result.is_ok(), "Conversion should succeed");

    let output = result.unwrap();
    println!("\n=== RAISE TEST OUTPUT ===\n{}\n=== END ===\n", output);

    assert!(
        output.contains("raises") && output.contains("to"),
        "Raises should use 'raises X to Y' format"
    );
}

#[test]
fn test_real_sample_hand() {
    // a complete six-seat hand as a live export produces it
    let input = r#"{"ohh":{"spec_version":"1.4.3","site_name":"iPoker","network_name":"iPoker Network","internal_version":"1.0.0","tournament":false,"game_number":"lv0irhede81k","start_date_utc":"2023-12-05T02:50:49.886Z","table_name":"pglCX2WsUJbPBjsNSE1siiDJy","table_handle":"pglCX2WsUJbPBjsNSE1siiDJy","table_skin":"","game_type":"Holdem","bet_limit":{"bet_type":"NL","bet_cap":0},"table_size":10,"currency":"PPC","dealer_seat":8,"small_blind_amount":0.05,"big_blind_amount":0.1,"ante_amount":0,"flags":["Observed"],"players":[{"id":1,"seat":1,"name":"Agapito","display":"Agapito","starting_stack":19.9,"player_bounty":0},{"id":4,"seat":4,"name":"DubNation","display":"DubNation","starting_stack":9.8,"player_bounty":0},{"id":5,"seat":5,"name":"CFFl2rCOze","display":"bella","starting_stack":11.2,"player_bounty":0},{"id":6,"seat":6,"name":"-c6EEVvXCE","display":"bdawg","starting_stack":10,"player_bounty":0},{"id":7,"seat":7,"name":"E9V-2MDLwt","display":"Redorange","starting_stack":10.55,"player_bounty":0},{"id":8,"seat":8,"name":"JzhSREGpIj","display":"Drank","starting_stack":8.55,"player_bounty":0}],"rounds":[{"id":0,"street":"Preflop","cards":[],"actions":[{"action_number":0,"player_id":4,"action":"Dealt Cards","cards":["Ks","2c"],"is_allin":false},{"action_number":1,"player_id":6,"action":"Dealt Cards","cards":["8s","Ac"],"is_allin":false},{"action_number":2,"player_id":1,"action":"Post SB","amount":0.05,"is_allin":false},{"action_number":3,"player_id":4,"action":"Post BB","amount":0.1,"is_allin":false},{"action_number":4,"player_id":5,"action":"Fold","amount":0,"is_allin":false},{"action_number":5,"player_id":6,"action":"Raise","amount":0.22,"is_allin":false},{"action_number":6,"player_id":7,"action":"Fold","amount":0,"is_allin":false},{"action_number":7,"player_id":8,"action":"Fold","amount":0,"is_allin":false},{"action_number":8,"player_id":1,"action":"Fold","amount":0,"is_allin":false},{"action_number":9,"player_id":4,"action":"Call","amount":0.12,"is_allin":false}]},{"id":1,"cards":["4d","3c","Kd"],"street":"Flop","actions":[{"action_number":0,"player_id":4,"action":"Check","amount":0,"is_allin":false},{"action_number":1,"player_id":6,"action":"Raise","amount":0.24,"is_allin":false},{"action_number":2,"player_id":4,"action":"Call","amount":0.24,"is_allin":false}]},{"id":2,"cards":["Tc"],"street":"Turn","actions":[{"action_number":0,"player_id":4,"action":"Check","amount":0,"is_allin":false},{"action_number":1,"player_id":6,"action":"Check","amount":0,"is_allin":false}]},{"id":3,"cards":["Js"],"street":"River","actions":[{"action_number":0,"player_id":4,"action":"Raise","amount":0.48,"is_allin":false},{"action_number":1,"player_id":6,"action":"Raise","amount":1.5,"is_allin":false},{"action_number":2,"player_id":4,"action":"Call","amount":1.02,"is_allin":false},{"action_number":3,"player_id":4,"action":"Shows Cards","cards":["Ks","2c"],"is_allin":false},{"action_number":4,"player_id":6,"action":"Shows Cards","cards":["8s","Ac"],"is_allin":false}]}],"pots":[{"number":0,"amount":3.97,"rake":0,"jackpot":null,"player_wins":[{"player_id":4,"win_amount":3.97,"contributed_rake":0}]}]}}"#;

    let result = convert_ohh_file(input);
    assert!(result.is_ok(), "Real hand conversion should succeed");

    let output = result.unwrap();
    println!("\n=== REAL HAND OUTPUT ===\n{}\n=== END ===\n", output);

    assert!(
        output.contains("Dealt to DubNation"),
        "Should show DubNation's cards"
    );
    assert!(
        output.contains("Dealt to -c6EEVvXCE"),
        "Should show bdawg's cards"
    );
    assert!(
        output.contains("*** FLOP *** [4d 3c Kd]"),
        "Should have flop"
    );
    assert!(output.contains("*** TURN ***"), "Should have turn");
    assert!(output.contains("*** RIVER ***"), "Should have river");
    assert!(
        output.contains("DubNation: shows [Ks 2c]"),
        "Should show showdown cards"
    );
    assert!(
        output.contains("-c6EEVvXCE: shows [8s Ac]"),
        "Should show showdown cards"
    );
}

#[test]
fn test_sample_hand_line_order() {
    // the dealt lines come before the flop marker, the street markers in
    // street order, and the showdown lines after the river marker
    let input = r#"{"ohh":{"game_number":"ord","start_date_utc":"2024-01-01T00:00:00Z","table_name":"T","table_size":6,"dealer_seat":1,"small_blind_amount":0.05,"big_blind_amount":0.1,"players":[{"id":1,"seat":1,"name":"A","starting_stack":10},{"id":2,"seat":2,"name":"B","starting_stack":10}],"rounds":[{"id":0,"street":"Preflop","cards":[],"actions":[{"action_number":0,"player_id":1,"action":"Dealt Cards","cards":["Ks","2c"]},{"action_number":1,"player_id":2,"action":"Dealt Cards","cards":["8s","Ac"]},{"action_number":2,"player_id":1,"action":"Post SB","amount":0.05},{"action_number":3,"player_id":2,"action":"Post BB","amount":0.1},{"action_number":4,"player_id":1,"action":"Call","amount":0.05}]},{"id":1,"street":"Flop","cards":["4d","3c","Kd"],"actions":[{"action_number":0,"player_id":1,"action":"Check"}]},{"id":2,"street":"Turn","cards":["Tc"],"actions":[{"action_number":0,"player_id":1,"action":"Check"}]},{"id":3,"street":"River","cards":["Js"],"actions":[{"action_number":0,"player_id":1,"action":"Shows Cards","cards":["Ks","2c"]},{"action_number":1,"player_id":2,"action":"Shows Cards","cards":["8s","Ac"]}]}],"pots":[{"number":0,"amount":0.2,"rake":0,"player_wins":[{"player_id":1,"win_amount":0.2}]}]}}"#;

    let output = convert_ohh_file(input).unwrap();
    let pos = |needle: &str| output.find(needle).unwrap_or_else(|| panic!("missing {}", needle));
    let dealt_a = pos("Dealt to A [Ks 2c]");
    let dealt_b = pos("Dealt to B [8s Ac]");
    let flop = pos("*** FLOP *** [4d 3c Kd]");
    let turn = pos("*** TURN *** [4d 3c Kd] [Tc]");
    let river = pos("*** RIVER *** [4d 3c Kd Tc] [Js]");
    let shows_a = pos("A: shows [Ks 2c]");
    let shows_b = pos("B: shows [8s Ac]");
    assert!(dealt_a < dealt_b && dealt_b < flop);
    assert!(flop < turn && turn < river);
    assert!(river < shows_a && shows_a < shows_b);
}

#[test]
fn test_partial_failure_isolation() {
    // one malformed chunk beside one valid hand still yields that hand
    let valid = r#"{"ohh":{"game_number":"only","start_date_utc":"2024-01-01T00:00:00Z","table_name":"T","table_size":2,"dealer_seat":1,"small_blind_amount":0.5,"big_blind_amount":1,"players":[{"id":1,"seat":1,"name":"A","starting_stack":100},{"id":2,"seat":2,"name":"B","starting_stack":100}],"rounds":[{"id":0,"street":"Preflop","cards":[],"actions":[]}],"pots":[]}}"#;
    let input = format!("{{this is not json}}\n\n{}", valid);

    let result = convert_ohh_file(&input);
    assert!(result.is_ok(), "One valid chunk should be enough");
    let output = result.unwrap();
    assert_eq!(output.matches("PokerStars Hand #").count(), 1);
    assert!(output.contains("PokerStars Hand #only"));
}

#[test]
fn test_all_chunks_malformed() {
    let result = convert_ohh_file("{broken\n\nalso broken");
    assert!(result.is_err());
    assert_eq!(
        result.unwrap_err(),
        "no valid hands could be parsed. please check your file format."
    );
}

#[test]
fn test_raise_reconstruction() {
    // Post SB 0.05, Post BB 0.10, Raise 0.30, Call 0.30: the raise is by
    // 0.30 - 0.10 over the big blind
    let input = r#"{"ohh":{"game_number":"r1","start_date_utc":"2024-01-01T00:00:00Z","table_name":"T","table_size":2,"dealer_seat":1,"small_blind_amount":0.05,"big_blind_amount":0.1,"players":[{"id":1,"seat":1,"name":"A","starting_stack":100},{"id":2,"seat":2,"name":"B","starting_stack":100}],"rounds":[{"id":0,"street":"Preflop","cards":[],"actions":[{"action_number":0,"player_id":1,"action":"Post SB","amount":0.05},{"action_number":1,"player_id":2,"action":"Post BB","amount":0.1},{"action_number":2,"player_id":1,"action":"Raise","amount":0.3},{"action_number":3,"player_id":2,"action":"Call","amount":0.3}]}],"pots":[]}}"#;

    let output = convert_ohh_file(input).unwrap();
    assert!(
        output.contains("A: raises $0.20 to $0.30"),
        "raise must be rebuilt from the prior bet: {}",
        output
    );
    assert!(output.contains("B: calls $0.30"));
}

#[test]
fn test_bet_then_raise() {
    // a first bet renders plain, a second aggressive action renders as a
    // raise by the difference
    let input = r#"{"ohh":{"game_number":"b1","start_date_utc":"2024-01-01T00:00:00Z","table_name":"T","table_size":2,"dealer_seat":1,"small_blind_amount":0.05,"big_blind_amount":0.1,"players":[{"id":1,"seat":1,"name":"A","starting_stack":100},{"id":2,"seat":2,"name":"B","starting_stack":100}],"rounds":[{"id":0,"street":"Flop","cards":["Ah","Kd","Qc"],"actions":[{"action_number":0,"player_id":1,"action":"Bet","amount":0.5},{"action_number":1,"player_id":2,"action":"Bet","amount":1.5}]}],"pots":[]}}"#;

    let output = convert_ohh_file(input).unwrap();
    assert!(output.contains("A: bets $0.50"), "{}", output);
    assert!(output.contains("B: raises $1.00 to $1.50"), "{}", output);
}

#[test]
fn test_hero_filtered_deals() {
    // with a hero set, only the hero's dealt cards are shown
    let input = r#"{"ohh":{"game_number":"h1","start_date_utc":"2024-01-01T00:00:00Z","table_name":"T","table_size":2,"dealer_seat":1,"small_blind_amount":0.05,"big_blind_amount":0.1,"hero_player_id":1,"players":[{"id":1,"seat":1,"name":"Hero","starting_stack":100},{"id":2,"seat":2,"name":"Villain","starting_stack":100}],"rounds":[{"id":0,"street":"Preflop","cards":[],"actions":[{"action_number":0,"player_id":1,"action":"Dealt Cards","cards":["As","Kd"]},{"action_number":1,"player_id":2,"action":"Dealt Cards","cards":["2c","7h"]}]}],"pots":[]}}"#;

    let output = convert_ohh_file(input).unwrap();
    assert!(output.contains("Dealt to Hero [As Kd]"), "{}", output);
    assert!(!output.contains("Dealt to Villain"), "{}", output);
}

#[test]
fn test_empty_pot_summary() {
    let input = r#"{"ohh":{"game_number":"p0","start_date_utc":"2024-01-01T00:00:00Z","table_name":"T","table_size":2,"dealer_seat":1,"small_blind_amount":0.05,"big_blind_amount":0.1,"players":[{"id":1,"seat":1,"name":"A","starting_stack":100}],"rounds":[],"pots":[]}}"#;

    let output = convert_ohh_file(input).unwrap();
    assert!(
        output.ends_with("*** SUMMARY ***\nTotal pot $0.00 | Rake $0.00"),
        "{}",
        output
    );
}

#[test]
fn test_numeric_and_string_ids_match() {
    // the player list spells the id as a number, the winner entry as a
    // string; both must land in the same identity space
    let input = r#"{"ohh":{"game_number":"ids","start_date_utc":"2024-01-01T00:00:00Z","table_name":"T","table_size":2,"dealer_seat":1,"small_blind_amount":0.5,"big_blind_amount":1,"players":[{"id":7,"seat":3,"name":"Mixed","starting_stack":25}],"rounds":[],"pots":[{"number":0,"amount":2,"rake":0.1,"player_wins":[{"player_id":"7","win_amount":1.9}]}]}}"#;

    let output = convert_ohh_file(input).unwrap();
    assert!(output.contains("Total pot $2.00 | Rake $0.10"), "{}", output);
    assert!(
        output.contains("Seat 3: Mixed collected ($1.90)"),
        "{}",
        output
    );
}

#[test]
fn test_parse_ohh_chunks_fields() {
    let input = r#"{"ohh":{"start_date_utc":"2024-01-01T00:00:00Z","table_name":"Main","table_size":6,"dealer_seat":2,"small_blind_amount":1,"big_blind_amount":2,"players":[],"rounds":[],"pots":[]}}"#;

    let hands = ohh_converter::parse_ohh_chunks(input).unwrap();
    assert_eq!(hands.len(), 1);
    // game_number falls back to its documented default
    assert_eq!(hands[0].game_number, "unknown");
    assert_eq!(hands[0].table_name, "Main");
    assert_eq!(hands[0].table_size, 6);
    assert_eq!(hands[0].dealer_seat, 2);
    assert_eq!(hands[0].small_blind_amount, 100);
    assert_eq!(hands[0].big_blind_amount, 200);
    assert!(hands[0].currency.is_none());
}

#[test]
fn test_unresolved_player_reference() {
    // a winner id that matches no player renders with the placeholder name
    // and seat 0 instead of failing
    let input = r#"{"ohh":{"game_number":"u1","start_date_utc":"2024-01-01T00:00:00Z","table_name":"T","table_size":2,"dealer_seat":1,"small_blind_amount":0.5,"big_blind_amount":1,"players":[{"id":1,"seat":1,"name":"A","starting_stack":100}],"rounds":[],"pots":[{"number":0,"amount":3,"rake":0,"player_wins":[{"player_id":"ghost","win_amount":3}]}]}}"#;

    let output = convert_ohh_file(input).unwrap();
    assert!(
        output.contains("Seat 0: Unknown collected ($3.00)"),
        "{}",
        output
    );
}

#[test]
fn test_hand_separator() {
    let one = r#"{"ohh":{"game_number":"g1","start_date_utc":"2024-01-01T00:00:00Z","table_name":"T","table_size":2,"dealer_seat":1,"small_blind_amount":0.5,"big_blind_amount":1,"players":[],"rounds":[],"pots":[]}}"#;
    let two = r#"{"ohh":{"game_number":"g2","start_date_utc":"2024-01-01T00:00:00Z","table_name":"T","table_size":2,"dealer_seat":1,"small_blind_amount":0.5,"big_blind_amount":1,"players":[],"rounds":[],"pots":[]}}"#;
    let input = format!("{}\n\n{}", one, two);

    let output = convert_ohh_file(&input).unwrap();
    assert_eq!(output.matches("PokerStars Hand #").count(), 2);
    let parts: Vec<&str> = output.split("\n\n\n\n").collect();
    assert_eq!(parts.len(), 2);
    assert!(parts[0].contains("#g1"));
    assert!(parts[1].contains("#g2"));
}
