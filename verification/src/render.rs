use crate::fmt::{
    card, card_chars, cards, cards_chars, fmt_money, join_with, money_chars, push_char, spec_join,
};
use crate::model::{Action, ActionV, HandV, OhhHand, PlayerV, RoundV};
use crate::numbers::find_first;
use vstd::prelude::*;
use vstd::string::*;

verus! {

broadcast use vstd::std_specs::hash::group_hash_axioms;

/// Content equality of two string slices.
pub fn str_eq(a: &str, b: &str) -> (r: bool)
    ensures
        r == (a@ == b@),
{
    let sa = String::from_str(a);
    let sb = String::from_str(b);
    sa.eq(&sb)
}

/// The timestamp as rendered: everything before the first dot, with `T`
/// turned into a space.
pub open spec fn ts_chars(s: Seq<char>) -> Seq<char> {
    s.take(find_first(s, '.')).map_values(
        |c: char|
            if c == 'T' {
                ' '
            } else {
                c
            },
    )
}

fn clean_timestamp(s: &str) -> (r: String)
    ensures
        r@ == ts_chars(s@),
{
    let n = s.unicode_len();
    let mut r = String::new();
    let mut i: usize = 0;
    while i < n
        invariant
            n == s@.len(),
            i <= n,
            forall|j: int| 0 <= j < i ==> s@[j] != '.',
            r@ == s@.take(i as int).map_values(
                |c: char|
                    if c == 'T' {
                        ' '
                    } else {
                        c
                    },
            ),
        decreases n - i,
    {
        let c = s.get_char(i);
        if c == '.' {
            proof {
                crate::numbers::lemma_find_first_at(s@, '.', i as int);
            }
            return r;
        }
        push_char(&mut r, if c == 'T' {
            ' '
        } else {
            c
        });
        proof {
            assert(s@.take(i + 1).map_values(
                |c: char|
                    if c == 'T' {
                        ' '
                    } else {
                        c
                    },
            ) =~= s@.take(i as int).map_values(
                |c: char|
                    if c == 'T' {
                        ' '
                    } else {
                        c
                    },
            ).push(
                if s@[i as int] == 'T' {
                    ' '
                } else {
                    s@[i as int]
                },
            ));
        }
        i += 1;
    }
    proof {
        crate::numbers::lemma_find_first_at(s@, '.', n as int);
        assert(s@.take(n as int) =~= s@);
    }
    r
}

/// The first player with the given id, or the list length when none matches.
pub open spec fn find_player(players: Seq<PlayerV>, pid: Seq<char>) -> int
    decreases players.len(),
{
    if players.len() == 0 {
        0
    } else if players[0].id == pid {
        0
    } else {
        1 + find_player(players.skip(1), pid)
    }
}

proof fn lemma_find_player_at(players: Seq<PlayerV>, pid: Seq<char>, i: int)
    requires
        0 <= i <= players.len(),
        forall|j: int| 0 <= j < i ==> players[j].id != pid,
        i < players.len() ==> players[i].id == pid,
    ensures
        find_player(players, pid) == i,
    decreases i,
{
    if players.len() > 0 && players[0].id != pid {
        lemma_find_player_at(players.skip(1), pid, i - 1);
    }
}

/// The display name for an id, or the placeholder when it resolves to no
/// player.
pub open spec fn name_of(h: HandV, pid: Seq<char>) -> Seq<char> {
    let i = find_player(h.players, pid);
    if i < h.players.len() {
        h.players[i].name
    } else {
        "Unknown"@
    }
}

/// The seat for an id, or seat 0 when it resolves to no player.
pub open spec fn seat_of(h: HandV, pid: Seq<char>) -> u8 {
    let i = find_player(h.players, pid);
    if i < h.players.len() {
        h.players[i].seat
    } else {
        0
    }
}

/// Resolve a player id to its display name, `"Unknown"` when absent.
pub fn name_by_id(h: &OhhHand, pid: &str) -> (r: String)
    ensures
        r@ == name_of(h@, pid@),
{
    let n = h.players.len();
    let mut i: usize = 0;
    while i < n
        invariant
            n == h.players@.len(),
            i <= n,
            forall|j: int| 0 <= j < i ==> h@.players[j].id != pid@,
        decreases n - i,
    {
        if str_eq(h.players[i].id.as_str(), pid) {
            proof {
                lemma_find_player_at(h@.players, pid@, i as int);
            }
            return h.players[i].name.clone();
        }
        i += 1;
    }
    proof {
        lemma_find_player_at(h@.players, pid@, n as int);
    }
    String::from_str("Unknown")
}

/// Resolve a player id to its seat number, 0 when absent.
pub fn seat_by_id(h: &OhhHand, pid: &str) -> (r: u8)
    ensures
        r == seat_of(h@, pid@),
{
    let n = h.players.len();
    let mut i: usize = 0;
    while i < n
        invariant
            n == h.players@.len(),
            i <= n,
            forall|j: int| 0 <= j < i ==> h@.players[j].id != pid@,
        decreases n - i,
    {
        if str_eq(h.players[i].id.as_str(), pid) {
            proof {
                lemma_find_player_at(h@.players, pid@, i as int);
            }
            return h.players[i].seat;
        }
        i += 1;
    }
    proof {
        lemma_find_player_at(h@.players, pid@, n as int);
    }
    0
}

/// The hand header line.
pub open spec fn header_chars(h: HandV) -> Seq<char> {
    "PokerStars Hand #"@ + h.game_number + ": Hold'em No Limit ("@ + money_chars(
        h.small_blind_amount as int,
    ) + "/"@ + money_chars(h.big_blind_amount as int) + " "@ + (match h.currency {
        Some(c) => c,
        None => "USD"@,
    }) + ") - "@ + ts_chars(h.start_date_utc) + " UTC"@
}

/// Render the hand header line.
pub fn build_header(h: &OhhHand) -> (r: String)
    ensures
        r@ == header_chars(h@),
{
    let mut r = String::from_str("PokerStars Hand #");
    r.append(h.game_number.as_str());
    r.append(": Hold'em No Limit (");
    let sb = fmt_money(h.small_blind_amount);
    r.append(sb.as_str());
    r.append("/");
    let bb = fmt_money(h.big_blind_amount);
    r.append(bb.as_str());
    r.append(" ");
    match &h.currency {
        Some(c) => r.append(c.as_str()),
        None => r.append("USD"),
    }
    r.append(") - ");
    let ts = clean_timestamp(h.start_date_utc.as_str());
    r.append(ts.as_str());
    r.append(" UTC");
    proof {
        assert(r@ =~= header_chars(h@));
    }
    r
}

/// The table line.
pub open spec fn table_chars(h: HandV) -> Seq<char> {
    "Table '"@ + h.table_name + "' "@ + crate::fmt::dec_digits(h.table_size as int) + "-max Seat #"@
        + crate::fmt::dec_digits(h.dealer_seat as int) + " is the button"@
}

/// Render the table line.
pub fn build_table(h: &OhhHand) -> (r: String)
    ensures
        r@ == table_chars(h@),
{
    let mut r = String::from_str("Table '");
    r.append(h.table_name.as_str());
    r.append("' ");
    let ts = crate::fmt::u64_to_dec(h.table_size as u64);
    r.append(ts.as_str());
    r.append("-max Seat #");
    let ds = crate::fmt::u64_to_dec(h.dealer_seat as u64);
    r.append(ds.as_str());
    r.append(" is the button");
    proof {
        assert(r@ =~= table_chars(h@));
    }
    r
}

/// The header line a street contributes, empty for unknown streets.
pub open spec fn street_header_chars(
    street: Seq<char>,
    brd: Seq<Seq<char>>,
    all: Seq<Seq<char>>,
) -> Seq<char> {
    if street == "Preflop"@ {
        "*** HOLE CARDS ***"@
    } else if street == "Flop"@ {
        "*** FLOP *** ["@ + cards_chars(brd) + "]"@
    } else if street == "Turn"@ {
        if all.len() >= 4 {
            "*** TURN *** ["@ + cards_chars(all.take(3)) + "] ["@ + card_chars(all[3]) + "]"@
        } else {
            "*** TURN *** ["@ + cards_chars(brd) + "]"@
        }
    } else if street == "River"@ {
        if all.len() >= 5 {
            "*** RIVER *** ["@ + cards_chars(all.take(4)) + "] ["@ + card_chars(all[4]) + "]"@
        } else {
            "*** RIVER *** ["@ + cards_chars(brd) + "]"@
        }
    } else if street == "Showdown"@ {
        "*** SHOW DOWN ***"@
    } else {
        Seq::empty()
    }
}

/// Render the header line of one street, given the street's own cards and
/// the full board known so far.
pub fn street_header(street: &str, brd: &[String], all_board: &[String]) -> (r: String)
    ensures
        r@ == street_header_chars(
            street@,
            brd@.map_values(|c: String| c@),
            all_board@.map_values(|c: String| c@),
        ),
{
    let ghost allv = all_board@.map_values(|c: String| c@);
    if str_eq(street, "Preflop") {
        String::from_str("*** HOLE CARDS ***")
    } else if str_eq(street, "Flop") {
        let mut r = String::from_str("*** FLOP *** [");
        let cs = cards(brd);
        r.append(cs.as_str());
        r.append("]");
        proof {
            assert(r@ =~= street_header_chars(
                street@,
                brd@.map_values(|c: String| c@),
                allv,
            ));
        }
        r
    } else if str_eq(street, "Turn") {
        if all_board.len() >= 4 {
            let mut r = String::from_str("*** TURN *** [");
            let flop = &all_board[0..3];
            let cs = cards(flop);
            proof {
                assert(flop@.map_values(|c: String| c@) =~= allv.take(3));
            }
            r.append(cs.as_str());
            r.append("] [");
            let tc = card(all_board[3].as_str());
            r.append(tc.as_str());
            r.append("]");
            proof {
                assert(r@ =~= street_header_chars(
                    street@,
                    brd@.map_values(|c: String| c@),
                    allv,
                ));
            }
            r
        } else {
            let mut r = String::from_str("*** TURN *** [");
            let cs = cards(brd);
            r.append(cs.as_str());
            r.append("]");
            proof {
                assert(r@ =~= street_header_chars(
                    street@,
                    brd@.map_values(|c: String| c@),
                    allv,
                ));
            }
            r
        }
    } else if str_eq(street, "River") {
        if all_board.len() >= 5 {
            let mut r = String::from_str("*** RIVER *** [");
            let ft = &all_board[0..4];
            let cs = cards(ft);
            proof {
                assert(ft@.map_values(|c: String| c@) =~= allv.take(4));
            }
            r.append(cs.as_str());
            r.append("] [");
            let rc = card(all_board[4].as_str());
            r.append(rc.as_str());
            r.append("]");
            proof {
                assert(r@ =~= street_header_chars(
                    street@,
                    brd@.map_values(|c: String| c@),
                    allv,
                ));
            }
            r
        } else {
            let mut r = String::from_str("*** RIVER *** [");
            let cs = cards(brd);
            r.append(cs.as_str());
            r.append("]");
            proof {
                assert(r@ =~= street_header_chars(
                    street@,
                    brd@.map_values(|c: String| c@),
                    allv,
                ));
            }
            r
        }
    } else if str_eq(street, "Showdown") {
        String::from_str("*** SHOW DOWN ***")
    } else {
        String::new()
    }
}

/// Subtraction of cent amounts that saturates at the machine bounds instead
/// of wrapping.
pub open spec fn sat_sub(a: i64, b: i64) -> int {
    if a - b > i64::MAX {
        i64::MAX as int
    } else if a - b < i64::MIN {
        i64::MIN as int
    } else {
        a - b
    }
}

fn sat_sub_exec(a: i64, b: i64) -> (r: i64)
    ensures
        r as int == sat_sub(a, b),
{
    let d = (a as i128) - (b as i128);
    if d > i64::MAX as i128 {
        i64::MAX
    } else if d < i64::MIN as i128 {
        i64::MIN
    } else {
        d as i64
    }
}

pub open spec fn is_blind_kind(a: Seq<char>) -> bool {
    a == "Post SB"@ || a == "Post BB"@ || a == "Post Ante"@
}

/// Which of the three emission groups an action falls in: blind postings
/// first, card deals second, everything else third.
pub open spec fn group_of(a: ActionV) -> int {
    if is_blind_kind(a.action) {
        0
    } else if a.action == "Dealt Cards"@ {
        1
    } else {
        2
    }
}

/// The running bet state within one street: the last posted or bet amount,
/// whether an aggressive action was already seen, and for every bet or raise
/// the amounts the line rendering needs, keyed by action index.
pub struct ScanSt {
    pub last_bet: i64,
    pub has_bet: bool,
    pub tr: Map<u32, (i64, i64, bool)>,
}

pub open spec fn scan_init() -> ScanSt {
    ScanSt { last_bet: 0, has_bet: false, tr: Map::empty() }
}

/// One action's effect on the bet state: postings re-seed the running
/// amount, bets and raises record (prior, new, had-prior) under their index.
pub open spec fn scan_step(st: ScanSt, a: ActionV) -> ScanSt {
    match a.amount {
        Some(amt) => if is_blind_kind(a.action) {
            ScanSt { last_bet: amt, has_bet: st.has_bet, tr: st.tr }
        } else if a.action == "Bet"@ || a.action == "Raise"@ {
            ScanSt {
                last_bet: amt,
                has_bet: true,
                tr: st.tr.insert(a.action_number, (st.last_bet, amt, st.has_bet)),
            }
        } else {
            st
        },
        None => st,
    }
}

/// The bet state after the first `i` actions of a street.
pub open spec fn scan_upto(actions: Seq<ActionV>, i: int) -> ScanSt
    decreases i,
{
    if i <= 0 {
        scan_init()
    } else {
        scan_step(scan_upto(actions, i - 1), actions[i - 1])
    }
}

pub open spec fn raise_line_chars(n: Seq<char>, prev: i64, amt: i64, allin: Seq<char>) -> Seq<
    char,
> {
    n + ": raises "@ + money_chars(sat_sub(amt, prev)) + " to "@ + money_chars(amt as int) + allin
}

/// The line one action renders to, if any, given the bet state after its own
/// tracker update.
pub open spec fn act_line_chars(h: HandV, a: ActionV, tr: Map<u32, (i64, i64, bool)>) -> Option<
    Seq<char>,
> {
    match a.player_id {
        None => None,
        Some(pid) => {
            let n = name_of(h, pid);
            let amt: i64 = match a.amount {
                Some(x) => x,
                None => 0,
            };
            let allin: Seq<char> = if a.is_allin == Some(true) {
                " and is all-in"@
            } else {
                Seq::empty()
            };
            if a.action == "Post SB"@ {
                Some(n + ": posts small blind "@ + money_chars(amt as int))
            } else if a.action == "Post BB"@ {
                Some(n + ": posts big blind "@ + money_chars(amt as int))
            } else if a.action == "Post Ante"@ {
                Some(n + ": posts the ante "@ + money_chars(amt as int))
            } else if a.action == "Dealt Cards"@ {
                let show = match h.hero_player_id {
                    Some(hid) => hid == pid,
                    None => true,
                };
                match a.cards {
                    Some(cs) => if show && cs.len() >= 2 {
                        Some(
                            "Dealt to "@ + n + " ["@ + card_chars(cs[0]) + " "@ + card_chars(cs[1])
                                + "]"@,
                        )
                    } else {
                        None
                    },
                    None => None,
                }
            } else if a.action == "Fold"@ {
                Some(n + ": folds"@)
            } else if a.action == "Check"@ {
                Some(n + ": checks"@)
            } else if a.action == "Call"@ {
                Some(n + ": calls "@ + money_chars(amt as int) + allin)
            } else if a.action == "Bet"@ {
                if tr.contains_key(a.action_number) && tr[a.action_number].2
                    && tr[a.action_number].0 > 0 {
                    Some(raise_line_chars(n, tr[a.action_number].0, amt, allin))
                } else {
                    Some(n + ": bets "@ + money_chars(amt as int) + allin)
                }
            } else if a.action == "Raise"@ {
                if tr.contains_key(a.action_number) && tr[a.action_number].0 > 0 {
                    Some(raise_line_chars(n, tr[a.action_number].0, amt, allin))
                } else {
                    Some(n + ": bets "@ + money_chars(amt as int) + allin)
                }
            } else if a.action == "Shows Cards"@ {
                match a.cards {
                    Some(cs) => if cs.len() >= 2 {
                        Some(n + ": shows ["@ + card_chars(cs[0]) + " "@ + card_chars(cs[1]) + "]"@)
                    } else {
                        Some(n + ": shows"@)
                    },
                    None => Some(n + ": shows"@),
                }
            } else if a.action == "Muck"@ {
                Some(n + ": mucks hand"@)
            } else {
                None
            }
        },
    }
}

/// Render one action's line, if it produces one, against the current street
/// tracker.
pub fn act_line_with_context(
    h: &OhhHand,
    a: &Action,
    tracker: &std::collections::HashMap<u32, (i64, i64, bool)>,
) -> (r: Option<String>)
    ensures
        match r {
            Some(l) => act_line_chars(h@, a@, tracker@) == Some(l@),
            None => act_line_chars(h@, a@, tracker@) is None,
        },
{
    let pid = match &a.player_id {
        Some(p) => p,
        None => {
            return None;
        },
    };
    let n = name_by_id(h, pid.as_str());
    let amt: i64 = match a.amount {
        Some(x) => x,
        None => 0,
    };
    let has_allin = match a.is_allin {
        Some(b) => b,
        None => false,
    };
    let act = a.action.as_str();
    if str_eq(act, "Post SB") {
        let mut r = n;
        r.append(": posts small blind ");
        let m = fmt_money(amt);
        r.append(m.as_str());
        proof {
            assert(r@ =~= act_line_chars(h@, a@, tracker@)->Some_0);
        }
        Some(r)
    } else if str_eq(act, "Post BB") {
        let mut r = n;
        r.append(": posts big blind ");
        let m = fmt_money(amt);
        r.append(m.as_str());
        proof {
            assert(r@ =~= act_line_chars(h@, a@, tracker@)->Some_0);
        }
        Some(r)
    } else if str_eq(act, "Post Ante") {
        let mut r = n;
        r.append(": posts the ante ");
        let m = fmt_money(amt);
        r.append(m.as_str());
        proof {
            assert(r@ =~= act_line_chars(h@, a@, tracker@)->Some_0);
        }
        Some(r)
    } else if str_eq(act, "Dealt Cards") {
        let show = match &h.hero_player_id {
            Some(hid) => str_eq(hid.as_str(), pid.as_str()),
            None => true,
        };
        if show {
            match &a.cards {
                Some(cl) => {
                    if cl.len() >= 2 {
                        let mut r = String::from_str("Dealt to ");
                        r.append(n.as_str());
                        r.append(" [");
                        let c0 = card(cl[0].as_str());
                        r.append(c0.as_str());
                        r.append(" ");
                        let c1 = card(cl[1].as_str());
                        r.append(c1.as_str());
                        r.append("]");
                        proof {
                            assert(a@.cards->Some_0[0] == cl@[0]@);
                            assert(a@.cards->Some_0[1] == cl@[1]@);
                            assert(r@ =~= act_line_chars(h@, a@, tracker@)->Some_0);
                        }
                        return Some(r);
                    }
                    None
                },
                None => None,
            }
        } else {
            None
        }
    } else if str_eq(act, "Fold") {
        let mut r = n;
        r.append(": folds");
        proof {
            assert(r@ =~= act_line_chars(h@, a@, tracker@)->Some_0);
        }
        Some(r)
    } else if str_eq(act, "Check") {
        let mut r = n;
        r.append(": checks");
        proof {
            assert(r@ =~= act_line_chars(h@, a@, tracker@)->Some_0);
        }
        Some(r)
    } else if str_eq(act, "Call") {
        let mut r = n;
        r.append(": calls ");
        let m = fmt_money(amt);
        r.append(m.as_str());
        if has_allin {
            r.append(" and is all-in");
        }
        proof {
            assert(r@ =~= act_line_chars(h@, a@, tracker@)->Some_0);
        }
        Some(r)
    } else if str_eq(act, "Bet") {
        let entry = tracker.get(&a.action_number);
        match entry {
            Some(t) => {
                let (prev_bet, _total, has_bet) = *t;
                if has_bet && prev_bet > 0 {
                    let r = raise_line(n, prev_bet, amt, has_allin);
                    proof {
                        assert(r@ =~= act_line_chars(h@, a@, tracker@)->Some_0);
                    }
                    return Some(r);
                }
            },
            None => {},
        }
        let mut r = n;
        r.append(": bets ");
        let m = fmt_money(amt);
        r.append(m.as_str());
        if has_allin {
            r.append(" and is all-in");
        }
        proof {
            assert(r@ =~= act_line_chars(h@, a@, tracker@)->Some_0);
        }
        Some(r)
    } else if str_eq(act, "Raise") {
        let entry = tracker.get(&a.action_number);
        match entry {
            Some(t) => {
                let (prev_bet, _total, _has_bet) = *t;
                if prev_bet > 0 {
                    let r = raise_line(n, prev_bet, amt, has_allin);
                    proof {
                        assert(r@ =~= act_line_chars(h@, a@, tracker@)->Some_0);
                    }
                    return Some(r);
                }
            },
            None => {},
        }
        let mut r = n;
        r.append(": bets ");
        let m = fmt_money(amt);
        r.append(m.as_str());
        if has_allin {
            r.append(" and is all-in");
        }
        proof {
            assert(r@ =~= act_line_chars(h@, a@, tracker@)->Some_0);
        }
        Some(r)
    } else if str_eq(act, "Shows Cards") {
        match &a.cards {
            Some(cl) => {
                if cl.len() >= 2 {
                    let mut r = n;
                    r.append(": shows [");
                    let c0 = card(cl[0].as_str());
                    r.append(c0.as_str());
                    r.append(" ");
                    let c1 = card(cl[1].as_str());
                    r.append(c1.as_str());
                    r.append("]");
                    proof {
                        assert(a@.cards->Some_0[0] == cl@[0]@);
                        assert(a@.cards->Some_0[1] == cl@[1]@);
                        assert(r@ =~= act_line_chars(h@, a@, tracker@)->Some_0);
                    }
                    return Some(r);
                }
                let mut r = n;
                r.append(": shows");
                proof {
                    assert(r@ =~= act_line_chars(h@, a@, tracker@)->Some_0);
                }
                Some(r)
            },
            None => {
                let mut r = n;
                r.append(": shows");
                proof {
                    assert(r@ =~= act_line_chars(h@, a@, tracker@)->Some_0);
                }
                Some(r)
            },
        }
    } else if str_eq(act, "Muck") {
        let mut r = n;
        r.append(": mucks hand");
        proof {
            assert(r@ =~= act_line_chars(h@, a@, tracker@)->Some_0);
        }
        Some(r)
    } else {
        None
    }
}

fn raise_line(n: String, prev: i64, amt: i64, has_allin: bool) -> (r: String)
    ensures
        r@ == raise_line_chars(
            n@,
            prev,
            amt,
            if has_allin {
                " and is all-in"@
            } else {
                Seq::empty()
            },
        ),
{
    let mut r = n;
    r.append(": raises ");
    let d = sat_sub_exec(amt, prev);
    let m1 = fmt_money(d);
    r.append(m1.as_str());
    r.append(" to ");
    let m2 = fmt_money(amt);
    r.append(m2.as_str());
    if has_allin {
        r.append(" and is all-in");
    }
    proof {
        assert(r@ =~= raise_line_chars(
            n@,
            prev,
            amt,
            if has_allin {
                " and is all-in"@
            } else {
                Seq::empty()
            },
        ));
    }
    r
}

/// When a hero is set, a dealt-cards action of any other player renders no
/// line: only the hero's hole cards are shown.
pub proof fn lemma_hero_filter(
    h: HandV,
    a: ActionV,
    tr: Map<u32, (i64, i64, bool)>,
    hid: Seq<char>,
    pid: Seq<char>,
)
    requires
        h.hero_player_id == Some(hid),
        a.player_id == Some(pid),
        a.action == "Dealt Cards"@,
        pid != hid,
    ensures
        act_line_chars(h, a, tr) is None,
{
    reveal_strlit("Dealt Cards");
    reveal_strlit("Post SB");
    reveal_strlit("Post BB");
    reveal_strlit("Post Ante");
    assert("Dealt Cards"@.len() == 11);
    assert("Post SB"@.len() == 7);
    assert("Post BB"@.len() == 7);
    assert("Post Ante"@.len() == 9);
}

/// A bet with no recorded prior bet this street renders as a plain bet of
/// its amount; the same action against a recorded positive prior bet
/// renders as a raise by the difference, to the new amount.
pub proof fn lemma_bet_vs_raise(
    h: HandV,
    a: ActionV,
    tr_first: Map<u32, (i64, i64, bool)>,
    tr_later: Map<u32, (i64, i64, bool)>,
    amt: i64,
)
    requires
        a.player_id is Some,
        a.action == "Bet"@,
        a.amount == Some(amt),
        !tr_first.contains_key(a.action_number),
        tr_later.contains_key(a.action_number),
        tr_later[a.action_number].2,
        tr_later[a.action_number].0 > 0,
    ensures
        act_line_chars(h, a, tr_first) == Some(
            name_of(h, a.player_id->Some_0) + ": bets "@ + money_chars(amt as int) + (
            if a.is_allin == Some(true) {
                " and is all-in"@
            } else {
                Seq::<char>::empty()
            }),
        ),
        act_line_chars(h, a, tr_later) == Some(
            raise_line_chars(
                name_of(h, a.player_id->Some_0),
                tr_later[a.action_number].0,
                amt,
                if a.is_allin == Some(true) {
                    " and is all-in"@
                } else {
                    Seq::<char>::empty()
                },
            ),
        ),
{
    reveal_strlit("Bet");
    reveal_strlit("Post SB");
    reveal_strlit("Post BB");
    reveal_strlit("Post Ante");
    reveal_strlit("Dealt Cards");
    reveal_strlit("Fold");
    reveal_strlit("Check");
    reveal_strlit("Call");
    assert("Bet"@.len() == 3);
    assert("Post SB"@.len() == 7);
    assert("Post BB"@.len() == 7);
    assert("Post Ante"@.len() == 9);
    assert("Dealt Cards"@.len() == 11);
    assert("Fold"@.len() == 4);
    assert("Check"@.len() == 5);
    assert("Call"@.len() == 4);
}

/// Insert a player behind every earlier player with the same or a lower
/// seat, keeping the sort stable.
pub open spec fn insert_player(s: Seq<PlayerV>, p: PlayerV) -> Seq<PlayerV>
    decreases s.len(),
{
    if s.len() == 0 {
        seq![p]
    } else if s.last().seat <= p.seat {
        s.push(p)
    } else {
        insert_player(s.drop_last(), p).push(s.last())
    }
}

/// The players in ascending seat order; equal seats keep their given order.
pub open spec fn sort_players(s: Seq<PlayerV>) -> Seq<PlayerV>
    decreases s.len(),
{
    if s.len() == 0 {
        Seq::empty()
    } else {
        insert_player(sort_players(s.drop_last()), s.last())
    }
}

proof fn lemma_insert_player_at(s: Seq<PlayerV>, p: PlayerV, j: int)
    requires
        0 <= j <= s.len(),
        forall|k: int| j <= k < s.len() ==> s[k].seat > p.seat,
        j > 0 ==> s[j - 1].seat <= p.seat,
    ensures
        insert_player(s, p) =~= s.take(j) + seq![p] + s.skip(j),
    decreases s.len(),
{
    if s.len() == 0 {
        assert(insert_player(s, p) =~= s.take(j) + seq![p] + s.skip(j));
    } else if j == s.len() {
        assert(insert_player(s, p) =~= s.take(j) + seq![p] + s.skip(j));
    } else {
        assert(s.last().seat > p.seat);
        lemma_insert_player_at(s.drop_last(), p, j);
        assert(insert_player(s.drop_last(), p).push(s.last()) =~= s.take(j) + seq![p] + s.skip(j));
    }
}

pub open spec fn seat_line_chars(p: PlayerV) -> Seq<char> {
    "Seat "@ + crate::fmt::dec_digits(p.seat as int) + ": "@ + p.name + " ("@ + money_chars(
        p.starting_stack as int,
    ) + " in chips)"@
}

/// The seats block: one line per player, in seat order.
pub open spec fn seats_chars(h: HandV) -> Seq<char> {
    spec_join(sort_players(h.players).map_values(|p: PlayerV| seat_line_chars(p)), "\n"@)
}

/// The players selected by a list of indices, in that order.
pub open spec fn map_idx(pv: Seq<PlayerV>, idx: Seq<usize>) -> Seq<PlayerV> {
    Seq::new(idx.len(), |k: int| pv[idx[k] as int])
}

fn seat_line(p: &crate::model::Player) -> (r: String)
    ensures
        r@ == seat_line_chars(p@),
{
    let mut r = String::from_str("Seat ");
    let sn = crate::fmt::u64_to_dec(p.seat as u64);
    r.append(sn.as_str());
    r.append(": ");
    r.append(p.name.as_str());
    r.append(" (");
    let m = fmt_money(p.starting_stack);
    r.append(m.as_str());
    r.append(" in chips)");
    proof {
        assert(r@ =~= seat_line_chars(p@));
    }
    r
}

/// Render the seats block, players sorted by seat number.
pub fn build_seats(h: &OhhHand) -> (r: String)
    ensures
        r@ == seats_chars(h@),
{
    let ghost pv = h@.players;
    let n = h.players.len();
    let mut idx: Vec<usize> = Vec::new();
    let mut i: usize = 0;
    while i < n
        invariant
            n == h.players@.len(),
            pv == h@.players,
            pv.len() == n,
            i <= n,
            idx@.len() == i,
            forall|k: int| 0 <= k < i ==> (#[trigger] idx@[k]) < n,
            map_idx(pv, idx@) == sort_players(pv.take(i as int)),
        decreases n - i,
    {
        let seat_i = h.players[i].seat;
        proof {
            assert(pv[i as int].seat == seat_i);
        }
        let mut j: usize = idx.len();
        while j > 0 && h.players[idx[j - 1]].seat > seat_i
            invariant
                n == h.players@.len(),
                pv == h@.players,
                pv.len() == n,
                i < n,
                seat_i == pv[i as int].seat,
                idx@.len() == i,
                forall|k: int| 0 <= k < i ==> (#[trigger] idx@[k]) < n,
                j <= i,
                forall|k: int|
                    j <= k < i ==> (#[trigger] map_idx(pv, idx@)[k]).seat > pv[i as int].seat,
            decreases j,
        {
            proof {
                assert(map_idx(pv, idx@)[j - 1] == pv[idx@[j - 1] as int]);
            }
            j -= 1;
        }
        proof {
            if j > 0 {
                assert(map_idx(pv, idx@)[j - 1] == pv[idx@[j - 1] as int]);
            }
            lemma_insert_player_at(map_idx(pv, idx@), pv[i as int], j as int);
        }
        let ghost old_idx = idx@;
        idx.insert(j, i);
        proof {
            assert(map_idx(pv, idx@) =~= map_idx(pv, old_idx).take(j as int) + seq![pv[i as int]]
                + map_idx(pv, old_idx).skip(j as int));
            assert(pv.take(i + 1).drop_last() =~= pv.take(i as int));
            assert(pv.take(i + 1).last() == pv[i as int]);
            assert(map_idx(pv, idx@) == sort_players(pv.take(i + 1)));
        }
        i += 1;
    }
    proof {
        assert(pv.take(n as int) =~= pv);
    }
    let mut lines: Vec<String> = Vec::new();
    let mut k: usize = 0;
    while k < n
        invariant
            n == h.players@.len(),
            pv == h@.players,
            pv.len() == n,
            idx@.len() == n,
            forall|t: int| 0 <= t < n ==> (#[trigger] idx@[t]) < n,
            map_idx(pv, idx@) == sort_players(pv),
            k <= n,
            lines@.len() == k,
            forall|t: int|
                0 <= t < k ==> lines@[t]@ == seat_line_chars(sort_players(pv)[t]),
        decreases n - k,
    {
        let line = seat_line(&h.players[idx[k]]);
        proof {
            assert(map_idx(pv, idx@)[k as int] == pv[idx@[k as int] as int]);
        }
        lines.push(line);
        k += 1;
    }
    proof {
        assert(lines.deep_view() =~= sort_players(pv).map_values(
            |p: PlayerV| seat_line_chars(p),
        ));
        reveal_strlit("\n");
    }
    join_with(&lines, "\n")
}

/// The lines of one emission group, in action order, each rendered against
/// the bet state after its own update.
pub open spec fn lines_in_group(h: HandV, actions: Seq<ActionV>, i: int, g: int) -> Seq<Seq<char>>
    decreases i,
{
    if i <= 0 {
        Seq::empty()
    } else {
        lines_in_group(h, actions, i - 1, g) + (match act_line_chars(
            h,
            actions[i - 1],
            scan_upto(actions, i).tr,
        ) {
            Some(l) => if group_of(actions[i - 1]) == g {
                seq![l]
            } else {
                Seq::empty()
            },
            None => Seq::empty(),
        })
    }
}

pub open spec fn maybe_header(hdr: Seq<char>) -> Seq<Seq<char>> {
    if hdr.len() == 0 {
        Seq::empty()
    } else {
        seq![hdr]
    }
}

/// The lines one round contributes: its street header and its three action
/// groups, with the blinds ahead of the header on the preflop street.
pub open spec fn round_lines(h: HandV, r: RoundV, all: Seq<Seq<char>>) -> Seq<Seq<char>> {
    let n = r.actions.len() as int;
    let blinds = lines_in_group(h, r.actions, n, 0);
    let deals = lines_in_group(h, r.actions, n, 1);
    let others = lines_in_group(h, r.actions, n, 2);
    let hdr = maybe_header(street_header_chars(r.street, r.cards, all));
    if r.street == "Preflop"@ {
        blinds + hdr + deals + others
    } else {
        hdr + blinds + deals + others
    }
}

fn render_round(h: &OhhHand, round: &crate::model::Round, all_board: &Vec<String>) -> (out: Vec<
    String,
>)
    ensures
        out.deep_view() == round_lines(h@, round@, all_board@.map_values(|c: String| c@)),
{
    let ghost av = round@.actions;
    let ghost abv = all_board@.map_values(|c: String| c@);
    let mut tracker: std::collections::HashMap<u32, (i64, i64, bool)> =
        std::collections::HashMap::new();
    let mut last_bet: i64 = 0;
    let mut has_bet: bool = false;
    let mut blind_lines: Vec<String> = Vec::new();
    let mut dealt_lines: Vec<String> = Vec::new();
    let mut other_lines: Vec<String> = Vec::new();
    let n = round.actions.len();
    let mut k: usize = 0;
    while k < n
        invariant
            n == round.actions@.len(),
            av == round@.actions,
            av.len() == n,
            k <= n,
            tracker@ == scan_upto(av, k as int).tr,
            last_bet == scan_upto(av, k as int).last_bet,
            has_bet == scan_upto(av, k as int).has_bet,
            blind_lines.deep_view() == lines_in_group(h@, av, k as int, 0),
            dealt_lines.deep_view() == lines_in_group(h@, av, k as int, 1),
            other_lines.deep_view() == lines_in_group(h@, av, k as int, 2),
        decreases n - k,
    {
        let a = &round.actions[k];
        proof {
            assert(a@ == av[k as int]);
        }
        let is_blind = str_eq(a.action.as_str(), "Post SB") || str_eq(a.action.as_str(), "Post BB")
            || str_eq(a.action.as_str(), "Post Ante");
        let is_aggr = str_eq(a.action.as_str(), "Bet") || str_eq(a.action.as_str(), "Raise");
        match a.amount {
            Some(amt) => {
                if is_blind {
                    last_bet = amt;
                } else if is_aggr {
                    tracker.insert(a.action_number, (last_bet, amt, has_bet));
                    last_bet = amt;
                    has_bet = true;
                }
            },
            None => {},
        }
        proof {
            assert(scan_upto(av, k + 1) == scan_step(scan_upto(av, k as int), av[k as int]));
            assert(tracker@ == scan_upto(av, k + 1).tr);
            assert(last_bet == scan_upto(av, k + 1).last_bet);
            assert(has_bet == scan_upto(av, k + 1).has_bet);
        }
        let ghost old_blind = blind_lines.deep_view();
        let ghost old_dealt = dealt_lines.deep_view();
        let ghost old_other = other_lines.deep_view();
        match act_line_with_context(h, a, &tracker) {
            Some(l) => {
                let is_deal = str_eq(a.action.as_str(), "Dealt Cards");
                if is_blind {
                    blind_lines.push(l);
                } else if is_deal {
                    dealt_lines.push(l);
                } else {
                    other_lines.push(l);
                }
            },
            None => {},
        }
        proof {
            assert(blind_lines.deep_view() =~= lines_in_group(h@, av, k + 1, 0));
            assert(dealt_lines.deep_view() =~= lines_in_group(h@, av, k + 1, 1));
            assert(other_lines.deep_view() =~= lines_in_group(h@, av, k + 1, 2));
        }
        k += 1;
    }
    let hdr = street_header(round.street.as_str(), round.cards.as_slice(), all_board.as_slice());
    let is_preflop = str_eq(round.street.as_str(), "Preflop");
    let mut out: Vec<String> = Vec::new();
    if is_preflop {
        out.append(&mut blind_lines);
        if !hdr.as_str().is_empty() {
            out.push(hdr);
        }
        out.append(&mut dealt_lines);
        out.append(&mut other_lines);
    } else {
        if !hdr.as_str().is_empty() {
            out.push(hdr);
        }
        out.append(&mut blind_lines);
        out.append(&mut dealt_lines);
        out.append(&mut other_lines);
    }
    proof {
        assert(out.deep_view() =~= round_lines(h@, round@, abv));
    }
    out
}

/// The cards the board gains from the first `i` rounds, over every street.
pub open spec fn all_board_upto(rounds: Seq<RoundV>, i: int) -> Seq<Seq<char>>
    decreases i,
{
    if i <= 0 {
        Seq::empty()
    } else {
        all_board_upto(rounds, i - 1) + rounds[i - 1].cards
    }
}

/// The board cards that the summary shows: those of the flop, turn and
/// river rounds, in round order.
pub open spec fn summary_board(rounds: Seq<RoundV>, i: int) -> Seq<Seq<char>>
    decreases i,
{
    if i <= 0 {
        Seq::empty()
    } else {
        summary_board(rounds, i - 1) + (if rounds[i - 1].street == "Flop"@ || rounds[i
            - 1].street == "Turn"@ || rounds[i - 1].street == "River"@ {
            rounds[i - 1].cards
        } else {
            Seq::empty()
        })
    }
}

pub open spec fn win_line_chars(h: HandV, w: crate::model::PlayerWinV) -> Seq<char> {
    "Seat "@ + crate::fmt::dec_digits(seat_of(h, w.player_id) as int) + ": "@ + name_of(
        h,
        w.player_id,
    ) + " collected ("@ + money_chars(w.win_amount as int) + ")"@
}

/// The summary block: the fixed header, the first pot's total and rake, the
/// board when one was dealt, and one line per winner of that first pot.
pub open spec fn summary_chars(h: HandV) -> Seq<char> {
    if h.pots.len() == 0 {
        "*** SUMMARY ***\nTotal pot $0.00 | Rake $0.00"@
    } else {
        let pot = h.pots[0];
        let board = summary_board(h.rounds, h.rounds.len() as int);
        let head: Seq<Seq<char>> = seq![
            "*** SUMMARY ***"@,
            "Total pot "@ + money_chars(pot.amount as int) + " | Rake "@ + money_chars(
                pot.rake as int,
            ),
        ];
        let board_lines: Seq<Seq<char>> = if board.len() > 0 {
            seq!["Board ["@ + cards_chars(board) + "]"@]
        } else {
            Seq::empty()
        };
        let win_lines = pot.player_wins.map_values(|w: crate::model::PlayerWinV| win_line_chars(h, w));
        spec_join(head + board_lines + win_lines, "\n"@)
    }
}

/// Render the summary block.
pub fn summarize(h: &OhhHand) -> (r: String)
    ensures
        r@ == summary_chars(h@),
{
    if h.pots.len() == 0 {
        return String::from_str("*** SUMMARY ***\nTotal pot $0.00 | Rake $0.00");
    }
    let ghost rv = h@.rounds;
    let mut board: Vec<String> = Vec::new();
    let nr = h.rounds.len();
    let mut i: usize = 0;
    while i < nr
        invariant
            nr == h.rounds@.len(),
            rv == h@.rounds,
            rv.len() == nr,
            i <= nr,
            board@.map_values(|c: String| c@) == summary_board(rv, i as int),
        decreases nr - i,
    {
        let street = h.rounds[i].street.as_str();
        let ghost old_board = board@.map_values(|c: String| c@);
        if str_eq(street, "Flop") || str_eq(street, "Turn") || str_eq(street, "River") {
            let nc = h.rounds[i].cards.len();
            let mut j: usize = 0;
            while j < nc
                invariant
                    nr == h.rounds@.len(),
                    rv == h@.rounds,
                    rv.len() == nr,
                    i < nr,
                    nc == h.rounds@[i as int].cards@.len(),
                    j <= nc,
                    board@.map_values(|c: String| c@) == old_board + rv[i as int].cards.take(
                        j as int,
                    ),
                decreases nc - j,
            {
                let ghost prevb = board@;
                board.push(h.rounds[i].cards[j].clone());
                proof {
                    assert(board@.map_values(|c: String| c@) =~= prevb.map_values(
                        |c: String| c@,
                    ).push(board@.last()@));
                    assert(rv[i as int].cards.take(j + 1) =~= rv[i as int].cards.take(
                        j as int,
                    ).push(rv[i as int].cards[j as int]));
                    assert(board@.last()@ == rv[i as int].cards[j as int]);
                    assert(board@.map_values(|c: String| c@) =~= old_board + rv[i as int].cards.take(
                        j + 1,
                    ));
                }
                j += 1;
            }
            proof {
                assert(rv[i as int].cards.take(nc as int) =~= rv[i as int].cards);
                assert(board@.map_values(|c: String| c@) =~= summary_board(rv, i + 1));
            }
        } else {
            proof {
                assert(board@.map_values(|c: String| c@) =~= summary_board(rv, i + 1));
            }
        }
        i += 1;
    }
    let mut lines: Vec<String> = Vec::new();
    lines.push(String::from_str("*** SUMMARY ***"));
    let mut total_line = String::from_str("Total pot ");
    let m1 = fmt_money(h.pots[0].amount);
    total_line.append(m1.as_str());
    total_line.append(" | Rake ");
    let m2 = fmt_money(h.pots[0].rake);
    total_line.append(m2.as_str());
    lines.push(total_line);
    if board.len() > 0 {
        let mut board_line = String::from_str("Board [");
        let cs = cards(board.as_slice());
        board_line.append(cs.as_str());
        board_line.append("]");
        lines.push(board_line);
    }
    let ghost head_lines = lines.deep_view();
    let nw = h.pots[0].player_wins.len();
    let mut w: usize = 0;
    while w < nw
        invariant
            nw == h.pots@[0].player_wins@.len(),
            h.pots@.len() > 0,
            w <= nw,
            lines.deep_view().len() == head_lines.len() + w,
            lines.deep_view().take(head_lines.len() as int) == head_lines,
            forall|t: int|
                0 <= t < w ==> lines.deep_view()[head_lines.len() + t] == win_line_chars(
                    h@,
                    h@.pots[0].player_wins[t],
                ),
        decreases nw - w,
    {
        let win = &h.pots[0].player_wins[w];
        let mut line = String::from_str("Seat ");
        let st = seat_by_id(h, win.player_id.as_str());
        let sn = crate::fmt::u64_to_dec(st as u64);
        line.append(sn.as_str());
        line.append(": ");
        let nm = name_by_id(h, win.player_id.as_str());
        line.append(nm.as_str());
        line.append(" collected (");
        let m = fmt_money(win.win_amount);
        line.append(m.as_str());
        line.append(")");
        proof {
            assert(win@ == h@.pots[0].player_wins[w as int]);
            assert(line@ =~= win_line_chars(h@, h@.pots[0].player_wins[w as int]));
        }
        lines.push(line);
        proof {
            assert(lines.deep_view().take(head_lines.len() as int) =~= head_lines);
        }
        w += 1;
    }
    proof {
        let sb = summary_board(rv, nr as int);
        let head2: Seq<Seq<char>> = seq![
            "*** SUMMARY ***"@,
            "Total pot "@ + money_chars(h@.pots[0].amount as int) + " | Rake "@ + money_chars(
                h@.pots[0].rake as int,
            ),
        ];
        let bls: Seq<Seq<char>> = if sb.len() > 0 {
            seq!["Board ["@ + cards_chars(sb) + "]"@]
        } else {
            Seq::empty()
        };
        let wl = h@.pots[0].player_wins.map_values(
            |pw: crate::model::PlayerWinV| win_line_chars(h@, pw),
        );
        assert(head_lines =~= head2 + bls);
        assert(lines.deep_view() =~= head_lines + wl);
        assert(lines.deep_view() =~= head2 + bls + wl);
    }
    join_with(&lines, "\n")
}

/// The lines that the per-round blocks contribute, for the first `i` rounds.
pub open spec fn rounds_lines(h: HandV, rounds: Seq<RoundV>, i: int) -> Seq<Seq<char>>
    decreases i,
{
    if i <= 0 {
        Seq::empty()
    } else {
        rounds_lines(h, rounds, i - 1) + round_lines(h, rounds[i - 1], all_board_upto(rounds, i))
    }
}

/// The whole rendered hand: header, table and seats lines, the per-street
/// blocks, and the summary, joined by newlines.
pub open spec fn render_chars(h: HandV) -> Seq<char> {
    spec_join(
        seq![header_chars(h), table_chars(h), seats_chars(h)] + rounds_lines(
            h,
            h.rounds,
            h.rounds.len() as int,
        ) + seq![summary_chars(h)],
        "\n"@,
    )
}

/// Render one hand record as its full text block.
pub fn ohh_to_pokerstars_text(h: &OhhHand) -> (r: String)
    ensures
        r@ == render_chars(h@),
{
    let ghost rv = h@.rounds;
    let mut lines: Vec<String> = Vec::new();
    lines.push(build_header(h));
    lines.push(build_table(h));
    lines.push(build_seats(h));
    let ghost head_lines = lines.deep_view();
    let mut all_board: Vec<String> = Vec::new();
    let nr = h.rounds.len();
    let mut i: usize = 0;
    while i < nr
        invariant
            nr == h.rounds@.len(),
            rv == h@.rounds,
            rv.len() == nr,
            i <= nr,
            head_lines == seq![header_chars(h@), table_chars(h@), seats_chars(h@)],
            all_board@.map_values(|c: String| c@) == all_board_upto(rv, i as int),
            lines.deep_view() == head_lines + rounds_lines(h@, rv, i as int),
        decreases nr - i,
    {
        let round = &h.rounds[i];
        proof {
            assert(round@ == rv[i as int]);
        }
        let ghost old_board = all_board@.map_values(|c: String| c@);
        let nc = round.cards.len();
        let mut j: usize = 0;
        while j < nc
            invariant
                nr == h.rounds@.len(),
                rv == h@.rounds,
                rv.len() == nr,
                i < nr,
                nc == h.rounds@[i as int].cards@.len(),
                j <= nc,
                old_board == all_board_upto(rv, i as int),
                all_board@.map_values(|c: String| c@) == old_board + rv[i as int].cards.take(
                    j as int,
                ),
            decreases nc - j,
        {
            let ghost prevb = all_board@;
            all_board.push(h.rounds[i].cards[j].clone());
            proof {
                assert(all_board@.map_values(|c: String| c@) =~= prevb.map_values(
                    |c: String| c@,
                ).push(all_board@.last()@));
                assert(rv[i as int].cards.take(j + 1) =~= rv[i as int].cards.take(
                    j as int,
                ).push(rv[i as int].cards[j as int]));
                assert(all_board@.last()@ == rv[i as int].cards[j as int]);
                assert(all_board@.map_values(|c: String| c@) =~= old_board + rv[i as int].cards.take(
                    j + 1,
                ));
            }
            j += 1;
        }
        proof {
            assert(rv[i as int].cards.take(nc as int) =~= rv[i as int].cards);
            assert(all_board@.map_values(|c: String| c@) =~= all_board_upto(rv, i + 1));
        }
        let mut round_out = render_round(h, round, &all_board);
        let ghost prev_lines = lines@;
        let ghost prev_deep = lines.deep_view();
        let ghost rdv = round_out@;
        let ghost rd = round_out.deep_view();
        lines.append(&mut round_out);
        proof {
            assert(lines@ == prev_lines + rdv);
            assert forall|t: int| 0 <= t < lines@.len() implies #[trigger] lines.deep_view()[t] == (
            prev_deep + rd)[t] by {
                if t < prev_lines.len() {
                    assert(lines@[t] == prev_lines[t]);
                } else {
                    assert(lines@[t] == rdv[t - prev_lines.len()]);
                }
            }
            assert(lines.deep_view() =~= prev_deep + rd);
            assert(lines.deep_view() =~= head_lines + rounds_lines(h@, rv, i + 1));
        }
        i += 1;
    }
    lines.push(summarize(h));
    proof {
        reveal_strlit("\n");
        assert(lines.deep_view() =~= seq![header_chars(h@), table_chars(h@), seats_chars(h@)]
            + rounds_lines(h@, rv, nr as int) + seq![summary_chars(h@)]);
    }
    join_with(&lines, "\n")
}

} // verus!
