use crate::json::{
    json_as_array, json_as_bool, json_as_str, json_get, json_is_null, json_is_obj, json_num_text,
    json_value, JsonV,
};
use crate::model::{
    cast_opt_cents, opt_cents_view, opt_str_view, Action, ActionV, BetLimit, BetLimitV, HandV, OhhHand, Player,
    PlayerV, PlayerWin, PlayerWinV, Pot, PotV, Round, RoundV,
};
use crate::numbers::{
    cents_of_num_text, check_int_text, is_int_text, parse_cents, parse_u64_digits, uint_of_text,
};
use vstd::prelude::*;
use vstd::string::StringExecFns;

verus! {

/// Look a key up in a JSON object; anything else has no fields.
pub open spec fn jget(j: JsonV, k: Seq<char>) -> Option<JsonV> {
    match j {
        JsonV::Obj(m) => if m.contains_key(k) {
            Some(m[k])
        } else {
            None
        },
        _ => None,
    }
}

/// A required string field.
pub open spec fn spec_req_str(j: JsonV, k: Seq<char>) -> Option<Seq<char>> {
    match jget(j, k) {
        Some(JsonV::Text(t)) => Some(t),
        _ => None,
    }
}

/// An optional string field: absent and null both mean no value; any other
/// non-string value is an error.
pub open spec fn spec_opt_str(j: JsonV, k: Seq<char>) -> Option<Option<Seq<char>>> {
    match jget(j, k) {
        None => Some(None),
        Some(JsonV::Null) => Some(None),
        Some(JsonV::Text(t)) => Some(Some(t)),
        Some(_) => None,
    }
}

/// A player identity: a JSON string as it stands, or an integer number
/// carried over as its decimal text, so that both spellings of an id meet in
/// one string space.
pub open spec fn spec_id_of(jv: JsonV) -> Option<Seq<char>> {
    match jv {
        JsonV::Text(t) => Some(t),
        JsonV::Num(t) => if is_int_text(t) {
            Some(t)
        } else {
            None
        },
        _ => None,
    }
}

pub open spec fn spec_req_id(j: JsonV, k: Seq<char>) -> Option<Seq<char>> {
    match jget(j, k) {
        Some(x) => spec_id_of(x),
        None => None,
    }
}

pub open spec fn spec_opt_id(j: JsonV, k: Seq<char>) -> Option<Option<Seq<char>>> {
    match jget(j, k) {
        None => Some(None),
        Some(JsonV::Null) => Some(None),
        Some(x) => match spec_id_of(x) {
            Some(t) => Some(Some(t)),
            None => None,
        },
    }
}

/// A money amount: a JSON number whose decimal text converts to cents.
pub open spec fn spec_cents_of(jv: JsonV) -> Option<int> {
    match jv {
        JsonV::Num(t) => cents_of_num_text(t),
        _ => None,
    }
}

pub open spec fn spec_req_cents(j: JsonV, k: Seq<char>) -> Option<int> {
    match jget(j, k) {
        Some(x) => spec_cents_of(x),
        None => None,
    }
}

pub open spec fn spec_opt_cents(j: JsonV, k: Seq<char>) -> Option<Option<int>> {
    match jget(j, k) {
        None => Some(None),
        Some(JsonV::Null) => Some(None),
        Some(x) => match spec_cents_of(x) {
            Some(c) => Some(Some(c)),
            None => None,
        },
    }
}

/// A required unsigned integer field, bounded by `max`.
pub open spec fn spec_req_uint(j: JsonV, k: Seq<char>, max: int) -> Option<int> {
    match jget(j, k) {
        Some(JsonV::Num(t)) => match uint_of_text(t) {
            Some(u) => if u <= max {
                Some(u)
            } else {
                None
            },
            None => None,
        },
        _ => None,
    }
}

pub open spec fn spec_opt_bool(j: JsonV, k: Seq<char>) -> Option<Option<bool>> {
    match jget(j, k) {
        None => Some(None),
        Some(JsonV::Null) => Some(None),
        Some(JsonV::Bool(b)) => Some(Some(b)),
        Some(_) => None,
    }
}

/// All elements as strings, or nothing if one is not a string.
pub open spec fn spec_texts_of(s: Seq<JsonV>) -> Option<Seq<Seq<char>>>
    decreases s.len(),
{
    if s.len() == 0 {
        Some(Seq::empty())
    } else {
        match (spec_texts_of(s.drop_last()), s.last()) {
            (Some(ts), JsonV::Text(t)) => Some(ts.push(t)),
            _ => None,
        }
    }
}

/// A card-list field that defaults to empty when absent.
pub open spec fn spec_cards_default(j: JsonV, k: Seq<char>) -> Option<Seq<Seq<char>>> {
    match jget(j, k) {
        None => Some(Seq::empty()),
        Some(JsonV::Arr(s)) => spec_texts_of(s),
        Some(_) => None,
    }
}

/// An optional card-list field: absent and null both mean no value.
pub open spec fn spec_opt_cards(j: JsonV, k: Seq<char>) -> Option<Option<Seq<Seq<char>>>> {
    match jget(j, k) {
        None => Some(None),
        Some(JsonV::Null) => Some(None),
        Some(JsonV::Arr(s)) => match spec_texts_of(s) {
            Some(ts) => Some(Some(ts)),
            None => None,
        },
        Some(_) => None,
    }
}

/// The game identifier, with its documented default when absent.
pub open spec fn spec_game_number(j: JsonV) -> Option<Seq<char>> {
    match jget(j, "game_number"@) {
        None => Some("unknown"@),
        Some(JsonV::Text(t)) => Some(t),
        Some(_) => None,
    }
}

fn req_str(v: &serde_json::Value, key: &str) -> (r: Option<String>)
    ensures
        match r {
            Some(s) => spec_req_str(json_value(*v), key@) == Some(s@),
            None => spec_req_str(json_value(*v), key@) is None,
        },
{
    match json_get(v, key) {
        Some(x) => match json_as_str(x) {
            Some(s) => Some(s.to_owned()),
            None => None,
        },
        None => None,
    }
}

fn opt_str(v: &serde_json::Value, key: &str) -> (r: Option<Option<String>>)
    ensures
        match r {
            Some(o) => spec_opt_str(json_value(*v), key@) == Some(opt_str_view(o)),
            None => spec_opt_str(json_value(*v), key@) is None,
        },
{
    match json_get(v, key) {
        None => Some(None),
        Some(x) => if json_is_null(x) {
            Some(None)
        } else {
            match json_as_str(x) {
                Some(s) => Some(Some(s.to_owned())),
                None => None,
            }
        },
    }
}

fn id_of(v: &serde_json::Value) -> (r: Option<String>)
    ensures
        match r {
            Some(s) => spec_id_of(json_value(*v)) == Some(s@),
            None => spec_id_of(json_value(*v)) is None,
        },
{
    match json_as_str(v) {
        Some(s) => Some(s.to_owned()),
        None => match json_num_text(v) {
            Some(t) => if check_int_text(t.as_str()) {
                Some(t)
            } else {
                None
            },
            None => None,
        },
    }
}

fn req_id(v: &serde_json::Value, key: &str) -> (r: Option<String>)
    ensures
        match r {
            Some(s) => spec_req_id(json_value(*v), key@) == Some(s@),
            None => spec_req_id(json_value(*v), key@) is None,
        },
{
    match json_get(v, key) {
        Some(x) => id_of(x),
        None => None,
    }
}

fn opt_id(v: &serde_json::Value, key: &str) -> (r: Option<Option<String>>)
    ensures
        match r {
            Some(o) => spec_opt_id(json_value(*v), key@) == Some(opt_str_view(o)),
            None => spec_opt_id(json_value(*v), key@) is None,
        },
{
    match json_get(v, key) {
        None => Some(None),
        Some(x) => if json_is_null(x) {
            Some(None)
        } else {
            match id_of(x) {
                Some(s) => Some(Some(s)),
                None => None,
            }
        },
    }
}

fn cents_of(v: &serde_json::Value) -> (r: Option<i64>)
    ensures
        match r {
            Some(c) => spec_cents_of(json_value(*v)) == Some(c as int),
            None => spec_cents_of(json_value(*v)) is None,
        },
{
    match json_num_text(v) {
        Some(t) => parse_cents(t.as_str()),
        None => None,
    }
}

fn req_cents(v: &serde_json::Value, key: &str) -> (r: Option<i64>)
    ensures
        match r {
            Some(c) => spec_req_cents(json_value(*v), key@) == Some(c as int),
            None => spec_req_cents(json_value(*v), key@) is None,
        },
{
    match json_get(v, key) {
        Some(x) => cents_of(x),
        None => None,
    }
}

fn opt_cents(v: &serde_json::Value, key: &str) -> (r: Option<Option<i64>>)
    ensures
        match r {
            Some(o) => spec_opt_cents(json_value(*v), key@) == Some(opt_cents_view(o)),
            None => spec_opt_cents(json_value(*v), key@) is None,
        },
{
    match json_get(v, key) {
        None => Some(None),
        Some(x) => if json_is_null(x) {
            Some(None)
        } else {
            match cents_of(x) {
                Some(c) => Some(Some(c)),
                None => None,
            }
        },
    }
}

fn req_u8(v: &serde_json::Value, key: &str) -> (r: Option<u8>)
    ensures
        match r {
            Some(n) => spec_req_uint(json_value(*v), key@, 255) == Some(n as int),
            None => spec_req_uint(json_value(*v), key@, 255) is None,
        },
{
    match json_get(v, key) {
        Some(x) => match json_num_text(x) {
            Some(t) => match parse_u64_digits(t.as_str()) {
                Some(n) => if n <= 255 {
                    Some(n as u8)
                } else {
                    None
                },
                None => None,
            },
            None => None,
        },
        None => None,
    }
}

fn req_u32(v: &serde_json::Value, key: &str) -> (r: Option<u32>)
    ensures
        match r {
            Some(n) => spec_req_uint(json_value(*v), key@, u32::MAX as int) == Some(n as int),
            None => spec_req_uint(json_value(*v), key@, u32::MAX as int) is None,
        },
{
    match json_get(v, key) {
        Some(x) => match json_num_text(x) {
            Some(t) => match parse_u64_digits(t.as_str()) {
                Some(n) => if n <= u32::MAX as u64 {
                    Some(n as u32)
                } else {
                    None
                },
                None => None,
            },
            None => None,
        },
        None => None,
    }
}

fn opt_bool(v: &serde_json::Value, key: &str) -> (r: Option<Option<bool>>)
    ensures
        match r {
            Some(o) => spec_opt_bool(json_value(*v), key@) == Some(o),
            None => spec_opt_bool(json_value(*v), key@) is None,
        },
{
    match json_get(v, key) {
        None => Some(None),
        Some(x) => if json_is_null(x) {
            Some(None)
        } else {
            match json_as_bool(x) {
                Some(b) => Some(Some(b)),
                None => None,
            }
        },
    }
}

proof fn lemma_texts_of_bad(s: Seq<JsonV>, i: int)
    requires
        0 <= i < s.len(),
        !(s[i] is Text),
    ensures
        spec_texts_of(s) is None,
    decreases s.len(),
{
    if i < s.len() - 1 {
        assert(s.drop_last()[i] == s[i]);
        lemma_texts_of_bad(s.drop_last(), i);
    }
}

fn texts_of(arr: &Vec<serde_json::Value>, Ghost(s): Ghost<Seq<JsonV>>) -> (r: Option<Vec<String>>)
    requires
        arr@.len() == s.len(),
        forall|i: int| 0 <= i < s.len() ==> json_value(arr@[i]) == s[i],
    ensures
        match r {
            Some(ts) => spec_texts_of(s) == Some(ts@.map_values(|t: String| t@)),
            None => spec_texts_of(s) is None,
        },
{
    let mut out: Vec<String> = Vec::new();
    let mut i: usize = 0;
    while i < arr.len()
        invariant
            arr@.len() == s.len(),
            forall|k: int| 0 <= k < s.len() ==> json_value(arr@[k]) == s[k],
            i <= s.len(),
            out@.len() == i,
            spec_texts_of(s.take(i as int)) == Some(out@.map_values(|t: String| t@)),
        decreases s.len() - i,
    {
        match json_as_str(&arr[i]) {
            Some(t) => {
                out.push(t.to_owned());
            },
            None => {
                proof {
                    lemma_texts_of_bad(s, i as int);
                }
                return None;
            },
        }
        proof {
            assert(s.take(i + 1).drop_last() =~= s.take(i as int));
            assert(s.take(i + 1).last() == s[i as int]);
            assert(out@.map_values(|t: String| t@) =~= out@.map_values(|t: String| t@).drop_last().push(
                out@.last()@,
            ));
            assert(out@.map_values(|t: String| t@).drop_last() =~= out@.drop_last().map_values(
                |t: String| t@,
            ));
        }
        i += 1;
    }
    proof {
        assert(s.take(s.len() as int) =~= s);
    }
    Some(out)
}

fn cards_default(v: &serde_json::Value, key: &str) -> (r: Option<Vec<String>>)
    ensures
        match r {
            Some(ts) => spec_cards_default(json_value(*v), key@) == Some(
                ts@.map_values(|t: String| t@),
            ),
            None => spec_cards_default(json_value(*v), key@) is None,
        },
{
    match json_get(v, key) {
        None => {
            let out: Vec<String> = Vec::new();
            proof {
                assert(out@.map_values(|t: String| t@) =~= Seq::<Seq<char>>::empty());
            }
            Some(out)
        },
        Some(x) => match json_as_array(x) {
            Some(a) => {
                let ghost s = json_value(*x)->Arr_0;
                texts_of(a, Ghost(s))
            },
            None => None,
        },
    }
}

fn opt_cards(v: &serde_json::Value, key: &str) -> (r: Option<Option<Vec<String>>>)
    ensures
        match r {
            Some(None) => spec_opt_cards(json_value(*v), key@) == Some(
                None::<Seq<Seq<char>>>,
            ),
            Some(Some(ts)) => spec_opt_cards(json_value(*v), key@) == Some(
                Some(ts@.map_values(|t: String| t@)),
            ),
            None => spec_opt_cards(json_value(*v), key@) is None,
        },
{
    match json_get(v, key) {
        None => Some(None),
        Some(x) => if json_is_null(x) {
            Some(None)
        } else {
            match json_as_array(x) {
                Some(a) => {
                    let ghost s = json_value(*x)->Arr_0;
                    match texts_of(a, Ghost(s)) {
                        Some(ts) => Some(Some(ts)),
                        None => None,
                    }
                },
                None => None,
            }
        },
    }
}

/// The game identifier used when a record carries none.
pub fn default_game_number() -> (r: String)
    ensures
        r@ == "unknown"@,
{
    String::from_str("unknown")
}

fn game_number_of(v: &serde_json::Value) -> (r: Option<String>)
    ensures
        match r {
            Some(s) => spec_game_number(json_value(*v)) == Some(s@),
            None => spec_game_number(json_value(*v)) is None,
        },
{
    match json_get(v, "game_number") {
        None => Some(default_game_number()),
        Some(x) => match json_as_str(x) {
            Some(s) => Some(s.to_owned()),
            None => None,
        },
    }
}

/// One player entry of the `players` list.
pub open spec fn spec_player(j: JsonV) -> Option<PlayerV> {
    if spec_req_id(j, "id"@) is Some && spec_req_uint(j, "seat"@, 255) is Some && spec_req_str(
        j,
        "name"@,
    ) is Some && spec_opt_str(j, "display"@) is Some && spec_req_cents(
        j,
        "starting_stack"@,
    ) is Some && spec_opt_cents(j, "player_bounty"@) is Some {
        Some(
            PlayerV {
                id: spec_req_id(j, "id"@)->Some_0,
                seat: spec_req_uint(j, "seat"@, 255)->Some_0 as u8,
                name: spec_req_str(j, "name"@)->Some_0,
                display: spec_opt_str(j, "display"@)->Some_0,
                starting_stack: spec_req_cents(j, "starting_stack"@)->Some_0 as i64,
                player_bounty: cast_opt_cents(spec_opt_cents(j, "player_bounty"@)->Some_0),
            },
        )
    } else {
        None
    }
}

/// One action entry of a round's `actions` list.
pub open spec fn spec_action(j: JsonV) -> Option<ActionV> {
    if spec_req_uint(j, "action_number"@, u32::MAX as int) is Some && spec_opt_id(
        j,
        "player_id"@,
    ) is Some && spec_req_str(j, "action"@) is Some && spec_opt_cents(j, "amount"@) is Some
        && spec_opt_bool(j, "is_allin"@) is Some && spec_opt_cards(j, "cards"@) is Some {
        Some(
            ActionV {
                action_number: spec_req_uint(j, "action_number"@, u32::MAX as int)->Some_0 as u32,
                player_id: spec_opt_id(j, "player_id"@)->Some_0,
                action: spec_req_str(j, "action"@)->Some_0,
                amount: cast_opt_cents(spec_opt_cents(j, "amount"@)->Some_0),
                is_allin: spec_opt_bool(j, "is_allin"@)->Some_0,
                cards: spec_opt_cards(j, "cards"@)->Some_0,
            },
        )
    } else {
        None
    }
}

/// One winner entry of a pot's `player_wins` list.
pub open spec fn spec_win(j: JsonV) -> Option<PlayerWinV> {
    if spec_req_id(j, "player_id"@) is Some && spec_req_cents(j, "win_amount"@) is Some
        && spec_opt_cents(j, "contributed_rake"@) is Some {
        Some(
            PlayerWinV {
                player_id: spec_req_id(j, "player_id"@)->Some_0,
                win_amount: spec_req_cents(j, "win_amount"@)->Some_0 as i64,
                contributed_rake: cast_opt_cents(spec_opt_cents(j, "contributed_rake"@)->Some_0),
            },
        )
    } else {
        None
    }
}

pub open spec fn spec_actions_of(s: Seq<JsonV>) -> Option<Seq<ActionV>>
    decreases s.len(),
{
    if s.len() == 0 {
        Some(Seq::empty())
    } else {
        match (spec_actions_of(s.drop_last()), spec_action(s.last())) {
            (Some(xs), Some(x)) => Some(xs.push(x)),
            _ => None,
        }
    }
}

pub open spec fn spec_wins_of(s: Seq<JsonV>) -> Option<Seq<PlayerWinV>>
    decreases s.len(),
{
    if s.len() == 0 {
        Some(Seq::empty())
    } else {
        match (spec_wins_of(s.drop_last()), spec_win(s.last())) {
            (Some(xs), Some(x)) => Some(xs.push(x)),
            _ => None,
        }
    }
}

/// One round entry of the `rounds` list.
pub open spec fn spec_round(j: JsonV) -> Option<RoundV> {
    if spec_req_uint(j, "id"@, 255) is Some && spec_req_str(j, "street"@) is Some
        && spec_cards_default(j, "cards"@) is Some && (match jget(j, "actions"@) {
        Some(JsonV::Arr(s)) => spec_actions_of(s) is Some,
        _ => false,
    }) {
        Some(
            RoundV {
                id: spec_req_uint(j, "id"@, 255)->Some_0 as u8,
                street: spec_req_str(j, "street"@)->Some_0,
                cards: spec_cards_default(j, "cards"@)->Some_0,
                actions: spec_actions_of(jget(j, "actions"@)->Some_0->Arr_0)->Some_0,
            },
        )
    } else {
        None
    }
}

/// One pot entry of the `pots` list.
pub open spec fn spec_pot(j: JsonV) -> Option<PotV> {
    if spec_req_uint(j, "number"@, 255) is Some && spec_req_cents(j, "amount"@) is Some
        && spec_req_cents(j, "rake"@) is Some && spec_opt_cents(j, "jackpot"@) is Some && (
    match jget(j, "player_wins"@) {
        Some(JsonV::Arr(s)) => spec_wins_of(s) is Some,
        _ => false,
    }) {
        Some(
            PotV {
                number: spec_req_uint(j, "number"@, 255)->Some_0 as u8,
                amount: spec_req_cents(j, "amount"@)->Some_0 as i64,
                rake: spec_req_cents(j, "rake"@)->Some_0 as i64,
                jackpot: cast_opt_cents(spec_opt_cents(j, "jackpot"@)->Some_0),
                player_wins: spec_wins_of(jget(j, "player_wins"@)->Some_0->Arr_0)->Some_0,
            },
        )
    } else {
        None
    }
}

pub open spec fn spec_players_of(s: Seq<JsonV>) -> Option<Seq<PlayerV>>
    decreases s.len(),
{
    if s.len() == 0 {
        Some(Seq::empty())
    } else {
        match (spec_players_of(s.drop_last()), spec_player(s.last())) {
            (Some(xs), Some(x)) => Some(xs.push(x)),
            _ => None,
        }
    }
}

pub open spec fn spec_rounds_of(s: Seq<JsonV>) -> Option<Seq<RoundV>>
    decreases s.len(),
{
    if s.len() == 0 {
        Some(Seq::empty())
    } else {
        match (spec_rounds_of(s.drop_last()), spec_round(s.last())) {
            (Some(xs), Some(x)) => Some(xs.push(x)),
            _ => None,
        }
    }
}

pub open spec fn spec_pots_of(s: Seq<JsonV>) -> Option<Seq<PotV>>
    decreases s.len(),
{
    if s.len() == 0 {
        Some(Seq::empty())
    } else {
        match (spec_pots_of(s.drop_last()), spec_pot(s.last())) {
            (Some(xs), Some(x)) => Some(xs.push(x)),
            _ => None,
        }
    }
}

/// The optional bet-limit descriptor: an object whose `bet_type` is kept.
pub open spec fn spec_bet_limit(j: JsonV) -> Option<Option<BetLimitV>> {
    match jget(j, "bet_limit"@) {
        None => Some(None),
        Some(JsonV::Null) => Some(None),
        Some(x) => if x is Obj {
            match spec_opt_str(x, "bet_type"@) {
                Some(bt) => Some(Some(BetLimitV { bet_type: bt })),
                None => None,
            }
        } else {
            None
        },
    }
}

/// A whole hand record.
pub open spec fn spec_hand(j: JsonV) -> Option<HandV> {
    if spec_opt_str(j, "spec_version"@) is Some && spec_game_number(j) is Some && spec_opt_str(
        j,
        "game_type"@,
    ) is Some && spec_bet_limit(j) is Some && spec_req_cents(j, "small_blind_amount"@) is Some
        && spec_req_cents(j, "big_blind_amount"@) is Some && spec_opt_str(j, "currency"@) is Some
        && spec_req_str(j, "start_date_utc"@) is Some && spec_req_str(j, "table_name"@) is Some
        && spec_req_uint(j, "table_size"@, 255) is Some && spec_opt_str(j, "table_handle"@) is Some
        && spec_req_uint(j, "dealer_seat"@, 255) is Some && spec_opt_id(j, "hero_player_id"@) is Some
        && spec_opt_str(j, "site_name"@) is Some && spec_opt_str(j, "network_name"@) is Some && (
    match jget(j, "players"@) {
        Some(JsonV::Arr(s)) => spec_players_of(s) is Some,
        _ => false,
    }) && (match jget(j, "rounds"@) {
        Some(JsonV::Arr(s)) => spec_rounds_of(s) is Some,
        _ => false,
    }) && (match jget(j, "pots"@) {
        Some(JsonV::Arr(s)) => spec_pots_of(s) is Some,
        _ => false,
    }) {
        Some(
            HandV {
                spec_version: spec_opt_str(j, "spec_version"@)->Some_0,
                game_number: spec_game_number(j)->Some_0,
                game_type: spec_opt_str(j, "game_type"@)->Some_0,
                bet_limit: spec_bet_limit(j)->Some_0,
                small_blind_amount: spec_req_cents(j, "small_blind_amount"@)->Some_0 as i64,
                big_blind_amount: spec_req_cents(j, "big_blind_amount"@)->Some_0 as i64,
                currency: spec_opt_str(j, "currency"@)->Some_0,
                start_date_utc: spec_req_str(j, "start_date_utc"@)->Some_0,
                table_name: spec_req_str(j, "table_name"@)->Some_0,
                table_size: spec_req_uint(j, "table_size"@, 255)->Some_0 as u8,
                table_handle: spec_opt_str(j, "table_handle"@)->Some_0,
                dealer_seat: spec_req_uint(j, "dealer_seat"@, 255)->Some_0 as u8,
                hero_player_id: spec_opt_id(j, "hero_player_id"@)->Some_0,
                site_name: spec_opt_str(j, "site_name"@)->Some_0,
                network_name: spec_opt_str(j, "network_name"@)->Some_0,
                players: spec_players_of(jget(j, "players"@)->Some_0->Arr_0)->Some_0,
                rounds: spec_rounds_of(jget(j, "rounds"@)->Some_0->Arr_0)->Some_0,
                pots: spec_pots_of(jget(j, "pots"@)->Some_0->Arr_0)->Some_0,
            },
        )
    } else {
        None
    }
}

fn decode_player(v: &serde_json::Value) -> (r: Option<Player>)
    ensures
        match r {
            Some(p) => spec_player(json_value(*v)) == Some(p@),
            None => spec_player(json_value(*v)) is None,
        },
{
    let id = match req_id(v, "id") {
        Some(x) => x,
        None => {
            return None;
        },
    };
    let seat = match req_u8(v, "seat") {
        Some(x) => x,
        None => {
            return None;
        },
    };
    let name = match req_str(v, "name") {
        Some(x) => x,
        None => {
            return None;
        },
    };
    let display = match opt_str(v, "display") {
        Some(x) => x,
        None => {
            return None;
        },
    };
    let starting_stack = match req_cents(v, "starting_stack") {
        Some(x) => x,
        None => {
            return None;
        },
    };
    let player_bounty = match opt_cents(v, "player_bounty") {
        Some(x) => x,
        None => {
            return None;
        },
    };
    Some(Player { id, seat, name, display, starting_stack, player_bounty })
}

fn decode_action(v: &serde_json::Value) -> (r: Option<Action>)
    ensures
        match r {
            Some(a) => spec_action(json_value(*v)) == Some(a@),
            None => spec_action(json_value(*v)) is None,
        },
{
    let action_number = match req_u32(v, "action_number") {
        Some(x) => x,
        None => {
            return None;
        },
    };
    let player_id = match opt_id(v, "player_id") {
        Some(x) => x,
        None => {
            return None;
        },
    };
    let action = match req_str(v, "action") {
        Some(x) => x,
        None => {
            return None;
        },
    };
    let amount = match opt_cents(v, "amount") {
        Some(x) => x,
        None => {
            return None;
        },
    };
    let is_allin = match opt_bool(v, "is_allin") {
        Some(x) => x,
        None => {
            return None;
        },
    };
    let cards = match opt_cards(v, "cards") {
        Some(x) => x,
        None => {
            return None;
        },
    };
    Some(Action { action_number, player_id, action, amount, is_allin, cards })
}

fn decode_win(v: &serde_json::Value) -> (r: Option<PlayerWin>)
    ensures
        match r {
            Some(w) => spec_win(json_value(*v)) == Some(w@),
            None => spec_win(json_value(*v)) is None,
        },
{
    let player_id = match req_id(v, "player_id") {
        Some(x) => x,
        None => {
            return None;
        },
    };
    let win_amount = match req_cents(v, "win_amount") {
        Some(x) => x,
        None => {
            return None;
        },
    };
    let contributed_rake = match opt_cents(v, "contributed_rake") {
        Some(x) => x,
        None => {
            return None;
        },
    };
    Some(PlayerWin { player_id, win_amount, contributed_rake })
}

proof fn lemma_actions_of_bad(s: Seq<JsonV>, i: int)
    requires
        0 <= i < s.len(),
        spec_action(s[i]) is None,
    ensures
        spec_actions_of(s) is None,
    decreases s.len(),
{
    if i < s.len() - 1 {
        assert(s.drop_last()[i] == s[i]);
        lemma_actions_of_bad(s.drop_last(), i);
    }
}

fn decode_actions(arr: &Vec<serde_json::Value>, Ghost(s): Ghost<Seq<JsonV>>) -> (r: Option<
    Vec<Action>,
>)
    requires
        arr@.len() == s.len(),
        forall|i: int| 0 <= i < s.len() ==> json_value(arr@[i]) == s[i],
    ensures
        match r {
            Some(xs) => spec_actions_of(s) == Some(xs@.map_values(|a: Action| a@)),
            None => spec_actions_of(s) is None,
        },
{
    let mut out: Vec<Action> = Vec::new();
    let mut i: usize = 0;
    while i < arr.len()
        invariant
            arr@.len() == s.len(),
            forall|k: int| 0 <= k < s.len() ==> json_value(arr@[k]) == s[k],
            i <= s.len(),
            out@.len() == i,
            spec_actions_of(s.take(i as int)) == Some(out@.map_values(|a: Action| a@)),
        decreases s.len() - i,
    {
        match decode_action(&arr[i]) {
            Some(x) => {
                out.push(x);
            },
            None => {
                proof {
                    lemma_actions_of_bad(s, i as int);
                }
                return None;
            },
        }
        proof {
            assert(s.take(i + 1).drop_last() =~= s.take(i as int));
            assert(s.take(i + 1).last() == s[i as int]);
            assert(out@.map_values(|a: Action| a@) =~= out@.drop_last().map_values(
                |a: Action| a@,
            ).push(out@.last()@));
        }
        i += 1;
    }
    proof {
        assert(s.take(s.len() as int) =~= s);
    }
    Some(out)
}

fn decode_round(v: &serde_json::Value) -> (r: Option<Round>)
    ensures
        match r {
            Some(x) => spec_round(json_value(*v)) == Some(x@),
            None => spec_round(json_value(*v)) is None,
        },
{
    let id = match req_u8(v, "id") {
        Some(x) => x,
        None => {
            return None;
        },
    };
    let street = match req_str(v, "street") {
        Some(x) => x,
        None => {
            return None;
        },
    };
    let cards = match cards_default(v, "cards") {
        Some(x) => x,
        None => {
            return None;
        },
    };
    let actions = match json_get(v, "actions") {
        Some(x) => match json_as_array(x) {
            Some(a) => {
                let ghost s = json_value(*x)->Arr_0;
                match decode_actions(a, Ghost(s)) {
                    Some(xs) => xs,
                    None => {
                        return None;
                    },
                }
            },
            None => {
                return None;
            },
        },
        None => {
            return None;
        },
    };
    Some(Round { id, street, cards, actions })
}

proof fn lemma_wins_of_bad(s: Seq<JsonV>, i: int)
    requires
        0 <= i < s.len(),
        spec_win(s[i]) is None,
    ensures
        spec_wins_of(s) is None,
    decreases s.len(),
{
    if i < s.len() - 1 {
        assert(s.drop_last()[i] == s[i]);
        lemma_wins_of_bad(s.drop_last(), i);
    }
}

fn decode_wins(arr: &Vec<serde_json::Value>, Ghost(s): Ghost<Seq<JsonV>>) -> (r: Option<
    Vec<PlayerWin>,
>)
    requires
        arr@.len() == s.len(),
        forall|i: int| 0 <= i < s.len() ==> json_value(arr@[i]) == s[i],
    ensures
        match r {
            Some(xs) => spec_wins_of(s) == Some(xs@.map_values(|w: PlayerWin| w@)),
            None => spec_wins_of(s) is None,
        },
{
    let mut out: Vec<PlayerWin> = Vec::new();
    let mut i: usize = 0;
    while i < arr.len()
        invariant
            arr@.len() == s.len(),
            forall|k: int| 0 <= k < s.len() ==> json_value(arr@[k]) == s[k],
            i <= s.len(),
            out@.len() == i,
            spec_wins_of(s.take(i as int)) == Some(out@.map_values(|w: PlayerWin| w@)),
        decreases s.len() - i,
    {
        match decode_win(&arr[i]) {
            Some(x) => {
                out.push(x);
            },
            None => {
                proof {
                    lemma_wins_of_bad(s, i as int);
                }
                return None;
            },
        }
        proof {
            assert(s.take(i + 1).drop_last() =~= s.take(i as int));
            assert(s.take(i + 1).last() == s[i as int]);
            assert(out@.map_values(|w: PlayerWin| w@) =~= out@.drop_last().map_values(
                |w: PlayerWin| w@,
            ).push(out@.last()@));
        }
        i += 1;
    }
    proof {
        assert(s.take(s.len() as int) =~= s);
    }
    Some(out)
}

fn decode_pot(v: &serde_json::Value) -> (r: Option<Pot>)
    ensures
        match r {
            Some(x) => spec_pot(json_value(*v)) == Some(x@),
            None => spec_pot(json_value(*v)) is None,
        },
{
    let number = match req_u8(v, "number") {
        Some(x) => x,
        None => {
            return None;
        },
    };
    let amount = match req_cents(v, "amount") {
        Some(x) => x,
        None => {
            return None;
        },
    };
    let rake = match req_cents(v, "rake") {
        Some(x) => x,
        None => {
            return None;
        },
    };
    let jackpot = match opt_cents(v, "jackpot") {
        Some(x) => x,
        None => {
            return None;
        },
    };
    let player_wins = match json_get(v, "player_wins") {
        Some(x) => match json_as_array(x) {
            Some(a) => {
                let ghost s = json_value(*x)->Arr_0;
                match decode_wins(a, Ghost(s)) {
                    Some(xs) => xs,
                    None => {
                        return None;
                    },
                }
            },
            None => {
                return None;
            },
        },
        None => {
            return None;
        },
    };
    Some(Pot { number, amount, rake, jackpot, player_wins })
}

proof fn lemma_players_of_bad(s: Seq<JsonV>, i: int)
    requires
        0 <= i < s.len(),
        spec_player(s[i]) is None,
    ensures
        spec_players_of(s) is None,
    decreases s.len(),
{
    if i < s.len() - 1 {
        assert(s.drop_last()[i] == s[i]);
        lemma_players_of_bad(s.drop_last(), i);
    }
}

fn decode_players(arr: &Vec<serde_json::Value>, Ghost(s): Ghost<Seq<JsonV>>) -> (r: Option<
    Vec<Player>,
>)
    requires
        arr@.len() == s.len(),
        forall|i: int| 0 <= i < s.len() ==> json_value(arr@[i]) == s[i],
    ensures
        match r {
            Some(xs) => spec_players_of(s) == Some(xs@.map_values(|p: Player| p@)),
            None => spec_players_of(s) is None,
        },
{
    let mut out: Vec<Player> = Vec::new();
    let mut i: usize = 0;
    while i < arr.len()
        invariant
            arr@.len() == s.len(),
            forall|k: int| 0 <= k < s.len() ==> json_value(arr@[k]) == s[k],
            i <= s.len(),
            out@.len() == i,
            spec_players_of(s.take(i as int)) == Some(out@.map_values(|p: Player| p@)),
        decreases s.len() - i,
    {
        match decode_player(&arr[i]) {
            Some(x) => {
                out.push(x);
            },
            None => {
                proof {
                    lemma_players_of_bad(s, i as int);
                }
                return None;
            },
        }
        proof {
            assert(s.take(i + 1).drop_last() =~= s.take(i as int));
            assert(s.take(i + 1).last() == s[i as int]);
            assert(out@.map_values(|p: Player| p@) =~= out@.drop_last().map_values(
                |p: Player| p@,
            ).push(out@.last()@));
        }
        i += 1;
    }
    proof {
        assert(s.take(s.len() as int) =~= s);
    }
    Some(out)
}

proof fn lemma_rounds_of_bad(s: Seq<JsonV>, i: int)
    requires
        0 <= i < s.len(),
        spec_round(s[i]) is None,
    ensures
        spec_rounds_of(s) is None,
    decreases s.len(),
{
    if i < s.len() - 1 {
        assert(s.drop_last()[i] == s[i]);
        lemma_rounds_of_bad(s.drop_last(), i);
    }
}

fn decode_rounds(arr: &Vec<serde_json::Value>, Ghost(s): Ghost<Seq<JsonV>>) -> (r: Option<
    Vec<Round>,
>)
    requires
        arr@.len() == s.len(),
        forall|i: int| 0 <= i < s.len() ==> json_value(arr@[i]) == s[i],
    ensures
        match r {
            Some(xs) => spec_rounds_of(s) == Some(xs@.map_values(|x: Round| x@)),
            None => spec_rounds_of(s) is None,
        },
{
    let mut out: Vec<Round> = Vec::new();
    let mut i: usize = 0;
    while i < arr.len()
        invariant
            arr@.len() == s.len(),
            forall|k: int| 0 <= k < s.len() ==> json_value(arr@[k]) == s[k],
            i <= s.len(),
            out@.len() == i,
            spec_rounds_of(s.take(i as int)) == Some(out@.map_values(|x: Round| x@)),
        decreases s.len() - i,
    {
        match decode_round(&arr[i]) {
            Some(x) => {
                out.push(x);
            },
            None => {
                proof {
                    lemma_rounds_of_bad(s, i as int);
                }
                return None;
            },
        }
        proof {
            assert(s.take(i + 1).drop_last() =~= s.take(i as int));
            assert(s.take(i + 1).last() == s[i as int]);
            assert(out@.map_values(|x: Round| x@) =~= out@.drop_last().map_values(
                |x: Round| x@,
            ).push(out@.last()@));
        }
        i += 1;
    }
    proof {
        assert(s.take(s.len() as int) =~= s);
    }
    Some(out)
}

proof fn lemma_pots_of_bad(s: Seq<JsonV>, i: int)
    requires
        0 <= i < s.len(),
        spec_pot(s[i]) is None,
    ensures
        spec_pots_of(s) is None,
    decreases s.len(),
{
    if i < s.len() - 1 {
        assert(s.drop_last()[i] == s[i]);
        lemma_pots_of_bad(s.drop_last(), i);
    }
}

fn decode_pots(arr: &Vec<serde_json::Value>, Ghost(s): Ghost<Seq<JsonV>>) -> (r: Option<Vec<Pot>>)
    requires
        arr@.len() == s.len(),
        forall|i: int| 0 <= i < s.len() ==> json_value(arr@[i]) == s[i],
    ensures
        match r {
            Some(xs) => spec_pots_of(s) == Some(xs@.map_values(|x: Pot| x@)),
            None => spec_pots_of(s) is None,
        },
{
    let mut out: Vec<Pot> = Vec::new();
    let mut i: usize = 0;
    while i < arr.len()
        invariant
            arr@.len() == s.len(),
            forall|k: int| 0 <= k < s.len() ==> json_value(arr@[k]) == s[k],
            i <= s.len(),
            out@.len() == i,
            spec_pots_of(s.take(i as int)) == Some(out@.map_values(|x: Pot| x@)),
        decreases s.len() - i,
    {
        match decode_pot(&arr[i]) {
            Some(x) => {
                out.push(x);
            },
            None => {
                proof {
                    lemma_pots_of_bad(s, i as int);
                }
                return None;
            },
        }
        proof {
            assert(s.take(i + 1).drop_last() =~= s.take(i as int));
            assert(s.take(i + 1).last() == s[i as int]);
            assert(out@.map_values(|x: Pot| x@) =~= out@.drop_last().map_values(
                |x: Pot| x@,
            ).push(out@.last()@));
        }
        i += 1;
    }
    proof {
        assert(s.take(s.len() as int) =~= s);
    }
    Some(out)
}

fn decode_bet_limit(v: &serde_json::Value) -> (r: Option<Option<BetLimit>>)
    ensures
        match r {
            Some(None) => spec_bet_limit(json_value(*v)) == Some(None::<BetLimitV>),
            Some(Some(b)) => spec_bet_limit(json_value(*v)) == Some(Some(b@)),
            None => spec_bet_limit(json_value(*v)) is None,
        },
{
    match json_get(v, "bet_limit") {
        None => Some(None),
        Some(x) => if json_is_null(x) {
            Some(None)
        } else if json_is_obj(x) {
            match opt_str(x, "bet_type") {
                Some(bt) => Some(Some(BetLimit { bet_type: bt })),
                None => None,
            }
        } else {
            None
        },
    }
}

/// Decode one hand record from a JSON value.
pub fn decode_hand(v: &serde_json::Value) -> (r: Option<OhhHand>)
    ensures
        match r {
            Some(h) => spec_hand(json_value(*v)) == Some(h@),
            None => spec_hand(json_value(*v)) is None,
        },
{
    let spec_version = match opt_str(v, "spec_version") {
        Some(x) => x,
        None => {
            return None;
        },
    };
    let game_number = match game_number_of(v) {
        Some(x) => x,
        None => {
            return None;
        },
    };
    let game_type = match opt_str(v, "game_type") {
        Some(x) => x,
        None => {
            return None;
        },
    };
    let bet_limit = match decode_bet_limit(v) {
        Some(x) => x,
        None => {
            return None;
        },
    };
    let small_blind_amount = match req_cents(v, "small_blind_amount") {
        Some(x) => x,
        None => {
            return None;
        },
    };
    let big_blind_amount = match req_cents(v, "big_blind_amount") {
        Some(x) => x,
        None => {
            return None;
        },
    };
    let currency = match opt_str(v, "currency") {
        Some(x) => x,
        None => {
            return None;
        },
    };
    let start_date_utc = match req_str(v, "start_date_utc") {
        Some(x) => x,
        None => {
            return None;
        },
    };
    let table_name = match req_str(v, "table_name") {
        Some(x) => x,
        None => {
            return None;
        },
    };
    let table_size = match req_u8(v, "table_size") {
        Some(x) => x,
        None => {
            return None;
        },
    };
    let table_handle = match opt_str(v, "table_handle") {
        Some(x) => x,
        None => {
            return None;
        },
    };
    let dealer_seat = match req_u8(v, "dealer_seat") {
        Some(x) => x,
        None => {
            return None;
        },
    };
    let hero_player_id = match opt_id(v, "hero_player_id") {
        Some(x) => x,
        None => {
            return None;
        },
    };
    let site_name = match opt_str(v, "site_name") {
        Some(x) => x,
        None => {
            return None;
        },
    };
    let network_name = match opt_str(v, "network_name") {
        Some(x) => x,
        None => {
            return None;
        },
    };
    let players = match json_get(v, "players") {
        Some(x) => match json_as_array(x) {
            Some(a) => {
                let ghost s = json_value(*x)->Arr_0;
                match decode_players(a, Ghost(s)) {
                    Some(xs) => xs,
                    None => {
                        return None;
                    },
                }
            },
            None => {
                return None;
            },
        },
        None => {
            return None;
        },
    };
    let rounds = match json_get(v, "rounds") {
        Some(x) => match json_as_array(x) {
            Some(a) => {
                let ghost s = json_value(*x)->Arr_0;
                match decode_rounds(a, Ghost(s)) {
                    Some(xs) => xs,
                    None => {
                        return None;
                    },
                }
            },
            None => {
                return None;
            },
        },
        None => {
            return None;
        },
    };
    let pots = match json_get(v, "pots") {
        Some(x) => match json_as_array(x) {
            Some(a) => {
                let ghost s = json_value(*x)->Arr_0;
                match decode_pots(a, Ghost(s)) {
                    Some(xs) => xs,
                    None => {
                        return None;
                    },
                }
            },
            None => {
                return None;
            },
        },
        None => {
            return None;
        },
    };
    Some(
        OhhHand {
            spec_version,
            game_number,
            game_type,
            bet_limit,
            small_blind_amount,
            big_blind_amount,
            currency,
            start_date_utc,
            table_name,
            table_size,
            table_handle,
            dealer_seat,
            hero_player_id,
            site_name,
            network_name,
            players,
            rounds,
            pots,
        },
    )
}

} // verus!
