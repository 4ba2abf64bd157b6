//! Converter from the Open Hand History JSON format to PokerStars-style
//! hand-history text: fault-tolerant chunked parsing of the input stream
//! into typed hand records, and deterministic rendering of each record.

use vstd::prelude::*;

mod converter;
mod decode;
mod fmt;
mod json;
mod model;
mod numbers;
mod render;

pub use converter::{convert_ohh_file, parse_ohh_chunks, spec_parsed};
pub use decode::default_game_number;
pub use fmt::{card, cards, fmt_money, lemma_card_idempotent};
pub use model::{Action, BetLimit, OhhFile, OhhHand, Player, PlayerWin, Pot, Round};
pub use render::{
    act_line_with_context, build_header, build_seats, build_table, lemma_bet_vs_raise,
    lemma_hero_filter, name_by_id, ohh_to_pokerstars_text, seat_by_id, street_header, summarize,
};

verus! {

} // verus!
