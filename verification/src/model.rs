use vstd::prelude::*;

verus! {

/// One parsed hand, money amounts in integer cents.
pub struct OhhHand {
    pub spec_version: Option<String>,
    pub game_number: String,
    pub game_type: Option<String>,
    pub bet_limit: Option<BetLimit>,
    pub small_blind_amount: i64,
    pub big_blind_amount: i64,
    pub currency: Option<String>,
    pub start_date_utc: String,
    pub table_name: String,
    pub table_size: u8,
    pub table_handle: Option<String>,
    pub dealer_seat: u8,
    pub hero_player_id: Option<String>,
    pub site_name: Option<String>,
    pub network_name: Option<String>,
    pub players: Vec<Player>,
    pub rounds: Vec<Round>,
    pub pots: Vec<Pot>,
}

/// A chunk that wraps a single hand record.
pub struct OhhFile {
    pub ohh: OhhHand,
}

pub struct BetLimit {
    pub bet_type: Option<String>,
}

pub struct Player {
    pub id: String,
    pub seat: u8,
    pub name: String,
    pub display: Option<String>,
    pub starting_stack: i64,
    pub player_bounty: Option<i64>,
}

pub struct Round {
    pub id: u8,
    pub street: String,
    pub cards: Vec<String>,
    pub actions: Vec<Action>,
}

pub struct Action {
    pub action_number: u32,
    pub player_id: Option<String>,
    pub action: String,
    pub amount: Option<i64>,
    pub is_allin: Option<bool>,
    pub cards: Option<Vec<String>>,
}

pub struct Pot {
    pub number: u8,
    pub amount: i64,
    pub rake: i64,
    pub jackpot: Option<i64>,
    pub player_wins: Vec<PlayerWin>,
}

pub struct PlayerWin {
    pub player_id: String,
    pub win_amount: i64,
    pub contributed_rake: Option<i64>,
}

/// Mathematical images of the records above: strings as character sequences,
/// amounts as unbounded integers.
pub struct HandV {
    pub spec_version: Option<Seq<char>>,
    pub game_number: Seq<char>,
    pub game_type: Option<Seq<char>>,
    pub bet_limit: Option<BetLimitV>,
    pub small_blind_amount: i64,
    pub big_blind_amount: i64,
    pub currency: Option<Seq<char>>,
    pub start_date_utc: Seq<char>,
    pub table_name: Seq<char>,
    pub table_size: u8,
    pub table_handle: Option<Seq<char>>,
    pub dealer_seat: u8,
    pub hero_player_id: Option<Seq<char>>,
    pub site_name: Option<Seq<char>>,
    pub network_name: Option<Seq<char>>,
    pub players: Seq<PlayerV>,
    pub rounds: Seq<RoundV>,
    pub pots: Seq<PotV>,
}

pub struct BetLimitV {
    pub bet_type: Option<Seq<char>>,
}

pub struct PlayerV {
    pub id: Seq<char>,
    pub seat: u8,
    pub name: Seq<char>,
    pub display: Option<Seq<char>>,
    pub starting_stack: i64,
    pub player_bounty: Option<i64>,
}

pub struct RoundV {
    pub id: u8,
    pub street: Seq<char>,
    pub cards: Seq<Seq<char>>,
    pub actions: Seq<ActionV>,
}

pub struct ActionV {
    pub action_number: u32,
    pub player_id: Option<Seq<char>>,
    pub action: Seq<char>,
    pub amount: Option<i64>,
    pub is_allin: Option<bool>,
    pub cards: Option<Seq<Seq<char>>>,
}

pub struct PotV {
    pub number: u8,
    pub amount: i64,
    pub rake: i64,
    pub jackpot: Option<i64>,
    pub player_wins: Seq<PlayerWinV>,
}

pub struct PlayerWinV {
    pub player_id: Seq<char>,
    pub win_amount: i64,
    pub contributed_rake: Option<i64>,
}

pub open spec fn opt_str_view(o: Option<String>) -> Option<Seq<char>> {
    match o {
        Some(s) => Some(s@),
        None => None,
    }
}

pub open spec fn opt_cents_view(o: Option<i64>) -> Option<int> {
    match o {
        Some(c) => Some(c as int),
        None => None,
    }
}

/// Narrow an unbounded optional amount back to machine cents; sound for
/// values decode produces, which always fit.
pub open spec fn cast_opt_cents(o: Option<int>) -> Option<i64> {
    match o {
        Some(c) => Some(c as i64),
        None => None,
    }
}

impl View for BetLimit {
    type V = BetLimitV;

    open spec fn view(&self) -> BetLimitV {
        BetLimitV { bet_type: opt_str_view(self.bet_type) }
    }
}

impl View for Player {
    type V = PlayerV;

    open spec fn view(&self) -> PlayerV {
        PlayerV {
            id: self.id@,
            seat: self.seat,
            name: self.name@,
            display: opt_str_view(self.display),
            starting_stack: self.starting_stack,
            player_bounty: self.player_bounty,
        }
    }
}

impl View for Action {
    type V = ActionV;

    open spec fn view(&self) -> ActionV {
        ActionV {
            action_number: self.action_number,
            player_id: opt_str_view(self.player_id),
            action: self.action@,
            amount: self.amount,
            is_allin: self.is_allin,
            cards: match self.cards {
                Some(cs) => Some(cs@.map_values(|c: String| c@)),
                None => None,
            },
        }
    }
}

impl View for Round {
    type V = RoundV;

    open spec fn view(&self) -> RoundV {
        RoundV {
            id: self.id,
            street: self.street@,
            cards: self.cards@.map_values(|c: String| c@),
            actions: self.actions@.map_values(|a: Action| a@),
        }
    }
}

impl View for PlayerWin {
    type V = PlayerWinV;

    open spec fn view(&self) -> PlayerWinV {
        PlayerWinV {
            player_id: self.player_id@,
            win_amount: self.win_amount,
            contributed_rake: self.contributed_rake,
        }
    }
}

impl View for Pot {
    type V = PotV;

    open spec fn view(&self) -> PotV {
        PotV {
            number: self.number,
            amount: self.amount,
            rake: self.rake,
            jackpot: self.jackpot,
            player_wins: self.player_wins@.map_values(|w: PlayerWin| w@),
        }
    }
}

impl View for OhhHand {
    type V = HandV;

    open spec fn view(&self) -> HandV {
        HandV {
            spec_version: opt_str_view(self.spec_version),
            game_number: self.game_number@,
            game_type: opt_str_view(self.game_type),
            bet_limit: match self.bet_limit {
                Some(b) => Some(b@),
                None => None,
            },
            small_blind_amount: self.small_blind_amount,
            big_blind_amount: self.big_blind_amount,
            currency: opt_str_view(self.currency),
            start_date_utc: self.start_date_utc@,
            table_name: self.table_name@,
            table_size: self.table_size,
            table_handle: opt_str_view(self.table_handle),
            dealer_seat: self.dealer_seat,
            hero_player_id: opt_str_view(self.hero_player_id),
            site_name: opt_str_view(self.site_name),
            network_name: opt_str_view(self.network_name),
            players: self.players@.map_values(|p: Player| p@),
            rounds: self.rounds@.map_values(|r: Round| r@),
            pots: self.pots@.map_values(|p: Pot| p@),
        }
    }
}

} // verus!
