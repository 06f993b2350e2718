//! The slot machine mini-game: reels, pay table and the coin ledger of a player.
use vstd::prelude::*;
use crate::random::random_below;
use crate::clock::valid_secs;
use crate::text::{decimal_spec, push_str, to_owned_string, write_decimal, join_path, join_path_spec};

verus! {

/// Fixed bet per spin.
pub const BET_COINS: u32 = 5;
/// Grant for a new player and for a daily refill.
pub const DAILY_GRANT: u32 = 100;
/// Hours a broke player waits for a refill.
pub const REFILL_HOURS: i64 = 24;
/// The same wait in seconds.
pub const REFILL_SECS: i64 = 86400;

/// A reel symbol.
#[derive(Debug, Clone, Copy, PartialEq, Eq, Structural)]
pub enum Symbol {
    Cherry,
    Orange,
    Lemon,
    Bell,
    Grape,
    Blue,
    Seven,
}

/// Text of a symbol.
pub open spec fn symbol_text(s: Symbol) -> Seq<char> {
    match s {
        Symbol::Cherry => "🍒"@,
        Symbol::Orange => "🍊"@,
        Symbol::Lemon => "🍋"@,
        Symbol::Bell => "🔔"@,
        Symbol::Grape => "🍇"@,
        Symbol::Blue => "🟦"@,
        Symbol::Seven => "7️⃣"@,
    }
}

impl Symbol {
    /// The emoji shown for this symbol.
    pub fn as_str(&self) -> (r: &'static str)
        ensures
            r@ == symbol_text(*self),
    {
        match self {
            Symbol::Cherry => "🍒",
            Symbol::Orange => "🍊",
            Symbol::Lemon => "🍋",
            Symbol::Bell => "🔔",
            Symbol::Grape => "🍇",
            Symbol::Blue => "🟦",
            Symbol::Seven => "7️⃣",
        }
    }
}

/// First reel, twenty stops.
pub open spec fn reel1_spec() -> Seq<Symbol> {
    seq![
        Symbol::Cherry, Symbol::Orange, Symbol::Lemon, Symbol::Bell, Symbol::Cherry,
        Symbol::Grape, Symbol::Blue, Symbol::Orange, Symbol::Cherry, Symbol::Bell,
        Symbol::Grape, Symbol::Orange, Symbol::Lemon, Symbol::Seven, Symbol::Cherry,
        Symbol::Bell, Symbol::Grape, Symbol::Orange, Symbol::Lemon, Symbol::Cherry,
    ]
}

/// Second reel, twenty stops.
pub open spec fn reel2_spec() -> Seq<Symbol> {
    seq![
        Symbol::Lemon, Symbol::Orange, Symbol::Bell, Symbol::Cherry, Symbol::Grape,
        Symbol::Lemon, Symbol::Orange, Symbol::Bell, Symbol::Grape, Symbol::Blue,
        Symbol::Lemon, Symbol::Seven, Symbol::Orange, Symbol::Bell, Symbol::Grape,
        Symbol::Lemon, Symbol::Bell, Symbol::Orange, Symbol::Cherry, Symbol::Lemon,
    ]
}

/// Third reel, twenty stops.
pub open spec fn reel3_spec() -> Seq<Symbol> {
    seq![
        Symbol::Orange, Symbol::Lemon, Symbol::Cherry, Symbol::Bell, Symbol::Lemon,
        Symbol::Orange, Symbol::Grape, Symbol::Bell, Symbol::Lemon, Symbol::Seven,
        Symbol::Orange, Symbol::Cherry, Symbol::Bell, Symbol::Lemon, Symbol::Blue,
        Symbol::Cherry, Symbol::Lemon, Symbol::Bell, Symbol::Orange, Symbol::Lemon,
    ]
}

/// The stops of reel `n` (1, 2 or 3).
pub open spec fn reel_spec(n: u8) -> Seq<Symbol> {
    if n == 1 {
        reel1_spec()
    } else if n == 2 {
        reel2_spec()
    } else {
        reel3_spec()
    }
}

/// The symbol at stop `idx` of reel `n`.
pub fn reel_symbol(n: u8, idx: usize) -> (s: Symbol)
    requires
        1 <= n <= 3,
        idx < 20,
    ensures
        s == reel_spec(n)[idx as int],
{
    let reel: Vec<Symbol> = if n == 1 {
        vec![
            Symbol::Cherry, Symbol::Orange, Symbol::Lemon, Symbol::Bell, Symbol::Cherry,
            Symbol::Grape, Symbol::Blue, Symbol::Orange, Symbol::Cherry, Symbol::Bell,
            Symbol::Grape, Symbol::Orange, Symbol::Lemon, Symbol::Seven, Symbol::Cherry,
            Symbol::Bell, Symbol::Grape, Symbol::Orange, Symbol::Lemon, Symbol::Cherry,
        ]
    } else if n == 2 {
        vec![
            Symbol::Lemon, Symbol::Orange, Symbol::Bell, Symbol::Cherry, Symbol::Grape,
            Symbol::Lemon, Symbol::Orange, Symbol::Bell, Symbol::Grape, Symbol::Blue,
            Symbol::Lemon, Symbol::Seven, Symbol::Orange, Symbol::Bell, Symbol::Grape,
            Symbol::Lemon, Symbol::Bell, Symbol::Orange, Symbol::Cherry, Symbol::Lemon,
        ]
    } else {
        vec![
            Symbol::Orange, Symbol::Lemon, Symbol::Cherry, Symbol::Bell, Symbol::Lemon,
            Symbol::Orange, Symbol::Grape, Symbol::Bell, Symbol::Lemon, Symbol::Seven,
            Symbol::Orange, Symbol::Cherry, Symbol::Bell, Symbol::Lemon, Symbol::Blue,
            Symbol::Cherry, Symbol::Lemon, Symbol::Bell, Symbol::Orange, Symbol::Lemon,
        ]
    };
    assert(reel@ =~= reel_spec(n));
    reel[idx]
}

/// Multiplier of three equal symbols.
pub open spec fn triple_multiplier(s: Symbol) -> u32 {
    match s {
        Symbol::Seven => 100,
        Symbol::Blue => 50,
        Symbol::Bell => 20,
        Symbol::Grape => 14,
        Symbol::Orange => 10,
        Symbol::Lemon => 8,
        Symbol::Cherry => 5,
    }
}

/// Number of cherries among three symbols.
pub open spec fn cherry_count(a: Symbol, b: Symbol, c: Symbol) -> int {
    (if a == Symbol::Cherry { 1int } else { 0 }) + (if b == Symbol::Cherry { 1int } else { 0 })
        + (if c == Symbol::Cherry { 1int } else { 0 })
}

/// The pay table: triples pay by symbol, otherwise two cherries pay 3 and one pays 2.
pub open spec fn multiplier_spec(a: Symbol, b: Symbol, c: Symbol) -> u32 {
    if a == b && b == c {
        triple_multiplier(a)
    } else if cherry_count(a, b, c) == 2 {
        3
    } else if cherry_count(a, b, c) == 1 {
        2
    } else {
        0
    }
}

/// The description of a result.
pub open spec fn description_spec(a: Symbol, b: Symbol, c: Symbol) -> Seq<char> {
    if a == b && b == c {
        if a == Symbol::Seven {
            "JACKPOT! 7️⃣7️⃣7️⃣"@
        } else {
            "Triple "@ + symbol_text(a)
        }
    } else if cherry_count(a, b, c) == 2 {
        "Two cherries"@
    } else if cherry_count(a, b, c) == 1 {
        "Cherry"@
    } else {
        "No win"@
    }
}

/// How the pay table treats the reels: the order of the three symbols never
/// matters; only three equal symbols pay a triple (5 or more); otherwise a
/// result pays at most 3, and with no cherry on any reel it pays nothing and
/// reads "No win".
pub proof fn lemma_pay_table_rules(a: Symbol, b: Symbol, c: Symbol)
    ensures
        multiplier_spec(a, b, c) == multiplier_spec(b, a, c),
        multiplier_spec(a, b, c) == multiplier_spec(a, c, b),
        description_spec(a, b, c) == description_spec(b, a, c),
        description_spec(a, b, c) == description_spec(a, c, b),
        a == b && b == c ==> multiplier_spec(a, b, c) >= 5,
        !(a == b && b == c) ==> multiplier_spec(a, b, c) <= 3,
        !(a == b && b == c) && a != Symbol::Cherry && b != Symbol::Cherry && c != Symbol::Cherry ==> {
            &&& multiplier_spec(a, b, c) == 0
            &&& description_spec(a, b, c) == "No win"@
        },
        !(a == b && b == c) && (a == Symbol::Cherry || b == Symbol::Cherry || c == Symbol::Cherry) ==> multiplier_spec(a, b, c) >= 2,
{
}

/// Scores three symbols: the multiplier and a description.
pub fn evaluate(a: Symbol, b: Symbol, c: Symbol) -> (r: (u32, String))
    ensures
        r.0 == multiplier_spec(a, b, c),
        r.1@ == description_spec(a, b, c),
{
    if a == b && b == c {
        let mult: u32 = match a {
            Symbol::Seven => 100,
            Symbol::Blue => 50,
            Symbol::Bell => 20,
            Symbol::Grape => 14,
            Symbol::Orange => 10,
            Symbol::Lemon => 8,
            Symbol::Cherry => 5,
        };
        if mult == 100 {
            return (mult, to_owned_string("JACKPOT! 7️⃣7️⃣7️⃣"));
        }
        let mut d = to_owned_string("Triple ");
        push_str(&mut d, a.as_str());
        return (mult, d);
    }
    let cherries: u8 = (if a == Symbol::Cherry { 1u8 } else { 0 }) + (if b == Symbol::Cherry { 1u8 } else { 0 }) + (if c == Symbol::Cherry { 1u8 } else { 0 });
    if cherries == 2 {
        (3, to_owned_string("Two cherries"))
    } else if cherries == 1 {
        (2, to_owned_string("Cherry"))
    } else {
        (0, to_owned_string("No win"))
    }
}


/// A player's coin balance and the time of the last grant (s since the epoch).
#[derive(Debug, Clone, Copy, PartialEq, Eq, Structural)]
pub struct PlayerState {
    pub coins: u32,
    pub last_reset: i64,
}

/// The result of one pull of the lever.
#[derive(Debug, Clone)]
pub struct SpinOutcome {
    pub r1: &'static str,
    pub r2: &'static str,
    pub r3: &'static str,
    pub multiplier: u32,
    pub winnings: u32,
    pub description: String,
}

/// `x` held in a `u32`, saturating at its maximum.
pub open spec fn capped_u32(x: int) -> int {
    if x > u32::MAX { u32::MAX as int } else { x }
}

/// Whether a timestamp (s) lies in the range of `chrono::DateTime<Utc>`.
pub open spec fn valid_time(t: i64) -> bool {
    valid_secs(t as int)
}

/// The state a spin starts from: the stored state, or a fresh grant at `now`,
/// refilled when the player is at zero and a full day has passed.
pub open spec fn spin_start_spec(entry: Option<PlayerState>, now: i64) -> PlayerState {
    let e = match entry {
        Some(e) => e,
        None => PlayerState { coins: DAILY_GRANT, last_reset: now },
    };
    if e.coins == 0 && now - e.last_reset >= REFILL_SECS {
        PlayerState { coins: DAILY_GRANT, last_reset: now }
    } else {
        e
    }
}

/// Whole hours and leftover minutes (each at least 0) until the refill.
pub open spec fn refill_wait_spec(state: PlayerState, now: i64) -> (int, int) {
    let remaining = REFILL_SECS - (now - state.last_reset);
    if remaining > 0 {
        (remaining / 3600, (remaining / 60) % 60)
    } else {
        (0, 0)
    }
}

/// Description of a spin refused for lack of coins.
pub open spec fn out_of_coins_text(state: PlayerState, now: i64) -> Seq<char> {
    let w = refill_wait_spec(state, now);
    "Out of coins. Next refill in ~"@ + decimal_spec(w.0 as nat) + "h "@ + decimal_spec(w.1 as nat) + "m"@
}

/// Whether `r` settles a spin for a player at time `now` with the reel stops
/// `i1`, `i2`, `i3`: a player who cannot afford the bet gets the blocked
/// reels, nothing won and the out-of-coins text, and keeps the balance;
/// otherwise the reels show the stops, the bet is taken and the winnings (bet
/// times multiplier) are paid out.
pub open spec fn settled(entry: Option<PlayerState>, now: i64, i1: usize, i2: usize, i3: usize, r: (SpinOutcome, PlayerState)) -> bool {
    let start = spin_start_spec(entry, now);
    let (out, after) = (r.0, r.1);
    if start.coins < BET_COINS {
        &&& after == start
        &&& out.r1@ == "⛔"@ && out.r2@ == "⛔"@ && out.r3@ == "⛔"@
        &&& out.multiplier == 0 && out.winnings == 0
        &&& out.description@ == out_of_coins_text(start, now)
    } else {
        let a = reel_spec(1)[i1 as int];
        let b = reel_spec(2)[i2 as int];
        let c = reel_spec(3)[i3 as int];
        &&& out.r1@ == symbol_text(a) && out.r2@ == symbol_text(b) && out.r3@ == symbol_text(c)
        &&& out.multiplier == multiplier_spec(a, b, c)
        &&& out.winnings == BET_COINS * multiplier_spec(a, b, c)
        &&& out.description@ == description_spec(a, b, c)
        &&& after.last_reset == start.last_reset
        &&& after.coins as int == capped_u32(start.coins - BET_COINS + BET_COINS * multiplier_spec(a, b, c))
    }
}

/// Settles one spin for a player at time `now` with the reel stops `i1`,
/// `i2`, `i3` (see [`settled`]).
pub fn settle_spin(entry: Option<PlayerState>, now: i64, i1: usize, i2: usize, i3: usize) -> (r: (SpinOutcome, PlayerState))
    requires
        valid_time(now),
        entry matches Some(e) ==> valid_time(e.last_reset),
        i1 < 20,
        i2 < 20,
        i3 < 20,
    ensures
        settled(entry, now, i1, i2, i3, r),
{
    let mut e = match entry {
        Some(e) => e,
        None => PlayerState { coins: DAILY_GRANT, last_reset: now },
    };
    if e.coins < BET_COINS {
        if e.coins == 0 {
            let elapsed = now - e.last_reset;
            if elapsed >= REFILL_SECS {
                e.coins = DAILY_GRANT;
                e.last_reset = now;
            }
        }
    }
    if e.coins < BET_COINS {
        let remaining: i64 = REFILL_SECS - (now - e.last_reset);
        let (h, m): (i64, i64) = if remaining > 0 { (remaining / 3600, (remaining / 60) % 60) } else { (0, 0) };
        let mut d = to_owned_string("Out of coins. Next refill in ~");
        write_decimal(&mut d, h as u64);
        push_str(&mut d, "h ");
        write_decimal(&mut d, m as u64);
        push_str(&mut d, "m");
        let out = SpinOutcome { r1: "⛔", r2: "⛔", r3: "⛔", multiplier: 0, winnings: 0, description: d };
        return (out, e);
    }
    e.coins = e.coins - BET_COINS;
    let a = reel_symbol(1, i1);
    let b = reel_symbol(2, i2);
    let c = reel_symbol(3, i3);
    let (mult, desc) = evaluate(a, b, c);
    let winnings = BET_COINS * mult;
    e.coins = e.coins.saturating_add(winnings);
    let out = SpinOutcome { r1: a.as_str(), r2: b.as_str(), r3: c.as_str(), multiplier: mult, winnings, description: desc };
    (out, e)
}

/// One pull of the lever for a player at time `now`, with randomly drawn stops.
pub fn spin(entry: Option<PlayerState>, now: i64) -> (r: (SpinOutcome, PlayerState))
    requires
        valid_time(now),
        entry matches Some(e) ==> valid_time(e.last_reset),
    ensures
        exists|i1: usize, i2: usize, i3: usize| #![trigger settled(entry, now, i1, i2, i3, r)]
            i1 < 20 && i2 < 20 && i3 < 20 && settled(entry, now, i1, i2, i3, r),
{
    let i1 = random_below(20);
    let i2 = random_below(20);
    let i3 = random_below(20);
    let r = settle_spin(entry, now, i1, i2, i3);
    assert(settled(entry, now, i1, i2, i3, r));
    r
}

/// Hours and minutes until a broke player's refill: `None` for an unknown
/// player or one with coins, `(0, 0)` once the day has passed.
pub open spec fn refill_eta_spec(entry: Option<PlayerState>, now: i64) -> Option<(i64, i64)> {
    match entry {
        None => None,
        Some(e) => if e.coins > 0 {
            None
        } else {
            let remaining = REFILL_SECS - (now - e.last_reset);
            if remaining <= 0 {
                Some((0i64, 0i64))
            } else {
                Some(((remaining / 3600) as i64, ((remaining / 60) % 60) as i64))
            }
        },
    }
}

/// Time left until a broke player's refill, as whole hours and leftover minutes.
pub fn next_refill_eta_at(entry: Option<PlayerState>, now: i64) -> (r: Option<(i64, i64)>)
    requires
        valid_time(now),
        entry matches Some(e) ==> valid_time(e.last_reset),
    ensures
        r == refill_eta_spec(entry, now),
{
    match entry {
        None => None,
        Some(e) => {
            if e.coins > 0 {
                return None;
            }
            let remaining = REFILL_SECS - (now - e.last_reset);
            if remaining <= 0 {
                Some((0, 0))
            } else {
                Some((remaining / 3600, (remaining / 60) % 60))
            }
        },
    }
}

/// A spin never leaves a player with more coins than the bet-less balance plus
/// a jackpot, and a refused spin changes nothing but a due refill.
pub proof fn lemma_spin_balance_bounds(entry: Option<PlayerState>, now: i64, a: Symbol, b: Symbol, c: Symbol)
    ensures
        multiplier_spec(a, b, c) <= 100,
        spin_start_spec(entry, now).coins >= BET_COINS ==> spin_start_spec(entry, now).coins - BET_COINS
            + BET_COINS * multiplier_spec(a, b, c) <= spin_start_spec(entry, now).coins - BET_COINS + BET_COINS * 100,
{
}

/// Location of the players' ledger inside a data directory:
/// `<base_dir>/slotmachine/players.json`.
pub fn players_file_path(base_dir: &str) -> (p: String)
    ensures
        p@ == join_path_spec(join_path_spec(base_dir@, "slotmachine"@), "players.json"@),
{
    let dir = join_path(base_dir, "slotmachine");
    join_path(dir.as_str(), "players.json")
}

} // verus!
