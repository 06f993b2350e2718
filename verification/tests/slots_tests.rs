use meshbbs::slots::{
    evaluate, next_refill_eta_at, settle_spin, spin, PlayerState, Symbol, BET_COINS, DAILY_GRANT, REFILL_HOURS,
};

#[test]
fn out_of_coins_blocks_spin() {
    let now = chrono::Utc::now().timestamp();
    let (out, state) = spin(Some(PlayerState { coins: 0, last_reset: now }), now);
    assert_eq!(out.r1, "⛔");
    assert_eq!(state.coins, 0);
    assert!(out.description.contains("Out of coins"));
}

#[test]
fn refill_after_24h_allows_spin() {
    let now = chrono::Utc::now().timestamp();
    let (_out, state) = spin(Some(PlayerState { coins: 0, last_reset: now - (REFILL_HOURS + 1) * 3600 }), now);
    let bal = state.coins;
    assert!(bal >= DAILY_GRANT - BET_COINS);
    assert!(bal <= DAILY_GRANT - BET_COINS + BET_COINS * 100);
}

#[test]
fn pay_table() {
    assert_eq!(evaluate(Symbol::Seven, Symbol::Seven, Symbol::Seven), (100, "JACKPOT! 7️⃣7️⃣7️⃣".to_string()));
    assert_eq!(evaluate(Symbol::Bell, Symbol::Bell, Symbol::Bell), (20, "Triple 🔔".to_string()));
    assert_eq!(evaluate(Symbol::Cherry, Symbol::Cherry, Symbol::Cherry), (5, "Triple 🍒".to_string()));
    assert_eq!(evaluate(Symbol::Cherry, Symbol::Lemon, Symbol::Cherry), (3, "Two cherries".to_string()));
    assert_eq!(evaluate(Symbol::Lemon, Symbol::Cherry, Symbol::Bell), (2, "Cherry".to_string()));
    assert_eq!(evaluate(Symbol::Lemon, Symbol::Bell, Symbol::Bell), (0, "No win".to_string()));
}

#[test]
fn settled_spin_with_fixed_stops() {
    // reel 1 stop 13, reel 2 stop 11, reel 3 stop 9 are the sevens
    let (out, st) = settle_spin(None, 1_000, 13, 11, 9);
    assert_eq!(out.multiplier, 100);
    assert_eq!(out.winnings, 500);
    assert_eq!(st.coins, DAILY_GRANT - BET_COINS + 500);
    assert_eq!(st.last_reset, 1_000);
    assert_eq!((out.r1, out.r2, out.r3), ("7️⃣", "7️⃣", "7️⃣"));
}

#[test]
fn refusal_reports_wait() {
    let (out, st) = settle_spin(Some(PlayerState { coins: 3, last_reset: 0 }), 3_600 + 90, 0, 0, 0);
    assert_eq!(st.coins, 3);
    assert_eq!(out.description, "Out of coins. Next refill in ~22h 58m");
    assert_eq!(out.winnings, 0);
}

#[test]
fn refill_eta() {
    assert_eq!(next_refill_eta_at(None, 0), None);
    assert_eq!(next_refill_eta_at(Some(PlayerState { coins: 5, last_reset: 0 }), 0), None);
    assert_eq!(next_refill_eta_at(Some(PlayerState { coins: 0, last_reset: 0 }), 3_600 + 90), Some((22, 58)));
    assert_eq!(next_refill_eta_at(Some(PlayerState { coins: 0, last_reset: 0 }), 86_400), Some((0, 0)));
}
