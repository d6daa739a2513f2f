use goldenflop::{
    action, create_session, create_table, join_table, leave_table, revoke_session, GameAction, GoldenflopError,
    Pubkey, Session, Table, TableState, MAX_PLAYERS,
};

fn key(n: u8) -> Pubkey {
    let mut b = [0u8; 32];
    b[0] = n;
    b[31] = n.wrapping_mul(7);
    Pubkey::new(b)
}

fn table() -> Table {
    create_table(key(200), 1, 2, 100, 1000)
}

fn seated(n: u8) -> Table {
    let mut t = table();
    for p in 0..n {
        join_table(&mut t, key(p + 1), 500).unwrap();
    }
    t
}

fn session_for(t: &mut Table, p: u8) -> Session {
    create_session(t, key(201), key(p), key(100 + p), 3600, 0).unwrap()
}

#[test]
fn create_table_starts_empty() {
    let t = table();
    assert_eq!(t.creator, key(200));
    assert_eq!((t.small_blind, t.big_blind, t.min_buy_in, t.max_buy_in), (1, 2, 100, 1000));
    assert_eq!(t.pot, 0);
    assert_eq!(t.state, TableState::WaitingForPlayers);
    assert_eq!(t.deck_seed, 0);
    assert_eq!(t.player_count, 0);
    assert_eq!(t.players.len(), MAX_PLAYERS as usize);
    assert!(t.players.iter().all(|s| s.is_none()));
}

#[test]
fn join_first_player_takes_seat_zero() {
    let mut t = table();
    assert_eq!(join_table(&mut t, key(1), 500), Ok(()));
    assert_eq!(t.player_count, 1);
    let s = t.players[0].unwrap();
    assert_eq!(s.authority, key(1));
    assert_eq!(s.chips, 500);
    assert!(s.in_hand);
    assert_eq!(s.session_key, Pubkey::zero());
    assert!(t.players[1].is_none());
}

#[test]
fn join_below_min_buy_in_fails() {
    let mut t = table();
    assert_eq!(join_table(&mut t, key(1), 50), Err(GoldenflopError::InvalidBuyIn));
    assert_eq!(t.player_count, 0);
    assert!(t.players[0].is_none());
}

#[test]
fn join_above_max_buy_in_fails() {
    let mut t = table();
    assert_eq!(join_table(&mut t, key(1), 1001), Err(GoldenflopError::InvalidBuyIn));
}

#[test]
fn join_at_buy_in_bounds_succeeds() {
    let mut t = table();
    assert_eq!(join_table(&mut t, key(1), 100), Ok(()));
    assert_eq!(join_table(&mut t, key(2), 1000), Ok(()));
    assert_eq!(t.player_count, 2);
    assert_eq!(t.players[1].unwrap().chips, 1000);
}

#[test]
fn tenth_join_fails_table_full() {
    let mut t = seated(9);
    assert_eq!(t.player_count, 9);
    for i in 0..9 {
        assert_eq!(t.players[i].unwrap().authority, key(i as u8 + 1));
    }
    assert_eq!(join_table(&mut t, key(10), 500), Err(GoldenflopError::TableFull));
    assert_eq!(t.player_count, 9);
}

#[test]
fn join_in_hand_fails_invalid_state() {
    let mut t = table();
    t.state = TableState::InHand;
    assert_eq!(join_table(&mut t, key(1), 500), Err(GoldenflopError::InvalidTableState));
    t.state = TableState::BetweenHands;
    assert_eq!(join_table(&mut t, key(1), 500), Ok(()));
}

#[test]
fn session_then_bet_then_expired() {
    let mut t = seated(1);
    let s = create_session(&mut t, key(201), key(1), key(101), 3600, 0).unwrap();
    assert_eq!(s.authority, key(1));
    assert_eq!(s.ephemeral_signer, key(101));
    assert_eq!(s.table, key(201));
    assert_eq!((s.created_at, s.expiry), (0, 3600));
    assert_eq!(t.players[0].unwrap().session_key, key(101));
    assert_eq!(action(&mut t, &s, key(101), 10, GameAction::Bet(200)), Ok(()));
    assert_eq!(t.players[0].unwrap().chips, 300);
    assert_eq!(t.pot, 200);
    assert_eq!(action(&mut t, &s, key(101), 3600, GameAction::Fold), Err(GoldenflopError::SessionExpired));
    assert_eq!(action(&mut t, &s, key(101), 4000, GameAction::Bet(1)), Err(GoldenflopError::SessionExpired));
    assert_eq!(t.players[0].unwrap().chips, 300);
    assert!(t.players[0].unwrap().in_hand);
}

#[test]
fn session_with_past_expiry_fails() {
    let mut t = seated(1);
    let r = create_session(&mut t, key(201), key(1), key(101), 100, 100);
    assert_eq!(r.unwrap_err(), GoldenflopError::SessionExpired);
    assert_eq!(t.players[0].unwrap().session_key, Pubkey::zero());
}

#[test]
fn session_for_unseated_player_fails() {
    let mut t = seated(1);
    let r = create_session(&mut t, key(201), key(9), key(109), 3600, 0);
    assert_eq!(r.unwrap_err(), GoldenflopError::PlayerNotFound);
}

#[test]
fn all_in_then_bet_fails() {
    let mut t = seated(1);
    let s = session_for(&mut t, 1);
    action(&mut t, &s, key(101), 1, GameAction::Bet(200)).unwrap();
    assert_eq!(t.players[0].unwrap().chips, 300);
    assert_eq!(action(&mut t, &s, key(101), 2, GameAction::AllIn), Ok(()));
    assert_eq!(t.pot, 500);
    assert_eq!(t.players[0].unwrap().chips, 0);
    assert_eq!(action(&mut t, &s, key(101), 3, GameAction::Bet(1)), Err(GoldenflopError::InsufficientChips));
    assert_eq!(t.pot, 500);
}

#[test]
fn raise_moves_chips_like_bet() {
    let mut t = seated(1);
    let s = session_for(&mut t, 1);
    assert_eq!(action(&mut t, &s, key(101), 1, GameAction::Raise(500)), Ok(()));
    assert_eq!(t.players[0].unwrap().chips, 0);
    assert_eq!(t.pot, 500);
    assert_eq!(action(&mut t, &s, key(101), 1, GameAction::Raise(1)), Err(GoldenflopError::InsufficientChips));
}

#[test]
fn call_adds_big_blind() {
    let mut t = seated(1);
    let s = session_for(&mut t, 1);
    assert_eq!(action(&mut t, &s, key(101), 1, GameAction::Call), Ok(()));
    assert_eq!(t.pot, 2);
    assert_eq!(t.players[0].unwrap().chips, 500);
}

#[test]
fn fold_then_action_fails_not_in_hand() {
    let mut t = seated(2);
    let s = session_for(&mut t, 2);
    assert_eq!(action(&mut t, &s, key(102), 1, GameAction::Fold), Ok(()));
    assert!(!t.players[1].unwrap().in_hand);
    assert!(t.players[0].unwrap().in_hand);
    assert_eq!(action(&mut t, &s, key(102), 1, GameAction::Call), Err(GoldenflopError::NotInHand));
    assert_eq!(t.pot, 0);
}

#[test]
fn action_by_wrong_signer_fails() {
    let mut t = seated(1);
    let s = session_for(&mut t, 1);
    assert_eq!(action(&mut t, &s, key(1), 1, GameAction::Bet(1)), Err(GoldenflopError::InvalidSigner));
    assert_eq!(t.players[0].unwrap().chips, 500);
}

#[test]
fn action_after_leaving_fails_player_not_found() {
    let mut t = seated(2);
    let s = session_for(&mut t, 1);
    leave_table(&mut t, key(1)).unwrap();
    assert_eq!(action(&mut t, &s, key(101), 1, GameAction::Call), Err(GoldenflopError::PlayerNotFound));
}

#[test]
fn leave_seat_three_of_five_packs_roster() {
    let mut t = seated(5);
    assert_eq!(leave_table(&mut t, key(4)), Ok(()));
    assert_eq!(t.player_count, 4);
    for i in 0..3 {
        assert_eq!(t.players[i].unwrap().authority, key(i as u8 + 1));
    }
    assert_eq!(t.players[3].unwrap().authority, key(5));
    assert!(t.players[4].is_none());
    for i in 4..9 {
        assert!(t.players[i].is_none());
    }
}

#[test]
fn leave_first_of_nine_shifts_all() {
    let mut t = seated(9);
    assert_eq!(leave_table(&mut t, key(1)), Ok(()));
    assert_eq!(t.player_count, 8);
    for i in 0..8 {
        assert_eq!(t.players[i].unwrap().authority, key(i as u8 + 2));
    }
    assert!(t.players[8].is_none());
    assert_eq!(join_table(&mut t, key(30), 500), Ok(()));
    assert_eq!(t.players[8].unwrap().authority, key(30));
}

#[test]
fn leave_by_stranger_fails() {
    let mut t = seated(3);
    assert_eq!(leave_table(&mut t, key(9)), Err(GoldenflopError::PlayerNotFound));
    assert_eq!(t.player_count, 3);
}

#[test]
fn leave_last_player_empties_table() {
    let mut t = seated(1);
    assert_eq!(leave_table(&mut t, key(1)), Ok(()));
    assert_eq!(t.player_count, 0);
    assert!(t.players.iter().all(|s| s.is_none()));
    assert_eq!(leave_table(&mut t, key(1)), Err(GoldenflopError::PlayerNotFound));
}

#[test]
fn revoke_session_checks_authority() {
    let mut t = seated(1);
    let s = session_for(&mut t, 1);
    assert_eq!(revoke_session(&s, key(2)), Err(GoldenflopError::InvalidSigner));
    assert_eq!(revoke_session(&s, key(101)), Err(GoldenflopError::InvalidSigner));
    assert_eq!(revoke_session(&s, key(1)), Ok(()));
}

#[test]
fn action_fits_rejects_pot_overflow() {
    let mut t = seated(1);
    let s = session_for(&mut t, 1);
    t.pot = u64::MAX - 100;
    assert!(!goldenflop::action_fits(&t, &s, key(101), 1, GameAction::AllIn));
    assert!(goldenflop::action_fits(&t, &s, key(101), 1, GameAction::Bet(100)));
    assert!(!goldenflop::action_fits(&t, &s, key(101), 1, GameAction::Bet(101)));
    assert!(goldenflop::action_fits(&t, &s, key(101), 1, GameAction::Bet(501)));
    assert!(goldenflop::action_fits(&t, &s, key(101), 1, GameAction::Call));
    assert!(goldenflop::action_fits(&t, &s, key(101), 5000, GameAction::AllIn));
}

#[test]
fn seated_wallet_cannot_join_again() {
    let mut t = seated(3);
    assert_eq!(join_table(&mut t, key(2), 500), Err(GoldenflopError::AlreadySeated));
    assert_eq!(t.player_count, 3);
    assert!(t.players[3].is_none());
    leave_table(&mut t, key(2)).unwrap();
    assert_eq!(join_table(&mut t, key(2), 500), Ok(()));
    assert_eq!(t.players[2].unwrap().authority, key(2));
}

#[test]
fn buy_in_checked_before_seat_lookup() {
    let mut t = seated(1);
    assert_eq!(join_table(&mut t, key(1), 50), Err(GoldenflopError::InvalidBuyIn));
}
