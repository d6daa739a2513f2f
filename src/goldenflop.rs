use vstd::prelude::*;

use crate::error::GoldenflopError;
use crate::key::{zero_key, Pubkey};
use crate::state::{
    distinct_at, first_seat, lemma_first_seat, lemma_unique_new_owner, lemma_unique_same_owner, lemma_occupants_gap, lemma_occupants_packed, occupants, PlayerSlot, Session, Table, TableState,
    MAX_PLAYERS,
};

verus! {

/// A gameplay action submitted under a session key.
#[derive(Clone, Copy, Debug, PartialEq, Eq, Structural)]
pub enum GameAction {
    Fold,
    Call,
    Bet(u64),
    Raise(u64),
    AllIn,
}

/// Whether `a` and `b` agree in the table's fixed settings: creator, blinds,
/// buy-in range, phase and seed.
pub open spec fn same_config(a: Table, b: Table) -> bool {
    &&& a.creator == b.creator
    &&& a.small_blind == b.small_blind
    &&& a.big_blind == b.big_blind
    &&& a.min_buy_in == b.min_buy_in
    &&& a.max_buy_in == b.max_buy_in
    &&& a.state == b.state
    &&& a.deck_seed == b.deck_seed
}

/// The error `join_table` gives, checked in order, or `None` if it succeeds.
pub open spec fn join_error(t: Table, player: Pubkey, buy_in: u64) -> Option<GoldenflopError> {
    if !(t.state == TableState::WaitingForPlayers || t.state == TableState::BetweenHands) {
        Some(GoldenflopError::InvalidTableState)
    } else if t.player_count >= MAX_PLAYERS {
        Some(GoldenflopError::TableFull)
    } else if !(t.min_buy_in <= buy_in && buy_in <= t.max_buy_in) {
        Some(GoldenflopError::InvalidBuyIn)
    } else if first_seat(t.players@, player@) != -1 {
        Some(GoldenflopError::AlreadySeated)
    } else {
        None
    }
}

/// The seat that `action` resolves for a session: the first one held by the
/// session's authority, or -1.
pub open spec fn session_seat(t: Table, session: Session) -> int {
    first_seat(t.players@, session.authority@)
}

/// The error `action` gives, checked in order, or `None` if it succeeds.
pub open spec fn action_error(
    t: Table,
    session: Session,
    signer: Pubkey,
    now: i64,
    game_action: GameAction,
) -> Option<GoldenflopError> {
    let i = session_seat(t, session);
    if now >= session.expiry {
        Some(GoldenflopError::SessionExpired)
    } else if signer@ != session.ephemeral_signer@ {
        Some(GoldenflopError::InvalidSigner)
    } else if i < 0 {
        Some(GoldenflopError::PlayerNotFound)
    } else if !t.players@[i]->Some_0.in_hand {
        Some(GoldenflopError::NotInHand)
    } else {
        match game_action {
            GameAction::Bet(a) | GameAction::Raise(a) => if a > t.players@[i]->Some_0.chips {
                Some(GoldenflopError::InsufficientChips)
            } else {
                None
            },
            _ => None,
        }
    }
}

/// What an accepted action moves into the pot.
pub open spec fn pot_increase(big_blind: u64, slot: PlayerSlot, game_action: GameAction) -> int {
    match game_action {
        GameAction::Fold => 0,
        GameAction::Call => big_blind as int,
        GameAction::Bet(a) | GameAction::Raise(a) => a as int,
        GameAction::AllIn => slot.chips as int,
    }
}

/// The seat after an accepted action.
pub open spec fn acted_slot(slot: PlayerSlot, game_action: GameAction) -> PlayerSlot {
    match game_action {
        GameAction::Fold => PlayerSlot {
            authority: slot.authority,
            session_key: slot.session_key,
            chips: slot.chips,
            in_hand: false,
        },
        GameAction::Call => slot,
        GameAction::Bet(a) | GameAction::Raise(a) => PlayerSlot {
            authority: slot.authority,
            session_key: slot.session_key,
            chips: (slot.chips - a) as u64,
            in_hand: slot.in_hand,
        },
        GameAction::AllIn => PlayerSlot {
            authority: slot.authority,
            session_key: slot.session_key,
            chips: 0,
            in_hand: slot.in_hand,
        },
    }
}

/// In every well-formed table, which every operation here produces and keeps,
/// `player_count` is the number of occupied seats.
pub proof fn lemma_player_count_is_occupied(t: Table)
    requires
        t.wf(),
    ensures
        t.player_count == occupants(t.players@).len(),
{
    lemma_occupants_packed(t.players@, t.player_count as int, MAX_PLAYERS as int);
    assert(t.players@.take(MAX_PLAYERS as int) =~= t.players@);
}

/// Every occupied seat holds a stack of at least zero chips.
pub proof fn lemma_chips_nonnegative(t: Table)
    ensures
        forall|i: int| 0 <= i < t.players@.len() && t.players@[i] is Some ==> t.players@[i]->Some_0.chips >= 0,
{
}

/// Creates an empty table owned by `creator`, waiting for players. The buy-in
/// limits must be positive and in order.
pub fn create_table(
    creator: Pubkey,
    small_blind: u64,
    big_blind: u64,
    min_buy_in: u64,
    max_buy_in: u64,
) -> (t: Table)
    requires
        0 < min_buy_in <= max_buy_in,
    ensures
        t.wf(),
        t.creator == creator,
        t.small_blind == small_blind,
        t.big_blind == big_blind,
        t.min_buy_in == min_buy_in,
        t.max_buy_in == max_buy_in,
        t.pot == 0,
        t.state == TableState::WaitingForPlayers,
        t.deck_seed == 0,
        t.player_count == 0,
        forall|i: int| 0 <= i < MAX_PLAYERS ==> t.players@[i] is None,
{
    let mut players: Vec<Option<PlayerSlot>> = Vec::new();
    while players.len() < MAX_PLAYERS as usize
        invariant
            players@.len() <= MAX_PLAYERS,
            forall|i: int| 0 <= i < players@.len() ==> players@[i] is None,
        decreases MAX_PLAYERS - players@.len(),
    {
        players.push(None);
    }
    Table {
        creator,
        small_blind,
        big_blind,
        min_buy_in,
        max_buy_in,
        pot: 0,
        state: TableState::WaitingForPlayers,
        deck_seed: 0,
        player_count: 0,
        players,
    }
}

/// Seats `player` with a stack of `buy_in` in the first free seat.
///
/// A wallet that already holds a seat is refused with `AlreadySeated`, so each
/// occupied seat belongs to a different wallet.
pub fn join_table(table: &mut Table, player: Pubkey, buy_in: u64) -> (r: Result<(), GoldenflopError>)
    requires
        old(table).wf(),
    ensures
        final(table).wf(),
        r == match join_error(*old(table), player, buy_in) {
            Some(e) => Err(e),
            None => Ok(()),
        },
        old(table).player_count == MAX_PLAYERS ==> r is Err,
        buy_in < old(table).min_buy_in || buy_in > old(table).max_buy_in ==> r is Err,
        first_seat(old(table).players@, player@) != -1 ==> r is Err && *final(table) == *old(table),
        r is Err ==> *final(table) == *old(table),
        r is Ok ==> {
            let seat = old(table).player_count as int;
            &&& same_config(*final(table), *old(table))
            &&& final(table).pot == old(table).pot
            &&& final(table).player_count == old(table).player_count + 1
            &&& final(table).players@ == old(table).players@.update(seat, final(table).players@[seat])
            &&& final(table).players@[seat] is Some
            &&& final(table).players@[seat]->Some_0.authority == player
            &&& final(table).players@[seat]->Some_0.session_key@ == zero_key()
            &&& final(table).players@[seat]->Some_0.chips == buy_in
            &&& final(table).players@[seat]->Some_0.in_hand
        },
{
    if !(table.state == TableState::WaitingForPlayers || table.state == TableState::BetweenHands) {
        return Err(GoldenflopError::InvalidTableState);
    }
    if table.player_count >= MAX_PLAYERS {
        return Err(GoldenflopError::TableFull);
    }
    if !(buy_in >= table.min_buy_in && buy_in <= table.max_buy_in) {
        return Err(GoldenflopError::InvalidBuyIn);
    }
    if table.find_player(player).is_ok() {
        return Err(GoldenflopError::AlreadySeated);
    }
    proof {
        lemma_first_seat(table.players@, player@);
    }
    let seat = table.player_count as usize;
    let slot = PlayerSlot { authority: player, session_key: Pubkey::zero(), chips: buy_in, in_hand: true };
    proof {
        lemma_unique_new_owner(table.players@, seat as int, slot);
    }
    table.players.set(seat, Some(slot));
    table.player_count = table.player_count + 1;
    Ok(())
}

/// Opens a session for `authority` at the table whose key is `table_key`,
/// letting `ephemeral_signer` act until `expiry`, and records the signer on the
/// authority's seat. `now` is the current time.
pub fn create_session(
    table: &mut Table,
    table_key: Pubkey,
    authority: Pubkey,
    ephemeral_signer: Pubkey,
    expiry: i64,
    now: i64,
) -> (r: Result<Session, GoldenflopError>)
    requires
        old(table).wf(),
    ensures
        final(table).wf(),
        expiry <= now ==> r == Err::<Session, GoldenflopError>(GoldenflopError::SessionExpired),
        expiry > now && first_seat(old(table).players@, authority@) == -1 ==> r == Err::<
            Session,
            GoldenflopError,
        >(GoldenflopError::PlayerNotFound),
        expiry > now && first_seat(old(table).players@, authority@) != -1 ==> r is Ok,
        r is Err ==> *final(table) == *old(table),
        r matches Ok(session) ==> {
            let i = first_seat(old(table).players@, authority@);
            let slot = old(table).players@[i]->Some_0;
            &&& session.authority == authority
            &&& session.ephemeral_signer == ephemeral_signer
            &&& session.table == table_key
            &&& session.created_at == now
            &&& session.expiry == expiry
            &&& same_config(*final(table), *old(table))
            &&& final(table).pot == old(table).pot
            &&& final(table).player_count == old(table).player_count
            &&& final(table).players@ == old(table).players@.update(
                i,
                Some(
                    PlayerSlot {
                        authority: slot.authority,
                        session_key: ephemeral_signer,
                        chips: slot.chips,
                        in_hand: slot.in_hand,
                    },
                ),
            )
        },
{
    if !(expiry > now) {
        return Err(GoldenflopError::SessionExpired);
    }
    let session = Session { authority, ephemeral_signer, table: table_key, created_at: now, expiry };
    let i = match table.find_player(authority) {
        Ok(i) => i,
        Err(e) => return Err(e),
    };
    proof {
        lemma_first_seat(table.players@, authority@);
    }
    let mut slot = match table.players[i] {
        Some(s) => s,
        None => return Err(GoldenflopError::PlayerNotFound),
    };
    slot.session_key = ephemeral_signer;
    proof {
        lemma_unique_same_owner(table.players@, i as int, slot);
    }
    table.players.set(i, Some(slot));
    Ok(session)
}

/// Applies `game_action` for the player of `session`, submitted by `signer` at
/// time `now`. Only chips and the pot move; there are no betting rounds.
pub fn action(
    table: &mut Table,
    session: &Session,
    signer: Pubkey,
    now: i64,
    game_action: GameAction,
) -> (r: Result<(), GoldenflopError>)
    requires
        old(table).wf(),
        action_error(*old(table), *session, signer, now, game_action) is None ==> old(table).pot
            + pot_increase(
            old(table).big_blind,
            old(table).players@[session_seat(*old(table), *session)]->Some_0,
            game_action,
        ) <= u64::MAX,
    ensures
        final(table).wf(),
        r == match action_error(*old(table), *session, signer, now, game_action) {
            Some(e) => Err(e),
            None => Ok(()),
        },
        now >= session.expiry ==> r is Err,
        signer@ != session.ephemeral_signer@ ==> r is Err,
        session_seat(*old(table), *session) != -1 && !old(table).players@[session_seat(
            *old(table),
            *session,
        )]->Some_0.in_hand ==> r is Err,
        final(table).player_count == old(table).player_count,
        final(table).pot >= old(table).pot,
        same_config(*final(table), *old(table)),
        forall|j: int| 0 <= j < MAX_PLAYERS && j != session_seat(*old(table), *session) ==> final(table).players@[j]
            == old(table).players@[j],
        forall|j: int| 0 <= j < MAX_PLAYERS ==> (final(table).players@[j] is Some <==> old(table).players@[j] is Some),
        forall|j: int| 0 <= j < MAX_PLAYERS && old(table).players@[j] is Some ==> {
            let before = old(table).players@[j]->Some_0;
            let after = final(table).players@[j]->Some_0;
            &&& after.authority == before.authority
            &&& after.session_key == before.session_key
            &&& after.chips <= before.chips
        },
        r is Err ==> *final(table) == *old(table),
        r is Ok ==> {
            let i = session_seat(*old(table), *session);
            let slot = old(table).players@[i]->Some_0;
            &&& 0 <= i < old(table).player_count
            &&& same_config(*final(table), *old(table))
            &&& final(table).player_count == old(table).player_count
            &&& final(table).players@ == old(table).players@.update(i, Some(acted_slot(slot, game_action)))
            &&& final(table).pot == old(table).pot + pot_increase(old(table).big_blind, slot, game_action)
            &&& (game_action matches GameAction::Bet(a) ==> a <= slot.chips
                && final(table).players@[i]->Some_0.chips == slot.chips - a)
            &&& (game_action matches GameAction::Raise(a) ==> a <= slot.chips
                && final(table).players@[i]->Some_0.chips == slot.chips - a)
        },
{
    if now >= session.expiry {
        return Err(GoldenflopError::SessionExpired);
    }
    if !(signer == session.ephemeral_signer) {
        return Err(GoldenflopError::InvalidSigner);
    }
    let i = match table.find_player(session.authority) {
        Ok(i) => i,
        Err(e) => return Err(e),
    };
    proof {
        lemma_first_seat(table.players@, session.authority@);
    }
    let mut slot = match table.players[i] {
        Some(s) => s,
        None => return Err(GoldenflopError::PlayerNotFound),
    };
    if !slot.in_hand {
        return Err(GoldenflopError::NotInHand);
    }
    match game_action {
        GameAction::Fold => {
            slot.in_hand = false;
        },
        GameAction::Call => {
            table.pot = table.pot + table.big_blind;
        },
        GameAction::Bet(amount) => {
            if amount > slot.chips {
                return Err(GoldenflopError::InsufficientChips);
            }
            slot.chips = slot.chips - amount;
            table.pot = table.pot + amount;
        },
        GameAction::Raise(amount) => {
            if amount > slot.chips {
                return Err(GoldenflopError::InsufficientChips);
            }
            slot.chips = slot.chips - amount;
            table.pot = table.pot + amount;
        },
        GameAction::AllIn => {
            table.pot = table.pot + slot.chips;
            slot.chips = 0;
        },
    }
    proof {
        lemma_unique_same_owner(table.players@, i as int, slot);
    }
    table.players.set(i, Some(slot));
    Ok(())
}

/// Whether `action` may be called with these arguments: if it would accept the
/// action, the pot can take what the action adds without overflowing.
pub fn action_fits(table: &Table, session: &Session, signer: Pubkey, now: i64, game_action: GameAction) -> (r: bool)
    requires
        table.wf(),
    ensures
        r == (action_error(*table, *session, signer, now, game_action) is None ==> table.pot + pot_increase(
            table.big_blind,
            table.players@[session_seat(*table, *session)]->Some_0,
            game_action,
        ) <= u64::MAX),
{
    if now >= session.expiry || !(signer == session.ephemeral_signer) {
        return true;
    }
    let i = match table.find_player(session.authority) {
        Ok(i) => i,
        Err(_) => return true,
    };
    proof {
        lemma_first_seat(table.players@, session.authority@);
    }
    let slot = match table.players[i] {
        Some(s) => s,
        None => return true,
    };
    if !slot.in_hand {
        return true;
    }
    let room = u64::MAX - table.pot;
    match game_action {
        GameAction::Fold => true,
        GameAction::Call => table.big_blind <= room,
        GameAction::Bet(amount) | GameAction::Raise(amount) => amount > slot.chips || amount <= room,
        GameAction::AllIn => slot.chips <= room,
    }
}

/// Removes `player` from the table and packs the remaining players down,
/// keeping their order.
pub fn leave_table(table: &mut Table, player: Pubkey) -> (r: Result<(), GoldenflopError>)
    requires
        old(table).wf(),
    ensures
        final(table).wf(),
        first_seat(old(table).players@, player@) == -1 ==> r == Err::<(), GoldenflopError>(
            GoldenflopError::PlayerNotFound,
        ) && *final(table) == *old(table),
        first_seat(old(table).players@, player@) != -1 ==> {
            let i = first_seat(old(table).players@, player@);
            let c = old(table).player_count as int;
            &&& r is Ok
            &&& same_config(*final(table), *old(table))
            &&& final(table).pot == old(table).pot
            &&& final(table).player_count == c - 1
            &&& forall|j: int| 0 <= j < MAX_PLAYERS ==> final(table).players@[j] == (
                if j < i {
                    old(table).players@[j]
                } else if j < c - 1 {
                    old(table).players@[j + 1]
                } else {
                    None
                })
        },
{
    let i = match table.find_player(player) {
        Ok(i) => i,
        Err(e) => return Err(e),
    };
    proof {
        lemma_first_seat(table.players@, player@);
    }
    let ghost s0 = table.players@;
    let ghost c = table.player_count as int;
    table.players.set(i, None);
    proof {
        lemma_occupants_gap(table.players@, c, i as int, MAX_PLAYERS as int);
        assert(table.players@.take(MAX_PLAYERS as int) =~= table.players@);
    }
    let _ = table.compact_players();
    proof {
        assert forall|j: int| 0 <= j < MAX_PLAYERS implies #[trigger] table.players@[j] == (
            if j < i {
                s0[j]
            } else if j < c - 1 {
                s0[j + 1]
            } else {
                None
            }) by {}
        let f = table.players@;
        assert forall|a: int, b: int| 0 <= a < b < f.len() implies #[trigger] distinct_at(f, a, b) by {
            let a0 = if a < i { a } else { a + 1 };
            let b0 = if b < i { b } else { b + 1 };
            if f[a] is Some && f[b] is Some {
                assert(distinct_at(s0, a0, b0));
            }
        }
    }
    Ok(())
}

/// Revokes `session` on behalf of `authority`; only the session's own
/// authority may do so. Closing the record is the store's part.
///
/// The signer cached on the player's seat is left in place: once the session
/// record is gone, actions under that signer fail for want of a session, not
/// because the seat was cleared.
pub fn revoke_session(session: &Session, authority: Pubkey) -> (r: Result<(), GoldenflopError>)
    ensures
        r == if authority@ == session.authority@ {
            Ok::<(), GoldenflopError>(())
        } else {
            Err(GoldenflopError::InvalidSigner)
        },
{
    if !(authority == session.authority) {
        return Err(GoldenflopError::InvalidSigner);
    }
    Ok(())
}

} // verus!
