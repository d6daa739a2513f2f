use vstd::prelude::*;

use crate::error::GoldenflopError;
use crate::key::Pubkey;

verus! {

/// Number of seats at a table.
pub const MAX_PLAYERS: u8 = 9;

/// One occupied seat.
#[derive(Clone, Copy, Debug)]
pub struct PlayerSlot {
    /// The wallet that owns the seat and its chips.
    pub authority: Pubkey,
    /// The delegated key last registered for this seat, or the zero key.
    pub session_key: Pubkey,
    /// The player's stack.
    pub chips: u64,
    /// Whether the player still contests the current hand.
    pub in_hand: bool,
}

/// Phase of a table.
#[derive(Clone, Copy, Debug, PartialEq, Eq, Structural)]
pub enum TableState {
    WaitingForPlayers,
    BetweenHands,
    InHand,
}

impl Default for TableState {
    fn default() -> (r: TableState)
        ensures
            r == TableState::WaitingForPlayers,
    {
        TableState::WaitingForPlayers
    }
}

/// A poker table: its configuration, its pot and its nine seats.
#[derive(Debug)]
pub struct Table {
    pub creator: Pubkey,
    pub small_blind: u64,
    pub big_blind: u64,
    pub min_buy_in: u64,
    pub max_buy_in: u64,
    pub pot: u64,
    pub state: TableState,
    /// Seed for the shuffle; no operation sets it yet, so it stays zero.
    pub deck_seed: u64,
    pub player_count: u8,
    /// The seats, in order; always nine of them.
    pub players: Vec<Option<PlayerSlot>>,
}

/// A delegated signing right: `ephemeral_signer` may act for `authority` at
/// `table` while the time is before `expiry`.
#[derive(Clone, Copy, Debug)]
pub struct Session {
    pub authority: Pubkey,
    pub ephemeral_signer: Pubkey,
    pub table: Pubkey,
    pub created_at: i64,
    pub expiry: i64,
}

/// Whether seat `i` of `s` is occupied by `key`.
pub open spec fn holds_seat(s: Seq<Option<PlayerSlot>>, i: int, key: Seq<u8>) -> bool {
    s[i] is Some && s[i]->Some_0.authority@ == key
}

/// The first seat at or after `i` occupied by `key`, or -1 if there is none.
pub open spec fn first_seat_from(s: Seq<Option<PlayerSlot>>, key: Seq<u8>, i: int) -> int
    decreases s.len() - i,
{
    if i < 0 || i >= s.len() {
        -1
    } else if holds_seat(s, i, key) {
        i
    } else {
        first_seat_from(s, key, i + 1)
    }
}

/// The first seat occupied by `key`, or -1 if there is none.
pub open spec fn first_seat(s: Seq<Option<PlayerSlot>>, key: Seq<u8>) -> int {
    first_seat_from(s, key, 0)
}

/// The players seated in `s`, in seat order, empty seats skipped.
pub open spec fn occupants(s: Seq<Option<PlayerSlot>>) -> Seq<PlayerSlot>
    decreases s.len(),
{
    if s.len() == 0 {
        Seq::empty()
    } else {
        let rest = occupants(s.drop_last());
        match s.last() {
            Some(p) => rest.push(p),
            None => rest,
        }
    }
}

/// The seats form a packed roster of `count` players: seats below `count` are
/// occupied, the rest are empty.
pub open spec fn packed(s: Seq<Option<PlayerSlot>>, count: int) -> bool {
    forall|i: int| 0 <= i < s.len() ==> (s[i] is Some <==> i < count)
}

/// `first_seat_from` finds a seat held by `key`, or there is none from `i` on.
pub proof fn lemma_first_seat_from(s: Seq<Option<PlayerSlot>>, key: Seq<u8>, i: int)
    requires
        0 <= i,
    ensures
        first_seat_from(s, key, i) == -1 ==> forall|j: int| i <= j < s.len() ==> !holds_seat(s, j, key),
        first_seat_from(s, key, i) != -1 ==> {
            let r = first_seat_from(s, key, i);
            &&& i <= r < s.len()
            &&& holds_seat(s, r, key)
            &&& forall|j: int| i <= j < r ==> !holds_seat(s, j, key)
        },
    decreases s.len() - i,
{
    if i < s.len() && !holds_seat(s, i, key) {
        lemma_first_seat_from(s, key, i + 1);
    }
}

/// The first seat of `key` is held by `key` and no earlier seat is; if there is
/// none, no seat is held by `key`.
pub proof fn lemma_first_seat(s: Seq<Option<PlayerSlot>>, key: Seq<u8>)
    ensures
        first_seat(s, key) == -1 ==> forall|j: int| 0 <= j < s.len() ==> !holds_seat(s, j, key),
        first_seat(s, key) != -1 ==> {
            let r = first_seat(s, key);
            &&& 0 <= r < s.len()
            &&& holds_seat(s, r, key)
            &&& forall|j: int| 0 <= j < r ==> !holds_seat(s, j, key)
        },
{
    lemma_first_seat_from(s, key, 0);
}

/// In a roster packed up to `c`, the first `n` seats hold `min(n, c)` players,
/// in seat order.
pub proof fn lemma_occupants_packed(s: Seq<Option<PlayerSlot>>, c: int, n: int)
    requires
        0 <= c <= s.len(),
        packed(s, c),
        0 <= n <= s.len(),
    ensures
        occupants(s.take(n)).len() == if n <= c { n } else { c },
        forall|j: int| 0 <= j < occupants(s.take(n)).len() ==> occupants(s.take(n))[j] == s[j]->Some_0,
    decreases n,
{
    if n > 0 {
        lemma_occupants_packed(s, c, n - 1);
        assert(s.take(n).drop_last() =~= s.take(n - 1));
    }
}

/// A packed roster of `c` players with seat `i` emptied: the first `n` seats
/// hold the players before `i`, then those after it, shifted down by one.
pub proof fn lemma_occupants_gap(s: Seq<Option<PlayerSlot>>, c: int, i: int, n: int)
    requires
        0 <= i < c <= s.len(),
        forall|k: int| 0 <= k < s.len() ==> (s[k] is Some <==> (k < c && k != i)),
        0 <= n <= s.len(),
    ensures
        occupants(s.take(n)).len() == if n <= i { n } else if n <= c { n - 1 } else { c - 1 },
        forall|j: int| 0 <= j < occupants(s.take(n)).len() ==> occupants(s.take(n))[j] == (
            if j < i { s[j]->Some_0 } else { s[j + 1]->Some_0 }),
    decreases n,
{
    if n > 0 {
        lemma_occupants_gap(s, c, i, n - 1);
        assert(s.take(n).drop_last() =~= s.take(n - 1));
    }
}

/// Seats `i` and `j` of `s` are not two occupied seats of the same wallet.
pub open spec fn distinct_at(s: Seq<Option<PlayerSlot>>, i: int, j: int) -> bool {
    !(s[i] is Some && s[j] is Some && s[i]->Some_0.authority@ == s[j]->Some_0.authority@)
}

/// No wallet occupies two seats of `s`.
pub open spec fn unique_authorities(s: Seq<Option<PlayerSlot>>) -> bool {
    forall|i: int, j: int| 0 <= i < j < s.len() ==> #[trigger] distinct_at(s, i, j)
}

/// Replacing an occupied seat by one of the same wallet keeps the wallets distinct.
pub proof fn lemma_unique_same_owner(s: Seq<Option<PlayerSlot>>, i: int, slot: PlayerSlot)
    requires
        unique_authorities(s),
        0 <= i < s.len(),
        s[i] is Some,
        s[i]->Some_0.authority@ == slot.authority@,
    ensures
        unique_authorities(s.update(i, Some(slot))),
{
    let t = s.update(i, Some(slot));
    assert forall|a: int, b: int| 0 <= a < b < t.len() implies #[trigger] distinct_at(t, a, b) by {
        assert(distinct_at(s, a, b));
    }
}

/// Seating a wallet that holds no seat of `s` keeps the wallets distinct.
pub proof fn lemma_unique_new_owner(s: Seq<Option<PlayerSlot>>, i: int, slot: PlayerSlot)
    requires
        unique_authorities(s),
        0 <= i < s.len(),
        forall|j: int| 0 <= j < s.len() ==> !holds_seat(s, j, slot.authority@),
    ensures
        unique_authorities(s.update(i, Some(slot))),
{
    let t = s.update(i, Some(slot));
    assert forall|a: int, b: int| 0 <= a < b < t.len() implies #[trigger] distinct_at(t, a, b) by {
        assert(distinct_at(s, a, b));
        assert(!holds_seat(s, a, slot.authority@));
        assert(!holds_seat(s, b, slot.authority@));
    }
}

impl Table {
    /// The table's invariant: positive buy-in limits in order, nine seats,
    /// packed, `player_count` of them taken, each by a different wallet.
    pub open spec fn wf(&self) -> bool {
        &&& 0 < self.min_buy_in <= self.max_buy_in
        &&& self.players@.len() == MAX_PLAYERS
        &&& self.player_count <= MAX_PLAYERS
        &&& packed(self.players@, self.player_count as int)
        &&& unique_authorities(self.players@)
    }

    /// Whether no wallet occupies two seats.
    pub fn has_unique_authorities(&self) -> (r: bool)
        ensures
            r == unique_authorities(self.players@),
    {
        let n = self.players.len();
        let mut i: usize = 0;
        while i < n
            invariant
                n == self.players@.len(),
                i <= n,
                forall|a: int, b: int| 0 <= a < i && a < b < n ==> #[trigger] distinct_at(self.players@, a, b),
            decreases n - i,
        {
            if let Some(p) = &self.players[i] {
                let mut j: usize = i + 1;
                while j < n
                    invariant
                        n == self.players@.len(),
                        i < j <= n,
                        self.players@[i as int] == Some(*p),
                        forall|a: int, b: int| 0 <= a < i && a < b < n ==> #[trigger] distinct_at(self.players@, a, b),
                        forall|b: int| i < b < j ==> #[trigger] distinct_at(self.players@, i as int, b),
                    decreases n - j,
                {
                    if let Some(q) = &self.players[j] {
                        if p.authority == q.authority {
                            assert(!distinct_at(self.players@, i as int, j as int));
                            return false;
                        }
                    }
                    j = j + 1;
                }
            }
            i = i + 1;
        }
        true
    }

    /// Whether the table satisfies its invariant; for records read from storage.
    pub fn check_wf(&self) -> (r: bool)
        ensures
            r == self.wf(),
    {
        if !(0 < self.min_buy_in && self.min_buy_in <= self.max_buy_in) {
            return false;
        }
        if self.players.len() != MAX_PLAYERS as usize || self.player_count > MAX_PLAYERS {
            return false;
        }
        let mut i: usize = 0;
        while i < self.players.len()
            invariant
                i <= self.players@.len() == MAX_PLAYERS,
                self.player_count <= MAX_PLAYERS,
                forall|j: int| 0 <= j < i ==> (self.players@[j] is Some <==> j < self.player_count),
            decreases self.players@.len() - i,
        {
            if self.players[i].is_some() != (i < self.player_count as usize) {
                return false;
            }
            i = i + 1;
        }
        self.has_unique_authorities()
    }

    /// The first seat occupied by `authority`.
    pub fn find_player(&self, authority: Pubkey) -> (r: Result<usize, GoldenflopError>)
        ensures
            match r {
                Ok(i) => i as int == first_seat(self.players@, authority@) && i < self.players@.len(),
                Err(e) => e == GoldenflopError::PlayerNotFound && first_seat(self.players@, authority@) == -1,
            },
    {
        let mut i: usize = 0;
        while i < self.players.len()
            invariant
                i <= self.players@.len(),
                first_seat(self.players@, authority@) == first_seat_from(self.players@, authority@, i as int),
            decreases self.players@.len() - i,
        {
            match &self.players[i] {
                Some(s) => {
                    if s.authority == authority {
                        return Ok(i);
                    }
                },
                None => {},
            }
            i = i + 1;
        }
        Err(GoldenflopError::PlayerNotFound)
    }

    /// Packs the seats: every occupied seat moves down to the lowest free seat,
    /// in order, the seats after them are emptied, and `player_count` becomes
    /// the number of players kept.
    pub fn compact_players(&mut self) -> (r: Result<(), GoldenflopError>)
        requires
            old(self).players@.len() == MAX_PLAYERS,
        ensures
            r is Ok,
            final(self).players@.len() == MAX_PLAYERS,
            final(self).player_count as int == occupants(old(self).players@).len(),
            forall|j: int| 0 <= j < MAX_PLAYERS ==> final(self).players@[j] == (
                if j < occupants(old(self).players@).len() {
                    Some(occupants(old(self).players@)[j])
                } else {
                    None
                }),
            final(self).player_count <= MAX_PLAYERS,
            packed(final(self).players@, final(self).player_count as int),
            final(self).creator == old(self).creator,
            final(self).small_blind == old(self).small_blind,
            final(self).big_blind == old(self).big_blind,
            final(self).min_buy_in == old(self).min_buy_in,
            final(self).max_buy_in == old(self).max_buy_in,
            final(self).pot == old(self).pot,
            final(self).state == old(self).state,
            final(self).deck_seed == old(self).deck_seed,
    {
        let ghost s0 = self.players@;
        let n: usize = MAX_PLAYERS as usize;
        let mut write: usize = 0;
        let mut read: usize = 0;
        while read < n
            invariant
                n == MAX_PLAYERS,
                s0.len() == n,
                self.players@.len() == n,
                write <= read <= n,
                occupants(s0.take(read as int)).len() == write,
                forall|j: int| 0 <= j < write ==> self.players@[j] == Some(occupants(s0.take(read as int))[j]),
                forall|k: int| write <= k < read ==> self.players@[k] is None,
                forall|k: int| read <= k < n ==> self.players@[k] == s0[k],
                self.creator == old(self).creator,
                self.small_blind == old(self).small_blind,
                self.big_blind == old(self).big_blind,
                self.min_buy_in == old(self).min_buy_in,
                self.max_buy_in == old(self).max_buy_in,
                self.pot == old(self).pot,
                self.state == old(self).state,
                self.deck_seed == old(self).deck_seed,
            decreases n - read,
        {
            assert(s0.take(read as int + 1).drop_last() =~= s0.take(read as int));
            let cur = self.players[read];
            if cur.is_some() {
                if write != read {
                    self.players.set(write, cur);
                    self.players.set(read, None);
                }
                write = write + 1;
            }
            read = read + 1;
        }
        assert(s0.take(n as int) =~= s0);
        let kept: usize = write;
        while write < n
            invariant
                n == MAX_PLAYERS,
                self.players@.len() == n,
                kept <= write <= n,
                occupants(s0).len() == kept,
                forall|j: int| 0 <= j < kept ==> self.players@[j] == Some(occupants(s0)[j]),
                forall|k: int| kept <= k < n ==> self.players@[k] is None,
                self.creator == old(self).creator,
                self.small_blind == old(self).small_blind,
                self.big_blind == old(self).big_blind,
                self.min_buy_in == old(self).min_buy_in,
                self.max_buy_in == old(self).max_buy_in,
                self.pot == old(self).pot,
                self.state == old(self).state,
                self.deck_seed == old(self).deck_seed,
            decreases n - write,
        {
            self.players.set(write, None);
            write = write + 1;
        }
        self.player_count = kept as u8;
        Ok(())
    }
}

} // verus!
