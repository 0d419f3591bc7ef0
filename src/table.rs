use vstd::prelude::*;

use crate::identity::fresh_identity;
use crate::nickname::Nickname;
use crate::player::{Player, PlayerView};

verus! {

/// The fewest seats a table may have.
pub const MIN_SEATS: u8 = 2;

/// The most seats a table may have.
pub const MAX_SEATS: u8 = 10;

#[derive(Debug, Clone, Copy, PartialEq, Eq)]
pub enum TableSpecificationError {
    NotEnoughSeats { found: u8 },
    TooManySeats { found: u8 },
}

/// How many seats each table has; always within `MIN_SEATS..=MAX_SEATS` when
/// made by `new`.
#[derive(Debug, Clone, Copy, PartialEq, Eq)]
pub struct TableSpecification {
    seat_count: u8,
}

impl View for TableSpecification {
    type V = u8;

    closed spec fn view(&self) -> u8 {
        self.seat_count
    }
}

/// A seat count that a table may have.
pub open spec fn valid_seat_count(n: int) -> bool {
    MIN_SEATS <= n <= MAX_SEATS
}

impl TableSpecification {
    pub open spec fn wf(&self) -> bool {
        valid_seat_count(self@ as int)
    }

    pub fn new(seat_count: u8) -> (r: Result<TableSpecification, TableSpecificationError>)
        ensures
            seat_count < MIN_SEATS <==> r == Err::<TableSpecification, TableSpecificationError>(
                TableSpecificationError::NotEnoughSeats { found: seat_count },
            ),
            seat_count > MAX_SEATS <==> r == Err::<TableSpecification, TableSpecificationError>(
                TableSpecificationError::TooManySeats { found: seat_count },
            ),
            r is Ok <==> valid_seat_count(seat_count as int),
            r matches Ok(s) ==> s@ == seat_count && s.wf(),
    {
        if seat_count < MIN_SEATS {
            Err(TableSpecificationError::NotEnoughSeats { found: seat_count })
        } else if seat_count > MAX_SEATS {
            Err(TableSpecificationError::TooManySeats { found: seat_count })
        } else {
            Ok(TableSpecification { seat_count })
        }
    }

    pub fn seat_count(&self) -> (r: u8)
        ensures
            r == self@,
    {
        self.seat_count
    }
}

#[derive(Debug, Clone, Copy, PartialEq, Eq)]
pub enum TableError {
    NotPlayersTurn,
}

/// A snapshot of what happens at a table; it carries nothing yet.
#[derive(Debug, Clone, Copy, PartialEq, Eq)]
pub struct TableState {}

/// An occurrence at one table.
#[derive(Debug, Clone, PartialEq)]
pub struct TableEvent {
    pub table_id: u128,
    pub event_type: TableEventType,
}

#[derive(Debug, Clone, PartialEq)]
pub enum TableEventType {
    PlayerSeated { nickname: Nickname, stack: u32, position: usize },
    PlayerLeft { position: usize },
    GameStarted { button: u8 },
}

impl TableEventType {
    /// A copy equal to this occurrence.
    pub fn duplicate(&self) -> (r: TableEventType)
        ensures
            r == *self,
    {
        match self {
            TableEventType::PlayerSeated { nickname, stack, position } => TableEventType::PlayerSeated {
                nickname: nickname.duplicate(),
                stack: *stack,
                position: *position,
            },
            TableEventType::PlayerLeft { position } => TableEventType::PlayerLeft { position: *position },
            TableEventType::GameStarted { button } => TableEventType::GameStarted { button: *button },
        }
    }
}

impl TableEvent {
    /// A copy equal to this occurrence.
    pub fn duplicate(&self) -> (r: TableEvent)
        ensures
            r == *self,
    {
        TableEvent { table_id: self.table_id, event_type: self.event_type.duplicate() }
    }
}

/// Who holds each seat, by position: the holder's identity, or `None` for a
/// free seat.
pub type Occupancy = Seq<Option<u128>>;

pub open spec fn has_free(occ: Occupancy) -> bool {
    exists|i: int| 0 <= i < occ.len() && occ[i] is None
}

/// `p` is the lowest free position.
pub open spec fn is_first_free(occ: Occupancy, p: int) -> bool {
    &&& 0 <= p < occ.len()
    &&& occ[p] is None
    &&& forall|i: int| 0 <= i < p ==> occ[i] is Some
}

/// `id` holds a seat.
pub open spec fn holds(occ: Occupancy, id: u128) -> bool {
    exists|i: int| 0 <= i < occ.len() && occ[i] == Some(id)
}

/// No identity holds two seats.
pub open spec fn holders_distinct(occ: Occupancy) -> bool {
    forall|i: int, j: int|
        0 <= i < occ.len() && 0 <= j < occ.len() && i != j && #[trigger] occ[i] is Some ==> occ[i]
            != #[trigger] occ[j]
}

/// The number of occupied seats.
pub open spec fn occupied_count(occ: Occupancy) -> nat
    decreases occ.len(),
{
    if occ.len() == 0 {
        0
    } else {
        occupied_count(occ.drop_last()) + if occ.last() is Some {
            1nat
        } else {
            0nat
        }
    }
}

/// `n` empty seats.
pub open spec fn empty_seats(n: nat) -> Occupancy {
    Seq::new(n, |i: int| None::<u128>)
}

pub proof fn lemma_occupied_count_bound(occ: Occupancy)
    ensures
        occupied_count(occ) <= occ.len(),
        !has_free(occ) ==> occupied_count(occ) == occ.len(),
    decreases occ.len(),
{
    if occ.len() > 0 {
        lemma_occupied_count_bound(occ.drop_last());
        if !has_free(occ) {
            assert forall|i: int| 0 <= i < occ.drop_last().len() implies occ.drop_last()[i] is Some by {
                assert(occ.drop_last()[i] == occ[i]);
            }
            assert(occ.last() is Some) by {
                assert(occ[occ.len() - 1] == occ.last());
            }
        }
    }
}

/// What each seat holds, by position: the seated player, or `None` for a
/// free seat.
pub type Seats = Seq<Option<PlayerView>>;

/// The identity of whoever holds a seat.
pub open spec fn holder_of(seat: Option<PlayerView>) -> Option<u128> {
    match seat {
        Some(p) => Some(p.id),
        None => None,
    }
}

/// Who holds each seat.
pub open spec fn holders(seats: Seats) -> Occupancy {
    seats.map_values(|s: Option<PlayerView>| holder_of(s))
}

spec fn seat_of(seat: Option<Player>) -> Option<PlayerView> {
    match seat {
        Some(p) => Some(p@),
        None => None,
    }
}

/// A fixed number of seats, each empty or held by one player, and the
/// occurrences not yet collected by the owner.
#[derive(Debug, Clone)]
pub struct Table {
    id: u128,
    seats: Vec<Option<Player>>,
    events: Vec<TableEvent>,
}

impl Table {
    pub closed spec fn identity(&self) -> u128 {
        self.id
    }

    /// The player in each seat.
    pub closed spec fn seat_view(&self) -> Seats {
        self.seats@.map_values(|s: Option<Player>| seat_of(s))
    }

    pub open spec fn occupancy(&self) -> Occupancy {
        holders(self.seat_view())
    }

    /// The occurrences recorded since the last `collect_events`.
    pub closed spec fn pending(&self) -> Seq<TableEvent> {
        self.events@
    }

    pub open spec fn wf(&self) -> bool {
        &&& valid_seat_count(self.occupancy().len() as int)
        &&& holders_distinct(self.occupancy())
    }

    /// A table with `spec`'s number of empty seats and a fresh random identity.
    pub fn new(spec: &TableSpecification) -> (r: Table)
        requires
            spec.wf(),
        ensures
            r.wf(),
            r.seat_view() == Seq::new(spec@ as nat, |i: int| None::<PlayerView>),
            r.occupancy() == empty_seats(spec@ as nat),
            r.pending() == Seq::<TableEvent>::empty(),
    {
        let mut seats: Vec<Option<Player>> = Vec::new();
        let mut i: u8 = 0;
        while i < spec.seat_count()
            invariant
                i <= spec@,
                seats@.len() == i,
                forall|j: int| 0 <= j < i ==> seats@[j] is None,
            decreases spec@ - i,
        {
            seats.push(None);
            i = i + 1;
        }
        let r = Table { id: fresh_identity(), seats, events: Vec::new() };
        assert(r.seat_view() =~= Seq::new(spec@ as nat, |i: int| None::<PlayerView>));
        assert(r.occupancy() =~= empty_seats(spec@ as nat));
        r
    }

    pub fn id(&self) -> (r: u128)
        ensures
            r == self.identity(),
    {
        self.id
    }

    /// The specification this table was made with.
    pub fn spec(&self) -> (r: TableSpecification)
        requires
            self.wf(),
        ensures
            r@ == self.occupancy().len(),
            r.wf(),
    {
        TableSpecification { seat_count: self.seats.len() as u8 }
    }

    /// The lowest free position, if any.
    fn free_position(&self) -> (r: Option<usize>)
        ensures
            r matches Some(p) ==> is_first_free(self.occupancy(), p as int),
            r is None <==> !has_free(self.occupancy()),
    {
        let mut i: usize = 0;
        while i < self.seats.len()
            invariant
                i <= self.seats@.len(),
                forall|j: int| 0 <= j < i ==> self.occupancy()[j] is Some,
            decreases self.seats@.len() - i,
        {
            if self.seats[i].is_none() {
                return Some(i);
            }
            i = i + 1;
        }
        None
    }

    pub fn has_free_seat(&self) -> (r: bool)
        ensures
            r == has_free(self.occupancy()),
    {
        self.free_position().is_some()
    }

    pub fn seat_count(&self) -> (r: u8)
        requires
            self.wf(),
        ensures
            r == self.occupancy().len(),
    {
        self.seats.len() as u8
    }

    pub fn player_count(&self) -> (r: u8)
        requires
            self.wf(),
        ensures
            r == occupied_count(self.occupancy()),
    {
        let ghost occ = self.occupancy();
        let mut count: u8 = 0;
        let mut i: usize = 0;
        while i < self.seats.len()
            invariant
                i <= self.seats@.len() <= MAX_SEATS,
                occ == self.occupancy(),
                count == occupied_count(occ.take(i as int)),
            decreases self.seats@.len() - i,
        {
            proof {
                assert(occ.take(i + 1).drop_last() =~= occ.take(i as int));
                lemma_occupied_count_bound(occ.take(i as int));
            }
            if self.seats[i].is_some() {
                count = count + 1;
            }
            i = i + 1;
        }
        assert(occ.take(i as int) =~= occ);
        count
    }

    pub fn has_player(&self, player_id: u128) -> (r: bool)
        ensures
            r == holds(self.occupancy(), player_id),
    {
        self.player_position(player_id).is_some()
    }

    /// Seats the player at the lowest free position and records `PlayerSeated`.
    pub fn sit_down(&mut self, player_id: u128, nickname: Nickname, stack: u32)
        requires
            old(self).wf(),
            has_free(old(self).occupancy()),
            !holds(old(self).occupancy(), player_id),
            stack > 0,
        ensures
            final(self).wf(),
            final(self).identity() == old(self).identity(),
            exists|p: int|
                {
                    &&& #[trigger] is_first_free(old(self).occupancy(), p)
                    &&& final(self).seat_view() == old(self).seat_view().update(
                        p,
                        Some(PlayerView { id: player_id, nickname: nickname@, stack }),
                    )
                    &&& final(self).occupancy() == old(self).occupancy().update(p, Some(player_id))
                    &&& final(self).pending() == old(self).pending().push(
                        TableEvent {
                            table_id: old(self).identity(),
                            event_type: TableEventType::PlayerSeated { nickname, stack, position: p as usize },
                        },
                    )
                },
    {
        let position = match self.free_position() {
            Some(p) => p,
            None => vstd::pervasive::unreached(),
        };
        let ghost occ = self.occupancy();
        let ghost seats = self.seat_view();
        let player = Player::new(player_id, nickname.duplicate(), stack);
        self.seats.set(position, Some(player));
        assert(self.seat_view() =~= seats.update(
            position as int,
            Some(PlayerView { id: player_id, nickname: nickname@, stack }),
        ));
        assert(self.occupancy() =~= occ.update(position as int, Some(player_id)));
        self.events.push(
            TableEvent {
                table_id: self.id,
                event_type: TableEventType::PlayerSeated { nickname, stack, position },
            },
        );
        assert(is_first_free(occ, position as int));
    }

    /// Frees the seat that `player_id` holds and records `PlayerLeft`.
    pub fn stand_up(&mut self, player_id: u128)
        requires
            old(self).wf(),
            holds(old(self).occupancy(), player_id),
        ensures
            final(self).wf(),
            final(self).identity() == old(self).identity(),
            exists|p: int|
                {
                    &&& 0 <= p < old(self).occupancy().len()
                    &&& #[trigger] old(self).occupancy()[p] == Some(player_id)
                    &&& final(self).seat_view() == old(self).seat_view().update(p, None)
                    &&& final(self).occupancy() == old(self).occupancy().update(p, None)
                    &&& final(self).pending() == old(self).pending().push(
                        TableEvent {
                            table_id: old(self).identity(),
                            event_type: TableEventType::PlayerLeft { position: p as usize },
                        },
                    )
                },
    {
        let position = match self.player_position(player_id) {
            Some(p) => p,
            None => vstd::pervasive::unreached(),
        };
        let ghost occ = self.occupancy();
        let ghost seats = self.seat_view();
        self.seats.set(position, None);
        assert(self.seat_view() =~= seats.update(position as int, None));
        assert(self.occupancy() =~= occ.update(position as int, None));
        self.events.push(
            TableEvent { table_id: self.id, event_type: TableEventType::PlayerLeft { position } },
        );
        assert(occ[position as int] == Some(player_id));
    }

    /// Whether enough players sit for a game; a game already running is not
    /// looked at.
    pub fn can_start_game(&self) -> (r: bool)
        requires
            self.wf(),
        ensures
            r == (occupied_count(self.occupancy()) >= 2),
    {
        self.player_count() >= 2
    }

    /// Records `GameStarted` with the button at position zero.
    pub fn start_game(&mut self)
        requires
            old(self).wf(),
            occupied_count(old(self).occupancy()) >= 2,
        ensures
            final(self).wf(),
            final(self).identity() == old(self).identity(),
            final(self).seat_view() == old(self).seat_view(),
            final(self).occupancy() == old(self).occupancy(),
            final(self).pending() == old(self).pending().push(
                TableEvent { table_id: old(self).identity(), event_type: TableEventType::GameStarted { button: 0 } },
            ),
    {
        self.events.push(
            TableEvent { table_id: self.id, event_type: TableEventType::GameStarted { button: 0 } },
        );
    }

    /// Hands out the recorded occurrences and empties the record.
    pub fn collect_events(&mut self) -> (r: Vec<TableEvent>)
        ensures
            r@ == old(self).pending(),
            final(self).pending() == Seq::<TableEvent>::empty(),
            final(self).seat_view() == old(self).seat_view(),
            final(self).occupancy() == old(self).occupancy(),
            final(self).identity() == old(self).identity(),
            final(self).wf() == old(self).wf(),
    {
        let mut taken: Vec<TableEvent> = Vec::new();
        core::mem::swap(&mut self.events, &mut taken);
        taken
    }

    pub fn state(&self) -> (r: TableState) {
        TableState {}
    }

    fn player_position(&self, player_id: u128) -> (r: Option<usize>)
        ensures
            r matches Some(p) ==> p < self.occupancy().len() && self.occupancy()[p as int] == Some(player_id),
            r is None <==> !holds(self.occupancy(), player_id),
    {
        let mut i: usize = 0;
        while i < self.seats.len()
            invariant
                i <= self.seats@.len(),
                forall|j: int| 0 <= j < i ==> self.occupancy()[j] != Some(player_id),
            decreases self.seats@.len() - i,
        {
            match &self.seats[i] {
                Some(p) => {
                    if p.id() == player_id {
                        assert(self.occupancy()[i as int] == Some(player_id));
                        return Some(i);
                    }
                },
                None => {},
            }
            i = i + 1;
        }
        None
    }
}

} // verus!
