use vstd::prelude::*;

use crate::identity::fresh_identity;
use crate::nickname::Nickname;
use crate::player::PlayerView;
use crate::table::{
    empty_seats, has_free, holds, is_first_free, lemma_occupied_count_bound, occupied_count,
    valid_seat_count, Occupancy, Table, TableError, TableEvent, TableEventType, TableSpecification,
    TableSpecificationError, TableState, Seats, MAX_SEATS, MIN_SEATS,
};

verus! {

/// The fewest tables a tournament may have.
pub const MIN_TABLES: u8 = 1;

/// The most tables a tournament may have.
pub const MAX_TABLES: u8 = 100;

/// The chips each player brings to the table on joining.
pub const INITIAL_STACK: u32 = 1500;

#[derive(Debug, Clone, Copy, PartialEq, Eq)]
pub enum TournamentSpecificationError {
    NotEnoughTables { min: u8, found: u8 },
    TooManyTables { max: u8, found: u8 },
    TableSpecificationError(TableSpecificationError),
}

impl From<TableSpecificationError> for TournamentSpecificationError {
    fn from(error: TableSpecificationError) -> (r: TournamentSpecificationError) {
        TournamentSpecificationError::TableSpecificationError(error)
    }
}

impl vstd::std_specs::convert::FromSpecImpl<TableSpecificationError> for TournamentSpecificationError {
    open spec fn obeys_from_spec() -> bool {
        true
    }

    open spec fn from_spec(error: TableSpecificationError) -> TournamentSpecificationError {
        TournamentSpecificationError::TableSpecificationError(error)
    }
}

/// How many tables a tournament has, and how many seats each of them.
#[derive(Debug, Clone, Copy, PartialEq, Eq)]
pub struct TournamentSpecification {
    table_count: u8,
    table_spec: TableSpecification,
}

/// A table count that a tournament may have.
pub open spec fn valid_table_count(n: int) -> bool {
    MIN_TABLES <= n <= MAX_TABLES
}

/// The error that `TournamentSpecification::new` gives for these counts, if
/// any: the table count is checked first.
pub open spec fn specification_error(table_count: u8, seat_count: u8) -> Option<TournamentSpecificationError> {
    if table_count < MIN_TABLES {
        Some(TournamentSpecificationError::NotEnoughTables { min: MIN_TABLES, found: table_count })
    } else if table_count > MAX_TABLES {
        Some(TournamentSpecificationError::TooManyTables { max: MAX_TABLES, found: table_count })
    } else if seat_count < MIN_SEATS {
        Some(
            TournamentSpecificationError::TableSpecificationError(
                TableSpecificationError::NotEnoughSeats { found: seat_count },
            ),
        )
    } else if seat_count > MAX_SEATS {
        Some(
            TournamentSpecificationError::TableSpecificationError(
                TableSpecificationError::TooManySeats { found: seat_count },
            ),
        )
    } else {
        None
    }
}

impl View for TournamentSpecification {
    /// The table count and the seat count.
    type V = (u8, u8);

    closed spec fn view(&self) -> (u8, u8) {
        (self.table_count, self.table_spec@)
    }
}

impl TournamentSpecification {
    pub open spec fn wf(&self) -> bool {
        valid_table_count(self@.0 as int) && valid_seat_count(self@.1 as int)
    }

    /// Checks the table count first, then the seat count.
    pub fn new(table_count: u8, table_seat_count: u8) -> (r: Result<
        TournamentSpecification,
        TournamentSpecificationError,
    >)
        ensures
            table_count < MIN_TABLES <==> r == Err::<TournamentSpecification, TournamentSpecificationError>(
                TournamentSpecificationError::NotEnoughTables { min: MIN_TABLES, found: table_count },
            ),
            table_count > MAX_TABLES <==> r == Err::<TournamentSpecification, TournamentSpecificationError>(
                TournamentSpecificationError::TooManyTables { max: MAX_TABLES, found: table_count },
            ),
            valid_table_count(table_count as int) && table_seat_count < 2 <==> r == Err::<
                TournamentSpecification,
                TournamentSpecificationError,
            >(
                TournamentSpecificationError::TableSpecificationError(
                    TableSpecificationError::NotEnoughSeats { found: table_seat_count },
                ),
            ),
            valid_table_count(table_count as int) && table_seat_count > 10 <==> r == Err::<
                TournamentSpecification,
                TournamentSpecificationError,
            >(
                TournamentSpecificationError::TableSpecificationError(
                    TableSpecificationError::TooManySeats { found: table_seat_count },
                ),
            ),
            r is Ok <==> valid_table_count(table_count as int) && valid_seat_count(table_seat_count as int),
            r matches Ok(s) ==> s@ == (table_count, table_seat_count) && s.wf(),
            match specification_error(table_count, table_seat_count) {
                Some(e) => r == Err::<TournamentSpecification, TournamentSpecificationError>(e),
                None => r is Ok,
            },
    {
        if table_count < MIN_TABLES {
            Err(TournamentSpecificationError::NotEnoughTables { min: MIN_TABLES, found: table_count })
        } else if table_count > MAX_TABLES {
            Err(TournamentSpecificationError::TooManyTables { max: MAX_TABLES, found: table_count })
        } else {
            match TableSpecification::new(table_seat_count) {
                Ok(table_spec) => Ok(TournamentSpecification { table_count, table_spec }),
                Err(e) => Err(TournamentSpecificationError::from(e)),
            }
        }
    }

    pub fn table_count(&self) -> (r: u8)
        ensures
            r == self@.0,
    {
        self.table_count
    }

    pub fn table_seat_count(&self) -> (r: u8)
        ensures
            r == self@.1,
    {
        self.table_spec.seat_count()
    }
}

#[derive(Debug, Clone, Copy, PartialEq, Eq, Structural)]
pub enum TournamentStage {
    WaitingForPlayers,
    ReadyToStart,
    Running,
    Finished,
}

#[derive(Debug, Clone, Copy, PartialEq, Eq)]
pub enum TournamentError {
    TournamentAlreadyStarted,
    PlayerAlreadyJoined,
    NotSuchTable,
    TableError(TableError),
}

/// A fact in a tournament's log, from which the tournament can be rebuilt.
#[derive(Debug, Clone, PartialEq)]
pub enum TournamentEvent {
    TournamentCreated { id: u128, spec: TournamentSpecification },
    PlayerJoined { account_id: u128, nickname: Nickname },
}

impl TournamentEvent {
    /// A copy equal to this fact.
    pub fn duplicate(&self) -> (r: TournamentEvent)
        ensures
            r == *self,
    {
        match self {
            TournamentEvent::TournamentCreated { id, spec } => TournamentEvent::TournamentCreated {
                id: *id,
                spec: *spec,
            },
            TournamentEvent::PlayerJoined { account_id, nickname } => TournamentEvent::PlayerJoined {
                account_id: *account_id,
                nickname: nickname.duplicate(),
            },
        }
    }
}

/// An occurrence at one table of a tournament, addressed by the tournament's
/// identity and the table's number.
#[derive(Debug, Clone, PartialEq)]
pub struct TournamentMessage {
    pub tournament_id: u128,
    pub message_type: TournamentMessageType,
}

#[derive(Debug, Clone, PartialEq)]
pub enum TournamentMessageType {
    TableMessage { table_number: usize, message_type: TableEvent },
}

impl TournamentMessage {
    /// A copy equal to this message.
    pub fn duplicate(&self) -> (r: TournamentMessage)
        ensures
            r == *self,
    {
        match &self.message_type {
            TournamentMessageType::TableMessage { table_number, message_type } => TournamentMessage {
                tournament_id: self.tournament_id,
                message_type: TournamentMessageType::TableMessage {
                    table_number: *table_number,
                    message_type: message_type.duplicate(),
                },
            },
        }
    }
}

/// The message that carries `event` of table `table_number`.
pub open spec fn wrap(tournament_id: u128, table_number: int, event: TableEvent) -> TournamentMessage {
    TournamentMessage {
        tournament_id,
        message_type: TournamentMessageType::TableMessage { table_number: table_number as usize, message_type: event },
    }
}

// Seat occupancy of a whole tournament: one `Occupancy` per table.

/// `id` holds a seat at some table.
pub open spec fn seated_anywhere(occ: Seq<Occupancy>, id: u128) -> bool {
    exists|t: int| 0 <= t < occ.len() && holds(#[trigger] occ[t], id)
}

/// Some table has a free seat.
pub open spec fn any_free(occ: Seq<Occupancy>) -> bool {
    exists|t: int| 0 <= t < occ.len() && has_free(#[trigger] occ[t])
}

/// `t` is the lowest-numbered table with a free seat.
pub open spec fn is_first_open_table(occ: Seq<Occupancy>, t: int) -> bool {
    &&& 0 <= t < occ.len()
    &&& has_free(occ[t])
    &&& forall|j: int| 0 <= j < t ==> !has_free(#[trigger] occ[j])
}

/// No identity holds two seats anywhere in the tournament.
pub open spec fn holders_unique(occ: Seq<Occupancy>) -> bool {
    forall|t1: int, s1: int, t2: int, s2: int|
        0 <= t1 < occ.len() && 0 <= t2 < occ.len() && 0 <= s1 < occ[t1].len() && 0 <= s2
            < occ[t2].len() && (#[trigger] occ[t1][s1]) is Some && occ[t1][s1] == #[trigger] occ[t2][s2]
            ==> t1 == t2 && s1 == s2
}

/// `table_count` tables of `seat_count` empty seats.
pub open spec fn empty_tables(table_count: nat, seat_count: nat) -> Seq<Occupancy> {
    Seq::new(table_count, |t: int| empty_seats(seat_count))
}

/// The lowest free position at or after `i`, or the seat count if there is none.
pub open spec fn first_free_from(o: Occupancy, i: int) -> int
    decreases o.len() - i,
{
    if i < 0 || i >= o.len() {
        o.len() as int
    } else if o[i] is None {
        i
    } else {
        first_free_from(o, i + 1)
    }
}

/// The lowest table number with a free seat at or after `i`, or the table
/// count if there is none.
pub open spec fn first_open_from(occ: Seq<Occupancy>, i: int) -> int
    decreases occ.len() - i,
{
    if i < 0 || i >= occ.len() {
        occ.len() as int
    } else if has_free(occ[i]) {
        i
    } else {
        first_open_from(occ, i + 1)
    }
}

/// First-fit seating: the lowest free seat of the lowest-numbered table that
/// has one.
pub open spec fn seat_first_fit(occ: Seq<Occupancy>, id: u128) -> Seq<Occupancy> {
    let t = first_open_from(occ, 0);
    let p = first_free_from(occ[t], 0);
    occ.update(t, occ[t].update(p, Some(id)))
}

/// `id` may be seated: there is room and it holds no seat yet.
pub open spec fn can_seat(occ: Seq<Occupancy>, id: u128) -> bool {
    any_free(occ) && !seated_anywhere(occ, id)
}

/// The occupancy reached from `occ0` by seating, in order, the players of
/// the `PlayerJoined` facts in `joins`.
pub open spec fn replay(occ0: Seq<Occupancy>, joins: Seq<TournamentEvent>) -> Seq<Occupancy>
    decreases joins.len(),
{
    if joins.len() == 0 {
        occ0
    } else {
        let before = replay(occ0, joins.drop_last());
        match joins.last() {
            TournamentEvent::PlayerJoined { account_id, .. } => seat_first_fit(before, account_id),
            TournamentEvent::TournamentCreated { .. } => before,
        }
    }
}

/// Every fact of `joins` is a `PlayerJoined` that can be replayed from `occ0`.
pub open spec fn valid_joins(occ0: Seq<Occupancy>, joins: Seq<TournamentEvent>) -> bool
    decreases joins.len(),
{
    if joins.len() == 0 {
        true
    } else {
        &&& valid_joins(occ0, joins.drop_last())
        &&& joins.last() matches TournamentEvent::PlayerJoined { account_id, .. } && can_seat(
            replay(occ0, joins.drop_last()),
            account_id,
        )
    }
}

/// The specification that a log's creation fact names.
pub open spec fn log_spec(log: Seq<TournamentEvent>) -> TournamentSpecification {
    match log[0] {
        TournamentEvent::TournamentCreated { spec, .. } => spec,
        TournamentEvent::PlayerJoined { .. } => arbitrary(),
    }
}

/// The identity that a log's creation fact names.
pub open spec fn log_identity(log: Seq<TournamentEvent>) -> u128 {
    match log[0] {
        TournamentEvent::TournamentCreated { id, .. } => id,
        TournamentEvent::PlayerJoined { .. } => arbitrary(),
    }
}

/// The empty tables that a log's creation fact describes.
pub open spec fn log_origin(log: Seq<TournamentEvent>) -> Seq<Occupancy> {
    empty_tables(log_spec(log)@.0 as nat, log_spec(log)@.1 as nat)
}

/// The facts of a log after its creation fact.
pub open spec fn log_joins(log: Seq<TournamentEvent>) -> Seq<TournamentEvent> {
    log.subrange(1, log.len() as int)
}

/// A log that can be replayed: a creation fact with a valid specification,
/// then joins that each find room for a player not yet seated.
pub open spec fn valid_log(log: Seq<TournamentEvent>) -> bool {
    &&& log.len() >= 1
    &&& log[0] is TournamentCreated
    &&& log_spec(log).wf()
    &&& valid_joins(log_origin(log), log_joins(log))
}

/// The occupancy that replaying a log reaches.
pub open spec fn log_occupancy(log: Seq<TournamentEvent>) -> Seq<Occupancy> {
    replay(log_origin(log), log_joins(log))
}

proof fn lemma_first_free_from(o: Occupancy, p: int, i: int)
    requires
        is_first_free(o, p),
        0 <= i <= p,
    ensures
        first_free_from(o, i) == p,
    decreases p - i,
{
    if i < p {
        lemma_first_free_from(o, p, i + 1);
    }
}

proof fn lemma_first_open_from(occ: Seq<Occupancy>, t: int, i: int)
    requires
        is_first_open_table(occ, t),
        0 <= i <= t,
    ensures
        first_open_from(occ, i) == t,
    decreases t - i,
{
    if i < t {
        lemma_first_open_from(occ, t, i + 1);
    }
}

/// The number of occupied seats over all tables.
pub open spec fn total_occupied(occ: Seq<Occupancy>) -> nat
    decreases occ.len(),
{
    if occ.len() == 0 {
        0
    } else {
        total_occupied(occ.drop_last()) + occupied_count(occ.last())
    }
}

/// What a successful `join` of `account_id` at table `t` did to `before`.
pub open spec fn joined(
    before: Tournament,
    after: Tournament,
    account_id: u128,
    nickname: Nickname,
    t: int,
) -> bool {
    &&& seated_well(before, after, account_id, nickname, t)
    &&& after.current_stage() == if any_free(after.occupancy()) {
        TournamentStage::WaitingForPlayers
    } else {
        TournamentStage::ReadyToStart
    }
}

/// `account_id` took the lowest free seat `p` of the first table `t` with
/// room; one `PlayerSeated` message and one `PlayerJoined` fact were recorded.
pub open spec fn seated_well(
    before: Tournament,
    after: Tournament,
    account_id: u128,
    nickname: Nickname,
    t: int,
) -> bool {
    &&& is_first_open_table(before.occupancy(), t)
    &&& after.identity() == before.identity()
    &&& after.table_ids() == before.table_ids()
    &&& after.log() == before.log().push(TournamentEvent::PlayerJoined { account_id, nickname })
    &&& after.occupancy() == seat_first_fit(before.occupancy(), account_id)
    &&& exists|p: int|
        {
            &&& #[trigger] is_first_free(before.occupancy()[t], p)
            &&& after.occupancy() == before.occupancy().update(t, before.occupancy()[t].update(p, Some(account_id)))
            &&& after.seats() == before.seats().update(
                t,
                before.seats()[t].update(
                    p,
                    Some(PlayerView { id: account_id, nickname: nickname@, stack: INITIAL_STACK }),
                ),
            )
            &&& after.pending() == before.pending().push(
                wrap(
                    before.identity(),
                    t,
                    TableEvent {
                        table_id: before.table_ids()[t],
                        event_type: TableEventType::PlayerSeated { nickname, stack: INITIAL_STACK, position: p as usize },
                    },
                ),
            )
        }
    &&& valid_log(after.log())
    &&& after.occupancy() == log_occupancy(after.log())
    &&& holders_unique(after.occupancy())
}

/// Appends to `messages` each of `events`, wrapped as a message of table
/// `table_number`.
fn extend_wrapped(
    messages: &mut Vec<TournamentMessage>,
    tournament_id: u128,
    table_number: usize,
    events: &Vec<TableEvent>,
)
    ensures
        final(messages)@ == old(messages)@ + Seq::new(
            events@.len(),
            |k: int| wrap(tournament_id, table_number as int, events@[k]),
        ),
{
    let ghost before = messages@;
    let mut i: usize = 0;
    while i < events.len()
        invariant
            i <= events@.len(),
            messages@ == before + Seq::new(i as nat, |k: int| wrap(tournament_id, table_number as int, events@[k])),
        decreases events@.len() - i,
    {
        messages.push(
            TournamentMessage {
                tournament_id,
                message_type: TournamentMessageType::TableMessage { table_number, message_type: events[i].duplicate() },
            },
        );
        i = i + 1;
        assert(messages@ =~= before + Seq::new(
            i as nat,
            |k: int| wrap(tournament_id, table_number as int, events@[k]),
        ));
    }
}

/// The `GameStarted` messages of the first `n` tables, in table-number order.
pub open spec fn started_messages(tournament_id: u128, table_ids: Seq<u128>, n: nat) -> Seq<TournamentMessage> {
    Seq::new(
        n,
        |t: int|
            wrap(
                tournament_id,
                t,
                TableEvent { table_id: table_ids[t], event_type: TableEventType::GameStarted { button: 0 } },
            ),
    )
}

proof fn lemma_valid_joins_prefix(occ0: Seq<Occupancy>, joins: Seq<TournamentEvent>, k: int)
    requires
        valid_joins(occ0, joins),
        0 <= k <= joins.len(),
    ensures
        valid_joins(occ0, joins.take(k)),
    decreases joins.len(),
{
    if k == joins.len() {
        assert(joins.take(k) =~= joins);
    } else {
        assert(joins.drop_last().take(k) =~= joins.take(k));
        lemma_valid_joins_prefix(occ0, joins.drop_last(), k);
    }
}

/// A tournament: its tables, its stage, the messages not yet collected, and
/// the log it can be rebuilt from.
#[derive(Debug, Clone)]
pub struct Tournament {
    id: u128,
    stage: TournamentStage,
    tables: Vec<Table>,
    messages: Vec<TournamentMessage>,
    events: Vec<TournamentEvent>,
}

impl Tournament {
    pub closed spec fn identity(&self) -> u128 {
        self.id
    }

    pub closed spec fn current_stage(&self) -> TournamentStage {
        self.stage
    }

    /// Who holds each seat of each table.
    pub closed spec fn occupancy(&self) -> Seq<Occupancy> {
        self.tables@.map_values(|t: Table| t.occupancy())
    }

    /// The player in each seat of each table.
    pub closed spec fn seats(&self) -> Seq<Seats> {
        self.tables@.map_values(|t: Table| t.seat_view())
    }

    /// The identity of each table.
    pub closed spec fn table_ids(&self) -> Seq<u128> {
        self.tables@.map_values(|t: Table| t.identity())
    }

    /// The messages recorded since the last `collect_messages`.
    pub closed spec fn pending(&self) -> Seq<TournamentMessage> {
        self.messages@
    }

    /// The log of facts the tournament can be rebuilt from.
    pub closed spec fn log(&self) -> Seq<TournamentEvent> {
        self.events@
    }

    /// The specification the tournament was created with.
    pub open spec fn created_spec(&self) -> TournamentSpecification {
        log_spec(self.log())
    }

    /// The tournament agrees with its log: replaying the log gives its
    /// identity and its seats, no identity holds two seats, the tables have
    /// no uncollected occurrences, and it waits for players exactly while a
    /// seat is free.
    pub closed spec fn wf(&self) -> bool {
        &&& self.seating_wf()
        &&& (self.stage == TournamentStage::WaitingForPlayers <==> any_free(self.occupancy()))
    }

    /// Everything `wf` asks but the agreement of the stage with the seats.
    closed spec fn seating_wf(&self) -> bool {
        let occ = self.occupancy();
        let spec = log_spec(self.events@);
        &&& valid_log(self.events@)
        &&& log_identity(self.events@) == self.id
        &&& occ == log_occupancy(self.events@)
        &&& occ.len() == spec@.0
        &&& forall|t: int| 0 <= t < occ.len() ==> (#[trigger] occ[t]).len() == spec@.1
        &&& forall|t: int|
            0 <= t < self.tables@.len() ==> (#[trigger] self.tables@[t]).wf()
                && self.tables@[t].pending().len() == 0
        &&& holders_unique(occ)
    }

    /// Same identity, tables and log; only the stage and the messages may
    /// differ.
    pub open spec fn same_seating(&self, other: &Tournament) -> bool {
        &&& self.identity() == other.identity()
        &&& self.occupancy() == other.occupancy()
        &&& self.seats() == other.seats()
        &&& self.table_ids() == other.table_ids()
        &&& self.log() == other.log()
    }

    /// A tournament with a fresh random identity, empty tables as `spec`
    /// describes, waiting for players.
    pub fn new(spec: &TournamentSpecification) -> (r: Tournament)
        requires
            spec.wf(),
        ensures
            r.wf(),
            r.occupancy() == empty_tables(spec@.0 as nat, spec@.1 as nat),
            r.current_stage() == TournamentStage::WaitingForPlayers,
            r.log() == seq![TournamentEvent::TournamentCreated { id: r.identity(), spec: *spec }],
            r.pending() == Seq::<TournamentMessage>::empty(),
    {
        Self::create(fresh_identity(), spec)
    }

    fn create(id: u128, spec: &TournamentSpecification) -> (r: Tournament)
        requires
            spec.wf(),
        ensures
            r.wf(),
            r.identity() == id,
            r.occupancy() == empty_tables(spec@.0 as nat, spec@.1 as nat),
            r.current_stage() == TournamentStage::WaitingForPlayers,
            r.log() == seq![TournamentEvent::TournamentCreated { id, spec: *spec }],
            r.pending() == Seq::<TournamentMessage>::empty(),
    {
        let mut tables: Vec<Table> = Vec::new();
        let mut i: u8 = 0;
        let ghost seats = spec@.1 as nat;
        while i < spec.table_count
            invariant
                i <= spec@.0,
                spec.wf(),
                seats == spec@.1,
                tables@.len() == i,
                forall|t: int|
                    0 <= t < i ==> (#[trigger] tables@[t]).wf() && tables@[t].occupancy() == empty_seats(seats)
                        && tables@[t].pending().len() == 0,
            decreases spec@.0 - i,
        {
            tables.push(Table::new(&spec.table_spec));
            i = i + 1;
        }
        let mut events: Vec<TournamentEvent> = Vec::new();
        events.push(TournamentEvent::TournamentCreated { id, spec: *spec });
        let r = Tournament {
            id,
            stage: TournamentStage::WaitingForPlayers,
            tables,
            messages: Vec::new(),
            events,
        };
        proof {
            let occ = r.occupancy();
            let origin = empty_tables(spec@.0 as nat, spec@.1 as nat);
            assert(occ =~= origin);
            assert(log_joins(r.events@) =~= Seq::<TournamentEvent>::empty());
            assert(r.events@ =~= seq![TournamentEvent::TournamentCreated { id, spec: *spec }]);
            assert(has_free(occ[0])) by {
                assert(occ[0][0] is None);
            }
            assert(any_free(occ));
        }
        r
    }

    /// A copy of the log.
    pub fn events(&self) -> (r: Vec<TournamentEvent>)
        ensures
            r@ == self.log(),
    {
        let mut r: Vec<TournamentEvent> = Vec::new();
        let mut i: usize = 0;
        while i < self.events.len()
            invariant
                i <= self.events@.len(),
                r@ == self.events@.take(i as int),
            decreases self.events@.len() - i,
        {
            r.push(self.events[i].duplicate());
            i = i + 1;
            assert(r@ =~= self.events@.take(i as int));
        }
        assert(self.events@.take(i as int) =~= self.events@);
        r
    }

    pub fn id(&self) -> (r: u128)
        ensures
            r == self.identity(),
    {
        self.id
    }

    /// The specification the tournament was created with.
    pub fn spec(&self) -> (r: TournamentSpecification)
        requires
            self.wf(),
        ensures
            r == self.created_spec(),
    {
        match &self.events[0] {
            TournamentEvent::TournamentCreated { spec, .. } => *spec,
            TournamentEvent::PlayerJoined { .. } => vstd::pervasive::unreached(),
        }
    }

    pub fn table_count(&self) -> (r: usize)
        requires
            self.wf(),
        ensures
            r == self.occupancy().len(),
            r == self.created_spec()@.0,
    {
        self.tables.len()
    }

    pub fn table_seat_count(&self) -> (r: u8)
        requires
            self.wf(),
        ensures
            r == self.created_spec()@.1,
            forall|t: int| 0 <= t < self.occupancy().len() ==> (#[trigger] self.occupancy()[t]).len() == r,
    {
        proof { assert(self.occupancy()[0] == self.tables@[0].occupancy()); }
        self.tables[0].seat_count()
    }

    /// The number of occupied seats over all tables.
    pub fn player_count(&self) -> (r: usize)
        requires
            self.wf(),
        ensures
            r == total_occupied(self.occupancy()),
    {
        let ghost occ = self.occupancy();
        let mut total: usize = 0;
        let mut i: usize = 0;
        while i < self.tables.len()
            invariant
                self.wf(),
                occ == self.occupancy(),
                i <= self.tables@.len(),
                total == total_occupied(occ.take(i as int)),
                total <= i * (MAX_SEATS as int),
            decreases self.tables@.len() - i,
        {
            proof {
                assert(occ.take(i + 1).drop_last() =~= occ.take(i as int));
                assert(occ[i as int] == self.tables@[i as int].occupancy());
                lemma_occupied_count_bound(occ[i as int]);
            }
            let n = self.tables[i].player_count();
            total = total + n as usize;
            i = i + 1;
        }
        assert(occ.take(i as int) =~= occ);
        total
    }

    pub fn is_waiting_for_players(&self) -> (r: bool)
        ensures
            r == (self.current_stage() == TournamentStage::WaitingForPlayers),
    {
        self.stage == TournamentStage::WaitingForPlayers
    }

    pub fn is_finished(&self) -> (r: bool)
        ensures
            r == (self.current_stage() == TournamentStage::Finished),
    {
        self.stage == TournamentStage::Finished
    }

    pub fn is_ready_to_start(&self) -> (r: bool)
        ensures
            r == (self.current_stage() == TournamentStage::ReadyToStart),
    {
        self.stage == TournamentStage::ReadyToStart
    }

    /// The number of the table where `account_id` sits, if it sits anywhere.
    pub fn players_table_number(&self, account_id: u128) -> (r: Option<usize>)
        ensures
            r matches Some(t) ==> t < self.occupancy().len() && holds(self.occupancy()[t as int], account_id)
                && forall|j: int| 0 <= j < t ==> !holds(#[trigger] self.occupancy()[j], account_id),
            r is None <==> !seated_anywhere(self.occupancy(), account_id),
    {
        let mut i: usize = 0;
        while i < self.tables.len()
            invariant
                i <= self.tables@.len(),
                forall|j: int| 0 <= j < i ==> !holds(#[trigger] self.occupancy()[j], account_id),
            decreases self.tables@.len() - i,
        {
            proof { assert(self.occupancy()[i as int] == self.tables@[i as int].occupancy()); }
            if self.tables[i].has_player(account_id) {
                return Some(i);
            }
            i = i + 1;
        }
        None
    }

    /// The state of table `table_number`, which must exist.
    pub fn table_state(&self, table_number: usize) -> (r: Result<TableState, TournamentError>)
        ensures
            r is Ok <==> table_number < self.occupancy().len(),
            r is Err ==> r == Err::<TableState, TournamentError>(TournamentError::NotSuchTable),
    {
        if table_number < self.tables.len() {
            Ok(self.tables[table_number].state())
        } else {
            Err(TournamentError::NotSuchTable)
        }
    }

    /// Hands out the recorded messages and empties the record.
    pub fn collect_messages(&mut self) -> (r: Vec<TournamentMessage>)
        ensures
            r@ == old(self).pending(),
            final(self).pending() == Seq::<TournamentMessage>::empty(),
            final(self).same_seating(old(self)),
            final(self).current_stage() == old(self).current_stage(),
            final(self).wf() == old(self).wf(),
    {
        let mut taken: Vec<TournamentMessage> = Vec::new();
        core::mem::swap(&mut self.messages, &mut taken);
        taken
    }

    /// Whether `account_id` holds a seat at any table.
    pub fn has_player(&self, account_id: u128) -> (r: bool)
        ensures
            r == seated_anywhere(self.occupancy(), account_id),
    {
        self.players_table_number(account_id).is_some()
    }

    fn all_seats_are_taken(&self) -> (r: bool)
        ensures
            r == !any_free(self.occupancy()),
    {
        let mut i: usize = 0;
        while i < self.tables.len()
            invariant
                i <= self.tables@.len(),
                forall|j: int| 0 <= j < i ==> !has_free(#[trigger] self.occupancy()[j]),
            decreases self.tables@.len() - i,
        {
            proof { assert(self.occupancy()[i as int] == self.tables@[i as int].occupancy()); }
            if self.tables[i].has_free_seat() {
                return false;
            }
            i = i + 1;
        }
        true
    }

    fn find_table_with_free_seats(&self) -> (r: Option<usize>)
        ensures
            r matches Some(t) ==> is_first_open_table(self.occupancy(), t as int),
            r is None <==> !any_free(self.occupancy()),
    {
        let mut i: usize = 0;
        while i < self.tables.len()
            invariant
                i <= self.tables@.len(),
                forall|j: int| 0 <= j < i ==> !has_free(#[trigger] self.occupancy()[j]),
            decreases self.tables@.len() - i,
        {
            proof { assert(self.occupancy()[i as int] == self.tables@[i as int].occupancy()); }
            if self.tables[i].has_free_seat() {
                return Some(i);
            }
            i = i + 1;
        }
        None
    }

    /// Seats `account_id` first-fit: the lowest free seat of the
    /// lowest-numbered table that has one. Returns the table number. Once every
    /// seat is taken the tournament is ready to start.
    pub fn join(&mut self, account_id: u128, nickname: Nickname) -> (r: Result<usize, TournamentError>)
        requires
            old(self).wf(),
        ensures
            final(self).wf(),
            seated_anywhere(old(self).occupancy(), account_id) ==> r == Err::<usize, TournamentError>(
                TournamentError::PlayerAlreadyJoined,
            ),
            !seated_anywhere(old(self).occupancy(), account_id) && old(self).current_stage()
                != TournamentStage::WaitingForPlayers ==> r == Err::<usize, TournamentError>(
                TournamentError::TournamentAlreadyStarted,
            ),
            r is Ok <==> can_seat(old(self).occupancy(), account_id),
            old(self).current_stage() == TournamentStage::WaitingForPlayers && !seated_anywhere(
                old(self).occupancy(),
                account_id,
            ) ==> r is Ok,
            r is Err ==> *final(self) == *old(self),
            r matches Ok(t) ==> joined(*old(self), *final(self), account_id, nickname, t as int),
    {
        if self.has_player(account_id) {
            Err(TournamentError::PlayerAlreadyJoined)
        } else if self.stage == TournamentStage::WaitingForPlayers {
            let table_number = self.seat_player(account_id, nickname);
            if self.all_seats_are_taken() {
                self.stage = TournamentStage::ReadyToStart;
            }
            Ok(table_number)
        } else {
            Err(TournamentError::TournamentAlreadyStarted)
        }
    }

    fn seat_player(&mut self, account_id: u128, nickname: Nickname) -> (r: usize)
        requires
            old(self).wf(),
            old(self).current_stage() == TournamentStage::WaitingForPlayers,
            !seated_anywhere(old(self).occupancy(), account_id),
        ensures
            final(self).current_stage() == old(self).current_stage(),
            final(self).seating_wf(),
            seated_well(*old(self), *final(self), account_id, nickname, r as int),
    {
        let ghost old_self = *self;
        let ghost occ = self.occupancy();
        let table_number = match self.find_table_with_free_seats() {
            Some(t) => t,
            None => vstd::pervasive::unreached(),
        };
        proof {
            assert(occ[table_number as int] == self.tables@[table_number as int].occupancy());
            if holds(occ[table_number as int], account_id) {
                assert(seated_anywhere(occ, account_id));
            }
        }
        self.tables[table_number].sit_down(account_id, nickname.duplicate(), INITIAL_STACK);
        let table_events = self.tables[table_number].collect_events();
        let ghost p = choose|p: int|
            #[trigger] is_first_free(occ[table_number as int], p) && self.tables@[table_number as int].occupancy()
                == occ[table_number as int].update(p, Some(account_id));
        proof {
            let t = table_number as int;
            let new_occ = self.occupancy();
            assert(new_occ =~= occ.update(t, occ[t].update(p, Some(account_id))));
            assert(self.seats() =~= old_self.seats().update(
                t,
                old_self.seats()[t].update(
                    p,
                    Some(PlayerView { id: account_id, nickname: nickname@, stack: INITIAL_STACK }),
                ),
            ));
            assert forall|j: int| 0 <= j < self.tables@.len() implies (#[trigger] self.tables@[j]).wf()
                && self.tables@[j].pending().len() == 0 by {
                if j != t {
                    assert(self.tables@[j] == old_self.tables@[j]);
                }
            }
        }
        extend_wrapped(&mut self.messages, self.id, table_number, &table_events);
        self.events.push(TournamentEvent::PlayerJoined { account_id, nickname });
        proof {
            let t = table_number as int;
            let log = self.events@;
            let old_log = old_self.events@;
            lemma_first_open_from(occ, t, 0);
            lemma_first_free_from(occ[t], p, 0);
            assert(log[0] == old_log[0]);
            assert(log_joins(log).drop_last() =~= log_joins(old_log));
            assert(self.messages@ =~= old_self.messages@.push(
                wrap(self.id, t, TableEvent {
                    table_id: self.tables@[t].identity(),
                    event_type: TableEventType::PlayerSeated { nickname, stack: INITIAL_STACK, position: p as usize },
                }),
            ));
            assert(self.table_ids() =~= old_self.table_ids()) by {
                assert forall|j: int| 0 <= j < self.tables@.len() implies self.table_ids()[j] == old_self.table_ids()[j] by {
                    if j != t {
                        assert(self.tables@[j] == old_self.tables@[j]);
                    }
                }
            }
            let new_occ = self.occupancy();
            assert forall|t1: int, s1: int, t2: int, s2: int|
                0 <= t1 < new_occ.len() && 0 <= t2 < new_occ.len() && 0 <= s1 < new_occ[t1].len() && 0 <= s2
                    < new_occ[t2].len() && (#[trigger] new_occ[t1][s1]) is Some && new_occ[t1][s1]
                    == #[trigger] new_occ[t2][s2] implies t1 == t2 && s1 == s2 by {
                if !(t1 == t && s1 == p) && !(t2 == t && s2 == p) {
                    assert(new_occ[t1][s1] == occ[t1][s1]);
                    assert(new_occ[t2][s2] == occ[t2][s2]);
                } else if t1 == t && s1 == p && !(t2 == t && s2 == p) {
                    assert(new_occ[t2][s2] == occ[t2][s2]);
                    assert(holds(occ[t2], account_id));
                } else if !(t1 == t && s1 == p) && t2 == t && s2 == p {
                    assert(new_occ[t1][s1] == occ[t1][s1]);
                    assert(holds(occ[t1], account_id));
                }
            }
            assert forall|j: int| 0 <= j < new_occ.len() implies (#[trigger] new_occ[j]).len() == log_spec(log)@.1 by {
                assert(occ[j].len() == log_spec(old_log)@.1);
            }
        }
        table_number
    }

    /// Starts the game at every table in table-number order, recording each
    /// table's `GameStarted`, and moves the tournament to `Running`.
    pub fn start(&mut self)
        requires
            old(self).wf(),
            old(self).current_stage() == TournamentStage::ReadyToStart,
        ensures
            final(self).wf(),
            final(self).current_stage() == TournamentStage::Running,
            final(self).same_seating(old(self)),
            old(self).table_ids().len() == old(self).occupancy().len(),
            final(self).pending() == old(self).pending() + started_messages(
                old(self).identity(),
                old(self).table_ids(),
                old(self).table_ids().len(),
            ),
    {
        let ghost old_self = *self;
        let ghost ids = old_self.table_ids();
        let mut i: usize = 0;
        while i < self.tables.len()
            invariant
                i <= self.tables@.len(),
                self.tables@.len() == old_self.tables@.len(),
                self.id == old_self.id,
                self.events == old_self.events,
                self.stage == old_self.stage,
                old_self.wf(),
                !any_free(old_self.occupancy()),
                forall|j: int|
                    0 <= j < self.tables@.len() ==> (#[trigger] self.tables@[j]).occupancy()
                        == old_self.tables@[j].occupancy() && self.tables@[j].seat_view()
                        == old_self.tables@[j].seat_view() && self.tables@[j].identity()
                        == old_self.tables@[j].identity() && self.tables@[j].wf()
                        && self.tables@[j].pending().len() == 0,
                ids == old_self.table_ids(),
                self.messages@ == old_self.messages@ + started_messages(self.id, ids, i as nat),
            decreases self.tables@.len() - i,
        {
            proof {
                let o = old_self.occupancy()[i as int];
                assert(o == old_self.tables@[i as int].occupancy());
                assert(!has_free(o));
                lemma_occupied_count_bound(o);
            }
            self.tables[i].start_game();
            let table_events = self.tables[i].collect_events();
            let ghost before = self.messages@;
            extend_wrapped(&mut self.messages, self.id, i, &table_events);
            proof {
                assert(table_events@.len() == 1);
                assert(table_events@[0] == TableEvent {
                    table_id: old_self.tables@[i as int].identity(),
                    event_type: TableEventType::GameStarted { button: 0 },
                });
                assert(ids[i as int] == old_self.tables@[i as int].identity());
                assert(self.messages@ =~= before.push(wrap(self.id, i as int, table_events@[0])));
            }
            i = i + 1;
            assert(self.messages@ =~= old_self.messages@ + started_messages(self.id, ids, i as nat));
        }
        self.stage = TournamentStage::Running;
        proof {
            assert(self.occupancy() =~= old_self.occupancy());
            assert(self.seats() =~= old_self.seats());
            assert(self.table_ids() =~= old_self.table_ids());
        }
    }

    /// Rebuilds a tournament from its log: the creation fact, then every
    /// join replayed through `join`.
    pub fn restore(events: Vec<TournamentEvent>) -> (r: Tournament)
        requires
            valid_log(events@),
        ensures
            r.wf(),
            r.log() == events@,
            r.identity() == log_identity(events@),
            r.created_spec() == log_spec(events@),
            r.occupancy() == log_occupancy(events@),
            r.current_stage() == if any_free(r.occupancy()) {
                TournamentStage::WaitingForPlayers
            } else {
                TournamentStage::ReadyToStart
            },
    {
        let mut tournament = match &events[0] {
            TournamentEvent::TournamentCreated { id, spec } => Self::create(*id, spec),
            TournamentEvent::PlayerJoined { .. } => vstd::pervasive::unreached(),
        };
        let ghost log = events@;
        let ghost joins = log_joins(log);
        proof {
            assert(tournament.log() =~= log.take(1));
        }
        let mut i: usize = 1;
        while i < events.len()
            invariant
                1 <= i <= events@.len(),
                log == events@,
                joins == log_joins(log),
                valid_log(log),
                tournament.wf(),
                tournament.log() == log.take(i as int),
                tournament.current_stage() == TournamentStage::WaitingForPlayers
                    || tournament.current_stage() == TournamentStage::ReadyToStart,
            decreases events@.len() - i,
        {
            proof {
                let prefix = log.take(i as int);
                assert(prefix[0] == log[0]);
                assert(log_joins(prefix) =~= joins.take(i - 1));
                assert(joins.take(i as int).drop_last() =~= joins.take(i - 1));
                assert(joins.take(i as int).last() == log[i as int]);
                lemma_valid_joins_prefix(log_origin(log), joins, i as int);
            }
            tournament.apply(events[i].duplicate());
            i = i + 1;
            assert(tournament.log() =~= log.take(i as int));
        }
        assert(log.take(i as int) =~= log);
        tournament
    }

    fn apply(&mut self, event: TournamentEvent)
        requires
            old(self).wf(),
            event matches TournamentEvent::PlayerJoined { account_id, .. } && can_seat(
                old(self).occupancy(),
                account_id,
            ),
        ensures
            final(self).wf(),
            final(self).log() == old(self).log().push(event),
            final(self).current_stage() == TournamentStage::WaitingForPlayers
                || final(self).current_stage() == TournamentStage::ReadyToStart,
    {
        match event {
            TournamentEvent::PlayerJoined { account_id, nickname } => {
                let _ = self.join(account_id, nickname);
            },
            TournamentEvent::TournamentCreated { .. } => {},
        }
    }

    /// What a well-formed tournament keeps: it waits for players exactly
    /// while a seat is free, its log can be replayed and gives its identity,
    /// its specification and its seats, each table has an identity, and no
    /// identity holds two seats.
    pub proof fn lemma_wf_facts(t: Tournament)
        requires
            t.wf(),
        ensures
            t.current_stage() == TournamentStage::WaitingForPlayers <==> any_free(t.occupancy()),
            valid_log(t.log()),
            log_identity(t.log()) == t.identity(),
            t.occupancy() == log_occupancy(t.log()),
            t.occupancy().len() == t.created_spec()@.0,
            forall|j: int| 0 <= j < t.occupancy().len() ==> (#[trigger] t.occupancy()[j]).len() == t.created_spec()@.1,
            t.table_ids().len() == t.occupancy().len(),
            t.seats().len() == t.occupancy().len(),
            holders_unique(t.occupancy()),
    {
    }

    /// A player sits at one table at most.
    pub proof fn lemma_one_table_per_player(t: Tournament, account_id: u128)
        requires
            t.wf(),
        ensures
            forall|a: int, b: int|
                0 <= a < t.occupancy().len() && 0 <= b < t.occupancy().len() && holds(
                    #[trigger] t.occupancy()[a],
                    account_id,
                ) && holds(#[trigger] t.occupancy()[b], account_id) ==> a == b,
    {
        let occ = t.occupancy();
        assert forall|a: int, b: int|
            0 <= a < occ.len() && 0 <= b < occ.len() && holds(#[trigger] occ[a], account_id) && holds(
                #[trigger] occ[b],
                account_id,
            ) implies a == b by {
            let sa = choose|s: int| 0 <= s < occ[a].len() && occ[a][s] == Some(account_id);
            let sb = choose|s: int| 0 <= s < occ[b].len() && occ[b][s] == Some(account_id);
            assert(occ[a][sa] == occ[b][sb]);
        }
    }
}

} // verus!

verus! {

impl PartialEq for Tournament {
    /// Tournaments are the same when their identities are.
    fn eq(&self, other: &Tournament) -> (r: bool) {
        self.id == other.id
    }
}

impl vstd::std_specs::cmp::PartialEqSpecImpl for Tournament {
    open spec fn obeys_eq_spec() -> bool {
        true
    }

    open spec fn eq_spec(&self, other: &Tournament) -> bool {
        self.identity() == other.identity()
    }
}

/// A tournament's log determines its identity, its specification and who
/// holds each seat: rebuilding a tournament from its recorded log, as
/// `restore` does, reproduces all three.
pub proof fn lemma_replay_reproduces(original: Tournament, restored: Tournament)
    requires
        original.wf(),
        restored.wf(),
        restored.log() == original.log(),
    ensures
        restored.identity() == original.identity(),
        restored.created_spec() == original.created_spec(),
        restored.occupancy() == original.occupancy(),
{
}

} // verus!
