use vstd::prelude::*;

use crate::table::TableEvent;
use crate::traits::{PublishTournamentEvents, RegisterTableEventReceivers, SubscribeTableEvents};
use crate::tournament::{TournamentMessage, TournamentMessageType};

use tokio::sync::broadcast::Receiver;
use tokio::sync::broadcast::Sender;

verus! {

/// tokio's `broadcast::Sender`, carried as an opaque value.
#[verifier::external_type_specification]
#[verifier::external_body]
#[verifier::reject_recursive_types(T)]
pub struct ExSender<T>(tokio::sync::broadcast::Sender<T>);

/// tokio's `broadcast::Receiver`, handed to observers as an opaque value.
#[verifier::external_type_specification]
#[verifier::external_body]
#[verifier::reject_recursive_types(T)]
pub struct ExReceiver<T>(tokio::sync::broadcast::Receiver<T>);

/// Relies on tokio's `broadcast::Sender::new`, which panics on a capacity of
/// zero or above `usize::MAX / 2`.
pub assume_specification<T>[ tokio::sync::broadcast::Sender::<T>::new ](capacity: usize) -> Sender<T>
    requires
        0 < capacity <= usize::MAX / 2,
;

/// Relies on tokio's `broadcast::Sender::subscribe`: a receiver of the values
/// sent after the call.
pub assume_specification<T>[ tokio::sync::broadcast::Sender::<T>::subscribe ](
    sender: &Sender<T>,
) -> Receiver<T>
;

/// Relies on tokio's `broadcast::Sender::send`, which never blocks: with no
/// receiver the value is refused, else it overwrites the oldest buffered
/// value once the buffer is full. Whether it was taken is handed back.
#[verifier::external_body]
fn send_event(sender: &Sender<TableEvent>, event: TableEvent) -> (taken: bool) {
    sender.send(event).is_ok()
}

/// The number of occurrences a table channel buffers for a receiver that
/// lags; older ones are dropped for it.
pub const CHANNEL_CAPACITY: usize = 16;

/// The address of a table: the tournament's identity and the table number.
pub type TableKey = (u128, usize);

/// The address a message is for.
pub open spec fn message_key(m: TournamentMessage) -> TableKey {
    match m.message_type {
        TournamentMessageType::TableMessage { table_number, .. } => (m.tournament_id, table_number),
    }
}

/// The table occurrence a message carries.
pub open spec fn message_event(m: TournamentMessage) -> TableEvent {
    match m.message_type {
        TournamentMessageType::TableMessage { message_type, .. } => message_type,
    }
}

/// The occurrences of `messages` addressed to `key`, in order.
pub open spec fn events_for(messages: Seq<TournamentMessage>, key: TableKey) -> Seq<TableEvent>
    decreases messages.len(),
{
    if messages.len() == 0 {
        Seq::empty()
    } else {
        let rest = events_for(messages.drop_last(), key);
        if message_key(messages.last()) == key {
            rest.push(message_event(messages.last()))
        } else {
            rest
        }
    }
}

/// No key appears twice.
pub open spec fn keys_distinct(keys: Seq<TableKey>) -> bool {
    forall|i: int, j: int| 0 <= i < keys.len() && 0 <= j < keys.len() && i != j ==> keys[i] != keys[j]
}

struct TableChannel {
    tournament_id: u128,
    table_number: usize,
    sender: Sender<TableEvent>,
    offered: Ghost<Seq<TableEvent>>,
}

/// Routes table occurrences to the observers of each registered table. Each
/// table has its own channel of bounded capacity: an observer that does not
/// read loses the oldest occurrences, and never holds up the others.
/// Observing a table that was never registered is refused.
pub struct TableEventBroadcast {
    channels: Vec<TableChannel>,
    published: Ghost<Seq<TournamentMessage>>,
}

impl TableEventBroadcast {
    /// The registered tables, in order of registration.
    pub closed spec fn keys(&self) -> Seq<TableKey> {
        self.channels@.map_values(|c: TableChannel| (c.tournament_id, c.table_number))
    }

    /// For each registered table, the occurrences handed to its channel, in
    /// order.
    pub closed spec fn offered(&self) -> Seq<Seq<TableEvent>> {
        self.channels@.map_values(|c: TableChannel| c.offered@)
    }

    /// Every message handed to `publish` so far, in order.
    pub closed spec fn messages_published(&self) -> Seq<TournamentMessage> {
        self.published@
    }

    /// No table is registered twice.
    pub open spec fn wf(&self) -> bool {
        keys_distinct(self.keys())
    }

    pub fn new() -> (r: TableEventBroadcast)
        ensures
            r.wf(),
            r.messages_published() == Seq::<TournamentMessage>::empty(),
            r.keys() == Seq::<TableKey>::empty(),
            r.offered() == Seq::<Seq<TableEvent>>::empty(),
    {
        let r = TableEventBroadcast { channels: Vec::new(), published: Ghost(Seq::empty()) };
        assert(r.keys() =~= Seq::<TableKey>::empty());
        assert(r.offered() =~= Seq::<Seq<TableEvent>>::empty());
        r
    }

    /// Opens a channel for each of the tables `0..table_count` of a
    /// tournament that has none yet. Registering a table again does nothing:
    /// its channel, and the receivers subscribed to it, are kept as they are,
    /// and no table gets a second channel.
    pub fn register_table_event_receivers(&mut self, tournament_id: u128, table_count: usize)
        ensures
            old(self).wf() ==> final(self).wf(),
            final(self).messages_published() == old(self).messages_published(),
            old(self).keys().len() <= final(self).keys().len(),
            final(self).keys().take(old(self).keys().len() as int) == old(self).keys(),
            final(self).offered().take(old(self).keys().len() as int) == old(self).offered(),
            forall|i: int|
                0 <= i < table_count ==> #[trigger] final(self).keys().contains((tournament_id, i as usize)),
            forall|j: int|
                old(self).keys().len() <= j < final(self).keys().len() ==> (#[trigger] final(self).keys()[j]).0
                    == tournament_id && final(self).keys()[j].1 < table_count && final(self).offered()[j]
                    == Seq::<TableEvent>::empty(),
    {
        let ghost old_keys = self.keys();
        let ghost old_offered = self.offered();
        let ghost old_published = self.published@;
        let mut i: usize = 0;
        while i < table_count
            invariant
                i <= table_count,
                self.published@ == old_published,
                keys_distinct(old_keys) ==> keys_distinct(self.keys()),
                old_keys.len() <= self.keys().len(),
                self.keys().take(old_keys.len() as int) == old_keys,
                self.offered().take(old_keys.len() as int) == old_offered,
                forall|k: int| 0 <= k < i ==> #[trigger] self.keys().contains((tournament_id, k as usize)),
                forall|j: int|
                    old_keys.len() <= j < self.keys().len() ==> (#[trigger] self.keys()[j]).0 == tournament_id
                        && self.keys()[j].1 < i && self.offered()[j] == Seq::<TableEvent>::empty(),
            decreases table_count - i,
        {
            if self.channel_index((tournament_id, i)).is_none() {
                let sender = Sender::new(CHANNEL_CAPACITY);
                let ghost prev = self.keys();
                let ghost prev_offered = self.offered();
                assert(forall|k: int| 0 <= k < i ==> #[trigger] prev.contains((tournament_id, k as usize)));
                self.channels.push(TableChannel { tournament_id, table_number: i, sender, offered: Ghost(Seq::empty()) });
                proof {
                    let keys = self.keys();
                    assert(keys =~= prev.push((tournament_id, i)));
                    assert(self.offered() =~= prev_offered.push(Seq::empty()));
                    assert(keys.take(old_keys.len() as int) =~= prev.take(old_keys.len() as int));
                    assert(self.offered().take(old_keys.len() as int) =~= prev_offered.take(old_keys.len() as int));
                    assert(keys[keys.len() - 1] == (tournament_id, i));
                    assert forall|k: int| 0 <= k <= i implies #[trigger] keys.contains((tournament_id, k as usize)) by {
                        if k < i {
                            assert(prev.contains((tournament_id, k as usize)));
                            let w = choose|w: int| 0 <= w < prev.len() && prev[w] == (tournament_id, k as usize);
                            assert(keys[w] == prev[w]);
                        } else {
                            assert(keys[keys.len() - 1] == (tournament_id, k as usize));
                        }
                    }
                    if keys_distinct(old_keys) {
                        assert forall|a: int, b: int| 0 <= a < keys.len() && 0 <= b < keys.len() && a != b implies keys[a]
                            != keys[b] by {
                            if a == keys.len() - 1 && b < prev.len() {
                                assert(keys[b] == prev[b]);
                            } else if b == keys.len() - 1 && a < prev.len() {
                                assert(keys[a] == prev[a]);
                            } else {
                                assert(keys[a] == prev[a]);
                                assert(keys[b] == prev[b]);
                            }
                        }
                    }
                }
            }
            i = i + 1;
        }
    }

    fn channel_index(&self, key: TableKey) -> (r: Option<usize>)
        ensures
            r matches Some(i) ==> i < self.keys().len() && self.keys()[i as int] == key,
            r is None <==> !self.keys().contains(key),
    {
        let mut i: usize = 0;
        while i < self.channels.len()
            invariant
                i <= self.channels@.len(),
                forall|j: int| 0 <= j < i ==> self.keys()[j] != key,
            decreases self.channels@.len() - i,
        {
            if self.channels[i].tournament_id == key.0 && self.channels[i].table_number == key.1 {
                assert(self.keys()[i as int] == key);
                return Some(i);
            }
            i = i + 1;
        }
        None
    }

    /// Hands each message's occurrence to the channel of its table, if that
    /// table is registered; messages for other tables are dropped. Never
    /// waits for an observer.
    pub fn publish(&mut self, messages: Vec<TournamentMessage>)
        ensures
            final(self).messages_published() == old(self).messages_published() + messages@,
            final(self).keys() == old(self).keys(),
            final(self).offered().len() == old(self).offered().len(),
            forall|i: int|
                0 <= i < old(self).keys().len() ==> #[trigger] final(self).offered()[i] == old(self).offered()[i]
                    + events_for(messages@, old(self).keys()[i]),
    {
        let ghost old_offered = self.offered();
        let ghost keys = self.keys();
        let ghost old_published = self.published@;
        let mut m: usize = 0;
        while m < messages.len()
            invariant
                m <= messages@.len(),
                self.published@ == old_published,
                self.keys() == keys,
                self.offered().len() == old_offered.len(),
                forall|i: int|
                    0 <= i < keys.len() ==> #[trigger] self.offered()[i] == old_offered[i] + events_for(
                        messages@.take(m as int),
                        keys[i],
                    ),
            decreases messages@.len() - m,
        {
            let message = &messages[m];
            let ghost prefix = messages@.take(m as int);
            proof {
                assert(messages@.take(m + 1).drop_last() =~= prefix);
                assert(messages@.take(m + 1).last() == messages@[m as int]);
            }
            match &message.message_type {
                TournamentMessageType::TableMessage { table_number, message_type } => {
                    self.offer_to_table(message.tournament_id, *table_number, message_type);
                },
            }
            m = m + 1;
            assert forall|i: int| 0 <= i < keys.len() implies #[trigger] self.offered()[i] == old_offered[i]
                + events_for(messages@.take(m as int), keys[i]) by {
                let extra = events_for(prefix, keys[i]);
                assert(old_offered[i] + extra.push(message_event(messages@[m - 1])) =~= (old_offered[i]
                    + extra).push(message_event(messages@[m - 1])));
            }
        }
        assert(messages@.take(m as int) =~= messages@);
        self.published = Ghost(self.published@ + messages@);
    }

    /// Sends `event` on every channel registered for the given table.
    fn offer_to_table(&mut self, tournament_id: u128, table_number: usize, event: &TableEvent)
        ensures
            final(self).messages_published() == old(self).messages_published(),
            final(self).keys() == old(self).keys(),
            final(self).offered().len() == old(self).offered().len(),
            forall|i: int|
                0 <= i < old(self).keys().len() ==> #[trigger] final(self).offered()[i] == if old(self).keys()[i]
                    == (tournament_id, table_number) {
                    old(self).offered()[i].push(*event)
                } else {
                    old(self).offered()[i]
                },
    {
        let ghost old_offered = self.offered();
        let ghost keys = self.keys();
        let ghost old_published = self.published@;
        let mut c: usize = 0;
        while c < self.channels.len()
            invariant
                c <= self.channels@.len(),
                self.published@ == old_published,
                self.keys() == keys,
                self.offered().len() == old_offered.len(),
                forall|i: int|
                    0 <= i < keys.len() ==> #[trigger] self.offered()[i] == if i < c && keys[i] == (
                        tournament_id,
                        table_number,
                    ) {
                        old_offered[i].push(*event)
                    } else {
                        old_offered[i]
                    },
            decreases self.channels@.len() - c,
        {
            proof {
                assert(keys[c as int] == (self.channels@[c as int].tournament_id, self.channels@[c as int].table_number));
                assert(self.offered()[c as int] == old_offered[c as int]);
            }
            if self.channels[c].tournament_id == tournament_id && self.channels[c].table_number == table_number {
                send_event(&self.channels[c].sender, event.duplicate());
                let ghost prev_keys = self.keys();
                let ghost prev_offered = self.offered();
                let ghost logged = self.channels@[c as int].offered@.push(*event);
                self.channels[c].offered = Ghost(logged);
                proof {
                    assert(self.keys() =~= prev_keys);
                    assert(self.offered() =~= prev_offered.update(c as int, logged));
                }
            }
            c = c + 1;
        }
    }

    /// A receiver of the occurrences of the given table published from now
    /// on, or `None` if the table was never registered.
    pub fn subscribe_table_events(&self, tournament_id: u128, table_number: usize) -> (r: Option<
        Receiver<TableEvent>,
    >)
        ensures
            r is Some <==> self.keys().contains((tournament_id, table_number)),
    {
        match self.channel_index((tournament_id, table_number)) {
            Some(c) => Some(self.channels[c].sender.subscribe()),
            None => None,
        }
    }
}

/// The deliveries of one message to receivers registered under `keys`: the
/// index of each receiver whose key is the message's, in index order, with
/// the message's occurrence.
pub open spec fn deliveries_of(keys: Seq<TableKey>, m: TournamentMessage) -> Seq<(usize, TableEvent)>
    decreases keys.len(),
{
    if keys.len() == 0 {
        Seq::empty()
    } else {
        let rest = deliveries_of(keys.drop_last(), m);
        if keys.last() == message_key(m) {
            rest.push(((keys.len() - 1) as usize, message_event(m)))
        } else {
            rest
        }
    }
}

/// The deliveries of each message in turn.
pub open spec fn all_deliveries(keys: Seq<TableKey>, messages: Seq<TournamentMessage>) -> Seq<(usize, TableEvent)>
    decreases messages.len(),
{
    if messages.len() == 0 {
        Seq::empty()
    } else {
        all_deliveries(keys, messages.drop_last()) + deliveries_of(keys, messages.last())
    }
}

/// For receivers registered under `keys` (one entry per receiver), which
/// receiver gets which occurrence: for each message in order, every receiver
/// of the message's table in index order.
pub fn deliveries(keys: &Vec<TableKey>, messages: &Vec<TournamentMessage>) -> (r: Vec<(usize, TableEvent)>)
    ensures
        r@ == all_deliveries(keys@, messages@),
{
    let mut r: Vec<(usize, TableEvent)> = Vec::new();
    let mut m: usize = 0;
    while m < messages.len()
        invariant
            m <= messages@.len(),
            r@ == all_deliveries(keys@, messages@.take(m as int)),
        decreases messages@.len() - m,
    {
        let message = &messages[m];
        let ghost before = r@;
        let (key, event) = match &message.message_type {
            TournamentMessageType::TableMessage { table_number, message_type } => (
                (message.tournament_id, *table_number),
                message_type,
            ),
        };
        let mut k: usize = 0;
        while k < keys.len()
            invariant
                k <= keys@.len(),
                key == message_key(messages@[m as int]),
                *event == message_event(messages@[m as int]),
                r@ == before + deliveries_of(keys@.take(k as int), messages@[m as int]),
            decreases keys@.len() - k,
        {
            proof {
                assert(keys@.take(k + 1).drop_last() =~= keys@.take(k as int));
                assert(keys@.take(k + 1).last() == keys@[k as int]);
            }
            if keys[k].0 == key.0 && keys[k].1 == key.1 {
                r.push((k, event.duplicate()));
            }
            k = k + 1;
            assert(r@ =~= before + deliveries_of(keys@.take(k as int), messages@[m as int]));
        }
        proof {
            assert(keys@.take(k as int) =~= keys@);
            assert(messages@.take(m + 1).drop_last() =~= messages@.take(m as int));
            assert(messages@.take(m + 1).last() == messages@[m as int]);
        }
        m = m + 1;
    }
    assert(messages@.take(m as int) =~= messages@);
    r
}

impl PublishTournamentEvents for TableEventBroadcast {
    fn publish_tournament_events(&mut self, messages: Vec<TournamentMessage>) {
        self.publish(messages);
    }
}

impl RegisterTableEventReceivers for TableEventBroadcast {
    fn register_table_event_receivers(&mut self, tournament_id: u128, table_count: usize) {
        TableEventBroadcast::register_table_event_receivers(self, tournament_id, table_count);
    }
}

impl SubscribeTableEvents for TableEventBroadcast {
    fn subscribe_table_events(&self, tournament_id: u128, table_number: usize) -> Option<Receiver<TableEvent>> {
        TableEventBroadcast::subscribe_table_events(self, tournament_id, table_number)
    }
}

/// A message reaches the table it is addressed to and no other: among the
/// occurrences routed by `publish`, a single message for `message_key(m)`
/// gives exactly its occurrence to that table, and nothing to any other
/// table of the same or of another tournament.
pub proof fn lemma_message_reaches_its_table_only(m: TournamentMessage, key: TableKey)
    ensures
        events_for(seq![m], message_key(m)) == seq![message_event(m)],
        key != message_key(m) ==> events_for(seq![m], key) == Seq::<TableEvent>::empty(),
{
    reveal_with_fuel(events_for, 2);
    assert(seq![m].drop_last() =~= Seq::<TournamentMessage>::empty());
    assert(seq![m].last() == m);
    assert(Seq::<TableEvent>::empty().push(message_event(m)) =~= seq![message_event(m)]);
}

} // verus!
