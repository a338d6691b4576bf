//! Events of the accessory server and the listeners that hear of them.
use std::sync::atomic::{AtomicBool, Ordering};
use std::sync::Arc;
use vstd::prelude::*;

verus! {

/// Something that happened on the accessory server.
#[derive(Debug)]
pub enum Event {
    ControllerPaired { id: uuid::Uuid },
    ControllerUnpaired { id: uuid::Uuid },
    CharacteristicValueChanged { aid: u64, iid: u64, value: serde_json::Value },
}

/// How long a listener is wanted.
pub enum Lifetime {
    /// As long as the server lives.
    Server,
    /// Until the flag is cleared, which happens when the listener's connection ends.
    Connection(Arc<AtomicBool>),
}

impl Lifetime {
    /// What a look at the lifetime can find: that of the server always lasts, and of that of a
    /// connection it is found what a load of its flag gives.
    pub open spec fn can_read_as(&self, alive: bool) -> bool {
        match self {
            Lifetime::Server => alive,
            Lifetime::Connection(flag) => call_ensures(
                AtomicBool::load,
                (&**flag, Ordering::Relaxed),
                alive,
            ),
        }
    }
}

/// A listener and how long it is wanted.
pub struct Registered<L> {
    pub lifetime: Lifetime,
    pub listener: L,
}

/// Tells listeners of events.
pub struct EventEmitter<L> {
    pub listeners: Vec<Registered<L>>,
}

/// A reading of the flags that the registered listeners can give: a listener of the server is
/// always alive, one of a connection is whatever a load of its flag gave.
pub open spec fn is_reading<L>(registered: Seq<Registered<L>>, alive: Seq<bool>) -> bool {
    &&& alive.len() == registered.len()
    &&& forall|i: int|
        0 <= i < registered.len() ==> (#[trigger] registered[i]).lifetime.can_read_as(alive[i])
}

/// The items that were read as alive, in their order.
pub open spec fn living<T>(items: Seq<T>, alive: Seq<bool>) -> Seq<T>
    recommends
        items.len() == alive.len(),
    decreases items.len(),
{
    if items.len() == 0 {
        Seq::empty()
    } else if alive.last() {
        living(items.drop_last(), alive.drop_last()).push(items.last())
    } else {
        living(items.drop_last(), alive.drop_last())
    }
}

/// A call that is due: the listener is to be told of the event.
pub struct Notice<'a, L> {
    pub listener: &'a L,
    pub event: &'a Event,
}

/// The telling of an event, which goes from listener to listener.
pub struct Emission<'a, L> {
    pub emitter: &'a EventEmitter<L>,
    pub event: &'a Event,
    /// How many of the listeners have had their turn.
    pub position: usize,
    /// What the flags of these were read as.
    pub read: Ghost<Seq<bool>>,
}

/// A call of every listener, in their order, about the event.
pub open spec fn notices<'a, L>(registered: Seq<Registered<L>>, event: &'a Event) -> Seq<
    Notice<'a, L>,
> {
    registered.map_values(|one: Registered<L>| Notice { listener: &one.listener, event })
}

/// The list of listeners after one registration: a listener of the server comes behind all that
/// there are, one of a connection behind those that were read as alive.
pub open spec fn registers<L>(before: Seq<Registered<L>>, after: Seq<Registered<L>>) -> bool {
    ||| exists|listener: L|
        after == before.push(#[trigger] of_server(listener))
    ||| exists|read: Seq<bool>, last: Registered<L>|
        #[trigger] is_reading(before, read) && last.lifetime is Connection && after
            == #[trigger] living(before, read).push(last)
}

/// A listener of the server.
pub open spec fn of_server<L>(listener: L) -> Registered<L> {
    Registered { lifetime: Lifetime::Server, listener }
}

/// What is read as alive is kept, and nothing else is.
pub proof fn law_living_are_those_read_alive<T>(items: Seq<T>, alive: Seq<bool>, item: T)
    requires
        items.len() == alive.len(),
    ensures
        living(items, alive).contains(item) <==> exists|i: int|
            0 <= i < items.len() && alive[i] && #[trigger] items[i] == item,
        living(items, alive).len() <= items.len(),
    decreases items.len(),
{
    if items.len() > 0 {
        let front = items.drop_last();
        let front_alive = alive.drop_last();
        law_living_are_those_read_alive(front, front_alive, item);
        let kept = living(front, front_alive);
        if living(items, alive).contains(item) {
            let k = choose|k: int| 0 <= k < living(items, alive).len() && living(items, alive)[k]
                == item;
            if alive.last() && k == kept.len() {
                assert(items[items.len() - 1] == item);
            } else {
                assert(kept[k] == item);
                let i = choose|i: int|
                    0 <= i < front.len() && front_alive[i] && #[trigger] front[i] == item;
                assert(alive[i] && items[i] == item);
            }
        }
        if exists|i: int| 0 <= i < items.len() && alive[i] && #[trigger] items[i] == item {
            let i = choose|i: int| 0 <= i < items.len() && alive[i] && #[trigger] items[i] == item;
            if i < front.len() {
                assert(front_alive[i] && front[i] == item);
                let k = choose|k: int| 0 <= k < kept.len() && kept[k] == item;
                assert(living(items, alive)[k] == item);
            } else {
                assert(living(items, alive)[kept.len() as int] == item);
            }
        }
    }
}

/// Forgetting leaves exactly as many listeners as were read as alive.
pub proof fn law_list_is_the_size_of_the_live_set<T>(items: Seq<T>, alive: Seq<bool>)
    requires
        items.len() == alive.len(),
    ensures
        living(items, alive).len() == alive.filter(|flag: bool| flag).len(),
    decreases items.len(),
{
    reveal(Seq::filter);
    if items.len() > 0 {
        law_list_is_the_size_of_the_live_set(items.drop_last(), alive.drop_last());
    }
}

/// A listener that was read as alive stands behind exactly those before it that were: the order of
/// registration is kept.
pub proof fn law_order_of_registration_is_kept<T>(items: Seq<T>, alive: Seq<bool>, split: int)
    requires
        items.len() == alive.len(),
        0 <= split <= items.len(),
    ensures
        living(items, alive) == living(items.take(split), alive.take(split)) + living(
            items.skip(split),
            alive.skip(split),
        ),
    decreases items.len(),
{
    if split == items.len() {
        assert(items.take(split) =~= items);
        assert(alive.take(split) =~= alive);
        assert(living(items, alive) =~= living(items, alive) + living(
            items.skip(split),
            alive.skip(split),
        ));
    } else {
        law_order_of_registration_is_kept(items.drop_last(), alive.drop_last(), split);
        assert(items.drop_last().take(split) =~= items.take(split));
        assert(alive.drop_last().take(split) =~= alive.take(split));
        assert(items.drop_last().skip(split) =~= items.skip(split).drop_last());
        assert(alive.drop_last().skip(split) =~= alive.skip(split).drop_last());
        assert(living(items, alive) =~= living(items.take(split), alive.take(split)) + living(
            items.skip(split),
            alive.skip(split),
        ));
    }
}

/// Every listener has one place of its own: it is there once if it was read as alive and not at all
/// if it was not, between what is there of those before and of those behind it. So an emit that
/// reads it as dead skips it, and one that reads it as alive calls it once, whatever was read of it
/// before.
pub proof fn law_each_live_listener_once<T>(items: Seq<T>, alive: Seq<bool>, index: int)
    requires
        items.len() == alive.len(),
        0 <= index < items.len(),
    ensures
        living(items, alive) == living(items.take(index), alive.take(index)) + (if alive[index] {
            seq![items[index]]
        } else {
            Seq::empty()
        }) + living(items.skip(index + 1), alive.skip(index + 1)),
{
    law_order_of_registration_is_kept(items, alive, index + 1);
    let front = items.take(index + 1);
    let front_alive = alive.take(index + 1);
    assert(front.drop_last() =~= items.take(index));
    assert(front_alive.drop_last() =~= alive.take(index));
    assert(living(front, front_alive) =~= living(items.take(index), alive.take(index)) + (
    if alive[index] {
        seq![items[index]]
    } else {
        Seq::empty()
    }));
}

/// Between registrations nothing is forgotten: a listener that one emit reads as dead and skips is
/// called once by a later emit that reads it as alive. The list is the same for both, since an emit
/// leaves it as it is.
pub proof fn law_skipped_listener_is_called_again<L>(
    registered: Seq<Registered<L>>,
    first: Seq<bool>,
    second: Seq<bool>,
    index: int,
    event: &Event,
)
    requires
        is_reading(registered, first),
        is_reading(registered, second),
        0 <= index < registered.len(),
        !first[index],
        second[index],
    ensures
        notices(living(registered, first), event) == notices(
            living(registered.take(index), first.take(index)),
            event,
        ) + notices(living(registered.skip(index + 1), first.skip(index + 1)), event),
        notices(living(registered, second), event) == notices(
            living(registered.take(index), second.take(index)),
            event,
        ) + seq![Notice { listener: &registered[index].listener, event }] + notices(
            living(registered.skip(index + 1), second.skip(index + 1)),
            event,
        ),
{
    law_each_live_listener_once(registered, first, index);
    law_each_live_listener_once(registered, second, index);
    assert(notices(living(registered, first), event) =~= notices(
        living(registered.take(index), first.take(index)),
        event,
    ) + notices(living(registered.skip(index + 1), first.skip(index + 1)), event));
    assert(notices(living(registered, second), event) =~= notices(
        living(registered.take(index), second.take(index)),
        event,
    ) + seq![Notice { listener: &registered[index].listener, event }] + notices(
        living(registered.skip(index + 1), second.skip(index + 1)),
        event,
    ));
}

/// A listener of the server lives as long as the emitter: after any number of registrations it is
/// still registered, and never further back than it was, and every emit calls it once, whatever
/// the flags of the others are read as.
pub proof fn law_server_listener_stays<L>(
    history: Seq<Seq<Registered<L>>>,
    index: int,
    read: Seq<bool>,
    event: &Event,
)
    requires
        history.len() > 0,
        forall|k: int|
            0 < k < history.len() ==> registers(history[k - 1], #[trigger] history[k]),
        0 <= index < history[0].len(),
        history[0][index].lifetime is Server,
        is_reading(history.last(), read),
    ensures
        exists|place: int|
            {
                let now = history.last();
                &&& 0 <= place <= index
                &&& place < now.len()
                &&& #[trigger] history.last()[place] == history[0][index]
                &&& notices(living(now, read), event) == notices(
                    living(now.take(place), read.take(place)),
                    event,
                ) + seq![Notice { listener: &history[0][index].listener, event }] + notices(
                    living(now.skip(place + 1), read.skip(place + 1)),
                    event,
                )
            },
{
    let now = history.last();
    let place = lemma_server_listener_place(history, index);
    law_each_live_listener_once(now, read, place);
    assert(now[place].lifetime.can_read_as(read[place]));
    assert(notices(living(now, read), event) =~= notices(
        living(now.take(place), read.take(place)),
        event,
    ) + seq![Notice { listener: &history[0][index].listener, event }] + notices(
        living(now.skip(place + 1), read.skip(place + 1)),
        event,
    ));
}

/// An emit that reads a listener as dead does not call it. One that was read as dead when a listener
/// of a connection was registered is gone from the list then, which holds the living and the new
/// one, and stays away from it through all registrations to come, unless it is registered anew: no
/// emit calls it any more.
pub proof fn law_ended_listener_is_forgotten<L>(
    before: Seq<Registered<L>>,
    read: Seq<bool>,
    index: int,
    last: Registered<L>,
    history: Seq<Seq<Registered<L>>>,
    later: Seq<bool>,
)
    requires
        is_reading(before, read),
        0 <= index < before.len(),
        !read[index],
        forall|i: int|
            0 <= i < before.len() && i != index ==> #[trigger] before[i] != before[index],
        history.len() > 0,
        history[0] == living(before, read).push(last),
        forall|k: int|
            0 < k < history.len() ==> registers(history[k - 1], #[trigger] history[k]),
        forall|k: int|
            0 <= k < history.len() ==> (#[trigger] history[k]).last() != before[index],
        is_reading(history.last(), later),
    ensures
        !living(before, read).contains(before[index]),
        !history[0].contains(before[index]),
        history[0].len() == read.filter(|flag: bool| flag).len() + 1,
        !history.last().contains(before[index]),
        !living(history.last(), later).contains(before[index]),
{
    let ended = before[index];
    let kept = living(before, read);
    assert(!kept.contains(ended)) by {
        law_living_are_those_read_alive(before, read, ended);
    }
    assert forall|i: int| 0 <= i < history[0].len() implies history[0][i] != ended by {
        if i < kept.len() {
            assert(kept.contains(kept[i]));
        } else {
            assert(history[0].last() != ended);
        }
    }
    law_list_is_the_size_of_the_live_set(before, read);
    lemma_stays_away(history, ended);
    law_living_are_those_read_alive(history.last(), later, ended);
    if living(history.last(), later).contains(ended) {
        let i = choose|i: int|
            0 <= i < history.last().len() && later[i] && #[trigger] history.last()[i] == ended;
        assert(history.last().contains(history.last()[i]));
    }
}

proof fn lemma_stays_away<L>(history: Seq<Seq<Registered<L>>>, absent: Registered<L>)
    requires
        history.len() > 0,
        !history[0].contains(absent),
        forall|k: int|
            0 < k < history.len() ==> registers(history[k - 1], #[trigger] history[k]),
        forall|k: int| 0 <= k < history.len() ==> (#[trigger] history[k]).last() != absent,
    ensures
        !history.last().contains(absent),
    decreases history.len(),
{
    if history.len() > 1 {
        let earlier = history.drop_last();
        lemma_stays_away(earlier, absent);
        let before = earlier.last();
        let after = history.last();
        assert(registers(before, history[history.len() - 1]));
        assert(history[history.len() - 1].last() != absent);
        if exists|listener: L| after == before.push(#[trigger] of_server(listener)) {
            assert(after.drop_last() =~= before);
        } else {
            let (read, last) = choose|read: Seq<bool>, last: Registered<L>|
                #[trigger] is_reading(before, read) && last.lifetime is Connection && after
                    == #[trigger] living(before, read).push(last);
            assert(after.drop_last() =~= living(before, read));
            law_living_are_those_read_alive(before, read, absent);
        }
        if after.contains(absent) {
            let i = choose|i: int| 0 <= i < after.len() && after[i] == absent;
            assert(after.drop_last()[i] == absent);
            assert(after.drop_last().contains(absent));
        }
    }
}

proof fn lemma_server_listener_place<L>(history: Seq<Seq<Registered<L>>>, index: int) -> (place:
    int)
    requires
        history.len() > 0,
        forall|k: int|
            0 < k < history.len() ==> registers(history[k - 1], #[trigger] history[k]),
        0 <= index < history[0].len(),
        history[0][index].lifetime is Server,
    ensures
        0 <= place <= index,
        place < history.last().len(),
        history.last()[place] == history[0][index],
    decreases history.len(),
{
    if history.len() == 1 {
        index
    } else {
        let earlier = history.drop_last();
        let place = lemma_server_listener_place(earlier, index);
        let before = earlier.last();
        let after = history.last();
        assert(registers(before, history[history.len() - 1]));
        if exists|listener: L| after == before.push(#[trigger] of_server(listener)) {
            place
        } else {
            let (read, last) = choose|read: Seq<bool>, last: Registered<L>|
                #[trigger] is_reading(before, read) && last.lifetime is Connection && after
                    == #[trigger] living(before, read).push(last);
            law_each_live_listener_once(before, read, place);
            assert(before[place].lifetime.can_read_as(read[place]));
            law_living_are_those_read_alive(before.take(place), read.take(place), last);
            living(before.take(place), read.take(place)).len() as int
        }
    }
}

impl<L> Registered<L> {
    /// Whether the listener is still wanted.
    pub fn is_alive(&self) -> (alive: bool)
        ensures
            self.lifetime.can_read_as(alive),
    {
        match &self.lifetime {
            Lifetime::Server => true,
            Lifetime::Connection(flag) => flag.load(Ordering::Relaxed),
        }
    }

    /// The call that tells the listener of the event, if it was read as alive.
    pub fn notify<'a>(&'a self, alive: bool, event: &'a Event) -> (call: Option<Notice<'a, L>>)
        ensures
            call == (if alive {
                Some(Notice { listener: &self.listener, event })
            } else {
                None
            }),
    {
        if alive {
            Some(Notice { listener: &self.listener, event })
        } else {
            None
        }
    }
}

impl<L> Default for EventEmitter<L> {
    fn default() -> (emitter: EventEmitter<L>)
        ensures
            emitter.listeners@.len() == 0,
    {
        EventEmitter::new()
    }
}

impl<L> EventEmitter<L> {
    /// An emitter without listeners.
    pub fn new() -> (emitter: EventEmitter<L>)
        ensures
            emitter.listeners@.len() == 0,
    {
        EventEmitter { listeners: Vec::new() }
    }

    /// Registers a listener that lives as long as the server does.
    pub fn add_listener(&mut self, listener: L)
        ensures
            final(self).listeners@ == old(self).listeners@.push(
                (Registered { lifetime: Lifetime::Server, listener }),
            ),
            registers(old(self).listeners@, final(self).listeners@),
    {
        self.listeners.push(Registered { lifetime: Lifetime::Server, listener });
        assert(self.listeners@ == old(self).listeners@.push(of_server(listener)));
    }

    /// Registers a listener that belongs to one connection, and forgets those whose connections
    /// have ended.
    pub fn add_scoped_listener(&mut self, alive: Arc<AtomicBool>, listener: L)
        ensures
            exists|read: Seq<bool>|
                {
                    &&& #[trigger] is_reading(old(self).listeners@, read)
                    &&& final(self).listeners@ == living(old(self).listeners@, read).push(
                        (Registered { lifetime: Lifetime::Connection(alive), listener }),
                    )
                },
            registers(old(self).listeners@, final(self).listeners@),
    {
        self.forget_ended();
        self.listeners.push(Registered { lifetime: Lifetime::Connection(alive), listener });
    }

    /// Forgets the listeners that are no longer wanted and keeps the others in their order. Each
    /// flag is read when its listener's turn comes.
    pub fn forget_ended(&mut self)
        ensures
            exists|read: Seq<bool>|
                {
                    &&& #[trigger] is_reading(old(self).listeners@, read)
                    &&& final(self).listeners@ == living(old(self).listeners@, read)
                },
    {
        let ghost all = self.listeners@;
        let ghost mut read: Seq<bool> = Seq::empty();
        let ghost mut turn: int = 0;
        let mut kept: usize = 0;
        while kept < self.listeners.len()
            invariant
                0 <= turn <= all.len(),
                is_reading(all.take(turn), read),
                kept == living(all.take(turn), read).len(),
                self.listeners@ =~= living(all.take(turn), read) + all.skip(turn),
            decreases all.len() - turn,
        {
            let ghost read_before = read;
            let alive: bool = self.listeners[kept].is_alive();
            assert(self.listeners@[kept as int] == all[turn]);
            if alive {
                kept = kept + 1;
            } else {
                self.listeners.remove(kept);
            }
            proof {
                turn = turn + 1;
                read = read.push(alive);
                assert(all.take(turn).drop_last() =~= all.take(turn - 1));
                assert(read.drop_last() =~= read_before);
            }
        }
        assert(all.take(turn) =~= all);
    }

    /// Starts to tell of the event. No listener is forgotten.
    pub fn emit<'a>(&'a self, event: &'a Event) -> (emission: Emission<'a, L>)
        ensures
            emission.emitter == self,
            emission.event == event,
            emission.position == 0,
            emission.valid(),
            emission.told().len() == 0,
    {
        Emission { emitter: self, event, position: 0, read: Ghost(Seq::empty()) }
    }
}

impl<'a, L> Emission<'a, L> {
    /// What was read so far is a reading of the listeners so far.
    pub open spec fn valid(&self) -> bool {
        &&& self.position <= self.emitter.listeners@.len()
        &&& is_reading(self.emitter.listeners@.take(self.position as int), self.read@)
    }

    /// The calls that were handed out so far: one of every listener so far that was read as alive
    /// and of no other, in the order of registration.
    pub open spec fn told(&self) -> Seq<Notice<'a, L>> {
        notices(
            living(self.emitter.listeners@.take(self.position as int), self.read@),
            self.event,
        )
    }

    /// The next call to make: of the first listener, from where the emission stands, that is still
    /// wanted. No flag behind that listener's is read before it is called. With `None` the flags
    /// of all listeners have been read, and every one that was read as alive has been called.
    pub fn next(&mut self) -> (call: Option<Notice<'a, L>>)
        requires
            old(self).valid(),
        ensures
            final(self).valid(),
            final(self).emitter == old(self).emitter,
            final(self).event == old(self).event,
            final(self).position >= old(self).position,
            final(self).read@.take(old(self).position as int) == old(self).read@,
            forall|i: int|
                old(self).position <= i < final(self).position ==> #[trigger] final(self).read@[i]
                    == (call is Some && i == final(self).position - 1),
            call matches Some(notice) ==> {
                &&& final(self).position > old(self).position
                &&& notice == (Notice {
                    listener: &old(self).emitter.listeners@[final(self).position - 1].listener,
                    event: old(self).event,
                })
                &&& final(self).told() == old(self).told().push(notice)
            },
            call is None ==> {
                &&& final(self).told() == old(self).told()
                &&& is_reading(old(self).emitter.listeners@, final(self).read@)
                &&& final(self).told() == notices(
                    living(old(self).emitter.listeners@, final(self).read@),
                    old(self).event,
                )
            },
    {
        let emitter: &'a EventEmitter<L> = self.emitter;
        let event: &'a Event = self.event;
        let ghost all = emitter.listeners@;
        let ghost start = self.position;
        let ghost told = self.told();
        assert(self.read@.take(start as int) =~= self.read@);
        while self.position < emitter.listeners.len()
            invariant
                self.valid(),
                self.emitter == emitter,
                self.event == event,
                all == emitter.listeners@,
                start == old(self).position,
                told == old(self).told(),
                old(self).valid(),
                old(self).emitter == emitter,
                old(self).event == event,
                start <= self.position,
                self.read@.take(start as int) == old(self).read@,
                forall|i: int| start <= i < self.position ==> !#[trigger] self.read@[i],
                self.told() == told,
            decreases all.len() - self.position,
        {
            let ghost before = *self;
            let registered: &'a Registered<L> = &emitter.listeners[self.position];
            let alive: bool = registered.is_alive();
            self.read = Ghost(self.read@.push(alive));
            self.position = self.position + 1;
            proof {
                assert(all.take(self.position as int).drop_last() =~= all.take(
                    before.position as int,
                ));
                assert(self.read@.drop_last() =~= before.read@);
                assert(self.read@.take(start as int) =~= before.read@.take(start as int));
            }
            let call: Option<Notice<'a, L>> = registered.notify(alive, event);
            if call.is_some() {
                assert(self.told() =~= told.push(call->0));
                return call;
            }
        }
        assert(all.take(self.position as int) =~= all);
        None
    }
}

/// What was read of a listener is what its lifetime says: one of the server is alive, and of one
/// of a connection it is what a load of its flag gave.
pub proof fn law_reading_asks_each_flag<L>(
    registered: Seq<Registered<L>>,
    alive: Seq<bool>,
    index: int,
)
    requires
        is_reading(registered, alive),
        0 <= index < registered.len(),
    ensures
        alive.len() == registered.len(),
        registered[index].lifetime is Server ==> alive[index],
        registered[index].lifetime matches Lifetime::Connection(flag) ==> call_ensures(
            AtomicBool::load,
            (&*flag, Ordering::Relaxed),
            alive[index],
        ),
{
    assert(registered[index].lifetime.can_read_as(alive[index]));
}

/// Whether a listener is alive is what its lifetime says: one of the server is, and one of a
/// connection is as a load of its flag says.
pub proof fn law_alive_is_what_the_flag_says<L>(registered: &Registered<L>, alive: bool)
    requires
        call_ensures(Registered::<L>::is_alive, (registered,), alive),
    ensures
        registered.lifetime is Server ==> alive,
        registered.lifetime matches Lifetime::Connection(flag) ==> call_ensures(
            AtomicBool::load,
            (&*flag, Ordering::Relaxed),
            alive,
        ),
{
}

/// An emission has asked the flag of every listener that has had its turn.
pub proof fn law_emission_asks_each_flag<'a, L>(emission: Emission<'a, L>, index: int)
    requires
        emission.valid(),
        0 <= index < emission.position,
    ensures
        emission.position <= emission.emitter.listeners@.len(),
        emission.read@.len() == emission.position,
        emission.emitter.listeners@[index].lifetime is Server ==> emission.read@[index],
        emission.emitter.listeners@[index].lifetime matches Lifetime::Connection(flag)
            ==> call_ensures(
            AtomicBool::load,
            (&*flag, Ordering::Relaxed),
            emission.read@[index],
        ),
{
    lemma_turn_is_read(emission, index);
}

proof fn lemma_turn_is_read<'a, L>(emission: Emission<'a, L>, index: int)
    requires
        emission.valid(),
        0 <= index < emission.position,
    ensures
        emission.read@.len() == emission.position,
        emission.emitter.listeners@[index].lifetime.can_read_as(emission.read@[index]),
{
    let past = emission.emitter.listeners@.take(emission.position as int);
    assert(past[index].lifetime.can_read_as(emission.read@[index]));
}

/// Notices are to the listeners in their order, one to each, and all of them about the event.
pub proof fn law_notices_are_to_the_listeners<'a, L>(
    registered: Seq<Registered<L>>,
    event: &'a Event,
)
    ensures
        notices(registered, event).len() == registered.len(),
        forall|i: int|
            0 <= i < registered.len() ==> {
                &&& *(#[trigger] notices(registered, event)[i]).listener == registered[i].listener
                &&& notices(registered, event)[i].event == event
            },
{
}

/// A listener that is alive is told of the event itself, and one that is not is told nothing.
pub proof fn law_only_the_living_are_told<'a, L>(
    registered: &'a Registered<L>,
    alive: bool,
    event: &'a Event,
    call: Option<Notice<'a, L>>,
)
    requires
        call_ensures(Registered::<L>::notify, (registered, alive, event), call),
    ensures
        call is Some <==> alive,
        call matches Some(notice) ==> *notice.listener == registered.listener && notice.event
            == event,
{
}

/// A registration adds one listener, behind all others, and takes none away that is a listener of
/// the server or was not read as dead.
pub proof fn law_registration_adds_one_at_the_end<L>(
    before: Seq<Registered<L>>,
    after: Seq<Registered<L>>,
)
    requires
        registers(before, after),
    ensures
        after.len() > 0,
        after.len() <= before.len() + 1,
        after.last().lifetime is Server ==> after.drop_last() == before,
        after.last().lifetime is Connection ==> exists|read: Seq<bool>| #[trigger]
            is_reading(before, read) && after.drop_last() == living(before, read),
{
    if exists|listener: L| after == before.push(#[trigger] of_server(listener)) {
        assert(after.drop_last() =~= before);
    } else {
        let (read, last) = choose|read: Seq<bool>, last: Registered<L>|
            #[trigger] is_reading(before, read) && last.lifetime is Connection && after
                == #[trigger] living(before, read).push(last);
        assert(after.drop_last() =~= living(before, read));
        law_living_are_those_read_alive(before, read, last);
    }
}

} // verus!
