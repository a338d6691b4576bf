//! The characteristics that a controller has subscribed to on one connection, and the messages it
//! gets when their values change.
use crate::event::Event;
use vstd::prelude::*;

verus! {

/// The message that a characteristic has a new value.
#[derive(Debug)]
pub struct EventObject {
    pub aid: u64,
    pub iid: u64,
    pub value: serde_json::Value,
}

/// The characteristic that the event is about, if it is about one.
pub open spec fn changed(event: &Event) -> Option<(u64, u64)> {
    match event {
        Event::CharacteristicValueChanged { aid, iid, .. } => Some((*aid, *iid)),
        _ => None,
    }
}

/// The message for subscribers to the characteristic that the event is about.
pub open spec fn message(event: &Event) -> EventObject
    recommends
        changed(event) is Some,
{
    EventObject {
        aid: event->CharacteristicValueChanged_aid,
        iid: event->CharacteristicValueChanged_iid,
        value: event->CharacteristicValueChanged_value,
    }
}

/// The positions rise from one to the next.
pub open spec fn ascending(positions: Seq<usize>) -> bool {
    forall|j: int, k: int| 0 <= j < k < positions.len() ==> positions[j] < positions[k]
}

/// `positions` are all the positions of subscriptions to the characteristic that the event is
/// about, in ascending order, and no others.
pub open spec fn are_due(
    subscriptions: Seq<(u64, u64)>,
    event: &Event,
    positions: Seq<usize>,
) -> bool {
    &&& ascending(positions)
    &&& forall|k: int|
        0 <= k < positions.len() ==> (#[trigger] positions[k]) < subscriptions.len() && changed(
            event,
        ) == Some(subscriptions[positions[k] as int])
    &&& forall|i: int|
        0 <= i < subscriptions.len() && changed(event) == Some(#[trigger] subscriptions[i])
            ==> positions.contains(i as usize)
}

/// The positions that messages are due for.
pub open spec fn positions_of(due: Seq<(usize, EventObject)>) -> Seq<usize> {
    due.map_values(|one: (usize, EventObject)| one.0)
}

/// The messages to send when the event happens, each with the position of its subscription: one
/// for every subscription to the characteristic that the event is about, and no other.
pub fn due_messages(subscriptions: &Vec<(u64, u64)>, event: &Event) -> (due: Vec<
    (usize, EventObject),
>)
    ensures
        are_due(subscriptions@, event, positions_of(due@)),
        forall|k: int| 0 <= k < due@.len() ==> (#[trigger] due@[k]).1 == message(event),
        event matches Event::CharacteristicValueChanged { aid, iid, value } ==> forall|k: int|
            0 <= k < due@.len() ==> {
                &&& (#[trigger] due@[k]).1.aid == aid
                &&& due@[k].1.iid == iid
                &&& due@[k].1.value == value
            },
{
    let mut due: Vec<(usize, EventObject)> = Vec::new();
    if let Event::CharacteristicValueChanged { aid, iid, value } = event {
        let mut i: usize = 0;
        while i < subscriptions.len()
            invariant
                i <= subscriptions@.len(),
                changed(event) == Some((*aid, *iid)),
                message(event) == (EventObject { aid: *aid, iid: *iid, value: *value }),
                are_due(subscriptions@.take(i as int), event, positions_of(due@)),
                forall|k: int| 0 <= k < due@.len() ==> (#[trigger] due@[k]).1 == message(event),
            decreases subscriptions@.len() - i,
        {
            let ghost before = positions_of(due@);
            if subscriptions[i].0 == *aid && subscriptions[i].1 == *iid {
                due.push((i, EventObject { aid: *aid, iid: *iid, value: value.clone() }));
                assert(positions_of(due@) =~= before.push(i));
                assert(positions_of(due@)[before.len() as int] == i);
            }
            i = i + 1;
            assert forall|j: int|
                0 <= j < i && changed(event) == Some(
                    #[trigger] subscriptions@.take(i as int)[j],
                ) implies positions_of(due@).contains(j as usize) by {
                if j < i - 1 {
                    assert(subscriptions@.take(i - 1)[j] == subscriptions@[j]);
                    let k = choose|k: int| 0 <= k < before.len() && before[k] == j as usize;
                    assert(positions_of(due@)[k] == j as usize);
                }
            }
        }
        assert(subscriptions@.take(i as int) =~= subscriptions@);
    }
    due
}

/// The positions whose messages were not sent, in their order.
pub open spec fn unsent(due: Seq<usize>, sent: Seq<bool>) -> Seq<usize>
    recommends
        due.len() == sent.len(),
    decreases due.len(),
{
    if due.len() == 0 {
        Seq::empty()
    } else if sent.last() {
        unsent(due.drop_last(), sent.drop_last())
    } else {
        unsent(due.drop_last(), sent.drop_last()).push(due.last())
    }
}

/// The positions of the subscriptions that are lost, because their messages could not be sent.
pub fn lost_positions(due: &Vec<usize>, sent: &Vec<bool>) -> (lost: Vec<usize>)
    requires
        due@.len() == sent@.len(),
    ensures
        lost@ == unsent(due@, sent@),
{
    let mut lost: Vec<usize> = Vec::new();
    let mut k: usize = 0;
    while k < due.len()
        invariant
            k <= due@.len() == sent@.len(),
            lost@ == unsent(due@.take(k as int), sent@.take(k as int)),
        decreases due@.len() - k,
    {
        if !sent[k] {
            lost.push(due[k]);
        }
        k = k + 1;
        assert(due@.take(k as int).drop_last() =~= due@.take(k - 1));
        assert(sent@.take(k as int).drop_last() =~= sent@.take(k - 1));
    }
    assert(due@.take(k as int) =~= due@);
    assert(sent@.take(k as int) =~= sent@);
    lost
}

/// What is left of the subscriptions when the given positions are removed one after the other,
/// each counted in the list that the removals before it have left.
pub open spec fn without_each(subscriptions: Seq<(u64, u64)>, positions: Seq<usize>) -> Seq<
    (u64, u64),
>
    decreases positions.len(),
{
    if positions.len() == 0 {
        subscriptions
    } else {
        without_each(subscriptions, positions.drop_last()).remove(positions.last() as int)
    }
}

/// Each position is within the list that the removals before it leave of one of length `len`.
pub open spec fn removable(len: nat, positions: Seq<usize>) -> bool {
    forall|k: int| 0 <= k < positions.len() ==> (#[trigger] positions[k]) + k < len
}

/// Whether the positions can be removed one after the other.
pub fn can_remove(subscriptions: &Vec<(u64, u64)>, positions: &Vec<usize>) -> (r: bool)
    ensures
        r == removable(subscriptions@.len(), positions@),
{
    let mut k: usize = 0;
    while k < positions.len()
        invariant
            k <= positions@.len(),
            forall|j: int| 0 <= j < k ==> (#[trigger] positions@[j]) + j < subscriptions@.len(),
        decreases positions@.len() - k,
    {
        if positions[k] >= subscriptions.len() || k >= subscriptions.len() - positions[k] {
            assert(!(positions@[k as int] + k < subscriptions@.len()));
            return false;
        }
        k = k + 1;
    }
    true
}

/// Removes the positions one after the other.
pub fn remove_each(subscriptions: &mut Vec<(u64, u64)>, positions: &Vec<usize>)
    requires
        removable(old(subscriptions)@.len(), positions@),
    ensures
        final(subscriptions)@ == without_each(old(subscriptions)@, positions@),
{
    let ghost all = subscriptions@;
    let mut k: usize = 0;
    assert(positions@.take(0) =~= Seq::empty());
    while k < positions.len()
        invariant
            k <= positions@.len(),
            removable(all.len(), positions@),
            subscriptions@ == without_each(all, positions@.take(k as int)),
            subscriptions@.len() == all.len() - k,
        decreases positions@.len() - k,
    {
        assert(positions@[k as int] + k < all.len());
        subscriptions.remove(positions[k]);
        k = k + 1;
        assert(positions@.take(k as int).drop_last() =~= positions@.take(k - 1));
    }
    assert(positions@.take(k as int) =~= positions@);
}

/// The messages that a connection is to be sent: one for every subscription to the characteristic
/// that the event is about, and no others.
pub open spec fn are_messages(
    subscriptions: Seq<(u64, u64)>,
    event: &Event,
    messages: Seq<EventObject>,
) -> bool {
    &&& messages.len() == subscriptions.filter(
        |one: (u64, u64)| changed(event) == Some(one),
    ).len()
    &&& forall|k: int| 0 <= k < messages.len() ==> (#[trigger] messages[k]) == message(event)
}

/// Hands over, once, a message for every subscription to the characteristic that the event is
/// about, in their order, is told which of them were sent, and removes the positions of those that
/// were not. Where these cannot be removed one after the other, the list stays as it is and the
/// answer is `false`.
pub fn deliver<F>(subscriptions: &mut Vec<(u64, u64)>, event: &Event, send: F) -> (removed:
    bool) where F: FnOnce(Vec<EventObject>) -> Vec<bool>
    requires
        forall|messages: Vec<EventObject>|
            are_messages(old(subscriptions)@, event, messages@) ==> #[trigger] call_requires(
                send,
                (messages,),
            ),
        forall|messages: Vec<EventObject>, sent: Vec<bool>| #[trigger]
            call_ensures(send, (messages,), sent) ==> sent@.len() == messages@.len(),
    ensures
        exists|due: Seq<usize>, messages: Vec<EventObject>, sent: Vec<bool>|
            {
                let lost = #[trigger] unsent(due, sent@);
                &&& are_due(old(subscriptions)@, event, due)
                &&& are_messages(old(subscriptions)@, event, messages@)
                &&& due.len() == messages@.len() == sent@.len()
                &&& event matches Event::CharacteristicValueChanged { aid, iid, value } ==> forall|
                    k: int,
                |
                    0 <= k < messages@.len() ==> {
                        &&& (#[trigger] messages@[k]).aid == aid
                        &&& messages@[k].iid == iid
                        &&& messages@[k].value == value
                    }
                &&& #[trigger] call_ensures(send, (messages,), sent)
                &&& removed == removable(old(subscriptions)@.len(), lost)
                &&& final(subscriptions)@ == (if removed {
                    without_each(old(subscriptions)@, lost)
                } else {
                    old(subscriptions)@
                })
                &&& (forall|k: int| 0 <= k < sent@.len() ==> sent@[k]) ==> {
                    &&& removed
                    &&& final(subscriptions)@ == old(subscriptions)@
                }
            },
{
    let found: Vec<(usize, EventObject)> = due_messages(subscriptions, event);
    let ghost all = found@;
    let mut due: Vec<usize> = Vec::new();
    let mut messages: Vec<EventObject> = Vec::new();
    for one in of: found
        invariant
            of.seq() == all,
            due@ == positions_of(all.take(of.index() as int)),
            messages@.len() == due@.len(),
            forall|k: int| 0 <= k < all.len() ==> (#[trigger] all[k]).1 == message(event),
            forall|k: int|
                0 <= k < messages@.len() ==> (#[trigger] messages@[k]) == message(event),
    {
        due.push(one.0);
        messages.push(one.1);
        assert(due@ =~= positions_of(all.take(of.index() + 1)));
    }
    proof {
        assert(all.take(all.len() as int) =~= all);
        assert(subscriptions@.len() == subscriptions.len());
        law_one_message_per_subscription(subscriptions@, event, due@);
    }
    let sent: Vec<bool> = send(messages);
    proof {
        lemma_unsent(due@, sent@);
    }
    let lost: Vec<usize> = lost_positions(&due, &sent);
    let removed: bool = can_remove(subscriptions, &lost);
    if removed {
        remove_each(subscriptions, &lost);
    }
    removed
}

/// As many messages about a characteristic are due as there are subscriptions to it; none about one
/// that is not subscribed to, and none of an event that is about no characteristic.
pub proof fn law_one_message_per_subscription(
    subscriptions: Seq<(u64, u64)>,
    event: &Event,
    due: Seq<usize>,
)
    requires
        subscriptions.len() <= usize::MAX,
        are_due(subscriptions, event, due),
    ensures
        due.len() == subscriptions.filter(|one: (u64, u64)| changed(event) == Some(one)).len(),
        changed(event) is None ==> due.len() == 0,
    decreases subscriptions.len(),
{
    reveal(Seq::filter);
    if due.len() > 0 {
        assert(changed(event) == Some(subscriptions[due[0] as int]));
    }
    if subscriptions.len() > 0 {
        let last = (subscriptions.len() - 1) as usize;
        let front = subscriptions.drop_last();
        if changed(event) == Some(subscriptions.last()) {
            assert(subscriptions[last as int] == subscriptions.last());
            let k = choose|k: int| 0 <= k < due.len() && due[k] == last;
            assert(k == due.len() - 1) by {
                if k < due.len() - 1 {
                    assert(due[k] < due[due.len() - 1]);
                }
            }
            let fewer = due.drop_last();
            assert forall|j: int| 0 <= j < fewer.len() implies (#[trigger] fewer[j]) < front.len()
                && changed(event) == Some(front[fewer[j] as int]) by {
                assert(due[j] < due[due.len() - 1]);
            }
            assert forall|i: int|
                0 <= i < front.len() && changed(event) == Some(
                    #[trigger] front[i],
                ) implies fewer.contains(i as usize) by {
                assert(subscriptions[i] == front[i]);
                let j = choose|j: int| 0 <= j < due.len() && due[j] == i as usize;
                assert(fewer[j] == i as usize);
            }
            law_one_message_per_subscription(front, event, fewer);
        } else {
            assert forall|j: int| 0 <= j < due.len() implies (#[trigger] due[j]) < front.len()
                && changed(event) == Some(front[due[j] as int]) by {
                assert(due[j] != last);
            }
            assert forall|i: int|
                0 <= i < front.len() && changed(event) == Some(
                    #[trigger] front[i],
                ) implies due.contains(i as usize) by {
                assert(subscriptions[i] == front[i]);
            }
            law_one_message_per_subscription(front, event, due);
        }
    }
}

/// Each removal strikes a subscription to the characteristic that the event is about. The removals
/// before it have moved the list, so it strikes as many places behind its position as there were.
pub open spec fn strikes_its_own(
    subscriptions: Seq<(u64, u64)>,
    event: &Event,
    positions: Seq<usize>,
) -> bool {
    forall|k: int|
        0 <= k < positions.len() ==> changed(event) == Some(
            subscriptions[(#[trigger] positions[k]) + k],
        )
}

/// Where each removal strikes a subscription to the characteristic, losing those whose messages
/// could not be sent leaves the subscriptions to other characteristics as they are and in their
/// order. As many subscriptions go as messages were not sent; where all were sent, all are left,
/// and where none was, none to the characteristic is.
pub proof fn law_lost_subscriptions_are_forgotten(
    subscriptions: Seq<(u64, u64)>,
    event: &Event,
    due: Seq<usize>,
    sent: Seq<bool>,
)
    requires
        subscriptions.len() <= usize::MAX,
        are_due(subscriptions, event, due),
        due.len() == sent.len(),
        removable(subscriptions.len(), unsent(due, sent)),
        strikes_its_own(subscriptions, event, unsent(due, sent)),
    ensures
        ({
            let lost = unsent(due, sent);
            let left = without_each(subscriptions, lost);
            let own = |one: (u64, u64)| changed(event) == Some(one);
            let other = |one: (u64, u64)| changed(event) != Some(one);
            &&& left.filter(other) == subscriptions.filter(other)
            &&& left.filter(own).len() == due.len() - lost.len()
            &&& left.len() == subscriptions.len() - lost.len()
            &&& (forall|k: int| 0 <= k < sent.len() ==> sent[k]) ==> left == subscriptions
            &&& (forall|k: int| 0 <= k < sent.len() ==> !sent[k]) ==> forall|i: int|
                0 <= i < left.len() ==> changed(event) != Some(#[trigger] left[i])
        }),
{
    let lost = unsent(due, sent);
    let left = without_each(subscriptions, lost);
    let own = |one: (u64, u64)| changed(event) == Some(one);
    lemma_unsent(due, sent);
    lemma_own_go(subscriptions, event, lost);
    law_one_message_per_subscription(subscriptions, event, due);
    if forall|k: int| 0 <= k < sent.len() ==> !sent[k] {
        assert forall|i: int| 0 <= i < left.len() implies changed(event) != Some(
            #[trigger] left[i],
        ) by {
            if own(left[i]) {
                lemma_filter_remove(left, own, i);
            }
        }
    }
}

/// Where at most one message could not be sent, its subscription can be removed and is what the
/// removal strikes. More than one is never lost where nothing is subscribed to twice.
pub proof fn law_single_loss_strikes_its_own(
    subscriptions: Seq<(u64, u64)>,
    event: &Event,
    due: Seq<usize>,
    sent: Seq<bool>,
)
    requires
        are_due(subscriptions, event, due),
        due.len() == sent.len(),
    ensures
        unsent(due, sent).len() <= 1 ==> {
            &&& removable(subscriptions.len(), unsent(due, sent))
            &&& strikes_its_own(subscriptions, event, unsent(due, sent))
        },
        subscriptions.no_duplicates() ==> unsent(due, sent).len() <= 1,
{
    let lost = unsent(due, sent);
    lemma_unsent(due, sent);
    assert forall|k: int| 0 <= k < lost.len() implies (#[trigger] lost[k]) < subscriptions.len()
        && changed(event) == Some(subscriptions[lost[k] as int]) by {
        assert(due.contains(lost[k]));
        let j = choose|j: int| 0 <= j < due.len() && due[j] == lost[k];
        assert(due[j] < subscriptions.len());
    }
    if lost.len() > 1 {
        assert(lost[0] < lost[1]);
        assert(subscriptions[lost[0] as int] == subscriptions[lost[1] as int]);
    }
}

/// Connections do not interfere: what one is sent and what is left of its subscriptions depends on
/// its own list alone, whatever the lists of the others hold. One with a subscription to the
/// characteristic is sent the event; one without, as at its start, is sent nothing and its list
/// stays as it is.
pub proof fn law_connections_do_not_interfere(
    lists: Seq<Seq<(u64, u64)>>,
    messages: Seq<Seq<EventObject>>,
    other_lists: Seq<Seq<(u64, u64)>>,
    other_messages: Seq<Seq<EventObject>>,
    event: &Event,
    connection: int,
)
    requires
        0 <= connection < lists.len() == messages.len(),
        connection < other_lists.len() == other_messages.len(),
        forall|c: int|
            0 <= c < lists.len() ==> are_messages(#[trigger] lists[c], event, messages[c]),
        forall|c: int|
            0 <= c < other_lists.len() ==> are_messages(
                #[trigger] other_lists[c],
                event,
                other_messages[c],
            ),
        lists[connection] == other_lists[connection],
        lists[connection].len() <= usize::MAX,
    ensures
        messages[connection] == other_messages[connection],
        messages[connection].len() > 0 <==> exists|i: int|
            0 <= i < lists[connection].len() && changed(event) == Some(
                #[trigger] lists[connection][i],
            ),
        forall|due: Seq<usize>, other_due: Seq<usize>| #[trigger]
            are_due(lists[connection], event, due) && #[trigger] are_due(
                other_lists[connection],
                event,
                other_due,
            ) ==> due == other_due,
        messages[connection].len() == 0 ==> forall|due: Seq<usize>, sent: Seq<bool>|
            are_due(lists[connection], event, due) && due.len() == sent.len() ==> without_each(
                lists[connection],
                #[trigger] unsent(due, sent),
            ) == lists[connection],
        lists[connection].len() == 0 ==> messages[connection].len() == 0,
{
    let list = lists[connection];
    let own = |one: (u64, u64)| changed(event) == Some(one);
    assert(are_messages(list, event, messages[connection]));
    assert(are_messages(other_lists[connection], event, other_messages[connection]));
    assert(messages[connection] =~= other_messages[connection]);
    lemma_filter_is_empty(list, own);
    assert forall|due: Seq<usize>, other_due: Seq<usize>| #[trigger]
        are_due(list, event, due) && #[trigger] are_due(
            other_lists[connection],
            event,
            other_due,
        ) implies due == other_due by {
        lemma_due_are_unique(list, event, due, other_due);
    }
    if messages[connection].len() == 0 {
        assert forall|due: Seq<usize>, sent: Seq<bool>|
            are_due(list, event, due) && due.len() == sent.len() implies without_each(
            list,
            #[trigger] unsent(due, sent),
        ) == list by {
            law_one_message_per_subscription(list, event, due);
        }
    }
}

/// Nothing passes a filter exactly where nothing that passes is there.
proof fn lemma_filter_is_empty(items: Seq<(u64, u64)>, keep: spec_fn((u64, u64)) -> bool)
    ensures
        items.filter(keep).len() > 0 <==> exists|i: int|
            0 <= i < items.len() && keep(#[trigger] items[i]),
    decreases items.len(),
{
    reveal(Seq::filter);
    if items.len() > 0 {
        let front = items.drop_last();
        lemma_filter_is_empty(front, keep);
        if exists|i: int| 0 <= i < front.len() && keep(#[trigger] front[i]) {
            let i = choose|i: int| 0 <= i < front.len() && keep(#[trigger] front[i]);
            assert(keep(items[i]));
        }
        if keep(items.last()) {
            assert(keep(items[items.len() - 1]));
        }
        if exists|i: int| 0 <= i < items.len() && keep(#[trigger] items[i]) {
            let i = choose|i: int| 0 <= i < items.len() && keep(#[trigger] items[i]);
            if i < front.len() {
                assert(keep(front[i]));
            }
        }
    }
}

/// The due positions are determined by the list and the event.
proof fn lemma_due_are_unique(
    subscriptions: Seq<(u64, u64)>,
    event: &Event,
    first: Seq<usize>,
    second: Seq<usize>,
)
    requires
        subscriptions.len() <= usize::MAX,
        are_due(subscriptions, event, first),
        are_due(subscriptions, event, second),
    ensures
        first == second,
{
    law_one_message_per_subscription(subscriptions, event, first);
    law_one_message_per_subscription(subscriptions, event, second);
    assert forall|k: int| 0 <= k < first.len() implies first[k] == second[k] by {
        lemma_same_place(subscriptions, event, first, second, k);
    }
    assert(first =~= second);
}

proof fn lemma_same_place(
    subscriptions: Seq<(u64, u64)>,
    event: &Event,
    first: Seq<usize>,
    second: Seq<usize>,
    k: int,
)
    requires
        are_due(subscriptions, event, first),
        are_due(subscriptions, event, second),
        0 <= k < first.len() == second.len(),
    ensures
        first[k] == second[k],
    decreases k,
{
    assert forall|j: int| 0 <= j < k implies first[j] == second[j] by {
        lemma_same_place(subscriptions, event, first, second, j);
    }
    assert(changed(event) == Some(subscriptions[first[k] as int]));
    assert(changed(event) == Some(subscriptions[second[k] as int]));
    let in_second = choose|j: int| 0 <= j < second.len() && second[j] == first[k];
    let in_first = choose|j: int| 0 <= j < first.len() && first[j] == second[k];
    assert(second.contains(first[k]));
    assert(first.contains(second[k]));
    if in_second < k {
        assert(first[in_second] < first[k]);
    } else if in_first < k {
        assert(second[in_first] < second[k]);
    } else {
        if in_second > k {
            assert(second[k] < second[in_second]);
        }
        if in_first > k {
            assert(first[k] < first[in_first]);
        }
    }
}

proof fn lemma_unsent(due: Seq<usize>, sent: Seq<bool>)
    requires
        due.len() == sent.len(),
        ascending(due),
    ensures
        ascending(unsent(due, sent)),
        forall|k: int|
            0 <= k < unsent(due, sent).len() ==> due.contains(#[trigger] unsent(due, sent)[k]),
        (forall|k: int| 0 <= k < sent.len() ==> sent[k]) ==> unsent(due, sent).len() == 0,
        (forall|k: int| 0 <= k < sent.len() ==> !sent[k]) ==> unsent(due, sent) == due,
    decreases due.len(),
{
    if due.len() > 0 {
        let front = due.drop_last();
        lemma_unsent(front, sent.drop_last());
        let lost_front = unsent(front, sent.drop_last());
        let lost = unsent(due, sent);
        assert forall|k: int| 0 <= k < lost.len() implies due.contains(#[trigger] lost[k]) by {
            if k < lost_front.len() {
                assert(front.contains(lost_front[k]));
                let j = choose|j: int| 0 <= j < front.len() && front[j] == lost_front[k];
                assert(due[j] == lost[k]);
            } else {
                assert(due[due.len() - 1] == lost[k]);
            }
        }
        assert forall|j: int, k: int| 0 <= j < k < lost.len() implies lost[j] < lost[k] by {
            assert(lost[j] == lost_front[j]);
            assert(front.contains(lost_front[j]));
            let i = choose|i: int| 0 <= i < front.len() && front[i] == lost_front[j];
            assert(due[i] < due[due.len() - 1]);
        }
        assert(front.push(due.last()) =~= due);
    } else {
        assert(due =~= Seq::empty());
    }
}

/// Behind the last removal the list is the one before, moved by as many places as were removed.
proof fn lemma_moved(subscriptions: Seq<(u64, u64)>, positions: Seq<usize>)
    requires
        ascending(positions),
        removable(subscriptions.len(), positions),
    ensures
        without_each(subscriptions, positions).len() == subscriptions.len() - positions.len(),
        forall|i: int|
            0 <= i < subscriptions.len() - positions.len() && (positions.len() > 0 ==> i
                >= positions.last()) ==> #[trigger] without_each(subscriptions, positions)[i]
                == subscriptions[i + positions.len()],
    decreases positions.len(),
{
    if positions.len() > 0 {
        let front = positions.drop_last();
        assert forall|k: int| 0 <= k < front.len() implies (#[trigger] front[k]) + k
            < subscriptions.len() by {
            assert(front[k] == positions[k]);
        }
        lemma_moved(subscriptions, front);
        let before = without_each(subscriptions, front);
        assert(positions[positions.len() - 1] + (positions.len() - 1) < subscriptions.len());
        assert forall|i: int|
            positions.last() <= i < subscriptions.len()
                - positions.len() implies #[trigger] without_each(subscriptions, positions)[i]
            == subscriptions[i + positions.len()] by {
            if front.len() > 0 {
                assert(positions[front.len() - 1] < positions[positions.len() - 1]);
            }
            assert(without_each(subscriptions, positions)[i] == before[i + 1]);
        }
    }
}

/// Removals that strike subscriptions to the characteristic take nothing else away.
proof fn lemma_own_go(subscriptions: Seq<(u64, u64)>, event: &Event, positions: Seq<usize>)
    requires
        ascending(positions),
        removable(subscriptions.len(), positions),
        strikes_its_own(subscriptions, event, positions),
    ensures
        ({
            let left = without_each(subscriptions, positions);
            let own = |one: (u64, u64)| changed(event) == Some(one);
            let other = |one: (u64, u64)| changed(event) != Some(one);
            &&& left.len() == subscriptions.len() - positions.len()
            &&& left.filter(other) == subscriptions.filter(other)
            &&& left.filter(own).len() == subscriptions.filter(own).len() - positions.len()
        }),
    decreases positions.len(),
{
    let own = |one: (u64, u64)| changed(event) == Some(one);
    let other = |one: (u64, u64)| changed(event) != Some(one);
    if positions.len() > 0 {
        let front = positions.drop_last();
        let place = positions.last() as int;
        assert forall|k: int| 0 <= k < front.len() implies (#[trigger] front[k]) + k
            < subscriptions.len() && changed(event) == Some(subscriptions[front[k] + k]) by {
            assert(front[k] == positions[k]);
        }
        lemma_own_go(subscriptions, event, front);
        lemma_moved(subscriptions, front);
        let before = without_each(subscriptions, front);
        assert(positions[positions.len() - 1] + (positions.len() - 1) < subscriptions.len());
        if front.len() > 0 {
            assert(positions[front.len() - 1] < positions[positions.len() - 1]);
        }
        assert(before[place] == subscriptions[place + front.len()]);
        assert(own(before[place]));
        lemma_filter_remove(before, own, place);
        lemma_filter_remove(before, other, place);
    }
}

/// What a removal does to a filtered list.
proof fn lemma_filter_remove(items: Seq<(u64, u64)>, keep: spec_fn((u64, u64)) -> bool, place: int)
    requires
        0 <= place < items.len(),
    ensures
        !keep(items[place]) ==> items.remove(place).filter(keep) == items.filter(keep),
        keep(items[place]) ==> items.remove(place).filter(keep).len() + 1 == items.filter(
            keep,
        ).len(),
    decreases items.len(),
{
    reveal(Seq::filter);
    let front = items.drop_last();
    if place == items.len() - 1 {
        assert(items.remove(place) =~= front);
    } else {
        lemma_filter_remove(front, keep, place);
        assert(items.remove(place).drop_last() =~= front.remove(place));
        assert(items.remove(place).last() == items.last());
    }
}

/// Every message that is due for a changed characteristic carries that characteristic and its new
/// value, at the position of a subscription to it; every subscription to it has one, in their
/// order. Other events make no message due.
pub proof fn law_messages_carry_the_change(
    subscriptions: &Vec<(u64, u64)>,
    event: &Event,
    due: Vec<(usize, EventObject)>,
)
    requires
        call_ensures(due_messages, (subscriptions, event), due),
    ensures
        event matches Event::CharacteristicValueChanged { aid, iid, value } ==> {
            &&& forall|k: int|
                0 <= k < due@.len() ==> {
                    &&& (#[trigger] due@[k]).1.aid == aid
                    &&& due@[k].1.iid == iid
                    &&& due@[k].1.value == value
                    &&& due@[k].0 < subscriptions@.len()
                    &&& subscriptions@[due@[k].0 as int] == (due@[k].1.aid, due@[k].1.iid)
                }
            &&& forall|j: int, k: int|
                0 <= j < k < due@.len() ==> (#[trigger] due@[j]).0 < (#[trigger] due@[k]).0
            &&& forall|i: int|
                0 <= i < subscriptions@.len() && (#[trigger] subscriptions@[i]) == (*aid, *iid)
                    ==> exists|k: int| 0 <= k < due@.len() && (#[trigger] due@[k]).0 == i
        },
        event is ControllerPaired || event is ControllerUnpaired ==> due@.len() == 0,
{
    let positions = positions_of(due@);
    assert forall|k: int| 0 <= k < due@.len() implies (#[trigger] due@[k]).0 == positions[k] by {}
    if due@.len() > 0 {
        assert(changed(event) == Some(subscriptions@[positions[0] as int]));
    }
    if let Event::CharacteristicValueChanged { aid, iid, value } = event {
        assert forall|k: int| 0 <= k < due@.len() implies {
            &&& (#[trigger] due@[k]).0 < subscriptions@.len()
            &&& subscriptions@[due@[k].0 as int] == (*aid, *iid)
        } by {
            assert(positions[k] < subscriptions@.len());
        }
        assert forall|j: int, k: int| 0 <= j < k < due@.len() implies (#[trigger] due@[j]).0 < (
        #[trigger] due@[k]).0 by {
            assert(positions[j] < positions[k]);
        }
        assert forall|i: int|
            0 <= i < subscriptions@.len() && (#[trigger] subscriptions@[i]) == (
                *aid,
                *iid,
            ) implies exists|k: int| 0 <= k < due@.len() && (#[trigger] due@[k]).0 == i by {
            assert(positions.contains(i as usize));
            let k = choose|k: int| 0 <= k < positions.len() && positions[k] == i as usize;
            assert(subscriptions@.len() == subscriptions.len());
            assert(due@[k].0 == i);
        }
    }
}

/// The messages that a connection is handed for a changed characteristic carry that characteristic
/// and its new value, and there are as many as the list has subscriptions to it. Other events have
/// none.
pub proof fn law_handed_messages_carry_the_change(
    subscriptions: Seq<(u64, u64)>,
    event: &Event,
    messages: Seq<EventObject>,
)
    requires
        are_messages(subscriptions, event, messages),
    ensures
        event matches Event::CharacteristicValueChanged { aid, iid, value } ==> {
            &&& messages.len() == subscriptions.filter(|one: (u64, u64)| one == (*aid, *iid)).len()
            &&& forall|k: int|
                0 <= k < messages.len() ==> {
                    &&& (#[trigger] messages[k]).aid == aid
                    &&& messages[k].iid == iid
                    &&& messages[k].value == value
                }
        },
        event is ControllerPaired || event is ControllerUnpaired ==> messages.len() == 0,
{
    let own = |one: (u64, u64)| changed(event) == Some(one);
    if let Event::CharacteristicValueChanged { aid, iid, value } = event {
        let same = |one: (u64, u64)| one == (*aid, *iid);
        assert(own =~= same);
    } else {
        lemma_filter_is_empty(subscriptions, own);
    }
}

/// The due positions are those of the subscriptions to the changed characteristic, rising from one
/// to the next. Other events have none.
pub proof fn law_due_are_the_subscriptions(
    subscriptions: Seq<(u64, u64)>,
    event: &Event,
    due: Seq<usize>,
)
    requires
        are_due(subscriptions, event, due),
    ensures
        event matches Event::CharacteristicValueChanged { aid, iid, .. } ==> {
            &&& forall|k: int|
                0 <= k < due.len() ==> (#[trigger] due[k]) < subscriptions.len()
                    && subscriptions[due[k] as int] == (*aid, *iid)
            &&& forall|j: int, k: int| 0 <= j < k < due.len() ==> due[j] < due[k]
            &&& forall|i: int|
                0 <= i < subscriptions.len() && (#[trigger] subscriptions[i]) == (*aid, *iid)
                    ==> due.contains(i as usize)
        },
        event is ControllerPaired || event is ControllerUnpaired ==> due.len() == 0,
{
    if due.len() > 0 {
        assert(changed(event) == Some(subscriptions[due[0] as int]));
    }
}

/// Of the due positions exactly those are lost whose message was not sent, in their order: each
/// stands behind what is lost of those before it and before what is lost of those behind it.
pub proof fn law_unsent_are_lost(due: Seq<usize>, sent: Seq<bool>, index: int)
    requires
        due.len() == sent.len(),
        0 <= index < due.len(),
    ensures
        unsent(due, sent).len() == sent.filter(|one: bool| !one).len(),
        unsent(due, sent) == unsent(due.take(index), sent.take(index)) + (if sent[index] {
            Seq::empty()
        } else {
            seq![due[index]]
        }) + unsent(due.skip(index + 1), sent.skip(index + 1)),
{
    lemma_unsent_count(due, sent);
    lemma_unsent_split(due, sent, index + 1);
    let front = due.take(index + 1);
    let front_sent = sent.take(index + 1);
    assert(front.drop_last() =~= due.take(index));
    assert(front_sent.drop_last() =~= sent.take(index));
    assert(unsent(due, sent) =~= unsent(due.take(index), sent.take(index)) + (if sent[index] {
        Seq::empty()
    } else {
        seq![due[index]]
    }) + unsent(due.skip(index + 1), sent.skip(index + 1)));
}

proof fn lemma_unsent_count(due: Seq<usize>, sent: Seq<bool>)
    requires
        due.len() == sent.len(),
    ensures
        unsent(due, sent).len() == sent.filter(|one: bool| !one).len(),
    decreases due.len(),
{
    reveal(Seq::filter);
    if due.len() > 0 {
        lemma_unsent_count(due.drop_last(), sent.drop_last());
    }
}

proof fn lemma_unsent_split(due: Seq<usize>, sent: Seq<bool>, split: int)
    requires
        due.len() == sent.len(),
        0 <= split <= due.len(),
    ensures
        unsent(due, sent) == unsent(due.take(split), sent.take(split)) + unsent(
            due.skip(split),
            sent.skip(split),
        ),
    decreases due.len(),
{
    if split == due.len() {
        assert(due.take(split) =~= due);
        assert(sent.take(split) =~= sent);
        assert(unsent(due, sent) =~= unsent(due, sent) + unsent(
            due.skip(split),
            sent.skip(split),
        ));
    } else {
        lemma_unsent_split(due.drop_last(), sent.drop_last(), split);
        assert(due.drop_last().take(split) =~= due.take(split));
        assert(sent.drop_last().take(split) =~= sent.take(split));
        assert(due.drop_last().skip(split) =~= due.skip(split).drop_last());
        assert(sent.drop_last().skip(split) =~= sent.skip(split).drop_last());
        assert(unsent(due, sent) =~= unsent(due.take(split), sent.take(split)) + unsent(
            due.skip(split),
            sent.skip(split),
        ));
    }
}

/// The lost positions are the due ones that were not sent: all of them, and no others.
pub proof fn law_lost_are_those_not_sent(due: &Vec<usize>, sent: &Vec<bool>, lost: Vec<usize>)
    requires
        due@.len() == sent@.len(),
        call_ensures(lost_positions, (due, sent), lost),
    ensures
        lost@.len() == sent@.filter(|one: bool| !one).len(),
        forall|k: int| 0 <= k < due@.len() && !sent@[k] ==> lost@.contains(#[trigger] due@[k]),
        forall|j: int|
            0 <= j < lost@.len() ==> exists|k: int|
                0 <= k < due@.len() && !sent@[k] && #[trigger] due@[k] == #[trigger] lost@[j],
        (forall|j: int, k: int| 0 <= j < k < due@.len() ==> due@[j] < due@[k]) ==> forall|
            j: int,
            k: int,
        |
            0 <= j < k < lost@.len() ==> lost@[j] < lost@[k],
{
    lemma_unsent_count(due@, sent@);
    lemma_unsent_members(due@, sent@);
    if forall|j: int, k: int| 0 <= j < k < due@.len() ==> due@[j] < due@[k] {
        lemma_unsent(due@, sent@);
    }
}

proof fn lemma_unsent_members(due: Seq<usize>, sent: Seq<bool>)
    requires
        due.len() == sent.len(),
    ensures
        forall|k: int|
            0 <= k < due.len() && !sent[k] ==> unsent(due, sent).contains(#[trigger] due[k]),
        forall|j: int|
            0 <= j < unsent(due, sent).len() ==> exists|k: int|
                0 <= k < due.len() && !sent[k] && #[trigger] due[k] == #[trigger] unsent(
                    due,
                    sent,
                )[j],
    decreases due.len(),
{
    if due.len() > 0 {
        let front = due.drop_last();
        let front_sent = sent.drop_last();
        lemma_unsent_members(front, front_sent);
        let lost_front = unsent(front, front_sent);
        let lost = unsent(due, sent);
        assert forall|k: int| 0 <= k < due.len() && !sent[k] implies lost.contains(
            #[trigger] due[k],
        ) by {
            if k < front.len() {
                assert(lost_front.contains(front[k]));
                let j = choose|j: int| 0 <= j < lost_front.len() && lost_front[j] == front[k];
                assert(lost[j] == due[k]);
            } else {
                assert(lost[lost_front.len() as int] == due[k]);
            }
        }
        assert forall|j: int| 0 <= j < lost.len() implies exists|k: int|
            0 <= k < due.len() && !sent[k] && #[trigger] due[k] == #[trigger] lost[j] by {
            if j < lost_front.len() {
                let k = choose|k: int|
                    0 <= k < front.len() && !front_sent[k] && #[trigger] front[k] == lost_front[j];
                assert(due[k] == lost[j] && !sent[k]);
            } else {
                assert(due[due.len() - 1] == lost[j]);
            }
        }
    }
}

/// Positions can be removed exactly where each is within what the removals before it leave.
pub proof fn law_removable_is_within_what_is_left(
    subscriptions: &Vec<(u64, u64)>,
    positions: &Vec<usize>,
    can: bool,
)
    requires
        call_ensures(can_remove, (subscriptions, positions), can),
    ensures
        can <==> forall|k: int|
            0 <= k < positions@.len() ==> (#[trigger] positions@[k]) < subscriptions@.len() - k,
{
}

/// Removing rising positions one after the other leaves the list shorter by as many as there are,
/// and behind `k` of the removals everything has moved up by `k` places. So a single removal takes
/// what is at its position and nothing else.
pub proof fn law_removals_move_the_rest_up(
    subscriptions: Seq<(u64, u64)>,
    positions: Seq<usize>,
    k: int,
    i: int,
)
    requires
        forall|a: int, b: int| 0 <= a < b < positions.len() ==> positions[a] < positions[b],
        forall|a: int|
            0 <= a < positions.len() ==> (#[trigger] positions[a]) < subscriptions.len() - a,
        0 <= k <= positions.len(),
        0 <= i < subscriptions.len() - positions.len(),
        k > 0 ==> positions[k - 1] <= i,
        k < positions.len() ==> i < positions[k],
    ensures
        without_each(subscriptions, positions).len() == subscriptions.len() - positions.len(),
        without_each(subscriptions, positions)[i] == subscriptions[i + k],
    decreases positions.len(),
{
    lemma_moved(subscriptions, positions);
    if k < positions.len() {
        let front = positions.drop_last();
        assert forall|a: int| 0 <= a < front.len() implies (#[trigger] front[a])
            < subscriptions.len() - a by {
            assert(front[a] == positions[a]);
        }
        law_removals_move_the_rest_up(subscriptions, front, k, i);
        assert(positions[k] <= positions.last());
        lemma_moved(subscriptions, front);
    }
}

} // verus!
