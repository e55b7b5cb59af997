//! The last switches, newest first.

use crate::events::{
    event_models, events_json, events_to_json, read_events, try_events_from_json, EventModel,
    SwitchEvent,
};
use std::collections::VecDeque;
use vstd::prelude::*;
use vstd::string::*;

verus! {

/// How many switches are kept.
pub const HISTORY_CAP: usize = 20;

/// At most the first twenty entries.
pub open spec fn capped(l: Seq<EventModel>) -> Seq<EventModel> {
    if l.len() > HISTORY_CAP {
        l.take(HISTORY_CAP as int)
    } else {
        l
    }
}

/// Puts a switch in front; what is beyond twenty is dropped.
pub fn push_history(hist: &mut VecDeque<SwitchEvent>, ev: SwitchEvent)
    ensures
        event_models(final(hist)@) == capped(seq![ev@] + event_models(old(hist)@)),
        final(hist)@.len() <= HISTORY_CAP,
{
    let ghost all = seq![ev@] + event_models(hist@);
    hist.push_front(ev);
    assert(event_models(hist@) == all);
    assert(all.take(all.len() as int) == all);
    while hist.len() > HISTORY_CAP
        invariant
            event_models(hist@) == all.take(hist@.len() as int),
            hist@.len() <= all.len(),
            all.len() > HISTORY_CAP ==> hist@.len() >= HISTORY_CAP,
            all.len() <= HISTORY_CAP ==> hist@.len() == all.len(),
        decreases hist@.len(),
    {
        let ghost before = hist@;
        hist.pop_back();
        assert(hist@ == before.drop_last());
        assert(event_models(hist@) == all.take(hist@.len() as int));
    }
    assert(all.len() <= HISTORY_CAP ==> all.take(hist@.len() as int) == all);
}

/// Reads a saved history: its first twenty entries. None where it breaks off inside a member.
pub fn load_history(raw: &str) -> (r: Option<VecDeque<SwitchEvent>>)
    ensures
        r is Some <==> read_events(raw@) is Some,
        r matches Some(q) ==> event_models(q@) == capped(read_events(raw@)->0),
{
    let list = match try_events_from_json(raw) {
        Some(v) => v,
        None => {
            return None;
        },
    };
    let ghost l = event_models(list@);
    let mut q: VecDeque<SwitchEvent> = VecDeque::new();
    let mut i: usize = 0;
    assert(event_models(q@) == l.take(0));
    while i < list.len() && i < HISTORY_CAP
        invariant
            l == event_models(list@),
            i <= list@.len(),
            i <= HISTORY_CAP,
            event_models(q@) == l.take(i as int),
        decreases list@.len() - i,
    {
        let ghost before = q@;
        let e = list[i].clone();
        q.push_back(e);
        assert(event_models(q@) == event_models(before).push(e@));
        assert(l.take(i + 1) == l.take(i as int).push(l[i as int]));
        i = i + 1;
    }
    assert(l.len() <= HISTORY_CAP ==> l.take(i as int) == l);
    Some(q)
}

/// The history as it is saved.
pub fn save_text(hist: &VecDeque<SwitchEvent>) -> (r: String)
    ensures
        r@ == events_json(event_models(hist@)),
{
    let mut list: Vec<SwitchEvent> = Vec::new();
    let mut i: usize = 0;
    while i < hist.len()
        invariant
            i <= hist@.len(),
            list@.len() == i,
            forall|x: int| 0 <= x < i ==> (#[trigger] list@[x])@ == hist@[x]@,
        decreases hist@.len() - i,
    {
        list.push(hist[i].clone());
        i = i + 1;
    }
    assert(event_models(list@) == event_models(hist@));
    events_to_json(&list)
}

/// The newest switch is in front, and the older ones keep their order behind it.
pub proof fn law_newest_comes_first(old_list: Seq<EventModel>, e: EventModel, i: int)
    requires
        0 < i < capped(seq![e] + old_list).len(),
    ensures
        capped(seq![e] + old_list)[0] == e,
        capped(seq![e] + old_list)[i] == old_list[i - 1],
        capped(seq![e] + old_list).len() <= HISTORY_CAP,
{
}

/// A history that has been saved is loaded as it was, where its texts hold no control characters
/// and it is no longer than what is kept.
pub proof fn law_saved_history_is_loaded(l: Seq<EventModel>)
    requires
        l.len() <= HISTORY_CAP,
        forall|i: int| 0 <= i < l.len() ==> crate::events::is_printable_event(#[trigger] l[i]),
    ensures
        read_events(events_json(l)) == Some(l),
        capped(l) == l,
{
    crate::events::law_history_is_read_back(l);
}

/// Nothing is dropped before there are more than twenty, and then only what is oldest: the history is
/// as long as all there has been, or twenty.
pub proof fn law_oldest_is_dropped(l: Seq<EventModel>, e: EventModel)
    ensures
        l.len() < 20 ==> capped(seq![e] + l) == seq![e] + l,
        l.len() >= 20 ==> capped(seq![e] + l) == seq![e] + l.take(19),
{
    assert(l.len() >= 20 ==> (seq![e] + l).take(20) =~= seq![e] + l.take(19));
}

} // verus!
