//! The event index: experiments, their messages and events, and the two
//! reverse indices that tie messages to experiments.

use std::collections::HashMap;
use vstd::prelude::*;
use vstd::std_specs::iter::IteratorSpec;
use crate::consumers::{consume_loops, handles_of, loop_starts, Consumers, LoopStart};
use crate::ids::random_uuid;
use crate::models::{
    copy_events, Experiment, ExperimentOverview, Insights, KafkaBrokerCfg, Message, MessageEvent,
    ResponseError,
};

verus! {

broadcast use vstd::std_specs::hash::group_hash_axioms;

/// Experiment id to the ids of the messages it owns, in order of insertion.
#[derive(Debug, Clone)]
pub struct ExperimentToMessagesIdx(pub HashMap<u128, Vec<u128>>);

/// Message id to the id of the experiment that owns it.
#[derive(Debug, Clone)]
pub struct MessageToExperimentIdx(pub HashMap<u128, u128>);

/// Message id to message.
#[derive(Debug, Clone)]
pub struct MessageMapping(pub HashMap<u128, Message>);

/// The messages found under the ids, in the order of the ids. An id under
/// which there is none is passed over; in a well-formed index there is no
/// such id.
pub open spec fn messages_in_order(ids: Seq<u128>, messages: Map<u128, Message>) -> Seq<Message>
    decreases ids.len(),
{
    if ids.len() == 0 {
        Seq::empty()
    } else if messages.contains_key(ids.last()) {
        messages_in_order(ids.drop_last(), messages).push(messages[ids.last()])
    } else {
        messages_in_order(ids.drop_last(), messages)
    }
}

/// Where there is a message under every id, the messages in order are one
/// for each id.
pub proof fn lemma_messages_in_order(ids: Seq<u128>, messages: Map<u128, Message>)
    requires
        forall|i: int| 0 <= i < ids.len() ==> messages.contains_key(#[trigger] ids[i]),
    ensures
        messages_in_order(ids, messages) == ids.map_values(|id: u128| messages[id]),
    decreases ids.len(),
{
    if ids.len() > 0 {
        let front = ids.drop_last();
        assert forall|i: int| 0 <= i < front.len() implies messages.contains_key(
            #[trigger] front[i],
        ) by {
            assert(front[i] == ids[i]);
        }
        lemma_messages_in_order(front, messages);
        assert(messages.contains_key(ids[ids.len() - 1]));
        assert(messages_in_order(ids, messages) =~= ids.map_values(|id: u128| messages[id]));
    } else {
        assert(messages_in_order(ids, messages) =~= ids.map_values(|id: u128| messages[id]));
    }
}

/// The index as mathematical maps.
pub struct IndexModel {
    pub experiments: Map<u128, Experiment>,
    pub messages: Map<u128, Map<u128, Message>>,
    pub events: Map<u128, Seq<MessageEvent>>,
    pub by_experiment: Map<u128, Seq<u128>>,
    pub by_message: Map<u128, u128>,
}

impl IndexModel {
    pub open spec fn empty() -> IndexModel {
        IndexModel {
            experiments: Map::empty(),
            messages: Map::empty(),
            events: Map::empty(),
            by_experiment: Map::empty(),
            by_message: Map::empty(),
        }
    }

    /// The forward maps and the reverse indices agree: messages, events and
    /// index entries exist only under registered experiments, every owned
    /// message is listed once under its experiment and points back to it,
    /// and no message is owned twice.
    pub open spec fn wf(self) -> bool {
        &&& self.messages.dom() =~= self.by_experiment.dom()
        &&& self.messages.dom().subset_of(self.events.dom())
        &&& self.events.dom().subset_of(self.experiments.dom())
        &&& forall|e: u128| #[trigger]
            self.by_experiment.contains_key(e) ==> self.by_experiment[e].no_duplicates()
        &&& forall|e: u128, m: u128|
            self.messages.contains_key(e) ==> (#[trigger] self.messages[e].contains_key(m)
                <==> self.by_experiment[e].contains(m))
        &&& forall|e: u128, m: u128|
            self.messages.contains_key(e) && #[trigger] self.messages[e].contains_key(m) ==> (
            self.by_message.contains_key(m) && self.by_message[m] == e
                && self.messages[e][m].uuid == m)
        &&& forall|m: u128| #[trigger]
            self.by_message.contains_key(m) ==> self.messages.contains_key(self.by_message[m])
                && self.messages[self.by_message[m]].contains_key(m)
    }

    /// No structure holds anything under the experiment `e`.
    pub open spec fn holds_nothing_of(self, e: u128) -> bool {
        &&& !self.experiments.contains_key(e)
        &&& !self.messages.contains_key(e)
        &&& !self.events.contains_key(e)
        &&& !self.by_experiment.contains_key(e)
        &&& forall|m: u128| #[trigger] self.by_message.contains_key(m) ==> self.by_message[m] != e
    }

    /// Whether the message `m` is tracked under the experiment `e`.
    pub open spec fn tracks(self, m: u128, e: u128) -> bool {
        self.messages.contains_key(e) && self.messages[e].contains_key(m)
    }

    pub open spec fn messages_of(self, e: u128) -> Map<u128, Message> {
        if self.messages.contains_key(e) {
            self.messages[e]
        } else {
            Map::empty()
        }
    }

    pub open spec fn message_ids_of(self, e: u128) -> Seq<u128> {
        if self.by_experiment.contains_key(e) {
            self.by_experiment[e]
        } else {
            Seq::empty()
        }
    }

    /// The messages of the experiment `e` in the order in which they were
    /// inserted.
    pub open spec fn ordered_messages(self, e: u128) -> Seq<Message> {
        messages_in_order(self.message_ids_of(e), self.messages_of(e))
    }

    pub open spec fn events_of(self, e: u128) -> Seq<MessageEvent> {
        if self.events.contains_key(e) {
            self.events[e]
        } else {
            Seq::empty()
        }
    }

    /// The index with `experiment` registered under `e`, in place of what was
    /// registered there before.
    pub open spec fn register(self, e: u128, experiment: Experiment) -> IndexModel {
        IndexModel { experiments: self.experiments.insert(e, experiment), ..self }
    }

    /// The index after `message` was offered under the experiment `e`.
    /// Under an unknown experiment nothing changes. Under a known one the
    /// event list exists afterwards, and the message is added unless its id
    /// is tracked already.
    pub open spec fn insert_message(self, message: Message, e: u128) -> IndexModel {
        if !self.experiments.contains_key(e) {
            self
        } else if self.by_message.contains_key(message.uuid) {
            IndexModel { events: self.events.insert(e, self.events_of(e)), ..self }
        } else {
            IndexModel {
                experiments: self.experiments,
                messages: self.messages.insert(
                    e,
                    self.messages_of(e).insert(message.uuid, message),
                ),
                events: self.events.insert(e, self.events_of(e)),
                by_experiment: self.by_experiment.insert(
                    e,
                    self.message_ids_of(e).push(message.uuid),
                ),
                by_message: self.by_message.insert(message.uuid, e),
            }
        }
    }

    /// The index after `event` was appended under `e`; unchanged where `e`
    /// has no event list.
    pub open spec fn append_event(self, e: u128, event: MessageEvent) -> IndexModel {
        if self.events.contains_key(e) {
            IndexModel { events: self.events.insert(e, self.events[e].push(event)), ..self }
        } else {
            self
        }
    }

    /// The index without the experiment `e`, its events and its messages.
    pub open spec fn remove_experiment(self, e: u128) -> IndexModel {
        IndexModel {
            experiments: self.experiments.remove(e),
            messages: self.messages.remove(e),
            events: self.events.remove(e),
            by_experiment: self.by_experiment.remove(e),
            by_message: Map::new(
                |m: u128| self.by_message.contains_key(m) && !self.message_ids_of(e).contains(m),
                |m: u128| self.by_message[m],
            ),
        }
    }

    /// Registering keeps the index well formed.
    pub proof fn lemma_register_wf(self, e: u128, experiment: Experiment)
        requires
            self.wf(),
        ensures
            self.register(e, experiment).wf(),
    {
    }

    /// Offering a message keeps the index well formed.
    pub proof fn lemma_insert_message_wf(self, message: Message, e: u128)
        requires
            self.wf(),
        ensures
            self.insert_message(message, e).wf(),
    {
        let t = self.insert_message(message, e);
        let id = message.uuid;
        if self.experiments.contains_key(e) && !self.by_message.contains_key(id) {
            let ids = self.message_ids_of(e);
            assert(!ids.contains(id)) by {
                if ids.contains(id) {
                    assert(self.by_experiment.contains_key(e));
                    assert(self.messages[e].contains_key(id));
                }
            }
            assert(ids.no_duplicates());
            assert(ids.push(id).no_duplicates()) by {
                assert forall|i: int, j: int|
                    0 <= i < ids.len() + 1 && 0 <= j < ids.len() + 1 && i != j implies ids.push(
                    id,
                )[i] != ids.push(id)[j] by {
                    if i < ids.len() && j < ids.len() {
                    } else if i < ids.len() {
                        assert(ids.contains(ids[i]));
                    } else {
                        assert(ids.contains(ids[j]));
                    }
                }
            }
            assert forall|x: u128, m: u128| t.messages.contains_key(x) implies (
            #[trigger] t.messages[x].contains_key(m) <==> t.by_experiment[x].contains(m)) by {
                if x == e {
                    if m == id {
                        assert(ids.push(id)[ids.len() as int] == id);
                    } else {
                        if ids.push(id).contains(m) {
                            let k = choose|k: int| 0 <= k < ids.len() + 1 && ids.push(id)[k] == m;
                            assert(ids[k] == m);
                            assert(ids.contains(m));
                        }
                        if ids.contains(m) {
                            let k = choose|k: int| 0 <= k < ids.len() && ids[k] == m;
                            assert(ids.push(id)[k] == m);
                        }
                    }
                }
            }
            assert forall|m: u128| #[trigger] t.by_message.contains_key(m) implies t.messages.contains_key(
                t.by_message[m],
            ) && t.messages[t.by_message[m]].contains_key(m) by {
                if m != id {
                    assert(self.by_message.contains_key(m));
                }
            }
        }
    }

    /// Appending an event keeps the index well formed.
    pub proof fn lemma_append_event_wf(self, e: u128, event: MessageEvent)
        requires
            self.wf(),
        ensures
            self.append_event(e, event).wf(),
    {
    }

    /// Removing an experiment keeps the index well formed.
    pub proof fn lemma_remove_experiment_wf(self, e: u128)
        requires
            self.wf(),
        ensures
            self.remove_experiment(e).wf(),
    {
        let t = self.remove_experiment(e);
        assert forall|m: u128| #[trigger] t.by_message.contains_key(m) implies t.messages.contains_key(
            t.by_message[m],
        ) && t.messages[t.by_message[m]].contains_key(m) by {
            assert(self.by_message.contains_key(m));
        }
        assert forall|x: u128, m: u128|
            t.messages.contains_key(x) && #[trigger] t.messages[x].contains_key(m) implies (
        t.by_message.contains_key(m) && t.by_message[m] == x && t.messages[x][m].uuid == m) by {
            assert(self.messages[x].contains_key(m));
            if self.message_ids_of(e).contains(m) {
                assert(self.messages[e].contains_key(m));
            }
        }
    }
}

/// In a well-formed index the messages of an experiment in order are one for
/// each id listed under the experiment.
pub proof fn lemma_ordered_messages(s: IndexModel, e: u128)
    requires
        s.wf(),
    ensures
        s.ordered_messages(e) == s.message_ids_of(e).map_values(
            |id: u128| s.messages_of(e)[id],
        ),
{
    let ids = s.message_ids_of(e);
    assert forall|i: int| 0 <= i < ids.len() implies s.messages_of(e).contains_key(
        #[trigger] ids[i],
    ) by {
        assert(s.by_experiment.contains_key(e));
        assert(s.messages.dom().contains(e));
        assert(s.by_experiment[e].contains(ids[i]));
        assert(s.messages[e].contains_key(ids[i]));
    }
    lemma_messages_in_order(ids, s.messages_of(e));
}

/// An experiment that is registered and removed at once leaves no entry
/// under its id in any structure of the index; where the id was not
/// registered before, the index is again what it was, so that an empty index
/// is empty again.
pub proof fn lemma_register_then_remove(s: IndexModel, e: u128, experiment: Experiment)
    requires
        s.wf(),
    ensures
        s.register(e, experiment).remove_experiment(e).holds_nothing_of(e),
        s.register(e, experiment).remove_experiment(e).wf(),
        !s.experiments.contains_key(e) ==> s.register(e, experiment).remove_experiment(e) == s,
        s == IndexModel::empty() ==> s.register(e, experiment).remove_experiment(e)
            == IndexModel::empty(),
{
    let r = s.register(e, experiment);
    let t = r.remove_experiment(e);
    r.lemma_remove_experiment_wf(e);
    assert forall|m: u128| #[trigger] t.by_message.contains_key(m) implies t.by_message[m] != e by {
        if s.by_message[m] == e {
            assert(s.messages[e].contains_key(m));
            assert(s.by_experiment[e].contains(m));
        }
    }
    if !s.experiments.contains_key(e) {
        assert(!s.events.contains_key(e));
        assert(!s.messages.contains_key(e));
        assert(!s.by_experiment.contains_key(e));
        assert(t.experiments =~= s.experiments);
        assert(t.messages =~= s.messages);
        assert(t.events =~= s.events);
        assert(t.by_experiment =~= s.by_experiment);
        assert(t.by_message =~= s.by_message);
    }
}

/// Removing an experiment leaves no entry under its id in any structure.
pub proof fn lemma_remove_leaves_nothing(s: IndexModel, e: u128)
    requires
        s.wf(),
    ensures
        s.remove_experiment(e).holds_nothing_of(e),
{
    let t = s.remove_experiment(e);
    assert forall|m: u128| #[trigger] t.by_message.contains_key(m) implies t.by_message[m] != e by {
        if s.by_message[m] == e {
            assert(s.messages[e].contains_key(m));
            assert(s.by_experiment[e].contains(m));
        }
    }
}

/// Offering a message a second time under the same experiment changes
/// nothing, whatever the second offer says of its size.
pub proof fn lemma_insert_message_idempotent(
    s: IndexModel,
    message: Message,
    again: Message,
    e: u128,
)
    requires
        again.uuid == message.uuid,
    ensures
        s.insert_message(message, e).insert_message(again, e) == s.insert_message(message, e),
{
    let t = s.insert_message(message, e);
    let u = t.insert_message(again, e);
    if s.experiments.contains_key(e) {
        assert(t.by_message.contains_key(message.uuid));
        assert(u.events =~= t.events);
    }
}

/// Offering an untracked message twice under a registered experiment adds
/// exactly one entry to the message map of the experiment and to each
/// reverse index: the first offer adds it, the second adds nothing.
pub proof fn lemma_insert_message_twice_adds_one(
    s: IndexModel,
    message: Message,
    again: Message,
    e: u128,
)
    requires
        s.wf(),
        s.by_message.dom().finite(),
        s.messages_of(e).dom().finite(),
        s.experiments.contains_key(e),
        !s.by_message.contains_key(message.uuid),
        again.uuid == message.uuid,
    ensures
        s.insert_message(message, e).by_message.len() == s.by_message.len() + 1,
        s.insert_message(message, e).messages_of(e).len() == s.messages_of(e).len() + 1,
        s.insert_message(message, e).message_ids_of(e).len() == s.message_ids_of(e).len() + 1,
        s.insert_message(message, e).insert_message(again, e).by_message.len()
            == s.by_message.len() + 1,
        s.insert_message(message, e).insert_message(again, e).messages_of(e).len()
            == s.messages_of(e).len() + 1,
        s.insert_message(message, e).insert_message(again, e).message_ids_of(e).len()
            == s.message_ids_of(e).len() + 1,
{
    let t = s.insert_message(message, e);
    assert(!s.messages_of(e).contains_key(message.uuid)) by {
        if s.messages_of(e).contains_key(message.uuid) {
            assert(s.messages[e].contains_key(message.uuid));
        }
    }
    assert(t.by_message.dom() =~= s.by_message.dom().insert(message.uuid));
    assert(t.messages_of(e).dom() =~= s.messages_of(e).dom().insert(message.uuid));
    lemma_insert_message_idempotent(s, message, again, e);
}

/// Offering a message under an experiment that is not registered changes
/// nothing.
pub proof fn lemma_insert_message_unknown_experiment(s: IndexModel, message: Message, e: u128)
    requires
        !s.experiments.contains_key(e),
    ensures
        s.insert_message(message, e) == s,
{
}

/// The event index: every mutation of it is one call on this value.
#[derive(Debug, Clone)]
pub struct MessagesState {
    pub experiments: HashMap<u128, Experiment>,
    /// Experiment id to the messages it owns.
    pub messages: HashMap<u128, MessageMapping>,
    /// Experiment id to its events, in order of insertion.
    pub events: HashMap<u128, Vec<MessageEvent>>,
    pub idx_experiment_to_messages: ExperimentToMessagesIdx,
    pub idx_message_to_experiment: MessageToExperimentIdx,
}

impl View for MessagesState {
    type V = IndexModel;

    open spec fn view(&self) -> IndexModel {
        IndexModel {
            experiments: self.experiments@,
            messages: self.messages@.map_values(|mm: MessageMapping| mm.0@),
            events: self.events@.map_values(|v: Vec<MessageEvent>| v@),
            by_experiment: self.idx_experiment_to_messages.0@.map_values(|v: Vec<u128>| v@),
            by_message: self.idx_message_to_experiment.0@,
        }
    }
}

impl MessagesState {
    /// An index that holds nothing.
    pub fn new() -> (state: MessagesState)
        ensures
            state@ == IndexModel::empty(),
            state@.wf(),
    {
        let state = MessagesState {
            experiments: HashMap::new(),
            messages: HashMap::new(),
            events: HashMap::new(),
            idx_experiment_to_messages: ExperimentToMessagesIdx(HashMap::new()),
            idx_message_to_experiment: MessageToExperimentIdx(HashMap::new()),
        };
        proof {
            assert(state@.messages =~= Map::empty());
            assert(state@.events =~= Map::empty());
            assert(state@.by_experiment =~= Map::empty());
        }
        state
    }

    /// Registers `experiment` under `experiment_uuid`, in place of what was
    /// registered there before. Messages and events are left as they are.
    pub fn register_experiment(&mut self, experiment_uuid: u128, experiment: Experiment)
        ensures
            final(self)@ == old(self)@.register(experiment_uuid, experiment),
            old(self)@.wf() ==> final(self)@.wf(),
    {
        self.experiments.insert(experiment_uuid, experiment);
        proof {
            if old(self)@.wf() {
                old(self)@.lemma_register_wf(experiment_uuid, experiment);
            }
        }
    }

    /// Whether an experiment is registered under `experiment_uuid`.
    pub fn has_experiment(&self, experiment_uuid: u128) -> (known: bool)
        ensures
            known == self@.experiments.contains_key(experiment_uuid),
    {
        self.experiments.contains_key(&experiment_uuid)
    }

    /// Whether the message is tracked under the experiment.
    pub fn tracks(&self, message_uuid: u128, experiment_uuid: u128) -> (owned: bool)
        ensures
            owned == self@.tracks(message_uuid, experiment_uuid),
    {
        match self.messages.get(&experiment_uuid) {
            Some(mapping) => mapping.0.contains_key(&message_uuid),
            None => false,
        }
    }

    /// Whether the message id is tracked under any experiment.
    pub fn knows_message(&self, message_uuid: u128) -> (known: bool)
        ensures
            known == self@.by_message.contains_key(message_uuid),
    {
        self.idx_message_to_experiment.0.contains_key(&message_uuid)
    }

    /// Makes sure that the experiment has an event list.
    fn ensure_events(&mut self, experiment_uuid: u128)
        ensures
            final(self)@ == (IndexModel {
                events: old(self)@.events.insert(
                    experiment_uuid,
                    old(self)@.events_of(experiment_uuid),
                ),
                ..old(self)@
            }),
    {
        if !self.events.contains_key(&experiment_uuid) {
            self.events.insert(experiment_uuid, Vec::new());
        }
        proof {
            assert(final(self)@.events =~= old(self)@.events.insert(
                experiment_uuid,
                old(self)@.events_of(experiment_uuid),
            ));
        }
    }

    /// Offers a message under an experiment. Under an unknown experiment
    /// nothing changes. Under a known one its event list exists afterwards,
    /// and the message joins the message map and both reverse indices unless
    /// its id is tracked already: a second offer of the same message changes
    /// nothing.
    pub fn insert_message(&mut self, message: Message, experiment_uuid: u128)
        ensures
            final(self)@ == old(self)@.insert_message(message, experiment_uuid),
            old(self)@.wf() ==> final(self)@.wf(),
    {
        if self.experiments.contains_key(&experiment_uuid) {
            self.ensure_events(experiment_uuid);
            if !self.idx_message_to_experiment.0.contains_key(&message.uuid) {
                let ghost before = self@;
                self.idx_message_to_experiment.0.insert(message.uuid, experiment_uuid);
                let mut ids = match self.idx_experiment_to_messages.0.remove(&experiment_uuid) {
                    Some(ids) => ids,
                    None => Vec::new(),
                };
                ids.push(message.uuid);
                self.idx_experiment_to_messages.0.insert(experiment_uuid, ids);
                let mut mapping = match self.messages.remove(&experiment_uuid) {
                    Some(mapping) => mapping,
                    None => MessageMapping(HashMap::new()),
                };
                mapping.0.insert(message.uuid, message);
                self.messages.insert(experiment_uuid, mapping);
                proof {
                    let want = old(self)@.insert_message(message, experiment_uuid);
                    assert(final(self)@.by_experiment =~= want.by_experiment);
                    assert(final(self)@.messages =~= want.messages);
                    assert(final(self)@.events =~= want.events);
                }
            }
        }
        proof {
            if old(self)@.wf() {
                old(self)@.lemma_insert_message_wf(message, experiment_uuid);
            }
        }
    }

    /// Appends an event to the experiment's list. Returns whether the list
    /// was there: where it is not, the event is dropped and nothing changes.
    pub fn append_event(&mut self, experiment_uuid: u128, event: MessageEvent) -> (found: bool)
        ensures
            found == old(self)@.events.contains_key(experiment_uuid),
            final(self)@ == old(self)@.append_event(experiment_uuid, event),
            old(self)@.wf() ==> final(self)@.wf(),
    {
        let found = match self.events.remove(&experiment_uuid) {
            Some(mut list) => {
                list.push(event);
                self.events.insert(experiment_uuid, list);
                true
            },
            None => false,
        };
        proof {
            let want = old(self)@.append_event(experiment_uuid, event);
            assert(final(self)@.events =~= want.events);
            if old(self)@.wf() {
                old(self)@.lemma_append_event_wf(experiment_uuid, event);
            }
        }
        found
    }

    /// Removes the experiment, its event list and every message it owns
    /// from the message map and from both reverse indices.
    pub fn remove_experiment(&mut self, experiment_uuid: u128)
        ensures
            final(self)@ == old(self)@.remove_experiment(experiment_uuid),
            old(self)@.wf() ==> final(self)@.wf(),
    {
        self.experiments.remove(&experiment_uuid);
        self.events.remove(&experiment_uuid);
        self.messages.remove(&experiment_uuid);
        let ghost ids_before = old(self)@.message_ids_of(experiment_uuid);
        let ghost by_message_before = old(self)@.by_message;
        let removed = self.idx_experiment_to_messages.0.remove(&experiment_uuid);
        let ghost snap = self@;
        match removed {
            Some(ids) => {
                let mut i: usize = 0;
                while i < ids.len()
                    invariant
                        i <= ids.len(),
                        ids@ == ids_before,
                        self@.experiments == snap.experiments,
                        self@.messages == snap.messages,
                        self@.events == snap.events,
                        self@.by_experiment == snap.by_experiment,
                        self.idx_message_to_experiment.0@ =~= Map::new(
                            |m: u128|
                                by_message_before.contains_key(m) && !ids@.take(i as int).contains(
                                    m,
                                ),
                            |m: u128| by_message_before[m],
                        ),
                    decreases ids.len() - i,
                {
                    let id = ids[i];
                    self.idx_message_to_experiment.0.remove(&id);
                    proof {
                        let seen = ids@.take(i as int);
                        let next = ids@.take(i + 1);
                        assert(next =~= seen.push(id));
                        assert forall|m: u128| next.contains(m) <==> (seen.contains(m) || m == id) by {
                            if seen.contains(m) {
                                let k = choose|k: int| 0 <= k < seen.len() && seen[k] == m;
                                assert(next[k] == m);
                            }
                            if m == id {
                                assert(next[i as int] == m);
                            }
                        }
                    }
                    i = i + 1;
                }
                proof {
                    assert(ids@.take(ids.len() as int) =~= ids@);
                }
            },
            None => {},
        }
        proof {
            let want = old(self)@.remove_experiment(experiment_uuid);
            assert(final(self)@.by_message =~= want.by_message);
            assert(final(self)@.by_experiment =~= want.by_experiment);
            assert(final(self)@.messages =~= want.messages);
            assert(final(self)@.events =~= want.events);
            assert(final(self)@.experiments =~= want.experiments);
            if old(self)@.wf() {
                old(self)@.lemma_remove_experiment_wf(experiment_uuid);
            }
        }
    }

    /// The ids of the registered experiments, each once, in no particular
    /// order.
    pub fn list_experiments(&self) -> (ids: Vec<u128>)
        ensures
            ids@.to_set() == self@.experiments.dom(),
            ids@.no_duplicates(),
    {
        let mut ids: Vec<u128> = Vec::new();
        let ghost keys = self.experiments.keys().remaining();
        for key in iter: self.experiments.keys()
            invariant
                iter.seq() == keys,
                ids@.len() == iter.index(),
                forall|j: int| 0 <= j < ids@.len() ==> ids@[j] == *iter.seq()[j],
        {
            ids.push(*key);
        }
        proof {
            assert(ids@ =~= keys.unref());
        }
        ids
    }

    /// The experiment registered under the id, if there is one.
    pub fn get_experiment(&self, experiment_uuid: u128) -> (found: Option<&Experiment>)
        ensures
            match found {
                Some(experiment) => self@.experiments.contains_key(experiment_uuid)
                    && *experiment == self@.experiments[experiment_uuid],
                None => !self@.experiments.contains_key(experiment_uuid),
            },
    {
        self.experiments.get(&experiment_uuid)
    }

    /// Copies of the experiment, of its messages and of its events, or
    /// nothing where no experiment is registered under the id. An
    /// experiment without messages or events has empty ones.
    pub fn experiment_related_data(&self, experiment_uuid: u128) -> (data: Option<
        (Experiment, MessageMapping, Vec<MessageEvent>),
    >)
        ensures
            match data {
                Some((experiment, messages, events)) => {
                    &&& self@.experiments.contains_key(experiment_uuid)
                    &&& experiment.same_as(self@.experiments[experiment_uuid])
                    &&& messages.0@ == self@.messages_of(experiment_uuid)
                    &&& events@ == self@.events_of(experiment_uuid)
                },
                None => !self@.experiments.contains_key(experiment_uuid),
            },
    {
        let experiment = match self.experiments.get(&experiment_uuid) {
            Some(experiment) => experiment.copy(),
            None => {
                return None;
            },
        };
        let events = match self.events.get(&experiment_uuid) {
            Some(events) => copy_events(events),
            None => Vec::new(),
        };
        let messages = match self.messages.get(&experiment_uuid) {
            Some(mapping) => MessageMapping(mapping.0.clone()),
            None => MessageMapping(HashMap::new()),
        };
        Some((experiment, messages, events))
    }

    /// The messages of the experiment in the order in which they were
    /// inserted; none where the experiment has none.
    pub fn ordered_messages(&self, experiment_uuid: u128) -> (messages: Vec<Message>)
        ensures
            messages@ == self@.ordered_messages(experiment_uuid),
    {
        let mut messages: Vec<Message> = Vec::new();
        let ghost ids_want = self@.message_ids_of(experiment_uuid);
        let ghost map_want = self@.messages_of(experiment_uuid);
        match self.idx_experiment_to_messages.0.get(&experiment_uuid) {
            Some(ids) => {
                let mapping = self.messages.get(&experiment_uuid);
                let mut i: usize = 0;
                while i < ids.len()
                    invariant
                        i <= ids.len(),
                        ids@ == ids_want,
                        match mapping {
                            Some(found) => found.0@ == map_want,
                            None => map_want == Map::<u128, Message>::empty(),
                        },
                        messages@ == messages_in_order(ids_want.take(i as int), map_want),
                    decreases ids.len() - i,
                {
                    proof {
                        assert(ids_want.take(i + 1).drop_last() =~= ids_want.take(i as int));
                        assert(ids_want.take(i + 1).last() == ids_want[i as int]);
                    }
                    let found = match mapping {
                        Some(owned) => owned.0.get(&ids[i]),
                        None => None,
                    };
                    match found {
                        Some(message) => {
                            messages.push(*message);
                        },
                        None => {},
                    }
                    i = i + 1;
                }
                proof {
                    assert(ids_want.take(ids.len() as int) =~= ids_want);
                }
            },
            None => {},
        }
        messages
    }

    /// Everything recorded of the experiment: a copy of it, its messages in
    /// the order in which they were inserted, and its events.
    pub fn get_insights(&self, experiment_uuid: u128) -> (insights: Result<Insights, ResponseError>)
        ensures
            match insights {
                Ok(found) => {
                    &&& self@.experiments.contains_key(experiment_uuid)
                    &&& found.experiment.same_as(self@.experiments[experiment_uuid])
                    &&& found.events@ == self@.events_of(experiment_uuid)
                    &&& found.messages@ == self@.ordered_messages(experiment_uuid)
                },
                Err(e) => e == ResponseError::ExperimentNotFound
                    && !self@.experiments.contains_key(experiment_uuid),
            },
    {
        match self.experiment_related_data(experiment_uuid) {
            Some((experiment, _, events)) => Ok(
                Insights { messages: self.ordered_messages(experiment_uuid), experiment, events },
            ),
            None => Err(ResponseError::ExperimentNotFound),
        }
    }

    /// A summary of the experiment: a copy of it and how many messages and
    /// events it has.
    pub fn get_config(&self, experiment_uuid: u128) -> (overview: Result<
        ExperimentOverview,
        ResponseError,
    >)
        ensures
            match overview {
                Ok(found) => {
                    &&& self@.experiments.contains_key(experiment_uuid)
                    &&& found.experiment.same_as(self@.experiments[experiment_uuid])
                    &&& found.events == self@.events_of(experiment_uuid).len()
                    &&& found.messages == self@.messages_of(experiment_uuid).len()
                },
                Err(e) => e == ResponseError::ExperimentNotFound
                    && !self@.experiments.contains_key(experiment_uuid),
            },
    {
        match self.experiment_related_data(experiment_uuid) {
            Some((experiment, messages, events)) => Ok(
                ExperimentOverview {
                    experiment,
                    messages: messages.0.len(),
                    events: events.len(),
                },
            ),
            None => Err(ResponseError::ExperimentNotFound),
        }
    }

    /// Clears every map and index.
    pub fn reset(&mut self)
        ensures
            final(self)@ == IndexModel::empty(),
            final(self)@.wf(),
    {
        self.experiments.clear();
        self.idx_message_to_experiment.0.clear();
        self.idx_experiment_to_messages.0.clear();
        self.messages.clear();
        self.events.clear();
        proof {
            assert(final(self)@.messages =~= Map::empty());
            assert(final(self)@.events =~= Map::empty());
            assert(final(self)@.by_experiment =~= Map::empty());
        }
    }
}

impl Default for MessagesState {
    fn default() -> (state: MessagesState)
        ensures
            state@ == IndexModel::empty(),
            state@.wf(),
    {
        MessagesState::new()
    }
}

/// The experiments and the supervisor of their consume loops.
#[derive(Debug, Clone)]
pub struct State {
    /// Keeps and cancels the consume loops.
    pub consumers: Consumers,
    pub messages_state: MessagesState,
}

impl State {
    /// A state without experiments and without loops.
    pub fn new() -> (state: State)
        ensures
            state.messages_state@ == IndexModel::empty(),
            state.messages_state@.wf(),
            state.consumers.loops@ == Map::<u128, Seq<tokio::task::AbortHandle>>::empty(),
    {
        State { consumers: Consumers::new(), messages_state: MessagesState::new() }
    }

    /// The loops to start for a new experiment: one for each configuration,
    /// each reading only new records.
    pub fn loops_to_begin(consumers: &Vec<KafkaBrokerCfg>) -> (starts: Vec<LoopStart>)
        ensures
            starts@ == loop_starts(consumers@, false),
    {
        consume_loops(consumers, false)
    }

    /// The loops to start for a restored experiment: one for each
    /// configuration, each replaying from the earliest record.
    pub fn loops_to_restore(consumers: &Vec<KafkaBrokerCfg>) -> (starts: Vec<LoopStart>)
        ensures
            starts@ == loop_starts(consumers@, true),
    {
        consume_loops(consumers, true)
    }

    /// Registers an experiment that started at `now` under `uuid`, in place
    /// of what was registered there, and takes its consume loops under
    /// supervision. `handles` are those of the loops of `loops_to_begin`, one
    /// for each configuration: they join the handles kept for `uuid`.
    pub fn new_experiment(
        &mut self,
        uuid: u128,
        consumers: Vec<KafkaBrokerCfg>,
        handles: Vec<tokio::task::AbortHandle>,
        now: u128,
    )
        requires
            handles@.len() == consumers@.len(),
        ensures
            final(self).messages_state@ == old(self).messages_state@.register(
                uuid,
                Experiment {
                    uuid,
                    consumers,
                    experiment_start_timestamp_millis: now,
                    experiment_end_timestamp_millis: None,
                },
            ),
            old(self).messages_state@.wf() ==> final(self).messages_state@.wf(),
            final(self).consumers.loops@ == old(self).consumers.loops@.insert(
                uuid,
                handles_of(old(self).consumers.loops@, uuid) + handles@,
            ),
    {
        self.messages_state.register_experiment(uuid, Experiment::new(uuid, consumers, now));
        self.consumers.start_all(uuid, handles);
    }

    /// Registers an experiment under an id that the caller supplies and
    /// takes its consume loops under supervision. `handles` are those of the
    /// loops of `loops_to_restore`, one for each configuration, which replay
    /// from the earliest record. On the index and the supervisor this is
    /// what `new_experiment` does.
    pub fn restore_experiment(
        &mut self,
        uuid: u128,
        consumers: Vec<KafkaBrokerCfg>,
        handles: Vec<tokio::task::AbortHandle>,
        now: u128,
    )
        requires
            handles@.len() == consumers@.len(),
        ensures
            final(self).messages_state@ == old(self).messages_state@.register(
                uuid,
                Experiment {
                    uuid,
                    consumers,
                    experiment_start_timestamp_millis: now,
                    experiment_end_timestamp_millis: None,
                },
            ),
            old(self).messages_state@.wf() ==> final(self).messages_state@.wf(),
            final(self).consumers.loops@ == old(self).consumers.loops@.insert(
                uuid,
                handles_of(old(self).consumers.loops@, uuid) + handles@,
            ),
    {
        self.new_experiment(uuid, consumers, handles, now);
    }

    /// Registers an experiment that started at `now` under a fresh random
    /// id, that of a random UUID, takes its consume loops under supervision
    /// as `new_experiment` does, and returns the id.
    pub fn begin(
        &mut self,
        consumers: Vec<KafkaBrokerCfg>,
        handles: Vec<tokio::task::AbortHandle>,
        now: u128,
    ) -> (uuid: u128)
        requires
            handles@.len() == consumers@.len(),
        ensures
            crate::ids::is_random_uuid(uuid),
            final(self).messages_state@ == old(self).messages_state@.register(
                uuid,
                Experiment {
                    uuid,
                    consumers,
                    experiment_start_timestamp_millis: now,
                    experiment_end_timestamp_millis: None,
                },
            ),
            old(self).messages_state@.wf() ==> final(self).messages_state@.wf(),
            final(self).consumers.loops@ == old(self).consumers.loops@.insert(
                uuid,
                handles_of(old(self).consumers.loops@, uuid) + handles@,
            ),
    {
        let uuid = random_uuid();
        self.new_experiment(uuid, consumers, handles, now);
        uuid
    }

    /// Ends an experiment: cancels its consume loops, then removes it, its
    /// events and its messages from the index.
    pub fn end_experiment(&mut self, uuid: u128)
        ensures
            final(self).consumers.loops@ == old(self).consumers.loops@.remove(uuid),
            final(self).messages_state@ == old(self).messages_state@.remove_experiment(uuid),
            old(self).messages_state@.wf() ==> final(self).messages_state@.wf(),
            old(self).messages_state@.wf() ==> final(self).messages_state@.holds_nothing_of(uuid),
    {
        self.consumers.stop(uuid);
        self.messages_state.remove_experiment(uuid);
        proof {
            if old(self).messages_state@.wf() {
                lemma_remove_leaves_nothing(old(self).messages_state@, uuid);
            }
        }
    }

    /// Ends every registered experiment, then clears the index. The loops
    /// of every experiment that was registered are cancelled and forgotten.
    pub fn reset(&mut self)
        ensures
            final(self).messages_state@ == IndexModel::empty(),
            final(self).messages_state@.wf(),
            final(self).consumers.loops@ == old(self).consumers.loops@.remove_keys(
                old(self).messages_state@.experiments.dom(),
            ),
    {
        let ids = self.messages_state.list_experiments();
        let ghost loops_before = self.consumers.loops@;
        let mut i: usize = 0;
        while i < ids.len()
            invariant
                i <= ids.len(),
                self.consumers.loops@ == loops_before.remove_keys(ids@.take(i as int).to_set()),
            decreases ids.len() - i,
        {
            self.end_experiment(ids[i]);
            proof {
                let seen = ids@.take(i as int);
                let next = ids@.take(i + 1);
                assert(next =~= seen.push(ids@[i as int]));
                assert(next.to_set() =~= seen.to_set().insert(ids@[i as int])) by {
                    assert forall|x: u128| next.to_set().contains(x) <==> seen.to_set().insert(
                        ids@[i as int],
                    ).contains(x) by {
                        if seen.contains(x) {
                            let k = choose|k: int| 0 <= k < seen.len() && seen[k] == x;
                            assert(next[k] == x);
                        }
                        if x == ids@[i as int] {
                            assert(next[i as int] == x);
                        }
                    }
                }
                assert(self.consumers.loops@ =~= loops_before.remove_keys(next.to_set()));
            }
            i = i + 1;
        }
        proof {
            assert(ids@.take(ids.len() as int) =~= ids@);
        }
        self.messages_state.reset();
    }
}

impl Default for State {
    fn default() -> (state: State)
        ensures
            state.messages_state@ == IndexModel::empty(),
            state.messages_state@.wf(),
            state.consumers.loops@ == Map::<u128, Seq<tokio::task::AbortHandle>>::empty(),
    {
        State::new()
    }
}

} // verus!
