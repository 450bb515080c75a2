//! Per-fetch event recording and REST/gateway reconciliation.
//!
//! While a REST call is in flight, gateway dispatches that could affect its
//! returned snapshot are appended to a shared buffer; once REST returns, the
//! caller takes its slice of the buffer and folds those deltas into the
//! snapshot ([`apply_to_messages`]). Each open window is identified by the
//! absolute sequence number at which it started; the buffer is trimmed of
//! front slots that no open window still references.

use vstd::prelude::*;

use crate::api::{
    clone_opt_reactions, clone_reactions, messages_view, Emoji, Message, MessageView, Reaction,
    Snowflake,
};

verus! {

/// Events relevant to in-flight REST snapshots.
#[derive(Debug)]
pub enum RecordedEvent {
    MessageUpdated { channel_id: Snowflake, message: Message },
    MessageDeleted { channel_id: Snowflake, message_id: Snowflake },
    ReactionAdded { channel_id: Snowflake, message_id: Snowflake, emoji: Emoji, is_self: bool },
    ReactionRemoved { channel_id: Snowflake, message_id: Snowflake, emoji: Emoji, is_self: bool },
}

/// The content of a [`RecordedEvent`].
pub enum EventView {
    MessageUpdated { channel_id: Snowflake, message: MessageView },
    MessageDeleted { channel_id: Snowflake, message_id: Snowflake },
    ReactionAdded { channel_id: Snowflake, message_id: Snowflake, emoji: Emoji, is_self: bool },
    ReactionRemoved { channel_id: Snowflake, message_id: Snowflake, emoji: Emoji, is_self: bool },
}

impl View for RecordedEvent {
    type V = EventView;

    open spec fn view(&self) -> EventView {
        match self {
            RecordedEvent::MessageUpdated { channel_id, message } => EventView::MessageUpdated {
                channel_id: *channel_id,
                message: message@,
            },
            RecordedEvent::MessageDeleted { channel_id, message_id } => EventView::MessageDeleted {
                channel_id: *channel_id,
                message_id: *message_id,
            },
            RecordedEvent::ReactionAdded { channel_id, message_id, emoji, is_self } =>
                EventView::ReactionAdded {
                channel_id: *channel_id,
                message_id: *message_id,
                emoji: *emoji,
                is_self: *is_self,
            },
            RecordedEvent::ReactionRemoved { channel_id, message_id, emoji, is_self } =>
                EventView::ReactionRemoved {
                channel_id: *channel_id,
                message_id: *message_id,
                emoji: *emoji,
                is_self: *is_self,
            },
        }
    }
}

pub open spec fn events_view(es: Seq<RecordedEvent>) -> Seq<EventView> {
    es.map_values(|e: RecordedEvent| e@)
}

impl RecordedEvent {
    /// A field-by-field copy.
    pub fn duplicate(&self) -> (r: RecordedEvent)
        ensures
            r@ == self@,
    {
        match self {
            RecordedEvent::MessageUpdated { channel_id, message } => RecordedEvent::MessageUpdated {
                channel_id: *channel_id,
                message: message.duplicate(),
            },
            RecordedEvent::MessageDeleted { channel_id, message_id } =>
                RecordedEvent::MessageDeleted { channel_id: *channel_id, message_id: *message_id },
            RecordedEvent::ReactionAdded { channel_id, message_id, emoji, is_self } =>
                RecordedEvent::ReactionAdded {
                channel_id: *channel_id,
                message_id: *message_id,
                emoji: emoji.clone(),
                is_self: *is_self,
            },
            RecordedEvent::ReactionRemoved { channel_id, message_id, emoji, is_self } =>
                RecordedEvent::ReactionRemoved {
                channel_id: *channel_id,
                message_id: *message_id,
                emoji: emoji.clone(),
                is_self: *is_self,
            },
        }
    }
}

// ---------------------------------------------------------------------------
// Folding events into a message snapshot
// ---------------------------------------------------------------------------

/// A reaction entry is for `emoji`: same custom id (or both Unicode) and name.
pub open spec fn reaction_is_for(r: Reaction, emoji: Emoji) -> bool {
    r.emoji.id == emoji.id && r.emoji.name@ == emoji.name@
}

/// `k` is the first message in `ms` with id `id`.
pub open spec fn first_message_at(ms: Seq<MessageView>, id: Snowflake, k: int) -> bool {
    0 <= k < ms.len() && ms[k].id == id && forall|j: int| 0 <= j < k ==> ms[j].id != id
}

/// The first message in `ms` with id `id` (`iter_mut().find`).
pub open spec fn find_message(ms: Seq<MessageView>, id: Snowflake) -> Option<int> {
    if exists|k: int| first_message_at(ms, id, k) {
        Some(choose|k: int| first_message_at(ms, id, k))
    } else {
        None
    }
}

/// `k` is the first reaction in `rs` for `emoji`.
pub open spec fn first_reaction_at(rs: Seq<Reaction>, emoji: Emoji, k: int) -> bool {
    0 <= k < rs.len() && reaction_is_for(rs[k], emoji) && forall|j: int|
        0 <= j < k ==> !reaction_is_for(#[trigger] rs[j], emoji)
}

pub open spec fn find_reaction(rs: Seq<Reaction>, emoji: Emoji) -> Option<int> {
    if exists|k: int| first_reaction_at(rs, emoji, k) {
        Some(choose|k: int| first_reaction_at(rs, emoji, k))
    } else {
        None
    }
}

/// `MESSAGE_UPDATE`: the new payload replaces the message, except that an
/// absent `reactions` field keeps the snapshot's reactions.
pub open spec fn updated_message(old: MessageView, new: MessageView) -> MessageView {
    if new.reactions is None {
        MessageView { reactions: old.reactions, ..new }
    } else {
        new
    }
}

/// Reactions after one more `emoji` reaction (by the client user when
/// `is_self`).
pub open spec fn reactions_after_add(rs: Seq<Reaction>, emoji: Emoji, is_self: bool) -> Seq<
    Reaction,
> {
    match find_reaction(rs, emoji) {
        Some(j) => rs.update(
            j,
            Reaction {
                count: if rs[j].count == u32::MAX {
                    u32::MAX
                } else {
                    (rs[j].count + 1) as u32
                },
                me: rs[j].me || is_self,
                ..rs[j]
            },
        ),
        None => rs.push(Reaction { count: 1, emoji, me: is_self }),
    }
}

/// Reactions after one `emoji` reaction is withdrawn; an entry whose count
/// reaches zero is removed.
pub open spec fn reactions_after_remove(rs: Seq<Reaction>, emoji: Emoji, is_self: bool) -> Seq<
    Reaction,
> {
    match find_reaction(rs, emoji) {
        Some(j) => {
            let count: u32 = if rs[j].count == 0 {
                0
            } else {
                (rs[j].count - 1) as u32
            };
            if count == 0 {
                rs.remove(j)
            } else {
                rs.update(j, Reaction { count, me: if is_self { false } else { rs[j].me }, ..rs[j] })
            }
        },
        None => rs,
    }
}

/// One recorded event folded into a channel's message snapshot. Events for
/// other channels, or for messages not in the snapshot, change nothing.
pub open spec fn apply_event(ms: Seq<MessageView>, e: EventView, channel_id: Snowflake) -> Seq<
    MessageView,
> {
    match e {
        EventView::MessageUpdated { channel_id: c, message } => if c != channel_id {
            ms
        } else {
            match find_message(ms, message.id) {
                Some(i) => ms.update(i, updated_message(ms[i], message)),
                None => ms,
            }
        },
        EventView::MessageDeleted { channel_id: c, message_id } => if c != channel_id {
            ms
        } else {
            ms.filter(|m: MessageView| m.id != message_id)
        },
        EventView::ReactionAdded { channel_id: c, message_id, emoji, is_self } => if c
            != channel_id {
            ms
        } else {
            match find_message(ms, message_id) {
                Some(i) => {
                    let rs = match ms[i].reactions {
                        Some(rs) => rs,
                        None => Seq::empty(),
                    };
                    ms.update(
                        i,
                        MessageView {
                            reactions: Some(reactions_after_add(rs, emoji, is_self)),
                            ..ms[i]
                        },
                    )
                },
                None => ms,
            }
        },
        EventView::ReactionRemoved { channel_id: c, message_id, emoji, is_self } => if c
            != channel_id {
            ms
        } else {
            match find_message(ms, message_id) {
                Some(i) => match ms[i].reactions {
                    Some(rs) => ms.update(
                        i,
                        MessageView {
                            reactions: Some(reactions_after_remove(rs, emoji, is_self)),
                            ..ms[i]
                        },
                    ),
                    None => ms,
                },
                None => ms,
            }
        },
    }
}

/// Events folded in capture order, so later events win over earlier ones.
pub open spec fn apply_events(ms: Seq<MessageView>, es: Seq<EventView>, channel_id: Snowflake) -> Seq<
    MessageView,
>
    decreases es.len(),
{
    if es.len() == 0 {
        ms
    } else {
        apply_event(apply_events(ms, es.drop_last(), channel_id), es.last(), channel_id)
    }
}

/// The channel an event belongs to.
pub open spec fn event_channel(e: EventView) -> Snowflake {
    match e {
        EventView::MessageUpdated { channel_id, .. } => channel_id,
        EventView::MessageDeleted { channel_id, .. } => channel_id,
        EventView::ReactionAdded { channel_id, .. } => channel_id,
        EventView::ReactionRemoved { channel_id, .. } => channel_id,
    }
}

/// Events recorded for another channel never change a channel's snapshot.
pub proof fn law_other_channel_events_ignored(
    ms: Seq<MessageView>,
    es: Seq<EventView>,
    channel_id: Snowflake,
)
    requires
        forall|i: int| 0 <= i < es.len() ==> event_channel(#[trigger] es[i]) != channel_id,
    ensures
        apply_events(ms, es, channel_id) == ms,
    decreases es.len(),
{
    if es.len() > 0 {
        law_other_channel_events_ignored(ms, es.drop_last(), channel_id);
        assert(event_channel(es[es.len() - 1]) != channel_id);
    }
}

/// Folding events in two batches is folding them in one: the second batch
/// continues from what the first left.
pub proof fn law_fold_in_batches(
    ms: Seq<MessageView>,
    e1: Seq<EventView>,
    e2: Seq<EventView>,
    channel_id: Snowflake,
)
    ensures
        apply_events(apply_events(ms, e1, channel_id), e2, channel_id) == apply_events(ms, e1 + e2, channel_id),
    decreases e2.len(),
{
    if e2.len() == 0 {
        assert(e1 + e2 =~= e1);
    } else {
        law_fold_in_batches(ms, e1, e2.drop_last(), channel_id);
        assert((e1 + e2).drop_last() =~= e1 + e2.drop_last());
        assert((e1 + e2).last() == e2.last());
    }
}

/// A reaction added and then withdrawn by the same user leaves a reaction
/// list that had no entry for that emoji exactly as it was.
pub proof fn law_reaction_add_remove_roundtrip(rs: Seq<Reaction>, emoji: Emoji, is_self: bool)
    requires
        find_reaction(rs, emoji) is None,
    ensures
        reactions_after_remove(reactions_after_add(rs, emoji, is_self), emoji, is_self) == rs,
{
    let added = reactions_after_add(rs, emoji, is_self);
    assert(added == rs.push(Reaction { count: 1, emoji, me: is_self }));
    assert forall|k: int| !first_reaction_at(rs, emoji, k) by {
        if first_reaction_at(rs, emoji, k) {
            assert(exists|k: int| first_reaction_at(rs, emoji, k));
        }
    }
    assert forall|j: int| 0 <= j < rs.len() implies !reaction_is_for(#[trigger] rs[j], emoji) by {
        if reaction_is_for(rs[j], emoji) {
            lemma_first_reaction_exists(rs, emoji, j);
        }
    }
    let n = rs.len() as int;
    assert(first_reaction_at(added, emoji, n));
    let k = choose|k: int| first_reaction_at(added, emoji, k);
    assert(first_reaction_at(added, emoji, k));
    if k < n {
        assert(added[k] == rs[k]);
    }
    assert(k == n);
    assert(added.remove(n) =~= rs);
}

/// Withdrawing one reaction lowers the count of the first entry for the
/// emoji by exactly one and leaves every other entry as it was; the entry
/// goes away only when its count reaches zero. A list without an entry for
/// the emoji is unchanged.
pub proof fn law_remove_reaction_decrements(rs: Seq<Reaction>, emoji: Emoji, is_self: bool, j: int)
    requires
        first_reaction_at(rs, emoji, j),
    ensures
        ({
            let after = reactions_after_remove(rs, emoji, is_self);
            &&& rs[j].count > 1 ==> {
                &&& after.len() == rs.len()
                &&& after[j].count == rs[j].count - 1
                &&& after[j].emoji == rs[j].emoji
                &&& after[j].me == (rs[j].me && !is_self)
                &&& forall|k: int| 0 <= k < rs.len() && k != j ==> after[k] == rs[k]
            }
            &&& rs[j].count <= 1 ==> {
                &&& after.len() == rs.len() - 1
                &&& forall|k: int| 0 <= k < j ==> after[k] == rs[k]
                &&& forall|k: int| j < k < rs.len() ==> after[k - 1] == rs[k]
            }
        }),
{
    lemma_first_reaction_unique(rs, emoji, j);
}

/// Without an entry for the emoji, withdrawing a reaction changes nothing.
pub proof fn law_remove_absent_reaction(rs: Seq<Reaction>, emoji: Emoji, is_self: bool)
    requires
        forall|k: int| 0 <= k < rs.len() ==> !reaction_is_for(#[trigger] rs[k], emoji),
    ensures
        reactions_after_remove(rs, emoji, is_self) == rs,
{
    assert forall|k: int| !first_reaction_at(rs, emoji, k) by {
        if 0 <= k < rs.len() {
            assert(!reaction_is_for(rs[k], emoji));
        }
    }
}

/// Adding a reaction raises the count of the first entry for the emoji by
/// one (saturating) and leaves every other entry as it was; without an
/// entry, one with count one is appended.
pub proof fn law_add_reaction_increments(rs: Seq<Reaction>, emoji: Emoji, is_self: bool)
    ensures
        ({
            let after = reactions_after_add(rs, emoji, is_self);
            &&& (forall|j: int| #[trigger] first_reaction_at(rs, emoji, j) ==> {
                &&& after.len() == rs.len()
                &&& rs[j].count < u32::MAX ==> after[j].count == rs[j].count + 1
                &&& after[j].emoji == rs[j].emoji
                &&& after[j].me == (rs[j].me || is_self)
                &&& forall|k: int| 0 <= k < rs.len() && k != j ==> after[k] == rs[k]
            })
            &&& (forall|k: int| 0 <= k < rs.len() ==> !reaction_is_for(#[trigger] rs[k], emoji)) ==> after
                == rs.push(Reaction { count: 1, emoji, me: is_self })
        }),
{
    assert forall|j: int| #[trigger] first_reaction_at(rs, emoji, j) implies find_reaction(rs, emoji) == Some(j) by {
        lemma_first_reaction_unique(rs, emoji, j);
    }
    if forall|k: int| 0 <= k < rs.len() ==> !reaction_is_for(#[trigger] rs[k], emoji) {
        assert forall|k: int| !first_reaction_at(rs, emoji, k) by {
            if 0 <= k < rs.len() {
                assert(!reaction_is_for(rs[k], emoji));
            }
        }
    }
}

proof fn lemma_first_reaction_unique(rs: Seq<Reaction>, emoji: Emoji, j: int)
    requires
        first_reaction_at(rs, emoji, j),
    ensures
        find_reaction(rs, emoji) == Some(j),
{
    let k = choose|k: int| first_reaction_at(rs, emoji, k);
    assert(first_reaction_at(rs, emoji, k));
    if k < j {
        assert(!reaction_is_for(rs[k], emoji));
    }
    if j < k {
        assert(!reaction_is_for(rs[j], emoji));
    }
}

/// A deletion in the channel removes every message with that id and keeps
/// every other message, in order.
pub proof fn law_delete_removes_exactly_that_message(ms: Seq<MessageView>, channel_id: Snowflake, id: Snowflake)
    ensures
        ({
            let after = apply_event(ms, EventView::MessageDeleted { channel_id, message_id: id }, channel_id);
            &&& forall|k: int| 0 <= k < after.len() ==> (#[trigger] after[k]).id != id
            &&& forall|m: MessageView| #[trigger] after.contains(m) <==> (ms.contains(m) && m.id != id)
            &&& (forall|k: int| 0 <= k < ms.len() ==> (#[trigger] ms[k]).id != id) ==> after == ms
        }),
{
    broadcast use vstd::seq_lib::group_filter_ensures;

    let pred = |m: MessageView| m.id != id;
    let after = ms.filter(pred);
    assert forall|m: MessageView| #[trigger] after.contains(m) <==> (ms.contains(m) && m.id != id) by {
        if after.contains(m) {
            ms.lemma_filter_contains_rev(pred, m);
            let k = choose|k: int| 0 <= k < after.len() && after[k] == m;
            assert(pred(after[k]));
        }
        if ms.contains(m) && m.id != id {
            let k = choose|k: int| 0 <= k < ms.len() && ms[k] == m;
            ms.lemma_filter_contains(pred, k);
        }
    }
    if forall|k: int| 0 <= k < ms.len() ==> (#[trigger] ms[k]).id != id {
        lemma_filter_keeps_all(ms, pred);
    }
}

/// A reaction event in the channel touches only the reactions of the first
/// message with its message id: an addition to a message without reactions
/// gives it one entry with count one; a withdrawal from a message without
/// reactions changes nothing; all other messages and fields stay.
pub proof fn law_reaction_events_touch_one_message(
    ms: Seq<MessageView>,
    channel_id: Snowflake,
    message_id: Snowflake,
    emoji: Emoji,
    is_self: bool,
    i: int,
)
    requires
        first_message_at(ms, message_id, i),
    ensures
        ({
            let added = apply_event(
                ms,
                EventView::ReactionAdded { channel_id, message_id, emoji, is_self },
                channel_id,
            );
            let removed = apply_event(
                ms,
                EventView::ReactionRemoved { channel_id, message_id, emoji, is_self },
                channel_id,
            );
            &&& added.len() == ms.len() && removed.len() == ms.len()
            &&& forall|k: int| 0 <= k < ms.len() && k != i ==> added[k] == ms[k] && removed[k] == ms[k]
            &&& added[i].id == ms[i].id && added[i].content == ms[i].content
            &&& removed[i].id == ms[i].id && removed[i].content == ms[i].content
            &&& ms[i].reactions is None ==> added[i].reactions == Some(
                seq![Reaction { count: 1, emoji, me: is_self }],
            ) && removed[i] == ms[i]
            &&& ms[i].reactions matches Some(rs) ==> added[i].reactions == Some(
                reactions_after_add(rs, emoji, is_self),
            ) && removed[i].reactions == Some(reactions_after_remove(rs, emoji, is_self))
        }),
{
    let k = choose|k: int| first_message_at(ms, message_id, k);
    assert(first_message_at(ms, message_id, k));
    if k < i {
        assert(ms[k].id != message_id);
    }
    if i < k {
        assert(ms[i].id != message_id);
    }
    if ms[i].reactions is None {
        let e = Seq::<Reaction>::empty();
        assert forall|j: int| !first_reaction_at(e, emoji, j) by {}
        assert(e.push(Reaction { count: 1, emoji, me: is_self }) =~= seq![Reaction { count: 1, emoji, me: is_self }]);
    }
}

proof fn lemma_filter_keeps_all(ms: Seq<MessageView>, pred: spec_fn(MessageView) -> bool)
    requires
        forall|k: int| 0 <= k < ms.len() ==> pred(#[trigger] ms[k]),
    ensures
        ms.filter(pred) == ms,
    decreases ms.len(),
{
    reveal_with_fuel(Seq::filter, 1);
    if ms.len() > 0 {
        let init = ms.drop_last();
        assert forall|k: int| 0 <= k < init.len() implies pred(#[trigger] init[k]) by {
            assert(init[k] == ms[k]);
        }
        lemma_filter_keeps_all(init, pred);
        assert(pred(ms[ms.len() - 1]));
        assert(init.push(ms.last()) =~= ms);
    }
}

/// An update in the channel of a message in the snapshot replaces the first
/// message with that id by the update, keeping the snapshot's reactions
/// when the update carries none; every other message stays.
pub proof fn law_update_replaces_message(ms: Seq<MessageView>, channel_id: Snowflake, m: MessageView, i: int)
    requires
        first_message_at(ms, m.id, i),
    ensures
        ({
            let after = apply_event(ms, EventView::MessageUpdated { channel_id, message: m }, channel_id);
            &&& after.len() == ms.len()
            &&& forall|k: int| 0 <= k < ms.len() && k != i ==> after[k] == ms[k]
            &&& after[i].id == m.id && after[i].content == m.content && after[i].author == m.author
                && after[i].edited_timestamp == m.edited_timestamp
            &&& after[i].reactions == (if m.reactions is Some {
                m.reactions
            } else {
                ms[i].reactions
            })
        }),
{
    let k = choose|k: int| first_message_at(ms, m.id, k);
    assert(first_message_at(ms, m.id, k));
    if k < i {
        assert(ms[k].id != m.id);
    }
    if i < k {
        assert(ms[i].id != m.id);
    }
}

/// Some position holding a reaction for `emoji` implies a first one.
proof fn lemma_first_reaction_exists(rs: Seq<Reaction>, emoji: Emoji, j: int)
    requires
        0 <= j < rs.len(),
        reaction_is_for(rs[j], emoji),
    ensures
        exists|k: int| first_reaction_at(rs, emoji, k),
    decreases j,
{
    if forall|i: int| 0 <= i < j ==> !reaction_is_for(#[trigger] rs[i], emoji) {
        assert(first_reaction_at(rs, emoji, j));
    } else {
        let i = choose|i: int| 0 <= i < j && reaction_is_for(#[trigger] rs[i], emoji);
        lemma_first_reaction_exists(rs, emoji, i);
    }
}

/// Whether `reaction` is for `emoji`.
pub fn reaction_matches(reaction: &Reaction, emoji: &Emoji) -> (r: bool)
    ensures
        r == reaction_is_for(*reaction, *emoji),
{
    reaction.emoji.id == emoji.id && reaction.emoji.name == emoji.name
}

fn find_message_index(ms: &Vec<Message>, id: Snowflake) -> (r: Option<usize>)
    ensures
        match r {
            Some(i) => find_message(messages_view(ms@), id) == Some(i as int) && i < ms@.len(),
            None => find_message(messages_view(ms@), id) is None,
        },
{
    let ghost v = messages_view(ms@);
    let mut i: usize = 0;
    while i < ms.len()
        invariant
            0 <= i <= ms@.len(),
            v == messages_view(ms@),
            forall|j: int| 0 <= j < i ==> v[j].id != id,
        decreases ms@.len() - i,
    {
        if ms[i].id == id {
            proof {
                assert(first_message_at(v, id, i as int));
                let k = choose|k: int| first_message_at(v, id, k);
                assert(first_message_at(v, id, k));
                if k < i {
                    assert(v[k].id != id);
                }
                if i < k {
                    assert(v[i as int].id != id);
                }
            }
            return Some(i);
        }
        assert(v[i as int].id == ms@[i as int].id);
        i += 1;
    }
    proof {
        assert forall|k: int| !first_message_at(v, id, k) by {
            if 0 <= k < v.len() {
                assert(v[k].id != id);
            }
        }
    }
    None
}

fn find_reaction_index(rs: &Vec<Reaction>, emoji: &Emoji) -> (r: Option<usize>)
    ensures
        match r {
            Some(j) => find_reaction(rs@, *emoji) == Some(j as int) && j < rs@.len(),
            None => find_reaction(rs@, *emoji) is None,
        },
{
    let mut i: usize = 0;
    while i < rs.len()
        invariant
            0 <= i <= rs@.len(),
            forall|j: int| 0 <= j < i ==> !reaction_is_for(#[trigger] rs@[j], *emoji),
        decreases rs@.len() - i,
    {
        if reaction_matches(&rs[i], emoji) {
            proof {
                assert(first_reaction_at(rs@, *emoji, i as int));
                let k = choose|k: int| first_reaction_at(rs@, *emoji, k);
                assert(first_reaction_at(rs@, *emoji, k));
                if k < i {
                    assert(!reaction_is_for(rs@[k], *emoji));
                }
                if i < k {
                    assert(!reaction_is_for(rs@[i as int], *emoji));
                }
            }
            return Some(i);
        }
        i += 1;
    }
    proof {
        assert forall|k: int| !first_reaction_at(rs@, *emoji, k) by {
            if 0 <= k < rs@.len() {
                assert(!reaction_is_for(rs@[k], *emoji));
            }
        }
    }
    None
}

proof fn lemma_view_update(ms: Seq<Message>, i: int, m: Message)
    requires
        0 <= i < ms.len(),
    ensures
        messages_view(ms.update(i, m)) == messages_view(ms).update(i, m@),
{
    assert(messages_view(ms.update(i, m)) =~= messages_view(ms).update(i, m@));
}

fn add_reaction(rs: &mut Vec<Reaction>, emoji: &Emoji, is_self: bool)
    ensures
        final(rs)@ == reactions_after_add(old(rs)@, *emoji, is_self),
{
    match find_reaction_index(rs, emoji) {
        Some(j) => {
            let r = &rs[j];
            let updated = Reaction {
                count: r.count.saturating_add(1),
                me: r.me || is_self,
                emoji: r.emoji.clone(),
            };
            rs.set(j, updated);
        },
        None => {
            rs.push(Reaction { count: 1, emoji: emoji.clone(), me: is_self });
        },
    }
}

fn remove_reaction(rs: &mut Vec<Reaction>, emoji: &Emoji, is_self: bool)
    ensures
        final(rs)@ == reactions_after_remove(old(rs)@, *emoji, is_self),
{
    if let Some(j) = find_reaction_index(rs, emoji) {
        let count = rs[j].count.saturating_sub(1);
        if count == 0 {
            rs.remove(j);
        } else {
            let me = if is_self {
                false
            } else {
                rs[j].me
            };
            let updated = Reaction { count, me, emoji: rs[j].emoji.clone() };
            rs.set(j, updated);
        }
    }
}

fn apply_one(ms: &mut Vec<Message>, event: &RecordedEvent, channel_id: Snowflake)
    ensures
        messages_view(final(ms)@) == apply_event(messages_view(old(ms)@), event@, channel_id),
{
    match event {
        RecordedEvent::MessageUpdated { channel_id: c, message } => {
            if *c == channel_id {
                if let Some(i) = find_message_index(ms, message.id) {
                    let mut replacement = message.duplicate();
                    if replacement.reactions.is_none() {
                        replacement.reactions = clone_opt_reactions(&ms[i].reactions);
                    }
                    proof {
                        lemma_view_update(ms@, i as int, replacement);
                    }
                    ms.set(i, replacement);
                }
            }
        },
        RecordedEvent::MessageDeleted { channel_id: c, message_id } => {
            if *c == channel_id {
                let ghost v = messages_view(ms@);
                let ghost keep = |m: MessageView| m.id != *message_id;
                let mut kept: Vec<Message> = Vec::new();
                let mut i: usize = 0;
                while i < ms.len()
                    invariant
                        0 <= i <= ms@.len(),
                        v == messages_view(ms@),
                        keep == (|m: MessageView| m.id != *message_id),
                        messages_view(kept@) == v.take(i as int).filter(keep),
                    decreases ms@.len() - i,
                {
                    proof {
                        reveal_with_fuel(Seq::filter, 1);
                        assert(v.take(i + 1).drop_last() =~= v.take(i as int));
                        assert(v.take(i + 1).last() == v[i as int]);
                    }
                    if ms[i].id != *message_id {
                        let ghost before = kept@;
                        kept.push(ms[i].duplicate());
                        assert(messages_view(kept@) =~= messages_view(before).push(v[i as int]));
                    }
                    i += 1;
                }
                assert(v.take(ms@.len() as int) =~= v);
                *ms = kept;
            }
        },
        RecordedEvent::ReactionAdded { channel_id: c, message_id, emoji, is_self } => {
            if *c == channel_id {
                if let Some(i) = find_message_index(ms, *message_id) {
                    let mut rs = match &ms[i].reactions {
                        Some(v) => clone_reactions(v),
                        None => Vec::new(),
                    };
                    add_reaction(&mut rs, emoji, *is_self);
                    let mut replacement = ms[i].duplicate();
                    replacement.reactions = Some(rs);
                    proof {
                        lemma_view_update(ms@, i as int, replacement);
                        assert(replacement@ == MessageView {
                            reactions: replacement@.reactions,
                            ..messages_view(ms@)[i as int]
                        });
                    }
                    ms.set(i, replacement);
                }
            }
        },
        RecordedEvent::ReactionRemoved { channel_id: c, message_id, emoji, is_self } => {
            if *c == channel_id {
                if let Some(i) = find_message_index(ms, *message_id) {
                    if let Some(v) = &ms[i].reactions {
                        let mut rs = clone_reactions(v);
                        remove_reaction(&mut rs, emoji, *is_self);
                        let mut replacement = ms[i].duplicate();
                        replacement.reactions = Some(rs);
                        proof {
                            lemma_view_update(ms@, i as int, replacement);
                            assert(replacement@ == MessageView {
                                reactions: replacement@.reactions,
                                ..messages_view(ms@)[i as int]
                            });
                        }
                        ms.set(i, replacement);
                    }
                }
            }
        },
    }
}

/// Fold recorded events into a REST-fetched message list scoped to one
/// channel. Events for other channels or unrelated message ids are ignored;
/// events are applied in capture order, so later events win.
pub fn apply_to_messages(messages: Vec<Message>, events: Vec<RecordedEvent>, channel_id: Snowflake) -> (r:
    Vec<Message>)
    ensures
        messages_view(r@) == apply_events(messages_view(messages@), events_view(events@), channel_id),
{
    let mut ms = messages;
    let mut k: usize = 0;
    while k < events.len()
        invariant
            0 <= k <= events@.len(),
            messages_view(ms@) == apply_events(
                messages_view(messages@),
                events_view(events@.take(k as int)),
                channel_id,
            ),
        decreases events@.len() - k,
    {
        apply_one(&mut ms, &events[k], channel_id);
        proof {
            let es = events_view(events@.take(k + 1));
            assert(es.drop_last() =~= events_view(events@.take(k as int)));
            assert(es.last() == events@[k as int]@);
        }
        k += 1;
    }
    assert(events@.take(events@.len() as int) =~= events@);
    ms
}

// ---------------------------------------------------------------------------
// The recording buffer
// ---------------------------------------------------------------------------

/// The shared recording buffer. Slot `i` of `buffer` holds the event with
/// absolute sequence number `front_seq + i`; `active_starts` holds the start
/// sequence of every open window (duplicates allowed).
pub struct RecordingState {
    buffer: Vec<RecordedEvent>,
    front_seq: u64,
    active_starts: Vec<u64>,
}

impl RecordingState {
    pub closed spec fn front(&self) -> int {
        self.front_seq as int
    }

    /// The buffered events, oldest first.
    pub closed spec fn buffered(&self) -> Seq<EventView> {
        events_view(self.buffer@)
    }

    /// Start sequences of the open windows.
    pub closed spec fn active(&self) -> Seq<u64> {
        self.active_starts@
    }

    /// The sequence number the next recorded event gets.
    pub open spec fn next_seq(&self) -> int {
        self.front() + self.buffered().len()
    }

    /// Internal consistency: every open window starts inside the buffer,
    /// nothing is buffered while no window is open, and sequence numbers fit
    /// in a `u64`.
    pub closed spec fn wf(&self) -> bool {
        &&& self.front_seq + self.buffer@.len() <= u64::MAX
        &&& forall|i: int|
            0 <= i < self.active_starts@.len() ==> self.front_seq <= #[trigger] self.active_starts@[i]
                <= self.front_seq + self.buffer@.len()
        &&& self.active_starts@.len() == 0 ==> self.buffer@.len() == 0
    }

    /// The events a window started at `start` has seen so far.
    pub open spec fn window_events(&self, start: u64) -> Seq<EventView> {
        self.buffered().skip(start - self.front())
    }

    /// Empty buffer, no open window.
    pub fn new() -> (r: Self)
        ensures
            r.wf(),
            r.active().len() == 0,
            r.buffered().len() == 0,
    {
        RecordingState { buffer: Vec::new(), front_seq: 0, active_starts: Vec::new() }
    }

    /// Open a window: returns its start sequence. The new window has seen no
    /// events; the windows already open keep theirs.
    pub fn start_recording(&mut self) -> (start: u64)
        requires
            old(self).wf(),
        ensures
            final(self).wf(),
            start == old(self).next_seq(),
            final(self).active() == old(self).active().push(start),
            final(self).buffered() == old(self).buffered(),
            final(self).front() == old(self).front(),
            final(self).window_events(start).len() == 0,
    {
        let start = self.front_seq + self.buffer.len() as u64;
        self.active_starts.push(start);
        proof {
            assert forall|i: int| 0 <= i < self.active_starts@.len() implies self.front_seq
                <= #[trigger] self.active_starts@[i] <= self.front_seq + self.buffer@.len() by {
                if i < old(self).active_starts@.len() {
                    assert(self.active_starts@[i] == old(self).active_starts@[i]);
                }
            }
        }
        start
    }

    /// Record `event` if any window is open: every open window sees it as
    /// its newest event. With no window open nothing changes.
    pub fn maybe_record(&mut self, event: RecordedEvent)
        requires
            old(self).wf(),
            old(self).next_seq() < u64::MAX,
        ensures
            final(self).wf(),
            final(self).active() == old(self).active(),
            final(self).front() == old(self).front(),
            old(self).active().len() > 0 ==> final(self).buffered() == old(self).buffered().push(
                event@,
            ),
            old(self).active().len() == 0 ==> final(self).buffered() == old(self).buffered(),
    {
        if !self.active_starts.is_empty() {
            let ghost before = self.buffer@;
            self.buffer.push(event);
            assert(events_view(self.buffer@) =~= events_view(before).push(event@));
        }
    }

    /// The events recorded since the window started at `start` opened,
    /// oldest first. Non-destructive.
    pub fn take(&self, start: u64) -> (r: Vec<RecordedEvent>)
        requires
            self.wf(),
            self.active().contains(start),
        ensures
            events_view(r@) == self.window_events(start),
    {
        let blen = self.buffer.len();
        proof {
            let w = choose|w: int| 0 <= w < self.active_starts@.len() && self.active_starts@[w] == start;
            assert(self.front_seq <= self.active_starts@[w] <= self.front_seq + self.buffer@.len());
        }
        let offset = (start - self.front_seq) as usize;
        let mut out: Vec<RecordedEvent> = Vec::new();
        let mut i = offset;
        while i < self.buffer.len()
            invariant
                offset <= i <= self.buffer@.len(),
                offset == start - self.front_seq,
                events_view(out@) == events_view(self.buffer@).subrange(offset as int, i as int),
            decreases self.buffer@.len() - i,
        {
            let ghost before = out@;
            out.push(self.buffer[i].duplicate());
            assert(events_view(out@) =~= events_view(before).push(self.buffer@[i as int]@));
            assert(events_view(out@) =~= events_view(self.buffer@).subrange(offset as int, i + 1));
            i += 1;
        }
        assert(events_view(self.buffer@).subrange(offset as int, self.buffer@.len() as int)
            =~= self.window_events(start));
        out
    }

    /// Close the window started at `start`: one entry for `start` leaves the
    /// open set, and front slots no remaining window references are dropped.
    /// Every remaining window keeps exactly the events it had seen.
    pub fn end_recording(&mut self, start: u64)
        requires
            old(self).wf(),
            old(self).active().contains(start),
        ensures
            final(self).wf(),
            final(self).active().len() == old(self).active().len() - 1,
            final(self).active().to_multiset() == old(self).active().to_multiset().remove(start),
            forall|a: u64|
                #[trigger] final(self).active().contains(a) ==> final(self).window_events(a)
                    == old(self).window_events(a),
            final(self).active().len() == 0 ==> final(self).buffered().len() == 0,
    {
        broadcast use vstd::seq_lib::group_to_multiset_ensures;
        broadcast use vstd::multiset::group_multiset_axioms;

        let ghost old_active = self.active_starts@;
        let ghost old_buffer = events_view(self.buffer@);
        let ghost old_front = self.front_seq;
        let mut pos: usize = 0;
        while pos < self.active_starts.len() && self.active_starts[pos] != start
            invariant
                0 <= pos <= self.active_starts@.len(),
                self.active_starts@ == old_active,
                old_active.contains(start),
                forall|j: int| 0 <= j < pos ==> old_active[j] != start,
            decreases self.active_starts@.len() - pos,
        {
            pos += 1;
        }
        if pos == self.active_starts.len() {
            proof {
                let w = choose|w: int| 0 <= w < old_active.len() && old_active[w] == start;
                assert(old_active[w] == start);
            }
            return;
        }
        self.active_starts.swap_remove(pos);
        proof {
            lemma_swap_remove_multiset(old_active, pos as int);
        }
        if self.active_starts.is_empty() {
            let blen = self.buffer.len();
            assert(self.front_seq + blen <= u64::MAX);
            self.front_seq = self.front_seq + blen as u64;
            self.buffer.clear();
        } else {
            let mut new_front = self.active_starts[0];
            let mut i: usize = 1;
            while i < self.active_starts.len()
                invariant
                    1 <= i <= self.active_starts@.len(),
                    exists|j: int| 0 <= j < i && self.active_starts@[j] == new_front,
                    forall|j: int| 0 <= j < i ==> new_front <= #[trigger] self.active_starts@[j],
                decreases self.active_starts@.len() - i,
            {
                if self.active_starts[i] < new_front {
                    new_front = self.active_starts[i];
                }
                i += 1;
            }
            proof {
                let j = choose|j: int| 0 <= j < self.active_starts@.len() && self.active_starts@[j] == new_front;
                assert(self.active_starts@.contains(new_front));
                assert(self.active_starts@.to_multiset().count(new_front) > 0);
                assert(old_active.to_multiset().count(new_front) > 0);
                assert(old_active.contains(new_front));
                let w = choose|w: int| 0 <= w < old_active.len() && old_active[w] == new_front;
                assert(old_front <= old_active[w] <= old_front + old_buffer.len());
            }
            let blen = self.buffer.len();
            assert(new_front - self.front_seq <= blen);
            let drain_count = (new_front - self.front_seq) as usize;
            let tail = self.buffer.split_off(drain_count);
            self.buffer = tail;
            self.front_seq = new_front;
            proof {
                assert(events_view(self.buffer@) =~= old_buffer.skip(drain_count as int));
                assert forall|a: u64| #[trigger] self.active_starts@.contains(a) implies old_active.contains(a)
                    && new_front <= a by {
                    let k = choose|k: int| 0 <= k < self.active_starts@.len() && self.active_starts@[k] == a;
                    assert(new_front <= self.active_starts@[k]);
                    assert(self.active_starts@.to_multiset().count(a) > 0);
                    assert(old_active.to_multiset().count(a) > 0);
                }
                assert forall|i: int| 0 <= i < self.active_starts@.len() implies self.front_seq
                    <= #[trigger] self.active_starts@[i] <= self.front_seq + self.buffer@.len() by {
                    let a = self.active_starts@[i];
                    assert(self.active_starts@.contains(a));
                    assert(old_active.contains(a));
                    let w = choose|w: int| 0 <= w < old_active.len() && old_active[w] == a;
                    assert(old_front <= old_active[w] <= old_front + old_buffer.len());
                }
                assert forall|a: u64| #[trigger] self.active_starts@.contains(a) implies self.window_events(a)
                    == old_buffer.skip(a - old_front) by {
                    assert(old_active.contains(a));
                    let w = choose|w: int| 0 <= w < old_active.len() && old_active[w] == a;
                    assert(old_front <= old_active[w] <= old_front + old_buffer.len());
                    assert(self.window_events(a) =~= old_buffer.skip(a - old_front));
                }
            }
        }
    }
}

/// One change of the recording buffer, as the operations state it.
pub enum WindowStep {
    /// `start_recording`.
    Open,
    /// `maybe_record` of an event.
    Record(EventView),
    /// `end_recording` of the window started at the given sequence.
    Close(u64),
}

/// `after` is what `step` may leave of `before`, by the operations'
/// contracts.
pub open spec fn step_allowed(before: RecordingState, after: RecordingState, step: WindowStep) -> bool {
    &&& after.wf()
    &&& match step {
        WindowStep::Open => {
            &&& after.active() == before.active().push(before.next_seq() as u64)
            &&& after.buffered() == before.buffered()
            &&& after.front() == before.front()
        },
        WindowStep::Record(e) => {
            &&& after.active() == before.active()
            &&& after.front() == before.front()
            &&& before.active().len() > 0 ==> after.buffered() == before.buffered().push(e)
            &&& before.active().len() == 0 ==> after.buffered() == before.buffered()
        },
        WindowStep::Close(start) => {
            &&& after.active().to_multiset() == before.active().to_multiset().remove(start)
            &&& forall|a: u64| #[trigger]
                after.active().contains(a) ==> after.window_events(a) == before.window_events(a)
        },
    }
}

/// The events a run of steps records.
pub open spec fn recorded_events(steps: Seq<WindowStep>) -> Seq<EventView>
    decreases steps.len(),
{
    if steps.len() == 0 {
        Seq::empty()
    } else {
        let rest = recorded_events(steps.drop_last());
        match steps.last() {
            WindowStep::Record(e) => rest.push(e),
            _ => rest,
        }
    }
}

/// Over any interleaving of openings, recordings and closings of other
/// windows, a window that stays open sees exactly the events recorded
/// meanwhile, in order, after the ones it had already seen.
pub proof fn law_window_sees_recorded_events(trace: Seq<RecordingState>, steps: Seq<WindowStep>, a: u64)
    requires
        trace.len() == steps.len() + 1,
        trace[0].wf(),
        forall|i: int| 0 <= i < steps.len() ==> step_allowed(#[trigger] trace[i], trace[i + 1], steps[i]),
        forall|i: int| 0 <= i < trace.len() ==> (#[trigger] trace[i]).active().contains(a),
    ensures
        trace.last().window_events(a) == trace[0].window_events(a) + recorded_events(steps),
    decreases steps.len(),
{
    let n = steps.len() as int;
    if n == 0 {
        assert(trace[0].window_events(a) + Seq::<EventView>::empty() =~= trace[0].window_events(a));
    } else {
        let t = trace.drop_last();
        let st = steps.drop_last();
        assert forall|i: int| 0 <= i < st.len() implies step_allowed(#[trigger] t[i], t[i + 1], st[i]) by {
            assert(t[i] == trace[i] && t[i + 1] == trace[i + 1] && st[i] == steps[i]);
        }
        assert forall|i: int| 0 <= i < t.len() implies (#[trigger] t[i]).active().contains(a) by {
            assert(t[i] == trace[i]);
        }
        law_window_sees_recorded_events(t, st, a);
        let before = trace[n - 1];
        let after = trace[n];
        assert(step_allowed(trace[n - 1], trace[n], steps[n - 1]));
        assert(before.active().contains(a));
        assert(after.active().contains(a));
        if n - 1 > 0 {
            assert(step_allowed(trace[n - 2], trace[n - 1], steps[n - 2]));
        }
        assert(before.wf());
        match steps[n - 1] {
            WindowStep::Open => {
                assert(after.window_events(a) =~= before.window_events(a));
            },
            WindowStep::Record(e) => {
                let w = choose|w: int| 0 <= w < before.active_starts@.len() && before.active_starts@[w] == a;
                assert(before.front_seq <= before.active_starts@[w] <= before.front_seq + before.buffer@.len());
                assert(before.active().len() > 0);
                assert(after.window_events(a) =~= before.window_events(a).push(e));
            },
            WindowStep::Close(s) => {},
        }
        assert(trace.last() == after);
        assert(t.last() == before);
        assert(t[0] == trace[0]);
    }
}

impl Default for RecordingState {
    fn default() -> (r: Self)
        ensures
            r.wf(),
            r.active().len() == 0,
            r.buffered().len() == 0,
    {
        RecordingState::new()
    }
}

proof fn lemma_swap_remove_multiset(s: Seq<u64>, i: int)
    requires
        0 <= i < s.len(),
    ensures
        s.update(i, s.last()).drop_last().to_multiset() == s.to_multiset().remove(s[i]),
{
    broadcast use vstd::seq_lib::group_to_multiset_ensures;
    broadcast use vstd::multiset::group_multiset_axioms;

    let t = s.update(i, s.last()).drop_last();
    if i == s.len() - 1 {
        assert(t =~= s.remove(i));
    } else {
        let w = s.remove(i).drop_last();
        assert(t.remove(i) =~= w);
        assert(s.remove(i) =~= w.push(s.last()));
        assert(t[i] == s.last());
        assert(t.to_multiset().count(s.last()) > 0) by {
            assert(t.contains(s.last()));
        }
        assert(t.remove(i).to_multiset() =~= t.to_multiset().remove(t[i]));
        assert(w.push(s.last()).to_multiset() =~= w.to_multiset().insert(s.last()));
        assert(s.remove(i).to_multiset() =~= s.to_multiset().remove(s[i]));
        assert(t.to_multiset() =~= w.to_multiset().insert(s.last()));
    }
}

} // verus!
