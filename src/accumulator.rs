//! The accumulator: the one message under reconstruction in a streaming session,
//! and the rule by which each protocol event changes it and what the event hands
//! on to the consumer.
//!
//! Reconciliation of live text and the final message: the text of every block
//! event is forwarded at once and is also kept as block bookkeeping in the
//! accumulated content (a block start adds its block, a delta extends the last
//! text block), so the final message holds exactly the text that was forwarded.

use crate::event::{EventModel, ServerStreamEvent};
use crate::message::{
    block_text, blocks_text, empty_message, merged, usage_merge_fits, BlockModel, Content,
    MessageModel, MessagesResponse,
};
use vstd::prelude::*;

verus! {

/// A breach of the protocol by the event sequence.
#[derive(Debug, Clone, Copy, PartialEq, Eq, Structural)]
pub enum ProtocolError {
    /// A message start carried content.
    StartNotEmpty,
    /// A message start arrived after content had been accumulated.
    StartAfterContent,
    /// A block event named a block other than block 0.
    BlockIndex(usize),
    /// Merged token usage would exceed the 64-bit counters.
    UsageOverflow,
}

/// What an event hands on to the consumer.
#[derive(Debug)]
pub enum TextStreamEvent {
    /// A piece of generated text.
    Fragment(String),
    /// The reconstructed message; always the last item of a session.
    EOF(MessagesResponse),
}

/// An outbound item, over the models of its parts.
pub enum ItemModel {
    Fragment(Seq<char>),
    Final(MessageModel),
}

impl View for TextStreamEvent {
    type V = ItemModel;

    open spec fn view(&self) -> ItemModel {
        match self {
            TextStreamEvent::Fragment(s) => ItemModel::Fragment(s@),
            TextStreamEvent::EOF(m) => ItemModel::Final(m@),
        }
    }
}

/// `m` with block `b` appended to its content.
pub open spec fn with_block(m: MessageModel, b: BlockModel) -> MessageModel {
    MessageModel { content: m.content.push(b), ..m }
}

/// `m` with the text `t` added to its content: appended to the last block where
/// that is a text block, and as a new text block otherwise.
pub open spec fn with_text(m: MessageModel, t: Seq<char>) -> MessageModel {
    if m.content.len() > 0 && m.content.last() is Text {
        MessageModel {
            content: m.content.update(
                m.content.len() - 1,
                BlockModel::Text(m.content.last()->Text_0 + t),
            ),
            ..m
        }
    } else {
        with_block(m, BlockModel::Text(t))
    }
}

/// The effect of one event on the accumulated message `acc`: the new message and
/// the item handed on, or the breach of protocol.
pub open spec fn apply_model(acc: MessageModel, e: EventModel) -> Result<
    (MessageModel, Option<ItemModel>),
    ProtocolError,
> {
    match e {
        EventModel::MessageStart(m) => if m.content.len() > 0 {
            Err(ProtocolError::StartNotEmpty)
        } else if acc.content.len() > 0 {
            Err(ProtocolError::StartAfterContent)
        } else {
            Ok((m, None))
        },
        EventModel::BlockStart { index, content } => if index != 0 {
            Err(ProtocolError::BlockIndex(index as usize))
        } else {
            Ok((with_block(acc, content), Some(ItemModel::Fragment(block_text(content)))))
        },
        EventModel::BlockDelta { index, delta } => if index != 0 {
            Err(ProtocolError::BlockIndex(index as usize))
        } else {
            Ok((with_text(acc, block_text(delta)), Some(ItemModel::Fragment(block_text(delta)))))
        },
        EventModel::BlockStop { index } => if index != 0 {
            Err(ProtocolError::BlockIndex(index as usize))
        } else {
            Ok((acc, None))
        },
        EventModel::MessageDelta(m) => if !usage_merge_fits(acc.usage, m.usage) {
            Err(ProtocolError::UsageOverflow)
        } else {
            Ok((merged(acc, m), None))
        },
        EventModel::MessageStop => Ok((empty_message(), Some(ItemModel::Final(acc)))),
        EventModel::Ping => Ok((acc, None)),
    }
}

/// The accumulated message and the items handed on after the events `events`
/// are applied in order to `acc`, or the first breach of protocol.
pub open spec fn run(acc: MessageModel, events: Seq<EventModel>) -> Result<
    (MessageModel, Seq<ItemModel>),
    ProtocolError,
>
    decreases events.len(),
{
    if events.len() == 0 {
        Ok((acc, seq![]))
    } else {
        match run(acc, events.drop_last()) {
            Err(e) => Err(e),
            Ok((a, items)) => match apply_model(a, events.last()) {
                Err(e) => Err(e),
                Ok((a2, Some(item))) => Ok((a2, items.push(item))),
                Ok((a2, None)) => Ok((a2, items)),
            },
        }
    }
}

/// The fragments among `items`, their texts concatenated in order.
pub open spec fn fragments_text(items: Seq<ItemModel>) -> Seq<char>
    decreases items.len(),
{
    if items.len() == 0 {
        seq![]
    } else {
        fragments_text(items.drop_last()) + match items.last() {
            ItemModel::Fragment(t) => t,
            ItemModel::Final(_) => seq![],
        }
    }
}

/// An event that may stand between the start and the stop of a well-formed
/// message: a block event of block 0, a message delta without content, or a ping.
pub open spec fn inner_event(e: EventModel) -> bool {
    match e {
        EventModel::BlockStart { index, .. } => index == 0,
        EventModel::BlockDelta { index, .. } => index == 0,
        EventModel::BlockStop { index } => index == 0,
        EventModel::MessageDelta(m) => m.content.len() == 0,
        EventModel::Ping => true,
        _ => false,
    }
}

/// A well-formed event sequence: a start with empty content, inner events, and a
/// stop.
pub open spec fn well_formed(events: Seq<EventModel>) -> bool {
    &&& events.len() >= 2
    &&& events[0] matches EventModel::MessageStart(m) && m.content.len() == 0
    &&& events.last() is MessageStop
    &&& forall|i: int| 0 < i < events.len() - 1 ==> inner_event(#[trigger] events[i])
}

proof fn lemma_with_text(m: MessageModel, t: Seq<char>)
    ensures
        blocks_text(with_text(m, t).content) == blocks_text(m.content) + t,
{
    let c = with_text(m, t).content;
    if m.content.len() > 0 && m.content.last() is Text {
        assert(c.drop_last() =~= m.content.drop_last());
        assert(blocks_text(m.content) == blocks_text(m.content.drop_last()) + m.content.last()->Text_0);
        assert(blocks_text(c) == blocks_text(c.drop_last()) + block_text(c.last()));
        assert(blocks_text(c) =~= blocks_text(m.content) + t);
    } else {
        assert(c.drop_last() =~= m.content);
    }
}

/// Every prefix of a well-formed sequence that stops short of its stop event runs
/// to only fragments whose text is the text of the accumulated content, or fails
/// on usage overflow.
proof fn lemma_run_prefix(events: Seq<EventModel>, k: int)
    requires
        well_formed(events),
        1 <= k < events.len(),
    ensures
        match run(empty_message(), events.take(k)) {
            Ok((acc, items)) => {
                &&& forall|i: int| 0 <= i < items.len() ==> (#[trigger] items[i]) is Fragment
                &&& blocks_text(acc.content) == fragments_text(items)
            },
            Err(e) => e == ProtocolError::UsageOverflow,
        },
    decreases k,
{
    let pre = events.take(k);
    assert(pre.drop_last() =~= events.take(k - 1));
    if k == 1 {
        assert(events.take(0) =~= seq![]);
        assert(run(empty_message(), events.take(0)) == Ok::<
            (MessageModel, Seq<ItemModel>),
            ProtocolError,
        >((empty_message(), seq![])));
        let m = events[0]->MessageStart_0;
        assert(m.content =~= seq![]);
    } else {
        lemma_run_prefix(events, k - 1);
        let e = events[k - 1];
        assert(inner_event(e));
        assert(pre.last() == e);
        match run(empty_message(), events.take(k - 1)) {
            Err(_) => {},
            Ok((acc, items)) => {
                match e {
                    EventModel::BlockStart { index, content } => {
                        let c = with_block(acc, content).content;
                        assert(c.drop_last() =~= acc.content);
                        let items2 = items.push(ItemModel::Fragment(block_text(content)));
                        assert(items2.drop_last() =~= items);
                        assert(forall|i: int| 0 <= i < items2.len() ==> (#[trigger] items2[i])
                            is Fragment) by {
                            assert(forall|i: int| 0 <= i < items.len() ==> items2[i] == items[i]);
                        }
                    },
                    EventModel::BlockDelta { index, delta } => {
                        lemma_with_text(acc, block_text(delta));
                        let items2 = items.push(ItemModel::Fragment(block_text(delta)));
                        assert(items2.drop_last() =~= items);
                        assert(forall|i: int| 0 <= i < items2.len() ==> (#[trigger] items2[i])
                            is Fragment) by {
                            assert(forall|i: int| 0 <= i < items.len() ==> items2[i] == items[i]);
                        }
                    },
                    EventModel::MessageDelta(m) => {
                        assert(acc.content + m.content =~= acc.content);
                    },
                    _ => {},
                }
            },
        }
    }
}

/// The final message of a well-formed event sequence holds exactly the text that
/// was forwarded: applied to the empty message, such a sequence hands on
/// fragments followed by one final message whose content text is the fragments'
/// text in order, and leaves the accumulator empty. The only way it can fail is
/// a usage total that exceeds the 64-bit counters.
pub proof fn final_message_holds_forwarded_text(events: Seq<EventModel>)
    requires
        well_formed(events),
    ensures
        match run(empty_message(), events) {
            Ok((acc, items)) => {
                &&& acc == empty_message()
                &&& items.len() >= 1
                &&& forall|i: int| 0 <= i < items.len() - 1 ==> (#[trigger] items[i]) is Fragment
                &&& items.last() matches ItemModel::Final(m) && blocks_text(m.content)
                    == fragments_text(items.drop_last())
            },
            Err(e) => e == ProtocolError::UsageOverflow,
        },
{
    let n = events.len() as int;
    lemma_run_prefix(events, n - 1);
    assert(events.drop_last() =~= events.take(n - 1));
    match run(empty_message(), events.take(n - 1)) {
        Err(_) => {},
        Ok((acc, items)) => {
            let items2 = items.push(ItemModel::Final(acc));
            assert(items2.drop_last() =~= items);
            assert(forall|i: int| 0 <= i < items2.len() - 1 ==> items2[i] == items[i]);
        },
    }
}

/// The optional view of an outbound item.
pub open spec fn item_view(i: Option<TextStreamEvent>) -> Option<ItemModel> {
    match i {
        Some(x) => Some(x@),
        None => None,
    }
}

/// The message under reconstruction in one streaming session.
pub struct Accumulator {
    message: MessagesResponse,
}

impl View for Accumulator {
    type V = MessageModel;

    closed spec fn view(&self) -> MessageModel {
        self.message@
    }
}

impl Accumulator {
    /// An accumulator holding the empty message.
    pub fn new() -> (r: Accumulator)
        ensures
            r@ == empty_message(),
    {
        Accumulator { message: MessagesResponse::default() }
    }

    /// Applies one event: updates the message as `apply_model` says and returns
    /// the item to hand on; on a breach of protocol the message is unchanged.
    pub fn apply(&mut self, event: ServerStreamEvent) -> (r: Result<
        Option<TextStreamEvent>,
        ProtocolError,
    >)
        ensures
            match apply_model(old(self)@, event@) {
                Ok((m, item)) => r is Ok && final(self)@ == m && item_view(r->Ok_0) == item,
                Err(e) => r == Err::<Option<TextStreamEvent>, ProtocolError>(e) && final(self)@
                    == old(self)@,
            },
            event@ matches EventModel::MessageStart(m) && m.content.len() > 0 ==> r == Err::<
                Option<TextStreamEvent>,
                ProtocolError,
            >(ProtocolError::StartNotEmpty),
            event@ matches EventModel::BlockStart { index, .. } && index != 0 ==> r is Err,
            event@ matches EventModel::BlockDelta { index, .. } && index != 0 ==> r is Err,
            event@ matches EventModel::BlockStop { index } && index != 0 ==> r is Err,
    {
        match event {
            ServerStreamEvent::MessageStart { message } => {
                if message.content.len() > 0 {
                    Err(ProtocolError::StartNotEmpty)
                } else if self.message.content.len() > 0 {
                    Err(ProtocolError::StartAfterContent)
                } else {
                    self.message = message;
                    Ok(None)
                }
            },
            ServerStreamEvent::StartBlock { index, content } => {
                if index != 0 {
                    return Err(ProtocolError::BlockIndex(index));
                }
                let text = content.fragment();
                self.message.content.push(content);
                proof {
                    assert(self.message@.content =~= old(self).message@.content.push(content@));
                    assert(self.message@ =~= with_block(old(self)@, content@));
                }
                Ok(Some(TextStreamEvent::Fragment(text)))
            },
            ServerStreamEvent::BlockDelta { index, delta } => {
                if index != 0 {
                    return Err(ProtocolError::BlockIndex(index));
                }
                let text = delta.fragment();
                self.add_text(&text);
                Ok(Some(TextStreamEvent::Fragment(text)))
            },
            ServerStreamEvent::BlockStop { index } => {
                if index != 0 {
                    return Err(ProtocolError::BlockIndex(index));
                }
                Ok(None)
            },
            ServerStreamEvent::MessageDelta { message } => {
                if !self.message.can_extend(&message) {
                    return Err(ProtocolError::UsageOverflow);
                }
                self.message.extend(message);
                Ok(None)
            },
            ServerStreamEvent::MessageStop => {
                let mut done = MessagesResponse::default();
                core::mem::swap(&mut self.message, &mut done);
                Ok(Some(TextStreamEvent::EOF(done)))
            },
            ServerStreamEvent::Ping => Ok(None),
        }
    }

    fn add_text(&mut self, text: &String)
        ensures
            final(self)@ == with_text(old(self)@, text@),
    {
        let ghost before = self.message@;
        match self.message.content.pop() {
            Some(Content::Text { text: last }) => {
                let mut joined = last;
                joined.append(text.as_str());
                self.message.content.push(Content::Text { text: joined });
                proof {
                    assert(self.message@.content =~= before.content.update(
                        before.content.len() - 1,
                        BlockModel::Text(before.content.last()->Text_0 + text@),
                    ));
                }
            },
            Some(other) => {
                self.message.content.push(other);
                self.message.content.push(Content::Text { text: text.clone() });
                proof {
                    assert(self.message@.content =~= before.content.push(BlockModel::Text(text@)));
                }
            },
            None => {
                self.message.content.push(Content::Text { text: text.clone() });
                proof {
                    assert(self.message@.content =~= before.content.push(BlockModel::Text(text@)));
                }
            },
        }
        assert(self.message@ =~= with_text(before, text@));
    }
}

} // verus!
