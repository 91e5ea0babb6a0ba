use vstd::prelude::*;

use crate::text::{decimal, i64_to_string};

verus! {

/// Kind of a user-facing message, from the mildest to the most severe.
#[derive(Clone, Copy, Debug, PartialEq, Eq, Structural)]
pub enum MessageKind {
    Neutral,
    Success,
    Information,
    Warning,
    Error,
    Stop,
}

/// Rank of a kind: a list of messages takes the kind of its most severe one.
pub open spec fn severity(k: MessageKind) -> int {
    match k {
        MessageKind::Neutral => 0,
        MessageKind::Success => 1,
        MessageKind::Information => 2,
        MessageKind::Warning => 3,
        MessageKind::Error => 4,
        MessageKind::Stop => 5,
    }
}

/// The more severe of two kinds.
pub open spec fn worse(a: MessageKind, b: MessageKind) -> MessageKind {
    if severity(b) > severity(a) { b } else { a }
}

/// A record that a message refers to.
pub struct ParamItem {
    pub id: String,
    pub uuid: Option<u128>,
}

pub struct ParamItemView {
    pub id: Seq<char>,
    pub uuid: Option<u128>,
}

impl View for ParamItem {
    type V = ParamItemView;

    open spec fn view(&self) -> ParamItemView {
        ParamItemView { id: self.id@, uuid: self.uuid }
    }
}

/// The views of a list of parameter items.
pub open spec fn items_view(v: Seq<ParamItem>) -> Seq<ParamItemView> {
    v.map_values(|p: ParamItem| p@)
}

/// The views of a list of strings.
pub open spec fn strings_view(v: Seq<String>) -> Seq<Seq<char>> {
    v.map_values(|s: String| s@)
}

impl ParamItem {
    /// A parameter that names a record by its number.
    pub fn from_id(id: i64) -> (p: ParamItem)
        ensures
            p@ == (ParamItemView { id: decimal(id as int), uuid: None }),
    {
        ParamItem { id: i64_to_string(id), uuid: None }
    }

    /// A parameter that names a record by its uuid only.
    pub fn from_uuid(uuid: Option<u128>) -> (p: ParamItem)
        ensures
            p@ == (ParamItemView { id: Seq::<char>::empty(), uuid: uuid }),
    {
        ParamItem { id: String::new(), uuid }
    }
}

/// A message shown to the user.
pub struct Message {
    pub kind: MessageKind,
    pub text: String,
    /// Names of the fields that the message is about.
    pub fields: Vec<String>,
    /// Records that the message is about.
    pub item_list: Vec<ParamItem>,
    /// Explanation shown with the records.
    pub description: String,
}

pub struct MessageView {
    pub kind: MessageKind,
    pub text: Seq<char>,
    pub fields: Seq<Seq<char>>,
    pub item_list: Seq<ParamItemView>,
    pub description: Seq<char>,
}

impl View for Message {
    type V = MessageView;

    open spec fn view(&self) -> MessageView {
        MessageView {
            kind: self.kind,
            text: self.text@,
            fields: strings_view(self.fields@),
            item_list: items_view(self.item_list@),
            description: self.description@,
        }
    }
}

/// A message of the given kind and text that refers to nothing.
pub open spec fn plain(kind: MessageKind, text: Seq<char>) -> MessageView {
    MessageView {
        kind,
        text,
        fields: Seq::empty(),
        item_list: Seq::empty(),
        description: Seq::empty(),
    }
}

impl Message {
    /// A message of the given kind with the given text.
    pub fn new(kind: MessageKind, text: String) -> (m: Message)
        ensures
            m@ == plain(kind, text@),
    {
        let m = Message {
            kind,
            text,
            fields: Vec::new(),
            item_list: Vec::new(),
            description: String::new(),
        };
        proof {
            assert(strings_view(m.fields@) =~= Seq::<Seq<char>>::empty());
            assert(items_view(m.item_list@) =~= Seq::<ParamItemView>::empty());
        }
        m
    }

    pub fn error(text: String) -> (m: Message)
        ensures
            m@ == plain(MessageKind::Error, text@),
    {
        Message::new(MessageKind::Error, text)
    }

    pub fn info(text: String) -> (m: Message)
        ensures
            m@ == plain(MessageKind::Information, text@),
    {
        Message::new(MessageKind::Information, text)
    }

    pub fn success(text: String) -> (m: Message)
        ensures
            m@ == plain(MessageKind::Success, text@),
    {
        Message::new(MessageKind::Success, text)
    }

    pub fn warn(text: String) -> (m: Message)
        ensures
            m@ == plain(MessageKind::Warning, text@),
    {
        Message::new(MessageKind::Warning, text)
    }

    /// The same message naming the given fields.
    pub fn with_fields(self, fields: Vec<String>) -> (m: Message)
        ensures
            m@ == (MessageView { fields: strings_view(fields@), ..self@ }),
    {
        Message { fields, ..self }
    }

    /// The same message referring to the given records.
    pub fn with_param_items(self, item_list: Vec<ParamItem>) -> (m: Message)
        ensures
            m@ == (MessageView { item_list: items_view(item_list@), ..self@ }),
    {
        Message { item_list, ..self }
    }

    /// The same message referring to the given records.
    pub fn with_parameters(self, item_list: Vec<ParamItem>) -> (m: Message)
        ensures
            m@ == (MessageView { item_list: items_view(item_list@), ..self@ }),
    {
        Message { item_list, ..self }
    }

    /// The same message referring to one record.
    pub fn with_param_item(self, item: ParamItem) -> (m: Message)
        ensures
            m@ == (MessageView { item_list: seq![item@], ..self@ }),
    {
        let mut v = Vec::new();
        v.push(item);
        proof {
            assert(items_view(v@) =~= seq![item@]);
        }
        Message { item_list: v, ..self }
    }

    /// The same message with the given explanation of its records.
    pub fn with_param_description(self, description: String) -> (m: Message)
        ensures
            m@ == (MessageView { description: description@, ..self@ }),
    {
        Message { description, ..self }
    }
}

/// A list of messages with the kind of its most severe message.
pub struct Messages {
    pub kind: MessageKind,
    pub messages: Vec<Message>,
}

pub struct MessagesView {
    pub kind: MessageKind,
    pub messages: Seq<MessageView>,
}

impl View for Messages {
    type V = MessagesView;

    open spec fn view(&self) -> MessagesView {
        MessagesView { kind: self.kind, messages: messages_view(self.messages@) }
    }
}

/// The views of a list of messages.
pub open spec fn messages_view(v: Seq<Message>) -> Seq<MessageView> {
    v.map_values(|m: Message| m@)
}

/// The kind of a list of messages: that of its most severe message, and
/// success for an empty list.
pub open spec fn kind_of(v: Seq<MessageView>) -> MessageKind
    decreases v.len(),
{
    if v.len() == 0 {
        MessageKind::Success
    } else {
        worse(kind_of(v.drop_last()), v.last().kind)
    }
}

/// A nonempty list of errors is of the kind error.
pub proof fn lemma_kind_of_all_errors(v: Seq<MessageView>)
    requires
        v.len() > 0,
        forall|i: int| 0 <= i < v.len() ==> (#[trigger] v[i]).kind == MessageKind::Error,
    ensures
        kind_of(v) == MessageKind::Error,
    decreases v.len(),
{
    if v.len() > 1 {
        lemma_kind_of_all_errors(v.drop_last());
    } else {
        assert(v.drop_last().len() == 0);
        assert(kind_of(v.drop_last()) == MessageKind::Success);
    }
}

/// Whether some message of the list is an error.
pub open spec fn has_error(v: Seq<MessageView>) -> bool {
    exists|i: int| 0 <= i < v.len() && (#[trigger] v[i]).kind == MessageKind::Error
}

/// The list of messages that holds exactly `v`.
pub open spec fn messages_of(v: Seq<MessageView>) -> MessagesView {
    MessagesView { kind: kind_of(v), messages: v }
}

impl Messages {
    /// An empty list.
    pub fn new() -> (r: Messages)
        ensures
            r@ == messages_of(Seq::empty()),
    {
        let r = Messages { kind: MessageKind::Success, messages: Vec::new() };
        proof {
            assert(messages_view(r.messages@) =~= Seq::<MessageView>::empty());
        }
        r
    }

    /// Whether the list is well formed: its kind is that of its messages.
    pub open spec fn wf(&self) -> bool {
        self@ == messages_of(self@.messages)
    }

    /// Appends a message; the list's kind becomes the more severe of the two.
    pub fn add(&mut self, m: Message)
        requires
            old(self).wf(),
        ensures
            final(self).wf(),
            final(self)@.messages == old(self)@.messages.push(m@),
    {
        let ghost old_msgs = self@.messages;
        let k = m.kind;
        if message_kind_rank(k) > message_kind_rank(self.kind) {
            self.kind = k;
        }
        self.messages.push(m);
        proof {
            assert(messages_view(self.messages@) =~= old_msgs.push(m@));
            assert(old_msgs.push(m@).drop_last() =~= old_msgs);
        }
    }

    /// A list of one message.
    pub fn from_message(m: Message) -> (r: Messages)
        ensures
            r.wf(),
            r@.messages == seq![m@],
    {
        let mut r = Messages::new();
        r.add(m);
        proof {
            assert(Seq::<MessageView>::empty().push(m@) =~= seq![m@]);
        }
        r
    }

    /// Appends all messages of another list, in order.
    pub fn add_all(&mut self, other: Messages)
        requires
            old(self).wf(),
        ensures
            final(self).wf(),
            final(self)@.messages == old(self)@.messages + other@.messages,
    {
        let ghost start = self@.messages;
        let ghost others = other@.messages;
        let mut rest = other.messages;
        let mut k: usize = 0;
        let total = rest.len();
        let ghost n = total as nat;
        while rest.len() > 0
            invariant
                self.wf(),
                k + rest@.len() == n,
                n == others.len(),
                n <= usize::MAX,
                messages_view(rest@) =~= others.subrange(k as int, n as int),
                self@.messages =~= start + others.subrange(0, k as int),
            decreases rest.len(),
        {
            let ghost before = rest@;
            let m = rest.remove(0);
            proof {
                assert(messages_view(before)[0] == m@);
                assert(messages_view(rest@) =~= messages_view(before).drop_first());
                assert(others.subrange(0, k + 1) =~= others.subrange(0, k as int).push(others[k as int]));
            }
            self.add(m);
            k = k + 1;
        }
        proof {
            assert(others.subrange(0, n as int) =~= others);
        }
    }

    /// Whether some message is an error.
    pub fn is_error(&self) -> (b: bool)
        ensures
            b == has_error(self@.messages),
    {
        let mut i: usize = 0;
        while i < self.messages.len()
            invariant
                i <= self.messages@.len(),
                forall|j: int| 0 <= j < i ==> (#[trigger] self.messages@[j]).kind != MessageKind::Error,
            decreases self.messages.len() - i,
        {
            if self.messages[i].kind == MessageKind::Error {
                proof {
                    assert(self@.messages[i as int].kind == MessageKind::Error);
                }
                return true;
            }
            i += 1;
        }
        proof {
            assert forall|j: int| 0 <= j < self@.messages.len() implies (#[trigger] self@.messages[j]).kind != MessageKind::Error by {
                assert(self.messages@[j].kind != MessageKind::Error);
            }
        }
        false
    }

    /// Whether the list holds no message.
    pub fn is_empty(&self) -> (b: bool)
        ensures
            b == (self@.messages.len() == 0),
    {
        self.messages.len() == 0
    }
}

/// The rank of a message kind, as `severity` states it.
pub fn message_kind_rank(k: MessageKind) -> (r: u8)
    ensures
        r as int == severity(k),
{
    match k {
        MessageKind::Neutral => 0,
        MessageKind::Success => 1,
        MessageKind::Information => 2,
        MessageKind::Warning => 3,
        MessageKind::Error => 4,
        MessageKind::Stop => 5,
    }
}

} // verus!
