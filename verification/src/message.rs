use vstd::prelude::*;

verus! {

/// Mathematical value of a [`MessageKind`]: what two messages must share to
/// be debounced against each other.
pub enum KindView {
    File,
    Activity,
    Notification,
    Custom(Seq<char>),
}

/// Mathematical value of a [`MessageType`].
pub enum MessageView {
    File,
    Activity,
    Notification,
    Custom(Seq<char>, Seq<char>),
}

impl MessageView {
    /// The kind of a message: its variant, and for a custom message its tag.
    /// The body of a custom message does not distinguish kinds.
    pub open spec fn kind(self) -> KindView {
        match self {
            MessageView::File => KindView::File,
            MessageView::Activity => KindView::Activity,
            MessageView::Notification => KindView::Notification,
            MessageView::Custom(tag, _) => KindView::Custom(tag),
        }
    }

    /// The text frame that carries the message to a client.
    pub open spec fn wire(self) -> Seq<char> {
        match self {
            MessageView::File => "file"@,
            MessageView::Activity => "activity"@,
            MessageView::Notification => "notification"@,
            MessageView::Custom(tag, body) => tag + " "@ + body,
        }
    }
}

/// The kind of a message, as stored by the debouncer.
#[derive(Debug, PartialEq, Eq)]
pub enum MessageKind {
    File,
    Activity,
    Notification,
    Custom(String),
}

impl View for MessageKind {
    type V = KindView;

    open spec fn view(&self) -> KindView {
        match self {
            MessageKind::File => KindView::File,
            MessageKind::Activity => KindView::Activity,
            MessageKind::Notification => KindView::Notification,
            MessageKind::Custom(tag) => KindView::Custom(tag@),
        }
    }
}

impl Clone for MessageKind {
    fn clone(&self) -> (copy: Self)
        ensures
            copy == *self,
    {
        match self {
            MessageKind::File => MessageKind::File,
            MessageKind::Activity => MessageKind::Activity,
            MessageKind::Notification => MessageKind::Notification,
            MessageKind::Custom(tag) => MessageKind::Custom(tag.clone()),
        }
    }
}

impl MessageKind {
    /// Whether two kinds are the same kind.
    pub fn same(&self, other: &MessageKind) -> (same: bool)
        ensures
            same == (self@ == other@),
    {
        match (self, other) {
            (MessageKind::File, MessageKind::File) => true,
            (MessageKind::Activity, MessageKind::Activity) => true,
            (MessageKind::Notification, MessageKind::Notification) => true,
            (MessageKind::Custom(mine), MessageKind::Custom(theirs)) => *mine == *theirs,
            _ => false,
        }
    }
}

/// A notification for a client: one of three fixed hints, or a custom tag with
/// a body.
#[derive(Debug, PartialEq, Eq)]
pub enum MessageType {
    File,
    Activity,
    Notification,
    Custom(String, String),
}

impl View for MessageType {
    type V = MessageView;

    open spec fn view(&self) -> MessageView {
        match self {
            MessageType::File => MessageView::File,
            MessageType::Activity => MessageView::Activity,
            MessageType::Notification => MessageView::Notification,
            MessageType::Custom(tag, body) => MessageView::Custom(tag@, body@),
        }
    }
}

impl Clone for MessageType {
    fn clone(&self) -> (copy: Self)
        ensures
            copy == *self,
    {
        match self {
            MessageType::File => MessageType::File,
            MessageType::Activity => MessageType::Activity,
            MessageType::Notification => MessageType::Notification,
            MessageType::Custom(tag, body) => MessageType::Custom(tag.clone(), body.clone()),
        }
    }
}

impl MessageType {
    /// The kind of this message.
    pub fn kind(&self) -> (kind: MessageKind)
        ensures
            kind@ == self@.kind(),
    {
        match self {
            MessageType::File => MessageKind::File,
            MessageType::Activity => MessageKind::Activity,
            MessageType::Notification => MessageKind::Notification,
            MessageType::Custom(tag, _) => MessageKind::Custom(tag.clone()),
        }
    }

    /// Whether this message is of the given kind.
    pub fn is_of(&self, kind: &MessageKind) -> (same: bool)
        ensures
            same == (self@.kind() == kind@),
    {
        match (self, kind) {
            (MessageType::File, MessageKind::File) => true,
            (MessageType::Activity, MessageKind::Activity) => true,
            (MessageType::Notification, MessageKind::Notification) => true,
            (MessageType::Custom(tag, _), MessageKind::Custom(other)) => *tag == *other,
            _ => false,
        }
    }

    /// Whether two messages are equivalent for debouncing: the same variant,
    /// and for custom messages the same tag, whatever the bodies.
    pub fn same_kind(&self, other: &MessageType) -> (same: bool)
        ensures
            same == (self@.kind() == other@.kind()),
    {
        match (self, other) {
            (MessageType::File, MessageType::File) => true,
            (MessageType::Activity, MessageType::Activity) => true,
            (MessageType::Notification, MessageType::Notification) => true,
            (MessageType::Custom(mine, _), MessageType::Custom(theirs, _)) => *mine == *theirs,
            _ => false,
        }
    }

    /// The short text sent to the client: `file`, `activity`, `notification`,
    /// or the tag, one space and the body of a custom message.
    pub fn wire_form(&self) -> (text: String)
        ensures
            text@ == self@.wire(),
    {
        match self {
            MessageType::File => String::from_str("file"),
            MessageType::Activity => String::from_str("activity"),
            MessageType::Notification => String::from_str("notification"),
            MessageType::Custom(tag, body) => {
                let mut text = tag.clone();
                text.append(" ");
                text.append(body.as_str());
                text
            },
        }
    }
}

} // verus!
