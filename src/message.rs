use vstd::prelude::*;

verus! {

/// The mathematical value of a [`Message`].
pub ghost struct MessageView {
    pub id: u64,
    pub author: Seq<char>,
    pub date: Seq<char>,
    pub content: Seq<char>,
}

/// One message of a channel's history.
///
/// Identifiers are totally ordered: a larger identifier is a more recent message.
pub struct Message {
    pub id: u64,
    pub author: String,
    pub date: String,
    pub content: String,
}

impl View for Message {
    type V = MessageView;

    open spec fn view(&self) -> MessageView {
        MessageView { id: self.id, author: self.author@, date: self.date@, content: self.content@ }
    }
}

/// The views of a sequence of messages.
pub open spec fn views(s: Seq<Message>) -> Seq<MessageView> {
    s.map_values(|m: Message| m@)
}

/// Identifiers strictly increase along `h`: `h` is in chronological order.
pub open spec fn chronological(h: Seq<MessageView>) -> bool {
    forall|i: int, j: int| 0 <= i < j < h.len() ==> h[i].id < h[j].id
}

impl Message {
    pub fn new(id: u64, author: String, date: String, content: String) -> (r: Message)
        ensures
            r.id == id,
            r.author@ == author@,
            r.date@ == date@,
            r.content@ == content@,
    {
        Message { id, author, date, content }
    }

    /// A copy of this message, equal to it field by field.
    pub fn copy(&self) -> (r: Message)
        ensures
            r@ == self@,
    {
        Message {
            id: self.id,
            author: self.author.clone(),
            date: self.date.clone(),
            content: self.content.clone(),
        }
    }
}

} // verus!
