use vstd::prelude::*;

verus! {

/// One stored message: an identifier, the author's address, and the text.
#[derive(Clone)]
pub struct Message {
    pub id: u32,
    pub author: String,
    pub message: String,
}

/// The mathematical content of a `Message`: the identifier together with the
/// character sequences of the author and the text.
pub ghost struct MessageView {
    pub id: u32,
    pub author: Seq<char>,
    pub message: Seq<char>,
}

impl View for Message {
    type V = MessageView;

    open spec fn view(&self) -> MessageView {
        MessageView { id: self.id, author: self.author@, message: self.message@ }
    }
}

} // verus!
