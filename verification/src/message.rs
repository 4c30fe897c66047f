//! The chat message value: a nickname together with a text, image or file
//! payload. Equality is structural and the wire codec round-trips every
//! value of this type.

use vstd::prelude::*;
use vstd::slice::slice_to_vec;

verus! {

/// Enum representing the different kinds of message payload.
#[derive(Debug, Clone, PartialEq)]
pub enum MessageType {
    /// Text message.
    Text(String),
    /// Image message with its raw bytes.
    Image(Vec<u8>),
    /// File message with a name and content as raw bytes.
    File { name: String, content: Vec<u8> },
}

/// A message with a nickname and a payload.
#[derive(Debug, Clone, PartialEq)]
pub struct Message {
    pub nickname: String,
    pub message: MessageType,
}

/// Mathematical value of a `MessageType`: character and byte sequences.
pub enum MessageTypeView {
    Text(Seq<char>),
    Image(Seq<u8>),
    File { name: Seq<char>, content: Seq<u8> },
}

/// Mathematical value of a `Message`.
pub struct MessageView {
    pub nickname: Seq<char>,
    pub message: MessageTypeView,
}

impl View for MessageType {
    type V = MessageTypeView;

    open spec fn view(&self) -> MessageTypeView {
        match self {
            MessageType::Text(t) => MessageTypeView::Text(t@),
            MessageType::Image(d) => MessageTypeView::Image(d@),
            MessageType::File { name, content } => MessageTypeView::File {
                name: name@,
                content: content@,
            },
        }
    }
}

impl View for Message {
    type V = MessageView;

    open spec fn view(&self) -> MessageView {
        MessageView { nickname: self.nickname@, message: self.message@ }
    }
}

impl MessageType {
    /// Creates a Text payload from the given text.
    pub fn text(text: &str) -> (r: Self)
        ensures
            r@ == (MessageTypeView::Text(text@)),
    {
        MessageType::Text(text.to_owned())
    }

    /// Creates a File payload from the given name and content.
    pub fn file(name: &str, data: &[u8]) -> (r: Self)
        ensures
            r@ == (MessageTypeView::File { name: name@, content: data@ }),
    {
        MessageType::File { name: name.to_owned(), content: slice_to_vec(data) }
    }

    /// Creates an Image payload from the given content.
    pub fn image(data: &[u8]) -> (r: Self)
        ensures
            r@ == (MessageTypeView::Image(data@)),
    {
        MessageType::Image(slice_to_vec(data))
    }
}

impl MessageType {
    /// The kind of the payload as a word, and its content: the text of a
    /// text message, the name of a file, nothing for an image.
    pub fn get_type_and_message(&self) -> (r: (&str, String))
        ensures
            match self {
                MessageType::Text(t) => r.0@ == "Text"@ && r.1@ == t@,
                MessageType::Image(_) => r.0@ == "Image"@ && r.1@ == Seq::<char>::empty(),
                MessageType::File { name, .. } => r.0@ == "File"@ && r.1@ == name@,
            },
    {
        match self {
            MessageType::Text(text) => ("Text", text.clone()),
            MessageType::Image(_) => ("Image", String::new()),
            MessageType::File { name, content: _ } => ("File", name.clone()),
        }
    }

    /// An exact copy of the payload.
    pub fn duplicate(&self) -> (r: Self)
        ensures
            r@ == self@,
    {
        match self {
            MessageType::Text(t) => MessageType::Text(t.clone()),
            MessageType::Image(d) => MessageType::Image(clone_bytes(d)),
            MessageType::File { name, content } => MessageType::File {
                name: name.clone(),
                content: clone_bytes(content),
            },
        }
    }
}

/// An exact copy of a byte vector.
fn clone_bytes(d: &Vec<u8>) -> (r: Vec<u8>)
    ensures
        r@ == d@,
{
    slice_to_vec(d.as_slice())
}

impl Message {
    /// Creates a new Message with the specified nickname and payload.
    pub fn from(nickname: &str, message: MessageType) -> (r: Self)
        ensures
            r@ == (MessageView { nickname: nickname@, message: message@ }),
    {
        Message { nickname: nickname.to_owned(), message }
    }

    /// An exact copy of the message.
    pub fn duplicate(&self) -> (r: Self)
        ensures
            r@ == self@,
    {
        Message { nickname: self.nickname.clone(), message: self.message.duplicate() }
    }
}

} // verus!
