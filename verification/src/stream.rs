//! Keeps an unfinished assistant message when a quota failure interrupts its stream.

use crate::text;
use vstd::prelude::*;

verus! {

/// A part of a message.
#[derive(Debug, PartialEq, Eq)]
pub enum ContentItem {
    /// Text that the model wrote.
    OutputText { text: String },
    /// Any other part, as it was received.
    Other(String),
}

/// A `ContentItem` as a mathematical value.
pub enum ContentModel {
    OutputText(Seq<char>),
    Other(Seq<char>),
}

impl View for ContentItem {
    type V = ContentModel;

    open spec fn view(&self) -> ContentModel {
        match self {
            ContentItem::OutputText { text: written } => ContentModel::OutputText(written@),
            ContentItem::Other(part) => ContentModel::Other(part@),
        }
    }
}

impl Clone for ContentItem {
    fn clone(&self) -> (copy: Self)
        ensures
            copy@ == self@,
    {
        match self {
            ContentItem::OutputText { text: written } => ContentItem::OutputText {
                text: written.clone(),
            },
            ContentItem::Other(part) => ContentItem::Other(part.clone()),
        }
    }
}

/// A message of a response.
#[derive(Debug, PartialEq, Eq)]
pub struct ResponseMessage {
    pub id: Option<String>,
    pub role: String,
    pub content: Vec<ContentItem>,
    pub phase: Option<String>,
}

/// A `ResponseMessage` as a mathematical value.
pub struct MessageModel {
    pub id: Option<Seq<char>>,
    pub role: Seq<char>,
    pub content: Seq<ContentModel>,
    pub phase: Option<Seq<char>>,
}

impl View for ResponseMessage {
    type V = MessageModel;

    open spec fn view(&self) -> MessageModel {
        MessageModel {
            id: text::opt_view(self.id),
            role: self.role@,
            content: text::views(self.content@),
            phase: text::opt_view(self.phase),
        }
    }
}

impl Clone for ResponseMessage {
    fn clone(&self) -> (copy: Self)
        ensures
            copy@ == self@,
    {
        let mut content: Vec<ContentItem> = Vec::new();
        let mut i: usize = 0;
        while i < self.content.len()
            invariant
                i <= self.content.len(),
                content.len() == i,
                forall|j: int| 0 <= j < i ==> #[trigger] content@[j]@ == self.content@[j]@,
            decreases self.content.len() - i,
        {
            content.push(self.content[i].clone());
            i = i + 1;
        }
        assert(text::views(content@) =~= text::views(self.content@));
        ResponseMessage {
            id: text::clone_opt(&self.id),
            role: self.role.clone(),
            content,
            phase: text::clone_opt(&self.phase),
        }
    }
}

/// An item of a response.
#[derive(Debug, PartialEq, Eq)]
pub enum ResponseItem {
    Message(ResponseMessage),
    /// Anything else.
    Other,
}

/// An assistant message that has been started and not completed.
#[derive(Debug, PartialEq, Eq)]
pub struct PartialAssistantMessage {
    message: Option<ResponseMessage>,
}

impl View for PartialAssistantMessage {
    type V = Option<MessageModel>;

    closed spec fn view(&self) -> Option<MessageModel> {
        text::opt_view(self.message)
    }
}

impl MessageModel {
    /// The message with more text at its end.
    pub open spec fn extended(self, delta: Seq<char>) -> MessageModel {
        let count = self.content.len();
        MessageModel {
            content: if count > 0 && self.content.last() is OutputText {
                self.content.update(
                    count - 1,
                    ContentModel::OutputText(self.content.last()->OutputText_0 + delta),
                )
            } else {
                self.content.push(ContentModel::OutputText(delta))
            },
            ..self
        }
    }

    /// The model has written something.
    pub open spec fn written(self) -> bool {
        exists|i: int|
            0 <= i < self.content.len() && (#[trigger] self.content[i]) is OutputText
                && self.content[i]->OutputText_0.len() > 0
    }
}

/// Whether the model has written something.
fn is_written(message: &ResponseMessage) -> (answer: bool)
    ensures
        answer == message@.written(),
{
    let ghost parts = message@.content;
    let mut i: usize = 0;
    while i < message.content.len()
        invariant
            i <= message.content.len(),
            parts == message@.content,
            forall|j: int|
                0 <= j < i ==> !((#[trigger] parts[j]) is OutputText
                    && parts[j]->OutputText_0.len() > 0),
        decreases message.content.len() - i,
    {
        assert(parts[i as int] == message.content@[i as int]@);
        if let ContentItem::OutputText { text: written } = &message.content[i] {
            if written.as_str().unicode_len() > 0 {
                assert(message@.content[i as int] is OutputText);
                return true;
            }
        }
        i = i + 1;
    }
    false
}

impl PartialAssistantMessage {
    /// No message.
    pub fn new() -> (partial: PartialAssistantMessage)
        ensures
            partial@ is None,
    {
        PartialAssistantMessage { message: None }
    }

    /// Begins an item. Only messages of the assistant are kept.
    pub fn start(&mut self, item: &ResponseItem)
        ensures
            final(self)@ == (match item {
                ResponseItem::Message(message) => if message@.role == "assistant"@ {
                    Some(message@)
                } else {
                    None
                },
                ResponseItem::Other => None,
            }),
    {
        self.message = match item {
            ResponseItem::Message(message) => {
                if text::same_text(message.role.as_str(), "assistant") {
                    Some(message.clone())
                } else {
                    None
                }
            },
            ResponseItem::Other => None,
        };
    }

    /// Adds text to the message that has been started, if any.
    pub fn append(&mut self, delta: &str)
        ensures
            final(self)@ == (match old(self)@ {
                Some(message) => Some(message.extended(delta@)),
                None => None,
            }),
    {
        let mut message: ResponseMessage = match &self.message {
            Some(message) => message.clone(),
            None => {
                return ;
            },
        };
        let ghost before = message@;
        let count: usize = message.content.len();
        let mut grown: Option<String> = None;
        if count > 0 {
            assert(before.content.last() == message.content@[count - 1]@);
            if let ContentItem::OutputText { text: written } = &message.content[count - 1] {
                let mut longer: String = written.clone();
                longer.append(delta);
                grown = Some(longer);
            }
        }
        match grown {
            Some(written) => {
                let part: ContentItem = ContentItem::OutputText { text: written };
                let ghost model = part@;
                message.content.set(count - 1, part);
                assert(message@.content =~= before.content.update(count - 1, model));
            },
            None => {
                let part: ContentItem = ContentItem::OutputText { text: delta.to_owned() };
                let ghost model = part@;
                message.content.push(part);
                assert(message@.content =~= before.content.push(model));
            },
        }
        assert(message@ == before.extended(delta@));
        self.message = Some(message);
    }

    /// Forgets the message: it was received whole.
    pub fn complete(&mut self)
        ensures
            final(self)@ is None,
    {
        self.message = None;
    }

    /// Takes the unfinished message, if the model has written something in it.
    pub fn take(&mut self) -> (message: Option<ResponseMessage>)
        ensures
            final(self)@ is None,
            text::opt_view(message) == (match old(self)@ {
                Some(message) => if message.written() {
                    Some(message)
                } else {
                    None
                },
                None => None,
            }),
    {
        let message: Option<ResponseMessage> = self.message.take();
        match message {
            Some(message) => {
                if is_written(&message) {
                    Some(message)
                } else {
                    None
                }
            },
            None => None,
        }
    }
}

/// Text that comes in two pieces makes the same message as text that comes in one.
pub proof fn law_pieces_make_the_whole(message: MessageModel, first: Seq<char>, second: Seq<char>)
    ensures
        message.extended(first).extended(second) == message.extended(first + second),
{
    let split = message.extended(first).extended(second);
    let whole = message.extended(first + second);
    let count = message.content.len();
    if count > 0 && message.content.last() is OutputText {
        let start = message.content.last()->OutputText_0;
        assert(start + first + second =~= start + (first + second));
    }
    assert(split.content =~= whole.content);
}

/// No text that the model has written is lost: once a piece of text has come, the message is kept.
pub proof fn law_written_text_is_kept(message: MessageModel, delta: Seq<char>)
    ensures
        delta.len() > 0 || message.written() ==> message.extended(delta).written(),
{
    let after = message.extended(delta);
    let count = message.content.len();
    if delta.len() > 0 {
        assert(after.content[after.content.len() - 1] is OutputText);
    } else if message.written() {
        let i = choose|i: int|
            0 <= i < count && (#[trigger] message.content[i]) is OutputText
                && message.content[i]->OutputText_0.len() > 0;
        assert(after.content[i] is OutputText);
    }
}

/// More text goes to the end of the message: to its last part where that is text, and else to a new
/// part. The other parts, the id, the role and the phase stay.
pub proof fn law_text_is_appended(message: MessageModel, delta: Seq<char>)
    ensures
        ({
            let after = message.extended(delta);
            let count = message.content.len();
            let open = count > 0 && message.content[count - 1] is OutputText;
            &&& after.id == message.id && after.role == message.role && after.phase
                == message.phase
            &&& open ==> {
                &&& after.content.len() == count
                &&& after.content.drop_last() == message.content.drop_last()
                &&& after.content[count - 1] == ContentModel::OutputText(
                    message.content[count - 1]->OutputText_0 + delta,
                )
            }
            &&& !open ==> after.content == message.content + seq![ContentModel::OutputText(delta)]
        }),
{
    let after = message.extended(delta);
    let count = message.content.len();
    if count > 0 && message.content[count - 1] is OutputText {
        assert(after.content.drop_last() =~= message.content.drop_last());
    } else {
        assert(after.content =~= message.content + seq![ContentModel::OutputText(delta)]);
    }
}

/// A message is worth keeping exactly where some part of it is text that is not empty.
pub proof fn law_message_with_text_is_written(message: MessageModel)
    ensures
        message.written() <==> exists|i: int|
            0 <= i < message.content.len() && ((#[trigger] message.content[i]) matches
                ContentModel::OutputText(text) && text.len() > 0),
{
}

/// A `ContentItem` is seen as the form it has, with every part of it.
pub proof fn law_content_item_is_seen_whole(value: ContentItem)
    ensures
        value@ == (match value {
            ContentItem::OutputText { text: written } => ContentModel::OutputText(written@),
            ContentItem::Other(part) => ContentModel::Other(part@),
        }),
{
}

/// A `ResponseMessage` is seen with every field as it is.
pub proof fn law_response_message_is_seen_whole(value: ResponseMessage)
    ensures
        value@.id == text::opt_view(value.id),
        value@.role == value.role@,
        value@.content == text::views(value.content@),
        value@.phase == text::opt_view(value.phase),
{
}

} // verus!
