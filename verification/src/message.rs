//! Messages of a conversation and their parts.
use vstd::prelude::*;

use crate::text::{opt_view, same_text};

verus! {

/// Who speaks.
#[derive(Clone, Copy, Debug, PartialEq, Eq, Structural)]
pub enum Role {
    User,
    Assistant,
}

/// One part of a message.
#[derive(Debug, PartialEq, Eq)]
pub enum Content {
    Text { text: String },
    /// A tool call. `arguments` is the compact JSON text of the arguments.
    ToolRequest { id: String, name: String, arguments: String },
    ToolResult { id: String, output: String, is_error: bool },
    Image { data: String, mime_type: String },
    Thinking { thinking: String, signature: Option<String> },
}

/// A message.
#[derive(Debug, PartialEq, Eq)]
pub struct Message {
    pub role: Role,
    pub content: Vec<Content>,
}

/// A tool call that a message asks for.
#[derive(Debug, PartialEq, Eq)]
pub struct ToolRequest {
    pub id: String,
    pub name: String,
    pub arguments: String,
}

/// What a [`Content`] stands for.
pub enum ContentView {
    Text { text: Seq<char> },
    ToolRequest { id: Seq<char>, name: Seq<char>, arguments: Seq<char> },
    ToolResult { id: Seq<char>, output: Seq<char>, is_error: bool },
    Image { data: Seq<char>, mime_type: Seq<char> },
    Thinking { thinking: Seq<char>, signature: Option<Seq<char>> },
}

/// What a [`Message`] stands for.
#[verifier::ext_equal]
pub struct MessageView {
    pub role: Role,
    pub content: Seq<ContentView>,
}

/// What a [`ToolRequest`] stands for.
pub struct RequestView {
    pub id: Seq<char>,
    pub name: Seq<char>,
    pub arguments: Seq<char>,
}

impl View for Content {
    type V = ContentView;

    open spec fn view(&self) -> ContentView {
        match *self {
            Content::Text { text } => ContentView::Text { text: text@ },
            Content::ToolRequest { id, name, arguments } => ContentView::ToolRequest {
                id: id@,
                name: name@,
                arguments: arguments@,
            },
            Content::ToolResult { id, output, is_error } => ContentView::ToolResult {
                id: id@,
                output: output@,
                is_error,
            },
            Content::Image { data, mime_type } => ContentView::Image {
                data: data@,
                mime_type: mime_type@,
            },
            Content::Thinking { thinking, signature } => ContentView::Thinking {
                thinking: thinking@,
                signature: opt_view(signature),
            },
        }
    }
}

/// The views of the parts of a message.
pub open spec fn content_views(c: Seq<Content>) -> Seq<ContentView> {
    Seq::new(c.len(), |i: int| c[i]@)
}

impl View for Message {
    type V = MessageView;

    open spec fn view(&self) -> MessageView {
        MessageView { role: self.role, content: content_views(self.content@) }
    }
}

/// The views of a list of messages.
pub open spec fn message_views(m: Seq<Message>) -> Seq<MessageView> {
    Seq::new(m.len(), |i: int| m[i]@)
}

impl View for ToolRequest {
    type V = RequestView;

    open spec fn view(&self) -> RequestView {
        RequestView { id: self.id@, name: self.name@, arguments: self.arguments@ }
    }
}

/// The views of a list of tool calls.
pub open spec fn request_views(r: Seq<ToolRequest>) -> Seq<RequestView> {
    Seq::new(r.len(), |i: int| r[i]@)
}

/// The views of a list grow with the list.
pub proof fn content_views_push(c: Seq<Content>, x: Content)
    ensures
        content_views(c.push(x)) == content_views(c).push(x@),
{
    assert(content_views(c.push(x)) =~= content_views(c).push(x@));
}

/// The views of a list grow with the list.
pub proof fn message_views_push(m: Seq<Message>, x: Message)
    ensures
        message_views(m.push(x)) == message_views(m).push(x@),
{
    assert(message_views(m.push(x)) =~= message_views(m).push(x@));
}

impl Clone for Content {
    fn clone(&self) -> (r: Self)
        ensures
            r == *self,
    {
        match self {
            Content::Text { text } => Content::Text { text: text.clone() },
            Content::ToolRequest { id, name, arguments } => Content::ToolRequest {
                id: id.clone(),
                name: name.clone(),
                arguments: arguments.clone(),
            },
            Content::ToolResult { id, output, is_error } => Content::ToolResult {
                id: id.clone(),
                output: output.clone(),
                is_error: *is_error,
            },
            Content::Image { data, mime_type } => Content::Image {
                data: data.clone(),
                mime_type: mime_type.clone(),
            },
            Content::Thinking { thinking, signature } => Content::Thinking {
                thinking: thinking.clone(),
                signature: crate::text::copy_opt(signature),
            },
        }
    }
}

/// A copy of a list of parts.
pub fn copy_content(c: &Vec<Content>) -> (r: Vec<Content>)
    ensures
        r@ == c@,
{
    let mut out: Vec<Content> = Vec::new();
    for i in 0..c.len()
        invariant
            out@ == c@.take(i as int),
    {
        out.push(c[i].clone());
    }
    assert(c@.take(c.len() as int) =~= c@);
    out
}

impl Clone for Message {
    fn clone(&self) -> (r: Self)
        ensures
            r@ == self@,
    {
        Message { role: self.role, content: copy_content(&self.content) }
    }
}

/// A copy of a part of a list of messages.
pub fn copy_messages(m: &[Message], from: usize, to: usize) -> (r: Vec<Message>)
    requires
        from <= to <= m.len(),
    ensures
        message_views(r@) == message_views(m@).subrange(from as int, to as int),
{
    let mut out: Vec<Message> = Vec::new();
    let mut i: usize = from;
    while i < to
        invariant
            from <= i <= to <= m.len(),
            message_views(out@) == message_views(m@).subrange(from as int, i as int),
        decreases to - i,
    {
        let ghost before = out@;
        let x = m[i].clone();
        out.push(x);
        proof {
            message_views_push(before, x);
            assert(message_views(out@) =~= message_views(m@).subrange(from as int, i + 1));
        }
        i += 1;
    }
    out
}

impl Clone for ToolRequest {
    fn clone(&self) -> (r: Self)
        ensures
            r == *self,
    {
        ToolRequest {
            id: self.id.clone(),
            name: self.name.clone(),
            arguments: self.arguments.clone(),
        }
    }
}

impl Content {
    /// A text part.
    pub fn text(text: &str) -> (r: Content)
        ensures
            r@ == (ContentView::Text { text: text@ }),
    {
        Content::Text { text: text.to_owned() }
    }

    /// A tool result part.
    pub fn tool_result(id: &str, output: &str, is_error: bool) -> (r: Content)
        ensures
            r@ == (ContentView::ToolResult { id: id@, output: output@, is_error }),
    {
        Content::ToolResult { id: id.to_owned(), output: output.to_owned(), is_error }
    }

    /// The text of a text part.
    pub fn as_text(&self) -> (r: Option<&str>)
        ensures
            match r {
                Some(s) => self@ == (ContentView::Text { text: s@ }),
                None => self@ !is Text,
            },
    {
        match self {
            Content::Text { text } => Some(text.as_str()),
            _ => None,
        }
    }
}

/// Whether a message asks for a tool call.
pub open spec fn has_requests(m: MessageView) -> bool {
    exists|i: int| 0 <= i < m.content.len() && #[trigger] m.content[i] is ToolRequest
}

/// Whether a message carries a tool result.
pub open spec fn has_results(m: MessageView) -> bool {
    exists|i: int| 0 <= i < m.content.len() && #[trigger] m.content[i] is ToolResult
}

/// The tool calls in a list of parts, in order.
pub open spec fn requests_in(c: Seq<ContentView>) -> Seq<RequestView>
    decreases c.len(),
{
    if c.len() == 0 {
        Seq::empty()
    } else {
        let rest = requests_in(c.drop_last());
        match c.last() {
            ContentView::ToolRequest { id, name, arguments } => rest.push(
                RequestView { id, name, arguments },
            ),
            _ => rest,
        }
    }
}

/// The text parts of a list of parts, in order.
pub open spec fn texts_in(c: Seq<ContentView>) -> Seq<Seq<char>>
    decreases c.len(),
{
    if c.len() == 0 {
        Seq::empty()
    } else {
        let rest = texts_in(c.drop_last());
        match c.last() {
            ContentView::Text { text } => rest.push(text),
            _ => rest,
        }
    }
}

/// Texts one after the other.
pub open spec fn concatenated(parts: Seq<Seq<char>>) -> Seq<char>
    decreases parts.len(),
{
    if parts.len() == 0 {
        Seq::empty()
    } else {
        concatenated(parts.drop_last()) + parts.last()
    }
}

/// The text of a message: its text parts, one after the other.
pub open spec fn text_of(m: MessageView) -> Seq<char> {
    concatenated(texts_in(m.content))
}

/// A user message with one text part.
pub open spec fn user_text(text: Seq<char>) -> MessageView {
    MessageView { role: Role::User, content: seq![ContentView::Text { text }] }
}

/// An assistant message with one text part.
pub open spec fn assistant_text(text: Seq<char>) -> MessageView {
    MessageView { role: Role::Assistant, content: seq![ContentView::Text { text }] }
}

impl Message {
    /// An empty user message.
    pub fn user() -> (r: Message)
        ensures
            r.role == Role::User,
            r.content@ == Seq::<Content>::empty(),
    {
        Message { role: Role::User, content: Vec::new() }
    }

    /// An empty assistant message.
    pub fn assistant() -> (r: Message)
        ensures
            r.role == Role::Assistant,
            r.content@ == Seq::<Content>::empty(),
    {
        Message { role: Role::Assistant, content: Vec::new() }
    }

    /// The message with one more part.
    pub fn with(self, part: Content) -> (r: Message)
        ensures
            r@ == (MessageView { role: self.role, content: self@.content.push(part@) }),
    {
        let mut content = self.content;
        let ghost before = content@;
        content.push(part);
        proof {
            content_views_push(before, part);
        }
        Message { role: self.role, content }
    }

    /// The message with a text part added.
    pub fn with_text(self, text: &str) -> (r: Message)
        ensures
            r@ == (MessageView {
                role: self.role,
                content: self@.content.push(ContentView::Text { text: text@ }),
            }),
    {
        self.with(Content::text(text))
    }

    /// The message with a tool call added.
    pub fn with_tool_request(self, id: &str, name: &str, arguments: &str) -> (r: Message)
        ensures
            r@ == (MessageView {
                role: self.role,
                content: self@.content.push(
                    ContentView::ToolRequest { id: id@, name: name@, arguments: arguments@ },
                ),
            }),
    {
        self.with(
            Content::ToolRequest {
                id: id.to_owned(),
                name: name.to_owned(),
                arguments: arguments.to_owned(),
            },
        )
    }

    /// The message with a tool result added.
    pub fn with_tool_result(self, id: &str, output: &str, is_error: bool) -> (r: Message)
        ensures
            r@ == (MessageView {
                role: self.role,
                content: self@.content.push(
                    ContentView::ToolResult { id: id@, output: output@, is_error },
                ),
            }),
    {
        self.with(Content::tool_result(id, output, is_error))
    }

    /// A user message that says one thing.
    pub fn user_saying(text: &str) -> (r: Message)
        ensures
            r@ == user_text(text@),
    {
        let m = Message::user();
        assert(m@.content =~= Seq::empty());
        let r = m.with_text(text);
        assert(r@ =~= user_text(text@));
        r
    }

    /// An assistant message that says one thing.
    pub fn assistant_saying(text: &str) -> (r: Message)
        ensures
            r@ == assistant_text(text@),
    {
        let m = Message::assistant();
        assert(m@.content =~= Seq::empty());
        let r = m.with_text(text);
        assert(r@ =~= assistant_text(text@));
        r
    }

    /// Whether the message asks for a tool call.
    pub fn has_tool_requests(&self) -> (r: bool)
        ensures
            r == has_requests(self@),
    {
        for i in 0..self.content.len()
            invariant
                forall|j: int| 0 <= j < i ==> (#[trigger] self@.content[j]) !is ToolRequest,
        {
            if let Content::ToolRequest { .. } = &self.content[i] {
                assert(self@.content[i as int] is ToolRequest);
                return true;
            }
        }
        false
    }

    /// Whether the message carries a tool result.
    pub fn has_tool_results(&self) -> (r: bool)
        ensures
            r == has_results(self@),
    {
        for i in 0..self.content.len()
            invariant
                forall|j: int| 0 <= j < i ==> (#[trigger] self@.content[j]) !is ToolResult,
        {
            if let Content::ToolResult { .. } = &self.content[i] {
                assert(self@.content[i as int] is ToolResult);
                return true;
            }
        }
        false
    }

    /// The tool calls that the message asks for, in order.
    pub fn tool_requests(&self) -> (r: Vec<ToolRequest>)
        ensures
            request_views(r@) == requests_in(self@.content),
    {
        let mut out: Vec<ToolRequest> = Vec::new();
        for i in 0..self.content.len()
            invariant
                request_views(out@) == requests_in(self@.content.take(i as int)),
        {
            let ghost before = out@;
            assert(self@.content.take(i + 1).drop_last() =~= self@.content.take(i as int));
            assert(self@.content.take(i + 1).last() == self.content@[i as int]@);
            if let Content::ToolRequest { id, name, arguments } = &self.content[i] {
                let req = ToolRequest {
                    id: id.clone(),
                    name: name.clone(),
                    arguments: arguments.clone(),
                };
                out.push(req);
                assert(request_views(out@) =~= request_views(before).push(req@));
            }
        }
        assert(self@.content.take(self.content.len() as int) =~= self@.content);
        out
    }

    /// The text of the message.
    pub fn text(&self) -> (r: String)
        ensures
            r@ == text_of(self@),
    {
        let mut out = String::new();
        for i in 0..self.content.len()
            invariant
                out@ == concatenated(texts_in(self@.content.take(i as int))),
        {
            assert(self@.content.take(i + 1).drop_last() =~= self@.content.take(i as int));
            assert(self@.content.take(i + 1).last() == self.content@[i as int]@);
            if let Content::Text { text } = &self.content[i] {
                out.append(text.as_str());
                proof {
                    let rest = texts_in(self@.content.take(i as int));
                    assert(rest.push(text@).drop_last() =~= rest);
                }
            }
        }
        assert(self@.content.take(self.content.len() as int) =~= self@.content);
        out
    }
}

/// A message asks for a tool call exactly when its list of calls is not empty.
pub proof fn requests_nonempty(c: Seq<ContentView>)
    ensures
        (requests_in(c).len() > 0) == (exists|i: int|
            0 <= i < c.len() && #[trigger] c[i] is ToolRequest),
    decreases c.len(),
{
    if c.len() > 0 {
        let d = c.drop_last();
        requests_nonempty(d);
        if exists|i: int| 0 <= i < c.len() && #[trigger] c[i] is ToolRequest {
            let i = choose|i: int| 0 <= i < c.len() && #[trigger] c[i] is ToolRequest;
            if i < d.len() {
                assert(d[i] is ToolRequest);
            }
        }
        if requests_in(d).len() > 0 {
            let i = choose|i: int| 0 <= i < d.len() && #[trigger] d[i] is ToolRequest;
            assert(c[i] is ToolRequest);
        }
        if c.last() is ToolRequest {
            assert(c[c.len() - 1] is ToolRequest);
        }
    }
}

/// Whether a list of parts holds the result of a tool call.
pub open spec fn answers(c: Seq<ContentView>, id: Seq<char>) -> bool {
    exists|i: int| 0 <= i < c.len() && is_result_of(#[trigger] c[i], id)
}

/// Whether a part is the result of a tool call.
pub open spec fn is_result_of(c: ContentView, id: Seq<char>) -> bool {
    c matches ContentView::ToolResult { id: r, .. } && r == id
}

/// Whether a part is the result of a tool call.
pub fn is_result_for(c: &Content, id: &str) -> (r: bool)
    ensures
        r == is_result_of(c@, id@),
{
    match c {
        Content::ToolResult { id: x, .. } => same_text(x.as_str(), id),
        _ => false,
    }
}

/// Whether a list of parts holds the result of a tool call.
pub fn has_result_for(c: &Vec<Content>, id: &str) -> (r: bool)
    ensures
        r == answers(content_views(c@), id@),
{
    for i in 0..c.len()
        invariant
            forall|j: int| 0 <= j < i ==> !is_result_of(#[trigger] content_views(c@)[j], id@),
    {
        if is_result_for(&c[i], id) {
            assert(is_result_of(content_views(c@)[i as int], id@));
            return true;
        }
    }
    false
}

/// Whether every tool call of message `i` is answered in the user message
/// right behind it.
pub open spec fn answered(m: Seq<MessageView>, i: int) -> bool {
    m[i].role == Role::Assistant && has_requests(m[i]) ==> i + 1 < m.len() && m[i + 1].role
        == Role::User && forall|k: int|
        0 <= k < m[i].content.len() && #[trigger] m[i].content[k] is ToolRequest ==> answers(
            m[i + 1].content,
            m[i].content[k]->ToolRequest_id,
        )
}

/// Whether every tool call in a history is answered in the user message right
/// behind it. Providers reject a history for which this does not hold.
pub open spec fn paired(m: Seq<MessageView>) -> bool {
    forall|i: int| 0 <= i < m.len() ==> #[trigger] answered(m, i)
}

/// A tool call that is answered in a part of a history is answered in the
/// whole.
pub proof fn answered_shift(a: Seq<MessageView>, b: Seq<MessageView>, i: int)
    requires
        0 <= i < b.len(),
        answered(b, i),
    ensures
        answered(a + b, a.len() + i),
{
    let t = a + b;
    let p = a.len() + i;
    assert(t[p] == b[i]);
    if i + 1 < b.len() {
        assert(t[p + 1] == b[i + 1]);
    }
}

/// A user message behind a history keeps every tool call answered.
pub proof fn paired_push_user(m: Seq<MessageView>, x: MessageView)
    requires
        paired(m),
        x.role == Role::User,
    ensures
        paired(m.push(x)),
{
    let t = m.push(x);
    assert forall|k: int| 0 <= k < t.len() implies #[trigger] answered(t, k) by {
        if k < m.len() {
            assert(answered(m, k));
            assert(t[k] == m[k]);
            if k + 1 < m.len() {
                assert(t[k + 1] == m[k + 1]);
            }
        }
    }
}

/// Every tool call of a message is in the list of its tool calls.
pub proof fn request_listed(c: Seq<ContentView>, k: int) -> (q: int)
    requires
        0 <= k < c.len(),
        c[k] is ToolRequest,
    ensures
        0 <= q < requests_in(c).len(),
        requests_in(c)[q].id == c[k]->ToolRequest_id,
    decreases c.len(),
{
    let rest = requests_in(c.drop_last());
    if k == c.len() - 1 {
        rest.len() as int
    } else {
        let q = request_listed(c.drop_last(), k);
        assert(requests_in(c)[q] == rest[q]);
        q
    }
}

/// Every entry in the list of tool calls is a tool call of the message.
pub proof fn listed_request(c: Seq<ContentView>, q: int) -> (k: int)
    requires
        0 <= q < requests_in(c).len(),
    ensures
        0 <= k < c.len(),
        c[k] is ToolRequest,
        c[k]->ToolRequest_id == requests_in(c)[q].id,
        c[k]->ToolRequest_name == requests_in(c)[q].name,
        c[k]->ToolRequest_arguments == requests_in(c)[q].arguments,
    decreases c.len(),
{
    let rest = requests_in(c.drop_last());
    if q < rest.len() {
        let k = listed_request(c.drop_last(), q);
        assert(requests_in(c)[q] == rest[q]);
        k
    } else {
        c.len() - 1
    }
}

/// The tool calls of parts are those of their first parts, then those of the
/// rest; a call is listed with its id, its name and its arguments, and any
/// other part is no call.
pub proof fn calls_are_listed_in_order(a: Seq<ContentView>, b: Seq<ContentView>)
    ensures
        requests_in(a + b) == requests_in(a) + requests_in(b),
        forall|x: ContentView|
            #![trigger requests_in(seq![x])]
            requests_in(seq![x]) == (match x {
                ContentView::ToolRequest { id, name, arguments } => seq![
                    RequestView { id, name, arguments },
                ],
                _ => Seq::empty(),
            }),
    decreases b.len(),
{
    if b.len() == 0 {
        assert(a + b =~= a);
        assert(requests_in(a) + requests_in(b) =~= requests_in(a));
    } else {
        calls_are_listed_in_order(a, b.drop_last());
        assert((a + b).drop_last() =~= a + b.drop_last());
        assert((a + b).last() == b.last());
        assert(requests_in(a + b) =~= requests_in(a) + requests_in(b));
    }
    assert forall|x: ContentView|
        #![trigger requests_in(seq![x])]
        requests_in(seq![x]) == (match x {
            ContentView::ToolRequest { id, name, arguments } => seq![
                RequestView { id, name, arguments },
            ],
            _ => Seq::empty(),
        }) by {
        let one = seq![x];
        assert(one.drop_last() =~= Seq::empty());
        assert(requests_in(one.drop_last()) =~= Seq::empty());
        assert(requests_in(one) =~= (match x {
            ContentView::ToolRequest { id, name, arguments } => seq![
                RequestView { id, name, arguments },
            ],
            _ => Seq::empty(),
        }));
    }
}

proof fn concatenated_splits(a: Seq<Seq<char>>, b: Seq<Seq<char>>)
    ensures
        concatenated(a + b) == concatenated(a) + concatenated(b),
    decreases b.len(),
{
    if b.len() == 0 {
        assert(a + b =~= a);
        assert(concatenated(a) + concatenated(b) =~= concatenated(a));
    } else {
        concatenated_splits(a, b.drop_last());
        assert((a + b).drop_last() =~= a + b.drop_last());
        assert(concatenated(a + b) =~= concatenated(a) + concatenated(b));
    }
}

/// The texts of parts are those of their first parts, then those of the rest,
/// and only a text part has a text: its own.
pub proof fn texts_are_listed_in_order(a: Seq<ContentView>, b: Seq<ContentView>)
    ensures
        texts_in(a + b) == texts_in(a) + texts_in(b),
        forall|x: ContentView|
            #![trigger texts_in(seq![x])]
            texts_in(seq![x]) == (match x {
                ContentView::Text { text } => seq![text],
                _ => Seq::empty(),
            }),
    decreases b.len(),
{
    if b.len() == 0 {
        assert(a + b =~= a);
        assert(texts_in(a) + texts_in(b) =~= texts_in(a));
    } else {
        texts_are_listed_in_order(a, b.drop_last());
        assert((a + b).drop_last() =~= a + b.drop_last());
        assert((a + b).last() == b.last());
        assert(texts_in(a + b) =~= texts_in(a) + texts_in(b));
    }
    assert forall|x: ContentView|
        #![trigger texts_in(seq![x])]
        texts_in(seq![x]) == (match x {
            ContentView::Text { text } => seq![text],
            _ => Seq::empty(),
        }) by {
        let one = seq![x];
        assert(one.drop_last() =~= Seq::empty());
        assert(texts_in(one.drop_last()) =~= Seq::empty());
        assert(texts_in(one) =~= (match x {
            ContentView::Text { text } => seq![text],
            _ => Seq::empty(),
        }));
    }
}

/// The text of a message is the text of its first parts and that of the rest,
/// with nothing between them; a text part says what it holds, and any other
/// part says nothing.
pub proof fn messages_say_their_texts(
    role: Role,
    a: Seq<ContentView>,
    b: Seq<ContentView>,
    x: ContentView,
)
    ensures
        text_of(MessageView { role, content: a + b }) == text_of(MessageView { role, content: a })
            + text_of(MessageView { role, content: b }),
        text_of(MessageView { role, content: seq![x] }) == (match x {
            ContentView::Text { text } => text,
            _ => Seq::empty(),
        }),
{
    texts_are_listed_in_order(a, b);
    concatenated_splits(texts_in(a), texts_in(b));
    let one = seq![x];
    assert(texts_in(one) == (match x {
        ContentView::Text { text } => seq![text],
        _ => Seq::empty(),
    }));
    if let ContentView::Text { text } = x {
        assert(seq![text].drop_last() =~= Seq::empty());
        assert(concatenated(seq![text].drop_last()) =~= Seq::<char>::empty());
        assert(concatenated(seq![text]) =~= text);
    } else {
        assert(concatenated(texts_in(one)) =~= Seq::<char>::empty());
    }
}

/// A message has tool results exactly where one of its parts is one, and calls
/// for tools exactly where one is a call.
pub proof fn parts_tell_what_a_message_has(
    role: Role,
    a: Seq<ContentView>,
    b: Seq<ContentView>,
    x: ContentView,
)
    ensures
        has_results(MessageView { role, content: a + seq![x] + b }) <==> x is ToolResult
            || has_results(MessageView { role, content: a }) || has_results(
            MessageView { role, content: b },
        ),
        has_requests(MessageView { role, content: a + seq![x] + b }) <==> x is ToolRequest
            || has_requests(MessageView { role, content: a }) || has_requests(
            MessageView { role, content: b },
        ),
        !has_results(MessageView { role, content: Seq::empty() }),
        !has_requests(MessageView { role, content: Seq::empty() }),
{
    let c = a + seq![x] + b;
    let n = a.len() as int;
    assert(c[n] == x);
    assert forall|i: int| 0 <= i < c.len() implies (#[trigger] c[i]) == (if i < n {
        a[i]
    } else if i == n {
        x
    } else {
        b[i - n - 1]
    }) by {}
    let m = MessageView { role, content: c };
    if has_results(m) {
        let i = choose|i: int| 0 <= i < c.len() && #[trigger] m.content[i] is ToolResult;
        assert(c[i] is ToolResult);
        if i < n {
            assert(MessageView { role, content: a }.content[i] is ToolResult);
        } else if i > n {
            assert(MessageView { role, content: b }.content[i - n - 1] is ToolResult);
        }
    }
    if has_results(MessageView { role, content: a }) {
        let i = choose|i: int| 0 <= i < a.len() && #[trigger] a[i] is ToolResult;
        assert(m.content[i] is ToolResult);
    }
    if has_results(MessageView { role, content: b }) {
        let i = choose|i: int| 0 <= i < b.len() && #[trigger] b[i] is ToolResult;
        assert(m.content[n + 1 + i] == b[i]);
    }
    if has_requests(m) {
        let i = choose|i: int| 0 <= i < c.len() && #[trigger] m.content[i] is ToolRequest;
        assert(c[i] is ToolRequest);
        if i < n {
            assert(MessageView { role, content: a }.content[i] is ToolRequest);
        } else if i > n {
            assert(MessageView { role, content: b }.content[i - n - 1] is ToolRequest);
        }
    }
    if has_requests(MessageView { role, content: a }) {
        let i = choose|i: int| 0 <= i < a.len() && #[trigger] a[i] is ToolRequest;
        assert(m.content[i] is ToolRequest);
    }
    if has_requests(MessageView { role, content: b }) {
        let i = choose|i: int| 0 <= i < b.len() && #[trigger] b[i] is ToolRequest;
        assert(m.content[n + 1 + i] == b[i]);
    }
    assert(m.content[n] == x);
}

} // verus!
