//! Conversation messages exchanged with the model.
use crate::text::string_of;
use vstd::prelude::*;

verus! {

#[derive(Debug, Clone, Copy, PartialEq, Eq, Structural)]
pub enum Role {
    System,
    User,
    Assistant,
    Tool,
}

/// The function half of a tool call: the tool's name and its JSON arguments.
#[derive(Debug)]
pub struct ToolCallFunction {
    pub name: String,
    pub arguments: String,
}

/// One tool invocation requested by the model.
#[derive(Debug)]
pub struct ToolCall {
    pub id: String,
    pub call_type: String,
    pub function: ToolCallFunction,
}

/// A chat message; the variant is the role.
#[derive(Debug)]
#[allow(inconsistent_fields)]
pub enum ChatMessage {
    System { content: String, name: Option<String> },
    User { content: String, name: Option<String> },
    Assistant { content: Option<String>, tool_calls: Option<Vec<ToolCall>>, name: Option<String> },
    Tool { tool_call_id: String, content: String, name: Option<String> },
}

/// Mathematical view of a tool call.
pub struct ToolCallView {
    pub id: Seq<char>,
    pub call_type: Seq<char>,
    pub name: Seq<char>,
    pub arguments: Seq<char>,
}

impl View for ToolCall {
    type V = ToolCallView;

    open spec fn view(&self) -> ToolCallView {
        ToolCallView {
            id: self.id@,
            call_type: self.call_type@,
            name: self.function.name@,
            arguments: self.function.arguments@,
        }
    }
}

pub open spec fn opt_view(o: Option<String>) -> Option<Seq<char>> {
    match o {
        Some(s) => Some(s@),
        None => None,
    }
}

pub open spec fn calls_view(v: Seq<ToolCall>) -> Seq<ToolCallView> {
    v.map_values(|c: ToolCall| c@)
}

pub open spec fn opt_calls_view(o: Option<Vec<ToolCall>>) -> Option<Seq<ToolCallView>> {
    match o {
        Some(v) => Some(calls_view(v@)),
        None => None,
    }
}

/// Mathematical view of a chat message.
#[allow(inconsistent_fields)]
pub enum MessageView {
    System { content: Seq<char>, name: Option<Seq<char>> },
    User { content: Seq<char>, name: Option<Seq<char>> },
    Assistant {
        content: Option<Seq<char>>,
        tool_calls: Option<Seq<ToolCallView>>,
        name: Option<Seq<char>>,
    },
    Tool { tool_call_id: Seq<char>, content: Seq<char>, name: Option<Seq<char>> },
}

impl View for ChatMessage {
    type V = MessageView;

    open spec fn view(&self) -> MessageView {
        match self {
            ChatMessage::System { content, name } => MessageView::System {
                content: content@,
                name: opt_view(*name),
            },
            ChatMessage::User { content, name } => MessageView::User {
                content: content@,
                name: opt_view(*name),
            },
            ChatMessage::Assistant { content, tool_calls, name } => MessageView::Assistant {
                content: opt_view(*content),
                tool_calls: opt_calls_view(*tool_calls),
                name: opt_view(*name),
            },
            ChatMessage::Tool { tool_call_id, content, name } => MessageView::Tool {
                tool_call_id: tool_call_id@,
                content: content@,
                name: opt_view(*name),
            },
        }
    }
}

pub open spec fn role_of(m: MessageView) -> Role {
    match m {
        MessageView::System { .. } => Role::System,
        MessageView::User { .. } => Role::User,
        MessageView::Assistant { .. } => Role::Assistant,
        MessageView::Tool { .. } => Role::Tool,
    }
}

/// The textual content of a message, when it has one.
pub open spec fn content_of(m: MessageView) -> Option<Seq<char>> {
    match m {
        MessageView::System { content, .. } => Some(content),
        MessageView::User { content, .. } => Some(content),
        MessageView::Assistant { content, .. } => content,
        MessageView::Tool { content, .. } => Some(content),
    }
}

pub fn clone_opt_string(o: &Option<String>) -> (r: Option<String>)
    ensures
        r == *o,
{
    match o {
        Some(s) => Some(s.clone()),
        None => None,
    }
}

impl ToolCall {
    /// A `function`-type tool call.
    pub fn new_function(id: &str, name: &str, arguments: &str) -> (r: ToolCall)
        ensures
            r.id@ == id@,
            r.call_type@ == "function"@,
            r.function.name@ == name@,
            r.function.arguments@ == arguments@,
    {
        ToolCall {
            id: string_of(id),
            call_type: string_of("function"),
            function: ToolCallFunction { name: string_of(name), arguments: string_of(arguments) },
        }
    }

    pub fn duplicate(&self) -> (r: ToolCall)
        ensures
            r@ == self@,
    {
        ToolCall {
            id: self.id.clone(),
            call_type: self.call_type.clone(),
            function: ToolCallFunction {
                name: self.function.name.clone(),
                arguments: self.function.arguments.clone(),
            },
        }
    }
}

pub fn clone_tool_calls(v: &Vec<ToolCall>) -> (r: Vec<ToolCall>)
    ensures
        calls_view(r@) == calls_view(v@),
{
    let mut r: Vec<ToolCall> = Vec::new();
    let mut i: usize = 0;
    while i < v.len()
        invariant
            i <= v.len(),
            r.len() == i,
            forall|k: int| 0 <= k < i ==> (#[trigger] r@[k])@ == v@[k]@,
        decreases v.len() - i,
    {
        r.push(v[i].duplicate());
        i += 1;
    }
    assert(calls_view(r@) =~= calls_view(v@));
    r
}

impl ChatMessage {
    pub fn system(content: &str) -> (m: ChatMessage)
        ensures
            m == (ChatMessage::System { content: m->System_content, name: None }),
            m->System_content@ == content@,
    {
        ChatMessage::System { content: string_of(content), name: None }
    }

    pub fn user(content: &str) -> (m: ChatMessage)
        ensures
            m == (ChatMessage::User { content: m->User_content, name: None }),
            m->User_content@ == content@,
    {
        ChatMessage::User { content: string_of(content), name: None }
    }

    pub fn assistant(content: Option<String>, tool_calls: Option<Vec<ToolCall>>) -> (m: ChatMessage)
        ensures
            m == (ChatMessage::Assistant { content, tool_calls, name: None }),
    {
        ChatMessage::Assistant { content, tool_calls, name: None }
    }

    pub fn assistant_text(content: &str) -> (m: ChatMessage)
        ensures
            m matches ChatMessage::Assistant { content: Some(c), tool_calls: None, name: None } && c@
                == content@,
    {
        ChatMessage::Assistant { content: Some(string_of(content)), tool_calls: None, name: None }
    }

    pub fn role(&self) -> (r: Role)
        ensures
            r == role_of(self@),
    {
        match self {
            ChatMessage::System { .. } => Role::System,
            ChatMessage::User { .. } => Role::User,
            ChatMessage::Assistant { .. } => Role::Assistant,
            ChatMessage::Tool { .. } => Role::Tool,
        }
    }

    pub fn content_str(&self) -> (r: Option<&str>)
        ensures
            match r {
                Some(s) => content_of(self@) == Some(s@),
                None => content_of(self@) is None,
            },
    {
        match self {
            ChatMessage::System { content, .. } => Some(content.as_str()),
            ChatMessage::User { content, .. } => Some(content.as_str()),
            ChatMessage::Assistant { content, .. } => match content {
                Some(c) => Some(c.as_str()),
                None => None,
            },
            ChatMessage::Tool { content, .. } => Some(content.as_str()),
        }
    }

    /// A field-for-field copy.
    pub fn duplicate(&self) -> (r: ChatMessage)
        ensures
            r@ == self@,
    {
        match self {
            ChatMessage::System { content, name } => ChatMessage::System {
                content: content.clone(),
                name: clone_opt_string(name),
            },
            ChatMessage::User { content, name } => ChatMessage::User {
                content: content.clone(),
                name: clone_opt_string(name),
            },
            ChatMessage::Assistant { content, tool_calls, name } => ChatMessage::Assistant {
                content: clone_opt_string(content),
                tool_calls: match tool_calls {
                    Some(v) => Some(clone_tool_calls(v)),
                    None => None,
                },
                name: clone_opt_string(name),
            },
            ChatMessage::Tool { tool_call_id, content, name } => ChatMessage::Tool {
                tool_call_id: tool_call_id.clone(),
                content: content.clone(),
                name: clone_opt_string(name),
            },
        }
    }
}

} // verus!
