//! Assembly of the ordered chat message list for one route.
//!
//! The order is fixed: one system message with the system-prompt text, one
//! user message naming the route and method, one user message per
//! controller in the given order, and a trailing user message when extra
//! detail is present.

use crate::text::{dec_string, spec_dec};
use vstd::prelude::*;
use vstd::string::StringExecFns;

verus! {

/// The role tag of a chat message.
#[derive(Clone, Copy, PartialEq, Eq, Structural, Debug)]
pub enum Role {
    System,
    User,
}

/// One role-tagged text unit of the chat request.
#[derive(Debug)]
pub struct Message {
    pub role: Role,
    pub content: String,
}

/// The mathematical value of a [`Message`].
pub struct MessageView {
    pub role: Role,
    pub content: Seq<char>,
}

impl View for Message {
    type V = MessageView;

    open spec fn view(&self) -> MessageView {
        MessageView { role: self.role, content: self.content@ }
    }
}

/// One controller file given to a route: its path and its text.
#[derive(Debug)]
pub struct ControllerEntry {
    pub path: String,
    pub content: String,
}

impl View for ControllerEntry {
    type V = (Seq<char>, Seq<char>);

    open spec fn view(&self) -> (Seq<char>, Seq<char>) {
        (self.path@, self.content@)
    }
}

/// The user message naming the route: `route: {path} method: {method}`.
pub open spec fn route_line(path: Seq<char>, method: Seq<char>) -> Seq<char> {
    "route: "@ + path + " method: "@ + method
}

/// The user message for the controller at 0-based position `i`:
/// `controller {i+1}: \n path: {path} \n content: \n {content}`.
pub open spec fn controller_line(i: int, path: Seq<char>, content: Seq<char>) -> Seq<char> {
    "controller "@ + spec_dec((i + 1) as nat) + ": \n path: "@ + path + " \n content: \n "@
        + content
}

/// The whole assembled message list for one route.
pub open spec fn spec_messages(
    system_prompt: Seq<char>,
    path: Seq<char>,
    method: Seq<char>,
    controllers: Seq<(Seq<char>, Seq<char>)>,
    detail: Option<Seq<char>>,
) -> Seq<MessageView> {
    seq![
        MessageView { role: Role::System, content: system_prompt },
        MessageView { role: Role::User, content: route_line(path, method) },
    ] + Seq::new(
        controllers.len(),
        |i: int| MessageView { role: Role::User, content: controller_line(i, controllers[i].0, controllers[i].1) },
    ) + match detail {
        Some(d) => seq![MessageView { role: Role::User, content: d }],
        None => Seq::<MessageView>::empty(),
    }
}

/// The views of a message vector, in order.
pub open spec fn messages_view(msgs: Seq<Message>) -> Seq<MessageView> {
    msgs.map_values(|m: Message| m@)
}

/// The views of a controller vector, in order.
pub open spec fn controllers_view(cs: Seq<ControllerEntry>) -> Seq<(Seq<char>, Seq<char>)> {
    cs.map_values(|c: ControllerEntry| c@)
}

/// The view of an optional detail string.
pub open spec fn detail_view(detail: Option<String>) -> Option<Seq<char>> {
    match detail {
        Some(d) => Some(d@),
        None => None,
    }
}

/// The message list always holds the system message, then the route line,
/// then one message per controller in the original order, then the detail
/// message exactly when a detail is present; its length is two plus the
/// controller count plus one for the detail.
pub proof fn lemma_prompt_shape(
    system_prompt: Seq<char>,
    path: Seq<char>,
    method: Seq<char>,
    controllers: Seq<(Seq<char>, Seq<char>)>,
    detail: Option<Seq<char>>,
)
    ensures
        spec_messages(system_prompt, path, method, controllers, detail).len() == 2
            + controllers.len() + (if detail is Some {
            1int
        } else {
            0int
        }),
        spec_messages(system_prompt, path, method, controllers, detail)[0] == (MessageView {
            role: Role::System,
            content: system_prompt,
        }),
        spec_messages(system_prompt, path, method, controllers, detail)[1] == (MessageView {
            role: Role::User,
            content: route_line(path, method),
        }),
        forall|i: int|
            0 <= i < controllers.len() ==> spec_messages(
                system_prompt,
                path,
                method,
                controllers,
                detail,
            )[2 + i] == (MessageView {
                role: Role::User,
                content: controller_line(i, controllers[i].0, controllers[i].1),
            }),
        detail matches Some(d) ==> spec_messages(
            system_prompt,
            path,
            method,
            controllers,
            detail,
        ).last() == (MessageView { role: Role::User, content: d }),
{
}

/// Builds the route line as an owned string.
pub fn make_route_line(path: &str, method: &str) -> (r: String)
    ensures
        r@ == route_line(path@, method@),
{
    let mut r = String::new();
    r.append("route: ");
    r.append(path);
    r.append(" method: ");
    r.append(method);
    assert(r@ =~= route_line(path@, method@));
    r
}

/// Builds the controller message for 0-based position `i`.
pub fn make_controller_line(i: usize, path: &str, content: &str) -> (r: String)
    requires
        i < usize::MAX,
    ensures
        r@ == controller_line(i as int, path@, content@),
{
    let mut r = String::new();
    r.append("controller ");
    let index = dec_string(i + 1);
    r.append(index.as_str());
    r.append(": \n path: ");
    r.append(path);
    r.append(" \n content: \n ");
    r.append(content);
    assert(r@ =~= controller_line(i as int, path@, content@));
    r
}

/// The fixed model identifier sent with every request.
pub fn model_identifier() -> (r: String)
    ensures
        r@ == "llama3.1:8b"@,
{
    "llama3.1:8b".to_owned()
}

/// The chat-completion endpoint under the server's base address.
pub fn chat_endpoint(address: &str) -> (r: String)
    ensures
        r@ == address@ + "/api/chat"@,
{
    let mut r = address.to_owned();
    r.append("/api/chat");
    r
}

/// Assembles the ordered message list for one route from the system-prompt
/// text, the route's path and method, its controllers and optional detail.
pub fn assemble_messages(
    system_prompt: &str,
    path: &str,
    method: &str,
    controllers: &Vec<ControllerEntry>,
    detail: &Option<String>,
) -> (msgs: Vec<Message>)
    ensures
        messages_view(msgs@) == spec_messages(
            system_prompt@,
            path@,
            method@,
            controllers_view(controllers@),
            detail_view(*detail),
        ),
{
    let ghost target = spec_messages(
        system_prompt@,
        path@,
        method@,
        controllers_view(controllers@),
        detail_view(*detail),
    );
    let mut msgs: Vec<Message> = Vec::new();
    msgs.push(Message { role: Role::System, content: system_prompt.to_owned() });
    msgs.push(Message { role: Role::User, content: make_route_line(path, method) });
    assert(msgs@[0]@ == target[0]);
    assert(msgs@[1]@ == target[1]);
    let mut i: usize = 0;
    while i < controllers.len()
        invariant
            i <= controllers@.len(),
            target == spec_messages(
                system_prompt@,
                path@,
                method@,
                controllers_view(controllers@),
                detail_view(*detail),
            ),
            msgs@.len() == 2 + i,
            forall|k: int| 0 <= k < msgs@.len() ==> #[trigger] msgs@[k]@ == target[k],
        decreases controllers@.len() - i,
    {
        let line = make_controller_line(
            i,
            controllers[i].path.as_str(),
            controllers[i].content.as_str(),
        );
        msgs.push(Message { role: Role::User, content: line });
        assert(msgs@[2 + i]@ == target[2 + i]) by {
            assert(controllers_view(controllers@)[i as int] == controllers@[i as int]@);
        }
        i = i + 1;
    }
    match detail {
        Some(d) => {
            msgs.push(Message { role: Role::User, content: d.clone() });
            assert(msgs@[msgs@.len() - 1]@ == target[msgs@.len() - 1]);
        },
        None => {},
    }
    assert(messages_view(msgs@) =~= target);
    msgs
}

} // verus!
