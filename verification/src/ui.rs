//! The browser views' own state: the sidebar, the signed-in user, and the
//! node the page was served by.

use vstd::prelude::*;

use crate::client::{ApiError, NodeObject};
use crate::text::{after_first, decimal, decimal_string, is_prefix, prefix_until, second_piece, starts_with, text_before};

verus! {

/// Whether the sidebar is open.
pub struct UIContext {
    pub is_sidebar_open: bool,
}

/// The context with its sidebar toggled.
pub open spec fn toggled(u: UIContext) -> UIContext {
    UIContext { is_sidebar_open: !u.is_sidebar_open }
}

/// Toggling the sidebar twice leaves it as it was.
pub proof fn lemma_toggle_twice(u: UIContext)
    ensures
        toggled(toggled(u)) == u,
{
}

impl UIContext {
    /// The sidebar starts open.
    pub fn new() -> (u: UIContext)
        ensures
            u.is_sidebar_open,
    {
        UIContext { is_sidebar_open: true }
    }

    /// Opens a closed sidebar, closes an open one.
    pub fn toggle_sidebar(&mut self)
        ensures
            *final(self) == toggled(*old(self)),
    {
        self.is_sidebar_open = !self.is_sidebar_open;
    }
}

/// The action behind the sidebar button: it toggles the sidebar of the
/// context it is given.
pub fn use_toggle_sidebar() -> (toggle: impl Fn(UIContext) -> UIContext)
    ensures
        forall|u: UIContext| call_requires(toggle, (u,)),
        forall|u: UIContext, r: UIContext| call_ensures(toggle, (u,), r) ==> r == toggled(u),
{
    |u: UIContext| -> (r: UIContext)
        ensures
            r == toggled(u),
        {
            let mut v = u;
            v.toggle_sidebar();
            v
        }
}

/// Two calls of a sidebar action, such as the one `use_toggle_sidebar`
/// gives, leave the context as it was.
pub proof fn lemma_toggle_action_twice<F: Fn(UIContext) -> UIContext>(toggle: F, u: UIContext, once: UIContext, twice: UIContext)
    requires
        forall|x: UIContext, r: UIContext| call_ensures(toggle, (x,), r) ==> r == toggled(x),
        call_ensures(toggle, (u,), once),
        call_ensures(toggle, (once,), twice),
    ensures
        twice == u,
{
    lemma_toggle_twice(u);
}

/// The signed-in user, if any.
pub struct SessionContext {
    pub username: Option<String>,
}

impl SessionContext {
    /// Nobody is signed in.
    pub fn new() -> (s: SessionContext)
        ensures
            s.username is None,
    {
        SessionContext { username: None }
    }

    pub fn set_username(&mut self, username: Option<String>)
        ensures
            final(self).username == username,
    {
        self.username = username;
    }
}

/// The port of a WebSocket address: the text after its first colon, up to
/// the next one; `8080` when the address has no colon.
pub open spec fn ws_port(addr: Seq<char>) -> Seq<char> {
    match after_first(addr, ':') {
        Some(rest) => prefix_until(rest, ':'),
        None => "8080"@,
    }
}

/// The chat server of the node the page came from: on `localhost` when the
/// browser runs on the node itself (its address starts with `127.0.0.1`),
/// else on the node's local address (the text before its first colon); in
/// both cases at the node's WebSocket port.
pub open spec fn chat_server_url(node: NodeObject) -> Seq<char> {
    if is_prefix("127.0.0.1"@, node.client_ip@) {
        "ws://localhost:"@ + ws_port(node.web_socket_addr@)
    } else {
        "ws://"@ + prefix_until(node.local_ip@, ':') + ":"@ + ws_port(node.web_socket_addr@)
    }
}

/// The address of the chat server for the node described by `node`.
pub fn server_url_for(node: &NodeObject) -> (u: String)
    ensures
        u@ == chat_server_url(*node),
{
    let port = match second_piece(node.web_socket_addr.as_str(), ':') {
        Some(p) => p,
        None => String::from_str("8080"),
    };
    if starts_with(node.client_ip.as_str(), "127.0.0.1") {
        String::from_str("ws://localhost:").concat(port.as_str())
    } else {
        let host = text_before(node.local_ip.as_str(), ':');
        String::from_str("ws://").concat(host.as_str()).concat(":").concat(port.as_str())
    }
}

/// What the page knows of the node it came from.
pub struct NodeContext {
    pub node_info: Option<NodeObject>,
    pub server_url: Option<String>,
    pub is_loading: bool,
}

impl NodeContext {
    /// Nothing known yet; loading.
    pub fn new() -> (c: NodeContext)
        ensures
            c.node_info is None,
            c.server_url is None,
            c.is_loading,
    {
        NodeContext { node_info: None, server_url: None, is_loading: true }
    }

    /// Takes in the answer to the node-information request: on success the
    /// node and its chat server are recorded; on failure nothing is. Either
    /// way loading is over.
    pub fn fetch_node_info(&mut self, answer: Result<NodeObject, ApiError>)
        ensures
            !final(self).is_loading,
            match answer {
                Ok(o) => final(self).node_info == Some(o) && (final(self).server_url matches Some(u) && u@
                    == chat_server_url(o)),
                Err(_) => final(self).node_info == old(self).node_info && final(self).server_url == old(self).server_url,
            },
    {
        match answer {
            Ok(node_object) => {
                let url = server_url_for(&node_object);
                self.server_url = Some(url);
                self.node_info = Some(node_object);
            },
            Err(_) => {},
        }
        self.is_loading = false;
    }
}

/// The device name under which a quick connection registers: `Device-`
/// followed by the given suffix in decimal.
pub fn quick_connect_device_name(suffix: u32) -> (name: String)
    ensures
        name@ == "Device-"@ + decimal(suffix as nat),
{
    let digits = decimal_string(suffix as u64);
    String::from_str("Device-").concat(digits.as_str())
}

} // verus!
