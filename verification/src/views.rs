//! What the browser pages decide: where a page sends its visitor, which
//! room is highlighted, how a chat message is shown, when a message or a
//! room name can be sent, and the labels that count things.

use vstd::prelude::*;

use crate::chat_client::ChatWebSocketContext;
use crate::proto::{messages_view, ChatMessage, ChatMessageView, Room};
use crate::text::{decimal, decimal_string, digit_char, digit_str, i64_of, is_blank, is_blank_text, parse_i64, str_eq};

verus! {

/// Where the home page sends a visitor: to the sign-in page when nobody is
/// signed in.
pub fn home_redirect(username: &Option<String>) -> (to: Option<&'static str>)
    ensures
        username is None <==> to is Some,
        to matches Some(p) ==> p@ == "/signin"@,
{
    match username {
        Some(_) => None,
        None => Some("/signin"),
    }
}

/// Where the sign-in page sends a visitor: home once somebody is signed in.
pub fn signin_redirect(username: &Option<String>) -> (to: Option<&'static str>)
    ensures
        username is Some <==> to is Some,
        to matches Some(p) ==> p@ == "/"@,
{
    match username {
        Some(_) => Some("/"),
        None => None,
    }
}

/// The name the sign-in form submits: the typed name, unless it is blank.
pub fn sign_in_name(typed: String) -> (name: Option<String>)
    ensures
        is_blank_text(typed@) <==> name is None,
        name matches Some(n) ==> n@ == typed@,
{
    if is_blank(typed.as_str()) {
        None
    } else {
        Some(typed)
    }
}

/// The room name the sidebar creates a room with: the typed name, unless
/// it is blank.
pub fn new_room_name(typed: String) -> (name: Option<String>)
    ensures
        is_blank_text(typed@) <==> name is None,
        name matches Some(n) ==> n@ == typed@,
{
    if is_blank(typed.as_str()) {
        None
    } else {
        Some(typed)
    }
}

/// Whether the room `room_id` is the active one.
pub fn is_active_room(active: &Option<Room>, room_id: u128) -> (r: bool)
    ensures
        r == (active matches Some(a) && a.id == room_id),
{
    match active {
        Some(a) => a.id == room_id,
        None => false,
    }
}

/// The label under a room: how many take part in it.
pub fn participants_label(count: usize) -> (s: String)
    ensures
        s@ == decimal(count as nat) + " participant(s)"@,
{
    decimal_string(count as u64).concat(" participant(s)")
}

/// The heading of the node list: how many nodes are known.
pub fn nodes_heading(count: usize) -> (s: String)
    ensures
        s@ == "Nodes ("@ + decimal(count as nat) + ")"@,
{
    String::from_str("Nodes (").concat(decimal_string(count as u64).as_str()).concat(")")
}

/// What the node list says while it is empty.
pub fn empty_nodes_hint(is_connected: bool) -> (s: &'static str)
    ensures
        is_connected ==> s@ == "No nodes discovered yet..."@,
        !is_connected ==> s@ == "Connect to see nodes"@,
{
    if is_connected {
        "No nodes discovered yet..."
    } else {
        "Connect to see nodes"
    }
}

/// What the message box says while it is empty.
pub fn message_placeholder(is_connected: bool) -> (s: &'static str)
    ensures
        is_connected ==> s@ == "Type a message..."@,
        !is_connected ==> s@ == "Connecting..."@,
{
    if is_connected {
        "Type a message..."
    } else {
        "Connecting..."
    }
}

/// How a chat message is shown to the user `username`.
#[derive(PartialEq, Eq, Structural, Clone, Copy, Debug)]
pub struct MessageKind {
    /// The user sent it: it is placed on the user's side.
    pub own: bool,
    /// It was sent as `System`: it gets the chat's own styling.
    pub system: bool,
    /// Its sender's name is shown above it: neither the user's nor the chat's.
    pub shows_sender: bool,
}

/// How a message from `sender` is shown to `username`. Both flags can hold
/// at once, for a user called `System`.
pub fn message_kind(sender: &str, username: &str) -> (k: MessageKind)
    ensures
        k.own == (sender@ == username@),
        k.system == (sender@ == "System"@),
        k.shows_sender == (!k.own && !k.system),
{
    let own = str_eq(sender, username);
    let system = str_eq(sender, "System");
    MessageKind { own, system, shows_sender: !own && !system }
}

/// Whether the send button is enabled: connected, with a message that is
/// not blank.
pub fn can_send(is_connected: bool, typed: &str) -> (r: bool)
    ensures
        r == (is_connected && !is_blank_text(typed@)),
{
    is_connected && !is_blank(typed)
}

/// The room a typed message goes to when sent: the active room, provided
/// the message is not blank.
pub fn message_destination(typed: &str, active: &Option<Room>) -> (to: Option<u128>)
    ensures
        to is Some <==> (!is_blank_text(typed@) && active is Some),
        to matches Some(id) ==> (active matches Some(a) && a.id == id),
{
    if is_blank(typed) {
        return None;
    }
    match active {
        Some(room) => Some(room.id),
        None => None,
    }
}

/// The messages the chat area shows: those of the active room, or none
/// when no room is active.
pub fn room_messages(ctx: &ChatWebSocketContext) -> (r: Vec<ChatMessage>)
    ensures
        messages_view(r@) == (match ctx@.active_room {
            Some(room) => if ctx@.messages.contains_key(room.id) {
                ctx@.messages[room.id]
            } else {
                Seq::<ChatMessageView>::empty()
            },
            None => Seq::<ChatMessageView>::empty(),
        }),
{
    match ctx.active_room() {
        Some(room) => ctx.messages_for(room.id),
        None => {
            let v: Vec<ChatMessage> = Vec::new();
            assert(messages_view(v@) =~= Seq::<ChatMessageView>::empty());
            v
        },
    }
}

/// The minute of the day (0 to 1439) at which the instant `ms`
/// (milliseconds since the epoch) falls, on a clock `offset` minutes ahead
/// of UTC.
pub open spec fn local_minute(ms: int, offset: int) -> int {
    (ms / 60000 + offset) % 1440
}

/// A minute of the day as `HH:MM`, each part with two digits.
pub open spec fn clock_text(m: int) -> Seq<char> {
    let h = m / 60;
    let mi = m % 60;
    seq![digit_char((h / 10) as nat), digit_char((h % 10) as nat), ':', digit_char((mi / 10) as nat), digit_char((mi % 10) as nat)]
}

/// Two decimal digits of `n`, below 100.
fn two_digits(n: u64) -> (s: String)
    requires
        n < 100,
    ensures
        s@ == seq![digit_char((n / 10) as nat), digit_char((n % 10) as nat)],
{
    String::from_str(digit_str(n / 10)).concat(digit_str(n % 10))
}

/// The time label of a chat message: its timestamp text read as
/// milliseconds since the epoch (as `parse::<i64>` reads it), shown as the
/// hour and minute on a clock `offset_minutes` ahead of UTC; `00:00` when
/// the text is not such a number.
pub fn format_time(timestamp: &str, offset_minutes: i32) -> (s: String)
    ensures
        match i64_of(timestamp@) {
            Some(ms) => s@ == clock_text(local_minute(ms as int, offset_minutes as int)),
            None => s@ == "00:00"@,
        },
{
    match parse_i64(timestamp) {
        None => String::from_str("00:00"),
        Some(ms) => clock_string(day_minute(ms, offset_minutes)),
    }
}

/// The minute of the day at which `ms` falls, `offset` minutes ahead of UTC.
fn day_minute(ms: i64, offset: i32) -> (m: u64)
    ensures
        m as int == local_minute(ms as int, offset as int),
        m < 1440,
{
    // A whole number of days added, to work with counts that are never negative.
    let shifted: u128 = (ms as i128 + 9_504_000_000_000_000_000i128) as u128;
    let ahead: u128 = (offset as i128 + 2_160_000_000i128) as u128;
    let m: u128 = (shifted / 60000 + ahead) % 1440;
    assert(m as int == local_minute(ms as int, offset as int));
    m as u64
}

/// A minute of the day as `HH:MM`.
fn clock_string(day_minute: u64) -> (s: String)
    requires
        day_minute < 1440,
    ensures
        s@ == clock_text(day_minute as int),
{
    let h = two_digits(day_minute / 60);
    let m = two_digits(day_minute % 60);
    let text = h.concat(":").concat(m.as_str());
    proof {
        reveal_strlit(":");
        assert(text@ =~= clock_text(day_minute as int));
    }
    text
}

} // verus!
