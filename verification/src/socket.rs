use vstd::prelude::*;

verus! {

/// What happened to a resource of the client's API.
#[derive(Debug, Clone, Copy, PartialEq, Eq, Structural)]
pub enum EventType {
    Create,
    Update,
    Delete,
}

impl EventType {
    /// The event type that the client names `name`; `None` for a name that
    /// is none of `Create`, `Update` and `Delete`.
    pub fn from_name(name: &str) -> (r: Option<EventType>)
        ensures
            r == spec_event_type_from_name(name@),
    {
        let s = String::from_str(name);
        if s == String::from_str("Create") {
            Some(EventType::Create)
        } else if s == String::from_str("Update") {
            Some(EventType::Update)
        } else if s == String::from_str("Delete") {
            Some(EventType::Delete)
        } else {
            None
        }
    }
}

/// The event type that the client names `name`.
pub open spec fn spec_event_type_from_name(name: Seq<char>) -> Option<EventType> {
    if name == "Create"@ {
        Some(EventType::Create)
    } else if name == "Update"@ {
        Some(EventType::Update)
    } else if name == "Delete"@ {
        Some(EventType::Delete)
    } else {
        None
    }
}

/// The body of an event of the client's JSON API.
#[derive(Debug)]
pub struct WampBody {
    pub event_type: EventType,
    pub uri: String,
    pub data: serde_json::Value,
}

/// A WAMP message of the client's WebSocket: a message code, the event
/// name, and the body.
#[derive(Debug)]
pub struct WampMessage(pub u32, pub String, pub WampBody);

/// The name of the event that carries every change of the client's API.
pub open spec fn json_api_event_name() -> Seq<char> {
    "OnJsonApiEvent"@
}

/// The resource that describes the champion-select session.
pub open spec fn champ_select_session_uri() -> Seq<char> {
    "/lol-champ-select/v1/session"@
}

/// The body of `message` when it is an `OnJsonApiEvent`; any other event is
/// ignored.
pub fn json_api_event(message: WampMessage) -> (r: Option<WampBody>)
    ensures
        match r {
            Some(body) => message.1@ == json_api_event_name() && body == message.2,
            None => message.1@ != json_api_event_name(),
        },
{
    let WampMessage(_code, name, body) = message;
    if name == String::from_str("OnJsonApiEvent") {
        Some(body)
    } else {
        None
    }
}

/// `body` reports an update of the champion-select session.
pub open spec fn spec_is_champ_select_update(body: WampBody) -> bool {
    body.uri@ == champ_select_session_uri() && body.event_type == EventType::Update
}

/// Only an update of exactly the resource `/lol-champ-select/v1/session`
/// is a champion-select update: any other resource, however close (such as
/// `/lol-champ-select/v1/summoners/0`), and any other kind of event are not.
pub proof fn lemma_champ_select_update_exact(body: WampBody)
    ensures
        spec_is_champ_select_update(body) <==> body.event_type == EventType::Update
            && body.uri@ == seq![
            '/', 'l', 'o', 'l', '-', 'c', 'h', 'a', 'm', 'p', '-', 's', 'e', 'l', 'e', 'c', 't',
            '/', 'v', '1', '/', 's', 'e', 's', 's', 'i', 'o', 'n',
        ],
{
    reveal_strlit("/lol-champ-select/v1/session");
    assert("/lol-champ-select/v1/session"@ =~= seq![
        '/', 'l', 'o', 'l', '-', 'c', 'h', 'a', 'm', 'p', '-', 's', 'e', 'l', 'e', 'c', 't',
        '/', 'v', '1', '/', 's', 'e', 's', 's', 'i', 'o', 'n',
    ]);
}

/// Of the client's events only `OnJsonApiEvent` is read, and the event
/// types are named exactly `Create`, `Update` and `Delete`.
pub proof fn lemma_event_names(name: Seq<char>)
    ensures
        json_api_event_name() == seq!['O', 'n', 'J', 's', 'o', 'n', 'A', 'p', 'i', 'E', 'v', 'e', 'n', 't'],
        spec_event_type_from_name(name) == Some(EventType::Create) <==> name == seq!['C', 'r', 'e', 'a', 't', 'e'],
        spec_event_type_from_name(name) == Some(EventType::Update) <==> name == seq!['U', 'p', 'd', 'a', 't', 'e'],
        spec_event_type_from_name(name) == Some(EventType::Delete) <==> name == seq!['D', 'e', 'l', 'e', 't', 'e'],
        spec_event_type_from_name(name) is None <==> name != seq!['C', 'r', 'e', 'a', 't', 'e'] && name != seq!['U', 'p', 'd', 'a', 't', 'e']
            && name != seq!['D', 'e', 'l', 'e', 't', 'e'],
{
    reveal_strlit("OnJsonApiEvent");
    reveal_strlit("Create");
    reveal_strlit("Update");
    reveal_strlit("Delete");
    assert("OnJsonApiEvent"@ =~= seq!['O', 'n', 'J', 's', 'o', 'n', 'A', 'p', 'i', 'E', 'v', 'e', 'n', 't']);
    assert("Create"@ =~= seq!['C', 'r', 'e', 'a', 't', 'e']);
    assert("Update"@ =~= seq!['U', 'p', 'd', 'a', 't', 'e']);
    assert("Delete"@ =~= seq!['D', 'e', 'l', 'e', 't', 'e']);
}

/// Whether `body` reports an update of the champion-select session, the
/// only event the application acts on.
pub fn is_champ_select_update(body: &WampBody) -> (r: bool)
    ensures
        r == spec_is_champ_select_update(*body),
{
    body.uri == String::from_str("/lol-champ-select/v1/session") && body.event_type
        == EventType::Update
}

/// The data of the champion-select session update that `message` carries,
/// or `None` when `message` is any other event.
pub fn session_update_data(message: WampMessage) -> (r: Option<serde_json::Value>)
    ensures
        match r {
            Some(data) => message.1@ == json_api_event_name() && spec_is_champ_select_update(
                message.2,
            ) && data == message.2.data,
            None => !(message.1@ == json_api_event_name() && spec_is_champ_select_update(
                message.2,
            )),
        },
{
    match json_api_event(message) {
        None => None,
        Some(body) => {
            if is_champ_select_update(&body) {
                Some(body.data)
            } else {
                None
            }
        },
    }
}

} // verus!
