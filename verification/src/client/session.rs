//! One session: the handshake, the messages that arrive, and the messages
//! that leave.

use crate::client::connection::{status_is_success, HttpReply, UNAUTHORIZED};
use crate::client::types::{SessionError, SessionErrorModel, WsClientMessage};
use crate::json::{
    is_object, json_outcome, json_text, number_json, parse_json, parse_json_or_report,
    text_json, texts_json, Json, Shape,
};
use crate::text::{
    concat, concat3, decimal, decimal_string, same, texts_without, without_leaves_the_rest,
    without_texts,
};
use crate::text_map::TextMap;
use std::collections::HashMap;
use vstd::prelude::*;
use vstd::string::StrSliceExecFns;

verus! {

broadcast use {
    vstd::string::group_string_axioms,
    vstd::std_specs::hash::group_hash_axioms,
};

// ---------------------------------------------------------------------------
// Streams
// ---------------------------------------------------------------------------

/// Which stream carries which terminal's output.
pub struct StreamTable {
    by_terminal: TextMap<u32>,
    by_stream: HashMap<u32, String>,
}

/// A [`StreamTable`] as two maps.
pub struct StreamsModel {
    pub by_terminal: Map<Seq<char>, u32>,
    pub by_stream: Map<u32, Seq<char>>,
}

impl StreamsModel {
    /// Without any stream.
    pub open spec fn empty() -> StreamsModel {
        StreamsModel { by_terminal: Map::empty(), by_stream: Map::empty() }
    }

    /// With one more pair.
    pub open spec fn with(self, terminal: Seq<char>, stream: u32) -> StreamsModel {
        StreamsModel {
            by_terminal: self.by_terminal.insert(terminal, stream),
            by_stream: self.by_stream.insert(stream, terminal),
        }
    }

    /// With the pairs of `mappings`, one after another.
    pub open spec fn with_all(self, mappings: Seq<(Seq<char>, u32)>) -> StreamsModel
        decreases mappings.len(),
    {
        if mappings.len() == 0 {
            self
        } else {
            self.with_all(mappings.drop_last()).with(mappings.last().0, mappings.last().1)
        }
    }
}

impl StreamTable {
    pub closed spec fn wf(&self) -> bool {
        self.by_terminal.wf()
    }

    pub closed spec fn view(&self) -> StreamsModel {
        StreamsModel {
            by_terminal: self.by_terminal.view(),
            by_stream: self.by_stream@.map_values(|s: String| s@),
        }
    }

    /// A table without streams.
    pub fn new() -> (r: StreamTable)
        ensures
            r.wf(),
            r.view() == StreamsModel::empty(),
    {
        let r: StreamTable = StreamTable { by_terminal: TextMap::new(), by_stream: HashMap::new() };
        assert(r.view().by_stream == StreamsModel::empty().by_stream);
        r
    }

    /// The stream of a terminal.
    pub fn stream_of(&self, terminal_id: &str) -> (r: Option<u32>)
        requires
            self.wf(),
        ensures
            r == (if self.view().by_terminal.contains_key(terminal_id@) {
                Some(self.view().by_terminal[terminal_id@])
            } else {
                None
            }),
    {
        match self.by_terminal.get(terminal_id) {
            Some(stream) => Some(*stream),
            None => None,
        }
    }

    /// The terminal of a stream.
    pub fn terminal_of(&self, stream_id: u32) -> (r: Option<String>)
        ensures
            r.deep_view() == (if self.view().by_stream.contains_key(stream_id) {
                Some(self.view().by_stream[stream_id])
            } else {
                None
            }),
    {
        match self.by_stream.get(&stream_id) {
            Some(terminal) => Some(terminal.clone()),
            None => None,
        }
    }

    /// Takes in the pairs of a subscription.
    pub fn record(&mut self, mappings: &Vec<(String, u32)>)
        requires
            old(self).wf(),
        ensures
            final(self).wf(),
            final(self).view() == old(self).view().with_all(mappings.deep_view()),
    {
        let ghost all = mappings.deep_view();
        let ghost start = self.view();
        let mut i: usize = 0;
        while i < mappings.len()
            invariant
                i <= mappings@.len(),
                all == mappings.deep_view(),
                self.wf(),
                self.view() == start.with_all(all.take(i as int)),
            decreases mappings@.len() - i,
        {
            let ghost before = self.view();
            let ghost pair = mappings@[i as int];
            assert(all.take(i + 1).drop_last() == all.take(i as int));
            self.by_terminal.insert(mappings[i].0.as_str(), mappings[i].1);
            self.by_stream.insert(mappings[i].1, mappings[i].0.clone());
            assert(self.view().by_stream == before.with(pair.0@, pair.1).by_stream);
            i = i + 1;
        }
        assert(all.take(all.len() as int) == all);
    }

    /// Forgets every stream.
    pub fn clear(&mut self)
        ensures
            final(self).wf(),
            final(self).view() == StreamsModel::empty(),
    {
        self.by_terminal.clear();
        self.by_stream = HashMap::new();
        assert(self.view().by_stream == StreamsModel::empty().by_stream);
    }
}

// ---------------------------------------------------------------------------
// The handshake
// ---------------------------------------------------------------------------

/// The first message of a session: `{"type": "auth", "token": token}`.
pub fn auth_message(token: &str) -> (r: Json)
    ensures
        is_object(
            r,
            seq![("type"@, Shape::Text("auth"@)), ("token"@, Shape::Text(token@))],
        ),
{
    let mut members: Vec<(String, Json)> = Vec::new();
    members.push(("type".to_owned(), text_json("auth")));
    members.push(("token".to_owned(), text_json(token)));
    Json::Object(members)
}

/// The text under `key`, or `other`.
pub open spec fn field_or(document: Json, key: Seq<char>, other: Seq<char>) -> Seq<char> {
    match document.field_text(key) {
        Some(text) => text,
        None => other,
    }
}

fn get_or<'a>(document: &'a Json, key: &str, other: &'a str) -> (r: &'a str)
    ensures
        r@ == field_or(*document, key@, other@),
{
    match document.get_str(key) {
        Some(text) => text,
        None => other,
    }
}

/// What the server's answer to the token means.
pub open spec fn auth_verdict(document: Json) -> Result<(), SessionErrorModel> {
    let kind = field_or(document, "type"@, ""@);
    if kind == "auth_ok"@ {
        Ok(())
    } else if kind == "auth_failed"@ {
        Err(
            SessionErrorModel::Auth(
                "Auth failed: "@ + field_or(document, "error"@, "unknown"@),
            ),
        )
    } else {
        Err(SessionErrorModel::Transient("Unexpected auth response type: "@ + kind))
    }
}

/// The models of a result.
pub open spec fn result_model(r: Result<(), SessionError>) -> Result<(), SessionErrorModel> {
    match r {
        Ok(_) => Ok(()),
        Err(e) => Err(e.deep_view()),
    }
}

/// Judges the server's answer to the token.
pub fn judge_auth(document: &Json) -> (r: Result<(), SessionError>)
    ensures
        result_model(r) == auth_verdict(*document),
{
    let kind: &str = get_or(document, "type", "");
    if same(kind, "auth_ok") {
        Ok(())
    } else if same(kind, "auth_failed") {
        Err(SessionError::Auth(concat("Auth failed: ", get_or(document, "error", "unknown"))))
    } else {
        Err(SessionError::Transient(concat("Unexpected auth response type: ", kind)))
    }
}

/// What came back for the token.
#[derive(Clone, Debug, PartialEq, Eq)]
pub enum AuthReply {
    /// Nothing in time.
    Timeout,
    /// The end of the stream.
    Closed,
    ReadError(String),
    Text(String),
    /// A message that is no text.
    Other,
}

/// What the reply to the token means.
pub open spec fn auth_reply_verdict(reply: AuthReply) -> Result<(), SessionErrorModel> {
    match reply {
        AuthReply::Timeout => Err(SessionErrorModel::Transient("Auth response timeout"@)),
        AuthReply::Closed => Err(
            SessionErrorModel::Transient("WebSocket closed before auth response"@),
        ),
        AuthReply::ReadError(e) => Err(
            SessionErrorModel::Transient("WebSocket read error: "@ + e@),
        ),
        AuthReply::Text(text) => match json_outcome(text@) {
            Ok(document) => auth_verdict(document),
            Err(report) => Err(SessionErrorModel::Transient("Invalid JSON: "@ + report)),
        },
        AuthReply::Other => Err(
            SessionErrorModel::Transient("Expected text message for auth response"@),
        ),
    }
}

/// Judges the reply to the token.
pub fn after_auth(reply: AuthReply) -> (r: Result<(), SessionError>)
    ensures
        result_model(r) == auth_reply_verdict(reply),
{
    match reply {
        AuthReply::Timeout => Err(SessionError::Transient("Auth response timeout".to_owned())),
        AuthReply::Closed => Err(
            SessionError::Transient("WebSocket closed before auth response".to_owned()),
        ),
        AuthReply::ReadError(e) => Err(
            SessionError::Transient(concat("WebSocket read error: ", e.as_str())),
        ),
        AuthReply::Text(text) => match parse_json_or_report(text.as_str()) {
            Ok(document) => judge_auth(&document),
            Err(report) => Err(SessionError::Transient(concat("Invalid JSON: ", report.as_str()))),
        },
        AuthReply::Other => Err(
            SessionError::Transient("Expected text message for auth response".to_owned()),
        ),
    }
}

/// What the answer to the request for the state means.
pub open spec fn state_reply_verdict(reply: HttpReply) -> Result<(), SessionErrorModel> {
    match reply {
        HttpReply::Status { status, status_text } => if status_is_success(status) {
            Ok(())
        } else if status == UNAUTHORIZED {
            Err(SessionErrorModel::Auth("State fetch failed: HTTP "@ + status_text@))
        } else {
            Err(SessionErrorModel::Transient("State fetch failed: HTTP "@ + status_text@))
        },
        HttpReply::Failed(message) => Err(
            SessionErrorModel::Transient("Failed to fetch state: "@ + message@),
        ),
    }
}

/// Judges the answer to the request for the state.
pub fn after_state_fetch(reply: HttpReply) -> (r: Result<(), SessionError>)
    ensures
        result_model(r) == state_reply_verdict(reply),
{
    match reply {
        HttpReply::Status { status, status_text } => if 200 <= status && status < 300 {
            Ok(())
        } else {
            let message: String = concat("State fetch failed: HTTP ", status_text.as_str());
            if status == UNAUTHORIZED {
                Err(SessionError::Auth(message))
            } else {
                Err(SessionError::Transient(message))
            }
        },
        HttpReply::Failed(message) => Err(
            SessionError::Transient(concat("Failed to fetch state: ", message.as_str())),
        ),
    }
}

// ---------------------------------------------------------------------------
// What a session does
// ---------------------------------------------------------------------------

/// One thing to do for a session.
#[derive(Clone, Debug, PartialEq, Eq)]
pub enum SessionAction {
    /// Remove the terminals of this connection that are not in the list.
    RemoveTerminalsExcept { terminal_ids: Vec<String> },
    CreateTerminal { terminal_id: String },
    RemoveTerminal { terminal_id: String },
    ResizeTerminal { terminal_id: String, cols: u16, rows: u16 },
    TerminalOutput { terminal_id: String, payload: Vec<u8> },
    /// Tell the owner of the state that was fetched last.
    StateReceived,
    /// Tell the owner that the session is up.
    Connected,
    Subscribe { terminal_ids: Vec<String> },
    Unsubscribe { terminal_ids: Vec<String> },
    /// Tell the owner of the streams.
    MappingsReceived { mappings: Vec<(String, u32)> },
    /// Fetch the state again.
    FetchState,
    /// Warn the owner.
    Warn { message: String },
    /// Hand the message's `projects` to the owner as git statuses, where each of
    /// them is one.
    PassGitStatuses,
    /// End the session.
    End(SessionError),
}

/// A [`SessionAction`] with its texts as sequences.
pub enum ActionModel {
    RemoveTerminalsExcept { terminal_ids: Seq<Seq<char>> },
    CreateTerminal { terminal_id: Seq<char> },
    RemoveTerminal { terminal_id: Seq<char> },
    ResizeTerminal { terminal_id: Seq<char>, cols: u16, rows: u16 },
    TerminalOutput { terminal_id: Seq<char>, payload: Seq<u8> },
    StateReceived,
    Connected,
    Subscribe { terminal_ids: Seq<Seq<char>> },
    Unsubscribe { terminal_ids: Seq<Seq<char>> },
    MappingsReceived { mappings: Seq<(Seq<char>, u32)> },
    FetchState,
    Warn { message: Seq<char> },
    PassGitStatuses,
    End(SessionErrorModel),
}

impl DeepView for SessionAction {
    type V = ActionModel;

    open spec fn deep_view(&self) -> ActionModel {
        match self {
            SessionAction::RemoveTerminalsExcept { terminal_ids } =>
                ActionModel::RemoveTerminalsExcept { terminal_ids: terminal_ids.deep_view() },
            SessionAction::CreateTerminal { terminal_id } => ActionModel::CreateTerminal {
                terminal_id: terminal_id@,
            },
            SessionAction::RemoveTerminal { terminal_id } => ActionModel::RemoveTerminal {
                terminal_id: terminal_id@,
            },
            SessionAction::ResizeTerminal { terminal_id, cols, rows } =>
                ActionModel::ResizeTerminal {
                terminal_id: terminal_id@,
                cols: *cols,
                rows: *rows,
            },
            SessionAction::TerminalOutput { terminal_id, payload } => ActionModel::TerminalOutput {
                terminal_id: terminal_id@,
                payload: payload@,
            },
            SessionAction::StateReceived => ActionModel::StateReceived,
            SessionAction::Connected => ActionModel::Connected,
            SessionAction::Subscribe { terminal_ids } => ActionModel::Subscribe {
                terminal_ids: terminal_ids.deep_view(),
            },
            SessionAction::Unsubscribe { terminal_ids } => ActionModel::Unsubscribe {
                terminal_ids: terminal_ids.deep_view(),
            },
            SessionAction::MappingsReceived { mappings } => ActionModel::MappingsReceived {
                mappings: mappings.deep_view(),
            },
            SessionAction::FetchState => ActionModel::FetchState,
            SessionAction::Warn { message } => ActionModel::Warn { message: message@ },
            SessionAction::PassGitStatuses => ActionModel::PassGitStatuses,
            SessionAction::End(error) => ActionModel::End(error.deep_view()),
        }
    }
}

/// `actions` with `next` after it.
fn push_action(actions: &mut Vec<SessionAction>, next: SessionAction)
    ensures
        final(actions).deep_view() == old(actions).deep_view().push(next.deep_view()),
{
    let ghost before = actions.deep_view();
    actions.push(next);
    assert(actions.deep_view() == before.push(next.deep_view()));
}

fn copy_texts(texts: &Vec<String>) -> (r: Vec<String>)
    ensures
        r.deep_view() == texts.deep_view(),
{
    let mut r: Vec<String> = Vec::new();
    let mut i: usize = 0;
    while i < texts.len()
        invariant
            i <= texts@.len(),
            r@.len() == i,
            forall|j: int| 0 <= j < i ==> (#[trigger] r@[j])@ == texts@[j]@,
        decreases texts@.len() - i,
    {
        r.push(texts[i].clone());
        i = i + 1;
    }
    assert(r.deep_view() == texts.deep_view());
    r
}

/// One creation per terminal.
pub open spec fn creations(terminal_ids: Seq<Seq<char>>) -> Seq<ActionModel> {
    Seq::new(
        terminal_ids.len(),
        |i: int| ActionModel::CreateTerminal { terminal_id: terminal_ids[i] },
    )
}

/// One removal per terminal.
pub open spec fn removals(terminal_ids: Seq<Seq<char>>) -> Seq<ActionModel> {
    Seq::new(
        terminal_ids.len(),
        |i: int| ActionModel::RemoveTerminal { terminal_id: terminal_ids[i] },
    )
}

fn push_creations(actions: &mut Vec<SessionAction>, terminal_ids: &Vec<String>)
    ensures
        final(actions).deep_view() == old(actions).deep_view() + creations(
            terminal_ids.deep_view(),
        ),
{
    let ghost start = actions.deep_view();
    let ghost ids = terminal_ids.deep_view();
    let mut i: usize = 0;
    assert(start == start + creations(ids).take(0));
    while i < terminal_ids.len()
        invariant
            i <= terminal_ids@.len(),
            ids == terminal_ids.deep_view(),
            actions.deep_view() == start + creations(ids).take(i as int),
        decreases terminal_ids@.len() - i,
    {
        push_action(
            actions,
            SessionAction::CreateTerminal { terminal_id: terminal_ids[i].clone() },
        );
        assert(start + creations(ids).take(i + 1) == (start + creations(ids).take(i as int)).push(
            creations(ids)[i as int],
        ));
        i = i + 1;
    }
    assert(creations(ids).take(ids.len() as int) == creations(ids));
}

fn push_removals(actions: &mut Vec<SessionAction>, terminal_ids: &Vec<String>)
    ensures
        final(actions).deep_view() == old(actions).deep_view() + removals(terminal_ids.deep_view()),
{
    let ghost start = actions.deep_view();
    let ghost ids = terminal_ids.deep_view();
    let mut i: usize = 0;
    assert(start == start + removals(ids).take(0));
    while i < terminal_ids.len()
        invariant
            i <= terminal_ids@.len(),
            ids == terminal_ids.deep_view(),
            actions.deep_view() == start + removals(ids).take(i as int),
        decreases terminal_ids@.len() - i,
    {
        push_action(
            actions,
            SessionAction::RemoveTerminal { terminal_id: terminal_ids[i].clone() },
        );
        assert(start + removals(ids).take(i + 1) == (start + removals(ids).take(i as int)).push(
            removals(ids)[i as int],
        ));
        i = i + 1;
    }
    assert(removals(ids).take(ids.len() as int) == removals(ids));
}

/// A subscription, unless there is nothing to subscribe to.
pub open spec fn subscription(terminal_ids: Seq<Seq<char>>) -> Seq<ActionModel> {
    if terminal_ids.len() > 0 {
        seq![ActionModel::Subscribe { terminal_ids }]
    } else {
        Seq::empty()
    }
}

/// The end of a subscription, unless there is nothing to end.
pub open spec fn unsubscription(terminal_ids: Seq<Seq<char>>) -> Seq<ActionModel> {
    if terminal_ids.len() > 0 {
        seq![ActionModel::Unsubscribe { terminal_ids }]
    } else {
        Seq::empty()
    }
}

/// What follows the first state of a session.
pub open spec fn initial_sync_model(
    known_ids: Seq<Seq<char>>,
    terminal_ids: Seq<Seq<char>>,
) -> Seq<ActionModel> {
    seq![ActionModel::RemoveTerminalsExcept { terminal_ids: known_ids }] + creations(terminal_ids)
        + seq![ActionModel::StateReceived] + subscription(terminal_ids)
        + seq![ActionModel::Connected]
}

/// Brings the terminals in line with the first state of a session: those that
/// the server no longer knows go, the others are created, and all of them are
/// subscribed to.
pub fn initial_sync(known_ids: &Vec<String>, terminal_ids: &Vec<String>) -> (r: Vec<SessionAction>)
    ensures
        r.deep_view() == initial_sync_model(known_ids.deep_view(), terminal_ids.deep_view()),
{
    let mut actions: Vec<SessionAction> = Vec::new();
    let ghost ids = terminal_ids.deep_view();
    push_action(
        &mut actions,
        SessionAction::RemoveTerminalsExcept { terminal_ids: copy_texts(known_ids) },
    );
    push_creations(&mut actions, terminal_ids);
    push_action(&mut actions, SessionAction::StateReceived);
    let ghost before = actions.deep_view();
    if terminal_ids.len() > 0 {
        push_action(
            &mut actions,
            SessionAction::Subscribe { terminal_ids: copy_texts(terminal_ids) },
        );
    }
    assert(actions.deep_view() == before + subscription(ids));
    push_action(&mut actions, SessionAction::Connected);
    assert(actions.deep_view() == initial_sync_model(known_ids.deep_view(), ids));
    actions
}

/// The terminals that are new in a state, and those that are gone.
pub fn changed_terminals(before: &Vec<String>, after: &Vec<String>) -> (r: (
    Vec<String>,
    Vec<String>,
))
    ensures
        r.0.deep_view() == texts_without(after.deep_view(), before.deep_view()),
        r.1.deep_view() == texts_without(before.deep_view(), after.deep_view()),
{
    (without_texts(after, before), without_texts(before, after))
}

/// What follows a state fetched again.
pub open spec fn state_changed_model(
    added: Seq<Seq<char>>,
    removed: Seq<Seq<char>>,
) -> Seq<ActionModel> {
    creations(added) + removals(removed) + subscription(added) + unsubscription(removed)
        + seq![ActionModel::StateReceived]
}

/// Brings the terminals in line with a state fetched again.
pub fn after_state_change(added: &Vec<String>, removed: &Vec<String>) -> (r: Vec<SessionAction>)
    ensures
        r.deep_view() == state_changed_model(added.deep_view(), removed.deep_view()),
{
    let mut actions: Vec<SessionAction> = Vec::new();
    push_creations(&mut actions, added);
    push_removals(&mut actions, removed);
    let ghost first = actions.deep_view();
    if added.len() > 0 {
        push_action(&mut actions, SessionAction::Subscribe { terminal_ids: copy_texts(added) });
    }
    assert(actions.deep_view() == first + subscription(added.deep_view()));
    let ghost second = actions.deep_view();
    if removed.len() > 0 {
        push_action(&mut actions, SessionAction::Unsubscribe { terminal_ids: copy_texts(removed) });
    }
    assert(actions.deep_view() == second + unsubscription(removed.deep_view()));
    push_action(&mut actions, SessionAction::StateReceived);
    assert(actions.deep_view() == state_changed_model(added.deep_view(), removed.deep_view()));
    actions
}

// ---------------------------------------------------------------------------
// Messages that arrive
// ---------------------------------------------------------------------------

/// The pairs of an object whose values are all numbers of 32 bits.
pub open spec fn pairs_of(members: Seq<(String, Json)>) -> Option<Seq<(Seq<char>, u32)>>
    decreases members.len(),
{
    if members.len() == 0 {
        Some(Seq::empty())
    } else {
        match (pairs_of(members.drop_last()), members.last().1.unsigned()) {
            (Some(front), Some(n)) => if n <= u32::MAX {
                Some(front.push((members.last().0@, n as u32)))
            } else {
                None
            },
            _ => None,
        }
    }
}

proof fn pairs_of_prefix(members: Seq<(String, Json)>, n: int)
    requires
        0 <= n <= members.len(),
        pairs_of(members) is Some,
    ensures
        pairs_of(members.take(n)) is Some,
    decreases members.len(),
{
    if n == members.len() {
        assert(members.take(n) == members);
    } else {
        assert(members.drop_last().take(n) == members.take(n));
        pairs_of_prefix(members.drop_last(), n);
    }
}

/// The streams that a `subscribed` message names.
pub open spec fn mappings_of(document: Json) -> Option<Seq<(Seq<char>, u32)>> {
    match document.field("mappings"@) {
        Some(Json::Object(members)) => pairs_of(members@),
        _ => None,
    }
}

fn read_pairs(members: &Vec<(String, Json)>) -> (r: Option<Vec<(String, u32)>>)
    ensures
        r.deep_view() == pairs_of(members@),
{
    let mut pairs: Vec<(String, u32)> = Vec::new();
    let mut i: usize = 0;
    assert(pairs_of(members@.take(0)) == Some(pairs.deep_view()));
    while i < members.len()
        invariant
            i <= members@.len(),
            pairs_of(members@.take(i as int)) == Some(pairs.deep_view()),
        decreases members@.len() - i,
    {
        assert(members@.take(i + 1).drop_last() == members@.take(i as int));
        let ghost before = pairs.deep_view();
        match members[i].1.as_u64() {
            Some(n) if n <= u32::MAX as u64 => {
                pairs.push((members[i].0.clone(), n as u32));
                assert(pairs.deep_view() == before.push((members@[i as int].0@, n as u32)));
            },
            _ => {
                proof {
                    if pairs_of(members@) is Some {
                        pairs_of_prefix(members@, i + 1);
                    }
                }
                return None;
            },
        }
        i = i + 1;
    }
    assert(members@.take(members@.len() as int) == members@);
    Some(pairs)
}

fn read_mappings(document: &Json) -> (r: Option<Vec<(String, u32)>>)
    ensures
        r.deep_view() == mappings_of(*document),
{
    match document.get("mappings") {
        Some(Json::Object(members)) => read_pairs(members),
        _ => None,
    }
}

/// A size: an array of two numbers of 16 bits.
pub open spec fn size_of(document: Json) -> Option<(u16, u16)> {
    match document.elements() {
        Some(elements) => if elements.len() == 2 {
            match (elements[0].unsigned(), elements[1].unsigned()) {
                (Some(cols), Some(rows)) => if cols <= u16::MAX && rows <= u16::MAX {
                    Some((cols as u16, rows as u16))
                } else {
                    None
                },
                _ => None,
            }
        } else {
            None
        },
        None => None,
    }
}

fn read_size(document: &Json) -> (r: Option<(u16, u16)>)
    ensures
        r == size_of(*document),
{
    match document.as_array() {
        Some(elements) => if elements.len() == 2 {
            match (elements[0].as_u64(), elements[1].as_u64()) {
                (Some(cols), Some(rows)) => if cols <= u16::MAX as u64 && rows <= u16::MAX as u64 {
                    Some((cols as u16, rows as u16))
                } else {
                    None
                },
                _ => None,
            }
        } else {
            None
        },
        None => None,
    }
}

/// One resize per member of an object whose values are all sizes.
pub open spec fn resizes_of(members: Seq<(String, Json)>) -> Option<Seq<ActionModel>>
    decreases members.len(),
{
    if members.len() == 0 {
        Some(Seq::empty())
    } else {
        match (resizes_of(members.drop_last()), size_of(members.last().1)) {
            (Some(front), Some((cols, rows))) => Some(
                front.push(
                    ActionModel::ResizeTerminal { terminal_id: members.last().0@, cols, rows },
                ),
            ),
            _ => None,
        }
    }
}

proof fn resizes_of_prefix(members: Seq<(String, Json)>, n: int)
    requires
        0 <= n <= members.len(),
        resizes_of(members) is Some,
    ensures
        resizes_of(members.take(n)) is Some,
    decreases members.len(),
{
    if n == members.len() {
        assert(members.take(n) == members);
    } else {
        assert(members.drop_last().take(n) == members.take(n));
        resizes_of_prefix(members.drop_last(), n);
    }
}

/// The resizes that a `subscribed` message asks for.
pub open spec fn resizes(document: Json) -> Seq<ActionModel> {
    match document.field("sizes"@) {
        Some(Json::Object(members)) => match resizes_of(members@) {
            Some(actions) => actions,
            None => Seq::empty(),
        },
        _ => Seq::empty(),
    }
}

fn read_resizes_of(members: &Vec<(String, Json)>) -> (r: Option<Vec<SessionAction>>)
    ensures
        r.deep_view() == resizes_of(members@),
{
    let mut actions: Vec<SessionAction> = Vec::new();
    let mut i: usize = 0;
    assert(resizes_of(members@.take(0)) == Some(actions.deep_view()));
    while i < members.len()
        invariant
            i <= members@.len(),
            resizes_of(members@.take(i as int)) == Some(actions.deep_view()),
        decreases members@.len() - i,
    {
        assert(members@.take(i + 1).drop_last() == members@.take(i as int));
        match read_size(&members[i].1) {
            Some((cols, rows)) => {
                push_action(
                    &mut actions,
                    SessionAction::ResizeTerminal {
                        terminal_id: members[i].0.clone(),
                        cols,
                        rows,
                    },
                );
            },
            None => {
                proof {
                    if resizes_of(members@) is Some {
                        resizes_of_prefix(members@, i + 1);
                    }
                }
                return None;
            },
        }
        i = i + 1;
    }
    assert(members@.take(members@.len() as int) == members@);
    Some(actions)
}

fn read_resizes(document: &Json) -> (r: Vec<SessionAction>)
    ensures
        r.deep_view() == resizes(*document),
{
    let none: Vec<SessionAction> = Vec::new();
    assert(none.deep_view() == Seq::<ActionModel>::empty());
    match document.get("sizes") {
        Some(Json::Object(members)) => match read_resizes_of(members) {
            Some(actions) => actions,
            None => none,
        },
        _ => none,
    }
}

/// A number under `key`.
pub open spec fn number_of(document: Json, key: Seq<char>) -> Option<u64> {
    match document.field(key) {
        Some(value) => value.unsigned(),
        None => None,
    }
}

fn get_number(document: &Json, key: &str) -> (r: Option<u64>)
    ensures
        r == number_of(*document, key@),
{
    match document.get(key) {
        Some(value) => value.as_u64(),
        None => None,
    }
}

/// The low 16 bits of a number.
pub open spec fn low_16(n: u64) -> u16 {
    (n % 0x1_0000) as u16
}

/// The resize that a `terminal_resized` message asks for.
pub open spec fn resized_model(document: Json) -> Seq<ActionModel> {
    match (
        document.field_text("terminal_id"@),
        number_of(document, "cols"@),
        number_of(document, "rows"@),
    ) {
        (Some(terminal_id), Some(cols), Some(rows)) => seq![
            ActionModel::ResizeTerminal { terminal_id, cols: low_16(cols), rows: low_16(rows) },
        ],
        _ => Seq::empty(),
    }
}

/// Whether a message maps projects to something.
pub open spec fn has_statuses(document: Json) -> bool {
    document.field("projects"@) matches Some(projects) && projects is Object
}

fn holds_statuses(document: &Json) -> (r: bool)
    ensures
        r == has_statuses(*document),
{
    match document.get("projects") {
        Some(Json::Object(_)) => true,
        _ => false,
    }
}

/// What a document from the server asks for.
pub open spec fn document_actions(document: Json) -> Seq<ActionModel> {
    let kind = field_or(document, "type"@, ""@);
    if kind == "subscribed"@ {
        match mappings_of(document) {
            Some(mappings) => resizes(document).push(ActionModel::MappingsReceived { mappings }),
            None => Seq::empty(),
        }
    } else if kind == "state_changed"@ {
        seq![ActionModel::FetchState]
    } else if kind == "dropped"@ {
        let count = match number_of(document, "count"@) {
            Some(n) => n,
            None => 0,
        };
        seq![
            ActionModel::Warn {
                message: "Server dropped "@ + decimal(count as nat) + " messages"@,
            },
        ]
    } else if kind == "error"@ {
        seq![
            ActionModel::Warn {
                message: "Server error: "@ + field_or(document, "error"@, "unknown"@),
            },
        ]
    } else if kind == "terminal_resized"@ {
        resized_model(document)
    } else if kind == "git_status_changed"@ && has_statuses(document) {
        seq![ActionModel::PassGitStatuses]
    } else {
        Seq::empty()
    }
}

/// The streams after a document from the server.
pub open spec fn document_streams(streams: StreamsModel, document: Json) -> StreamsModel {
    match mappings_of(document) {
        Some(mappings) => if field_or(document, "type"@, ""@) == "subscribed"@ {
            streams.with_all(mappings)
        } else {
            streams
        },
        None => streams,
    }
}

fn one_action(action: SessionAction) -> (r: Vec<SessionAction>)
    ensures
        r.deep_view() == seq![action.deep_view()],
{
    let mut actions: Vec<SessionAction> = Vec::new();
    actions.push(action);
    assert(actions.deep_view() == seq![action.deep_view()]);
    actions
}

fn no_action() -> (r: Vec<SessionAction>)
    ensures
        r.deep_view() == Seq::<ActionModel>::empty(),
{
    let actions: Vec<SessionAction> = Vec::new();
    assert(actions.deep_view() == Seq::<ActionModel>::empty());
    actions
}

/// Takes in a document from the server.
pub fn on_document(streams: &mut StreamTable, document: &Json) -> (r: Vec<SessionAction>)
    requires
        old(streams).wf(),
    ensures
        final(streams).wf(),
        final(streams).view() == document_streams(old(streams).view(), *document),
        r.deep_view() == document_actions(*document),
{
    let kind: &str = get_or(document, "type", "");
    if same(kind, "subscribed") {
        match read_mappings(document) {
            Some(mappings) => {
                streams.record(&mappings);
                let mut actions: Vec<SessionAction> = read_resizes(document);
                push_action(&mut actions, SessionAction::MappingsReceived { mappings });
                actions
            },
            None => no_action(),
        }
    } else if same(kind, "state_changed") {
        one_action(SessionAction::FetchState)
    } else if same(kind, "dropped") {
        let count: u64 = match get_number(document, "count") {
            Some(n) => n,
            None => 0,
        };
        one_action(
            SessionAction::Warn {
                message: concat3("Server dropped ", decimal_string(count).as_str(), " messages"),
            },
        )
    } else if same(kind, "error") {
        one_action(
            SessionAction::Warn {
                message: concat("Server error: ", get_or(document, "error", "unknown")),
            },
        )
    } else if same(kind, "terminal_resized") {
        match (
            document.get_str("terminal_id"),
            get_number(document, "cols"),
            get_number(document, "rows"),
        ) {
            (Some(terminal_id), Some(cols), Some(rows)) => one_action(
                SessionAction::ResizeTerminal {
                    terminal_id: terminal_id.to_owned(),
                    cols: (cols % 0x1_0000) as u16,
                    rows: (rows % 0x1_0000) as u16,
                },
            ),
            _ => no_action(),
        }
    } else if same(kind, "git_status_changed") && holds_statuses(document) {
        one_action(SessionAction::PassGitStatuses)
    } else {
        no_action()
    }
}

/// The kinds of binary frames.
#[derive(Clone, Copy, Debug, PartialEq, Eq, Structural)]
pub enum FrameKind {
    /// Output of a terminal.
    Pty,
    /// The whole screen of a terminal.
    Snapshot,
    Other,
}

/// Something that arrived.
#[derive(Clone, Debug, PartialEq, Eq)]
pub enum Incoming {
    /// A binary frame.
    Frame { kind: FrameKind, stream_id: u32, payload: Vec<u8> },
    Text(String),
    /// A message that needs no answer: a ping, a pong, a frame that is no frame.
    Idle,
    /// The server closes the connection.
    Close,
    Error(String),
    /// The end of the stream.
    Ended,
}

/// What something that arrived asks for.
pub open spec fn incoming_actions(streams: StreamsModel, incoming: Incoming) -> Seq<ActionModel> {
    match incoming {
        Incoming::Frame { kind, stream_id, payload } => if kind != FrameKind::Other
            && streams.by_stream.contains_key(stream_id) {
            seq![
                ActionModel::TerminalOutput {
                    terminal_id: streams.by_stream[stream_id],
                    payload: payload@,
                },
            ]
        } else {
            Seq::empty()
        },
        Incoming::Text(text) => match json_text(text@) {
            Some(document) => document_actions(document),
            None => Seq::empty(),
        },
        Incoming::Idle => Seq::empty(),
        Incoming::Close => seq![
            ActionModel::End(SessionErrorModel::Transient("Server closed connection"@)),
        ],
        Incoming::Error(e) => seq![
            ActionModel::End(SessionErrorModel::Transient("WebSocket error: "@ + e@)),
        ],
        Incoming::Ended => seq![
            ActionModel::End(SessionErrorModel::Transient("WebSocket stream ended"@)),
        ],
    }
}

/// The streams after something arrived.
pub open spec fn incoming_streams(streams: StreamsModel, incoming: Incoming) -> StreamsModel {
    match incoming {
        Incoming::Text(text) => match json_text(text@) {
            Some(document) => document_streams(streams, document),
            None => streams,
        },
        _ => streams,
    }
}

/// Takes in something that arrived: output goes to the terminal of its stream,
/// documents are obeyed, texts that are none are ignored, and the end of the
/// stream ends the session.
pub fn on_incoming(streams: &mut StreamTable, incoming: Incoming) -> (r: Vec<SessionAction>)
    requires
        old(streams).wf(),
    ensures
        final(streams).wf(),
        final(streams).view() == incoming_streams(old(streams).view(), incoming),
        r.deep_view() == incoming_actions(old(streams).view(), incoming),
        incoming matches Incoming::Frame { kind, stream_id, payload } ==> (kind != FrameKind::Other
            && old(streams).view().by_stream.contains_key(stream_id) ==> r.deep_view() == seq![
            ActionModel::TerminalOutput {
                terminal_id: old(streams).view().by_stream[stream_id],
                payload: payload@,
            },
        ]),
{
    match incoming {
        Incoming::Frame { kind, stream_id, payload } => {
            if kind == FrameKind::Other {
                return no_action();
            }
            match streams.terminal_of(stream_id) {
                Some(terminal_id) => one_action(
                    SessionAction::TerminalOutput { terminal_id, payload },
                ),
                None => no_action(),
            }
        },
        Incoming::Text(text) => match parse_json(text.as_str()) {
            Some(document) => on_document(streams, &document),
            None => no_action(),
        },
        Incoming::Idle => no_action(),
        Incoming::Close => one_action(
            SessionAction::End(SessionError::Transient("Server closed connection".to_owned())),
        ),
        Incoming::Error(e) => one_action(
            SessionAction::End(SessionError::Transient(concat("WebSocket error: ", e.as_str()))),
        ),
        Incoming::Ended => one_action(
            SessionAction::End(SessionError::Transient("WebSocket stream ended".to_owned())),
        ),
    }
}

// ---------------------------------------------------------------------------
// Messages that leave
// ---------------------------------------------------------------------------

/// A message in the form in which it leaves.
#[derive(Debug, PartialEq, Eq)]
pub enum Outgoing {
    /// An input frame for a stream.
    Input { stream_id: u32, bytes: Vec<u8> },
    Document(Json),
}

/// The members of the document that a message is sent as.
pub open spec fn message_members(message: WsClientMessage) -> Seq<(Seq<char>, Shape)> {
    match message {
        WsClientMessage::SendText { terminal_id, text } => seq![
            ("type"@, Shape::Text("send_text"@)),
            ("terminal_id"@, Shape::Text(terminal_id@)),
            ("text"@, Shape::Text(text@)),
        ],
        WsClientMessage::Resize { terminal_id, cols, rows } => seq![
            ("type"@, Shape::Text("resize"@)),
            ("terminal_id"@, Shape::Text(terminal_id@)),
            ("cols"@, Shape::Number(cols as u64)),
            ("rows"@, Shape::Number(rows as u64)),
        ],
        WsClientMessage::CloseTerminal { terminal_id } => seq![
            ("type"@, Shape::Text("close_terminal"@)),
            ("terminal_id"@, Shape::Text(terminal_id@)),
        ],
        WsClientMessage::Subscribe { terminal_ids } => seq![
            ("type"@, Shape::Text("subscribe"@)),
            ("terminal_ids"@, Shape::Texts(terminal_ids.deep_view())),
        ],
        WsClientMessage::Unsubscribe { terminal_ids } => seq![
            ("type"@, Shape::Text("unsubscribe"@)),
            ("terminal_ids"@, Shape::Texts(terminal_ids.deep_view())),
        ],
    }
}

/// The document that a message is sent as.
pub fn message_document(message: &WsClientMessage) -> (r: Json)
    ensures
        is_object(r, message_members(*message)),
{
    let mut members: Vec<(String, Json)> = Vec::new();
    match message {
        WsClientMessage::SendText { terminal_id, text } => {
            members.push(("type".to_owned(), text_json("send_text")));
            members.push(("terminal_id".to_owned(), text_json(terminal_id.as_str())));
            members.push(("text".to_owned(), text_json(text.as_str())));
        },
        WsClientMessage::Resize { terminal_id, cols, rows } => {
            members.push(("type".to_owned(), text_json("resize")));
            members.push(("terminal_id".to_owned(), text_json(terminal_id.as_str())));
            members.push(("cols".to_owned(), number_json(*cols as u64)));
            members.push(("rows".to_owned(), number_json(*rows as u64)));
        },
        WsClientMessage::CloseTerminal { terminal_id } => {
            members.push(("type".to_owned(), text_json("close_terminal")));
            members.push(("terminal_id".to_owned(), text_json(terminal_id.as_str())));
        },
        WsClientMessage::Subscribe { terminal_ids } => {
            members.push(("type".to_owned(), text_json("subscribe")));
            members.push(("terminal_ids".to_owned(), texts_json(terminal_ids)));
        },
        WsClientMessage::Unsubscribe { terminal_ids } => {
            members.push(("type".to_owned(), text_json("unsubscribe")));
            members.push(("terminal_ids".to_owned(), texts_json(terminal_ids)));
        },
    }
    Json::Object(members)
}

/// Whether a message leaves as an input frame, and for which stream.
pub open spec fn input_stream(streams: StreamsModel, message: WsClientMessage) -> Option<u32> {
    match message {
        WsClientMessage::SendText { terminal_id, .. } => if streams.by_terminal.contains_key(
            terminal_id@,
        ) {
            Some(streams.by_terminal[terminal_id@])
        } else {
            None
        },
        _ => None,
    }
}

/// Puts a message into the form in which it leaves: input for a terminal whose
/// stream is known as a frame with the text's bytes, everything else as a
/// document.
pub fn on_outgoing(streams: &StreamTable, message: &WsClientMessage) -> (r: Outgoing)
    requires
        streams.wf(),
    ensures
        match input_stream(streams.view(), *message) {
            Some(stream) => {
                &&& r matches Outgoing::Input { stream_id, bytes }
                &&& stream_id == stream
                &&& *message matches WsClientMessage::SendText { text, .. }
                &&& bytes@ == vstd::utf8::encode_utf8(text@)
            },
            None => {
                &&& r matches Outgoing::Document(document)
                &&& is_object(document, message_members(*message))
            },
        },
{
    if let WsClientMessage::SendText { terminal_id, text } = message {
        if let Some(stream_id) = streams.stream_of(terminal_id.as_str()) {
            return Outgoing::Input { stream_id, bytes: text.as_str().as_bytes_vec() };
        }
    }
    Outgoing::Document(message_document(message))
}

// ---------------------------------------------------------------------------
// Laws
// ---------------------------------------------------------------------------

/// After a subscription in which no two terminals share a stream, each of its
/// terminals is found by its stream and its stream by the terminal.
pub proof fn subscription_is_found(streams: StreamsModel, mappings: Seq<(Seq<char>, u32)>, i: int)
    requires
        0 <= i < mappings.len(),
        forall|a: int, b: int|
            0 <= a < b < mappings.len() ==> (#[trigger] mappings[a]).0 != (
            #[trigger] mappings[b]).0 && mappings[a].1 != mappings[b].1,
    ensures
        ({
            let after = streams.with_all(mappings);
            &&& after.by_terminal.contains_key(mappings[i].0)
            &&& after.by_terminal[mappings[i].0] == mappings[i].1
            &&& after.by_stream.contains_key(mappings[i].1)
            &&& after.by_stream[mappings[i].1] == mappings[i].0
        }),
    decreases mappings.len(),
{
    if i < mappings.len() - 1 {
        let front = mappings.drop_last();
        assert forall|a: int, b: int| 0 <= a < b < front.len() implies (#[trigger] front[a]).0 != (
        #[trigger] front[b]).0 && front[a].1 != front[b].1 by {
            assert(mappings[a].0 != mappings[b].0 && mappings[a].1 != mappings[b].1);
        }
        subscription_is_found(streams, front, i);
        assert(mappings[i].0 != mappings.last().0 && mappings[i].1 != mappings.last().1);
    }
}

/// Output is never routed to a terminal that no subscription named: without
/// streams, no frame reaches a terminal.
pub proof fn no_output_without_subscription(incoming: Incoming)
    ensures
        incoming is Frame ==> incoming_actions(StreamsModel::empty(), incoming) == Seq::<
            ActionModel,
        >::empty(),
{
}

/// Only the end of the stream ends a session: no document and no frame does.
pub proof fn documents_never_end_a_session(document: Json, i: int)
    requires
        0 <= i < document_actions(document).len(),
    ensures
        !(document_actions(document)[i] is End),
{
    match document.field("sizes"@) {
        Some(Json::Object(members)) => {
            resizes_are_resizes(members@);
        },
        _ => {},
    }
}

proof fn resizes_are_resizes(members: Seq<(String, Json)>)
    ensures
        resizes_of(members) matches Some(actions) ==> forall|i: int|
            0 <= i < actions.len() ==> (#[trigger] actions[i]) is ResizeTerminal,
    decreases members.len(),
{
    if members.len() > 0 {
        resizes_are_resizes(members.drop_last());
    }
}

/// Whatever a subscription named is shown: output of a terminal and the picture
/// of its screen each reach just that terminal, with every byte.
pub proof fn output_reaches_its_terminal(
    streams: StreamsModel,
    mappings: Seq<(Seq<char>, u32)>,
    i: int,
    kind: FrameKind,
    payload: Vec<u8>,
)
    requires
        0 <= i < mappings.len(),
        forall|a: int, b: int|
            0 <= a < b < mappings.len() ==> (#[trigger] mappings[a]).0 != (
            #[trigger] mappings[b]).0 && mappings[a].1 != mappings[b].1,
        kind == FrameKind::Pty || kind == FrameKind::Snapshot,
    ensures
        ({
            let frame = Incoming::Frame { kind, stream_id: mappings[i].1, payload };
            let actions = incoming_actions(streams.with_all(mappings), frame);
            &&& actions.len() == 1
            &&& actions[0] == ActionModel::TerminalOutput {
                terminal_id: mappings[i].0,
                payload: payload@,
            }
            &&& incoming_streams(streams, frame) == streams
        }),
{
    subscription_is_found(streams, mappings, i);
}

/// Input for a terminal that a subscription named leaves on the stream that its
/// output comes in on; input for a terminal that none named leaves as a document.
pub proof fn input_takes_the_way_of_output(
    streams: StreamsModel,
    mappings: Seq<(Seq<char>, u32)>,
    i: int,
    terminal_id: String,
    text: String,
    payload: Vec<u8>,
)
    requires
        0 <= i < mappings.len(),
        forall|a: int, b: int|
            0 <= a < b < mappings.len() ==> (#[trigger] mappings[a]).0 != (
            #[trigger] mappings[b]).0 && mappings[a].1 != mappings[b].1,
        terminal_id@ == mappings[i].0,
    ensures
        ({
            let message = WsClientMessage::SendText { terminal_id, text };
            &&& input_stream(streams.with_all(mappings), message) matches Some(stream_id)
            &&& incoming_actions(
                streams.with_all(mappings),
                Incoming::Frame { kind: FrameKind::Pty, stream_id, payload },
            ) == seq![
                ActionModel::TerminalOutput { terminal_id: terminal_id@, payload: payload@ },
            ]
            &&& input_stream(StreamsModel::empty(), message) is None
        }),
{
    subscription_is_found(streams, mappings, i);
}

proof fn kinds_differ()
    ensures
        "subscribed"@ != "state_changed"@,
        "subscribed"@ != "dropped"@,
        "subscribed"@ != "error"@,
        "subscribed"@ != "terminal_resized"@,
        "subscribed"@ != "git_status_changed"@,
        "state_changed"@ != "dropped"@,
        "state_changed"@ != "error"@,
        "state_changed"@ != "terminal_resized"@,
        "state_changed"@ != "git_status_changed"@,
        "dropped"@ != "error"@,
        "dropped"@ != "terminal_resized"@,
        "dropped"@ != "git_status_changed"@,
        "error"@ != "terminal_resized"@,
        "error"@ != "git_status_changed"@,
        "terminal_resized"@ != "git_status_changed"@,
{
    reveal_strlit("subscribed");
    reveal_strlit("state_changed");
    reveal_strlit("dropped");
    reveal_strlit("error");
    reveal_strlit("terminal_resized");
    reveal_strlit("git_status_changed");
    assert("subscribed"@.len() == 10);
    assert("state_changed"@.len() == 13);
    assert("dropped"@.len() == 7);
    assert("error"@.len() == 5);
    assert("terminal_resized"@.len() == 16);
    assert("git_status_changed"@.len() == 18);
}

proof fn pairs_are_members(members: Seq<(String, Json)>)
    ensures
        pairs_of(members) is Some <==> forall|i: int|
            0 <= i < members.len() ==> ((#[trigger] members[i]).1.unsigned() matches Some(n) && n
                <= u32::MAX),
        pairs_of(members) matches Some(pairs) ==> pairs.len() == members.len() && forall|i: int|
            0 <= i < members.len() ==> (#[trigger] pairs[i]).0 == members[i].0@
                && members[i].1.unsigned() == Some(pairs[i].1 as u64),
    decreases members.len(),
{
    if members.len() > 0 {
        let front = members.drop_last();
        pairs_are_members(front);
        if pairs_of(members) is Some {
            let pairs = pairs_of(members)->0;
            assert forall|i: int| 0 <= i < members.len() implies (
            #[trigger] members[i]).1.unsigned() matches Some(n) && n <= u32::MAX by {
                if i < front.len() {
                    assert(front[i] == members[i]);
                }
            }
            assert forall|i: int| 0 <= i < members.len() implies (#[trigger] pairs[i]).0
                == members[i].0@ && members[i].1.unsigned() == Some(pairs[i].1 as u64) by {
                if i < front.len() {
                    assert(pairs_of(front)->0[i] == pairs[i]);
                    assert(front[i] == members[i]);
                }
            }
        } else if pairs_of(front) is None {
            let i = choose|i: int|
                0 <= i < front.len() && !((#[trigger] front[i]).1.unsigned() matches Some(n) && n
                    <= u32::MAX);
            assert(front[i] == members[i]);
        } else {
            assert(members[members.len() - 1] == members.last());
        }
    }
}

/// The answer to a subscription is taken in whole: every terminal that it names,
/// each with its own stream, is found by that stream from then on, and the owner
/// is told of all of them.
pub proof fn answered_subscription_is_taken_in(
    streams: StreamsModel,
    document: Json,
    members: Vec<(String, Json)>,
    i: int,
)
    requires
        document.field_text("type"@) == Some("subscribed"@),
        document.field("mappings"@) == Some(Json::Object(members)),
        forall|a: int|
            0 <= a < members@.len() ==> ((#[trigger] members@[a]).1.unsigned() matches Some(n) && n
                <= u32::MAX),
        forall|a: int, b: int|
            0 <= a < b < members@.len() ==> (#[trigger] members@[a]).0@ != (
            #[trigger] members@[b]).0@ && members@[a].1.unsigned() != members@[b].1.unsigned(),
        0 <= i < members@.len(),
    ensures
        ({
            let after = document_streams(streams, document);
            let stream = members@[i].1.unsigned()->0 as u32;
            &&& after.by_stream.contains_key(stream) && after.by_stream[stream]
                == members@[i].0@
            &&& after.by_terminal.contains_key(members@[i].0@)
                && after.by_terminal[members@[i].0@] == stream
            &&& document_actions(document).last() matches ActionModel::MappingsReceived { mappings }
            &&& mappings.len() == members@.len()
            &&& mappings[i] == (members@[i].0@, stream)
        }),
{
    kinds_differ();
    pairs_are_members(members@);
    let pairs = pairs_of(members@)->0;
    assert forall|a: int, b: int| 0 <= a < b < pairs.len() implies (#[trigger] pairs[a]).0 != (
    #[trigger] pairs[b]).0 && pairs[a].1 != pairs[b].1 by {
        assert(members@[a].0@ != members@[b].0@);
        assert(members@[a].1.unsigned() != members@[b].1.unsigned());
    }
    assert(pairs[i].0 == members@[i].0@);
    subscription_is_found(streams, pairs, i);
}

/// Every kind of document does its own: a changed state is fetched, a new size
/// reaches its terminal, and what the server complains of is passed on.
pub proof fn documents_are_obeyed(document: Json, streams: StreamsModel)
    ensures
        document.field_text("type"@) == Some("state_changed"@) ==> document_actions(document)
            == seq![ActionModel::FetchState],
        document.field_text("type"@) == Some("terminal_resized"@) && document.field_text(
            "terminal_id"@,
        ) is Some && number_of(document, "cols"@) is Some && number_of(document, "cols"@)->0
            <= u16::MAX && number_of(document, "rows"@) is Some && number_of(
            document,
            "rows"@,
        )->0 <= u16::MAX ==> document_actions(document) == seq![
            ActionModel::ResizeTerminal {
                terminal_id: document.field_text("terminal_id"@)->0,
                cols: number_of(document, "cols"@)->0 as u16,
                rows: number_of(document, "rows"@)->0 as u16,
            },
        ],
        document.field_text("type"@) == Some("error"@) && document.field_text("error"@) is Some
            ==> document_actions(document) == seq![
            ActionModel::Warn { message: "Server error: "@ + document.field_text("error"@)->0 },
        ],
        document.field_text("type"@) == Some("dropped"@) && number_of(document, "count"@) is Some
            ==> document_actions(document) == seq![
            ActionModel::Warn {
                message: "Server dropped "@ + decimal(number_of(document, "count"@)->0 as nat)
                    + " messages"@,
            },
        ],
        document.field_text("type"@) == Some("git_status_changed"@) ==> (document_actions(document)
            == seq![ActionModel::PassGitStatuses] <==> (document.field("projects"@) matches Some(
            projects,
        ) && projects is Object)),
        document.field_text("type"@) != Some("subscribed"@) ==> document_streams(streams, document)
            == streams,
{
    kinds_differ();
    reveal_strlit("");
    reveal_strlit("subscribed");
    assert(""@.len() != "subscribed"@.len());
    let pass: Seq<ActionModel> = seq![ActionModel::PassGitStatuses];
    assert(pass.len() == 1);
}

/// A session ends with its connection, and in a way that is tried again: nothing
/// else that arrives ends it.
pub proof fn sessions_end_with_their_connection(streams: StreamsModel, incoming: Incoming)
    ensures
        ({
            let actions = incoming_actions(streams, incoming);
            let ends = exists|i: int| 0 <= i < actions.len() && #[trigger] actions[i] is End;
            &&& ends <==> (incoming is Close || incoming is Error || incoming is Ended)
            &&& ends ==> actions.len() == 1 && (actions[0] matches ActionModel::End(error) && error
                is Transient)
            &&& incoming is Idle ==> actions.len() == 0
        }),
{
    let actions = incoming_actions(streams, incoming);
    if incoming is Close || incoming is Error || incoming is Ended {
        assert(actions[0] is End);
    } else if let Incoming::Text(text) = incoming {
        if let Some(document) = json_text(text@) {
            assert forall|i: int| 0 <= i < actions.len() implies !(#[trigger] actions[i] is End) by {
                documents_never_end_a_session(document, i);
            }
        }
    }
}

/// Only the server's own word lets a session in, and only its own refusal counts
/// against the token; whatever else comes back is tried again.
pub proof fn only_the_server_judges_the_token(reply: AuthReply)
    ensures
        auth_reply_verdict(reply) is Ok <==> (reply matches AuthReply::Text(text) && (json_text(
            text@,
        ) matches Some(document) && document.field_text("type"@) == Some("auth_ok"@))),
        (auth_reply_verdict(reply) matches Err(error) && error is Auth) <==> (reply
            matches AuthReply::Text(text) && (json_text(text@) matches Some(document)
            && document.field_text("type"@) == Some("auth_failed"@))),
{
    reveal_strlit("auth_ok");
    reveal_strlit("auth_failed");
    reveal_strlit("");
    assert("auth_ok"@.len() != "auth_failed"@.len());
    assert(""@.len() == 0);
}

/// The state is there just where the request for it succeeded, and only a refusal
/// counts against the token.
pub proof fn only_a_refusal_counts_against_the_token(reply: HttpReply)
    ensures
        state_reply_verdict(reply) is Ok <==> (reply matches HttpReply::Status { status, .. } && 200
            <= status < 300),
        (state_reply_verdict(reply) matches Err(error) && error is Auth) <==> (reply
            matches HttpReply::Status { status, .. } && status == 401),
{
}

/// A session begins with every terminal of the state: each is created, all are
/// subscribed to after that, and the owner hears of the connection last. Nothing
/// that the server still knows is removed.
pub proof fn sessions_begin_with_every_terminal(known: Seq<Seq<char>>, ids: Seq<Seq<char>>, i: int)
    requires
        0 <= i < ids.len(),
    ensures
        ({
            let actions = initial_sync_model(known, ids);
            let n = ids.len() as int;
            &&& actions.len() == n + 4
            &&& actions[0] == ActionModel::RemoveTerminalsExcept { terminal_ids: known }
            &&& actions[1 + i] == ActionModel::CreateTerminal { terminal_id: ids[i] }
            &&& actions[n + 1] == ActionModel::StateReceived
            &&& actions[n + 2] == ActionModel::Subscribe { terminal_ids: ids }
            &&& actions[n + 3] == ActionModel::Connected
        }),
{
}

/// A session without terminals subscribes to nothing, and is connected all the
/// same.
pub proof fn sessions_begin_without_terminals(known: Seq<Seq<char>>)
    ensures
        initial_sync_model(known, Seq::empty()) == seq![
            ActionModel::RemoveTerminalsExcept { terminal_ids: known },
            ActionModel::StateReceived,
            ActionModel::Connected,
        ],
{
}

/// A changed state leaves each terminal where it belongs: one that is new is
/// created and subscribed to, one that is gone is removed and no longer subscribed
/// to, and one that is in both states is left alone.
pub proof fn changed_states_are_followed(
    before: Seq<Seq<char>>,
    after: Seq<Seq<char>>,
    id: Seq<char>,
)
    ensures
        ({
            let added = texts_without(after, before);
            let removed = texts_without(before, after);
            let actions = state_changed_model(added, removed);
            let create = ActionModel::CreateTerminal { terminal_id: id };
            let remove = ActionModel::RemoveTerminal { terminal_id: id };
            &&& actions.contains(create) <==> after.contains(id) && !before.contains(id)
            &&& actions.contains(remove) <==> before.contains(id) && !after.contains(id)
            &&& added.contains(id) <==> after.contains(id) && !before.contains(id)
            &&& removed.contains(id) <==> before.contains(id) && !after.contains(id)
            &&& added.len() > 0 ==> actions.contains(
                ActionModel::Subscribe { terminal_ids: added },
            )
            &&& removed.len() > 0 ==> actions.contains(
                ActionModel::Unsubscribe { terminal_ids: removed },
            )
            &&& actions.last() == ActionModel::StateReceived
        }),
{
    let added = texts_without(after, before);
    let removed = texts_without(before, after);
    without_leaves_the_rest(after, before, id);
    without_leaves_the_rest(before, after, id);
    let actions = state_changed_model(added, removed);
    let create = ActionModel::CreateTerminal { terminal_id: id };
    let remove = ActionModel::RemoveTerminal { terminal_id: id };
    let a = added.len() as int;
    let b = removed.len() as int;
    assert forall|i: int| 0 <= i < a implies #[trigger] actions[i] == (
    ActionModel::CreateTerminal { terminal_id: added[i] }) by {}
    assert forall|i: int| a <= i < a + b implies #[trigger] actions[i] == (
    ActionModel::RemoveTerminal { terminal_id: removed[i - a] }) by {}
    if added.contains(id) {
        let i = choose|i: int| 0 <= i < a && added[i] == id;
        assert(actions[i] == create);
    }
    if removed.contains(id) {
        let i = choose|i: int| 0 <= i < b && removed[i] == id;
        assert(actions[a + i] == remove);
    }
    if actions.contains(create) {
        let i = choose|i: int| 0 <= i < actions.len() && actions[i] == create;
        assert(i < a);
        assert(added[i] == id);
    }
    if actions.contains(remove) {
        let i = choose|i: int| 0 <= i < actions.len() && actions[i] == remove;
        assert(a <= i < a + b);
        assert(removed[i - a] == id);
    }
    if a > 0 {
        assert(actions[a + b] == ActionModel::Subscribe { terminal_ids: added });
    }
    if b > 0 {
        let at = a + b + (if a > 0 {
            1int
        } else {
            0int
        });
        assert(actions[at] == ActionModel::Unsubscribe { terminal_ids: removed });
    }
}

/// No two messages leave as the same document: which terminal is meant, what is
/// asked of it, and with which text or size, can be read off it.
pub proof fn messages_are_told_apart(a: WsClientMessage, b: WsClientMessage)
    requires
        message_members(a) == message_members(b),
    ensures
        match (a, b) {
            (
                WsClientMessage::SendText { terminal_id: x, text: s },
                WsClientMessage::SendText { terminal_id: y, text: t },
            ) => x@ == y@ && s@ == t@,
            (
                WsClientMessage::Resize { terminal_id: x, cols: c, rows: r },
                WsClientMessage::Resize { terminal_id: y, cols: d, rows: s },
            ) => x@ == y@ && c == d && r == s,
            (
                WsClientMessage::CloseTerminal { terminal_id: x },
                WsClientMessage::CloseTerminal { terminal_id: y },
            ) => x@ == y@,
            (
                WsClientMessage::Subscribe { terminal_ids: x },
                WsClientMessage::Subscribe { terminal_ids: y },
            ) => x.deep_view() == y.deep_view(),
            (
                WsClientMessage::Unsubscribe { terminal_ids: x },
                WsClientMessage::Unsubscribe { terminal_ids: y },
            ) => x.deep_view() == y.deep_view(),
            _ => false,
        },
{
    reveal_strlit("send_text");
    reveal_strlit("resize");
    reveal_strlit("close_terminal");
    reveal_strlit("subscribe");
    reveal_strlit("unsubscribe");
    let x = message_members(a);
    let y = message_members(b);
    assert(x[0] == y[0]);
    assert(x[1] == y[1]);
    assert(x.len() == y.len());
    assert("send_text"@.len() == 9 && "subscribe"@.len() == 9);
    assert("send_text"@[1] != "subscribe"@[1]);
    if x.len() > 2 {
        assert(x[2] == y[2]);
    }
    if x.len() > 3 {
        assert(x[3] == y[3]);
    }
}

proof fn sizes_are_members(members: Seq<(String, Json)>)
    ensures
        (forall|i: int| 0 <= i < members.len() ==> size_of((#[trigger] members[i]).1) is Some)
            ==> resizes_of(members) is Some,
        resizes_of(members) matches Some(actions) ==> actions.len() == members.len() && forall|
            i: int,
        |
            0 <= i < members.len() ==> (#[trigger] actions[i] matches ActionModel::ResizeTerminal {
                terminal_id,
                cols,
                rows,
            } && terminal_id == members[i].0@ && size_of(members[i].1) == Some((cols, rows))),
    decreases members.len(),
{
    if members.len() > 0 {
        let front = members.drop_last();
        sizes_are_members(front);
        if forall|i: int| 0 <= i < members.len() ==> size_of((#[trigger] members[i]).1) is Some {
            assert forall|i: int| 0 <= i < front.len() implies size_of((#[trigger] front[i]).1) is
                Some by {
                assert(front[i] == members[i]);
            }
            assert(size_of(members[members.len() - 1].1) is Some);
        }
        if resizes_of(members) is Some {
            let actions = resizes_of(members)->0;
            let before = resizes_of(front)->0;
            assert forall|i: int| 0 <= i < members.len() implies (
            #[trigger] actions[i] matches ActionModel::ResizeTerminal { terminal_id, cols, rows }
                && terminal_id == members[i].0@ && size_of(members[i].1) == Some((cols, rows))) by {
                if i < front.len() {
                    assert(actions[i] == before[i]);
                    assert(front[i] == members[i]);
                }
            }
        }
    }
}

/// The sizes that come with a subscription reach their terminals, before the owner is
/// told of the subscription: columns first, then rows.
pub proof fn told_sizes_reach_their_terminals(
    document: Json,
    sizes: Vec<(String, Json)>,
    i: int,
    size: Vec<Json>,
    cols: u16,
    rows: u16,
)
    requires
        document.field_text("type"@) == Some("subscribed"@),
        mappings_of(document) is Some,
        document.field("sizes"@) == Some(Json::Object(sizes)),
        forall|k: int| 0 <= k < sizes@.len() ==> size_of((#[trigger] sizes@[k]).1) is Some,
        0 <= i < sizes@.len(),
        sizes@[i].1 == Json::Array(size),
        size@.len() == 2,
        size@[0].unsigned() == Some(cols as u64),
        size@[1].unsigned() == Some(rows as u64),
    ensures
        document_actions(document).len() == sizes@.len() + 1,
        document_actions(document)[i] == (ActionModel::ResizeTerminal {
            terminal_id: sizes@[i].0@,
            cols,
            rows,
        }),
{
    kinds_differ();
    sizes_are_members(sizes@);
    let actions = resizes(document);
    assert(actions[i] matches ActionModel::ResizeTerminal { terminal_id, cols: c, rows: r }
        && terminal_id == sizes@[i].0@ && size_of(sizes@[i].1) == Some((c, r)));
    assert(size_of(sizes@[i].1) == Some((cols, rows)));
}

/// An answer to a subscription that cannot be read does nothing.
pub proof fn unreadable_subscriptions_do_nothing(streams: StreamsModel, document: Json)
    requires
        document.field_text("type"@) == Some("subscribed"@),
        !(document.field("mappings"@) matches Some(mappings) && mappings is Object),
    ensures
        document_actions(document).len() == 0,
        document_streams(streams, document) == streams,
{
}

/// Every message says what it is, and which terminals it is for.
pub proof fn messages_say_what_they_are(message: WsClientMessage)
    ensures
        ({
            let members = message_members(message);
            &&& members[0].0 == "type"@
            &&& members[0].1 == Shape::Text(
                match message {
                    WsClientMessage::SendText { .. } => "send_text"@,
                    WsClientMessage::Resize { .. } => "resize"@,
                    WsClientMessage::CloseTerminal { .. } => "close_terminal"@,
                    WsClientMessage::Subscribe { .. } => "subscribe"@,
                    WsClientMessage::Unsubscribe { .. } => "unsubscribe"@,
                },
            )
            &&& message matches WsClientMessage::SendText { terminal_id, text } ==> members.contains(
                ("terminal_id"@, Shape::Text(terminal_id@)),
            ) && members.contains(("text"@, Shape::Text(text@)))
            &&& message matches WsClientMessage::Resize { terminal_id, cols, rows }
                ==> members.contains(("terminal_id"@, Shape::Text(terminal_id@)))
                && members.contains(("cols"@, Shape::Number(cols as u64))) && members.contains(
                ("rows"@, Shape::Number(rows as u64)),
            )
            &&& message matches WsClientMessage::CloseTerminal { terminal_id }
                ==> members.contains(("terminal_id"@, Shape::Text(terminal_id@)))
            &&& message matches WsClientMessage::Subscribe { terminal_ids } ==> members.contains(
                ("terminal_ids"@, Shape::Texts(terminal_ids.deep_view())),
            )
            &&& message matches WsClientMessage::Unsubscribe { terminal_ids } ==> members.contains(
                ("terminal_ids"@, Shape::Texts(terminal_ids.deep_view())),
            )
        }),
{
    let members = message_members(message);
    match message {
        WsClientMessage::SendText { terminal_id, text } => {
            assert(members[1] == ("terminal_id"@, Shape::Text(terminal_id@)));
            assert(members[2] == ("text"@, Shape::Text(text@)));
        },
        WsClientMessage::Resize { terminal_id, cols, rows } => {
            assert(members[1] == ("terminal_id"@, Shape::Text(terminal_id@)));
            assert(members[2] == ("cols"@, Shape::Number(cols as u64)));
            assert(members[3] == ("rows"@, Shape::Number(rows as u64)));
        },
        WsClientMessage::CloseTerminal { terminal_id } => {
            assert(members[1] == ("terminal_id"@, Shape::Text(terminal_id@)));
        },
        WsClientMessage::Subscribe { terminal_ids } => {
            assert(members[1] == ("terminal_ids"@, Shape::Texts(terminal_ids.deep_view())));
        },
        WsClientMessage::Unsubscribe { terminal_ids } => {
            assert(members[1] == ("terminal_ids"@, Shape::Texts(terminal_ids.deep_view())));
        },
    }
}

/// An error says why: the server's own words where it gave some, or what went wrong
/// on the way.
pub proof fn errors_say_why(reply: AuthReply, text: String, document: Json, words: Seq<char>)
    ensures
        json_outcome(text@) == Ok::<Json, Seq<char>>(document) && document.field_text("type"@)
            == Some("auth_failed"@) && document.field_text("error"@) == Some(words)
            ==> auth_reply_verdict(AuthReply::Text(text)) == Err::<(), SessionErrorModel>(
            SessionErrorModel::Auth("Auth failed: "@ + words),
        ),
        reply matches AuthReply::ReadError(e) ==> auth_reply_verdict(reply) == Err::<
            (),
            SessionErrorModel,
        >(SessionErrorModel::Transient("WebSocket read error: "@ + e@)),
{
    reveal_strlit("auth_ok");
    reveal_strlit("auth_failed");
    assert("auth_ok"@.len() != "auth_failed"@.len());
}

} // verus!
