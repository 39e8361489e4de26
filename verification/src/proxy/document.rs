//! The cache of open documents: what the open, change and close
//! notifications do to it.

use crate::backend_state::BackendState;
use crate::error::ProxyError;
use crate::json::{lemma_models, models, Json, JsonModel};
use crate::message::{MessageModel, RpcMessage};
use crate::proxy::client_dispatch::touched;
use crate::proxy::pool_management::spawn_ordered;
use crate::proxy::{action_models, Action, ActionModel, LspProxy};
use crate::state::{OpenDocument, ProxyState};
use crate::text_edit::{apply_range_edit, position_index, splice};
use crate::uri::{file_path_of, normalize_uri, parsed_uri, uri_file_path};
use vstd::prelude::*;

verus! {

/// The text of an optional string.
pub open spec fn opt_text(text: Option<String>) -> Option<Seq<char>> {
    match text {
        Some(t) => Some(t@),
        None => None,
    }
}

/// The `textDocument` member of a message's parameters.
pub open spec fn text_document(message: MessageModel) -> Option<JsonModel> {
    match message.params {
        Some(params) => params.member("textDocument"@),
        None => None,
    }
}

/// The URI that a message names as its document's, as it is written.
pub open spec fn written_uri(message: MessageModel) -> Option<Seq<char>> {
    match text_document(message) {
        Some(document) => match document.member("uri"@) {
            Some(uri) => uri.as_str(),
            None => None,
        },
        None => None,
    }
}

/// The URI of a message's document, in normal form: the key under which the
/// document is cached.
pub open spec fn document_uri(message: MessageModel) -> Option<Seq<char>> {
    match written_uri(message) {
        Some(uri) => parsed_uri(uri),
        None => None,
    }
}

/// The unsigned integer member `name` of `value`.
pub open spec fn unsigned_member(value: JsonModel, name: Seq<char>) -> Option<u64> {
    match value.member(name) {
        Some(n) => n.as_u64(),
        None => None,
    }
}

/// A position: line and column.
pub struct Position {
    pub line: usize,
    pub character: usize,
}

/// The position that `value` writes: its members `line` and `character`,
/// both unsigned integers.
pub open spec fn position_of(value: JsonModel) -> Option<Position> {
    match (unsigned_member(value, "line"@), unsigned_member(value, "character"@)) {
        (Some(line), Some(character)) => Some(
            Position { line: line as usize, character: character as usize },
        ),
        _ => None,
    }
}

/// The two ends that `range` writes: its members `start` and `end`, both
/// positions.
pub open spec fn range_ends(range: JsonModel) -> Option<(Position, Position)> {
    match (range.member("start"@), range.member("end"@)) {
        (Some(start), Some(end)) => match (position_of(start), position_of(end)) {
            (Some(from), Some(to)) => Some((from, to)),
            _ => None,
        },
        _ => None,
    }
}

/// The text after the range edit that `range` and `new_text` describe, or
/// `None` where the range is incomplete, names a line that the text does not
/// have, or ends before it starts.
pub open spec fn range_edited(text: Seq<char>, range: JsonModel, new_text: Seq<char>) -> Option<
    Seq<char>,
> {
    match range_ends(range) {
        Some((from, to)) => match (
            position_index(text, from.line as nat, from.character as nat),
            position_index(text, to.line as nat, to.character as nat),
        ) {
            (Some(i), Some(j)) => if i <= j {
                Some(splice(text, i, j, new_text))
            } else {
                None
            },
            _ => None,
        },
        None => None,
    }
}

/// The text after one content change: a change with a range replaces the
/// range, a change without one replaces the whole text, and a change without
/// a text changes nothing. `None` where a range edit fails.
pub open spec fn changed(text: Seq<char>, change: JsonModel) -> Option<Seq<char>> {
    let new_text = match change.member("text"@) {
        Some(t) => t.as_str(),
        None => None,
    };
    match (change.member("range"@), new_text) {
        (Some(range), Some(t)) => range_edited(text, range, t),
        (Some(_), None) => Some(text),
        (None, Some(t)) => Some(t),
        (None, None) => Some(text),
    }
}

/// The outcome of applying the first `n` of `changes` to `text` in order:
/// the text reached, and whether every change could be applied. The first
/// change that fails ends the run and leaves the text as the changes before
/// it made it.
pub open spec fn changes_applied(text: Seq<char>, changes: Seq<JsonModel>, n: int) -> (
    Seq<char>,
    bool,
)
    decreases n,
{
    if n <= 0 {
        (text, true)
    } else {
        let (so_far, ok) = changes_applied(text, changes, n - 1);
        if ok {
            match changed(so_far, changes[n - 1]) {
                Some(next) => (next, true),
                None => (so_far, false),
            }
        } else {
            (so_far, false)
        }
    }
}

/// The position that `value` writes.
pub fn read_position(value: &Json) -> (position: Option<Position>)
    ensures
        position == position_of(value@),
{
    let line: u64 = match value.get("line") {
        Some(n) => match n.as_u64() {
            Some(line) => line,
            None => {
                return None;
            },
        },
        None => {
            return None;
        },
    };
    let character: u64 = match value.get("character") {
        Some(n) => match n.as_u64() {
            Some(character) => character,
            None => {
                return None;
            },
        },
        None => {
            return None;
        },
    };
    Some(
        Position {
            line: #[verifier::truncate]
            (line as usize),
            character: #[verifier::truncate]
            (character as usize),
        },
    )
}

impl LspProxy {
    /// Replaces the part of `text` that `range` denotes by `new_text`. An
    /// incomplete range, a line that the text does not have and an end before
    /// the start are errors and leave the text as it was.
    pub fn apply_incremental_change(
        text: &mut String,
        range: &Json,
        new_text: &str,
    ) -> (result: Result<(), ProxyError>)
        ensures
            match range_edited(old(text)@, range@, new_text@) {
                Some(edited) => result is Ok && final(text)@ == edited,
                None => (result matches Err(ProxyError::InvalidMessage(_))) && final(text)@ == old(
                    text)@,
            },
    {
        let start: &Json = match range.get("start") {
            Some(start) => start,
            None => {
                return Err(
                    ProxyError::InvalidMessage("didChange range missing start".to_string()),
                );
            },
        };
        let end: &Json = match range.get("end") {
            Some(end) => end,
            None => {
                return Err(ProxyError::InvalidMessage("didChange range missing end".to_string()));
            },
        };
        let from: Position = match read_position(start) {
            Some(from) => from,
            None => {
                return Err(
                    ProxyError::InvalidMessage(
                        "didChange start missing line or character".to_string(),
                    ),
                );
            },
        };
        let to: Position = match read_position(end) {
            Some(to) => to,
            None => {
                return Err(
                    ProxyError::InvalidMessage(
                        "didChange end missing line or character".to_string(),
                    ),
                );
            },
        };
        apply_range_edit(text, from.line, from.character, to.line, to.character, new_text)
    }

    /// Applies one content change to `text`.
    pub fn apply_change(text: &mut String, change: &Json) -> (result: Result<(), ProxyError>)
        ensures
            match changed(old(text)@, change@) {
                Some(next) => result is Ok && final(text)@ == next,
                None => (result matches Err(ProxyError::InvalidMessage(_))) && final(text)@ == old(
                    text)@,
            },
    {
        let new_text: Option<&str> = match change.get("text") {
            Some(t) => t.as_str(),
            None => None,
        };
        match change.get("range") {
            Some(range) => match new_text {
                Some(t) => LspProxy::apply_incremental_change(text, range, t),
                None => Ok(()),
            },
            None => match new_text {
                Some(t) => {
                    *text = t.to_string();
                    Ok(())
                },
                None => Ok(()),
            },
        }
    }

    /// Applies `changes` to `text` in order, up to the first that fails.
    pub fn apply_changes(text: &mut String, changes: &Vec<Json>) -> (result: Result<
        (),
        ProxyError,
    >)
        ensures
            final(text)@ == changes_applied(old(text)@, models(changes@), changes@.len() as int).0,
            result is Ok == changes_applied(old(text)@, models(changes@), changes@.len() as int).1,
            result matches Err(e) ==> e is InvalidMessage,
    {
        let ghost start = text@;
        let ghost all = models(changes@);
        proof {
            lemma_models(changes@);
        }
        let mut i: usize = 0;
        while i < changes.len()
            invariant
                0 <= i <= changes@.len(),
                start == old(text)@,
                all == models(changes@),
                all.len() == changes@.len(),
                forall|j: int| 0 <= j < changes@.len() ==> (#[trigger] all[j]) == changes@[j]@,
                changes_applied(start, all, i as int) == (text@, true),
            decreases changes@.len() - i,
        {
            let ghost before = text@;
            match LspProxy::apply_change(text, &changes[i]) {
                Ok(()) => {
                    assert(changes_applied(start, all, i + 1) == (text@, true));
                },
                Err(e) => {
                    proof {
                        assert(changed(before, all[i as int]) is None);
                        assert(changes_applied(start, all, i + 1) == (before, false));
                        lemma_changes_stay_failed(start, all, i + 1, changes@.len() as int);
                    }
                    return Err(e);
                },
            }
            i = i + 1;
        }
        Ok(())
    }
}

/// Once a change has failed, later changes alter nothing.
pub proof fn lemma_changes_stay_failed(text: Seq<char>, changes: Seq<JsonModel>, n: int, m: int)
    requires
        0 <= n <= m,
        !changes_applied(text, changes, n).1,
    ensures
        changes_applied(text, changes, m) == changes_applied(text, changes, n),
    decreases m - n,
{
    if n < m {
        lemma_changes_stay_failed(text, changes, n, m - 1);
    }
}

/// The changes that a change notification carries: the array under
/// `contentChanges`.
pub open spec fn content_changes(message: MessageModel) -> Option<Seq<JsonModel>> {
    match message.params {
        Some(params) => match params.member("contentChanges"@) {
            Some(changes) => changes.as_array(),
            None => None,
        },
        None => None,
    }
}

/// The version that a notification gives its document.
pub open spec fn document_version(message: MessageModel) -> Option<i32> {
    match text_document(message) {
        Some(document) => match document.member("version"@) {
            Some(v) => match v.as_i64() {
                Some(n) => Some(n as i32),
                None => None,
            },
            None => None,
        },
        None => None,
    }
}

/// The cached document that a change notification changes, as its index in
/// the cache, and the changes: `None` where the notification names no
/// document, carries no change, or names a document that is not open.
pub open spec fn change_target(state: ProxyState, message: MessageModel) -> Option<
    (int, Seq<JsonModel>),
> {
    match (document_uri(message), content_changes(message)) {
        (Some(uri), Some(changes)) => if changes.len() == 0 {
            None
        } else {
            match state.open_documents.find(uri) {
                Some(at) => Some((at, changes)),
                None => None,
            }
        },
        _ => None,
    }
}

/// `after` is `before` with the changes `changes` applied to its text, and,
/// where all of them could be applied, with the version `version`.
pub open spec fn document_changed(
    before: OpenDocument,
    after: OpenDocument,
    changes: Seq<JsonModel>,
    version: Option<i32>,
) -> bool {
    let (text, ok) = changes_applied(before.text@, changes, changes.len() as int);
    &&& after.text@ == text
    &&& after.language_id == before.language_id
    &&& after.venv == before.venv
    &&& after.version == match version {
        Some(v) => if ok {
            v
        } else {
            before.version
        },
        None => before.version,
    }
}

/// What a change notification `message` does to the cache; `ok` says whether
/// every change could be applied.
pub open spec fn change_cached(
    before: ProxyState,
    after: ProxyState,
    ok: bool,
    message: MessageModel,
) -> bool {
    &&& after.pool == before.pool
    &&& after.pending_requests == before.pending_requests
    &&& after.pending_backend_requests == before.pending_backend_requests
    &&& after.client_initialize == before.client_initialize
    &&& after.git_toplevel == before.git_toplevel
    &&& after.next_proxy_request_id == before.next_proxy_request_id
    &&& match change_target(before, message) {
        Some((at, changes)) => {
            let was = before.open_documents.entries@;
            let documents = after.open_documents.entries@;
            &&& documents.len() == was.len()
            &&& forall|j: int| 0 <= j < was.len() && j != at ==> documents[j] == was[j]
            &&& documents[at].key == was[at].key
            &&& document_changed(
                was[at].value,
                documents[at].value,
                changes,
                document_version(message),
            )
            &&& ok == changes_applied(was[at].value.text@, changes, changes.len() as int).1
        },
        None => ok && after.open_documents == before.open_documents,
    }
}

/// What a close notification `message` does to the cache; `closed` is what
/// was cached of the document.
pub open spec fn document_closed(
    before: ProxyState,
    after: ProxyState,
    closed: Option<OpenDocument>,
    message: MessageModel,
) -> bool {
    &&& after.pool == before.pool
    &&& after.pending_requests == before.pending_requests
    &&& after.pending_backend_requests == before.pending_backend_requests
    &&& after.client_initialize == before.client_initialize
    &&& after.git_toplevel == before.git_toplevel
    &&& after.next_proxy_request_id == before.next_proxy_request_id
    &&& match document_uri(message) {
        Some(uri) => {
            &&& closed == before.open_documents.value_of(uri)
            &&& !after.open_documents.has(uri)
            &&& match before.open_documents.find(uri) {
                Some(at) => after.open_documents.entries@
                    == before.open_documents.entries@.remove(at),
                None => after.open_documents == before.open_documents,
            }
        },
        None => closed is None && after.open_documents == before.open_documents,
    }
}

impl LspProxy {
    /// The URI of the document that `msg` is about, in normal form.
    pub fn extract_text_document_uri(msg: &RpcMessage) -> (uri: Option<String>)
        ensures
            opt_text(uri) == document_uri(msg@),
    {
        let params: &Json = match &msg.params {
            Some(params) => params,
            None => {
                return None;
            },
        };
        let document: &Json = match params.get("textDocument") {
            Some(document) => document,
            None => {
                return None;
            },
        };
        let written: &str = match document.get("uri") {
            Some(uri) => match uri.as_str() {
                Some(written) => written,
                None => {
                    return None;
                },
            },
            None => {
                return None;
            },
        };
        normalize_uri(written)
    }

    /// The environment that the open document `uri` is bound to.
    pub fn venv_for_uri(&self, uri: &String) -> (venv: Option<String>)
        ensures
            opt_text(venv) == match self.state.open_documents.value_of(uri@) {
                Some(document) => opt_text(document.venv),
                None => None,
            },
    {
        match self.state.open_documents.get(uri) {
            Some(document) => match &document.venv {
                Some(venv) => Some(venv.clone()),
                None => None,
            },
            None => None,
        }
    }

    /// Brings the cached text of a document up to date with a change
    /// notification. A notification without changes, or for a document that
    /// is not open, changes nothing. The changes are applied in order; one
    /// that cannot be applied is an error, after which the text stays as the
    /// changes before it left it and the version stays as it was.
    pub fn handle_did_change(&mut self, msg: &RpcMessage) -> (result: Result<(), ProxyError>)
        requires
            old(self).wf(),
        ensures
            final(self).wf(),
            final(self).backend_ttl == old(self).backend_ttl,
            final(self).warmup_timeout == old(self).warmup_timeout,
            result matches Err(e) ==> e is InvalidMessage,
            change_cached(old(self).state, final(self).state, result is Ok, msg@),
    {
        let uri: String = match LspProxy::extract_text_document_uri(msg) {
            Some(uri) => uri,
            None => {
                return Ok(());
            },
        };
        let params: &Json = match &msg.params {
            Some(params) => params,
            None => {
                return Ok(());
            },
        };
        let version: Option<i32> = match params.get("textDocument") {
            Some(document) => match document.get("version") {
                Some(v) => match v.as_i64() {
                    Some(n) => Some(
                        #[verifier::truncate]
                        (n as i32),
                    ),
                    None => None,
                },
                None => None,
            },
            None => None,
        };
        let changes: &Vec<Json> = match params.get("contentChanges") {
            Some(changes) => match changes.as_array() {
                Some(changes) => changes,
                None => {
                    return Ok(());
                },
            },
            None => {
                return Ok(());
            },
        };
        proof {
            lemma_models(changes@);
            crate::table::lemma_find_from(self.state.open_documents.keys(), uri@, 0);
        }
        if changes.len() == 0 {
            return Ok(());
        }
        let ghost keys = self.state.open_documents.keys();
        let result: Result<(), ProxyError> = match self.state.open_documents.get_mut(&uri) {
            Some(document) => {
                let result = LspProxy::apply_changes(&mut document.text, changes);
                if result.is_ok() {
                    match version {
                        Some(v) => {
                            document.version = v;
                        },
                        None => {},
                    }
                }
                result
            },
            None => Ok(()),
        };
        proof {
            assert(self.state.open_documents.keys() =~= keys);
        }
        result
    }

    /// Forgets the document that a close notification names, and returns
    /// what was cached of it. A notification that names no open document
    /// changes nothing.
    pub fn handle_did_close(&mut self, msg: &RpcMessage) -> (closed: Option<OpenDocument>)
        requires
            old(self).wf(),
        ensures
            final(self).wf(),
            final(self).backend_ttl == old(self).backend_ttl,
            final(self).warmup_timeout == old(self).warmup_timeout,
            document_closed(old(self).state, final(self).state, closed, msg@),
    {
        match LspProxy::extract_text_document_uri(msg) {
            Some(uri) => self.state.open_documents.remove(&uri),
            None => None,
        }
    }
}

/// The language that an open notification gives its document: `unknown`
/// where it gives none.
pub open spec fn opened_language(message: MessageModel) -> Seq<char> {
    match text_document(message) {
        Some(document) => match document.member("languageId"@) {
            Some(language) => match language.as_str() {
                Some(l) => l,
                None => "unknown"@,
            },
            None => "unknown"@,
        },
        None => "unknown"@,
    }
}

/// The text that an open notification gives its document.
pub open spec fn opened_text(message: MessageModel) -> Option<Seq<char>> {
    match text_document(message) {
        Some(document) => match document.member("text"@) {
            Some(text) => text.as_str(),
            None => None,
        },
        None => None,
    }
}

/// The version that an open notification gives its document: 0 where it
/// gives none.
pub open spec fn opened_version(message: MessageModel) -> i32 {
    match document_version(message) {
        Some(v) => v,
        None => 0,
    }
}

/// `after` is `before` with the document of the open notification `message`
/// cached under `uri`, bound to `venv`. A notification without a text caches
/// nothing.
pub open spec fn document_cached(
    before: ProxyState,
    after: ProxyState,
    uri: Seq<char>,
    message: MessageModel,
    venv: Option<Seq<char>>,
) -> bool {
    &&& after.pool == before.pool
    &&& after.pending_requests == before.pending_requests
    &&& after.pending_backend_requests == before.pending_backend_requests
    &&& after.client_initialize == before.client_initialize
    &&& after.git_toplevel == before.git_toplevel
    &&& after.next_proxy_request_id == before.next_proxy_request_id
    &&& after.open_documents.wf()
    &&& match opened_text(message) {
        Some(text) => {
            &&& match after.open_documents.value_of(uri) {
                Some(document) => {
                    &&& document.text@ == text
                    &&& document.language_id@ == opened_language(message)
                    &&& document.version == opened_version(message)
                    &&& opt_text(document.venv) == venv
                },
                None => false,
            }
            &&& forall|other: Seq<char>|
                other != uri ==> after.open_documents.value_of(other)
                    == before.open_documents.value_of(other)
        },
        None => after.open_documents == before.open_documents,
    }
}

/// What opening a document bound to `venv` does once the document is
/// cached: the notification goes to the environment's server, which is
/// started first where it does not run; a document without an environment
/// is not passed on.
pub open spec fn document_announced(
    before: ProxyState,
    after: ProxyState,
    actions: Seq<ActionModel>,
    message: MessageModel,
    venv: Option<Seq<char>>,
    now: u64,
) -> bool {
    match venv {
        Some(v) => match before.pool.backends.find(v) {
            Some(at) => touched(before, after, at, now) && actions == seq![
                ActionModel::ToBackend {
                    venv_path: v,
                    session: before.pool.backends.entries@[at].value.session,
                    message,
                },
            ],
            None => spawn_ordered(before, after, actions, v, None),
        },
        None => after == before && actions.len() == 0,
    }
}

/// What an open notification does: the document is cached, then announced.
pub open spec fn document_opened(
    before: ProxyState,
    after: ProxyState,
    actions: Seq<ActionModel>,
    uri: Seq<char>,
    message: MessageModel,
    venv: Option<Seq<char>>,
    now: u64,
) -> bool {
    exists|cached: ProxyState|
        {
            &&& #[trigger] document_cached(before, cached, uri, message, venv)
            &&& document_announced(cached, after, actions, message, venv, now)
        }
}

/// The path of the file that the document of `message` is: `None` where the
/// message names no document, and where the document's URI names no file.
pub open spec fn document_file(message: MessageModel) -> Option<Seq<char>> {
    match document_uri(message) {
        Some(uri) => file_path_of(uri),
        None => None,
    }
}

/// What an open notification does: the document of a message whose URI names
/// a file is opened, bound to `venv`; any other message changes nothing.
pub open spec fn open_handled(
    before: ProxyState,
    after: ProxyState,
    actions: Seq<ActionModel>,
    message: MessageModel,
    venv: Option<Seq<char>>,
    now: u64,
) -> bool {
    match document_uri(message) {
        Some(uri) => if file_path_of(uri) is Some {
            document_opened(before, after, actions, uri, message, venv, now)
        } else {
            after == before && actions.len() == 0
        },
        None => after == before && actions.len() == 0,
    }
}

impl LspProxy {
    /// Caches the document of the open notification `msg` under `uri`, bound
    /// to the environment `found_venv`, and announces it; see
    /// `document_cached` and `document_announced`.
    pub fn open_document(
        &mut self,
        msg: RpcMessage,
        uri: String,
        found_venv: Option<String>,
        now: u64,
    ) -> (actions: Vec<Action>)
        requires
            old(self).wf(),
            old(self).state.pool.next_session < u64::MAX,
        ensures
            final(self).wf(),
            final(self).backend_ttl == old(self).backend_ttl,
            final(self).warmup_timeout == old(self).warmup_timeout,
            document_opened(
                old(self).state,
                final(self).state,
                action_models(actions@),
                uri@,
                msg@,
                opt_text(found_venv),
                now,
            ),
    {
        let document: Option<&Json> = match &msg.params {
            Some(params) => params.get("textDocument"),
            None => None,
        };
        let text: Option<String> = match document {
            Some(d) => match d.get("text") {
                Some(t) => match t.as_str() {
                    Some(s) => Some(s.to_string()),
                    None => None,
                },
                None => None,
            },
            None => None,
        };
        let language_id: String = match document {
            Some(d) => match d.get("languageId") {
                Some(l) => match l.as_str() {
                    Some(s) => s.to_string(),
                    None => "unknown".to_string(),
                },
                None => "unknown".to_string(),
            },
            None => "unknown".to_string(),
        };
        let version: i32 = match document {
            Some(d) => match d.get("version") {
                Some(v) => match v.as_i64() {
                    Some(n) => #[verifier::truncate]
                    (n as i32),
                    None => 0,
                },
                None => 0,
            },
            None => 0,
        };
        match text {
            Some(text) => {
                let venv: Option<String> = match &found_venv {
                    Some(v) => Some(v.clone()),
                    None => None,
                };
                let _ = self.state.open_documents.insert(
                    uri,
                    OpenDocument { language_id, version, text, venv },
                );
            },
            None => {},
        }
        let ghost cached = self.state;
        assert(document_cached(old(self).state, cached, uri@, msg@, opt_text(found_venv)));
        let ghost message = msg@;
        let actions: Vec<Action> = match found_venv {
            Some(venv) => {
                proof {
                    crate::table::lemma_find_from(self.state.pool.backends.keys(), venv@, 0);
                }
                if self.state.pool.contains(&venv) {
                    self.touch_and_send(&venv, msg, now)
                } else {
                    self.create_backend_instance(venv, None)
                }
            },
            None => Vec::new(),
        };
        assert(document_announced(
            cached,
            self.state,
            action_models(actions@),
            message,
            opt_text(found_venv),
            now,
        ));
        actions
    }

    /// The path of the file that the document of `msg` is, where the message
    /// names a document by a URI that names a file: what the search for the
    /// document's environment starts from.
    pub fn document_path(msg: &RpcMessage) -> (path: Option<String>)
        ensures
            opt_text(path) == document_file(msg@),
    {
        match LspProxy::extract_text_document_uri(msg) {
            Some(uri) => uri_file_path(uri.as_str()),
            None => None,
        }
    }

    /// Handles an open notification: a document whose URI names a file is
    /// cached and announced as `open_document` says, with `found_venv` as
    /// the environment that the search for it found; any other notification
    /// changes nothing.
    pub fn handle_did_open(
        &mut self,
        msg: RpcMessage,
        found_venv: Option<String>,
        now: u64,
    ) -> (actions: Vec<Action>)
        requires
            old(self).wf(),
            old(self).state.pool.next_session < u64::MAX,
        ensures
            final(self).wf(),
            final(self).backend_ttl == old(self).backend_ttl,
            final(self).warmup_timeout == old(self).warmup_timeout,
            open_handled(
                old(self).state,
                final(self).state,
                action_models(actions@),
                msg@,
                opt_text(found_venv),
                now,
            ),
    {
        let uri: String = match LspProxy::extract_text_document_uri(&msg) {
            Some(uri) => uri,
            None => {
                return Vec::new();
            },
        };
        if uri_file_path(uri.as_str()).is_none() {
            return Vec::new();
        }
        self.open_document(msg, uri, found_venv, now)
    }
}

/// The first changes of a longer run have the effect that they have alone.
pub proof fn lemma_changes_prefix(
    text: Seq<char>,
    first: Seq<JsonModel>,
    second: Seq<JsonModel>,
    n: int,
)
    requires
        0 <= n <= first.len(),
    ensures
        changes_applied(text, first + second, n) == changes_applied(text, first, n),
    decreases n,
{
    if n > 0 {
        lemma_changes_prefix(text, first, second, n - 1);
        assert((first + second)[n - 1] == first[n - 1]);
    }
}

/// The cached text is the text at opening with every change since applied in
/// order: applying the changes of one notification and then those of the
/// next is applying the changes of both in one run.
pub proof fn lemma_changes_compose(
    text: Seq<char>,
    first: Seq<JsonModel>,
    second: Seq<JsonModel>,
    n: int,
)
    requires
        0 <= n <= second.len(),
    ensures
        changes_applied(text, first + second, first.len() + n) == if changes_applied(
            text,
            first,
            first.len() as int,
        ).1 {
            changes_applied(changes_applied(text, first, first.len() as int).0, second, n)
        } else {
            changes_applied(text, first, first.len() as int)
        },
    decreases n,
{
    if n == 0 {
        lemma_changes_prefix(text, first, second, first.len() as int);
    } else {
        lemma_changes_compose(text, first, second, n - 1);
        assert((first + second)[first.len() + n - 1] == second[n - 1]);
    }
}

/// The server of the environment that the open document `uri` is bound to,
/// as its index in the pool.
pub open spec fn document_backend(state: ProxyState, uri: Seq<char>) -> Option<int> {
    match state.open_documents.value_of(uri) {
        Some(document) => match document.venv {
            Some(venv) => state.pool.backends.find(venv@),
            None => None,
        },
        None => None,
    }
}

impl LspProxy {
    /// The state of the language server for the document `uri`: running,
    /// with its environment and session, where the document is open, bound
    /// to an environment, and the environment has a server; disabled
    /// otherwise, with the reason and `file` as the file that was asked for.
    pub fn backend_state(&self, uri: &String, file: Option<String>) -> (state: BackendState)
        requires
            self.wf(),
        ensures
            match document_backend(self.state, uri@) {
                Some(at) => state matches BackendState::Running { active_venv, session }
                    && active_venv@ == self.state.pool.backends.entries@[at].value.venv_path@
                    && session == self.state.pool.backends.entries@[at].value.session,
                None => state matches BackendState::Disabled { last_file, .. } && last_file
                    == file,
            },
    {
        let venv: Option<String> = self.venv_for_uri(uri);
        match venv {
            Some(v) => match self.state.pool.get(&v) {
                Some(instance) => {
                    proof {
                        crate::table::lemma_find_from(self.state.pool.backends.keys(), v@, 0);
                    }
                    BackendState::Running {
                        active_venv: instance.venv_path.clone(),
                        session: instance.session,
                    }
                },
                None => BackendState::Disabled {
                    reason: "No backend is running for the document's .venv".to_string(),
                    last_file: file,
                },
            },
            None => BackendState::Disabled {
                reason: "No .venv found for the document".to_string(),
                last_file: file,
            },
        }
    }
}

/// Opening a document adds no server to the pool: a start is only ordered,
/// and where the pool was full a server has left it for that. Where the
/// document's environment already has a server, the pool holds the same
/// environments as before.
pub proof fn lemma_open_adds_no_server(
    before: ProxyState,
    after: ProxyState,
    actions: Seq<ActionModel>,
    message: MessageModel,
    venv: Option<Seq<char>>,
    now: u64,
)
    requires
        before.wf(),
        open_handled(before, after, actions, message, venv, now),
    ensures
        after.pool.backends.entries@.len() <= before.pool.backends.entries@.len(),
        after.pool.backends.entries@.len() <= after.pool.max_backends,
        after.pool.max_backends == before.pool.max_backends,
        (venv matches Some(v) && before.pool.backends.has(v)) ==> after.pool.backends.keys()
            == before.pool.backends.keys(),
{
    if document_file(message) is Some {
        let uri = document_uri(message)->0;
        let cached = choose|cached: ProxyState|
            #[trigger] document_cached(before, cached, uri, message, venv) && document_announced(
                cached,
                after,
                actions,
                message,
                venv,
                now,
            );
        let backends = before.pool.backends.entries@;
        let pending = before.pending_requests.entries@;
        crate::backend_pool::lemma_lru_index(backends, pending, true, backends.len() as int);
        crate::backend_pool::lemma_lru_index(backends, pending, false, backends.len() as int);
        if let Some(v) = venv {
            crate::table::lemma_find_from(before.pool.backends.keys(), v, 0);
            if before.pool.backends.has(v) {
                assert(after.pool.backends.keys() =~= before.pool.backends.keys());
            }
        }
    }
}

} // verus!
