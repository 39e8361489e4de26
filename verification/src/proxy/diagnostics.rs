//! What the proxy tells the client on its own account: that a server could
//! not be started, and that the diagnostics of a retired server are void.

use crate::json::{lemma_member_models, lemma_models, Json, JsonMember, JsonModel};
use crate::message::{MessageModel, RpcMessage};
use crate::proxy::LspProxy;
use crate::state::OpenDocument;
use crate::table::Entry;
use vstd::prelude::*;
use vstd::string::StringExecFns;

verus! {

/// The notification `method` with the parameters `params`.
pub open spec fn notification(method: Seq<char>, params: JsonModel) -> MessageModel {
    MessageModel {
        jsonrpc: "2.0"@,
        id: None,
        method: Some(method),
        params: Some(params),
        result: None,
        error: None,
    }
}

/// The notification that publishes an empty list of diagnostics for `uri`.
pub open spec fn clear_diagnostics_message(uri: Seq<char>) -> MessageModel {
    notification(
        "textDocument/publishDiagnostics"@,
        JsonModel::Object(
            seq![
                ("uri"@, JsonModel::String(uri)),
                ("diagnostics"@, JsonModel::Array(Seq::empty())),
            ],
        ),
    )
}

/// The text shown when no server could be started for `venv`.
pub open spec fn backend_error_text(venv: Seq<char>, error: Seq<char>) -> Seq<char> {
    "typemux-cc: Failed to start LSP backend for "@ + venv + ": "@ + error
}

/// The notification that shows the client, as an error, that no server could
/// be started for `venv`, and why.
pub open spec fn backend_error_message(venv: Seq<char>, error: Seq<char>) -> MessageModel {
    notification(
        "window/showMessage"@,
        JsonModel::Object(
            seq![
                ("type"@, JsonModel::PosInt(1)),
                ("message"@, JsonModel::String(backend_error_text(venv, error))),
            ],
        ),
    )
}

/// The URIs of the documents among `documents[..n]` that are bound to
/// `venv`, in the order in which they were opened.
pub open spec fn uris_of_venv(
    documents: Seq<Entry<String, OpenDocument>>,
    venv: Seq<char>,
    n: int,
) -> Seq<Seq<char>>
    decreases n,
{
    if n <= 0 {
        Seq::empty()
    } else {
        let before = uris_of_venv(documents, venv, n - 1);
        match documents[n - 1].value.venv {
            Some(v) => if v@ == venv {
                before.push(documents[n - 1].key@)
            } else {
                before
            },
            None => before,
        }
    }
}

/// The models of a run of messages, in order.
pub open spec fn message_models(messages: Seq<RpcMessage>) -> Seq<MessageModel> {
    Seq::new(messages.len(), |i: int| messages[i]@)
}

/// The notification `method` with the parameters `params`.
pub fn make_notification(method: &str, params: Json) -> (message: RpcMessage)
    ensures
        message@ == notification(method@, params@),
{
    RpcMessage {
        jsonrpc: "2.0".to_string(),
        id: None,
        method: Some(method.to_string()),
        params: Some(params),
        result: None,
        error: None,
    }
}

/// The notification that voids the diagnostics of `uri`.
pub fn clear_diagnostics(uri: &str) -> (message: RpcMessage)
    ensures
        message@ == clear_diagnostics_message(uri@),
{
    let mut members: Vec<JsonMember> = Vec::new();
    members.push(JsonMember::new("uri", Json::string(uri)));
    let none: Vec<Json> = Vec::new();
    proof {
        lemma_models(none@);
        assert(crate::json::models(none@) =~= Seq::<JsonModel>::empty());
    }
    members.push(JsonMember::new("diagnostics", Json::array(none)));
    proof {
        lemma_member_models(members@);
        assert(crate::json::member_models(members@) =~= seq![
            ("uri"@, JsonModel::String(uri@)),
            ("diagnostics"@, JsonModel::Array(Seq::empty())),
        ]);
    }
    make_notification("textDocument/publishDiagnostics", Json::object(members))
}

impl LspProxy {
    /// The notification that tells the client that no server could be
    /// started for `venv_path`, and why.
    pub fn notify_backend_error(venv_path: &str, error: &str) -> (message: RpcMessage)
        ensures
            message@ == backend_error_message(venv_path@, error@),
    {
        let mut text: String = "typemux-cc: Failed to start LSP backend for ".to_string();
        text.append(venv_path);
        text.append(": ");
        text.append(error);
        let mut members: Vec<JsonMember> = Vec::new();
        members.push(JsonMember::new("type", Json::integer(1)));
        members.push(JsonMember::new("message", Json::string(text.as_str())));
        proof {
            lemma_member_models(members@);
            assert(crate::json::member_models(members@) =~= seq![
                ("type"@, JsonModel::PosInt(1)),
                ("message"@, JsonModel::String(backend_error_text(venv_path@, error@))),
            ]);
        }
        make_notification("window/showMessage", Json::object(members))
    }

    /// The notifications that void the diagnostics of `uris`, one for each,
    /// in order.
    pub fn clear_diagnostics_for_uris(uris: &Vec<String>) -> (messages: Vec<RpcMessage>)
        ensures
            messages@.len() == uris@.len(),
            forall|i: int|
                0 <= i < uris@.len() ==> (#[trigger] messages@[i])@ == clear_diagnostics_message(
                    uris@[i]@,
                ),
    {
        let mut messages: Vec<RpcMessage> = Vec::new();
        let mut i: usize = 0;
        while i < uris.len()
            invariant
                0 <= i <= uris@.len(),
                messages@.len() == i,
                forall|j: int|
                    0 <= j < i ==> (#[trigger] messages@[j])@ == clear_diagnostics_message(
                        uris@[j]@,
                    ),
            decreases uris@.len() - i,
        {
            messages.push(clear_diagnostics(uris[i].as_str()));
            i = i + 1;
        }
        messages
    }

    /// The notifications that void the diagnostics of every open document
    /// bound to `venv_path`, in the order in which the documents were opened.
    pub fn clear_diagnostics_for_venv(&self, venv_path: &String) -> (messages: Vec<RpcMessage>)
        ensures
            message_models(messages@) == uris_of_venv(
                self.state.open_documents.entries@,
                venv_path@,
                self.state.open_documents.entries@.len() as int,
            ).map_values(|uri: Seq<char>| clear_diagnostics_message(uri)),
    {
        let mut messages: Vec<RpcMessage> = Vec::new();
        let ghost documents = self.state.open_documents.entries@;
        let mut i: usize = 0;
        assert(message_models(messages@) =~= uris_of_venv(documents, venv_path@, 0).map_values(
            |uri: Seq<char>| clear_diagnostics_message(uri),
        ));
        while i < self.state.open_documents.entries.len()
            invariant
                0 <= i <= documents.len(),
                documents == self.state.open_documents.entries@,
                message_models(messages@) == uris_of_venv(documents, venv_path@, i as int).map_values(
                    |uri: Seq<char>| clear_diagnostics_message(uri),
                ),
            decreases documents.len() - i,
        {
            let entry = &self.state.open_documents.entries[i];
            let bound: bool = match &entry.value.venv {
                Some(v) => *v == *venv_path,
                None => false,
            };
            if bound {
                let ghost before = messages@;
                let message: RpcMessage = clear_diagnostics(entry.key.as_str());
                messages.push(message);
                proof {
                    assert(messages@ == before.push(message));
                    assert(message_models(messages@) =~= message_models(before).push(message@));
                    assert(uris_of_venv(documents, venv_path@, i + 1).map_values(
                        |uri: Seq<char>| clear_diagnostics_message(uri),
                    ) =~= uris_of_venv(documents, venv_path@, i as int).map_values(
                        |uri: Seq<char>| clear_diagnostics_message(uri),
                    ).push(clear_diagnostics_message(entry.key@)));
                }
            }
            i = i + 1;
        }
        messages
    }
}

/// The URI of every document that is bound to `venv` is among the URIs of
/// the environment.
pub proof fn lemma_uris_of_venv_has(
    documents: Seq<Entry<String, OpenDocument>>,
    venv: Seq<char>,
    n: int,
    d: int,
)
    requires
        0 <= d < n <= documents.len(),
        documents[d].value.venv matches Some(v) && v@ == venv,
    ensures
        exists|k: int|
            0 <= k < uris_of_venv(documents, venv, n).len() && #[trigger] uris_of_venv(
                documents,
                venv,
                n,
            )[k] == documents[d].key@,
    decreases n,
{
    if d == n - 1 {
        let last = uris_of_venv(documents, venv, n).len() - 1;
        assert(uris_of_venv(documents, venv, n)[last] == documents[d].key@);
    } else {
        lemma_uris_of_venv_has(documents, venv, n - 1, d);
        let k = choose|k: int|
            0 <= k < uris_of_venv(documents, venv, n - 1).len() && #[trigger] uris_of_venv(
                documents,
                venv,
                n - 1,
            )[k] == documents[d].key@;
        assert(uris_of_venv(documents, venv, n)[k] == documents[d].key@);
    }
}

/// Every URI among the URIs of the environment `venv` is that of a document
/// that is bound to it.
pub proof fn lemma_uris_of_venv_only(
    documents: Seq<Entry<String, OpenDocument>>,
    venv: Seq<char>,
    n: int,
    k: int,
)
    requires
        0 <= n <= documents.len(),
        0 <= k < uris_of_venv(documents, venv, n).len(),
    ensures
        exists|d: int|
            0 <= d < n && #[trigger] documents[d].key@ == uris_of_venv(documents, venv, n)[k]
                && (documents[d].value.venv matches Some(v) && v@ == venv),
    decreases n,
{
    let before = uris_of_venv(documents, venv, n - 1);
    if k < before.len() {
        lemma_uris_of_venv_only(documents, venv, n - 1, k);
        let d = choose|d: int|
            0 <= d < n - 1 && #[trigger] documents[d].key@ == before[k] && (
            documents[d].value.venv matches Some(v) && v@ == venv);
        assert(uris_of_venv(documents, venv, n)[k] == before[k]);
        assert(documents[d].key@ == uris_of_venv(documents, venv, n)[k]);
    } else {
        assert(documents[n - 1].key@ == uris_of_venv(documents, venv, n)[k]);
    }
}

} // verus!
