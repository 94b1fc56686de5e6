use vstd::prelude::*;
use vstd::string::StringExecFns;
use crate::ambient::{fresh_id, now_millis};
use crate::database::{
    has_message, has_project, message_in, message_slot, messages_view_of, Database,
};
use crate::llm_bridge::{
    local_explain_prompt, local_review_prompt, local_translate_prompt, mock_reply, turns_view,
    BackendError, ChatMessage as Turn, LocalLLMBridge,
};
use crate::model::{ChatMessage, ChatMessageView, ProjectView, ChatRole, StorageError, Timestamp};

verus! {

/// Any failure of an orchestrated operation: the store's or the backend's, unchanged.
#[derive(Debug, Clone, PartialEq, Eq)]
pub enum OrchestratorError {
    Storage(StorageError),
    Backend(BackendError),
}

/// The role name a completion backend expects for a stored role.
pub open spec fn wire_role(r: ChatRole) -> Seq<char> {
    match r {
        ChatRole::User => "user"@,
        ChatRole::Assistant => "assistant"@,
    }
}

/// Stored history as completion turns.
pub open spec fn history_turns(ms: Seq<ChatMessageView>) -> Seq<(Seq<char>, Seq<char>)> {
    ms.map_values(|m: ChatMessageView| (wire_role(m.role), m.content))
}

/// The turns sent for a chat: the project's stored history, oldest first,
/// followed by the new user turn.
pub open spec fn chat_turns(ms: Seq<ChatMessageView>, project_id: Seq<char>, message: Seq<char>) -> Seq<(Seq<char>, Seq<char>)> {
    history_turns(ms.filter(message_in(project_id))).push(("user"@, message))
}

fn wire_role_text(r: ChatRole) -> (s: String)
    ensures
        s@ == wire_role(r),
{
    match r {
        ChatRole::User => String::from_str("user"),
        ChatRole::Assistant => String::from_str("assistant"),
    }
}

/// The conversation to hand the backend for a chat in `project_id`.
pub fn conversation(db: &Database, project_id: &str, message: String) -> (r: Vec<Turn>)
    requires
        db.wf(),
    ensures
        turns_view(r@) == chat_turns(db.messages_view(), project_id@, message@),
{
    let history = db.get_chat_messages(project_id);
    let ghost hv = messages_view_of(history@);
    let mut r: Vec<Turn> = Vec::new();
    let mut i: usize = 0;
    while i < history.len()
        invariant
            i <= history.len(),
            hv == messages_view_of(history@),
            turns_view(r@) == history_turns(hv.take(i as int)),
        decreases history.len() - i,
    {
        let m = &history[i];
        let t = Turn { role: wire_role_text(m.role), content: m.content.clone() };
        let ghost before = r@;
        r.push(t);
        proof {
            assert(turns_view(r@) =~= turns_view(before).push(t@));
            assert(hv.take(i + 1) =~= hv.take(i as int).push(hv[i as int]));
            assert(history_turns(hv.take(i + 1)) =~= history_turns(hv.take(i as int)).push(t@));
        }
        i += 1;
    }
    let ghost before = r@;
    let u = Turn { role: String::from_str("user"), content: message };
    r.push(u);
    proof {
        assert(hv.take(i as int) =~= hv);
        assert(turns_view(r@) =~= turns_view(before).push(u@));
    }
    r
}

/// Finishes a chat with the backend's outcome: a reply is stored as an
/// assistant message under `id`, stamped `now`, and that message is handed
/// back; a backend failure is handed back and nothing is stored.
pub fn finish_chat(
    db: &mut Database,
    project_id: String,
    reply: Result<String, BackendError>,
    id: String,
    now: Timestamp,
) -> (r: Result<ChatMessage, OrchestratorError>)
    requires
        old(db).wf(),
    ensures
        final(db).wf(),
        final(db).projects_view() == old(db).projects_view(),
        final(db).translations_view() == old(db).translations_view(),
        match reply {
            Err(e) => {
                &&& r == Err::<ChatMessage, OrchestratorError>(OrchestratorError::Backend(e))
                &&& final(db).messages_view() == old(db).messages_view()
            },
            Ok(text) => match r {
                Ok(m) => {
                    &&& m@ == (ChatMessageView {
                        id: id@,
                        project_id: project_id@,
                        role: ChatRole::Assistant,
                        content: text@,
                        created_at: now,
                    })
                    &&& has_project(old(db).projects_view(), project_id@)
                    &&& !has_message(old(db).messages_view(), id@)
                    &&& final(db).messages_view() == old(db).messages_view().insert(
                        message_slot(old(db).messages_view(), now),
                        m@,
                    )
                },
                Err(e) => {
                    &&& final(db).messages_view() == old(db).messages_view()
                    &&& if has_message(old(db).messages_view(), id@) {
                        e == OrchestratorError::Storage(StorageError::DuplicateId(id))
                    } else {
                        !has_project(old(db).projects_view(), project_id@) && e == OrchestratorError::Storage(
                            StorageError::UnknownProject(project_id),
                        )
                    }
                },
            },
        },
{
    match reply {
        Err(e) => Err(OrchestratorError::Backend(e)),
        Ok(text) => match db.add_chat_message_at(id, project_id, ChatRole::Assistant, text, now) {
            Ok(m) => Ok(m),
            Err(e) => Err(OrchestratorError::Storage(e)),
        },
    }
}

/// Why storing a reply in `project_id` may fail: the drawn id is already
/// taken, or the project does not exist.
pub open spec fn stored_reply_failure(
    ps: Seq<ProjectView>,
    ms: Seq<ChatMessageView>,
    project_id: Seq<char>,
    e: OrchestratorError,
) -> bool {
    match e {
        OrchestratorError::Storage(StorageError::DuplicateId(d)) => has_message(ms, d@),
        OrchestratorError::Storage(StorageError::UnknownProject(p)) => p@ == project_id && !has_project(ps, project_id),
        OrchestratorError::Backend(_) => false,
    }
}

/// Finishes a chat with the backend's outcome as `finish_chat` does, under a
/// fresh id and stamped with the current time.
pub fn record_reply(db: &mut Database, project_id: String, reply: Result<String, BackendError>) -> (r: Result<ChatMessage, OrchestratorError>)
    requires
        old(db).wf(),
    ensures
        final(db).wf(),
        final(db).projects_view() == old(db).projects_view(),
        final(db).translations_view() == old(db).translations_view(),
        match reply {
            Err(e) => {
                &&& r == Err::<ChatMessage, OrchestratorError>(OrchestratorError::Backend(e))
                &&& final(db).messages_view() == old(db).messages_view()
            },
            Ok(text) => match r {
                Ok(m) => {
                    &&& m.project_id@ == project_id@
                    &&& m.role == ChatRole::Assistant
                    &&& m.content@ == text@
                    &&& has_project(old(db).projects_view(), project_id@)
                    &&& final(db).messages_view() == old(db).messages_view().insert(
                        message_slot(old(db).messages_view(), m.created_at),
                        m@,
                    )
                },
                Err(e) => {
                    &&& final(db).messages_view() == old(db).messages_view()
                    &&& stored_reply_failure(old(db).projects_view(), old(db).messages_view(), project_id@, e)
                },
            },
        },
{
    let id = fresh_id();
    let now = now_millis();
    finish_chat(db, project_id, reply, id, now)
}

/// Chats in `project_id` with the local backend: the stored history plus
/// `message` is answered, and the answer is stored as an assistant message.
/// The user message itself is not stored.
pub fn chat_with_llm(db: &mut Database, llm: &LocalLLMBridge, project_id: String, message: String) -> (r: Result<String, OrchestratorError>)
    requires
        old(db).wf(),
    ensures
        final(db).wf(),
        final(db).projects_view() == old(db).projects_view(),
        final(db).translations_view() == old(db).translations_view(),
        match r {
            Ok(out) => {
                &&& out@ == mock_reply(message@)
                &&& has_project(old(db).projects_view(), project_id@)
                &&& exists|m: ChatMessageView|
                    m.project_id == project_id@ && m.role == ChatRole::Assistant && m.content == out@
                        && final(db).messages_view() == old(db).messages_view().insert(
                        message_slot(old(db).messages_view(), m.created_at),
                        m,
                    )
            },
            Err(e) => {
                &&& final(db).messages_view() == old(db).messages_view()
                &&& stored_reply_failure(old(db).projects_view(), old(db).messages_view(), project_id@, e)
            },
        },
{
    let ghost msg = message@;
    let turns = conversation(db, project_id.as_str(), message);
    let ghost tv = turns_view(turns@);
    proof {
        assert(tv.len() == turns@.len());
        assert(tv.last() == turns@.last()@);
        assert(turns@.last().content@ == msg);
    }
    let reply = llm.chat_completion(turns);
    match record_reply(db, project_id, reply) {
        Ok(m) => {
            let out = m.content;
            proof {
                let v = m@;
                assert(v.content == out@ && v.role == ChatRole::Assistant);
                assert(db.messages_view() == old(db).messages_view().insert(
                    message_slot(old(db).messages_view(), v.created_at),
                    v,
                ));
            }
            Ok(out)
        },
        Err(e) => Err(e),
    }
}

/// Translates `source_text` with the local backend.
pub fn translate_with_llm(llm: &LocalLLMBridge, source_text: String, source_lang: String, target_lang: String) -> (r: Result<String, OrchestratorError>)
    ensures
        r is Ok,
        r->Ok_0@ == mock_reply(local_translate_prompt(source_text@, source_lang@, target_lang@)),
        r->Ok_0@ == crate::llm_bridge::MOCK_TRANSLATION@,
{
    match llm.translate_text(source_text.as_str(), source_lang.as_str(), target_lang.as_str()) {
        Ok(t) => Ok(t),
        Err(e) => Err(OrchestratorError::Backend(e)),
    }
}

/// Explains the cultural context of `text` with the local backend.
pub fn explain_context_with_llm(llm: &LocalLLMBridge, text: String, language: String) -> (r: Result<String, OrchestratorError>)
    ensures
        r is Ok,
        r->Ok_0@ == mock_reply(local_explain_prompt(text@, language@)),
{
    match llm.explain_context(text.as_str(), language.as_str()) {
        Ok(t) => Ok(t),
        Err(e) => Err(OrchestratorError::Backend(e)),
    }
}

/// Reviews `translation` against `source_text` with the local backend.
pub fn suggest_improvements_with_llm(llm: &LocalLLMBridge, source_text: String, translation: String) -> (r: Result<String, OrchestratorError>)
    ensures
        r is Ok,
        r->Ok_0@ == mock_reply(local_review_prompt(source_text@, translation@)),
{
    match llm.suggest_improvements(source_text.as_str(), translation.as_str()) {
        Ok(t) => Ok(t),
        Err(e) => Err(OrchestratorError::Backend(e)),
    }
}

} // verus!
