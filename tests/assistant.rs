use translation_assistant::database::Database;
use translation_assistant::llm_bridge::{
    is_success_status, BackendError, ChatChoice, ChatMessage as Turn, ChatResponse, LLMBridge, LocalLLMBridge,
    MOCK_CONTEXT, MOCK_GENERIC, MOCK_IMPROVEMENT, MOCK_TRANSLATION,
};
use translation_assistant::model::ChatRole;
use translation_assistant::orchestrator::{
    chat_with_llm, conversation, explain_context_with_llm, finish_chat,
    suggest_improvements_with_llm, translate_with_llm, OrchestratorError,
};

fn turn(role: &str, content: &str) -> Turn {
    Turn { role: role.to_string(), content: content.to_string() }
}

#[test]
fn mock_picks_reply_by_keyword() {
    let llm = LocalLLMBridge::new();
    assert_eq!(llm.chat_completion(vec![turn("user", "please translate this")]).unwrap(), MOCK_TRANSLATION);
    assert_eq!(llm.chat_completion(vec![turn("user", "what context?")]).unwrap(), MOCK_CONTEXT);
    assert_eq!(llm.chat_completion(vec![turn("user", "translate", ), turn("user", "improve it")]).unwrap(), MOCK_IMPROVEMENT);
    assert_eq!(llm.chat_completion(vec![turn("user", "hello")]).unwrap(), MOCK_GENERIC);
    assert_eq!(llm.chat_completion(vec![]), Err(BackendError::EmptyInput));
}

#[test]
fn translate_scenario_with_mock() {
    let mut db = Database::new();
    let p = db.create_project("P1".to_string(), None).unwrap();
    db.create_translation(p.id.clone(), "Hola".to_string()).unwrap();
    let llm = LocalLLMBridge::new();
    let first = translate_with_llm(&llm, "Hola".to_string(), "es".to_string(), "en".to_string()).unwrap();
    let again = translate_with_llm(&llm, "Hola".to_string(), "es".to_string(), "en".to_string()).unwrap();
    assert!(!first.is_empty());
    assert_eq!(first, again);
    assert_eq!(first, MOCK_TRANSLATION);
    let asked = translate_with_llm(&llm, "how to translate".to_string(), "en".to_string(), "fr".to_string()).unwrap();
    assert_eq!(asked, MOCK_TRANSLATION);
}

#[test]
fn explain_and_suggest_with_mock() {
    let llm = LocalLLMBridge::new();
    assert_eq!(explain_context_with_llm(&llm, "Hola".to_string(), "Spanish".to_string()).unwrap(), MOCK_CONTEXT);
    assert_eq!(suggest_improvements_with_llm(&llm, "Hola".to_string(), "Hi".to_string()).unwrap(), MOCK_IMPROVEMENT);
    assert_eq!(suggest_improvements_with_llm(&llm, "improve".to_string(), "Hi".to_string()).unwrap(), MOCK_IMPROVEMENT);
}

#[test]
fn chat_with_empty_history() {
    let mut db = Database::new();
    let p = db.create_project("P".to_string(), None).unwrap();
    let llm = LocalLLMBridge::new();
    let reply = chat_with_llm(&mut db, &llm, p.id.clone(), "hello".to_string()).unwrap();
    assert_eq!(reply, MOCK_GENERIC);
    let stored = db.get_chat_messages(&p.id);
    assert_eq!(stored.len(), 1);
    assert_eq!(stored[0].role, ChatRole::Assistant);
    assert_eq!(stored[0].content, MOCK_GENERIC);
}

#[test]
fn chat_in_unknown_project_fails() {
    let mut db = Database::new();
    let llm = LocalLLMBridge::new();
    let r = chat_with_llm(&mut db, &llm, "ghost".to_string(), "hello".to_string());
    assert!(matches!(r, Err(OrchestratorError::Storage(_))));
}

#[test]
fn zero_choices_fail_the_chat() {
    let mut db = Database::new();
    db.create_project_at("p".to_string(), "P".to_string(), None, 1).unwrap();
    let response = ChatResponse { choices: vec![] };
    let reply = response.first_reply();
    assert_eq!(reply, Err(BackendError::EmptyResponse));
    let r = finish_chat(&mut db, "p".to_string(), reply, "m".to_string(), 2);
    assert!(matches!(r, Err(OrchestratorError::Backend(BackendError::EmptyResponse))));
    assert!(db.get_chat_messages("p").is_empty());
}

#[test]
fn finished_chat_stores_the_reply() {
    let mut db = Database::new();
    db.create_project_at("p".to_string(), "P".to_string(), None, 1).unwrap();
    let m = finish_chat(&mut db, "p".to_string(), Ok("answer".to_string()), "m".to_string(), 2).unwrap();
    assert_eq!(m.id, "m");
    assert_eq!(m.role, ChatRole::Assistant);
    assert_eq!(m.content, "answer");
    assert_eq!(m.created_at, 2);
    assert_eq!(db.get_chat_messages("p").len(), 1);
}

#[test]
fn first_choice_is_the_reply() {
    let response = ChatResponse {
        choices: vec![
            ChatChoice { message: turn("assistant", "one") },
            ChatChoice { message: turn("assistant", "two") },
        ],
    };
    assert_eq!(response.first_reply(), Ok("one".to_string()));
}

#[test]
fn conversation_replays_history_then_user_turn() {
    let mut db = Database::new();
    db.create_project_at("p".to_string(), "P".to_string(), None, 1).unwrap();
    db.add_chat_message_at("a".to_string(), "p".to_string(), ChatRole::User, "hi".to_string(), 2).unwrap();
    db.add_chat_message_at("b".to_string(), "p".to_string(), ChatRole::Assistant, "hello".to_string(), 3).unwrap();
    let turns = conversation(&db, "p", "next".to_string());
    let flat: Vec<(String, String)> = turns.into_iter().map(|t| (t.role, t.content)).collect();
    assert_eq!(
        flat,
        vec![
            ("user".to_string(), "hi".to_string()),
            ("assistant".to_string(), "hello".to_string()),
            ("user".to_string(), "next".to_string()),
        ]
    );
}

#[test]
fn only_2xx_statuses_succeed() {
    assert!(is_success_status(200));
    assert!(is_success_status(204));
    assert!(!is_success_status(199));
    assert!(!is_success_status(300));
    assert!(!is_success_status(404));
    assert!(!is_success_status(500));
}

#[test]
fn remote_request_pieces() {
    let bridge = LLMBridge::new("http://localhost:8000".to_string(), Some("k1".to_string()));
    assert_eq!(bridge.completions_url(), "http://localhost:8000/v1/chat/completions");
    assert_eq!(bridge.authorization(), Some("Bearer k1".to_string()));
    let open = LLMBridge::new("http://h".to_string(), None);
    assert_eq!(open.authorization(), None);
    let req = bridge.translate_request("Hola", "es", "en");
    assert_eq!(req.model, "deepseek-chat");
    assert_eq!(req.temperature_percent, Some(70));
    assert_eq!(req.max_tokens, Some(2000));
    assert_eq!(req.messages.len(), 2);
    assert_eq!(req.messages[0].role, "system");
    assert_eq!(req.messages[1].role, "user");
    assert_eq!(req.messages[1].content, "Translate the following text from es to en:\n\nHola\n\nTranslation:");
    let req = bridge.explain_context_request("Hola", "Spanish");
    assert_eq!(req.messages[1].content, "Explain the cultural and linguistic context of this Spanish text:\n\nHola\n\nContext:");
    let req = bridge.suggest_improvements_request("Hola", "Hi");
    assert_eq!(req.messages[1].content, "Review this translation and suggest improvements:\n\nSource: Hola\nTranslation: Hi\n\nSuggestions:");
}
