use a3_platform::address::Address;
use a3_platform::agent::{
    agent_name, agent_preamble, message_prompt, recovery_prompt, AgentAction, AgentEvent, AgentState,
    DEFAULT_MAX_TURNS,
};
use a3_platform::manifest::{Manifest, Provider};
use a3_platform::message::Message;
use a3_platform::send_tool::{
    address_arg, send_message_args, send_message_outcome, string_arg, SendMessageToolError,
};
use a3_platform::string_map::StringMap;

fn address(name: &str, sld: &str, tld: &str) -> Address {
    Address {
        name: name.to_string(),
        second_level_domain: sld.to_string(),
        top_level_domain: tld.to_string(),
    }
}

fn message() -> Message {
    Message {
        from: address("user", "email", "local"),
        to: address("search", "email", "local"),
        body: "find it".to_string(),
    }
}

fn args(entries: &[(&str, Option<&str>)]) -> StringMap<Option<String>> {
    let mut m = StringMap::new();
    for (k, v) in entries {
        m.insert(k.to_string(), v.map(|s| s.to_string()));
    }
    m
}

type ToolError = SendMessageToolError<String>;

#[test]
fn preamble_follows_the_prelude_layout() {
    let manifest = Manifest {
        address: "search@email.local".to_string(),
        provider: Provider::Anthropic,
        model: "model".to_string(),
        description: "Agent that searches".to_string(),
        instruction: "Use tools".to_string(),
        constraints: "Be brief".to_string(),
        context: String::new(),
        tools: None,
    };
    let expected = format!(
        "<PRELUDE>\n\
        You are an addressable, autonomous, isolated node.\n\
        You interact with other nodes only by sending and receiving messages.\n\
        \n\
        DEFINITIONS:\n\
        - \"public_chat\" - normal returned response.\n\
        - \"payload\" - answers, tools result, task details, delegated results, analysis, message contents or other useful content.\n\
        - tool \"send_message\" - this is the only place where \"payload\" may be sent.
        \n\
        NEVER write \"payload\" in \"public_chat\"\n\
        YOU MUST write in \"public_chat\" only a brief status summary of what was done \n\
        \n\
        If you need to reply to another node:\n\
        1. Prepare the final answer internally.\n\
        2. Send the full final answer only by calling tool \"send_message\"\n\
        </PRELUDE>\n
        YOUR ADDRESS:\n\
        {}\n\n\
        DESCRIPTION:\n\
        {}\n\n\
        INSTRUCTION:\n\
        {}\n\n\
        CONSTRAINTS:\n\
        {}",
        manifest.address, manifest.description, manifest.instruction, manifest.constraints
    );
    assert_eq!(agent_preamble(&manifest), expected);
    assert!(agent_preamble(&manifest).ends_with("CONSTRAINTS:\nBe brief"));
    assert_eq!(DEFAULT_MAX_TURNS, 32);
}

#[test]
fn agent_name_is_the_name_part() {
    let mut manifest = Manifest {
        address: "search@email.local".to_string(),
        provider: Provider::Ollama,
        model: "model".to_string(),
        description: "d".to_string(),
        instruction: "i".to_string(),
        constraints: String::new(),
        context: String::new(),
        tools: None,
    };
    assert_eq!(agent_name(&manifest), "search");
    manifest.address = "plain".to_string();
    assert_eq!(agent_name(&manifest), "plain");
}

#[test]
fn recovery_prompt_names_sender_and_error() {
    let e = "rate limited";
    let expected = format!(
        "<RECOVERY_PROMPT>\n\
        The previous attempt to process message from {} failed.\n\
        <ERROR>{e}</ERROR>\n\
        You must notify the original sender by calling \"send_message\".\n\
        Do not answer with normal text.\n\
        After the tool call succeeds, return exactly:\n\
        [ERROR SENT]\n\
    </RECOVERY_PROMPT>",
        "user@email.local"
    );
    assert_eq!(recovery_prompt(&address("user", "email", "local"), e), expected);
}

#[test]
fn message_prompt_shows_addresses_and_body() {
    assert_eq!(
        message_prompt(&message()),
        "FROM: user@email.local\nTO: search@email.local\n\nfind it"
    );
}

#[test]
fn loop_forwards_messages_to_the_model_only() {
    let (state, action) = AgentState::start();
    assert!(matches!(state, AgentState::Waiting));
    assert!(matches!(action, AgentAction::Receive));
    let (state, action) = state.step(AgentEvent::Received(message()));
    assert!(matches!(state, AgentState::Processing(_)));
    match action {
        AgentAction::Chat(p) => assert!(p.starts_with("FROM: user@email.local")),
        _ => panic!("expected a chat"),
    }
    let (state, action) = state.step(AgentEvent::Replied("done".to_string()));
    assert!(matches!(state, AgentState::Waiting));
    assert!(matches!(action, AgentAction::Receive));
    let (state, action) = state.step(AgentEvent::Closed);
    assert!(matches!(state, AgentState::Stopped));
    assert!(matches!(action, AgentAction::Finish));
}

#[test]
fn loop_reports_failures_to_the_sender() {
    let (state, _) = AgentState::Waiting.step(AgentEvent::Received(message()));
    let (state, action) = state.step(AgentEvent::ChatFailed("boom".to_string()));
    assert!(matches!(state, AgentState::Recovering(_)));
    match action {
        AgentAction::Chat(p) => assert!(p.contains("<ERROR>boom</ERROR>")),
        _ => panic!("expected a chat"),
    }
    // The model says it reported the failure itself.
    let (done, action) = state.step(AgentEvent::Replied("  [ERROR SENT]\n".to_string()));
    assert!(matches!(done, AgentState::Waiting));
    assert!(matches!(action, AgentAction::Receive));

    let (state, _) = AgentState::Waiting.step(AgentEvent::Received(message()));
    let (state, _) = state.step(AgentEvent::ChatFailed("boom".to_string()));
    let (state, action) = state.step(AgentEvent::Replied("sorry".to_string()));
    assert!(matches!(state, AgentState::Notifying { then_stop: false }));
    match action {
        AgentAction::Send(to, body) => {
            assert_eq!(to, address("user", "email", "local"));
            assert_eq!(body, "sorry");
        }
        _ => panic!("expected a send"),
    }
    let (state, action) = state.step(AgentEvent::Sent);
    assert!(matches!(state, AgentState::Waiting));
    assert!(matches!(action, AgentAction::Receive));
}

#[test]
fn loop_stops_after_a_second_failure() {
    let (state, _) = AgentState::Waiting.step(AgentEvent::Received(message()));
    let (state, _) = state.step(AgentEvent::ChatFailed("boom".to_string()));
    let (state, action) = state.step(AgentEvent::ChatFailed("down".to_string()));
    match action {
        AgentAction::Send(to, body) => {
            assert_eq!(to, address("user", "email", "local"));
            assert_eq!(body, "down");
        }
        _ => panic!("expected a send"),
    }
    let (stopped, action) = AgentState::Notifying { then_stop: true }.step(AgentEvent::Sent);
    assert!(matches!(stopped, AgentState::Stopped));
    assert!(matches!(action, AgentAction::Finish));
    let (failed, action) = state.step(AgentEvent::SendFailed);
    assert!(matches!(failed, AgentState::Stopped));
    assert!(matches!(action, AgentAction::Fail));
    let (_, action) = AgentState::Waiting.step(AgentEvent::ReceiveFailed);
    assert!(matches!(action, AgentAction::Finish));
}

#[test]
fn string_arg_trims_and_refuses_blank() {
    let a = args(&[("body", Some("  hi there \n")), ("blank", Some(" \t")), ("num", None)]);
    assert_eq!(string_arg::<String>(&a, "body").unwrap(), "hi there");
    for field in ["blank", "num", "absent"] {
        match string_arg::<String>(&a, field) {
            Err(ToolError::InvalidArgument(f)) => assert_eq!(f, field),
            other => panic!("unexpected {:?}", other),
        }
    }
}

#[test]
fn address_arg_parses_the_text_form() {
    let a = args(&[("to", Some(" user@email.local ")), ("bad", Some("user"))]);
    assert_eq!(address_arg::<String>(&a, "to").unwrap(), address("user", "email", "local"));
    assert!(matches!(address_arg::<String>(&a, "bad"), Err(ToolError::InvalidAddress(_))));
}

#[test]
fn send_message_args_checks_recipient_then_body() {
    let ok = args(&[("to", Some("user@email.local")), ("body", Some("hello"))]);
    let (to, body) = send_message_args::<String>(&ok).unwrap();
    assert_eq!(to, address("user", "email", "local"));
    assert_eq!(body, "hello");
    let neither = args(&[]);
    assert!(matches!(send_message_args::<String>(&neither), Err(ToolError::InvalidArgument(f)) if f == "to"));
    let bad_to = args(&[("to", Some("nobody"))]);
    assert!(matches!(send_message_args::<String>(&bad_to), Err(ToolError::InvalidAddress(_))));
    let no_body = args(&[("to", Some("user@email.local")), ("body", Some(""))]);
    assert!(matches!(send_message_args::<String>(&no_body), Err(ToolError::InvalidArgument(f)) if f == "body"));
}

#[test]
fn outcome_of_sending() {
    assert_eq!(send_message_outcome::<String>(Ok(())).unwrap(), "message sent successfully");
    assert!(matches!(
        send_message_outcome(Err("down".to_string())),
        Err(ToolError::Transport(e)) if e == "down"
    ));
}
