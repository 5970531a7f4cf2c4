use squid::agent::{AgentConfig, AgentPermissions};
use squid::config::Config;
use squid::jobs::{run_step, JobPayload, PromptSource, RunAction, RunEvent, RunState};

fn config_with(id: &str, prompt: Option<&str>) -> Config {
    let mut c = Config::default();
    c.agents.insert(
        id.to_string(),
        AgentConfig {
            name: id.to_string(),
            enabled: true,
            description: String::new(),
            model: "model-x".to_string(),
            prompt: prompt.map(|p| p.to_string()),
            pricing_model: None,
            context_window: None,
            permissions: AgentPermissions::new(),
            use_tools: true,
            suggestions: Vec::new(),
        },
    );
    c
}

fn payload(agent: &str, file: Option<&str>) -> JobPayload {
    JobPayload {
        agent_id: agent.to_string(),
        message: "do it".to_string(),
        system_prompt: None,
        file_path: file.map(|f| f.to_string()),
        session_id: None,
    }
}

#[test]
fn a_missing_agent_fails_the_job_at_once() {
    let c = config_with("a", None);
    match run_step(RunState::Starting, RunEvent::Begin, &c, &payload("ghost", None), 3) {
        (RunState::Finished, RunAction::Fail { error }) => assert_eq!(error, "Agent 'ghost' not found"),
        _ => panic!("expected an immediate failure"),
    }
}

#[test]
fn a_run_checks_the_file_then_asks_then_retries() {
    let c = config_with("a", Some("be brief"));
    let p = payload("a", Some("src/x.rs"));
    let (state, action) = run_step(RunState::Starting, RunEvent::Begin, &c, &p, 2);
    match action {
        RunAction::CheckFile { path } => assert_eq!(path, "src/x.rs"),
        _ => panic!("expected a file check"),
    }
    let (state, action) = run_step(state, RunEvent::FileChecked(Ok(Some("fn x() {}".to_string()))), &c, &p, 2);
    match action {
        RunAction::Ask { model, prompt: PromptSource::Agent(text), file_content } => {
            assert_eq!(model, "model-x");
            assert_eq!(text, "be brief");
            assert_eq!(file_content, Some("fn x() {}".to_string()));
        }
        _ => panic!("expected a question to the model"),
    }
    let (state, action) = run_step(state, RunEvent::Answered(Err("timeout".to_string())), &c, &p, 2);
    assert!(matches!(action, RunAction::CountRetry));
    match run_step(state, RunEvent::RetriesCounted(Some(1)), &c, &p, 2) {
        (RunState::Finished, RunAction::Retry { message }) => assert_eq!(message, "Retrying (1/2)"),
        _ => panic!("expected a retry"),
    }
}

#[test]
fn a_run_gives_up_at_the_limit_and_refuses_bad_paths() {
    let c = config_with("a", None);
    let p = payload("a", Some("../etc/passwd"));
    match run_step(RunState::AwaitingRetryCount { error: "boom".to_string() }, RunEvent::RetriesCounted(Some(2)), &c, &p, 2) {
        (RunState::Finished, RunAction::GiveUp { error }) => assert_eq!(error, "boom"),
        _ => panic!("expected to give up"),
    }
    let (_, action) = run_step(RunState::Starting, RunEvent::Begin, &c, &p, 2);
    assert!(matches!(action, RunAction::CheckFile { .. }));
    let state = RunState::AwaitingFile { model: "m".to_string(), prompt: PromptSource::DefaultAsk };
    match run_step(state, RunEvent::FileChecked(Err("Access denied: path '../etc/passwd' is outside workspace".to_string())), &c, &p, 2) {
        (RunState::Finished, RunAction::Fail { error }) => {
            assert_eq!(error, "Invalid file path: Access denied: path '../etc/passwd' is outside workspace")
        }
        _ => panic!("expected a failure"),
    }
    match run_step(RunState::AwaitingAnswer, RunEvent::Answered(Ok("done".to_string())), &c, &p, 2) {
        (RunState::Finished, RunAction::Complete { response }) => assert_eq!(response, "done"),
        _ => panic!("expected completion"),
    }
    assert!(matches!(run_step(RunState::Finished, RunEvent::Begin, &c, &p, 2), (RunState::Finished, RunAction::Stop)));
}
