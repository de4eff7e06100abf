use ollama::cli::{plan, Action, Commands};

fn delegated(a: &Action) -> Vec<String> {
    match a {
        Action::Delegate { args } => args.clone(),
        other => panic!("not delegated: {:?}", other),
    }
}

#[test]
fn pull_delegates_and_confirms() {
    let p = plan(&Commands::Pull { model: "mistral".to_string() });
    assert_eq!(delegated(&p.action), vec!["pull".to_string(), "mistral".to_string()]);
    assert_eq!(p.announce, "Pulling model: mistral");
    let confirm = p.confirm.unwrap();
    assert!(confirm.contains("mistral"));
    assert_eq!(confirm, "Model mistral pulled successfully.");
}

#[test]
fn other_delegating_commands() {
    let p = plan(&Commands::Installed);
    assert_eq!(delegated(&p.action), vec!["list".to_string()]);
    assert_eq!(p.announce, "Listing installed models...");
    assert!(p.confirm.is_none());

    let p = plan(&Commands::Run { model: "llama2".to_string() });
    assert_eq!(delegated(&p.action), vec!["run".to_string(), "llama2".to_string()]);
    assert_eq!(p.announce, "Running model: llama2");

    let p = plan(&Commands::Remove { model: "phi".to_string() });
    assert_eq!(delegated(&p.action), vec!["rm".to_string(), "phi".to_string()]);
    assert_eq!(p.confirm, Some("Model phi removed.".to_string()));
}

#[test]
fn list_fetches_catalog() {
    let p = plan(&Commands::List);
    assert!(matches!(p.action, Action::ListCatalog));
    assert_eq!(p.announce, "Fetching available models...");
}

#[test]
fn generate_builds_request() {
    let p = plan(&Commands::Generate {
        model: "llama2".to_string(),
        prompt: "hello".to_string(),
        system: Some("be brief".to_string()),
    });
    assert_eq!(p.announce, "Generating response with model: llama2");
    match p.action {
        Action::Generate { request } => {
            assert_eq!(request.model, "llama2");
            assert_eq!(request.prompt, "hello");
            assert_eq!(request.system, "be brief");
            assert!(!request.stream);
        }
        other => panic!("unexpected {:?}", other),
    }
}
