//! The tool's commands and what each of them does: the messages it shows
//! and the work it hands on.
use vstd::prelude::*;
use vstd::string::StringExecFns;
use crate::catalog::names_view;
use crate::generation::{GenerateRequest, generate_request, default_system_prompt};

verus! {

/// The parsed command line.
#[derive(Debug)]
pub struct Cli {
    pub command: Commands,
}

/// The tool's subcommands.
#[derive(Debug)]
pub enum Commands {
    /// List the models of the remote catalog.
    List,
    /// List the models installed locally.
    Installed,
    /// Download a model.
    Pull { model: String },
    /// Run a model interactively.
    Run { model: String },
    /// Remove an installed model.
    Remove { model: String },
    /// Generate one answer to a prompt, under a system prompt.
    Generate { model: String, prompt: String, system: Option<String> },
}

/// The work a command hands on.
#[derive(Debug)]
pub enum Action {
    /// Fetch the catalog page and list the models it names.
    ListCatalog,
    /// Run the external model program with these arguments.
    Delegate { args: Vec<String> },
    /// Send this request to the local server and show its answer.
    Generate { request: GenerateRequest },
}

/// A command made concrete: a message shown before the work, the work, and
/// a message shown once it succeeded, if any.
#[derive(Debug)]
pub struct Plan {
    pub announce: String,
    pub action: Action,
    pub confirm: Option<String>,
}

/// The arguments that a command passes to the external program, for the
/// commands that delegate.
pub open spec fn delegated_args(c: Commands) -> Option<Seq<Seq<char>>> {
    match c {
        Commands::Installed => Some(seq!["list"@]),
        Commands::Pull { model } => Some(seq!["pull"@, model@]),
        Commands::Run { model } => Some(seq!["run"@, model@]),
        Commands::Remove { model } => Some(seq!["rm"@, model@]),
        _ => None,
    }
}

/// The message shown when a command starts.
pub open spec fn announcement(c: Commands) -> Seq<char> {
    match c {
        Commands::List => "Fetching available models..."@,
        Commands::Installed => "Listing installed models..."@,
        Commands::Pull { model } => "Pulling model: "@ + model@,
        Commands::Run { model } => "Running model: "@ + model@,
        Commands::Remove { model } => "Removing model: "@ + model@,
        Commands::Generate { model, .. } => "Generating response with model: "@ + model@,
    }
}

/// The message shown when a command has succeeded, for those that show one.
pub open spec fn confirmation(c: Commands) -> Option<Seq<char>> {
    match c {
        Commands::Pull { model } => Some("Model "@ + model@ + " pulled successfully."@),
        Commands::Remove { model } => Some("Model "@ + model@ + " removed."@),
        _ => None,
    }
}

/// `a` is the work that command `c` hands on.
pub open spec fn action_of(c: Commands, a: Action) -> bool {
    match c {
        Commands::List => a is ListCatalog,
        Commands::Generate { model, prompt, system } => a matches Action::Generate { request }
            && request.model@ == model@ && request.prompt@ == prompt@ && !request.stream
            && request.system@ == match system {
            Some(s) => s@,
            None => default_system_prompt(),
        },
        _ => a matches Action::Delegate { args } && delegated_args(c) == Some(names_view(args@)),
    }
}

/// What a command shows and what work it hands on.
pub fn plan(command: &Commands) -> (r: Plan)
    ensures
        r.announce@ == announcement(*command),
        action_of(*command, r.action),
        r.confirm.deep_view() == confirmation(*command),
{
    match command {
        Commands::List => Plan {
            announce: String::from_str("Fetching available models..."),
            action: Action::ListCatalog,
            confirm: None,
        },
        Commands::Installed => {
            let args = vec![String::from_str("list")];
            assert(names_view(args@) =~= seq!["list"@]);
            Plan {
                announce: String::from_str("Listing installed models..."),
                action: Action::Delegate { args },
                confirm: None,
            }
        },
        Commands::Pull { model } => {
            let args = vec![String::from_str("pull"), model.clone()];
            assert(names_view(args@) =~= seq!["pull"@, model@]);
            Plan {
                announce: String::from_str("Pulling model: ").concat(model.as_str()),
                action: Action::Delegate { args },
                confirm: Some(
                    String::from_str("Model ").concat(model.as_str()).concat(
                        " pulled successfully.",
                    ),
                ),
            }
        },
        Commands::Run { model } => {
            let args = vec![String::from_str("run"), model.clone()];
            assert(names_view(args@) =~= seq!["run"@, model@]);
            Plan {
                announce: String::from_str("Running model: ").concat(model.as_str()),
                action: Action::Delegate { args },
                confirm: None,
            }
        },
        Commands::Remove { model } => {
            let args = vec![String::from_str("rm"), model.clone()];
            assert(names_view(args@) =~= seq!["rm"@, model@]);
            Plan {
                announce: String::from_str("Removing model: ").concat(model.as_str()),
                action: Action::Delegate { args },
                confirm: Some(String::from_str("Model ").concat(model.as_str()).concat(" removed.")),
            }
        },
        Commands::Generate { model, prompt, system } => Plan {
            announce: String::from_str("Generating response with model: ").concat(model.as_str()),
            action: Action::Generate {
                request: generate_request(model.as_str(), prompt.as_str(), system.clone()),
            },
            confirm: None,
        },
    }
}

/// `needle` occurs in `text` as a contiguous part.
pub open spec fn mentions(text: Seq<char>, needle: Seq<char>) -> bool {
    exists|k: int|
        0 <= k && k + needle.len() <= text.len() && #[trigger] text.subrange(k, k + needle.len())
            == needle
}

/// Pulling a model hands the external program exactly `pull` and the
/// model's name, and the message shown on success names the model.
pub proof fn lemma_pull_delegates_and_confirms(model: String)
    ensures
        delegated_args(Commands::Pull { model }) == Some(seq!["pull"@, model@]),
        confirmation(Commands::Pull { model }) matches Some(text) && mentions(text, model@),
{
    reveal_strlit("Model ");
    let text = "Model "@ + model@ + " pulled successfully."@;
    let k: int = 6;
    assert(("Model "@).len() == 6);
    assert(text.subrange(k, k + model@.len()) =~= model@);
    assert(mentions(text, model@));
}

} // verus!
