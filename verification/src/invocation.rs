//! The invocation assembler: a validated run request plus a resolved
//! definition become the executor's argument vector and the final override
//! sequence, packed as one invocation descriptor.

use crate::definition::DefinitionStore;
use crate::show::SubagentShowArgs;
use crate::definition::SubagentError;
use crate::overrides::assemble_overrides;
use crate::overrides::spec_assembled_overrides;
use crate::text::lemma_views_of_concat;
use crate::text::views_of;
use crate::toggles::SubagentToggleArgs;
use vstd::prelude::*;
use vstd::string::StringExecFns;

verus! {

/// One operation of the command surface: list the subagents, show one,
/// or run one.
pub enum SubagentCommand {
    List,
    Show(SubagentShowArgs),
    Run(SubagentRunArgs),
}

/// The sandbox policy selector of a run request.
#[derive(Clone, Copy, PartialEq, Eq, Structural, Debug)]
pub enum SandboxModeArg {
    ReadOnly,
    WorkspaceWrite,
    DangerFullAccess,
}

/// The canonical name of a sandbox mode, as the executor's flag value.
pub open spec fn spec_sandbox_name(m: SandboxModeArg) -> Seq<char> {
    match m {
        SandboxModeArg::ReadOnly => "read-only"@,
        SandboxModeArg::WorkspaceWrite => "workspace-write"@,
        SandboxModeArg::DangerFullAccess => "danger-full-access"@,
    }
}

impl SandboxModeArg {
    /// The canonical enumerant name emitted after the sandbox flag.
    pub fn canonical_name(&self) -> (r: String)
        ensures
            r@ == spec_sandbox_name(*self),
    {
        match self {
            SandboxModeArg::ReadOnly => String::from_str("read-only"),
            SandboxModeArg::WorkspaceWrite => String::from_str("workspace-write"),
            SandboxModeArg::DangerFullAccess => String::from_str("danger-full-access"),
        }
    }
}

/// A validated run request: the subagent to run, an optional free-form
/// prompt, and the executor flags of this run.
pub struct SubagentRunArgs {
    pub name: String,
    pub prompt: Option<String>,
    pub json: bool,
    pub oss: bool,
    pub full_auto: bool,
    pub dangerously_bypass_approvals_and_sandbox: bool,
    pub sandbox_mode: Option<SandboxModeArg>,
    pub cwd: Option<String>,
    pub config_profile: Option<String>,
    pub model: Option<String>,
}

/// The leading program token and the boolean flags of the request, each
/// emitted as one token only when selected.
pub open spec fn spec_flag_tokens(a: SubagentRunArgs) -> Seq<Seq<char>> {
    seq!["codex-subagent-run"@] + (if a.json {
        seq!["--json"@]
    } else {
        Seq::empty()
    }) + (if a.oss {
        seq!["--oss"@]
    } else {
        Seq::empty()
    }) + (if a.full_auto {
        seq!["--full-auto"@]
    } else {
        Seq::empty()
    }) + (if a.dangerously_bypass_approvals_and_sandbox {
        seq!["--dangerously-bypass-approvals-and-sandbox"@]
    } else {
        Seq::empty()
    })
}

/// The value-bearing flags of the request, each a flag token followed by
/// its value token only when the input is present, and the free-form
/// prompt, when present, as the final positional token.
pub open spec fn spec_value_tokens(a: SubagentRunArgs) -> Seq<Seq<char>> {
    (match a.sandbox_mode {
        Some(m) => seq!["--sandbox"@, spec_sandbox_name(m)],
        None => Seq::empty(),
    }) + (match a.model {
        Some(m) => seq!["-m"@, m@],
        None => Seq::empty(),
    }) + (match a.config_profile {
        Some(p) => seq!["-p"@, p@],
        None => Seq::empty(),
    }) + (match a.cwd {
        Some(c) => seq!["-C"@, c@],
        None => Seq::empty(),
    }) + (match a.prompt {
        Some(p) => seq![p@],
        None => Seq::empty(),
    })
}

/// The executor's argument vector for a run request: boolean flags appear
/// as one token only when selected, value-bearing flags as a flag token
/// followed by the value token only when present, and the free-form
/// prompt, when present, is the final positional token.
pub open spec fn spec_argv(a: SubagentRunArgs) -> Seq<Seq<char>> {
    spec_flag_tokens(a) + spec_value_tokens(a)
}

/// Builds the leading program token and the boolean flag tokens.
fn assemble_flag_tokens(args: &SubagentRunArgs) -> (r: Vec<String>)
    ensures
        r.deep_view() == spec_flag_tokens(*args),
{
    let mut argv: Vec<String> = Vec::new();
    argv.push(String::from_str("codex-subagent-run"));
    if args.json {
        argv.push(String::from_str("--json"));
    }
    if args.oss {
        argv.push(String::from_str("--oss"));
    }
    if args.full_auto {
        argv.push(String::from_str("--full-auto"));
    }
    if args.dangerously_bypass_approvals_and_sandbox {
        argv.push(String::from_str("--dangerously-bypass-approvals-and-sandbox"));
    }
    proof {
        assert(argv.deep_view() =~= views_of(argv@));
        assert(views_of(argv@) =~= spec_flag_tokens(*args));
    }
    argv
}

/// Builds the value-bearing flag tokens and the trailing prompt token.
fn assemble_value_tokens(args: &SubagentRunArgs) -> (r: Vec<String>)
    ensures
        r.deep_view() == spec_value_tokens(*args),
{
    let mut argv: Vec<String> = Vec::new();
    if let Some(mode) = &args.sandbox_mode {
        argv.push(String::from_str("--sandbox"));
        argv.push(mode.canonical_name());
    }
    if let Some(model) = &args.model {
        argv.push(String::from_str("-m"));
        argv.push(model.clone());
    }
    if let Some(profile) = &args.config_profile {
        argv.push(String::from_str("-p"));
        argv.push(profile.clone());
    }
    if let Some(cwd) = &args.cwd {
        argv.push(String::from_str("-C"));
        argv.push(cwd.clone());
    }
    if let Some(prompt) = &args.prompt {
        argv.push(prompt.clone());
    }
    proof {
        assert(argv.deep_view() =~= views_of(argv@));
        assert(views_of(argv@) =~= spec_value_tokens(*args));
    }
    argv
}

/// Builds the executor's argument vector for a run request.
pub fn assemble_argv(args: &SubagentRunArgs) -> (r: Vec<String>)
    ensures
        r.deep_view() == spec_argv(*args),
{
    let mut argv = assemble_flag_tokens(args);
    let ghost head = argv@;
    let mut values = assemble_value_tokens(args);
    let ghost tail = values@;
    proof {
        assert(views_of(head) =~= argv.deep_view());
        assert(views_of(tail) =~= values.deep_view());
    }
    argv.append(&mut values);
    proof {
        assert(argv@ == head + tail);
        lemma_views_of_concat(head, tail);
        assert(argv.deep_view() =~= views_of(argv@));
        assert(argv.deep_view() =~= spec_argv(*args));
    }
    argv
}

/// The package handed to the external executor for one run: its argument
/// vector and the final override sequence, in exactly the order they were
/// assembled.
pub struct InvocationDescriptor {
    pub argv: Vec<String>,
    pub overrides: Vec<String>,
}

/// Validates a run request against the store and assembles its invocation
/// descriptor: an unknown subagent name fails with that name before any
/// assembly; a known one yields the argument vector of the request and the
/// override sequence ending in the forced enable and, when the resolved
/// definition carries a system prompt, its injection.
pub fn prepare_run(
    args: &SubagentRunArgs,
    store: &DefinitionStore,
    user_overrides: &Vec<String>,
    toggles: &SubagentToggleArgs,
) -> (r: Result<InvocationDescriptor, SubagentError>)
    ensures
        r is Ok <==> store.contains_name(args.name@),
        r matches Ok(desc) ==> desc.argv.deep_view() == spec_argv(*args)
            && desc.overrides.deep_view() == spec_assembled_overrides(
            user_overrides.deep_view(),
            toggles.enable.deep_view(),
            toggles.disable.deep_view(),
            args.name@,
            store.spec_get(args.name@).unwrap().system_prompt.deep_view(),
        ),
        r matches Err(SubagentError::UnknownSubagent { name }) ==> name@ == args.name@,
{
    match store.get(&args.name) {
        None => Err(SubagentError::UnknownSubagent { name: args.name.clone() }),
        Some(definition) => {
            let argv = assemble_argv(args);
            let overrides = assemble_overrides(
                user_overrides,
                toggles,
                &args.name,
                &definition.system_prompt,
            );
            Ok(InvocationDescriptor { argv, overrides })
        },
    }
}

} // verus!
