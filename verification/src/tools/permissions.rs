//! What a tool may do without asking, after asking, and not at all.

use vstd::prelude::*;

use crate::text;
use crate::text_laws;
use crate::text::{
    cat2, cat3, cat4, contains, eq_ignore_ascii_case, join, same_text, starts_with,
    to_ascii_lowercase, trim,
};
use crate::tools::path;
use crate::tools::path::{extension_of, parent_of};

verus! {

/// Risk classification the permission engine assigns to a `run_command` request.
///
/// This is an illustrative heuristic, not a hardcoded allowlist: unknown programs default to
/// medium so that they are neither silently trusted nor silently blocked.
#[derive(Clone, Copy, Debug, PartialEq, Eq, PartialOrd, Ord, Structural)]
pub enum CommandRisk {
    /// Read-only or well-understood build/test/lint commands.
    Low,
    /// Commands whose effects are plausible but not clearly safe.
    Medium,
    /// Commands that delete data, touch remote state, or affect the system outside the project.
    High,
}

/// A reusable approval category. Command approvals use the risk level rather than the exact
/// command text, so that always allowing medium commands does not authorize high-risk ones.
#[derive(Clone, Copy, Debug, PartialEq, Eq, PartialOrd, Ord, Structural)]
pub enum PermissionScope {
    Read,
    Write,
    Command(CommandRisk),
}

impl PermissionScope {
    /// How the category is shown.
    pub open spec fn name(self) -> Seq<char> {
        match self {
            PermissionScope::Read => "leitura"@,
            PermissionScope::Write => "alterações de arquivo"@,
            PermissionScope::Command(CommandRisk::Low) => "comandos de baixo risco"@,
            PermissionScope::Command(CommandRisk::Medium) => "comandos de risco médio"@,
            PermissionScope::Command(CommandRisk::High) => "comandos de alto risco"@,
        }
    }

    /// How the category is shown.
    #[must_use]
    pub fn label(self) -> (r: &'static str)
        ensures
            r@ == self.name(),
    {
        match self {
            PermissionScope::Read => "leitura",
            PermissionScope::Write => "alterações de arquivo",
            PermissionScope::Command(CommandRisk::Low) => "comandos de baixo risco",
            PermissionScope::Command(CommandRisk::Medium) => "comandos de risco médio",
            PermissionScope::Command(CommandRisk::High) => "comandos de alto risco",
        }
    }
}

/// The action a tool is requesting permission for.
#[derive(Debug, PartialEq, Eq)]
pub enum PermissionAction {
    /// A read-only filesystem or Git inspection.
    ReadOnly,
    /// A file create, modify, or delete inside the workspace.
    Write { path: String },
    /// An external process invocation.
    Command { program: String, args: Vec<String>, cwd: String, risk: CommandRisk },
}

impl PermissionAction {
    /// The category that the action falls under.
    pub open spec fn scope(self) -> PermissionScope {
        match self {
            PermissionAction::ReadOnly => PermissionScope::Read,
            PermissionAction::Write { .. } => PermissionScope::Write,
            PermissionAction::Command { risk, .. } => PermissionScope::Command(risk),
        }
    }

    /// A short summary of the action.
    pub open spec fn summary(self) -> Seq<char> {
        match self {
            PermissionAction::ReadOnly => "read project files"@,
            PermissionAction::Write { path: p } => "write: "@ + p@,
            PermissionAction::Command { program, args, .. } => text::trimmed(
                "run: "@ + program@ + " "@ + text::joined(text::texts(args@), " "@),
            ),
        }
    }

    /// The directory that the action happens in.
    pub open spec fn directory(self) -> Seq<char> {
        match self {
            PermissionAction::ReadOnly => "."@,
            PermissionAction::Write { path: p } => match path::parent(p@) {
                Some(holder) => holder,
                None => p@,
            },
            PermissionAction::Command { cwd, .. } => cwd@,
        }
    }
}

/// Reason a request was denied, shown to the model so it can adapt.
#[derive(Clone, Debug, PartialEq, Eq)]
pub struct PermissionReason(pub String);

/// A concrete confirmation prompt.
#[derive(Clone, Debug, PartialEq, Eq)]
pub struct PermissionRequest {
    /// Short summary of the action, e.g. `run: npm install`.
    pub summary: String,
    /// Working directory the action would run or write in.
    pub working_directory: String,
    /// Category used when the user chooses to allow always.
    pub scope: PermissionScope,
}

impl PermissionRequest {
    /// Whether this is the prompt for an action.
    pub open spec fn is_for(self, action: PermissionAction) -> bool {
        &&& self.summary@ == action.summary()
        &&& self.working_directory@ == action.directory()
        &&& self.scope == action.scope()
    }
}

/// The user's outcome for an interactive permission prompt.
#[derive(Clone, Copy, Debug, PartialEq, Eq, Structural)]
pub enum PermissionResponse {
    AllowOnce,
    AllowAlways,
    Deny,
}

/// The permission engine's decision for one action.
#[derive(Clone, Debug, PartialEq, Eq)]
pub enum PermissionDecision {
    /// Proceed without user confirmation.
    Allow,
    /// Proceed only if the user approves this specific request.
    Ask(PermissionRequest),
    /// Never proceed; carries a model-facing explanation.
    Deny(PermissionReason),
}

/// Whether a decision is to ask about an action.
pub open spec fn asks(decision: PermissionDecision, action: PermissionAction) -> bool {
    decision matches PermissionDecision::Ask(request) && request.is_for(action)
}

/// Whether a decision is to refuse, with the given words.
pub open spec fn denies(decision: PermissionDecision, reason: Seq<char>) -> bool {
    decision matches PermissionDecision::Deny(r) && r.0@ == reason
}

// ---------------------------------------------------------------------------------------------
// The risk of a command
// ---------------------------------------------------------------------------------------------

/// Programs that delete data, reach the network or change rights.
pub open spec fn is_risky_program(program: Seq<char>) -> bool {
    ||| program == "rm"@
    ||| program == "del"@
    ||| program == "erase"@
    ||| program == "rmdir"@
    ||| program == "format"@
    ||| program == "shutdown"@
    ||| program == "reboot"@
    ||| program == "diskpart"@
    ||| program == "sudo"@
    ||| program == "su"@
    ||| program == "chmod"@
    ||| program == "chown"@
    ||| program == "curl"@
    ||| program == "wget"@
    ||| program == "ssh"@
    ||| program == "scp"@
    ||| program == "git"@
}

/// Arguments that destroy something or reach a remote, whatever the program.
pub open spec fn has_risky_pattern(args: Seq<char>) -> bool {
    ||| text::contains_text(args, "rm -rf"@)
    ||| text::contains_text(args, "rm -r"@)
    ||| text::contains_text(args, "-force"@)
    ||| text::contains_text(args, "--force"@)
    ||| text::contains_text(args, "reset --hard"@)
    ||| text::contains_text(args, "push"@)
    ||| text::contains_text(args, "checkout"@)
    ||| text::contains_text(args, "clean -f"@)
    ||| text::contains_text(args, "> /dev"@)
    ||| text::contains_text(args, "format "@)
}

/// Programs that development work runs all the time.
pub open spec fn is_known_program(program: Seq<char>) -> bool {
    ||| program == "cargo"@
    ||| program == "npm"@
    ||| program == "pnpm"@
    ||| program == "yarn"@
    ||| program == "go"@
    ||| program == "pytest"@
    ||| program == "python"@
    ||| program == "python3"@
    ||| program == "node"@
    ||| program == "make"@
    ||| program == "git-status"@
}

/// Arguments that hint at a build, a test or an inspection.
pub open spec fn has_low_risk_hint(args: Seq<char>) -> bool {
    ||| text::contains_text(args, "test"@)
    ||| text::contains_text(args, "check"@)
    ||| text::contains_text(args, "build"@)
    ||| text::contains_text(args, "fmt"@)
    ||| text::contains_text(args, "lint"@)
    ||| text::contains_text(args, "vet"@)
    ||| text::contains_text(args, "status"@)
    ||| text::contains_text(args, "diff"@)
    ||| text::contains_text(args, "--version"@)
    ||| text::contains_text(args, "-v"@)
}

/// Whether Git's arguments only inspect the repository.
pub open spec fn only_inspects(args: Seq<char>) -> bool {
    ||| "status"@.is_prefix_of(args)
    ||| "diff"@.is_prefix_of(args)
    ||| "log"@.is_prefix_of(args)
    ||| "show"@.is_prefix_of(args)
}

/// The risk of a command. Case does not matter; a shell line is always of high risk.
pub open spec fn risk_of(program: Seq<char>, args: Seq<Seq<char>>, shell: bool) -> CommandRisk {
    let name = text::lowered(program);
    let line = text::lowered(text::joined(args, " "@));
    if shell {
        CommandRisk::High
    } else if name == "git"@ {
        if only_inspects(line) {
            CommandRisk::Low
        } else {
            CommandRisk::High
        }
    } else if is_risky_program(name) || has_risky_pattern(line) {
        CommandRisk::High
    } else if is_known_program(name) && (args.len() == 0 || has_low_risk_hint(line)) {
        CommandRisk::Low
    } else {
        CommandRisk::Medium
    }
}

fn find_risky_program(p: &str) -> (r: bool)
    ensures
        r == is_risky_program(p@),
{
    same_text(p, "rm") || same_text(p, "del") || same_text(p, "erase") || same_text(p, "rmdir")
        || same_text(p, "format") || same_text(p, "shutdown") || same_text(p, "reboot")
        || same_text(p, "diskpart") || same_text(p, "sudo") || same_text(p, "su") || same_text(
        p,
        "chmod",
    ) || same_text(p, "chown") || same_text(p, "curl") || same_text(p, "wget") || same_text(
        p,
        "ssh",
    ) || same_text(p, "scp") || same_text(p, "git")
}

fn find_risky_pattern(a: &str) -> (r: bool)
    ensures
        r == has_risky_pattern(a@),
{
    contains(a, "rm -rf") || contains(a, "rm -r") || contains(a, "-force") || contains(a, "--force")
        || contains(a, "reset --hard") || contains(a, "push") || contains(a, "checkout")
        || contains(a, "clean -f") || contains(a, "> /dev") || contains(a, "format ")
}

fn find_known_program(p: &str) -> (r: bool)
    ensures
        r == is_known_program(p@),
{
    same_text(p, "cargo") || same_text(p, "npm") || same_text(p, "pnpm") || same_text(p, "yarn")
        || same_text(p, "go") || same_text(p, "pytest") || same_text(p, "python") || same_text(
        p,
        "python3",
    ) || same_text(p, "node") || same_text(p, "make") || same_text(p, "git-status")
}

fn find_low_risk_hint(a: &str) -> (r: bool)
    ensures
        r == has_low_risk_hint(a@),
{
    contains(a, "test") || contains(a, "check") || contains(a, "build") || contains(a, "fmt")
        || contains(a, "lint") || contains(a, "vet") || contains(a, "status") || contains(a, "diff")
        || contains(a, "--version") || contains(a, "-v")
}

/// Classifies a `run_command` request using conservative, illustrative heuristics.
///
/// It recognizes common low-risk development commands and common high-risk destructive patterns,
/// and takes everything else for medium.
#[must_use]
pub fn classify_command_risk(program: &str, args: &Vec<String>, shell: bool) -> (r: CommandRisk)
    ensures
        r == risk_of(program@, text::texts(args@), shell),
{
    if shell {
        return CommandRisk::High;
    }
    let name: String = to_ascii_lowercase(program);
    let whole: String = join(args, " ");
    let line: String = to_ascii_lowercase(whole.as_str());
    if same_text(name.as_str(), "git") {
        return if starts_with(line.as_str(), "status") || starts_with(line.as_str(), "diff")
            || starts_with(line.as_str(), "log") || starts_with(line.as_str(), "show") {
            CommandRisk::Low
        } else {
            CommandRisk::High
        };
    }
    if find_risky_program(name.as_str()) || find_risky_pattern(line.as_str()) {
        return CommandRisk::High;
    }
    assert(args@.len() == text::texts(args@).len());
    if find_known_program(name.as_str()) && (args.len() == 0 || find_low_risk_hint(line.as_str())) {
        return CommandRisk::Low;
    }
    CommandRisk::Medium
}

/// A shell line and a destructive argument are of high risk with any program but Git; Git is of
/// low risk only where it inspects.
pub proof fn law_destructive_commands_are_high_risk(
    program: Seq<char>,
    args: Seq<Seq<char>>,
    shell: bool,
)
    ensures
        risk_of(program, args, true) == CommandRisk::High,
        text::lowered(program) != "git"@ && has_risky_pattern(
            text::lowered(text::joined(args, " "@)),
        ) ==> risk_of(program, args, shell) == CommandRisk::High,
        is_risky_program(text::lowered(program)) && text::lowered(program) != "git"@ ==> risk_of(
            program,
            args,
            shell,
        ) == CommandRisk::High,
        text::lowered(program) == "git"@ && !shell ==> (risk_of(program, args, shell)
            == CommandRisk::Low <==> only_inspects(text::lowered(text::joined(args, " "@)))),
{
}

// ---------------------------------------------------------------------------------------------
// Policies
// ---------------------------------------------------------------------------------------------

/// Decides whether to allow, ask about or deny one action, independent of how asking is resolved.
pub trait PermissionPolicy {
    /// Whether a decision is the policy's decision on an action.
    spec fn decides(&self, action: PermissionAction, decision: PermissionDecision) -> bool;

    /// Evaluates the requested action.
    fn evaluate(&self, action: &PermissionAction) -> (r: PermissionDecision)
        ensures
            self.decides(*action, r),
    ;
}

/// The prompt for an action.
fn request_for(action: &PermissionAction) -> (r: PermissionRequest)
    ensures
        r.is_for(*action),
{
    match action {
        PermissionAction::ReadOnly => PermissionRequest {
            summary: "read project files".to_owned(),
            working_directory: ".".to_owned(),
            scope: PermissionScope::Read,
        },
        PermissionAction::Write { path: p } => PermissionRequest {
            summary: cat2("write: ", p.as_str()),
            working_directory: match parent_of(p.as_str()) {
                Some(holder) => holder,
                None => p.clone(),
            },
            scope: PermissionScope::Write,
        },
        PermissionAction::Command { program, args, cwd, risk } => {
            let line: String = join(args, " ");
            let whole: String = cat4("run: ", program.as_str(), " ", line.as_str());
            PermissionRequest {
                summary: trim(whole.as_str()),
                working_directory: cwd.clone(),
                scope: PermissionScope::Command(*risk),
            }
        },
    }
}

/// What a decision by risk is: low is allowed, medium asks, high is denied outright.
pub open spec fn by_risk(action: PermissionAction, decision: PermissionDecision) -> bool {
    match action {
        PermissionAction::Command { program, risk, .. } => match risk {
            CommandRisk::Low => decision is Allow,
            CommandRisk::Medium => asks(decision, action),
            CommandRisk::High => denies(
                decision,
                program@ + " is classified high-risk and requires an explicit, narrower tool"@,
            ),
        },
        _ => false,
    }
}

/// Evaluates a command by its risk.
fn evaluate_command_risk(action: &PermissionAction, program: &str, risk: CommandRisk) -> (r:
    PermissionDecision)
    requires
        action matches PermissionAction::Command { program: p, risk: k, .. } && p@ == program@ && k
            == risk,
    ensures
        by_risk(*action, r),
{
    match risk {
        CommandRisk::Low => PermissionDecision::Allow,
        CommandRisk::Medium => PermissionDecision::Ask(request_for(action)),
        CommandRisk::High => PermissionDecision::Deny(
            PermissionReason(
                cat2(
                    program,
                    " is classified high-risk and requires an explicit, narrower tool",
                ),
            ),
        ),
    }
}

/// Extensions taken for documentation or planning notes rather than source code. An extension that
/// is not known counts as code.
pub open spec fn is_note_extension(extension: Seq<char>) -> bool {
    let e = text::lowered(extension);
    ||| e == text::lowered("md"@)
    ||| e == text::lowered("markdown"@)
    ||| e == text::lowered("txt"@)
    ||| e == text::lowered("text"@)
    ||| e == text::lowered("rst"@)
    ||| e == text::lowered("adoc"@)
    ||| e == text::lowered("json"@)
    ||| e == text::lowered("yaml"@)
    ||| e == text::lowered("yml"@)
    ||| e == text::lowered("toml"@)
    ||| e == text::lowered("csv"@)
    ||| e == text::lowered("log"@)
}

/// Whether plan mode may write a file.
pub open spec fn plan_may_write(p: Seq<char>) -> bool {
    path::extension(p) matches Some(e) && is_note_extension(e)
}

/// Tells whether plan mode may write a file.
pub fn is_plan_writable(p: &str) -> (r: bool)
    ensures
        r == plan_may_write(p@),
{
    match extension_of(p) {
        Some(e) => {
            let e: &str = e.as_str();
            eq_ignore_ascii_case(e, "md") || eq_ignore_ascii_case(e, "markdown")
                || eq_ignore_ascii_case(e, "txt") || eq_ignore_ascii_case(e, "text")
                || eq_ignore_ascii_case(e, "rst") || eq_ignore_ascii_case(e, "adoc")
                || eq_ignore_ascii_case(e, "json") || eq_ignore_ascii_case(e, "yaml")
                || eq_ignore_ascii_case(e, "yml") || eq_ignore_ascii_case(e, "toml")
                || eq_ignore_ascii_case(e, "csv") || eq_ignore_ascii_case(e, "log")
        },
        None => false,
    }
}

/// The default policy. Read-only tools are always allowed. Writes are allowed while editing is
/// enabled for the current task, and so is every command then; without it, commands are evaluated by
/// risk, by the rule that plan mode has too.
#[derive(Clone, Copy, Debug, PartialEq, Eq, Structural)]
pub struct DefaultPermissionPolicy {
    /// Whether the current task authorizes file-editing tools.
    pub editing_enabled: bool,
}

impl DefaultPermissionPolicy {
    /// Creates the read-only variant of the default policy.
    #[must_use]
    pub fn read_only() -> (r: DefaultPermissionPolicy)
        ensures
            !r.editing_enabled,
    {
        DefaultPermissionPolicy { editing_enabled: false }
    }

    /// Creates the editing-enabled variant of the default policy.
    #[must_use]
    pub fn editing() -> (r: DefaultPermissionPolicy)
        ensures
            r.editing_enabled,
    {
        DefaultPermissionPolicy { editing_enabled: true }
    }
}

impl PermissionPolicy for DefaultPermissionPolicy {
    open spec fn decides(&self, action: PermissionAction, decision: PermissionDecision) -> bool {
        match action {
            PermissionAction::Write { path: p } => if self.editing_enabled {
                decision is Allow
            } else {
                denies(
                    decision,
                    "editing is not authorized for this "@ + "task; cannot write "@ + p@,
                )
            },
            PermissionAction::Command { .. } => if self.editing_enabled {
                decision is Allow
            } else {
                by_risk(action, decision)
            },
            PermissionAction::ReadOnly => decision is Allow,
        }
    }

    fn evaluate(&self, action: &PermissionAction) -> (r: PermissionDecision) {
        match action {
            PermissionAction::Write { path: p } => {
                if self.editing_enabled {
                    PermissionDecision::Allow
                } else {
                    PermissionDecision::Deny(
                        PermissionReason(
                            cat3(
                                "editing is not authorized for this ",
                                "task; cannot write ",
                                p.as_str(),
                            ),
                        ),
                    )
                }
            },
            PermissionAction::Command { program, risk, .. } => {
                if self.editing_enabled {
                    PermissionDecision::Allow
                } else {
                    evaluate_command_risk(action, program.as_str(), *risk)
                }
            },
            PermissionAction::ReadOnly => PermissionDecision::Allow,
        }
    }
}

/// The categories that the user allowed for the rest of the session.
#[derive(Debug, PartialEq, Eq)]
pub struct AllowedScopes {
    pub scopes: Vec<PermissionScope>,
}

impl AllowedScopes {
    /// Whether a category was allowed.
    pub open spec fn has(self, scope: PermissionScope) -> bool {
        self.scopes@.contains(scope)
    }

    /// Nothing allowed yet.
    pub fn new() -> (r: AllowedScopes)
        ensures
            forall|scope: PermissionScope| !r.has(scope),
    {
        AllowedScopes { scopes: Vec::new() }
    }

    /// Tells whether a category was allowed.
    pub fn contains(&self, scope: PermissionScope) -> (r: bool)
        ensures
            r == self.has(scope),
    {
        let mut i: usize = 0;
        while i < self.scopes.len()
            invariant
                i <= self.scopes@.len(),
                forall|j: int| 0 <= j < i ==> #[trigger] self.scopes@[j] != scope,
            decreases self.scopes@.len() - i,
        {
            if self.scopes[i] == scope {
                return true;
            }
            i = i + 1;
        }
        false
    }

    /// Allows a category for the rest of the session.
    pub fn allow(&mut self, scope: PermissionScope)
        ensures
            forall|other: PermissionScope|
                final(self).has(other) <==> old(self).has(other) || other == scope,
    {
        if !self.contains(scope) {
            let ghost before = self.scopes@;
            self.scopes.push(scope);
            assert(self.scopes@[before.len() as int] == scope);
            assert forall|other: PermissionScope| before.contains(other) implies #[trigger]
                self.scopes@.contains(other) by {
                let k = choose|k: int| 0 <= k < before.len() && before[k] == other;
                assert(self.scopes@[k] == other);
            }
        }
    }
}

/// Approval mode: reads, edits, and low-risk commands proceed; medium and high-risk commands
/// pause unless their risk category has already been allowed for this session.
#[derive(Debug, PartialEq, Eq)]
pub struct ApprovePermissionPolicy {
    pub always_allowed: AllowedScopes,
}

impl ApprovePermissionPolicy {
    /// A policy that knows what was allowed so far.
    #[must_use]
    pub fn new(always_allowed: AllowedScopes) -> (r: ApprovePermissionPolicy)
        ensures
            r.always_allowed == always_allowed,
    {
        ApprovePermissionPolicy { always_allowed }
    }
}

impl PermissionPolicy for ApprovePermissionPolicy {
    open spec fn decides(&self, action: PermissionAction, decision: PermissionDecision) -> bool {
        if self.always_allowed.has(action.scope()) {
            decision is Allow
        } else {
            match action {
                PermissionAction::Command { risk, .. } => if risk == CommandRisk::Low {
                    decision is Allow
                } else {
                    asks(decision, action)
                },
                _ => decision is Allow,
            }
        }
    }

    fn evaluate(&self, action: &PermissionAction) -> (r: PermissionDecision) {
        let request: PermissionRequest = request_for(action);
        if self.always_allowed.contains(request.scope) {
            return PermissionDecision::Allow;
        }
        match action {
            PermissionAction::Command { risk, .. } => {
                if *risk == CommandRisk::Low {
                    PermissionDecision::Allow
                } else {
                    PermissionDecision::Ask(request)
                }
            },
            _ => PermissionDecision::Allow,
        }
    }
}

/// Manual mode: every tool action stops for explicit approval unless its category was allowed
/// for the current session.
#[derive(Debug, PartialEq, Eq)]
pub struct ManualPermissionPolicy {
    pub always_allowed: AllowedScopes,
}

impl ManualPermissionPolicy {
    /// A policy that knows what was allowed so far.
    #[must_use]
    pub fn new(always_allowed: AllowedScopes) -> (r: ManualPermissionPolicy)
        ensures
            r.always_allowed == always_allowed,
    {
        ManualPermissionPolicy { always_allowed }
    }
}

impl PermissionPolicy for ManualPermissionPolicy {
    open spec fn decides(&self, action: PermissionAction, decision: PermissionDecision) -> bool {
        if self.always_allowed.has(action.scope()) {
            decision is Allow
        } else {
            asks(decision, action)
        }
    }

    fn evaluate(&self, action: &PermissionAction) -> (r: PermissionDecision) {
        let request: PermissionRequest = request_for(action);
        if self.always_allowed.contains(request.scope) {
            PermissionDecision::Allow
        } else {
            PermissionDecision::Ask(request)
        }
    }
}

/// Plan-mode policy: gathers information and drafts documentation, but cannot touch source code.
///
/// Commands are evaluated by risk. Writes are allowed only to files that look like documentation
/// or planning notes; any other write is denied outright rather than asked about.
#[derive(Clone, Copy, Debug, PartialEq, Eq, Structural)]
pub struct PlanPermissionPolicy;

impl PermissionPolicy for PlanPermissionPolicy {
    open spec fn decides(&self, action: PermissionAction, decision: PermissionDecision) -> bool {
        match action {
            PermissionAction::ReadOnly => decision is Allow,
            PermissionAction::Write { path: p } => if plan_may_write(p@) {
                decision is Allow
            } else {
                denies(
                    decision,
                    "plan mode only allows writing documentation or notes files; cannot write "@
                        + p@,
                )
            },
            PermissionAction::Command { .. } => by_risk(action, decision),
        }
    }

    fn evaluate(&self, action: &PermissionAction) -> (r: PermissionDecision) {
        match action {
            PermissionAction::ReadOnly => PermissionDecision::Allow,
            PermissionAction::Write { path: p } => {
                if is_plan_writable(p.as_str()) {
                    PermissionDecision::Allow
                } else {
                    PermissionDecision::Deny(
                        PermissionReason(
                            cat2(
                                "plan mode only allows writing documentation or notes files; cannot write ",
                                p.as_str(),
                            ),
                        ),
                    )
                }
            },
            PermissionAction::Command { program, risk, .. } => evaluate_command_risk(
                action,
                program.as_str(),
                *risk,
            ),
        }
    }
}

/// A policy for callers that need every non-read action confirmed.
#[derive(Clone, Copy, Debug, PartialEq, Eq, Structural)]
pub struct ApproveEverythingPolicy;

impl PermissionPolicy for ApproveEverythingPolicy {
    open spec fn decides(&self, action: PermissionAction, decision: PermissionDecision) -> bool {
        match action {
            PermissionAction::ReadOnly => decision is Allow,
            _ => asks(decision, action),
        }
    }

    fn evaluate(&self, action: &PermissionAction) -> (r: PermissionDecision) {
        match action {
            PermissionAction::ReadOnly => PermissionDecision::Allow,
            _ => PermissionDecision::Ask(request_for(action)),
        }
    }
}

// ---------------------------------------------------------------------------------------------
// Authorization
// ---------------------------------------------------------------------------------------------

/// Where the authorization of an action stands.
#[derive(Debug, PartialEq, Eq)]
pub enum Authorization {
    /// The caller may proceed; a prompt was approved on the way, where there was one.
    Granted(Option<PermissionRequest>),
    /// The caller may not proceed.
    Refused(PermissionReason),
    /// The user is to be asked.
    Pending(PermissionRequest),
}

/// Evaluates an action under a policy: it may proceed, it may not, or the user is to be asked.
pub fn authorize<P: PermissionPolicy>(policy: &P, action: &PermissionAction) -> (r: Authorization)
    ensures
        exists|decision: PermissionDecision|
            {
                &&& #[trigger] policy.decides(*action, decision)
                &&& match decision {
                    PermissionDecision::Allow => r == Authorization::Granted(None),
                    PermissionDecision::Deny(reason) => r == Authorization::Refused(reason),
                    PermissionDecision::Ask(request) => r == Authorization::Pending(request),
                }
            },
{
    match policy.evaluate(action) {
        PermissionDecision::Allow => Authorization::Granted(None),
        PermissionDecision::Deny(reason) => Authorization::Refused(reason),
        PermissionDecision::Ask(request) => Authorization::Pending(request),
    }
}

/// Whether an answer is what a user's response to a prompt gives: either way of allowing lets the
/// action proceed, with the prompt that was approved.
pub open spec fn is_answer(
    request: PermissionRequest,
    response: PermissionResponse,
    r: Result<Option<PermissionRequest>, PermissionReason>,
) -> bool {
    if response == PermissionResponse::Deny {
        r matches Err(reason) && reason.0@ == "the user denied this action"@
    } else {
        r == Ok::<Option<PermissionRequest>, PermissionReason>(Some(request))
    }
}

/// Takes the user's response to a prompt.
pub fn answer(request: PermissionRequest, response: PermissionResponse) -> (r: Result<
    Option<PermissionRequest>,
    PermissionReason,
>)
    ensures
        is_answer(request, response, r),
{
    match response {
        PermissionResponse::AllowOnce | PermissionResponse::AllowAlways => Ok(Some(request)),
        PermissionResponse::Deny => Err(
            PermissionReason("the user denied this action".to_owned()),
        ),
    }
}

// ---------------------------------------------------------------------------------------------
// Laws
// ---------------------------------------------------------------------------------------------

/// Plan mode never lets source code be written, asked or not, and never a high-risk command run.
pub proof fn law_plan_mode_protects_the_code(
    action: PermissionAction,
    decision: PermissionDecision,
)
    requires
        PlanPermissionPolicy.decides(action, decision),
    ensures
        action matches PermissionAction::Write { path: p } && !plan_may_write(p@) ==> decision
            is Deny,
        action matches PermissionAction::Command { risk, .. } && risk == CommandRisk::High
            ==> decision is Deny,
        !(action is Command) ==> !(decision is Ask),
{
}

/// Allowing one category for the session lets no action of another category proceed unasked in
/// manual mode.
pub proof fn law_allowing_always_is_by_category(
    policy: ManualPermissionPolicy,
    action: PermissionAction,
    decision: PermissionDecision,
)
    requires
        policy.decides(action, decision),
    ensures
        decision is Allow ==> policy.always_allowed.has(action.scope()),
        !(decision is Deny),
{
}

/// In approval mode a medium or high-risk command that proceeds unasked had its own category
/// allowed: allowing medium commands does not allow high-risk ones.
pub proof fn law_approval_mode_guards_commands(
    policy: ApprovePermissionPolicy,
    action: PermissionAction,
    decision: PermissionDecision,
)
    requires
        policy.decides(action, decision),
        action matches PermissionAction::Command { risk, .. } && risk != CommandRisk::Low,
    ensures
        decision is Allow <==> policy.always_allowed.has(action.scope()),
        decision is Allow || asks(decision, action),
{
}

/// Reading is never denied: it is allowed at once by every policy but the manual one, which asks
/// unless reading was allowed for the session.
pub proof fn law_reading_is_never_denied(
    default: DefaultPermissionPolicy,
    approve: ApprovePermissionPolicy,
    manual: ManualPermissionPolicy,
    decision: PermissionDecision,
)
    ensures
        default.decides(PermissionAction::ReadOnly, decision) ==> decision is Allow,
        PlanPermissionPolicy.decides(PermissionAction::ReadOnly, decision) ==> decision is Allow,
        approve.decides(PermissionAction::ReadOnly, decision) ==> decision is Allow,
        manual.decides(PermissionAction::ReadOnly, decision) ==> !(decision is Deny),
{
}

/// Without the intent to edit, the default policy runs no high-risk command and no medium one unasked.
pub proof fn law_risky_commands_need_the_intent_to_edit(
    policy: DefaultPermissionPolicy,
    action: PermissionAction,
    decision: PermissionDecision,
)
    requires
        policy.decides(action, decision),
        !policy.editing_enabled,
    ensures
        action matches PermissionAction::Command { risk, .. } ==> {
            &&& decision is Allow <==> risk == CommandRisk::Low
            &&& asks(decision, action) <==> risk == CommandRisk::Medium
            &&& decision is Deny <==> risk == CommandRisk::High
        },
        action matches PermissionAction::Command { .. } ==> PlanPermissionPolicy.decides(
            action,
            decision,
        ),
{
}

/// Without the intent to edit, the default policy lets nothing be written, and it never asks.
pub proof fn law_writing_needs_the_intent_to_edit(
    policy: DefaultPermissionPolicy,
    p: String,
    decision: PermissionDecision,
)
    requires
        policy.decides(PermissionAction::Write { path: p }, decision),
    ensures
        decision is Allow <==> policy.editing_enabled,
        decision is Deny <==> !policy.editing_enabled,
{
}

// ---------------------------------------------------------------------------------------------
// Risk, by the arguments themselves
// ---------------------------------------------------------------------------------------------

/// Whether a character is written so in small letters.
pub open spec fn is_small_form(c: char, small: char) -> bool {
    if 65 <= c as int <= 90 {
        small as int == c as int + 32
    } else {
        small == c
    }
}

/// Whether a text reads as a word at a place, capital letters or not.
pub open spec fn reads_at(s: Seq<char>, at: int, word: Seq<char>) -> bool {
    &&& 0 <= at
    &&& at + word.len() <= s.len()
    &&& forall|j: int| 0 <= j < word.len() ==> is_small_form(s[at + j], #[trigger] word[j])
}

/// Whether a text reads as a word from its beginning to its end, capital letters or not.
pub open spec fn reads_as(s: Seq<char>, word: Seq<char>) -> bool {
    s.len() == word.len() && reads_at(s, 0, word)
}

/// The words with which a harmless Git command begins.
pub open spec fn inspecting() -> Seq<Seq<char>> {
    seq!["status"@, "diff"@, "log"@, "show"@]
}

/// The words that make a command dangerous wherever one of its arguments holds them.
pub open spec fn dangerous() -> Seq<Seq<char>> {
    seq![
        "rm -rf"@,
        "rm -r"@,
        "-force"@,
        "--force"@,
        "reset --hard"@,
        "push"@,
        "checkout"@,
        "clean -f"@,
        "> /dev"@,
        "format "@,
    ]
}

/// The programs that are dangerous whatever their arguments.
pub open spec fn dangerous_programs() -> Seq<Seq<char>> {
    seq![
        "rm"@,
        "del"@,
        "erase"@,
        "rmdir"@,
        "format"@,
        "shutdown"@,
        "reboot"@,
        "diskpart"@,
        "sudo"@,
        "su"@,
        "chmod"@,
        "chown"@,
        "curl"@,
        "wget"@,
        "ssh"@,
        "scp"@,
    ]
}

/// The programs that may be harmless.
pub open spec fn development_programs() -> Seq<Seq<char>> {
    seq![
        "cargo"@,
        "npm"@,
        "pnpm"@,
        "yarn"@,
        "go"@,
        "pytest"@,
        "python"@,
        "python3"@,
        "node"@,
        "make"@,
        "git-status"@,
    ]
}

/// The words that make a command of theirs harmless.
pub open spec fn harmless() -> Seq<Seq<char>> {
    seq![
        "test"@,
        "check"@,
        "build"@,
        "fmt"@,
        "lint"@,
        "vet"@,
        "status"@,
        "diff"@,
        "--version"@,
        "-v"@,
    ]
}

proof fn lemma_reads(s: Seq<char>, at: int, word: Seq<char>)
    ensures
        reads_at(s, at, word) <==> text::occurs_at(text::lowered(s), word, at),
        reads_at(s, 0, word) <==> word.is_prefix_of(text::lowered(s)),
        reads_as(s, word) <==> text::lowered(s) == word,
{
    lemma_reads_there(s, at, word);
    lemma_reads_there(s, 0, word);
    if reads_as(s, word) {
        assert(text::lowered(s).subrange(0, word.len() as int) =~= text::lowered(s));
    }
    if text::lowered(s) == word {
        assert(text::lowered(s).subrange(0, word.len() as int) =~= text::lowered(s));
    }
}

proof fn lemma_small_form(c: char, small: char)
    ensures
        is_small_form(c, small) <==> text::lower(c) == small,
{
}

proof fn lemma_reads_there(s: Seq<char>, at: int, word: Seq<char>)
    ensures
        reads_at(s, at, word) <==> text::occurs_at(text::lowered(s), word, at),
{
    let low = text::lowered(s);
    if 0 <= at && at + word.len() <= s.len() {
        let part = low.subrange(at, at + word.len());
        assert forall|j: int| 0 <= j < word.len() implies (is_small_form(
            s[at + j],
            #[trigger] word[j],
        ) <==> part[j] == word[j]) by {
            lemma_small_form(s[at + j], word[j]);
            assert(part[j] == low[at + j]);
        }
        if reads_at(s, at, word) {
            assert(part =~= word);
        }
    }
}

/// Where an argument stands in the line that the arguments make.
proof fn lemma_argument_in_line(args: Seq<Seq<char>>, k: int) -> (o: int)
    requires
        0 <= k < args.len(),
    ensures
        ({
            let line = text::joined(args, " "@);
            &&& 0 <= o
            &&& k == 0 ==> o == 0
            &&& o + args[k].len() <= line.len()
            &&& forall|j: int| 0 <= j < args[k].len() ==> line[o + j] == #[trigger] args[k][j]
            &&& k + 1 < args.len() ==> {
                let next = args[k + 1];
                let from = o + args[k].len() + 1;
                &&& from + next.len() <= line.len()
                &&& line[from - 1] == ' '
                &&& forall|j: int| 0 <= j < next.len() ==> line[from + j] == #[trigger] next[j]
            }
            &&& k + 1 == args.len() ==> o + args[k].len() == line.len()
        }),
    decreases args.len(),
{
    reveal_strlit(" ");
    let line = text::joined(args, " "@);
    let before = args.drop_last();
    if args.len() == 1 {
        0
    } else if k < args.len() - 1 {
        let o = lemma_argument_in_line(before, k);
        let short = text::joined(before, " "@);
        assert(before[k] == args[k]);
        if k + 1 < before.len() {
            assert(before[k + 1] == args[k + 1]);
        }
        o
    } else {
        text::joined(before, " "@).len() as int + 1
    }
}

/// Git is harmless exactly where its first argument begins with one of the four words that inspect,
/// capital letters or not, whatever its other arguments are; any other Git command is of high risk.
pub proof fn law_git_is_judged_by_its_first_argument(program: Seq<char>, args: Seq<Seq<char>>)
    requires
        reads_as(program, "git"@),
    ensures
        risk_of(program, args, false) == CommandRisk::Low <==> args.len() > 0 && exists|i: int|
            0 <= i < inspecting().len() && reads_at(args[0], 0, #[trigger] inspecting()[i]),
        risk_of(program, args, false) != CommandRisk::Medium,
        risk_of(program, args, true) == CommandRisk::High,
{
    lemma_reads(program, 0, "git"@);
    let joint = text::joined(args, " "@);
    let line = text::lowered(joint);
    reveal_strlit("status");
    reveal_strlit("diff");
    reveal_strlit("log");
    reveal_strlit("show");
    assert forall|i: int| 0 <= i < 4 implies (inspecting()[i].is_prefix_of(line) <==> args.len()
        > 0 && reads_at(args[0], 0, #[trigger] inspecting()[i])) by {
        let word = inspecting()[i];
        lemma_reads(joint, 0, word);
        if args.len() == 0 {
            assert(joint.len() == 0);
        } else {
            let o = lemma_argument_in_line(args, 0);
            if reads_at(joint, 0, word) {
                if args[0].len() < word.len() {
                    assert(is_small_form(joint[0 + args[0].len() as int], word[args[0].len() as int]));
                }
                assert forall|j: int| 0 <= j < word.len() implies is_small_form(
                    args[0][0 + j],
                    #[trigger] word[j],
                ) by {
                    assert(is_small_form(joint[0 + j], word[j]));
                    assert(joint[o + j] == args[0][j]);
                }
            }
            if reads_at(args[0], 0, word) {
                assert forall|j: int| 0 <= j < word.len() implies is_small_form(
                    joint[0 + j],
                    #[trigger] word[j],
                ) by {
                    assert(is_small_form(args[0][0 + j], word[j]));
                    assert(joint[o + j] == args[0][j]);
                }
            }
        }
    }
    assert(inspecting()[0] == "status"@);
    assert(inspecting()[1] == "diff"@);
    assert(inspecting()[2] == "log"@);
    assert(inspecting()[3] == "show"@);
}

/// A command of any program but Git is of high risk where one of its arguments holds a dangerous word,
/// capital letters or not, and where the program itself is dangerous.
pub proof fn law_one_dangerous_argument_is_enough(
    program: Seq<char>,
    args: Seq<Seq<char>>,
    k: int,
    at: int,
    i: int,
)
    requires
        !reads_as(program, "git"@),
        0 <= k < args.len(),
        0 <= i < dangerous().len(),
        reads_at(args[k], at, dangerous()[i]),
    ensures
        risk_of(program, args, false) == CommandRisk::High,
{
    lemma_reads(program, 0, "git"@);
    let joint = text::joined(args, " "@);
    let word = dangerous()[i];
    let o = lemma_argument_in_line(args, k);
    assert forall|j: int| 0 <= j < word.len() implies is_small_form(
        joint[o + at + j],
        #[trigger] word[j],
    ) by {
        assert(is_small_form(args[k][at + j], word[j]));
        assert(joint[o + (at + j)] == args[k][at + j]);
    }
    lemma_reads(joint, o + at, word);
    assert(text::contains_text(text::lowered(joint), word));
    lemma_dangerous(text::lowered(joint), i);
}

proof fn lemma_dangerous(line: Seq<char>, i: int)
    requires
        0 <= i < dangerous().len(),
        text::contains_text(line, dangerous()[i]),
    ensures
        has_risky_pattern(line),
{
    if i == 0 {
    } else if i == 1 {
    } else if i == 2 {
    } else if i == 3 {
    } else if i == 4 {
    } else if i == 5 {
    } else if i == 6 {
    } else if i == 7 {
    } else if i == 8 {
    } else {
        assert(i == 9);
    }
}

/// Two arguments side by side that make up a dangerous word with the blank between them are as
/// dangerous as one that holds it: so are `reset --hard`, `clean -f` and `rm -r`.
pub proof fn law_two_dangerous_arguments_are_enough(
    program: Seq<char>,
    args: Seq<Seq<char>>,
    k: int,
    a: Seq<char>,
    b: Seq<char>,
    i: int,
)
    requires
        !reads_as(program, "git"@),
        0 <= k < args.len() - 1,
        0 <= i < dangerous().len(),
        dangerous()[i] == a + " "@ + b,
        reads_at(args[k], args[k].len() - a.len(), a),
        reads_at(args[k + 1], 0, b),
    ensures
        risk_of(program, args, false) == CommandRisk::High,
{
    reveal_strlit(" ");
    lemma_reads(program, 0, "git"@);
    let joint = text::joined(args, " "@);
    let word = dangerous()[i];
    let o = lemma_argument_in_line(args, k);
    let at = o + args[k].len() - a.len();
    assert forall|j: int| 0 <= j < word.len() implies is_small_form(
        joint[at + j],
        #[trigger] word[j],
    ) by {
        let from = args[k].len() - a.len();
        if j < a.len() {
            assert(word[j] == a[j]);
            assert(is_small_form(args[k][from + j], a[j]));
            assert(joint[o + (from + j)] == args[k][from + j]);
        } else if j == a.len() {
            assert(word[j] == ' ');
        } else {
            let m = j - a.len() - 1;
            assert(word[j] == b[m]);
            assert(is_small_form(args[k + 1][0 + m], b[m]));
            assert(joint[o + args[k].len() + 1 + m] == args[k + 1][m]);
        }
    }
    lemma_reads(joint, at, word);
    assert(text::contains_text(text::lowered(joint), word));
    lemma_dangerous(text::lowered(joint), i);
}

/// What makes a command of any program but Git dangerous is its program or a dangerous word in its
/// line, and nothing else does; it is harmless exactly where it is not dangerous, its program is one
/// of those that develop, and it has no arguments or a harmless word in its line. Everything else is
/// in between.
pub proof fn law_commands_are_judged_by_program_and_words(
    program: Seq<char>,
    args: Seq<Seq<char>>,
)
    requires
        !reads_as(program, "git"@),
    ensures
        ({
            let line = text::joined(args, " "@);
            let is_dangerous = (exists|i: int|
                0 <= i < dangerous_programs().len() && reads_as(
                    program,
                    #[trigger] dangerous_programs()[i],
                )) || (exists|i: int, at: int|
                0 <= i < dangerous().len() && reads_at(line, at, #[trigger] dangerous()[i])
                    && #[trigger] is_place(line, at));
            let is_harmless = (exists|i: int|
                0 <= i < development_programs().len() && reads_as(
                    program,
                    #[trigger] development_programs()[i],
                )) && (args.len() == 0 || exists|i: int, at: int|
                0 <= i < harmless().len() && reads_at(line, at, #[trigger] harmless()[i])
                    && #[trigger] is_place(line, at));
            &&& risk_of(program, args, false) == CommandRisk::High <==> is_dangerous
            &&& risk_of(program, args, false) == CommandRisk::Low <==> !is_dangerous && is_harmless
        }),
{
    let joint = text::joined(args, " "@);
    let line = text::lowered(joint);
    let name = text::lowered(program);
    lemma_reads(program, 0, "git"@);
    assert forall|i: int| 0 <= i < dangerous_programs().len() implies (reads_as(
        program,
        #[trigger] dangerous_programs()[i],
    ) <==> name == dangerous_programs()[i]) by {
        lemma_reads(program, 0, dangerous_programs()[i]);
    }
    assert forall|i: int| 0 <= i < development_programs().len() implies (reads_as(
        program,
        #[trigger] development_programs()[i],
    ) <==> name == development_programs()[i]) by {
        lemma_reads(program, 0, development_programs()[i]);
    }
    lemma_some_word(joint, dangerous());
    lemma_some_word(joint, harmless());
    lemma_table_dangerous(line);
    lemma_table_harmless(line);
    lemma_table_programs(name);
}

/// Whether a text has a place, its end included.
pub open spec fn is_place(s: Seq<char>, at: int) -> bool {
    0 <= at <= s.len()
}

proof fn lemma_some_word(s: Seq<char>, words: Seq<Seq<char>>)
    ensures
        (exists|i: int, at: int|
            0 <= i < words.len() && reads_at(s, at, #[trigger] words[i]) && #[trigger] is_place(
                s,
                at,
            )) <==> (exists|i: int|
            0 <= i < words.len() && text::contains_text(text::lowered(s), #[trigger] words[i])),
{
    if exists|i: int, at: int|
        0 <= i < words.len() && reads_at(s, at, #[trigger] words[i]) && #[trigger] is_place(s, at) {
        let (i, at) = choose|i: int, at: int|
            0 <= i < words.len() && reads_at(s, at, #[trigger] words[i]) && #[trigger] is_place(
                s,
                at,
            );
        lemma_reads(s, at, words[i]);
        assert(text::contains_text(text::lowered(s), words[i]));
    }
    if exists|i: int|
        0 <= i < words.len() && text::contains_text(text::lowered(s), #[trigger] words[i]) {
        let i = choose|i: int|
            0 <= i < words.len() && text::contains_text(text::lowered(s), #[trigger] words[i]);
        let at = choose|at: int| text::occurs_at(text::lowered(s), words[i], at);
        lemma_reads(s, at, words[i]);
        assert(is_place(s, at));
    }
}

proof fn lemma_table_dangerous(line: Seq<char>)
    ensures
        has_risky_pattern(line) <==> exists|i: int|
            0 <= i < dangerous().len() && text::contains_text(line, #[trigger] dangerous()[i]),
{
    let t = dangerous();
    assert(t[0] == "rm -rf"@ && t[1] == "rm -r"@ && t[2] == "-force"@ && t[3] == "--force"@);
    assert(t[4] == "reset --hard"@ && t[5] == "push"@ && t[6] == "checkout"@);
    assert(t[7] == "clean -f"@ && t[8] == "> /dev"@ && t[9] == "format "@);
}

proof fn lemma_table_harmless(line: Seq<char>)
    ensures
        has_low_risk_hint(line) <==> exists|i: int|
            0 <= i < harmless().len() && text::contains_text(line, #[trigger] harmless()[i]),
{
    let t = harmless();
    assert(t[0] == "test"@ && t[1] == "check"@ && t[2] == "build"@ && t[3] == "fmt"@);
    assert(t[4] == "lint"@ && t[5] == "vet"@ && t[6] == "status"@);
    assert(t[7] == "diff"@ && t[8] == "--version"@ && t[9] == "-v"@);
}

proof fn lemma_table_programs(name: Seq<char>)
    ensures
        name != "git"@ ==> (is_risky_program(name) <==> exists|i: int|
            0 <= i < dangerous_programs().len() && name == #[trigger] dangerous_programs()[i]),
        is_known_program(name) <==> exists|i: int|
            0 <= i < development_programs().len() && name == #[trigger] development_programs()[i],
{
    let t = dangerous_programs();
    assert(t[0] == "rm"@ && t[1] == "del"@ && t[2] == "erase"@ && t[3] == "rmdir"@);
    assert(t[4] == "format"@ && t[5] == "shutdown"@ && t[6] == "reboot"@ && t[7] == "diskpart"@);
    assert(t[8] == "sudo"@ && t[9] == "su"@ && t[10] == "chmod"@ && t[11] == "chown"@);
    assert(t[12] == "curl"@ && t[13] == "wget"@ && t[14] == "ssh"@ && t[15] == "scp"@);
    let u = development_programs();
    assert(u[0] == "cargo"@ && u[1] == "npm"@ && u[2] == "pnpm"@ && u[3] == "yarn"@);
    assert(u[4] == "go"@ && u[5] == "pytest"@ && u[6] == "python"@ && u[7] == "python3"@);
    assert(u[8] == "node"@ && u[9] == "make"@ && u[10] == "git-status"@);
}

// ---------------------------------------------------------------------------------------------
// Decisions, by mode
// ---------------------------------------------------------------------------------------------

/// The extensions that plan mode may write.
pub open spec fn note_extensions() -> Seq<Seq<char>> {
    seq![
        "md"@,
        "markdown"@,
        "txt"@,
        "text"@,
        "rst"@,
        "adoc"@,
        "json"@,
        "yaml"@,
        "yml"@,
        "toml"@,
        "csv"@,
        "log"@,
    ]
}

/// Plan mode writes a file exactly where the last name of its path ends, behind a dot that does not
/// begin it, in one of the extensions of notes, capital letters or not.
pub proof fn law_plan_mode_writes_notes_only(
    directory: Seq<char>,
    stem: Seq<char>,
    extension: Seq<char>,
    decision: PermissionDecision,
    written: String,
)
    requires
        stem.len() > 0,
        text_laws::lacks(stem, '/'),
        text_laws::lacks(extension, '/'),
        text_laws::lacks(extension, '.'),
        written@ == directory + "/"@ + stem + "."@ + extension,
        PlanPermissionPolicy.decides(PermissionAction::Write { path: written }, decision),
        !(stem == "."@ && extension.len() == 0),
    ensures
        decision is Allow <==> exists|i: int|
            0 <= i < note_extensions().len() && reads_as(extension, #[trigger] note_extensions()[i]),
        decision is Allow || decision is Deny,
{
    reveal_strlit("/");
    reveal_strlit(".");
    let name = stem + seq!['.'] + extension;
    assert("/"@ =~= seq!['/']);
    assert("."@ =~= seq!['.']);
    assert(written@ =~= directory + seq!['/'] + name);
    assert(path::is_plain_name(name)) by {
        assert(name.len() >= 2);
        if name == seq!['.', '.'] {
            assert(stem =~= seq!['.']);
        }
    }
    path::law_a_path_ends_in_its_name(directory, name, stem, extension);
    lemma_notes(extension);
}

proof fn lemma_notes(extension: Seq<char>)
    ensures
        is_note_extension(extension) <==> exists|i: int|
            0 <= i < note_extensions().len() && reads_as(extension, #[trigger] note_extensions()[i]),
{
    let t = note_extensions();
    reveal_strlit("md");
    reveal_strlit("markdown");
    reveal_strlit("txt");
    reveal_strlit("text");
    reveal_strlit("rst");
    reveal_strlit("adoc");
    reveal_strlit("json");
    reveal_strlit("yaml");
    reveal_strlit("yml");
    reveal_strlit("toml");
    reveal_strlit("csv");
    reveal_strlit("log");
    assert(t[0] == "md"@ && t[1] == "markdown"@ && t[2] == "txt"@ && t[3] == "text"@);
    assert(t[4] == "rst"@ && t[5] == "adoc"@ && t[6] == "json"@ && t[7] == "yaml"@);
    assert(t[8] == "yml"@ && t[9] == "toml"@ && t[10] == "csv"@ && t[11] == "log"@);
    assert forall|i: int| 0 <= i < t.len() implies text::lowered(#[trigger] t[i]) == t[i] by {
        assert(text::lowered(t[i]) =~= t[i]);
    }
    assert forall|i: int| 0 <= i < t.len() implies (reads_as(extension, #[trigger] t[i])
        <==> text::lowered(extension) == t[i]) by {
        lemma_reads(extension, 0, t[i]);
    }
}

/// A prompt says what is asked for: the command line with its arguments, or the file that is written,
/// where it happens, and the category that allowing always would allow.
pub proof fn law_a_prompt_says_what_is_asked_for(
    program: String,
    args: Vec<String>,
    cwd: String,
    risk: CommandRisk,
    p: String,
    above: Seq<char>,
    directory: Seq<char>,
    name: Seq<char>,
)
    requires
        text_laws::are_words(seq![program@] + text::texts(args@)),
        path::is_plain_name(directory),
        path::is_plain_name(name),
        p@ == above + seq!['/'] + directory + seq!['/'] + name,
    ensures
        ({
            let command = PermissionAction::Command { program, args, cwd, risk };
            let write = PermissionAction::Write { path: p };
            &&& command.summary() == "run: "@ + text::joined(
                seq![program@] + text::texts(args@),
                " "@,
            )
            &&& command.directory() == cwd@
            &&& command.scope() == PermissionScope::Command(risk)
            &&& write.summary() == "write: "@ + p@
            &&& write.directory() == above + seq!['/'] + directory
            &&& write.scope() == PermissionScope::Write
            &&& PermissionAction::ReadOnly.scope() == PermissionScope::Read
        }),
{
    path::law_a_names_parent_holds_it(above, directory, name);
    let own = text::texts(args@);
    let words = seq![program@] + own;
    let none = Seq::<char>::empty();
    text_laws::law_spaced_words_are_told_apart(none, words, none);
    text_laws::law_joining_puts_the_separator_between(seq![program@], own, program@, " "@);
    reveal_strlit("run: ");
    reveal_strlit(" ");
    let line = text::joined(words, " "@);
    let begun = "run: "@;
    assert(words[0] == program@);
    text_laws::law_white_space_of_ascii('r');
    if own.len() == 0 {
        assert(own =~= Seq::empty());
        assert(words =~= seq![program@]);
        assert(line == program@);
        assert(text::joined(own, " "@) =~= none);
        let whole = begun + line;
        assert(begun + program@ + " "@ + text::joined(own, " "@) =~= none + whole + " "@);
        assert(text_laws::all_white(" "@));
        assert(whole.last() == program@[program@.len() - 1]);
        assert(text_laws::is_tight(whole));
        text_laws::law_trimming_takes_the_white_space_around(none, whole, " "@);
    } else {
        let last = own.last();
        assert(words.last() == last);
        assert(words[words.len() - 1] == last);
        let short = words.drop_last();
        text_laws::law_joining_puts_the_separator_between(short, seq![last], last, " "@);
        assert(short + seq![last] =~= words);
        let whole = begun + line;
        assert(begun + program@ + " "@ + text::joined(own, " "@) =~= none + whole + none);
        assert(whole.last() == last[last.len() - 1]);
        assert(text_laws::is_tight(whole));
        text_laws::law_trimming_takes_the_white_space_around(none, whole, none);
    }
}

/// With the intent to edit, the default policy lets every action proceed. In approval mode files are
/// written and harmless commands run unasked. In manual mode nothing proceeds unasked whose category
/// was not allowed, and asking about everything leaves out reading only.
pub proof fn law_each_mode_asks_for_what_it_guards(
    default: DefaultPermissionPolicy,
    approve: ApprovePermissionPolicy,
    manual: ManualPermissionPolicy,
    action: PermissionAction,
    decision: PermissionDecision,
)
    ensures
        default.editing_enabled && default.decides(action, decision) ==> decision is Allow,
        approve.decides(action, decision) && !(action is Command) ==> decision is Allow,
        approve.decides(action, decision) && action.scope() == PermissionScope::Command(
            CommandRisk::Low,
        ) ==> decision is Allow,
        manual.decides(action, decision) && !manual.always_allowed.has(action.scope()) ==> asks(
            decision,
            action,
        ),
        manual.decides(action, decision) && manual.always_allowed.has(action.scope()) ==> decision
            is Allow,
        ApproveEverythingPolicy.decides(action, decision) ==> (decision is Allow <==> action
            is ReadOnly),
        ApproveEverythingPolicy.decides(action, decision) && !(action is ReadOnly) ==> asks(
            decision,
            action,
        ),
{
}

/// A user's answer lets just the action proceed that was asked about, and a refusal none.
pub proof fn law_a_refusal_lets_nothing_proceed(
    request: PermissionRequest,
    response: PermissionResponse,
    r: Result<Option<PermissionRequest>, PermissionReason>,
)
    requires
        is_answer(request, response, r),
    ensures
        r is Err <==> response == PermissionResponse::Deny,
        r matches Ok(granted) ==> granted == Some(request),
{
}

} // verus!
