use gocode::tools::permissions::{
    answer, authorize, classify_command_risk, is_plan_writable, AllowedScopes,
    ApproveEverythingPolicy, ApprovePermissionPolicy, Authorization, CommandRisk,
    DefaultPermissionPolicy, ManualPermissionPolicy, PermissionAction, PermissionDecision,
    PermissionPolicy, PermissionReason, PermissionRequest, PermissionResponse, PermissionScope,
    PlanPermissionPolicy,
};

fn words(list: &[&str]) -> Vec<String> {
    list.iter().map(|word| word.to_string()).collect()
}

fn command(program: &str, args: &[&str], cwd: &str, risk: CommandRisk) -> PermissionAction {
    PermissionAction::Command {
        program: program.to_string(),
        args: words(args),
        cwd: cwd.to_string(),
        risk,
    }
}

fn write(path: &str) -> PermissionAction {
    PermissionAction::Write {
        path: path.to_string(),
    }
}

/// Authorizes an action, with a user who gives one and the same response to every prompt.
fn authorized<P: PermissionPolicy>(
    policy: &P,
    action: &PermissionAction,
    response: PermissionResponse,
) -> Result<Option<PermissionRequest>, PermissionReason> {
    match authorize(policy, action) {
        Authorization::Granted(request) => Ok(request),
        Authorization::Refused(reason) => Err(reason),
        Authorization::Pending(request) => answer(request, response),
    }
}

#[test]
fn known_low_risk_development_commands_are_classified_low() {
    assert_eq!(
        classify_command_risk("cargo", &words(&["test"]), false),
        CommandRisk::Low
    );
    assert_eq!(
        classify_command_risk("git", &words(&["status"]), false),
        CommandRisk::Low
    );
}

#[test]
fn destructive_patterns_are_classified_high_regardless_of_program() {
    assert_eq!(
        classify_command_risk("git", &words(&["push"]), false),
        CommandRisk::High
    );
    assert_eq!(
        classify_command_risk("rm", &words(&["-rf", "target"]), false),
        CommandRisk::High
    );
}

#[test]
fn shell_mode_is_always_high_risk() {
    assert_eq!(
        classify_command_risk("bash", &words(&["-c", "echo hi"]), true),
        CommandRisk::High
    );
}

#[test]
fn unknown_commands_default_to_medium_risk() {
    assert_eq!(
        classify_command_risk("some-tool", &words(&[]), false),
        CommandRisk::Medium
    );
}

#[test]
fn read_only_actions_are_always_allowed() {
    let policy = DefaultPermissionPolicy::read_only();
    assert!(matches!(
        policy.evaluate(&PermissionAction::ReadOnly),
        PermissionDecision::Allow
    ));
}

#[test]
fn writes_are_denied_without_editing_intent() {
    let policy = DefaultPermissionPolicy::read_only();
    let decision = policy.evaluate(&write("src/lib.rs"));
    assert!(matches!(decision, PermissionDecision::Deny(_)));
}

#[test]
fn writes_are_allowed_with_editing_intent() {
    let policy = DefaultPermissionPolicy::editing();
    let decision = policy.evaluate(&write("src/lib.rs"));
    assert!(matches!(decision, PermissionDecision::Allow));
}

#[test]
fn plan_mode_allows_writing_documentation_but_denies_source_code() {
    let policy = PlanPermissionPolicy;

    let doc_decision = policy.evaluate(&write("PLAN.md"));
    assert!(matches!(doc_decision, PermissionDecision::Allow));

    let code_decision = policy.evaluate(&write("src/lib.rs"));
    assert!(matches!(code_decision, PermissionDecision::Deny(_)));
}

#[test]
fn plan_mode_still_allows_low_risk_commands_for_gathering_context() {
    let policy = PlanPermissionPolicy;
    let decision = policy.evaluate(&command("cargo", &["check"], ".", CommandRisk::Low));
    assert!(matches!(decision, PermissionDecision::Allow));
}

#[test]
fn approve_mode_asks_before_every_write_and_low_risk_command() {
    let policy = ApproveEverythingPolicy;

    let write_decision = policy.evaluate(&write("src/lib.rs"));
    assert!(matches!(write_decision, PermissionDecision::Ask(_)));

    let command_decision = policy.evaluate(&command("cargo", &["check"], ".", CommandRisk::Low));
    assert!(matches!(command_decision, PermissionDecision::Ask(_)));
}

#[test]
fn auto_mode_allows_high_risk_commands_without_an_interruption() {
    let policy = DefaultPermissionPolicy::editing();
    let decision = policy.evaluate(&command("git", &["push"], ".", CommandRisk::High));
    assert!(matches!(decision, PermissionDecision::Allow));
}

#[test]
fn auto_mode_allows_medium_commands_without_a_prompt() {
    let policy = DefaultPermissionPolicy::editing();
    let decision = policy.evaluate(&command(
        "npm",
        &["install"],
        r"C:\dev\my-project",
        CommandRisk::Medium,
    ));
    assert!(matches!(decision, PermissionDecision::Allow));
}

#[test]
fn approve_mode_asks_for_medium_and_high_commands_only() {
    let policy = ApprovePermissionPolicy::new(AllowedScopes::new());
    for risk in [CommandRisk::Medium, CommandRisk::High] {
        let decision = policy.evaluate(&command("npm", &["install"], ".", risk));
        assert!(matches!(decision, PermissionDecision::Ask(_)));
    }
    assert!(matches!(
        policy.evaluate(&command("cargo", &["test"], ".", CommandRisk::Low)),
        PermissionDecision::Allow
    ));
}

#[test]
fn allow_always_skips_future_prompts_for_the_same_command_risk() {
    let mut allowed = AllowedScopes::new();
    allowed.allow(PermissionScope::Command(CommandRisk::Medium));
    let policy = ApprovePermissionPolicy::new(allowed);
    assert!(matches!(
        policy.evaluate(&command("npm", &["install"], ".", CommandRisk::Medium)),
        PermissionDecision::Allow
    ));
}

#[test]
fn manual_mode_asks_before_a_read() {
    let policy = ManualPermissionPolicy::new(AllowedScopes::new());
    assert!(matches!(
        policy.evaluate(&PermissionAction::ReadOnly),
        PermissionDecision::Ask(_)
    ));
}

#[test]
fn authorize_denies_ask_decisions_by_default() {
    let policy = ManualPermissionPolicy::new(AllowedScopes::new());
    let outcome = authorized(
        &policy,
        &command("npm", &["install"], ".", CommandRisk::Medium),
        PermissionResponse::Deny,
    );
    assert!(outcome.is_err());
}

#[test]
fn authorize_allows_ask_decisions_the_resolver_approves() {
    let policy = ManualPermissionPolicy::new(AllowedScopes::new());
    let outcome = authorized(
        &policy,
        &command("npm", &["install"], ".", CommandRisk::Medium),
        PermissionResponse::AllowOnce,
    );
    assert!(outcome.is_ok());
}

#[test]
fn authorize_denies_ask_decisions_the_resolver_rejects() {
    let policy = ManualPermissionPolicy::new(AllowedScopes::new());
    let outcome = authorized(
        &policy,
        &command("npm", &["install"], ".", CommandRisk::Medium),
        PermissionResponse::Deny,
    );
    assert_eq!(
        outcome,
        Err(PermissionReason("the user denied this action".to_string()))
    );
}

#[test]
fn a_prompt_names_the_command_and_its_directory() {
    let policy = ApproveEverythingPolicy;
    let action = command("npm", &["install", "left-pad"], "/work", CommandRisk::Medium);
    assert_eq!(
        authorize(&policy, &action),
        Authorization::Pending(PermissionRequest {
            summary: "run: npm install left-pad".to_string(),
            working_directory: "/work".to_string(),
            scope: PermissionScope::Command(CommandRisk::Medium),
        })
    );
}

#[test]
fn plan_mode_knows_notes_by_their_extension() {
    assert!(is_plan_writable("docs/PLAN.MD"));
    assert!(is_plan_writable("notes.markdown"));
    assert!(!is_plan_writable("Makefile"));
    assert!(!is_plan_writable(".md"));
}

#[test]
fn plan_mode_denies_high_risk_commands_outright() {
    let policy = PlanPermissionPolicy;
    assert!(matches!(
        policy.evaluate(&command("git", &["push"], ".", CommandRisk::High)),
        PermissionDecision::Deny(_)
    ));
    assert!(matches!(
        policy.evaluate(&command("npm", &["install"], ".", CommandRisk::Medium)),
        PermissionDecision::Ask(_)
    ));
}

#[test]
fn allowing_one_category_leaves_the_others_asking() {
    let mut allowed = AllowedScopes::new();
    allowed.allow(PermissionScope::Write);
    let policy = ManualPermissionPolicy::new(allowed);
    assert!(matches!(
        policy.evaluate(&write("a.txt")),
        PermissionDecision::Allow
    ));
    assert!(matches!(
        policy.evaluate(&PermissionAction::ReadOnly),
        PermissionDecision::Ask(_)
    ));
}

#[test]
fn without_editing_intent_commands_are_decided_by_their_risk() {
    let policy = DefaultPermissionPolicy::read_only();
    let decide = |risk| policy.evaluate(&command("rm", &["x"], ".", risk));
    assert!(matches!(decide(CommandRisk::Low), PermissionDecision::Allow));
    assert!(matches!(decide(CommandRisk::Medium), PermissionDecision::Ask(_)));
    assert!(matches!(decide(CommandRisk::High), PermissionDecision::Deny(_)));
    let policy = DefaultPermissionPolicy::editing();
    assert!(matches!(
        policy.evaluate(&command("rm", &["x"], ".", CommandRisk::High)),
        PermissionDecision::Allow
    ));
}
