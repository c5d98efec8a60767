use gocode::tools::contract::{ToolDefinition, ToolName};
use gocode::tools::registry::{builtin_registry, BuiltinTool, DefinitionView, Tool, ToolRegistry};

struct FakeTool {
    description: &'static str,
}

impl Tool for FakeTool {
    fn defined(&self) -> DefinitionView {
        unreachable!("only contracts speak of this")
    }

    fn definition(&self) -> ToolDefinition {
        ToolDefinition {
            name: ToolName::new("fake_tool"),
            description: self.description.to_string(),
            input_schema: "{\"type\": \"object\"}".to_string(),
        }
    }
}

const FAKE: FakeTool = FakeTool {
    description: "A fake tool used only in tests.",
};

#[test]
fn registered_tool_resolves_by_name() {
    let mut registry = ToolRegistry::new();
    registry.register(FAKE);

    assert!(registry.contains(&ToolName::new("fake_tool")));
    assert!(registry.get(&ToolName::new("fake_tool")).is_some());
}

#[test]
fn unavailable_tool_is_not_found() {
    let registry: ToolRegistry<FakeTool> = ToolRegistry::new();
    assert!(registry.get(&ToolName::new("does_not_exist")).is_none());
}

#[test]
fn builtin_registry_exposes_every_mvp_tool() {
    let registry = builtin_registry();
    let names: Vec<_> = registry
        .definitions()
        .into_iter()
        .map(|definition| definition.name.as_str().to_string())
        .collect();

    for expected in [
        "list_files",
        "read_file",
        "search",
        "write_file",
        "apply_patch",
        "run_command",
        "git_status",
        "git_diff",
    ] {
        assert!(names.contains(&expected.to_string()), "missing {expected}");
    }
    assert_eq!(registry.len(), 8);
}

#[test]
fn definitions_are_sorted_by_name() {
    let names: Vec<_> = builtin_registry()
        .definitions()
        .into_iter()
        .map(|definition| definition.name.as_str().to_string())
        .collect();
    assert_eq!(
        names,
        [
            "apply_patch",
            "git_diff",
            "git_status",
            "list_files",
            "read_file",
            "run_command",
            "search",
            "write_file",
        ]
    );
}

#[test]
fn a_later_registration_replaces_an_earlier_one() {
    let mut registry = ToolRegistry::new();
    assert!(registry.is_empty());
    registry.register(FAKE);
    registry.register(FakeTool {
        description: "second",
    });
    assert_eq!(registry.len(), 1);
    assert_eq!(
        registry
            .get(&ToolName::new("fake_tool"))
            .unwrap()
            .description,
        "second"
    );
}

#[test]
fn every_schema_is_a_json_object() {
    for definition in builtin_registry().definitions() {
        let schema: serde_json::Value = serde_json::from_str(&definition.input_schema).unwrap();
        assert_eq!(schema["type"], "object");
        assert!(!definition.description.is_empty());
    }
    assert_eq!(
        BuiltinTool::RunCommand.definition().name.as_str(),
        "run_command"
    );
}
