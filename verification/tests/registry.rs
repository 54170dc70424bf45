use unitools::error::ToolError;
use unitools::plugin::{Plugin, PluginManager};
use unitools::tool::{Tool, ToolCategory, ToolContext, ToolResult};

#[derive(Debug, Clone)]
struct TestTool {
    name: String,
}

impl Tool for TestTool {
    fn spec_name(&self) -> vstd::seq::Seq<char> {
        unreachable!()
    }

    fn spec_category(&self) -> ToolCategory {
        unreachable!()
    }

    fn name(&self) -> String {
        self.name.clone()
    }

    fn description(&self) -> String {
        "a test tool".to_string()
    }

    fn category(&self) -> ToolCategory {
        ToolCategory::Other
    }

    fn execute(&self, _ctx: &ToolContext) -> ToolResult {
        Ok(None)
    }
}

struct TestPlugin {
    name: String,
    tools: Vec<String>,
    fail_init: bool,
    fail_cleanup: bool,
}

impl Plugin<TestTool> for TestPlugin {
    fn spec_name(&self) -> vstd::seq::Seq<char> {
        unreachable!()
    }

    fn spec_tools(&self) -> vstd::seq::Seq<TestTool> {
        unreachable!()
    }

    fn spec_init_ok(&self) -> bool {
        unreachable!()
    }

    fn spec_cleanup_ok(&self) -> bool {
        unreachable!()
    }

    fn name(&self) -> String {
        self.name.clone()
    }

    fn description(&self) -> String {
        "a test plugin".to_string()
    }

    fn version(&self) -> String {
        "1.0.0".to_string()
    }

    fn initialize(&mut self) -> Result<(), ToolError> {
        if self.fail_init {
            Err(ToolError::Other("initialization failed".to_string()))
        } else {
            Ok(())
        }
    }

    fn get_tools(&self) -> Vec<TestTool> {
        self.tools.iter().map(|n| TestTool { name: n.clone() }).collect()
    }

    fn cleanup(&mut self) -> Result<(), ToolError> {
        if self.fail_cleanup {
            Err(ToolError::Other("cleanup failed".to_string()))
        } else {
            Ok(())
        }
    }
}

fn plugin(name: &str, tools: &[&str]) -> TestPlugin {
    TestPlugin {
        name: name.to_string(),
        tools: tools.iter().map(|s| s.to_string()).collect(),
        fail_init: false,
        fail_cleanup: false,
    }
}

#[test]
fn register_lookup_unload_roundtrip() {
    let mut m: PluginManager<TestPlugin, TestTool> = PluginManager::new();
    assert!(m.register_plugin(plugin("P1", &["T1"])).is_ok());
    assert!(m.get_tool("T1").is_some());
    assert!(m.unload_plugin("P1").is_ok());
    assert!(m.get_tool("T1").is_none());
}

#[test]
fn tool_name_conflict_rejects_whole_registration() {
    let mut m: PluginManager<TestPlugin, TestTool> = PluginManager::new();
    assert!(m.register_plugin(plugin("P1", &["T1"])).is_ok());
    let err = m.register_plugin(plugin("P2", &["T1"])).unwrap_err();
    assert!(matches!(err, ToolError::PluginError(_)));
    // The tool under T1 is still the one P1 contributed, and P2 is absent.
    assert_eq!(m.get_tool("T1").unwrap().name(), "T1");
    assert_eq!(m.get_tools().len(), 1);
    assert!(matches!(
        m.unload_plugin("P2").unwrap_err(),
        ToolError::NotFoundError(_)
    ));
}

#[test]
fn duplicate_plugin_name_is_rejected() {
    let mut m: PluginManager<TestPlugin, TestTool> = PluginManager::new();
    assert!(m.register_plugin(plugin("P1", &["T1"])).is_ok());
    let err = m.register_plugin(plugin("P1", &["T2"])).unwrap_err();
    assert!(matches!(err, ToolError::PluginError(_)));
    assert_eq!(
        err.message(),
        "plugin error: plugin 'P1' is already registered"
    );
    // The first registration is intact and nothing of the second leaked in.
    assert!(m.get_tool("T1").is_some());
    assert!(m.get_tool("T2").is_none());
}

#[test]
fn unload_of_unknown_name_changes_nothing() {
    let mut m: PluginManager<TestPlugin, TestTool> = PluginManager::new();
    assert!(m.register_plugin(plugin("P1", &["T1"])).is_ok());
    let err = m.unload_plugin("ghost").unwrap_err();
    assert!(matches!(err, ToolError::NotFoundError(_)));
    assert_eq!(err.message(), "not found: no plugin named 'ghost'");
    assert_eq!(m.get_tools().len(), 1);
    assert!(m.get_tool("T1").is_some());
}

#[test]
fn failed_initialization_leaves_registry_untouched() {
    let mut m: PluginManager<TestPlugin, TestTool> = PluginManager::new();
    assert!(m.register_plugin(plugin("P1", &["T1"])).is_ok());
    let mut bad = plugin("P2", &["T2"]);
    bad.fail_init = true;
    let err = m.register_plugin(bad).unwrap_err();
    assert!(matches!(err, ToolError::Other(_)));
    assert_eq!(m.get_tools().len(), 1);
    assert!(m.get_tool("T2").is_none());
    assert!(matches!(
        m.unload_plugin("P2").unwrap_err(),
        ToolError::NotFoundError(_)
    ));
}

#[test]
fn internal_tool_name_clash_is_rejected_atomically() {
    let mut m: PluginManager<TestPlugin, TestTool> = PluginManager::new();
    let err = m.register_plugin(plugin("P1", &["X", "X"])).unwrap_err();
    assert!(matches!(err, ToolError::PluginError(_)));
    assert!(m.get_tool("X").is_none());
    assert_eq!(m.get_tools().len(), 0);
}

#[test]
fn cleanup_failure_is_reported_but_does_not_block_removal() {
    let mut m: PluginManager<TestPlugin, TestTool> = PluginManager::new();
    let mut p = plugin("P1", &["T1"]);
    p.fail_cleanup = true;
    assert!(m.register_plugin(p).is_ok());
    let err = m.unload_plugin("P1").unwrap_err();
    assert!(matches!(err, ToolError::Other(_)));
    // The plugin and its tools are gone all the same, and the name is free.
    assert!(m.get_tool("T1").is_none());
    assert!(matches!(
        m.unload_plugin("P1").unwrap_err(),
        ToolError::NotFoundError(_)
    ));
    assert!(m.register_plugin(plugin("P1", &["T1"])).is_ok());
    assert!(m.get_tool("T1").is_some());
}

#[test]
fn names_stay_unique_across_many_registrations() {
    let mut m: PluginManager<TestPlugin, TestTool> = PluginManager::new();
    assert!(m.register_plugin(plugin("P1", &["A", "B"])).is_ok());
    assert!(m.register_plugin(plugin("P2", &["C"])).is_ok());
    assert!(m.register_plugin(plugin("P3", &["A"])).is_err());
    assert!(m.register_plugin(plugin("P2", &["D"])).is_err());
    let mut names: Vec<String> = m.get_tools().iter().map(|t| t.name()).collect();
    names.sort();
    assert_eq!(names, vec!["A".to_string(), "B".to_string(), "C".to_string()]);
}

#[test]
fn unload_removes_every_contributed_tool() {
    let mut m: PluginManager<TestPlugin, TestTool> = PluginManager::new();
    assert!(m.register_plugin(plugin("P1", &["A", "B"])).is_ok());
    assert!(m.register_plugin(plugin("P2", &["C"])).is_ok());
    assert!(m.unload_plugin("P1").is_ok());
    assert!(m.get_tool("A").is_none());
    assert!(m.get_tool("B").is_none());
    assert!(m.get_tool("C").is_some());
    assert_eq!(m.get_tools().len(), 1);
}

#[test]
fn lookup_is_idempotent_without_mutation() {
    let mut m: PluginManager<TestPlugin, TestTool> = PluginManager::new();
    assert!(m.register_plugin(plugin("P1", &["T1"])).is_ok());
    let first = m.get_tool("T1").map(|t| t.name());
    let second = m.get_tool("T1").map(|t| t.name());
    assert_eq!(first, second);
    let missing_first = m.get_tool("nope").is_none();
    let missing_second = m.get_tool("nope").is_none();
    assert_eq!(missing_first, missing_second);
}

#[test]
fn tools_are_listed_in_registration_order() {
    let mut m: PluginManager<TestPlugin, TestTool> = PluginManager::new();
    assert!(m.register_plugin(plugin("P1", &["B", "A"])).is_ok());
    assert!(m.register_plugin(plugin("P2", &["C"])).is_ok());
    let names: Vec<String> = m.get_tools().iter().map(|t| t.name()).collect();
    assert_eq!(names, vec!["B".to_string(), "A".to_string(), "C".to_string()]);
}
