use vstd::prelude::*;

use crate::tool::{lookup_entry, lemma_lookup_entry_append, lemma_lookup_entry_replace};
use crate::strings::str_eq;

verus! {

/// The type under which per-tool settings are carried. The core stores and
/// hands these documents back without ever interpreting them.
#[verifier::external_type_specification]
#[verifier::external_body]
pub struct ExJsonValue(serde_json::Value);

/// The theme the application renders with.
#[derive(Debug, Clone, Copy, PartialEq, Eq, Structural)]
pub enum Theme {
    Light,
    Dark,
    System,
}

/// The operator's own settings.
#[derive(Debug, Clone)]
pub struct UserConfig {
    pub username: String,
    pub working_directory: Option<String>,
}

/// The persistent application settings. The core only reads which plugins
/// should be active; the per-tool documents are opaque to it, and loading
/// and saving the settings is the surrounding application's part.
pub struct AppConfig {
    pub theme: Theme,
    pub language: String,
    pub enabled_plugins: Vec<String>,
    pub user: UserConfig,
    pub tool_configs: Vec<(String, serde_json::Value)>,
    pub plugin_directory: Option<String>,
}

impl AppConfig {
    /// The settings document stored for the tool named `name`: the first
    /// entry wins when a name repeats.
    pub open spec fn spec_tool_config(&self, name: Seq<char>) -> Option<serde_json::Value> {
        lookup_entry(self.tool_configs@, name)
    }

    /// The stored settings of one tool.
    pub fn get_tool_config(&self, tool_name: &str) -> (r: Option<&serde_json::Value>)
        ensures
            match r {
                Some(v) => self.spec_tool_config(tool_name@) == Some(*v),
                None => self.spec_tool_config(tool_name@) is None,
            },
    {
        let n = self.tool_configs.len();
        let mut i: usize = 0;
        proof {
            assert(self.tool_configs@.skip(0) =~= self.tool_configs@);
        }
        while i < n
            invariant
                n == self.tool_configs.len(),
                0 <= i <= n,
                lookup_entry(self.tool_configs@, tool_name@) == lookup_entry(
                    self.tool_configs@.skip(i as int),
                    tool_name@,
                ),
            decreases n - i,
        {
            let entry = &self.tool_configs[i];
            if str_eq(entry.0.as_str(), tool_name) {
                return Some(&entry.1);
            }
            proof {
                assert(self.tool_configs@.skip(i + 1) =~= self.tool_configs@.skip(
                    i as int,
                ).drop_first());
            }
            i = i + 1;
        }
        None
    }

    /// Stores the settings of one tool, replacing the first entry with the
    /// same name if one exists and appending a fresh entry otherwise.
    pub fn set_tool_config(&mut self, tool_name: String, config: serde_json::Value)
        ensures
            final(self).theme == old(self).theme,
            final(self).language == old(self).language,
            final(self).enabled_plugins == old(self).enabled_plugins,
            final(self).user == old(self).user,
            final(self).plugin_directory == old(self).plugin_directory,
            final(self).spec_tool_config(tool_name@) == Some(config),
            forall|k: Seq<char>|
                k != tool_name@ ==> final(self).spec_tool_config(k) == old(self).spec_tool_config(
                    k,
                ),
    {
        let n = self.tool_configs.len();
        let mut i: usize = 0;
        while i < n
            invariant
                n == self.tool_configs.len(),
                0 <= i <= n,
                *self == *old(self),
                forall|j: int| 0 <= j < i ==> self.tool_configs@[j].0@ != tool_name@,
            decreases n - i,
        {
            let entry = &self.tool_configs[i];
            if str_eq(entry.0.as_str(), tool_name.as_str()) {
                let ghost key_view = tool_name@;
                self.tool_configs.set(i, (tool_name, config));
                proof {
                    assert(self.tool_configs@[i as int].0@ == key_view);
                    lemma_lookup_entry_replace(
                        old(self).tool_configs@,
                        self.tool_configs@,
                        key_view,
                        i as int,
                    );
                }
                return ;
            }
            i = i + 1;
        }
        self.tool_configs.push((tool_name, config));
        proof {
            assert(self.tool_configs@ == old(self).tool_configs@.push(self.tool_configs@.last()));
            lemma_lookup_entry_append(old(self).tool_configs@, self.tool_configs@.last());
        }
    }
}

impl Default for AppConfig {
    /// Fresh settings: system theme, no enabled plugins, no stored tool
    /// settings.
    fn default() -> (r: Self)
        ensures
            r.theme == Theme::System,
            r.language@ == "zh-CN"@,
            r.enabled_plugins@ =~= Seq::<String>::empty(),
            r.user.username@ == "user"@,
            r.user.working_directory is None,
            r.tool_configs@ =~= Seq::<(String, serde_json::Value)>::empty(),
            r.plugin_directory is None,
    {
        AppConfig {
            theme: Theme::System,
            language: "zh-CN".to_owned(),
            enabled_plugins: Vec::new(),
            user: UserConfig { username: "user".to_owned(), working_directory: None },
            tool_configs: Vec::new(),
            plugin_directory: None,
        }
    }
}

} // verus!
