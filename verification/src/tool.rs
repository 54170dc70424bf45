use vstd::prelude::*;

use crate::error::ToolError;
use crate::strings::str_eq;

verus! {

/// The closed set of categories used to group tools for presentation.
/// A category is not an identity: many tools may share one.
#[derive(Debug, Clone, Copy, PartialEq, Eq, Hash, Structural)]
pub enum ToolCategory {
    File,
    Text,
    Network,
    Image,
    Converter,
    System,
    Other,
}

/// The label shown for a category.
pub open spec fn category_label(c: ToolCategory) -> Seq<char> {
    match c {
        ToolCategory::File => "File"@,
        ToolCategory::Text => "Text"@,
        ToolCategory::Network => "Network"@,
        ToolCategory::Image => "Image"@,
        ToolCategory::Converter => "Converter"@,
        ToolCategory::System => "System"@,
        ToolCategory::Other => "Other"@,
    }
}

impl ToolCategory {
    /// A short human-readable label for the category.
    pub fn label(&self) -> (r: &'static str)
        ensures
            r@ == category_label(*self),
    {
        match self {
            ToolCategory::File => "File",
            ToolCategory::Text => "Text",
            ToolCategory::Network => "Network",
            ToolCategory::Image => "Image",
            ToolCategory::Converter => "Converter",
            ToolCategory::System => "System",
            ToolCategory::Other => "Other",
        }
    }
}

/// The value of the first entry of `entries` whose key reads `key`, or
/// `None` when no entry does.
pub open spec fn lookup_entry<V>(entries: Seq<(String, V)>, key: Seq<char>) -> Option<V>
    decreases entries.len(),
{
    if entries.len() == 0 {
        None
    } else if entries[0].0@ == key {
        Some(entries[0].1)
    } else {
        lookup_entry(entries.drop_first(), key)
    }
}

/// The envelope handed to a tool invocation: an optional byte payload and
/// named string parameters. It is built fresh by the caller for each call
/// and never retained by the registry.
pub struct ToolContext {
    pub input_data: Option<Vec<u8>>,
    pub parameters: Vec<(String, String)>,
}

impl ToolContext {
    /// The parameter value under `key`: the first entry wins when a key repeats.
    pub open spec fn spec_param(&self, key: Seq<char>) -> Option<Seq<char>> {
        match lookup_entry(self.parameters@, key) {
            Some(v) => Some(v@),
            None => None,
        }
    }

    /// The parameter value under `key`, or `default` when the key is absent.
    pub open spec fn spec_param_or(&self, key: Seq<char>, default: Seq<char>) -> Seq<char> {
        match self.spec_param(key) {
            Some(v) => v,
            None => default,
        }
    }

    /// An empty context: no payload, no parameters.
    pub fn new() -> (r: ToolContext)
        ensures
            r.input_data is None,
            r.parameters@ =~= Seq::<(String, String)>::empty(),
    {
        ToolContext { input_data: None, parameters: Vec::new() }
    }

    /// Looks a parameter up by name.
    pub fn get_parameter(&self, key: &str) -> (r: Option<&String>)
        ensures
            match r {
                Some(v) => self.spec_param(key@) == Some(v@),
                None => self.spec_param(key@) is None,
            },
    {
        let n = self.parameters.len();
        let mut i: usize = 0;
        proof {
            assert(self.parameters@.skip(0) =~= self.parameters@);
        }
        while i < n
            invariant
                n == self.parameters.len(),
                0 <= i <= n,
                lookup_entry(self.parameters@, key@) == lookup_entry(
                    self.parameters@.skip(i as int),
                    key@,
                ),
            decreases n - i,
        {
            let entry = &self.parameters[i];
            if str_eq(entry.0.as_str(), key) {
                return Some(&entry.1);
            }
            proof {
                assert(self.parameters@.skip(i + 1) =~= self.parameters@.skip(
                    i as int,
                ).drop_first());
            }
            i = i + 1;
        }
        None
    }

    /// Sets a parameter, replacing the first entry with the same key if one
    /// exists and appending a fresh entry otherwise.
    pub fn set_parameter(&mut self, key: String, value: String)
        ensures
            final(self).input_data == old(self).input_data,
            final(self).spec_param(key@) == Some(value@),
            forall|k: Seq<char>|
                k != key@ ==> final(self).spec_param(k) == old(self).spec_param(k),
    {
        let n = self.parameters.len();
        let mut i: usize = 0;
        while i < n
            invariant
                n == self.parameters.len(),
                0 <= i <= n,
                self.parameters == old(self).parameters,
                self.input_data == old(self).input_data,
                forall|j: int| 0 <= j < i ==> self.parameters@[j].0@ != key@,
            decreases n - i,
        {
            let entry = &self.parameters[i];
            if str_eq(entry.0.as_str(), key.as_str()) {
                let ghost key_view = key@;
                let ghost value_view = value@;
                self.parameters.set(i, (key, value));
                proof {
                    assert(self.parameters@[i as int].0@ == key_view);
                    lemma_lookup_entry_replace(
                        old(self).parameters@,
                        self.parameters@,
                        key_view,
                        i as int,
                    );
                }
                return ;
            }
            i = i + 1;
        }
        let ghost entry_view = (key@, value@);
        self.parameters.push((key, value));
        proof {
            assert(self.parameters@ == old(self).parameters@.push(self.parameters@.last()));
            assert(self.parameters@.last().0@ == entry_view.0);
            lemma_lookup_entry_append(old(self).parameters@, self.parameters@.last());
        }
    }
}

/// Replacing the entry at the first index whose key reads `key` changes the
/// lookup for `key` alone.
pub(crate) proof fn lemma_lookup_entry_replace<V>(
    before: Seq<(String, V)>,
    after: Seq<(String, V)>,
    key: Seq<char>,
    i: int,
)
    requires
        0 <= i < before.len(),
        after.len() == before.len(),
        forall|j: int| 0 <= j < i ==> before[j].0@ != key,
        forall|j: int| 0 <= j < before.len() && j != i ==> after[j] == before[j],
        after[i].0@ == key,
        before[i].0@ == key,
    ensures
        lookup_entry(after, key) == Some(after[i].1),
        forall|k: Seq<char>| k != key ==> lookup_entry(after, k) == lookup_entry(before, k),
    decreases before.len(),
{
    if i == 0 {
        assert forall|k: Seq<char>| k != key implies lookup_entry(after, k) == lookup_entry(
            before,
            k,
        ) by {
            assert(after.drop_first() =~= before.drop_first());
        }
    } else {
        assert(after[0] == before[0]);
        assert(after.drop_first()[i - 1].0@ == key);
        lemma_lookup_entry_replace(before.drop_first(), after.drop_first(), key, i - 1);
        assert(lookup_entry(after, key) == lookup_entry(after.drop_first(), key));
        assert forall|k: Seq<char>| k != key implies lookup_entry(after, k) == lookup_entry(
            before,
            k,
        ) by {
            if after[0].0@ == k {
            } else {
                assert(lookup_entry(after, k) == lookup_entry(after.drop_first(), k));
                assert(lookup_entry(before, k) == lookup_entry(before.drop_first(), k));
            }
        }
    }
}

/// Appending an entry whose key no earlier entry carries defines the lookup
/// for that key and leaves every other lookup unchanged.
pub(crate) proof fn lemma_lookup_entry_append<V>(entries: Seq<(String, V)>, e: (String, V))
    requires
        forall|j: int| 0 <= j < entries.len() ==> entries[j].0@ != e.0@,
    ensures
        lookup_entry(entries.push(e), e.0@) == Some(e.1),
        forall|k: Seq<char>|
            k != e.0@ ==> lookup_entry(entries.push(e), k) == lookup_entry(entries, k),
    decreases entries.len(),
{
    if entries.len() == 0 {
        assert(entries.push(e)[0] == e);
        assert(entries.push(e).drop_first() =~= Seq::<(String, V)>::empty());
        assert forall|k: Seq<char>| k != e.0@ implies lookup_entry(entries.push(e), k)
            == lookup_entry(entries, k) by {
            assert(lookup_entry(entries.push(e), k) == lookup_entry(
                entries.push(e).drop_first(),
                k,
            ));
        }
    } else {
        lemma_lookup_entry_append(entries.drop_first(), e);
        assert(entries.push(e).drop_first() =~= entries.drop_first().push(e));
        assert(entries.push(e)[0] == entries[0]);
        assert(lookup_entry(entries.push(e), e.0@) == Some(e.1));
        assert forall|k: Seq<char>| k != e.0@ implies lookup_entry(entries.push(e), k)
            == lookup_entry(entries, k) by {
            if entries[0].0@ == k {
            } else {
                assert(lookup_entry(entries.push(e), k) == lookup_entry(
                    entries.push(e).drop_first(),
                    k,
                ));
                assert(lookup_entry(entries, k) == lookup_entry(entries.drop_first(), k));
            }
        }
    }
}

/// What a tool invocation returns: an optional byte payload on success, or a
/// typed error.
pub type ToolResult = Result<Option<Vec<u8>>, ToolError>;

/// The capability contract of an invocable tool. Its name is its identity:
/// the registry keeps tool names globally unique. A tool must be prepared to
/// be invoked repeatedly, and must return a typed error rather than panic on
/// malformed input.
pub trait Tool: Sized {
    /// The name under which the tool is registered and looked up.
    spec fn spec_name(&self) -> Seq<char>;

    /// The category the tool is grouped under.
    spec fn spec_category(&self) -> ToolCategory;

    /// The stable identity of the tool.
    fn name(&self) -> (r: String)
        ensures
            r@ == self.spec_name(),
    ;

    /// A human-readable summary.
    fn description(&self) -> String;

    /// The category used for grouping in presentation.
    fn category(&self) -> (r: ToolCategory)
        ensures
            r == self.spec_category(),
    ;

    /// The parameters the tool expects, as (name, description) pairs. Purely
    /// advisory: `execute` validates its own parameters.
    fn parameter_descriptions(&self) -> Vec<(String, String)> {
        Vec::new()
    }

    /// Runs the tool against the given context.
    fn execute(&self, ctx: &ToolContext) -> ToolResult;
}

} // verus!
