use vstd::prelude::*;

use crate::error::ToolError;
use crate::strings::{str_eq, string_views};
use crate::tool::Tool;

verus! {

use vstd::pervasive::arbitrary;
use vstd::string::StringExecFns;

/// The capability contract of a plugin: a named, versioned bundle that is
/// initialized once, contributes a fixed set of tools, and releases its
/// resources on cleanup. Its name is its identity: the registry keeps plugin
/// names globally unique.
///
/// The spec functions pin down what the registry relies on: the name is
/// stable, the contributed tools are the same whenever they are asked for
/// within one lifetime, and initialize/cleanup succeed exactly when the
/// plugin's own success predicates hold.
pub trait Plugin<T: Tool>: Sized {
    /// The stable identity of the plugin.
    spec fn spec_name(&self) -> Seq<char>;

    /// The tools this plugin contributes, in the order `get_tools` yields
    /// them.
    spec fn spec_tools(&self) -> Seq<T>;

    /// Whether `initialize` succeeds on this plugin value.
    spec fn spec_init_ok(&self) -> bool;

    /// Whether `cleanup` succeeds on this plugin value.
    spec fn spec_cleanup_ok(&self) -> bool;

    /// The name under which the plugin is registered.
    fn name(&self) -> (r: String)
        ensures
            r@ == self.spec_name(),
    ;

    /// A human-readable summary.
    fn description(&self) -> String;

    /// The plugin's version string.
    fn version(&self) -> String;

    /// One-time setup, run by the registry during registration before the
    /// tools are harvested. It must leave the plugin's identity and
    /// contributed tools unchanged.
    fn initialize(&mut self) -> (r: Result<(), ToolError>)
        ensures
            r is Ok <==> old(self).spec_init_ok(),
            final(self).spec_name() == old(self).spec_name(),
            final(self).spec_tools() == old(self).spec_tools(),
            final(self).spec_cleanup_ok() == old(self).spec_cleanup_ok(),
    ;

    /// The tools this plugin contributes. Called by the registry right after
    /// a successful `initialize`, and again during unload to learn which
    /// tool names to drop.
    fn get_tools(&self) -> (r: Vec<T>)
        ensures
            r@ == self.spec_tools(),
    ;

    /// Releases the plugin's resources; run exactly once, during unload. It
    /// must leave the identity and the contributed tools unchanged, since
    /// the registry still reads them while removing the plugin.
    fn cleanup(&mut self) -> (r: Result<(), ToolError>)
        ensures
            r is Ok <==> old(self).spec_cleanup_ok(),
            final(self).spec_name() == old(self).spec_name(),
            final(self).spec_tools() == old(self).spec_tools(),
    ;
}

/// The names of a sequence of tools, in order.
pub open spec fn names_of<T: Tool>(tools: Seq<T>) -> Seq<Seq<char>> {
    tools.map(|i: int, t: T| t.spec_name())
}

/// The first tool of `tools` named `n`, if any.
pub open spec fn lookup_tool<T: Tool>(tools: Seq<T>, n: Seq<char>) -> Option<T>
    decreases tools.len(),
{
    if tools.len() == 0 {
        None
    } else if tools[0].spec_name() == n {
        Some(tools[0])
    } else {
        lookup_tool(tools.drop_first(), n)
    }
}

/// The first plugin of `plugins` named `n`; an arbitrary value when none is.
pub open spec fn plugin_named<P: Plugin<T>, T: Tool>(plugins: Seq<P>, n: Seq<char>) -> P
    decreases plugins.len(),
{
    if plugins.len() == 0 {
        arbitrary()
    } else if plugins[0].spec_name() == n {
        plugins[0]
    } else {
        plugin_named(plugins.drop_first(), n)
    }
}

/// `plugins` with its first plugin named `n` taken out.
pub open spec fn remove_plugin<P: Plugin<T>, T: Tool>(plugins: Seq<P>, n: Seq<char>) -> Seq<P>
    decreases plugins.len(),
{
    if plugins.len() == 0 {
        Seq::empty()
    } else if plugins[0].spec_name() == n {
        plugins.drop_first()
    } else {
        seq![plugins[0]] + remove_plugin(plugins.drop_first(), n)
    }
}

/// `tools` with every tool whose name is listed in `removed` taken out.
pub open spec fn remove_tools<T: Tool>(tools: Seq<T>, removed: Seq<Seq<char>>) -> Seq<T>
    decreases tools.len(),
{
    if tools.len() == 0 {
        Seq::empty()
    } else {
        let rest = remove_tools(tools.drop_first(), removed);
        if removed.contains(tools[0].spec_name()) {
            rest
        } else {
            seq![tools[0]] + rest
        }
    }
}

/// A lookup succeeds exactly when some tool carries the name, and what it
/// finds carries that name.
pub proof fn lemma_lookup_tool_found<T: Tool>(tools: Seq<T>, n: Seq<char>)
    ensures
        lookup_tool(tools, n) is Some <==> names_of(tools).contains(n),
        lookup_tool(tools, n) matches Some(t) ==> t.spec_name() == n,
    decreases tools.len(),
{
    if tools.len() == 0 {
        assert(names_of(tools) =~= Seq::<Seq<char>>::empty());
    } else {
        lemma_lookup_tool_found(tools.drop_first(), n);
        assert(names_of(tools) =~= seq![tools[0].spec_name()] + names_of(tools.drop_first()));
        lemma_concat_contains(seq![tools[0].spec_name()], names_of(tools.drop_first()));
        assert(seq![tools[0].spec_name()].contains(n) <==> tools[0].spec_name() == n) by {
            if seq![tools[0].spec_name()].contains(n) {
                assert(seq![tools[0].spec_name()][0] == tools[0].spec_name());
            } else {
            }
            assert(tools[0].spec_name() == n ==> seq![tools[0].spec_name()][0] == n);
        }
    }
}

/// Whether registering the tools `new` against the already taken names
/// `existing` hits a name conflict: a new tool's name is already taken, or
/// two of the new tools share a name.
pub open spec fn tools_conflict<T: Tool>(new: Seq<T>, existing: Seq<Seq<char>>) -> bool {
    exists|i: int|
        0 <= i < new.len() && (existing.contains(#[trigger] new[i].spec_name()) || names_of(
            new.take(i),
        ).contains(new[i].spec_name()))
}

/// The process-wide registry: the plugins registered so far and the flat set
/// of tools they contributed. Registration enforces name uniqueness over
/// both, commits either everything or nothing, and unloading removes a
/// plugin together with every tool it contributed.
///
/// The two collections form one composite state guarded by exclusive access
/// (`&mut self`); a host that shares the registry across threads wraps it in
/// a lock of its choosing, which serializes mutations against lookups and
/// thereby closes the transient window in which a tool could be observed
/// without its owning plugin.
pub struct PluginManager<P, T> {
    plugins: Vec<P>,
    tools: Vec<T>,
}

impl<P: Plugin<T>, T: Tool> PluginManager<P, T> {
    /// The registered plugins, in registration order.
    pub closed spec fn spec_plugins(&self) -> Seq<P> {
        self.plugins@
    }

    /// The registered tools, in registration order.
    pub closed spec fn spec_tools(&self) -> Seq<T> {
        self.tools@
    }

    /// The names of the registered plugins.
    pub closed spec fn plugin_names(&self) -> Seq<Seq<char>> {
        self.plugins@.map(|i: int, p: P| p.spec_name())
    }

    /// The names of the registered tools.
    pub closed spec fn tool_names(&self) -> Seq<Seq<char>> {
        names_of(self.tools@)
    }

    /// Whether some registered plugin is named `n`.
    pub closed spec fn has_plugin_named(&self, n: Seq<char>) -> bool {
        self.plugin_names().contains(n)
    }

    /// Whether some registered tool is named `n`.
    pub closed spec fn has_tool_named(&self, n: Seq<char>) -> bool {
        self.tool_names().contains(n)
    }

    /// What a lookup by name returns.
    pub closed spec fn spec_get_tool(&self, n: Seq<char>) -> Option<T> {
        lookup_tool(self.tools@, n)
    }

    /// The registry's invariant: no two registered plugins share a name, and
    /// no two registered tools do, whichever plugins contributed them.
    pub closed spec fn wf(&self) -> bool {
        &&& forall|i: int, j: int|
            #![trigger self.plugins@[i].spec_name(), self.plugins@[j].spec_name()]
            0 <= i < j < self.plugins@.len() ==> self.plugins@[i].spec_name()
                != self.plugins@[j].spec_name()
        &&& forall|i: int, j: int|
            #![trigger self.tools@[i].spec_name(), self.tools@[j].spec_name()]
            0 <= i < j < self.tools@.len() ==> self.tools@[i].spec_name()
                != self.tools@[j].spec_name()
    }

    /// An empty registry.
    pub fn new() -> (r: Self)
        ensures
            r.wf(),
            r.spec_plugins() =~= Seq::<P>::empty(),
            r.spec_tools() =~= Seq::<T>::empty(),
            r.plugin_names() =~= Seq::<Seq<char>>::empty(),
            r.tool_names() =~= Seq::<Seq<char>>::empty(),
    {
        PluginManager { plugins: Vec::new(), tools: Vec::new() }
    }

    /// A snapshot of every registered tool, in registration order.
    pub fn get_tools(&self) -> (r: &Vec<T>)
        ensures
            r@ == self.spec_tools(),
    {
        &self.tools
    }

    /// Looks a tool up by name, irrespective of which plugin contributed it.
    #[verifier::loop_isolation(false)]
    pub fn get_tool(&self, name: &str) -> (r: Option<&T>)
        ensures
            match r {
                Some(t) => self.spec_get_tool(name@) == Some(*t) && t.spec_name() == name@,
                None => self.spec_get_tool(name@) is None,
            },
            r is Some <==> self.has_tool_named(name@),
    {
        proof {
            lemma_lookup_tool_found(self.tools@, name@);
        }
        let n = self.tools.len();
        let mut i: usize = 0;
        proof {
            assert(self.tools@.skip(0) =~= self.tools@);
        }
        while i < n
            invariant
                n == self.tools.len(),
                0 <= i <= n,
                lookup_tool(self.tools@, name@) == lookup_tool(self.tools@.skip(i as int), name@),
            decreases n - i,
        {
            let tn = self.tools[i].name();
            if str_eq(tn.as_str(), name) {
                return Some(&self.tools[i]);
            }
            proof {
                assert(self.tools@.skip(i + 1) =~= self.tools@.skip(i as int).drop_first());
            }
            i = i + 1;
        }
        None
    }
    /// The index of the first registered plugin named `name`, if any.
    fn find_plugin_index(&self, name: &str) -> (r: Option<usize>)
        ensures
            match r {
                Some(i) => {
                    &&& i < self.spec_plugins().len()
                    &&& self.spec_plugins()[i as int].spec_name() == name@
                    &&& forall|j: int|
                        0 <= j < i ==> self.spec_plugins()[j].spec_name() != name@
                    &&& self.has_plugin_named(name@)
                },
                None => !self.has_plugin_named(name@),
            },
    {
        let n = self.plugins.len();
        let mut i: usize = 0;
        while i < n
            invariant
                n == self.plugins.len(),
                0 <= i <= n,
                forall|j: int| 0 <= j < i ==> self.plugins@[j].spec_name() != name@,
            decreases n - i,
        {
            let pn = self.plugins[i].name();
            if str_eq(pn.as_str(), name) {
                proof {
                    assert(self.plugin_names()[i as int] == name@);
                }
                return Some(i);
            }
            i = i + 1;
        }
        proof {
            assert forall|j: int| 0 <= j < self.plugin_names().len() implies self.plugin_names()[j]
                != name@ by {
                assert(self.plugin_names()[j] == self.plugins@[j].spec_name());
            }
        }
        None
    }

    /// Whether some registered tool is named `name`.
    fn has_tool_with_name(&self, name: &String) -> (r: bool)
        ensures
            r == self.has_tool_named(name@),
    {
        let n = self.tools.len();
        let mut i: usize = 0;
        while i < n
            invariant
                n == self.tools.len(),
                0 <= i <= n,
                forall|j: int| 0 <= j < i ==> self.tools@[j].spec_name() != name@,
            decreases n - i,
        {
            let tn = self.tools[i].name();
            if str_eq(tn.as_str(), name.as_str()) {
                proof {
                    assert(self.tool_names()[i as int] == name@);
                }
                return true;
            }
            i = i + 1;
        }
        proof {
            assert forall|j: int| 0 <= j < self.tool_names().len() implies self.tool_names()[j]
                != name@ by {
                assert(self.tool_names()[j] == self.tools@[j].spec_name());
            }
        }
        false
    }

    /// Registers a plugin: rejects a duplicate plugin name, initializes the
    /// plugin, harvests its tools, validates every tool name against the
    /// global tool set (and against its fellow new tools), and only then
    /// commits both maps. On any error the registry is left exactly as it
    /// was (registration atomicity law).
    ///
    /// When a tool-name conflict is found after `initialize` has already
    /// run, the rejected plugin is discarded without a `cleanup` call; that
    /// gap is deliberate and documented rather than silently papered over.
    #[verifier::loop_isolation(false)]
    pub fn register_plugin(&mut self, plugin: P) -> (r: Result<(), ToolError>)
        requires
            old(self).wf(),
        ensures
            final(self).wf(),
            r is Err ==> *final(self) == *old(self),
            old(self).has_plugin_named(plugin.spec_name()) ==> (r matches Err(
                ToolError::PluginError(m),
            ) && m@ == duplicate_plugin_note(plugin.spec_name())),
            !old(self).has_plugin_named(plugin.spec_name()) && !plugin.spec_init_ok() ==> r is Err,
            !old(self).has_plugin_named(plugin.spec_name()) && plugin.spec_init_ok()
                && tools_conflict(plugin.spec_tools(), old(self).tool_names()) ==> r matches Err(
                ToolError::PluginError(_),
            ),
            !old(self).has_plugin_named(plugin.spec_name()) && plugin.spec_init_ok()
                && !tools_conflict(plugin.spec_tools(), old(self).tool_names()) ==> {
                &&& r is Ok
                &&& final(self).spec_tools() == old(self).spec_tools() + plugin.spec_tools()
                &&& final(self).plugin_names() == old(self).plugin_names().push(
                    plugin.spec_name(),
                )
                &&& final(self).spec_plugins().len() == old(self).spec_plugins().len() + 1
                &&& forall|j: int|
                    0 <= j < old(self).spec_plugins().len() ==> final(self).spec_plugins()[j]
                        == old(self).spec_plugins()[j]
                &&& final(self).spec_plugins().last().spec_name() == plugin.spec_name()
                &&& final(self).spec_plugins().last().spec_tools() == plugin.spec_tools()
                &&& final(self).spec_plugins().last().spec_cleanup_ok()
                    == plugin.spec_cleanup_ok()
                &&& forall|x: Seq<char>|
                    final(self).has_tool_named(x) <==> old(self).has_tool_named(x) || names_of(
                        plugin.spec_tools(),
                    ).contains(x)
            },
    {
        let name = plugin.name();
        if self.find_plugin_index(name.as_str()).is_some() {
            return Err(ToolError::PluginError(duplicate_plugin_text(name.as_str())));
        }
        let mut plugin = plugin;
        match plugin.initialize() {
            Err(e) => {
                return Err(e);
            },
            Ok(()) => {},
        }
        let new_tools = plugin.get_tools();
        let ghost incoming = new_tools@;
        let k = new_tools.len();
        let mut i: usize = 0;
        while i < k
            invariant
                k == new_tools.len(),
                0 <= i <= k,
                new_tools@ == incoming,
                *self == *old(self),
                forall|j: int|
                    0 <= j < i ==> !old(self).tool_names().contains(
                        #[trigger] incoming[j].spec_name(),
                    ) && !names_of(incoming.take(j)).contains(incoming[j].spec_name()),
            decreases k - i,
        {
            let tn = new_tools[i].name();
            if self.has_tool_with_name(&tn) || tool_named_in_prefix(&new_tools, i, &tn) {
                proof {
                    assert(tools_conflict(incoming, old(self).tool_names()));
                }
                return Err(ToolError::PluginError(duplicate_tool_text(tn.as_str())));
            }
            i = i + 1;
        }
        proof {
            assert(!tools_conflict(incoming, old(self).tool_names()));
        }
        let ghost tools_before = self.tools@;
        let mut new_tools = new_tools;
        while new_tools.len() > 0
            invariant
                self.plugins == old(self).plugins,
                incoming.len() >= new_tools@.len(),
                self.tools@ == tools_before + incoming.take(
                    incoming.len() - new_tools@.len(),
                ),
                new_tools@ == incoming.skip(incoming.len() - new_tools@.len()),
            decreases new_tools.len(),
        {
            let ghost done = incoming.len() - new_tools@.len();
            let t = new_tools.remove(0);
            self.tools.push(t);
            proof {
                assert(t == incoming[done]);
                assert(incoming.take(done + 1) =~= incoming.take(done).push(incoming[done]));
                assert(self.tools@ =~= tools_before + incoming.take(done + 1));
                assert(new_tools@ =~= incoming.skip(done + 1));
            }
        }
        proof {
            assert(self.tools@ =~= tools_before + incoming);
        }
        self.plugins.push(plugin);
        proof {
            assert(self.plugin_names() =~= old(self).plugin_names().push(plugin.spec_name()));
            lemma_names_of_concat(tools_before, incoming);
            lemma_concat_contains(names_of(tools_before), names_of(incoming));
            assert(self.tool_names() == names_of(tools_before) + names_of(incoming));
            assert forall|x: Seq<char>|
                self.has_tool_named(x) <==> old(self).has_tool_named(x) || names_of(
                    incoming,
                ).contains(x) by {}
            assert forall|a: int, b: int|
                0 <= a < b < self.tools@.len() implies #[trigger] self.tools@[a].spec_name()
                != #[trigger] self.tools@[b].spec_name() by {
                let olen = tools_before.len() as int;
                if b < olen {
                } else if a >= olen {
                    assert(self.tools@[a] == incoming[a - olen]);
                    assert(self.tools@[b] == incoming[b - olen]);
                    assert(names_of(incoming.take(b - olen))[a - olen] == incoming[a
                        - olen].spec_name());
                    assert(!names_of(incoming.take(b - olen)).contains(
                        incoming[b - olen].spec_name(),
                    ));
                } else {
                    assert(self.tools@[a] == tools_before[a]);
                    assert(self.tools@[b] == incoming[b - olen]);
                    assert(old(self).tool_names()[a] == tools_before[a].spec_name());
                    assert(!old(self).tool_names().contains(incoming[b - olen].spec_name()));
                }
            }
            assert forall|a: int, b: int|
                0 <= a < b < self.plugins@.len() implies #[trigger] self.plugins@[a].spec_name()
                != #[trigger] self.plugins@[b].spec_name() by {
                let olen = old(self).spec_plugins().len() as int;
                if b == olen {
                    assert(old(self).plugin_names()[a] == self.plugins@[a].spec_name());
                    assert(!old(self).has_plugin_named(plugin.spec_name()));
                }
            }
        }
        Ok(())
    }

    /// Unloads the plugin registered under `name`: removes it from the
    /// plugin map, runs its `cleanup`, and removes every tool it
    /// contributed. A cleanup failure is surfaced as the result but does
    /// not block the removal; afterwards the name is free again and none of
    /// the plugin's tools can be looked up (unload completeness law).
    #[verifier::loop_isolation(false)]
    pub fn unload_plugin(&mut self, name: &str) -> (r: Result<(), ToolError>)
        requires
            old(self).wf(),
        ensures
            final(self).wf(),
            !old(self).has_plugin_named(name@) ==> (r matches Err(ToolError::NotFoundError(m))
                && m@ == missing_plugin_note(name@) && *final(self) == *old(self)),
            old(self).has_plugin_named(name@) ==> {
                let p = plugin_named(old(self).spec_plugins(), name@);
                &&& final(self).spec_plugins() == remove_plugin(old(self).spec_plugins(), name@)
                &&& !final(self).has_plugin_named(name@)
                &&& final(self).spec_tools() == remove_tools(
                    old(self).spec_tools(),
                    names_of(p.spec_tools()),
                )
                &&& forall|x: Seq<char>|
                    names_of(p.spec_tools()).contains(x) ==> !final(self).has_tool_named(x)
                &&& forall|x: Seq<char>|
                    !names_of(p.spec_tools()).contains(x) ==> (final(self).has_tool_named(x)
                        <==> old(self).has_tool_named(x))
                &&& (r is Ok <==> p.spec_cleanup_ok())
            },
    {
        let idx = match self.find_plugin_index(name) {
            None => {
                return Err(ToolError::NotFoundError(missing_plugin_text(name)));
            },
            Some(i) => i,
        };
        let mut plugin = self.plugins.remove(idx);
        proof {
            lemma_first_plugin_at(old(self).spec_plugins(), name@, idx as int);
            assert forall|j: int| 0 <= j < self.plugins@.len() implies self.plugins@[j].spec_name()
                != name@ by {
                if j < idx {
                    assert(self.plugins@[j] == old(self).spec_plugins()[j]);
                } else {
                    assert(self.plugins@[j] == old(self).spec_plugins()[j + 1]);
                }
            }
            assert forall|j: int|
                0 <= j < self.plugin_names().len() implies self.plugin_names()[j] != name@ by {
                assert(self.plugin_names()[j] == self.plugins@[j].spec_name());
            }
            assert forall|a: int, b: int|
                0 <= a < b < self.plugins@.len() implies #[trigger] self.plugins@[a].spec_name()
                != #[trigger] self.plugins@[b].spec_name() by {
                let x = if a < idx { a } else { a + 1 };
                let y = if b < idx { b } else { b + 1 };
                assert(self.plugins@[a] == old(self).spec_plugins()[x]);
                assert(self.plugins@[b] == old(self).spec_plugins()[y]);
            }
        }
        let cleanup_result = plugin.cleanup();
        let contributed = plugin.get_tools();
        let ghost removed_views = names_of(
            plugin_named(old(self).spec_plugins(), name@).spec_tools(),
        );
        proof {
            assert(names_of(contributed@) == removed_views);
        }
        let mut removed_names: Vec<String> = Vec::new();
        let total = contributed.len();
        let mut i: usize = 0;
        while i < total
            invariant
                0 <= i <= total,
                string_views(removed_names@) =~= names_of(contributed@).take(i as int),
            decreases total - i,
        {
            let tn = contributed[i].name();
            removed_names.push(tn);
            proof {
                assert(names_of(contributed@)[i as int] == contributed@[i as int].spec_name());
                assert(string_views(removed_names@) =~= names_of(contributed@).take(i + 1));
            }
            i = i + 1;
        }
        proof {
            assert(names_of(contributed@).take(total as int) =~= names_of(contributed@));
            assert(string_views(removed_names@) == removed_views);
        }
        let ghost tools_before = self.tools@;
        let ghost plugins_after = self.plugins@;
        let mut kept: Vec<T> = Vec::new();
        while self.tools.len() > 0
            invariant
                self.plugins@ == plugins_after,
                remove_tools(tools_before, removed_views) == kept@ + remove_tools(
                    self.tools@,
                    removed_views,
                ),
            decreases self.tools.len(),
        {
            let ghost pending = self.tools@;
            let ghost kept_before = kept@;
            let t = self.tools.remove(0);
            proof {
                assert(self.tools@ =~= pending.drop_first());
            }
            let tn = t.name();
            if !name_in_list(&removed_names, &tn) {
                kept.push(t);
                proof {
                    assert(!removed_views.contains(t.spec_name()));
                    assert(remove_tools(pending, removed_views) == seq![t] + remove_tools(
                        pending.drop_first(),
                        removed_views,
                    ));
                    assert(kept@ =~= kept_before + seq![t]);
                    assert(kept@ + remove_tools(self.tools@, removed_views) =~= kept_before
                        + remove_tools(pending, removed_views));
                }
            } else {
                proof {
                    assert(removed_views.contains(t.spec_name()));
                    assert(remove_tools(pending, removed_views) == remove_tools(
                        pending.drop_first(),
                        removed_views,
                    ));
                }
            }
        }
        proof {
            assert(remove_tools(self.tools@, removed_views) =~= Seq::<T>::empty());
            assert(kept@ + Seq::<T>::empty() =~= kept@);
        }
        self.tools = kept;
        proof {
            assert(self.tools@ == remove_tools(tools_before, removed_views));
            lemma_remove_tools_distinct(tools_before, removed_views);
            lemma_remove_tools_membership(tools_before, removed_views);
            assert forall|x: Seq<char>|
                removed_views.contains(x) implies !self.has_tool_named(x) by {}
        }
        cleanup_result
    }

}

/// Whether one of the first `upto` tools is named `name`.
fn tool_named_in_prefix<T: Tool>(tools: &Vec<T>, upto: usize, name: &String) -> (r: bool)
    requires
        upto <= tools@.len(),
    ensures
        r == names_of(tools@.take(upto as int)).contains(name@),
{
    let mut i: usize = 0;
    while i < upto
        invariant
            upto <= tools@.len(),
            0 <= i <= upto,
            forall|j: int| 0 <= j < i ==> tools@[j].spec_name() != name@,
        decreases upto - i,
    {
        let tn = tools[i].name();
        if str_eq(tn.as_str(), name.as_str()) {
            proof {
                assert(names_of(tools@.take(upto as int))[i as int] == name@);
            }
            return true;
        }
        i = i + 1;
    }
    proof {
        assert forall|j: int|
            0 <= j < names_of(tools@.take(upto as int)).len() implies names_of(
            tools@.take(upto as int),
        )[j] != name@ by {
            assert(names_of(tools@.take(upto as int))[j] == tools@[j].spec_name());
        }
    }
    false
}

impl<P: Plugin<T>, T: Tool> Default for PluginManager<P, T> {
    /// An empty registry.
    fn default() -> (r: Self)
        ensures
            r.wf(),
            r.spec_plugins() =~= Seq::<P>::empty(),
            r.spec_tools() =~= Seq::<T>::empty(),
            r.plugin_names() =~= Seq::<Seq<char>>::empty(),
            r.tool_names() =~= Seq::<Seq<char>>::empty(),
    {
        PluginManager::new()
    }
}

/// The note carried by the error for registering a plugin name twice.
pub open spec fn duplicate_plugin_note(n: Seq<char>) -> Seq<char> {
    "plugin '"@ + n + "' is already registered"@
}

/// The note carried by the error for unloading an unknown plugin name.
pub open spec fn missing_plugin_note(n: Seq<char>) -> Seq<char> {
    "no plugin named '"@ + n + "'"@
}

fn duplicate_plugin_text(name: &str) -> (m: String)
    ensures
        m@ == duplicate_plugin_note(name@),
{
    let mut m = "plugin '".to_owned();
    m.append(name);
    m.append("' is already registered");
    m
}

fn missing_plugin_text(name: &str) -> (m: String)
    ensures
        m@ == missing_plugin_note(name@),
{
    let mut m = "no plugin named '".to_owned();
    m.append(name);
    m.append("'");
    m
}

fn duplicate_tool_text(name: &str) -> (m: String)
    ensures
        m@ == "tool '"@ + name@ + "' is already registered by another plugin"@,
{
    let mut m = "tool '".to_owned();
    m.append(name);
    m.append("' is already registered by another plugin");
    m
}

/// Whether `name` reads like one of `names`.
fn name_in_list(names: &Vec<String>, name: &String) -> (r: bool)
    ensures
        r == string_views(names@).contains(name@),
{
    let n = names.len();
    let mut i: usize = 0;
    while i < n
        invariant
            n == names.len(),
            0 <= i <= n,
            forall|j: int| 0 <= j < i ==> string_views(names@)[j] != name@,
        decreases n - i,
    {
        if str_eq(names[i].as_str(), name.as_str()) {
            proof {
                assert(string_views(names@)[i as int] == name@);
            }
            return true;
        }
        i = i + 1;
    }
    proof {
        assert forall|j: int| 0 <= j < string_views(names@).len() implies string_views(names@)[j]
            != name@ by {}
    }
    false
}

/// Membership in a concatenation is membership in either part.
proof fn lemma_concat_contains<A>(a: Seq<A>, b: Seq<A>)
    ensures
        forall|x: A| #[trigger] (a + b).contains(x) <==> a.contains(x) || b.contains(x),
{
    assert forall|x: A| #[trigger] (a + b).contains(x) <==> a.contains(x) || b.contains(x) by {
        if (a + b).contains(x) {
            let i = choose|i: int| 0 <= i < (a + b).len() && (a + b)[i] == x;
            if i < a.len() {
                assert(a[i] == x);
            } else {
                assert(b[i - a.len()] == x);
            }
        }
        if a.contains(x) {
            let i = choose|i: int| 0 <= i < a.len() && a[i] == x;
            assert((a + b)[i] == x);
        }
        if b.contains(x) {
            let i = choose|i: int| 0 <= i < b.len() && b[i] == x;
            assert((a + b)[a.len() + i] == x);
        }
    }
}

/// The names of a concatenation are the concatenation of the names.
proof fn lemma_names_of_concat<T: Tool>(a: Seq<T>, b: Seq<T>)
    ensures
        names_of(a + b) =~= names_of(a) + names_of(b),
{
}

/// A tool survives the removal pass exactly when its name is not among the
/// removed ones, and no name appears out of nowhere.
proof fn lemma_remove_tools_membership<T: Tool>(tools: Seq<T>, removed: Seq<Seq<char>>)
    ensures
        forall|x: Seq<char>| #[trigger]
            names_of(remove_tools(tools, removed)).contains(x) <==> (names_of(tools).contains(x)
                && !removed.contains(x)),
    decreases tools.len(),
{
    if tools.len() == 0 {
        assert(names_of(remove_tools(tools, removed)) =~= Seq::<Seq<char>>::empty());
        assert(names_of(tools) =~= Seq::<Seq<char>>::empty());
    } else {
        lemma_remove_tools_membership(tools.drop_first(), removed);
        let head = tools[0];
        let rest = remove_tools(tools.drop_first(), removed);
        assert(names_of(tools) =~= seq![head.spec_name()] + names_of(tools.drop_first()));
        lemma_concat_contains(seq![head.spec_name()], names_of(tools.drop_first()));
        if removed.contains(head.spec_name()) {
            assert forall|x: Seq<char>| #[trigger]
                names_of(remove_tools(tools, removed)).contains(x) <==> (names_of(
                tools,
            ).contains(x) && !removed.contains(x)) by {
                assert(seq![head.spec_name()].contains(x) ==> x == head.spec_name());
            }
        } else {
            assert(names_of(remove_tools(tools, removed)) =~= seq![head.spec_name()] + names_of(
                rest,
            ));
            lemma_concat_contains(seq![head.spec_name()], names_of(rest));
            assert forall|x: Seq<char>| #[trigger]
                names_of(remove_tools(tools, removed)).contains(x) <==> (names_of(
                tools,
            ).contains(x) && !removed.contains(x)) by {
                assert(seq![head.spec_name()].contains(x) ==> x == head.spec_name());
            }
        }
    }
}

/// Removal keeps tool names pairwise distinct.
proof fn lemma_remove_tools_distinct<T: Tool>(tools: Seq<T>, removed: Seq<Seq<char>>)
    requires
        forall|i: int, j: int|
            #![trigger tools[i].spec_name(), tools[j].spec_name()]
            0 <= i < j < tools.len() ==> tools[i].spec_name() != tools[j].spec_name(),
    ensures
        forall|i: int, j: int|
            #![trigger remove_tools(tools, removed)[i].spec_name(), remove_tools(tools, removed)[j].spec_name()]
            0 <= i < j < remove_tools(tools, removed).len() ==> remove_tools(tools, removed)[
                i
            ].spec_name() != remove_tools(tools, removed)[j].spec_name(),
    decreases tools.len(),
{
    if tools.len() == 0 {
    } else {
        let head = tools[0];
        let rest = remove_tools(tools.drop_first(), removed);
        lemma_remove_tools_distinct(tools.drop_first(), removed);
        lemma_remove_tools_membership(tools.drop_first(), removed);
        if removed.contains(head.spec_name()) {
        } else {
            let result = remove_tools(tools, removed);
            assert(result =~= seq![head] + rest);
            assert forall|i: int, j: int|
                0 <= i < j < result.len() implies #[trigger] result[i].spec_name()
                != #[trigger] result[j].spec_name() by {
                if i == 0 {
                    assert(result[j] == rest[j - 1]);
                    assert(names_of(rest)[j - 1] == rest[j - 1].spec_name());
                    assert(names_of(rest).contains(rest[j - 1].spec_name()));
                    assert(names_of(tools.drop_first()).contains(rest[j - 1].spec_name()));
                    let k = choose|k: int|
                        0 <= k < names_of(tools.drop_first()).len() && names_of(
                            tools.drop_first(),
                        )[k] == rest[j - 1].spec_name();
                    assert(tools[k + 1].spec_name() == rest[j - 1].spec_name());
                } else {
                    assert(result[i] == rest[i - 1] && result[j] == rest[j - 1]);
                }
            }
        }
    }
}

/// At the first index whose plugin is named `n`, removal and selection mean
/// exactly dropping and reading that index.
proof fn lemma_first_plugin_at<P: Plugin<T>, T: Tool>(plugins: Seq<P>, n: Seq<char>, i: int)
    requires
        0 <= i < plugins.len(),
        forall|j: int| 0 <= j < i ==> plugins[j].spec_name() != n,
        plugins[i].spec_name() == n,
    ensures
        remove_plugin(plugins, n) == plugins.remove(i),
        plugin_named(plugins, n) == plugins[i],
    decreases i,
{
    if i == 0 {
        assert(plugins.remove(0) =~= plugins.drop_first());
    } else {
        lemma_first_plugin_at(plugins.drop_first(), n, i - 1);
        assert(seq![plugins[0]] + plugins.drop_first().remove(i - 1) =~= plugins.remove(i));
        assert(plugins.drop_first()[i - 1] == plugins[i]);
    }
}

/// What the registry's name views mean, spelled out for callers outside
/// this module: the name sequences mirror the stored sequences, the
/// membership predicates mean membership in them, and a lookup reads the
/// stored tools.
pub proof fn lemma_registry_views<P: Plugin<T>, T: Tool>(m: &PluginManager<P, T>)
    ensures
        m.tool_names() == names_of(m.spec_tools()),
        m.plugin_names().len() == m.spec_plugins().len(),
        forall|i: int|
            0 <= i < m.spec_plugins().len() ==> m.plugin_names()[i] == m.spec_plugins()[
                i
            ].spec_name(),
        forall|n: Seq<char>| #[trigger] m.has_tool_named(n) <==> m.tool_names().contains(n),
        forall|n: Seq<char>| #[trigger] m.has_plugin_named(n) <==> m.plugin_names().contains(n),
        forall|n: Seq<char>| #[trigger] m.spec_get_tool(n) == lookup_tool(m.spec_tools(), n),
{
}

/// Uniqueness law: in a well-formed registry no two simultaneously
/// registered plugins share a name, and no two simultaneously registered
/// tools share a name, whichever plugins contributed them.
pub proof fn lemma_registry_uniqueness<P: Plugin<T>, T: Tool>(m: &PluginManager<P, T>)
    requires
        m.wf(),
    ensures
        forall|i: int, j: int|
            0 <= i < j < m.plugin_names().len() ==> m.plugin_names()[i] != m.plugin_names()[j],
        forall|i: int, j: int|
            0 <= i < j < m.tool_names().len() ==> m.tool_names()[i] != m.tool_names()[j],
{
}

/// Registration-atomicity law: a failed registration leaves the registry
/// exactly as it was (`register_plugin` ensures `*final(self) == *old(self)`
/// on every error), and a registry left as it was answers every lookup and
/// listing as before, so nothing of the rejected plugin or its tools can be
/// observed.
pub proof fn lemma_failed_registration_invisible<P: Plugin<T>, T: Tool>(
    before: &PluginManager<P, T>,
    after: &PluginManager<P, T>,
)
    requires
        *after == *before,
    ensures
        forall|n: Seq<char>| #[trigger] after.spec_get_tool(n) == before.spec_get_tool(n),
        after.spec_tools() == before.spec_tools(),
        forall|n: Seq<char>| #[trigger] after.has_tool_named(n) == before.has_tool_named(n),
        forall|n: Seq<char>| #[trigger] after.has_plugin_named(n) == before.has_plugin_named(n),
{
}

/// Idempotent-lookup law: a lookup is a function of the registry state and
/// the name alone, so two lookups with no mutation between them return equal
/// results.
pub proof fn lemma_lookup_idempotent<P: Plugin<T>, T: Tool>(
    m: &PluginManager<P, T>,
    name: Seq<char>,
    first: Option<T>,
    second: Option<T>,
)
    requires
        first == m.spec_get_tool(name),
        second == m.spec_get_tool(name),
    ensures
        first == second,
{
}

} // verus!
