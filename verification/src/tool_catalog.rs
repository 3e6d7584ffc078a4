//! Which tools a model is told of in one turn.

use vstd::prelude::*;
use crate::chat_types::TrustLevel;
use crate::text::{any_same, texts};

verus! {

/// An operator's rule for one tool.
#[derive(Debug)]
pub struct ToolAccessRow {
    pub enabled: bool,
    pub removed_at: Option<i64>,
    pub allowed_classes: Vec<String>,
}

/// What the lookup of a tool's rule found.
#[derive(Debug)]
pub enum AccessLookup {
    Missing,
    Row(ToolAccessRow),
    Failed,
}

/// A built-in tool. Its capabilities are held as the policy tags they map to.
#[derive(Debug)]
pub struct BuiltinTool {
    pub name: String,
    pub description: String,
    pub schema: String,
    pub capability_tags: Vec<String>,
    pub sensitive: bool,
    pub access: AccessLookup,
}

/// A tool of an installed plugin.
#[derive(Debug)]
pub struct PluginTool {
    pub tool_name: String,
    pub plugin_id: String,
    pub latency: String,
    pub description: Option<String>,
    pub schema_json: Option<String>,
    pub required_capabilities: Vec<String>,
    pub sensitive: bool,
    pub access: AccessLookup,
}

/// The function part of a tool declaration; the parameters are held as compact
/// JSON text.
#[derive(Debug)]
pub struct ToolFunction {
    pub name: String,
    pub description: String,
    pub parameters: String,
}

/// A tool as it is declared to the model.
#[derive(Debug)]
pub struct ToolDeclaration {
    pub function: ToolFunction,
}

/// The model of a `ToolDeclaration`.
pub struct DeclModel {
    pub name: Seq<char>,
    pub description: Seq<char>,
    pub parameters: Seq<char>,
}

impl View for ToolDeclaration {
    type V = DeclModel;

    open spec fn view(&self) -> DeclModel {
        DeclModel {
            name: self.function.name@,
            description: self.function.description@,
            parameters: self.function.parameters@,
        }
    }
}

/// What a turn's model is told of tools: the declarations, and the names by
/// which the system prompt speaks of them.
#[derive(Debug)]
pub struct RunnerToolView {
    pub declarations: Vec<ToolDeclaration>,
    pub builtin_names: Vec<String>,
    pub plugin_tool_names: Vec<String>,
}

/// The models of a vector of declarations.
pub open spec fn decl_models(v: Seq<ToolDeclaration>) -> Seq<DeclModel> {
    v.map_values(|d: ToolDeclaration| d@)
}

/// Whether the operator's rule lets a class use a tool. No rule allows it; a
/// rule that could not be read does not.
pub open spec fn access_allows(access: AccessLookup, class: Seq<char>) -> bool {
    match access {
        AccessLookup::Missing => true,
        AccessLookup::Row(row) => row.enabled && row.removed_at is None && texts(
            row.allowed_classes@,
        ).contains(class),
        AccessLookup::Failed => false,
    }
}

/// Whether `caps` cover `required`: they hold each of them, or the wildcard.
pub open spec fn caps_cover(caps: Seq<Seq<char>>, required: Seq<Seq<char>>) -> bool {
    caps.contains("*"@) || forall|i: int| 0 <= i < required.len() ==> caps.contains(
        #[trigger] required[i],
    )
}

/// Whether a caller's model is told of a built-in tool.
pub open spec fn builtin_shown(t: BuiltinTool, class: Seq<char>, caps: Seq<Seq<char>>) -> bool {
    access_allows(t.access, class) && caps_cover(caps, texts(t.capability_tags@))
}

/// Whether a caller's model is told of a plugin tool.
pub open spec fn plugin_shown(t: PluginTool, class: Seq<char>, caps: Seq<Seq<char>>) -> bool {
    access_allows(t.access, class) && caps_cover(caps, texts(t.required_capabilities@))
}

/// The built-in tools a caller's model is told of, in order.
pub open spec fn shown_builtins(
    tools: Seq<BuiltinTool>,
    class: Seq<char>,
    caps: Seq<Seq<char>>,
) -> Seq<BuiltinTool>
    decreases tools.len(),
{
    if tools.len() == 0 {
        Seq::empty()
    } else {
        let rest = shown_builtins(tools.drop_last(), class, caps);
        if builtin_shown(tools.last(), class, caps) {
            rest.push(tools.last())
        } else {
            rest
        }
    }
}

/// The plugin tools a caller's model is told of, in order.
pub open spec fn shown_plugins(
    tools: Seq<PluginTool>,
    class: Seq<char>,
    caps: Seq<Seq<char>>,
) -> Seq<PluginTool>
    decreases tools.len(),
{
    if tools.len() == 0 {
        Seq::empty()
    } else {
        let rest = shown_plugins(tools.drop_last(), class, caps);
        if plugin_shown(tools.last(), class, caps) {
            rest.push(tools.last())
        } else {
            rest
        }
    }
}

/// How a built-in tool is declared.
pub open spec fn builtin_decl(t: BuiltinTool) -> DeclModel {
    DeclModel { name: t.name@, description: t.description@, parameters: t.schema@ }
}

/// How a plugin tool is declared: with a note where the manifest describes
/// nothing, and as taking any object where it gives no schema.
pub open spec fn plugin_decl(t: PluginTool) -> DeclModel {
    DeclModel {
        name: t.tool_name@,
        description: match t.description {
            Some(d) => d@,
            None => "Plugin tool '"@ + t.tool_name@ + "' from '"@ + t.plugin_id@ + "' (latency: "@
                + t.latency@
                + "). The plugin manifest did not supply a description; ask the operator to add one for better tool selection."@,
        },
        parameters: match t.schema_json {
            Some(s) => s@,
            None => "{\"type\":\"object\"}"@,
        },
    }
}

/// The declarations of built-in tools.
pub open spec fn builtin_decls(tools: Seq<BuiltinTool>) -> Seq<DeclModel> {
    tools.map_values(|t: BuiltinTool| builtin_decl(t))
}

/// The declarations of plugin tools.
pub open spec fn plugin_decls(tools: Seq<PluginTool>) -> Seq<DeclModel> {
    tools.map_values(|t: PluginTool| plugin_decl(t))
}

/// The names of built-in tools.
pub open spec fn builtin_texts(tools: Seq<BuiltinTool>) -> Seq<Seq<char>> {
    tools.map_values(|t: BuiltinTool| t.name@)
}

/// The names of plugin tools.
pub open spec fn plugin_texts(tools: Seq<PluginTool>) -> Seq<Seq<char>> {
    tools.map_values(|t: PluginTool| t.tool_name@)
}

fn allowed(access: &AccessLookup, class: &str) -> (r: bool)
    ensures
        r == access_allows(*access, class@),
{
    match access {
        AccessLookup::Missing => true,
        AccessLookup::Row(row) => {
            row.enabled && row.removed_at.is_none() && any_same(&row.allowed_classes, class)
        },
        AccessLookup::Failed => false,
    }
}

fn covered(caps: &Vec<String>, required: &Vec<String>) -> (r: bool)
    ensures
        r == caps_cover(texts(caps@), texts(required@)),
{
    if any_same(caps, "*") {
        return true;
    }
    let ghost all = texts(required@);
    let mut i: usize = 0;
    while i < required.len()
        invariant
            i <= required.len(),
            all == texts(required@),
            !texts(caps@).contains("*"@),
            forall|j: int| 0 <= j < i ==> texts(caps@).contains(#[trigger] all[j]),
        decreases required.len() - i,
    {
        assert(all[i as int] == required@[i as int]@);
        if !any_same(caps, required[i].as_str()) {
            return false;
        }
        i += 1;
    }
    true
}

fn declare_plugin(t: &PluginTool) -> (r: ToolDeclaration)
    ensures
        r@ == plugin_decl(*t),
{
    let description: String = match &t.description {
        Some(d) => d.clone(),
        None => {
            let mut d: String = "Plugin tool '".to_owned();
            d.append(t.tool_name.as_str());
            d.append("' from '");
            d.append(t.plugin_id.as_str());
            d.append("' (latency: ");
            d.append(t.latency.as_str());
            d.append(
                "). The plugin manifest did not supply a description; ask the operator to add one for better tool selection.",
            );
            d
        },
    };
    let parameters: String = match &t.schema_json {
        Some(s) => s.clone(),
        None => "{\"type\":\"object\"}".to_owned(),
    };
    ToolDeclaration {
        function: ToolFunction { name: t.tool_name.clone(), description, parameters },
    }
}

/// Builds what the model is told of tools. A turn under the planner/executor
/// split is told of none; otherwise a tool is shown where the operator's rule
/// allows the caller's class and the caller's capabilities cover the tool's.
pub fn build_runner_tool_catalog(
    builtins: &Vec<BuiltinTool>,
    plugins: &Vec<PluginTool>,
    caller_trust: TrustLevel,
    caller_caps: &Vec<String>,
    planner_executor: bool,
) -> (r: RunnerToolView)
    ensures
        planner_executor ==> r.declarations@.len() == 0 && r.builtin_names@.len() == 0
            && r.plugin_tool_names@.len() == 0,
        !planner_executor ==> {
            let caps = texts(caller_caps@);
            let b = shown_builtins(builtins@, caller_trust.tag(), caps);
            let p = shown_plugins(plugins@, caller_trust.tag(), caps);
            &&& decl_models(r.declarations@) == builtin_decls(b) + plugin_decls(p)
            &&& texts(r.builtin_names@) == builtin_texts(b)
            &&& texts(r.plugin_tool_names@) == plugin_texts(p)
        },
        decl_models(r.declarations@).map_values(|d: DeclModel| d.name) == texts(r.builtin_names@)
            + texts(r.plugin_tool_names@),
{
    let mut declarations: Vec<ToolDeclaration> = Vec::new();
    let mut builtin_names: Vec<String> = Vec::new();
    let mut plugin_tool_names: Vec<String> = Vec::new();
    if planner_executor {
        assert(decl_models(declarations@).map_values(|d: DeclModel| d.name) =~= texts(
            builtin_names@,
        ) + texts(plugin_tool_names@));
        return RunnerToolView { declarations, builtin_names, plugin_tool_names };
    }
    let class: &'static str = caller_trust.as_str();
    let ghost caps = texts(caller_caps@);
    let mut i: usize = 0;
    assert(decl_models(declarations@) =~= builtin_decls(
        shown_builtins(builtins@.take(0), class@, caps),
    ));
    assert(texts(builtin_names@) =~= builtin_texts(
        shown_builtins(builtins@.take(0), class@, caps),
    ));
    while i < builtins.len()
        invariant
            i <= builtins.len(),
            caps == texts(caller_caps@),
            decl_models(declarations@) == builtin_decls(
                shown_builtins(builtins@.take(i as int), class@, caps),
            ),
            texts(builtin_names@) == builtin_texts(
                shown_builtins(builtins@.take(i as int), class@, caps),
            ),
        decreases builtins.len() - i,
    {
        let t: &BuiltinTool = &builtins[i];
        let ghost shown = shown_builtins(builtins@.take(i as int), class@, caps);
        let ghost decls = decl_models(declarations@);
        let ghost names = texts(builtin_names@);
        assert(builtins@.take(i + 1).drop_last() =~= builtins@.take(i as int));
        if allowed(&t.access, class) && covered(caller_caps, &t.capability_tags) {
            builtin_names.push(t.name.clone());
            declarations.push(
                ToolDeclaration {
                    function: ToolFunction {
                        name: t.name.clone(),
                        description: t.description.clone(),
                        parameters: t.schema.clone(),
                    },
                },
            );
            assert(decl_models(declarations@) =~= decls.push(builtin_decl(*t)));
            assert(texts(builtin_names@) =~= names.push(t.name@));
            assert(builtin_decls(shown.push(*t)) =~= builtin_decls(shown).push(builtin_decl(*t)));
            assert(builtin_texts(shown.push(*t)) =~= builtin_texts(shown).push(t.name@));
        }
        i += 1;
    }
    assert(builtins@.take(i as int) =~= builtins@);
    let ghost b = shown_builtins(builtins@, class@, caps);
    let mut k: usize = 0;
    assert(decl_models(declarations@) =~= builtin_decls(b) + plugin_decls(
        shown_plugins(plugins@.take(0), class@, caps),
    ));
    assert(texts(plugin_tool_names@) =~= plugin_texts(
        shown_plugins(plugins@.take(0), class@, caps),
    ));
    while k < plugins.len()
        invariant
            k <= plugins.len(),
            caps == texts(caller_caps@),
            decl_models(declarations@) == builtin_decls(b) + plugin_decls(
                shown_plugins(plugins@.take(k as int), class@, caps),
            ),
            texts(plugin_tool_names@) == plugin_texts(
                shown_plugins(plugins@.take(k as int), class@, caps),
            ),
        decreases plugins.len() - k,
    {
        let t: &PluginTool = &plugins[k];
        let ghost shown = shown_plugins(plugins@.take(k as int), class@, caps);
        let ghost decls = decl_models(declarations@);
        let ghost names = texts(plugin_tool_names@);
        assert(plugins@.take(k + 1).drop_last() =~= plugins@.take(k as int));
        if allowed(&t.access, class) && covered(caller_caps, &t.required_capabilities) {
            plugin_tool_names.push(t.tool_name.clone());
            declarations.push(declare_plugin(t));
            assert(decl_models(declarations@) =~= decls.push(plugin_decl(*t)));
            assert(texts(plugin_tool_names@) =~= names.push(t.tool_name@));
            assert(plugin_decls(shown.push(*t)) =~= plugin_decls(shown).push(plugin_decl(*t)));
            assert(plugin_texts(shown.push(*t)) =~= plugin_texts(shown).push(t.tool_name@));
            assert(decls.push(plugin_decl(*t)) =~= builtin_decls(b) + plugin_decls(
                shown.push(*t),
            ));
        }
        k += 1;
    }
    assert(plugins@.take(k as int) =~= plugins@);
    assert(decl_models(declarations@).map_values(|d: DeclModel| d.name) =~= texts(builtin_names@)
        + texts(plugin_tool_names@));
    RunnerToolView { declarations, builtin_names, plugin_tool_names }
}

/// Some tool a turn could use is flagged sensitive.
pub open spec fn touches_sensitive(builtins: Seq<BuiltinTool>, plugins: Seq<PluginTool>) -> bool {
    ||| exists|i: int| 0 <= i < builtins.len() && (#[trigger] builtins[i]).sensitive
    ||| exists|i: int| 0 <= i < plugins.len() && (#[trigger] plugins[i]).sensitive
}

/// Whether some tool a turn could use, built-in or of a plugin, is flagged
/// sensitive.
pub fn has_sensitive_tools(builtins: &Vec<BuiltinTool>, plugins: &Vec<PluginTool>) -> (r: bool)
    ensures
        r == touches_sensitive(builtins@, plugins@),
{
    let mut i: usize = 0;
    while i < builtins.len()
        invariant
            i <= builtins.len(),
            forall|j: int| 0 <= j < i ==> !(#[trigger] builtins@[j]).sensitive,
        decreases builtins.len() - i,
    {
        if builtins[i].sensitive {
            return true;
        }
        i += 1;
    }
    let mut k: usize = 0;
    while k < plugins.len()
        invariant
            k <= plugins.len(),
            forall|j: int| 0 <= j < builtins.len() ==> !(#[trigger] builtins@[j]).sensitive,
            forall|j: int| 0 <= j < k ==> !(#[trigger] plugins@[j]).sensitive,
        decreases plugins.len() - k,
    {
        if plugins[k].sensitive {
            return true;
        }
        k += 1;
    }
    false
}

/// The model is told of a built-in tool exactly where the rule and the
/// capabilities allow it; no tool is shown that the registry does not have.
pub proof fn catalog_shows_exactly_the_allowed_builtins(
    tools: Seq<BuiltinTool>,
    class: Seq<char>,
    caps: Seq<Seq<char>>,
    t: BuiltinTool,
)
    ensures
        shown_builtins(tools, class, caps).contains(t) <==> tools.contains(t) && builtin_shown(
            t,
            class,
            caps,
        ),
    decreases tools.len(),
{
    if tools.len() > 0 {
        let front = tools.drop_last();
        let rest = shown_builtins(front, class, caps);
        let all = shown_builtins(tools, class, caps);
        catalog_shows_exactly_the_allowed_builtins(front, class, caps, t);
        if tools.contains(t) {
            let i = choose|i: int| 0 <= i < tools.len() && tools[i] == t;
            if i < front.len() {
                assert(front[i] == t);
            }
        }
        if front.contains(t) {
            let i = choose|i: int| 0 <= i < front.len() && front[i] == t;
            assert(tools[i] == t);
        }
        if rest.contains(t) {
            let i = choose|i: int| 0 <= i < rest.len() && rest[i] == t;
            assert(all[i] == t);
        }
        if builtin_shown(tools.last(), class, caps) {
            assert(all[all.len() - 1] == tools.last());
            assert(tools[tools.len() - 1] == tools.last());
        }
        if all.contains(t) {
            let i = choose|i: int| 0 <= i < all.len() && all[i] == t;
            if i < rest.len() {
                assert(rest[i] == t);
            } else {
                assert(tools[tools.len() - 1] == t);
            }
        }
    }
}

/// The model is told of a plugin tool exactly where the rule and the
/// capabilities allow it; no tool is shown that the registry does not have.
pub proof fn catalog_shows_exactly_the_allowed_plugins(
    tools: Seq<PluginTool>,
    class: Seq<char>,
    caps: Seq<Seq<char>>,
    t: PluginTool,
)
    ensures
        shown_plugins(tools, class, caps).contains(t) <==> tools.contains(t) && plugin_shown(
            t,
            class,
            caps,
        ),
    decreases tools.len(),
{
    if tools.len() > 0 {
        let front = tools.drop_last();
        let rest = shown_plugins(front, class, caps);
        let all = shown_plugins(tools, class, caps);
        catalog_shows_exactly_the_allowed_plugins(front, class, caps, t);
        if tools.contains(t) {
            let i = choose|i: int| 0 <= i < tools.len() && tools[i] == t;
            if i < front.len() {
                assert(front[i] == t);
            }
        }
        if front.contains(t) {
            let i = choose|i: int| 0 <= i < front.len() && front[i] == t;
            assert(tools[i] == t);
        }
        if rest.contains(t) {
            let i = choose|i: int| 0 <= i < rest.len() && rest[i] == t;
            assert(all[i] == t);
        }
        if plugin_shown(tools.last(), class, caps) {
            assert(all[all.len() - 1] == tools.last());
            assert(tools[tools.len() - 1] == tools.last());
        }
        if all.contains(t) {
            let i = choose|i: int| 0 <= i < all.len() && all[i] == t;
            if i < rest.len() {
                assert(rest[i] == t);
            } else {
                assert(tools[tools.len() - 1] == t);
            }
        }
    }
}

/// Each of the capabilities is among those that are held.
pub open spec fn all_held(caps: Seq<String>, required: Seq<String>) -> bool {
    forall|i: int| 0 <= i < required.len() ==> held(caps, #[trigger] required[i])
}

/// The capability is among those that are held.
pub open spec fn held(caps: Seq<String>, wanted: String) -> bool {
    exists|k: int| 0 <= k < caps.len() && (#[trigger] caps[k])@ == wanted@
}

/// Without the wildcard, a built-in tool that is shown asks for nothing that the caller
/// lacks, be it the first of its capabilities or the last; and one that no rule stands
/// against and that asks for nothing the caller lacks is shown.
pub proof fn a_shown_builtin_asks_for_nothing_the_caller_lacks(
    tools: Seq<BuiltinTool>,
    trust: TrustLevel,
    caps: Seq<String>,
    t: BuiltinTool,
    i: int,
)
    requires
        forall|k: int| 0 <= k < caps.len() ==> (#[trigger] caps[k])@ != "*"@,
    ensures
        shown_builtins(tools, trust.tag(), texts(caps)).contains(t) ==> tools.contains(t),
        shown_builtins(tools, trust.tag(), texts(caps)).contains(t) && 0 <= i
            < t.capability_tags@.len() ==> exists|k: int|
            0 <= k < caps.len() && (#[trigger] caps[k])@ == t.capability_tags@[i]@,
        tools.contains(t) && t.access is Missing && all_held(caps, t.capability_tags@)
            ==> shown_builtins(tools, trust.tag(), texts(caps)).contains(t),
{
    catalog_shows_exactly_the_allowed_builtins(tools, trust.tag(), texts(caps), t);
    lemma_held(caps, t.capability_tags@, i);
    if all_held(caps, t.capability_tags@) {
        lemma_all_held(caps, t.capability_tags@);
    }
}

/// Without the wildcard, a plugin's tool that is shown asks for nothing that the caller
/// lacks, be it the first of its capabilities or the last; and one that no rule stands
/// against and that asks for nothing the caller lacks is shown.
pub proof fn a_shown_plugin_tool_asks_for_nothing_the_caller_lacks(
    tools: Seq<PluginTool>,
    trust: TrustLevel,
    caps: Seq<String>,
    t: PluginTool,
    i: int,
)
    requires
        forall|k: int| 0 <= k < caps.len() ==> (#[trigger] caps[k])@ != "*"@,
    ensures
        shown_plugins(tools, trust.tag(), texts(caps)).contains(t) ==> tools.contains(t),
        shown_plugins(tools, trust.tag(), texts(caps)).contains(t) && 0 <= i
            < t.required_capabilities@.len() ==> exists|k: int|
            0 <= k < caps.len() && (#[trigger] caps[k])@ == t.required_capabilities@[i]@,
        tools.contains(t) && t.access is Missing && all_held(caps, t.required_capabilities@)
            ==> shown_plugins(tools, trust.tag(), texts(caps)).contains(t),
{
    catalog_shows_exactly_the_allowed_plugins(tools, trust.tag(), texts(caps), t);
    lemma_held(caps, t.required_capabilities@, i);
    if all_held(caps, t.required_capabilities@) {
        lemma_all_held(caps, t.required_capabilities@);
    }
}

proof fn lemma_held(caps: Seq<String>, required: Seq<String>, i: int)
    requires
        forall|k: int| 0 <= k < caps.len() ==> (#[trigger] caps[k])@ != "*"@,
    ensures
        caps_cover(texts(caps), texts(required)) && 0 <= i < required.len() ==> exists|k: int|
            0 <= k < caps.len() && (#[trigger] caps[k])@ == required[i]@,
{
    let have = texts(caps);
    let wanted = texts(required);
    if caps_cover(have, wanted) && 0 <= i < required.len() {
        if have.contains("*"@) {
            let k = choose|k: int| 0 <= k < have.len() && have[k] == "*"@;
            assert(caps[k]@ == "*"@);
        }
        assert(have.contains(wanted[i]));
        let k = choose|k: int| 0 <= k < have.len() && have[k] == wanted[i];
        assert(caps[k]@ == required[i]@);
    }
}

proof fn lemma_all_held(caps: Seq<String>, required: Seq<String>)
    requires
        all_held(caps, required),
    ensures
        caps_cover(texts(caps), texts(required)),
{
    let have = texts(caps);
    let wanted = texts(required);
    assert forall|i: int| 0 <= i < wanted.len() implies have.contains(#[trigger] wanted[i]) by {
        assert(held(caps, required[i]));
        let k = choose|k: int| 0 <= k < caps.len() && (#[trigger] caps[k])@ == required[i]@;
        assert(have[k] == wanted[i]);
    }
}

/// The operator's rule has the last word: a tool whose rule could not be read, is switched
/// off, is removed, or does not name the caller's class is shown to nobody of that class,
/// whatever the caller's capabilities.
pub proof fn the_operators_rule_has_the_last_word(
    builtins: Seq<BuiltinTool>,
    plugins: Seq<PluginTool>,
    trust: TrustLevel,
    caps: Seq<Seq<char>>,
    b: BuiltinTool,
    p: PluginTool,
)
    ensures
        (b.access is Failed || (b.access matches AccessLookup::Row(row) && (!row.enabled
            || row.removed_at is Some || (forall|i: int|
            0 <= i < row.allowed_classes@.len() ==> (#[trigger] row.allowed_classes@[i])@
                != trust.tag())))) ==> !shown_builtins(builtins, trust.tag(), caps).contains(b),
        (p.access is Failed || (p.access matches AccessLookup::Row(row) && (!row.enabled
            || row.removed_at is Some || (forall|i: int|
            0 <= i < row.allowed_classes@.len() ==> (#[trigger] row.allowed_classes@[i])@
                != trust.tag())))) ==> !shown_plugins(plugins, trust.tag(), caps).contains(p),
{
    catalog_shows_exactly_the_allowed_builtins(builtins, trust.tag(), caps, b);
    catalog_shows_exactly_the_allowed_plugins(plugins, trust.tag(), caps, p);
}

/// A rule that stands and names the caller's class leaves the wildcard's holder every
/// tool, and any caller a tool that asks for nothing.
pub proof fn an_allowed_tool_is_shown(
    builtins: Seq<BuiltinTool>,
    plugins: Seq<PluginTool>,
    trust: TrustLevel,
    caps: Seq<String>,
    b: BuiltinTool,
    p: PluginTool,
    i: int,
    k: int,
)
    ensures
        builtins.contains(b) && (b.access is Missing || (b.access matches AccessLookup::Row(row)
            && row.enabled && row.removed_at is None && 0 <= i < row.allowed_classes@.len()
            && row.allowed_classes@[i]@ == trust.tag())) && ((0 <= k < caps.len() && caps[k]@
            == "*"@) || b.capability_tags@.len() == 0) ==> shown_builtins(
            builtins,
            trust.tag(),
            texts(caps),
        ).contains(b),
        plugins.contains(p) && (p.access is Missing || (p.access matches AccessLookup::Row(row)
            && row.enabled && row.removed_at is None && 0 <= i < row.allowed_classes@.len()
            && row.allowed_classes@[i]@ == trust.tag())) && ((0 <= k < caps.len() && caps[k]@
            == "*"@) || p.required_capabilities@.len() == 0) ==> shown_plugins(
            plugins,
            trust.tag(),
            texts(caps),
        ).contains(p),
{
    catalog_shows_exactly_the_allowed_builtins(builtins, trust.tag(), texts(caps), b);
    catalog_shows_exactly_the_allowed_plugins(plugins, trust.tag(), texts(caps), p);
    if 0 <= k < caps.len() {
        assert(texts(caps)[k] == caps[k]@);
    }
    if let AccessLookup::Row(row) = b.access {
        if 0 <= i < row.allowed_classes@.len() {
            assert(texts(row.allowed_classes@)[i] == row.allowed_classes@[i]@);
        }
    }
    if let AccessLookup::Row(row) = p.access {
        if 0 <= i < row.allowed_classes@.len() {
            assert(texts(row.allowed_classes@)[i] == row.allowed_classes@[i]@);
        }
    }
}

/// A tool is declared under its own name, with its own description and schema where it has
/// them.
pub proof fn tools_are_declared_as_they_are(b: BuiltinTool, p: PluginTool)
    ensures
        builtin_decl(b).name == b.name@,
        builtin_decl(b).description == b.description@,
        builtin_decl(b).parameters == b.schema@,
        plugin_decl(p).name == p.tool_name@,
        p.description matches Some(d) ==> plugin_decl(p).description == d@,
        p.schema_json matches Some(s) ==> plugin_decl(p).parameters == s@,
        p.schema_json is None ==> plugin_decl(p).parameters == "{\"type\":\"object\"}"@,
{
}

/// One sensitive tool, built-in or of a plugin, makes a turn touch sensitive data, and
/// nothing else does.
pub proof fn one_sensitive_tool_is_enough(
    builtins: Seq<BuiltinTool>,
    plugins: Seq<PluginTool>,
    i: int,
)
    ensures
        0 <= i < builtins.len() && builtins[i].sensitive ==> touches_sensitive(builtins, plugins),
        0 <= i < plugins.len() && plugins[i].sensitive ==> touches_sensitive(builtins, plugins),
        (forall|j: int| 0 <= j < builtins.len() ==> !(#[trigger] builtins[j]).sensitive) && (
        forall|j: int| 0 <= j < plugins.len() ==> !(#[trigger] plugins[j]).sensitive)
            ==> !touches_sensitive(builtins, plugins),
{
}

} // verus!
