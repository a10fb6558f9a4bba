//! What the two language servers share: how their commands, environments and
//! configurations follow from the user's settings.
use vstd::prelude::*;
use std::collections::BTreeMap;
use crate::json::{Json, JsonValue, empty_object, member};
use crate::str_map::{StrMap, entries_map, sorted_keys};
use crate::path::{join_path, spec_join};
use crate::text::{ascii_lowercase, clone_pairs, clone_strings, str_eq};
use vstd::utf8::encode_utf8;

verus! {

broadcast use vstd::laws_cmp::group_laws_cmp;

pub const OXLINT_SERVER_ID: &'static str = "oxlint";

pub const OXFMT_SERVER_ID: &'static str = "oxfmt";

/// The `binary` part of a language server's settings.
pub struct CommandSettings {
    /// The executable to run in place of the one that would be found.
    pub path: Option<String>,
    pub arguments: Option<Vec<String>>,
    /// Environment variables to set, in the order in which they were read.
    pub env: Option<Vec<(String, String)>>,
}

/// The settings of one language server.
pub struct LspSettings {
    pub binary: Option<CommandSettings>,
    pub initialization_options: Option<Json>,
    pub settings: Option<Json>,
}

impl Default for LspSettings {
    fn default() -> (r: Self)
        ensures
            r.binary is None,
            r.initialization_options is None,
            r.settings is None,
    {
        LspSettings { binary: None, initialization_options: None, settings: None }
    }
}

/// A command that starts a language server.
pub struct Command {
    pub command: String,
    pub args: Vec<String>,
    pub env: Vec<(String, String)>,
}

/// Whether the settings name a complete command of their own.
pub open spec fn has_custom_path(settings: &LspSettings) -> bool {
    settings.binary matches Some(b) && b.path is Some
}

/// The tool's language server, for the worktrees it has started in.
pub trait ZedLspSupport {
    /// For each worktree, whether its running server came from Vite+.
    spec fn source_map(&self) -> Map<u64, bool>;

    spec fn spec_package_name(&self) -> Seq<char>;

    fn package_name(&self) -> (r: &'static str)
        ensures
            r@ == self.spec_package_name(),
    ;

    fn sources(&self) -> (r: &BTreeMap<u64, bool>)
        ensures
            r@ == self.source_map(),
    ;

    fn sources_mut(&mut self) -> (r: &mut BTreeMap<u64, bool>)
        ensures
            r@ == old(self).source_map(),
            final(self).source_map() == final(r)@,
            final(self).spec_package_name() == old(self).spec_package_name(),
    ;

    /// Whether the server for `worktree_id` comes from Vite+, where that is
    /// known without a new look at the worktree: a custom command never does;
    /// otherwise the recorded choice of the running server decides.
    fn known_source(&self, settings: &LspSettings, worktree_id: u64) -> (r: Option<bool>)
        ensures
            has_custom_path(settings) ==> r == Some(false),
            !has_custom_path(settings) ==> r == (if self.source_map().contains_key(worktree_id) {
                Some(self.source_map()[worktree_id])
            } else {
                None
            }),
    {
        let custom = match &settings.binary {
            Some(binary) => binary.path.is_some(),
            None => false,
        };
        if custom {
            return Some(false);
        }
        match self.sources().get(&worktree_id) {
            Some(v) => Some(*v),
            None => None,
        }
    }

    /// The first step of starting the server for a worktree: the worktree's
    /// recorded choice is dropped, so that a restart looks again; a custom
    /// command is then the server, and is recorded as not from Vite+;
    /// otherwise the server's environment is handed on to find a binary.
    fn begin_command(
        &mut self,
        worktree_id: u64,
        settings: &LspSettings,
        shell: Vec<(String, String)>,
        root: &str,
    ) -> (r: Result<Launch, String>)
        ensures
            final(self).spec_package_name() == old(self).spec_package_name(),
            r is Err <==> (settings.binary matches Some(b) && b.path is None && b.arguments is Some),
            r matches Err(e) ==> e@ == arguments_without_path_message(),
            r matches Ok(Launch::Custom(_)) <==> has_custom_path(settings),
            r matches Ok(Launch::Custom(c)) ==> {
                let b = settings.binary->Some_0;
                &&& c.command@ == b.path->Some_0@
                &&& c.args@ == (match b.arguments {
                    Some(a) => a@,
                    None => Seq::<String>::empty(),
                })
                &&& sorted_keys(c.env@)
                &&& env_view(entries_map(c.env@)) == spec_server_env(
                    shell@,
                    env_overrides(settings),
                    root@,
                    old(self).spec_package_name(),
                )
            },
            r matches Ok(Launch::Standalone(env)) ==> {
                &&& sorted_keys(env@)
                &&& env_view(entries_map(env@)) == spec_server_env(
                    shell@,
                    env_overrides(settings),
                    root@,
                    old(self).spec_package_name(),
                )
            },
            has_custom_path(settings) ==> final(self).source_map() == old(self).source_map().remove(
                worktree_id,
            ).insert(worktree_id, false),
            !has_custom_path(settings) ==> final(self).source_map() == old(self).source_map().remove(
                worktree_id,
            ),
    {
        self.sources_mut().remove(&worktree_id);
        let env = server_env(settings, shell, root, self.package_name());
        match custom_command(settings, clone_pairs(&env)) {
            Ok(Some(command)) => {
                self.sources_mut().insert(worktree_id, false);
                Ok(Launch::Custom(command))
            },
            Ok(None) => Ok(Launch::Standalone(env)),
            Err(e) => Err(e),
        }
    }

    /// The last step of starting a standalone server: it runs the Node entry
    /// of the tool, and is recorded as not from Vite+.
    fn finish_command(
        &mut self,
        worktree_id: u64,
        node: String,
        entry: String,
        env: Vec<(String, String)>,
    ) -> (c: Command)
        ensures
            final(self).spec_package_name() == old(self).spec_package_name(),
            final(self).source_map() == old(self).source_map().insert(worktree_id, false),
            c.command == node,
            c.args@.len() == 2,
            c.args@[0] == entry,
            c.args@[1]@ == "--lsp"@,
            c.env == env,
    {
        self.sources_mut().insert(worktree_id, false);
        node_server_command(node, entry, env)
    }
}

/// How a server is started, once the settings are read.
pub enum Launch {
    /// The command that the settings give in full.
    Custom(Command),
    /// A binary is still to be found; the server's environment.
    Standalone(Vec<(String, String)>),
}

/// The message for `binary.arguments` given without `binary.path`.
pub open spec fn arguments_without_path_message() -> Seq<char> {
    "When supplying binary.arguments, binary.path must be supplied."@
}

/// The command that the settings give in full, if they give one: `binary.path`
/// with `binary.arguments` (none where absent), run with `env`. Arguments
/// without a path are an error; neither of them, no command.
pub fn custom_command(settings: &LspSettings, env: Vec<(String, String)>) -> (r: Result<
    Option<Command>,
    String,
>)
    ensures
        r is Err <==> (settings.binary matches Some(b) && b.path is None && b.arguments is Some),
        r matches Err(e) ==> e@ == arguments_without_path_message(),
        r matches Ok(Some(c)) <==> has_custom_path(settings),
        r matches Ok(Some(c)) ==> {
            let b = settings.binary->Some_0;
            &&& c.command@ == b.path->Some_0@
            &&& c.args@ == (match b.arguments {
                Some(a) => a@,
                None => Seq::<String>::empty(),
            })
            &&& c.env == env
        },
{
    let binary = match &settings.binary {
        Some(binary) => binary,
        None => return Ok(None),
    };
    match (&binary.path, &binary.arguments) {
        (Some(path), args) => {
            let args = match args {
                Some(a) => clone_strings(a),
                None => Vec::new(),
            };
            Ok(Some(Command { command: path.clone(), args, env }))
        },
        (None, None) => Ok(None),
        _ => Err("When supplying binary.arguments, binary.path must be supplied.".to_owned()),
    }
}

/// The key under which an environment variable is kept: any spelling of
/// `PATH` that differs only in ASCII case becomes `PATH`.
pub open spec fn env_key(k: Seq<char>) -> Seq<char> {
    if ascii_lowercase(k) == ascii_lowercase("PATH"@) {
        "PATH"@
    } else {
        k
    }
}

/// The variables that `vars` set, each read in turn, a later one in place of
/// an earlier one with the same key.
pub open spec fn merged_env(vars: Seq<(String, String)>) -> Map<Seq<char>, Seq<char>>
    decreases vars.len(),
{
    if vars.len() == 0 {
        Map::empty()
    } else {
        merged_env(vars.drop_last()).insert(env_key(vars.last().0@), vars.last().1@)
    }
}

/// Whether a path is absolute in the sense of WASI, which writes Unix paths
/// even on a Windows host: it starts with `/` or `\\`, or has a drive colon as
/// its second byte.
pub open spec fn wasi_absolute(bytes: Seq<u8>) -> bool {
    (bytes.len() > 0 && (bytes[0] == 47u8 || bytes[0] == 92u8)) || (bytes.len() > 1 && bytes[1]
        == 58u8)
}

pub fn is_wasi_absolute(path: &str) -> (r: bool)
    ensures
        r == wasi_absolute(encode_utf8(path@)),
{
    let b = path.as_bytes();
    (b.len() > 0 && (b[0] == 47u8 || b[0] == 92u8)) || (b.len() > 1 && b[1] == 58u8)
}

pub open spec fn tsgolint_key() -> Seq<char> {
    "OXLINT_TSGOLINT_PATH"@
}

/// The environment of a server: the shell's variables, then the overrides of
/// the settings, with `PATH` under one spelling; for Oxlint, a relative
/// `OXLINT_TSGOLINT_PATH` is taken from the worktree root.
pub open spec fn spec_server_env(
    shell: Seq<(String, String)>,
    overrides: Seq<(String, String)>,
    root: Seq<char>,
    tool: Seq<char>,
) -> Map<Seq<char>, Seq<char>> {
    let m = merged_env(shell + overrides);
    let k = tsgolint_key();
    if tool == "oxlint"@ && m.contains_key(k) && !wasi_absolute(encode_utf8(m[k])) {
        m.insert(k, root + "/"@ + m[k])
    } else {
        m
    }
}

/// The environment overrides of the settings, in the order in which they
/// were read.
pub open spec fn env_overrides(settings: &LspSettings) -> Seq<(String, String)> {
    match settings.binary {
        Some(b) => match b.env {
            Some(e) => e@,
            None => Seq::empty(),
        },
        None => Seq::empty(),
    }
}

/// The characters of the keys and values of a map of strings.
pub open spec fn env_view(m: Map<Seq<char>, String>) -> Map<Seq<char>, Seq<char>> {
    Map::new(|k: Seq<char>| m.contains_key(k), |k: Seq<char>| m[k]@)
}

fn add_vars(env: &mut StrMap<String>, vars: &Vec<(String, String)>, Ghost(before): Ghost<Seq<(String, String)>>)
    requires
        env_view(old(env)@) == merged_env(before),
    ensures
        env_view(final(env)@) == merged_env(before + vars@),
{
    let mut i: usize = 0;
    assert(before + vars@.take(0) =~= before);
    while i < vars.len()
        invariant
            i <= vars@.len(),
            env_view(env@) == merged_env(before + vars@.take(i as int)),
        decreases vars@.len() - i,
    {
        let (k, v) = (&vars[i].0, &vars[i].1);
        let key = if k.as_str().eq_ignore_ascii_case("PATH") {
            "PATH".to_owned()
        } else {
            k.clone()
        };
        let ghost old_env = env@;
        env.insert(key, v.clone());
        proof {
            let s = before + vars@.take(i + 1);
            assert(s.drop_last() =~= before + vars@.take(i as int));
            assert(s.last() == vars@[i as int]);
            assert(env_view(env@) =~= env_view(old_env).insert(env_key(k@), v@));
        }
        i = i + 1;
    }
    assert(vars@.take(vars@.len() as int) =~= vars@);
}

/// The environment in which the server for `tool` runs, sorted by key.
pub fn server_env(settings: &LspSettings, shell: Vec<(String, String)>, root: &str, tool: &str) -> (r:
    Vec<(String, String)>)
    ensures
        sorted_keys(r@),
        env_view(entries_map(r@)) == spec_server_env(shell@, env_overrides(settings), root@, tool@),
{
    let mut env: StrMap<String> = StrMap::new();
    assert(env_view(env@) =~= merged_env(Seq::empty()));
    add_vars(&mut env, &shell, Ghost(Seq::empty()));
    assert(Seq::<(String, String)>::empty() + shell@ =~= shell@);
    match &settings.binary {
        Some(b) => match &b.env {
            Some(e) => add_vars(&mut env, e, Ghost(shell@)),
            None => assert(shell@ + Seq::empty() =~= shell@),
        },
        None => assert(shell@ + Seq::empty() =~= shell@),
    }
    if str_eq(tool, OXLINT_SERVER_ID) {
        let ghost m = env@;
        let update = match env.get("OXLINT_TSGOLINT_PATH") {
            Some(path) => if !is_wasi_absolute(path.as_str()) {
                let mut joined = root.to_owned();
                joined.append("/");
                joined.append(path.as_str());
                Some(joined)
            } else {
                None
            },
            None => None,
        };
        match update {
            Some(joined) => {
                env.insert("OXLINT_TSGOLINT_PATH".to_owned(), joined);
                assert(env_view(env@) =~= env_view(m).insert(tsgolint_key(), root@ + "/"@ + env_view(m)[tsgolint_key()]));
            },
            None => {},
        }
    }
    env.into_entries()
}

/// The content of an optional JSON value.
pub open spec fn opt_view(o: Option<Json>) -> Option<JsonValue> {
    match o {
        Some(j) => Some(j@),
        None => None,
    }
}

/// The configuration that the user gave for the tool: the `settings` member
/// of the initialization options, with the members of the workspace settings
/// in place of those of the same name where both are objects; otherwise the
/// workspace settings where there are any.
pub open spec fn spec_configured_settings(
    init: Option<JsonValue>,
    workspace: Option<JsonValue>,
) -> Option<JsonValue> {
    let base = match init {
        Some(v) => member(v, "settings"@),
        None => None,
    };
    match workspace {
        None => base,
        Some(w) => match (base, w) {
            (Some(JsonValue::Object(t)), JsonValue::Object(o)) => Some(
                JsonValue::Object(t.union_prefer_right(o)),
            ),
            _ => Some(w),
        },
    }
}

pub fn configured_settings(settings: &LspSettings) -> (r: Option<Json>)
    ensures
        opt_view(r) == spec_configured_settings(
            opt_view(settings.initialization_options),
            opt_view(settings.settings),
        ),
{
    let mut config = match &settings.initialization_options {
        Some(v) => match v.get("settings") {
            Some(s) => Some(s.deep_clone()),
            None => None,
        },
        None => None,
    };
    // Zed's workspace settings override the matching initialization settings.
    match &settings.settings {
        Some(workspace) => {
            let merge = match &config {
                Some(c) => c.is_object() && workspace.is_object(),
                None => false,
            };
            if merge {
                let mut target = config.unwrap();
                target.extend_object(workspace);
                config = Some(target);
            } else {
                config = Some(workspace.deep_clone());
            }
        },
        None => {},
    }
    config
}

/// The member that turns off nested configuration files for the tool.
pub open spec fn nested_config_key(tool: Seq<char>) -> Seq<char> {
    if tool == "oxlint"@ {
        "disableNestedConfig"@
    } else {
        "fmt.disableNestedConfig"@
    }
}

/// `settings` made an object (an empty one where it was not an object), with
/// the tool's nested-configuration switch set to `true`.
pub open spec fn spec_force_nested_config(settings: JsonValue, tool: Seq<char>) -> JsonValue {
    let base = match settings {
        JsonValue::Object(m) => m,
        _ => Map::empty(),
    };
    JsonValue::Object(base.insert(nested_config_key(tool), JsonValue::Bool(true)))
}

pub fn force_nested_config(settings: &mut Json, tool: &str)
    ensures
        final(settings)@ == spec_force_nested_config(old(settings)@, tool@),
{
    if !settings.is_object() {
        *settings = Json::new_object();
    }
    let key = if str_eq(tool, OXLINT_SERVER_ID) {
        "disableNestedConfig".to_owned()
    } else {
        "fmt.disableNestedConfig".to_owned()
    };
    settings.set_member(key, Json::from_bool(true));
}

/// The configuration without the members that choose the binary.
pub open spec fn without_source_keys(config: Option<JsonValue>) -> Option<JsonValue> {
    match config {
        Some(JsonValue::Object(m)) => Some(JsonValue::Object(m.remove("binarySource"@).remove("vpPath"@))),
        _ => config,
    }
}

/// The configuration sent to the server: the user's, without the members
/// that choose the binary, and, for a Vite+ server, with nested configuration
/// turned off.
pub open spec fn spec_workspace_configuration(
    init: Option<JsonValue>,
    workspace: Option<JsonValue>,
    tool: Seq<char>,
    vite_plus: bool,
) -> Option<JsonValue> {
    let config = without_source_keys(spec_configured_settings(init, workspace));
    if vite_plus {
        Some(spec_force_nested_config(
            match config {
                Some(v) => v,
                None => empty_object(),
            },
            tool,
        ))
    } else {
        config
    }
}

pub fn workspace_configuration(settings: &LspSettings, tool: &str, vite_plus: bool) -> (r: Option<Json>)
    ensures
        opt_view(r) == spec_workspace_configuration(
            opt_view(settings.initialization_options),
            opt_view(settings.settings),
            tool@,
            vite_plus,
        ),
{
    let mut config = configured_settings(settings);
    match &mut config {
        Some(c) => {
            if c.is_object() {
                c.remove_member("binarySource");
                c.remove_member("vpPath");
            }
        },
        None => {},
    }
    if vite_plus {
        let mut c = match config {
            Some(c) => c,
            None => Json::new_object(),
        };
        force_nested_config(&mut c, tool);
        config = Some(c);
    }
    config
}

/// The initialization options sent to the server: the user's, with the
/// workspace configuration as their `settings` member where there is one
/// (the options made an object where they were not one).
pub open spec fn spec_initialization_options(
    init: Option<JsonValue>,
    workspace: Option<JsonValue>,
    tool: Seq<char>,
    vite_plus: bool,
) -> Option<JsonValue> {
    match spec_workspace_configuration(init, workspace, tool, vite_plus) {
        None => init,
        Some(config) => {
            let base = match init {
                Some(JsonValue::Object(m)) => m,
                _ => Map::empty(),
            };
            Some(JsonValue::Object(base.insert("settings"@, config)))
        },
    }
}

pub fn initialization_options(settings: &LspSettings, tool: &str, vite_plus: bool) -> (r: Option<
    Json,
>)
    ensures
        opt_view(r) == spec_initialization_options(
            opt_view(settings.initialization_options),
            opt_view(settings.settings),
            tool@,
            vite_plus,
        ),
{
    let mut options = match &settings.initialization_options {
        Some(v) => Some(v.deep_clone()),
        None => None,
    };
    match workspace_configuration(settings, tool, vite_plus) {
        Some(config) => {
            let mut o = match options {
                Some(o) => o,
                None => Json::new_object(),
            };
            if !o.is_object() {
                o = Json::new_object();
            }
            o.set_member("settings".to_owned(), config);
            options = Some(o);
        },
        None => {},
    }
    options
}

/// The command that runs a Node entry of the tool as a language server.
pub fn node_server_command(node: String, entry: String, env: Vec<(String, String)>) -> (c: Command)
    ensures
        c.command == node,
        c.args@.len() == 2,
        c.args@[0] == entry,
        c.args@[1]@ == "--lsp"@,
        c.env == env,
{
    let mut args: Vec<String> = Vec::new();
    args.push(entry);
    args.push("--lsp".to_owned());
    Command { command: node, args, env }
}

/// Where the extension's own installation of `package` keeps its entry:
/// `node_modules/<package>/bin/<package>` under `dir`.
pub open spec fn spec_managed_entry(dir: Seq<char>, package: Seq<char>) -> Seq<char> {
    spec_join(spec_join(spec_join(spec_join(dir, "node_modules"@), package), "bin"@), package)
}

pub fn managed_entry(dir: &str, package: &str) -> (r: String)
    ensures
        r@ == spec_managed_entry(dir@, package@),
{
    let a = join_path(dir, "node_modules");
    let b = join_path(a.as_str(), package);
    let c = join_path(b.as_str(), "bin");
    join_path(c.as_str(), package)
}

/// Whether the extension's installation of a package must be brought to the
/// latest version: it is missing, or has another version.
pub fn needs_install(installed: Option<&str>, latest: &str) -> (r: bool)
    ensures
        r == !(installed matches Some(v) && v@ == latest@),
{
    match installed {
        Some(v) => !str_eq(v, latest),
        None => true,
    }
}

/// The Vite+ subcommand that serves a tool: `lint` for Oxlint, `fmt` otherwise.
pub fn vite_plus_subcommand(package: &str) -> (r: &'static str)
    ensures
        r@ == (if package@ == "oxlint"@ {
            "lint"@
        } else {
            "fmt"@
        }),
{
    if str_eq(package, OXLINT_SERVER_ID) {
        "lint"
    } else {
        "fmt"
    }
}

/// Variables read after others take their place: the environment that two
/// lists of variables set, one after the other, is that of the first with the
/// second's variables in place of those of the same key.
pub proof fn lemma_later_variables_win(first: Seq<(String, String)>, second: Seq<(String, String)>)
    ensures
        merged_env(first + second) == merged_env(first).union_prefer_right(merged_env(second)),
    decreases second.len(),
{
    if second.len() == 0 {
        assert(first + second =~= first);
        assert(merged_env(first).union_prefer_right(merged_env(second)) =~= merged_env(first));
    } else {
        let s = first + second;
        assert(s.drop_last() =~= first + second.drop_last());
        assert(s.last() == second.last());
        lemma_later_variables_win(first, second.drop_last());
        assert(merged_env(s) =~= merged_env(first).union_prefer_right(merged_env(second)));
    }
}

/// One variable sets one key: its own, but for any ASCII-case spelling of
/// `PATH`, which is set as `PATH`; with `lemma_later_variables_win` this
/// fixes the environment of any list of variables.
pub proof fn lemma_one_variable_sets_its_key(var: (String, String))
    ensures
        ({
            let k = if ascii_lowercase(var.0@) == ascii_lowercase("PATH"@) {
                "PATH"@
            } else {
                var.0@
            };
            merged_env(seq![var]) == Map::<Seq<char>, Seq<char>>::empty().insert(k, var.1@)
        }),
{
    let s = seq![var];
    assert(s.drop_last() =~= Seq::<(String, String)>::empty());
    assert(s.last() == var);
    assert(merged_env(s.drop_last()) == Map::<Seq<char>, Seq<char>>::empty());
    assert(merged_env(s) == merged_env(s.drop_last()).insert(env_key(var.0@), var.1@));
}

/// `PATH` has one spelling in an environment: no other key equals it but for
/// ASCII case.
pub proof fn lemma_path_has_one_spelling(vars: Seq<(String, String)>, k: Seq<char>)
    requires
        merged_env(vars).contains_key(k),
        ascii_lowercase(k) == ascii_lowercase("PATH"@),
    ensures
        k == "PATH"@,
    decreases vars.len(),
{
    if vars.len() > 0 {
        let last = env_key(vars.last().0@);
        if k != last {
            lemma_path_has_one_spelling(vars.drop_last(), k);
        }
    }
}

/// The settings sent at initialization carry the workspace configuration:
/// where there is one, it is their `settings` member, and their other members
/// are the user's initialization options.
pub proof fn lemma_initialization_carries_configuration(
    init: Option<JsonValue>,
    workspace: Option<JsonValue>,
    tool: Seq<char>,
    vite_plus: bool,
    k: Seq<char>,
)
    ensures
        spec_workspace_configuration(init, workspace, tool, vite_plus) matches Some(config) ==> {
            let options = spec_initialization_options(init, workspace, tool, vite_plus)->Some_0;
            &&& spec_initialization_options(init, workspace, tool, vite_plus) is Some
            &&& member(options, "settings"@) == Some(config)
            &&& (k != "settings"@ && init matches Some(JsonValue::Object(m))) ==> member(options, k)
                == member(init->Some_0, k)
        },
        spec_workspace_configuration(init, workspace, tool, vite_plus) is None ==> spec_initialization_options(
            init,
            workspace,
            tool,
            vite_plus,
        ) == init,
{
}

/// The members that choose the binary never reach the server: neither
/// `binarySource` nor `vpPath` is a member of the workspace configuration, nor
/// of the `settings` sent at initialization.
pub proof fn lemma_source_keys_stay_with_the_extension(
    init: Option<JsonValue>,
    workspace: Option<JsonValue>,
    tool: Seq<char>,
    vite_plus: bool,
)
    ensures
        spec_workspace_configuration(init, workspace, tool, vite_plus) matches Some(config) ==> {
            &&& member(config, "binarySource"@) is None
            &&& member(config, "vpPath"@) is None
        },
{
    reveal_strlit("binarySource");
    reveal_strlit("vpPath");
    reveal_strlit("disableNestedConfig");
    reveal_strlit("fmt.disableNestedConfig");
    let c = without_source_keys(spec_configured_settings(init, workspace));
    assert(c matches Some(v) ==> member(v, "binarySource"@) is None && member(v, "vpPath"@) is None);
    if vite_plus {
        let key = nested_config_key(tool);
        assert(key != "binarySource"@ && key != "vpPath"@) by {
            assert(key.len() != "binarySource"@.len());
            assert(key.len() != "vpPath"@.len());
        }
    }
}

/// A Vite+ server always gets nested configuration turned off, at
/// initialization and in the workspace configuration, whatever the user set.
pub proof fn lemma_vite_plus_turns_off_nested_config(
    init: Option<JsonValue>,
    workspace: Option<JsonValue>,
    tool: Seq<char>,
)
    ensures
        ({
            let config = spec_workspace_configuration(init, workspace, tool, true);
            let options = spec_initialization_options(init, workspace, tool, true);
            &&& config is Some
            &&& member(config->Some_0, nested_config_key(tool)) == Some(JsonValue::Bool(true))
            &&& tool == "oxlint"@ ==> member(config->Some_0, "disableNestedConfig"@) == Some(
                JsonValue::Bool(true),
            )
            &&& tool != "oxlint"@ ==> member(config->Some_0, "fmt.disableNestedConfig"@) == Some(
                JsonValue::Bool(true),
            )
            &&& member(options->Some_0, "settings"@) == config
        }),
{
}

/// A standalone server gets the user's configuration as it stands, but for
/// the members that choose the binary.
pub proof fn lemma_standalone_keeps_user_values(
    init: Option<JsonValue>,
    workspace: Option<JsonValue>,
    tool: Seq<char>,
    k: Seq<char>,
)
    requires
        k != "binarySource"@,
        k != "vpPath"@,
    ensures
        spec_workspace_configuration(init, workspace, tool, false) is Some
            <==> spec_configured_settings(init, workspace) is Some,
        spec_configured_settings(init, workspace) matches Some(c) ==> member(
            spec_workspace_configuration(init, workspace, tool, false)->Some_0,
            k,
        ) == member(c, k),
{
}

/// The workspace settings take precedence: where both they and the
/// initialization settings are objects, a member of the workspace settings is
/// the member of the configuration, and a member of the initialization settings
/// stays where the workspace settings do not have it.
pub proof fn lemma_workspace_settings_override(
    init: Option<JsonValue>,
    workspace: Option<JsonValue>,
    k: Seq<char>,
)
    requires
        init matches Some(i) && member(i, "settings"@) matches Some(JsonValue::Object(_)),
        workspace matches Some(JsonValue::Object(_)),
    ensures
        ({
            let config = spec_configured_settings(init, workspace)->Some_0;
            let w = workspace->Some_0;
            let base = member(init->Some_0, "settings"@)->Some_0;
            &&& member(w, k) is Some ==> member(config, k) == member(w, k)
            &&& member(w, k) is None ==> member(config, k) == member(base, k)
        }),
{
}

/// A relative `OXLINT_TSGOLINT_PATH` is taken from the worktree root. For
/// Oxlint, whenever the path that the variables set does not start with `/`
/// or `\\` and has no `:` as its second byte, the server gets the root, a
/// `/`, and that path; any other path, and any path for another tool, is
/// passed on as it was set. Every other variable is passed on as set.
pub proof fn lemma_relative_tsgolint_path_is_rooted(
    shell: Seq<(String, String)>,
    overrides: Seq<(String, String)>,
    root: Seq<char>,
    tool: Seq<char>,
    k: Seq<char>,
)
    ensures
        ({
            let set = merged_env(shell + overrides);
            let env = spec_server_env(shell, overrides, root, tool);
            let name = "OXLINT_TSGOLINT_PATH"@;
            &&& env.dom() == set.dom()
            &&& k != name && set.contains_key(k) ==> env[k] == set[k]
            &&& set.contains_key(name) ==> {
                let p = set[name];
                let b = encode_utf8(p);
                let relative = !(b.len() > 0 && (b[0] == 47u8 || b[0] == 92u8)) && !(b.len() > 1
                    && b[1] == 58u8);
                &&& (tool == "oxlint"@ && relative) ==> env[name] == root + seq!['/'] + p
                &&& !(tool == "oxlint"@ && relative) ==> env[name] == p
            }
        }),
{
    reveal_strlit("/");
    let set = merged_env(shell + overrides);
    let env = spec_server_env(shell, overrides, root, tool);
    assert(env.dom() =~= set.dom());
}

/// Workspace settings are the configuration wherever they cannot be merged
/// into the initialization settings: when there are no initialization
/// options, no `settings` member in them, or either side is not an object.
/// Where there are workspace settings there is always a configuration; where
/// there are none, the configuration is the `settings` member as it is.
pub proof fn lemma_workspace_settings_are_the_configuration(
    init: Option<JsonValue>,
    workspace: Option<JsonValue>,
)
    ensures
        workspace is Some ==> spec_configured_settings(init, workspace) is Some,
        workspace is None ==> spec_configured_settings(init, workspace) == (match init {
            Some(i) => member(i, "settings"@),
            None => None,
        }),
        (workspace is Some && !(workspace->Some_0 is Object && init is Some && (member(
            init->Some_0,
            "settings"@,
        ) matches Some(JsonValue::Object(_))))) ==> spec_configured_settings(init, workspace)
            == workspace,
{
}

/// A Vite+ server keeps the user's configuration too: each member other than
/// `binarySource`, `vpPath` and the nested-configuration switches is sent
/// with the value the user configured, and no other member is added.
pub proof fn lemma_vite_plus_keeps_user_values(
    init: Option<JsonValue>,
    workspace: Option<JsonValue>,
    tool: Seq<char>,
    k: Seq<char>,
)
    requires
        k != "binarySource"@,
        k != "vpPath"@,
        k != "disableNestedConfig"@,
        k != "fmt.disableNestedConfig"@,
    ensures
        member(spec_workspace_configuration(init, workspace, tool, true)->Some_0, k) == (match spec_configured_settings(
            init,
            workspace,
        ) {
            Some(c) => member(c, k),
            None => None,
        }),
{
    reveal_strlit("disableNestedConfig");
    reveal_strlit("fmt.disableNestedConfig");
    assert(nested_config_key(tool) != k);
}

} // verus!
