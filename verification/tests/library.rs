use oxc_zed::binary_resolver::{declares_package, standalone_path};
use oxc_zed::json::Json;
use oxc_zed::lsp::{
    configured_settings, custom_command, force_nested_config, initialization_options,
    managed_entry, needs_install, node_server_command, server_env, vite_plus_subcommand,
    workspace_configuration, CommandSettings, LspSettings, OXFMT_SERVER_ID, OXLINT_SERVER_ID,
};
use oxc_zed::path::{join_path, Tree};
use oxc_zed::str_map::StrMap;
use oxc_zed::text::str_lt;
use oxc_zed::vite_plus::{BinarySource, Options};
use oxc_zed::ZedLspSupport;
use serde_json::Value;

fn parse(text: &str) -> Json {
    fn convert(value: &Value) -> Json {
        match value {
            Value::Null => Json::null(),
            Value::Bool(b) => Json::from_bool(*b),
            Value::Number(n) => Json::from_number_text(n.to_string()),
            Value::String(s) => Json::from_string(s.clone()),
            Value::Array(items) => Json::from_array(items.iter().map(convert).collect()),
            Value::Object(members) => {
                let mut map = StrMap::new();
                for (key, member) in members {
                    map.insert(key.clone(), convert(member));
                }
                Json::from_map(map)
            }
        }
    }
    convert(&serde_json::from_str(text).unwrap())
}

fn with_env(vars: &[(&str, &str)]) -> LspSettings {
    LspSettings {
        binary: Some(CommandSettings {
            path: None,
            arguments: None,
            env: Some(vars.iter().map(|(k, v)| (k.to_string(), v.to_string())).collect()),
        }),
        ..Default::default()
    }
}

fn with_options(init: Option<&str>, workspace: Option<&str>) -> LspSettings {
    LspSettings {
        binary: None,
        initialization_options: init.map(parse),
        settings: workspace.map(parse),
    }
}

fn pairs(vars: &[(&str, &str)]) -> Vec<(String, String)> {
    vars.iter().map(|(k, v)| (k.to_string(), v.to_string())).collect()
}

#[test]
fn later_variables_take_the_place_of_earlier_ones() {
    let env = server_env(
        &with_env(&[("PATH", "/b"), ("HOME", "/override")]),
        pairs(&[("Path", "/a"), ("HOME", "/h"), ("LANG", "C")]),
        "/repo",
        OXFMT_SERVER_ID,
    );
    assert_eq!(env, pairs(&[("HOME", "/override"), ("LANG", "C"), ("PATH", "/b")]));
}

#[test]
fn path_keeps_one_spelling_whatever_its_case() {
    let env = server_env(
        &LspSettings::default(),
        pairs(&[("path", "/x"), ("PaTh", "/y"), ("PATHS", "/z")]),
        "/repo",
        OXLINT_SERVER_ID,
    );
    assert_eq!(env, pairs(&[("PATH", "/y"), ("PATHS", "/z")]));
}

#[test]
fn environment_comes_sorted_by_key() {
    let env = server_env(
        &LspSettings::default(),
        pairs(&[("b", "2"), ("a", "1"), ("C", "3"), ("ab", "4")]),
        "/repo",
        OXFMT_SERVER_ID,
    );
    assert_eq!(env, pairs(&[("C", "3"), ("a", "1"), ("ab", "4"), ("b", "2")]));
}

#[test]
fn tsgolint_path_is_resolved_for_oxlint_only() {
    let settings = with_env(&[("OXLINT_TSGOLINT_PATH", "tools/tsgolint")]);
    assert_eq!(
        server_env(&settings, vec![], "/repo", OXFMT_SERVER_ID),
        pairs(&[("OXLINT_TSGOLINT_PATH", "tools/tsgolint")])
    );
    assert_eq!(
        server_env(&settings, vec![], "/repo", OXLINT_SERVER_ID),
        pairs(&[("OXLINT_TSGOLINT_PATH", "/repo/tools/tsgolint")])
    );
    let shell_only = pairs(&[("OXLINT_TSGOLINT_PATH", "bin/tsgolint")]);
    assert_eq!(
        server_env(&LspSettings::default(), shell_only, "/w", OXLINT_SERVER_ID),
        pairs(&[("OXLINT_TSGOLINT_PATH", "/w/bin/tsgolint")])
    );
    assert_eq!(
        server_env(&with_env(&[("OXLINT_TSGOLINT_PATH", "")]), vec![], "/w", OXLINT_SERVER_ID),
        pairs(&[("OXLINT_TSGOLINT_PATH", "/w/")])
    );
    assert_eq!(
        server_env(&with_env(&[("OXLINT_TSGOLINT_PATH", "d:")]), vec![], "/w", OXLINT_SERVER_ID),
        pairs(&[("OXLINT_TSGOLINT_PATH", "d:")])
    );
}

#[test]
fn arguments_without_a_path_are_refused_with_a_message() {
    let settings = LspSettings {
        binary: Some(CommandSettings {
            path: None,
            arguments: Some(vec!["--lsp".into()]),
            env: None,
        }),
        ..Default::default()
    };
    match custom_command(&settings, vec![]) {
        Err(message) => assert_eq!(
            message,
            "When supplying binary.arguments, binary.path must be supplied."
        ),
        Ok(_) => panic!("arguments without a path must be refused"),
    }
    assert!(custom_command(&LspSettings::default(), vec![]).unwrap().is_none());
    let settings = LspSettings {
        binary: Some(CommandSettings {
            path: Some("/bin/tool".into()),
            arguments: Some(vec!["a".into(), "b".into()]),
            env: None,
        }),
        ..Default::default()
    };
    let command = custom_command(&settings, pairs(&[("K", "V")])).unwrap().unwrap();
    assert_eq!(command.command, "/bin/tool");
    assert_eq!(command.args, ["a", "b"]);
    assert_eq!(command.env, pairs(&[("K", "V")]));
}

#[test]
fn source_options_refuse_unknown_sources_and_empty_paths() {
    assert_eq!(Options::from_settings(None).unwrap(), Options::default());
    assert_eq!(Options::from_settings(Some(&parse("null"))).unwrap(), Options::default());
    assert_eq!(Options::from_settings(Some(&parse("[1]"))).unwrap(), Options::default());
    for text in [r#"{"binarySource":"wrong"}"#, r#"{"binarySource":false}"#, r#"{"binarySource":null}"#] {
        assert_eq!(
            Options::from_settings(Some(&parse(text))).unwrap_err(),
            r#"binarySource must be "auto", "vite-plus" or "oxc""#
        );
    }
    for text in [r#"{"vpPath":""}"#, r#"{"vpPath":false}"#, r#"{"binarySource":"vite-plus","vpPath":3}"#] {
        assert_eq!(
            Options::from_settings(Some(&parse(text))).unwrap_err(),
            "vpPath must be a non-empty string"
        );
    }
    assert_eq!(
        Options::from_settings(Some(&parse(r#"{"binarySource":"oxc","vpPath":""}"#))).unwrap(),
        Options { source: BinarySource::Oxc, vp_path: None }
    );
    assert_eq!(
        Options::from_settings(Some(&parse(r#"{"binarySource":"auto","vpPath":"a/vp"}"#)))
            .unwrap(),
        Options { source: BinarySource::Auto, vp_path: Some("a/vp".into()) }
    );
}

#[test]
fn workspace_settings_replace_settings_that_are_not_objects() {
    let settings = with_options(Some(r#"{"settings":{"a":1}}"#), Some(r#""text""#));
    assert_eq!(configured_settings(&settings), Some(parse(r#""text""#)));
    let settings = with_options(Some(r#"{"settings":[1]}"#), Some(r#"{"b":2}"#));
    assert_eq!(configured_settings(&settings), Some(parse(r#"{"b":2}"#)));
    let settings = with_options(Some(r#"{"settings":{"a":1,"b":1}}"#), Some(r#"{"b":2,"c":3}"#));
    assert_eq!(configured_settings(&settings), Some(parse(r#"{"a":1,"b":2,"c":3}"#)));
    let settings = with_options(Some(r#"{"other":{"a":1}}"#), None);
    assert_eq!(configured_settings(&settings), None);
}

#[test]
fn initialization_options_become_an_object_when_they_carry_settings() {
    let settings = with_options(Some(r#""text""#), Some(r#"{"run":"onType"}"#));
    assert_eq!(
        initialization_options(&settings, OXFMT_SERVER_ID, false),
        Some(parse(r#"{"settings":{"run":"onType"}}"#))
    );
    let settings = with_options(Some(r#""text""#), None);
    assert_eq!(initialization_options(&settings, OXFMT_SERVER_ID, false), Some(parse(r#""text""#)));
    let settings = with_options(Some(r#"{"keep":1,"settings":{"vpPath":"x"}}"#), None);
    assert_eq!(
        initialization_options(&settings, OXFMT_SERVER_ID, true),
        Some(parse(r#"{"keep":1,"settings":{"fmt.disableNestedConfig":true}}"#))
    );
    assert_eq!(
        workspace_configuration(&LspSettings::default(), OXLINT_SERVER_ID, true),
        Some(parse(r#"{"disableNestedConfig":true}"#))
    );
}

#[test]
fn nested_config_is_forced_on_any_value() {
    let mut value = parse("[1,2]");
    force_nested_config(&mut value, OXLINT_SERVER_ID);
    assert_eq!(value, parse(r#"{"disableNestedConfig":true}"#));
    let mut value = parse(r#"{"disableNestedConfig":false,"x":null}"#);
    force_nested_config(&mut value, OXFMT_SERVER_ID);
    assert_eq!(
        value,
        parse(r#"{"disableNestedConfig":false,"fmt.disableNestedConfig":true,"x":null}"#)
    );
}

#[test]
fn standalone_path_starts_at_the_declaring_directory() {
    let dirs = [
        parse(r#"{"standalone":"/a/oxlint","package":{}}"#),
        parse(r#"{"package":{"devDependencies":{"oxlint":"*"}}}"#),
        parse(r#"{"standalone":7}"#),
        parse(r#"{"standalone":"/c/oxlint"}"#),
        parse(r#"{"standalone":"/d/oxlint"}"#),
    ];
    assert_eq!(standalone_path(&dirs, "oxlint"), Some("/c/oxlint"));
    assert_eq!(standalone_path(&dirs, "oxfmt"), None);
    assert_eq!(standalone_path(&dirs[..3], "oxlint"), None);
    assert_eq!(standalone_path(&[], "oxlint"), None);
}

#[test]
fn only_dependencies_with_a_version_declare_a_package() {
    assert!(declares_package(&parse(r#"{"dependencies":{"oxfmt":"^1"}}"#), "oxfmt"));
    assert!(declares_package(&parse(r#"{"devDependencies":{"oxfmt":"*"}}"#), "oxfmt"));
    assert!(!declares_package(&parse(r#"{"dependencies":{"oxfmt":""}}"#), "oxfmt"));
    assert!(!declares_package(&parse(r#"{"dependencies":{"oxfmt":1}}"#), "oxfmt"));
    assert!(!declares_package(&parse(r#"{"peerDependencies":{"oxfmt":"*"}}"#), "oxfmt"));
    assert!(!declares_package(&parse(r#"{"optionalDependencies":{"oxfmt":"*"}}"#), "oxfmt"));
    assert!(!declares_package(&parse("null"), "oxfmt"));
    assert!(!declares_package(&parse("[]"), "oxfmt"));
}

#[test]
fn paths_join_as_on_unix() {
    assert_eq!(join_path("/root", "a/b"), "/root/a/b");
    assert_eq!(join_path("/root/", "a"), "/root/a");
    assert_eq!(join_path("/root", "/abs"), "/abs");
    assert_eq!(join_path("/root", ""), "/root/");
    assert_eq!(join_path("", "a"), "a");
    assert_eq!(join_path("/r", "."), "/r/.");
    let tree = Tree::new("/tmp/tree".into());
    assert_eq!(tree.path("repo/package.json"), "/tmp/tree/repo/package.json");
    assert_eq!(tree.path("."), "/tmp/tree/.");
}

#[test]
fn managed_installation_lives_under_node_modules() {
    assert_eq!(managed_entry("/ext", "oxlint"), "/ext/node_modules/oxlint/bin/oxlint");
    assert_eq!(managed_entry("/ext/", "oxfmt"), "/ext/node_modules/oxfmt/bin/oxfmt");
    let command = node_server_command("/node".into(), "/ext/entry".into(), pairs(&[("A", "1")]));
    assert_eq!(command.command, "/node");
    assert_eq!(command.args, ["/ext/entry", "--lsp"]);
    assert_eq!(command.env, pairs(&[("A", "1")]));
}

#[test]
fn installation_is_updated_when_missing_or_outdated() {
    assert!(needs_install(None, "1.2.3"));
    assert!(needs_install(Some("1.2.2"), "1.2.3"));
    assert!(!needs_install(Some("1.2.3"), "1.2.3"));
    assert_eq!(vite_plus_subcommand(OXLINT_SERVER_ID), "lint");
    assert_eq!(vite_plus_subcommand(OXFMT_SERVER_ID), "fmt");
}

#[test]
fn strings_are_ordered_by_their_bytes() {
    assert!(str_lt("a", "b"));
    assert!(str_lt("a", "ab"));
    assert!(str_lt("B", "a"));
    assert!(str_lt("z", "é"));
    assert!(!str_lt("b", "a"));
    assert!(!str_lt("same", "same"));
    assert!(!str_lt("", ""));
    assert!(str_lt("", "x"));
}

#[test]
fn maps_give_back_what_was_written() {
    let mut map: StrMap<u32> = StrMap::new();
    map.insert("b".into(), 2);
    map.insert("a".into(), 1);
    map.insert("c".into(), 3);
    map.insert("b".into(), 20);
    assert_eq!(map.get("b"), Some(&20));
    assert_eq!(map.get("a"), Some(&1));
    assert_eq!(map.get("d"), None);
    assert_eq!(map.len(), 3);
    let keys: Vec<&str> = map.entries().iter().map(|(k, _)| k.as_str()).collect();
    assert_eq!(keys, ["a", "b", "c"]);
    map.remove("a");
    map.remove("missing");
    assert_eq!(map.get("a"), None);
    assert_eq!(map.len(), 2);
}

#[test]
fn json_copies_and_merges() {
    let value = parse(r#"{"a":[1,{"b":null}],"c":"d","e":1.5}"#);
    assert_eq!(value.deep_clone(), value);
    let mut target = parse(r#"{"a":1,"b":2}"#);
    target.extend_object(&parse(r#"{"b":3,"c":4}"#));
    assert_eq!(target, parse(r#"{"a":1,"b":3,"c":4}"#));
    assert_eq!(value.get("c"), Some(&parse(r#""d""#)));
    assert_eq!(value.get("zz"), None);
    assert_eq!(parse("[1]").get("a"), None);
}

#[test]
fn sources_are_unknown_until_recorded() {
    let mut lint = oxc_zed::ZedOxlintLsp::new();
    assert_eq!(lint.known_source(&LspSettings::default(), 7), None);
    lint.sources_mut().insert(7, false);
    assert_eq!(lint.known_source(&LspSettings::default(), 7), Some(false));
    lint.sources_mut().remove(&7);
    assert_eq!(lint.known_source(&LspSettings::default(), 7), None);
    assert_eq!(lint.package_name(), "oxlint");
    assert_eq!(oxc_zed::ZedOxfmtLsp::new().package_name(), "oxfmt");
}

#[test]
fn restarts_forget_the_recorded_source() {
    let mut fmt = oxc_zed::ZedOxfmtLsp::new();
    fmt.sources_mut().insert(3, true);
    fmt.sources_mut().insert(4, true);
    let shell = pairs(&[("PATH", "/bin")]);
    match fmt.begin_command(3, &LspSettings::default(), shell, "/w").unwrap() {
        oxc_zed::lsp::Launch::Standalone(env) => assert_eq!(env, pairs(&[("PATH", "/bin")])),
        oxc_zed::lsp::Launch::Custom(_) => panic!("no custom command was set"),
    }
    assert_eq!(fmt.sources().get(&3), None);
    assert_eq!(fmt.sources().get(&4), Some(&true));
    let command = fmt.finish_command(3, "/node".into(), "/e/oxfmt".into(), vec![]);
    assert_eq!(command.args, ["/e/oxfmt", "--lsp"]);
    assert_eq!(fmt.sources().get(&3), Some(&false));
    let custom = LspSettings {
        binary: Some(CommandSettings { path: Some("/my/oxfmt".into()), arguments: None, env: None }),
        ..Default::default()
    };
    match fmt.begin_command(4, &custom, vec![], "/w").unwrap() {
        oxc_zed::lsp::Launch::Custom(command) => {
            assert_eq!(command.command, "/my/oxfmt");
            assert!(command.args.is_empty());
        }
        oxc_zed::lsp::Launch::Standalone(_) => panic!("the custom command must win"),
    }
    assert_eq!(fmt.sources().get(&4), Some(&false));
    let broken = LspSettings {
        binary: Some(CommandSettings { path: None, arguments: Some(vec![]), env: None }),
        ..Default::default()
    };
    assert!(fmt.begin_command(4, &broken, vec![], "/w").is_err());
    assert_eq!(fmt.sources().get(&4), None);
}
