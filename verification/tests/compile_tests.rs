use hermitfile::compile::compile;
use hermitfile::directive::Directive;
use hermitfile::error::{CompileError, MandatoryField};

fn strings(items: &[&str]) -> Vec<String> {
    items.iter().map(|s| s.to_string()).collect()
}

#[test]
fn compiles_a_full_manifest() {
    let directives = vec![
        Directive::Source("mod.wasm".to_string()),
        Directive::Dependencies(strings(&["https://example.org/dep.wasm"])),
        Directive::Mappings(strings(&["~/.wasm/etc:/etc", "stdout:/dev/stdout"])),
        Directive::NetworkAllow(strings(&["*.example.org:443"])),
        Directive::EnvAssign("HOME".to_string(), "/root".to_string()),
        Directive::InheritWorkingDirectory,
        Directive::EntryCall("count_vowels".to_string(), strings(&["hello", "world"])),
    ];
    let manifest = compile(&directives, "/srv/app").unwrap();
    assert_eq!(manifest.source_path, "/srv/app/mod.wasm");
    assert_eq!(manifest.dependencies, strings(&["https://example.org/dep.wasm"]));
    assert_eq!(
        manifest.mappings,
        vec![
            ("~/.wasm/etc".to_string(), "/etc".to_string()),
            ("stdout".to_string(), "/dev/stdout".to_string()),
        ]
    );
    assert_eq!(manifest.network_allow, strings(&["*.example.org:443"]));
    assert_eq!(manifest.env, strings(&["HOME=/root"]));
    assert!(manifest.inherit_cwd);
    assert!(!manifest.inherit_process_name);
    assert_eq!(manifest.entry_call, "count_vowels");
    assert_eq!(manifest.entry_args, strings(&["hello", "world"]));
}

#[test]
fn missing_source_is_refused() {
    let directives = vec![Directive::InheritProcessName];
    assert_eq!(
        compile(&directives, "/srv"),
        Err(CompileError::MissingMandatoryField(MandatoryField::Source))
    );
    assert_eq!(
        compile(&Vec::new(), "/srv"),
        Err(CompileError::MissingMandatoryField(MandatoryField::Source))
    );
}

#[test]
fn empty_source_is_refused() {
    let directives = vec![Directive::Source(String::new())];
    assert_eq!(
        compile(&directives, "/srv"),
        Err(CompileError::MissingMandatoryField(MandatoryField::Source))
    );
}

#[test]
fn later_empty_source_replaces_earlier_one() {
    let directives = vec![
        Directive::Source("a.wasm".to_string()),
        Directive::Source(String::new()),
    ];
    assert_eq!(
        compile(&directives, "/srv"),
        Err(CompileError::MissingMandatoryField(MandatoryField::Source))
    );
}

#[test]
fn mapping_with_separator_becomes_a_pair() {
    let directives = vec![
        Directive::Source("m.wasm".to_string()),
        Directive::Mappings(strings(&["a:b"])),
    ];
    let manifest = compile(&directives, "").unwrap();
    assert_eq!(manifest.mappings, vec![("a".to_string(), "b".to_string())]);
}

#[test]
fn mapping_without_separator_is_dropped() {
    let directives = vec![
        Directive::Source("m.wasm".to_string()),
        Directive::Mappings(strings(&["abc", "x:y", ":z", "w:", ":"])),
    ];
    let manifest = compile(&directives, "").unwrap();
    assert_eq!(manifest.mappings, vec![("x".to_string(), "y".to_string())]);
}

#[test]
fn mapping_splits_at_first_separator() {
    let directives = vec![
        Directive::Source("m.wasm".to_string()),
        Directive::Mappings(strings(&["a:b:c"])),
    ];
    let manifest = compile(&directives, "").unwrap();
    assert_eq!(manifest.mappings, vec![("a".to_string(), "b:c".to_string())]);
}

#[test]
fn duplicate_env_key_keeps_last_value() {
    let directives = vec![
        Directive::Source("m.wasm".to_string()),
        Directive::EnvAssign("KEY".to_string(), "v1".to_string()),
        Directive::EnvAssign("KEY".to_string(), "v2".to_string()),
    ];
    let manifest = compile(&directives, "").unwrap();
    assert_eq!(manifest.env, strings(&["KEY=v2"]));
}

#[test]
fn env_keys_keep_the_place_of_their_first_assignment() {
    let directives = vec![
        Directive::Source("m.wasm".to_string()),
        Directive::EnvAssign("A".to_string(), "1".to_string()),
        Directive::EnvAssign("B".to_string(), "2".to_string()),
        Directive::EnvAssign("A".to_string(), "3".to_string()),
    ];
    let manifest = compile(&directives, "").unwrap();
    assert_eq!(manifest.env, strings(&["A=3", "B=2"]));
}

#[test]
fn list_directives_overwrite() {
    let directives = vec![
        Directive::Source("m.wasm".to_string()),
        Directive::Dependencies(strings(&["a", "b"])),
        Directive::NetworkAllow(strings(&["x"])),
        Directive::Mappings(strings(&["p:q"])),
        Directive::Dependencies(strings(&["c"])),
        Directive::NetworkAllow(Vec::new()),
        Directive::Mappings(strings(&["r:s"])),
    ];
    let manifest = compile(&directives, "").unwrap();
    assert_eq!(manifest.dependencies, strings(&["c"]));
    assert!(manifest.network_allow.is_empty());
    assert_eq!(manifest.mappings, vec![("r".to_string(), "s".to_string())]);
}

#[test]
fn flags_default_to_false() {
    let manifest = compile(&vec![Directive::Source("m.wasm".to_string())], "").unwrap();
    assert!(!manifest.inherit_cwd);
    assert!(!manifest.inherit_process_name);
    assert_eq!(manifest.entry_call, "");
    assert!(manifest.entry_args.is_empty());
    assert!(manifest.env.is_empty());
}

#[test]
fn compilation_is_deterministic() {
    let directives = vec![
        Directive::Source("m.wasm".to_string()),
        Directive::EnvAssign("B".to_string(), "2".to_string()),
        Directive::EnvAssign("A".to_string(), "1".to_string()),
        Directive::InheritProcessName,
    ];
    assert_eq!(compile(&directives, "/x"), compile(&directives.clone(), "/x"));
}

#[test]
fn remote_source_is_kept_as_written() {
    let directives = vec![Directive::Source("https://example.org/a//b/./m.wasm".to_string())];
    let manifest = compile(&directives, "/srv").unwrap();
    assert_eq!(manifest.source_path, "https://example.org/a//b/./m.wasm");
}
