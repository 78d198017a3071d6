use hermitfile::manifest::Manifest;
use hermitfile::record::{serialize, write_mappings};

fn list(items: &[&str]) -> Vec<String> {
    items.iter().map(|s| s.to_string()).collect()
}

fn empty_manifest() -> Manifest {
    Manifest {
        source_path: String::new(),
        dependencies: Vec::new(),
        mappings: Vec::new(),
        network_allow: Vec::new(),
        env: Vec::new(),
        inherit_cwd: false,
        inherit_process_name: false,
        entry_call: String::new(),
        entry_args: Vec::new(),
    }
}

#[test]
fn empty_fields_are_left_out() {
    assert_eq!(serialize(&empty_manifest()), Some("{}".to_string()));
    let mut manifest = empty_manifest();
    manifest.source_path = "/m.wasm".to_string();
    assert_eq!(serialize(&manifest), Some("{\n  \"FROM\": \"/m.wasm\"\n}".to_string()));
}

#[test]
fn fields_come_in_their_fixed_order() {
    let manifest = Manifest {
        source_path: "/srv/mod.wasm".to_string(),
        dependencies: list(&["dep.wasm"]),
        mappings: vec![("~/.wasm/etc".to_string(), "/etc".to_string())],
        network_allow: list(&["*.example.org"]),
        env: list(&["A=1", "B=2"]),
        inherit_cwd: true,
        inherit_process_name: true,
        entry_call: "count_vowels".to_string(),
        entry_args: list(&["x"]),
    };
    let expected = "{\n  \"MAP\": [\n    \"~/.wasm/etc:/etc\"\n  ],\n  \"ENV\": [\n    \"A=1\",\n    \"B=2\"\n  ],\n  \"ENV_PWD_IS_HOST_CWD\": true,\n  \"ENV_EXE_NAME_IS_HOST_EXE_NAME\": true,\n  \"FROM\": \"/srv/mod.wasm\",\n  \"LINK\": [\n    \"dep.wasm\"\n  ],\n  \"NET\": [\n    \"*.example.org\"\n  ],\n  \"ARGV\": [\n    \"x\"\n  ],\n  \"ENTRYPOINT\": \"count_vowels\"\n}";
    assert_eq!(serialize(&manifest), Some(expected.to_string()));
}

#[test]
fn serialization_is_deterministic() {
    let mut manifest = empty_manifest();
    manifest.source_path = "m.wasm".to_string();
    manifest.env = list(&["Z=1", "A=2", "M=3"]);
    let one = serialize(&manifest).unwrap();
    let two = serialize(&manifest.clone()).unwrap();
    assert_eq!(one.as_bytes(), two.as_bytes());
}

#[test]
fn strings_are_escaped_by_the_encoder() {
    let mut manifest = empty_manifest();
    manifest.entry_call = "say \"hi\"".to_string();
    assert_eq!(
        serialize(&manifest),
        Some("{\n  \"ENTRYPOINT\": \"say \\\"hi\\\"\"\n}".to_string())
    );
}

#[test]
fn mappings_are_written_with_their_separator() {
    assert_eq!(
        write_mappings(&vec![
            ("a".to_string(), "b".to_string()),
            ("c".to_string(), "d:e".to_string()),
        ]),
        list(&["a:b", "c:d:e"])
    );
    assert!(write_mappings(&Vec::new()).is_empty());
}

#[test]
fn entry_arguments_are_written_under_argv() {
    let mut manifest = empty_manifest();
    manifest.entry_call = "count_vowels".to_string();
    manifest.entry_args = list(&["hello", "world"]);
    assert_eq!(
        serialize(&manifest),
        Some(
            "{\n  \"ARGV\": [\n    \"hello\",\n    \"world\"\n  ],\n  \"ENTRYPOINT\": \"count_vowels\"\n}"
                .to_string()
        )
    );
}
