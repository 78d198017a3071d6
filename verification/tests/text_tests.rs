use hermitfile::array::read_array;
use hermitfile::cli::{get_hermitfile_path, read_arguments, Flag, Invocation, UsageError};
use hermitfile::env::{assign, find_key, render_entries};
use hermitfile::error::{AssembleError, CompileError, Diagnostic, MandatoryField, Subject};
use hermitfile::mapping::{accept_mappings, split_mapping};
use hermitfile::path::{assemble_path, check_absolute, check_remote, split_segments};
use hermitfile::text::{chars_of, copy_strings, is_one_of, same_text, split_words};

fn list(items: &[&str]) -> Vec<String> {
    items.iter().map(|s| s.to_string()).collect()
}

#[test]
fn words_are_the_runs_between_separators() {
    assert_eq!(split_words("  count_vowels\tone  two ", &[' ', '\t']), list(&["count_vowels", "one", "two"]));
    assert_eq!(split_words("", &[' ']), Vec::<String>::new());
    assert_eq!(split_words("   ", &[' ']), Vec::<String>::new());
    assert_eq!(split_words("/a//b/", &['/']), list(&["a", "b"]));
    assert_eq!(split_words("a b", &[]), list(&["a b"]));
    assert_eq!(split_words("h\u{e9}llo w\u{f6}rld", &[' ']), list(&["h\u{e9}llo", "w\u{f6}rld"]));
}

#[test]
fn characters_and_comparisons() {
    assert_eq!(chars_of("a\u{e9}b"), vec!['a', '\u{e9}', 'b']);
    assert!(same_text("MAP", "MAP"));
    assert!(!same_text("MAP", "MAp"));
    assert!(!same_text("MAP", "MAPS"));
    assert!(same_text("", ""));
    assert!(is_one_of(&[' ', '\t'], '\t'));
    assert!(!is_one_of(&[' ', '\t'], 'x'));
    assert_eq!(copy_strings(&list(&["a", "", "b"])), list(&["a", "", "b"]));
}

#[test]
fn arrays_are_read() {
    assert_eq!(read_array("['a:b']"), Some(list(&["a:b"])));
    assert_eq!(read_array(" [ \"x\" , 'y, z' ,\t'' ] "), Some(list(&["x", "y, z", ""])));
    assert_eq!(read_array("[]"), Some(Vec::new()));
    assert_eq!(read_array("[ ]"), Some(Vec::new()));
    assert_eq!(read_array("['a',]"), Some(list(&["a"])));
    assert_eq!(read_array("['it\"s', \"it's\"]"), Some(list(&["it\"s", "it's"])));
}

#[test]
fn escapes_in_literals_are_read() {
    assert_eq!(read_array(r#"['C:\\dir\\file']"#), Some(list(&["C:\\dir\\file"])));
    assert_eq!(read_array(r#"['it\'s', "say \"hi\""]"#), Some(list(&["it's", "say \"hi\""])));
    assert_eq!(read_array(r#"["a\tb\nc\rd\be\ff"]"#), Some(list(&["a\tb\nc\rd\u{8}e\u{c}f"])));
    assert_eq!(read_array(r#"['\u00e9\U0001F600\u0041']"#), Some(list(&["\u{e9}\u{1F600}A"])));
    assert_eq!(read_array(r#"['\"']"#), Some(list(&["\""])));
}

#[test]
fn bad_escapes_are_refused() {
    assert_eq!(read_array(r#"['a\x41']"#), None);
    assert_eq!(read_array(r#"['a\q']"#), None);
    assert_eq!(read_array(r#"['a\']"#), None);
    assert_eq!(read_array(r#"['\u12']"#), None);
    assert_eq!(read_array(r#"['\u12g4']"#), None);
    assert_eq!(read_array(r#"['\ud800']"#), None);
    assert_eq!(read_array(r#"['\U00110000']"#), None);
    assert_eq!(read_array(r#"['\U0001F60']"#), None);
    assert_eq!(read_array("['a\u{0}b']"), None);
    assert_eq!(read_array("['a\u{1f}b']"), None);
    assert_eq!(read_array("['a\u{1e}b']"), Some(list(&["a\u{1e}b"])));
}

#[test]
fn malformed_arrays_are_refused() {
    assert_eq!(read_array(""), None);
    assert_eq!(read_array("a"), None);
    assert_eq!(read_array("["), None);
    assert_eq!(read_array("['a'"), None);
    assert_eq!(read_array("['a"), None);
    assert_eq!(read_array("['a' 'b']"), None);
    assert_eq!(read_array("[,]"), None);
    assert_eq!(read_array("['a',,]"), None);
    assert_eq!(read_array("[a]"), None);
    assert_eq!(read_array("['a'] x"), None);
    assert_eq!(read_array("['a']]"), None);
    assert_eq!(read_array("x['a']"), None);
}

#[test]
fn environment_table_replaces_in_place() {
    let mut table: Vec<(String, String)> = Vec::new();
    assign(&mut table, "A".to_string(), "1".to_string());
    assign(&mut table, "B".to_string(), "2".to_string());
    assign(&mut table, "A".to_string(), "3".to_string());
    assert_eq!(
        table,
        vec![("A".to_string(), "3".to_string()), ("B".to_string(), "2".to_string())]
    );
    assert_eq!(find_key(&table, &"B".to_string()), 1);
    assert_eq!(find_key(&table, &"C".to_string()), 2);
    assert_eq!(render_entries(&table), list(&["A=3", "B=2"]));
    assert_eq!(
        render_entries(&vec![("K".to_string(), "a=b".to_string()), ("E".to_string(), String::new())]),
        list(&["K=a=b", "E="])
    );
}

#[test]
fn mappings_are_split() {
    assert_eq!(split_mapping("a:b"), Some(("a".to_string(), "b".to_string())));
    assert_eq!(split_mapping("abc"), None);
    assert_eq!(split_mapping(""), None);
    assert_eq!(split_mapping(":"), None);
    assert_eq!(split_mapping("a:"), None);
    assert_eq!(split_mapping(":b"), None);
    assert_eq!(
        split_mapping("~/.wasm/etc:/etc"),
        Some(("~/.wasm/etc".to_string(), "/etc".to_string()))
    );
    assert_eq!(
        accept_mappings(&list(&["a:b", "abc", "c:d:e"])),
        vec![("a".to_string(), "b".to_string()), ("c".to_string(), "d:e".to_string())]
    );
}

#[test]
fn path_pieces() {
    assert!(check_remote("https://h/x"));
    assert!(check_remote("a://"));
    assert!(!check_remote("a:/b"));
    assert!(!check_remote("//"));
    assert!(!check_remote(""));
    assert!(check_absolute("/x"));
    assert!(!check_absolute("x/"));
    assert!(!check_absolute(""));
    assert_eq!(split_segments("/a/./b//c"), list(&["a", "b", "c"]));
    assert_eq!(split_segments("./.."), list(&[".."]));
    assert_eq!(assemble_path(true, &list(&["a", "b"])), "/a/b");
    assert_eq!(assemble_path(false, &list(&["a", "b"])), "a/b");
    assert_eq!(assemble_path(true, &Vec::new()), "/");
    assert_eq!(assemble_path(false, &Vec::new()), ".");
}

#[test]
fn command_line_defaults() {
    assert_eq!(
        read_arguments(&Vec::new()),
        Ok(Invocation {
            hermitfile_path: "Hermitfile".to_string(),
            output_path: "wasm.com".to_string(),
            help: false,
        })
    );
    assert_eq!(get_hermitfile_path(&Vec::new()), Ok("Hermitfile".to_string()));
}

#[test]
fn command_line_flags() {
    let found = read_arguments(&list(&["-f", "a/Hermitfile", "extra", "-o", "out.com"])).unwrap();
    assert_eq!(found.hermitfile_path, "a/Hermitfile");
    assert_eq!(found.output_path, "out.com");
    assert!(!found.help);
    let found = read_arguments(&list(&["-o=x.com", "-f=one", "-f", "two"])).unwrap();
    assert_eq!(found.hermitfile_path, "two");
    assert_eq!(found.output_path, "x.com");
    let found = read_arguments(&list(&["-f", "-o"])).unwrap();
    assert_eq!(found.hermitfile_path, "-o");
    assert_eq!(found.output_path, "wasm.com");
    assert_eq!(get_hermitfile_path(&list(&["-f=p=q"])), Ok("p=q".to_string()));
    assert_eq!(get_hermitfile_path(&list(&["-o", "x"])), Ok("Hermitfile".to_string()));
    assert_eq!(get_hermitfile_path(&list(&["-f", "a", "-f", "b"])), Ok("b".to_string()));
}

#[test]
fn command_line_help_and_errors() {
    assert!(read_arguments(&list(&["-h"])).unwrap().help);
    assert!(read_arguments(&list(&["-f", "x", "--help", "-o"])).unwrap().help);
    assert!(!read_arguments(&list(&["-f", "--help"])).unwrap().help);
    assert_eq!(
        read_arguments(&list(&["-f"])),
        Err(UsageError::MissingArgument(Flag::Hermitfile))
    );
    assert_eq!(
        read_arguments(&list(&["-f", "x", "-o"])),
        Err(UsageError::MissingArgument(Flag::Output))
    );
}

#[test]
fn flag_without_its_path_is_fatal() {
    assert_eq!(
        get_hermitfile_path(&list(&["-f"])),
        Err(UsageError::MissingArgument(Flag::Hermitfile))
    );
    assert_eq!(
        get_hermitfile_path(&list(&["-f", "x", "-f"])),
        Err(UsageError::MissingArgument(Flag::Hermitfile))
    );
    assert_eq!(
        get_hermitfile_path(&list(&["-f", "x", "-o"])),
        Err(UsageError::MissingArgument(Flag::Output))
    );
    assert_eq!(
        UsageError::MissingArgument(Flag::Hermitfile).describe(),
        "the flag -f lacks its argument, the manifest's path"
    );
    assert_eq!(
        UsageError::MissingArgument(Flag::Output).describe(),
        "the flag -o lacks its argument, the output's path"
    );
}

#[test]
fn failures_are_described() {
    assert_eq!(CompileError::SyntaxError.describe(), "the manifest has invalid syntax");
    assert_eq!(
        CompileError::MissingMandatoryField(MandatoryField::Source).describe(),
        "the manifest lacks the mandatory field source"
    );
    assert_eq!(
        CompileError::InvalidManifestLocation.describe(),
        "the manifest's path names no file in a directory"
    );
    assert_eq!(
        AssembleError::MissingMandatoryField(MandatoryField::Source).describe(),
        "the manifest lacks the mandatory field source"
    );
    assert_eq!(AssembleError::DonorNotFound.describe(), "the donor executable does not exist");
    assert_eq!(AssembleError::DonorUnreadable.describe(), "the donor executable cannot be read");
    assert_eq!(AssembleError::ModulePayloadUnreadable.describe(), "the module cannot be read");
    assert_eq!(AssembleError::OutputWriteFailure.describe(), "the output cannot be written");
    assert_eq!(
        Diagnostic::PermissionApplicationUnsupported.remedy("wasm.com"),
        "chmod +x wasm.com"
    );
}

#[test]
fn written_arrays_read_back() {
    assert_eq!(read_array("['a','b c','']"), Some(list(&["a", "b c", ""])));
    assert_eq!(read_array("[]"), Some(Vec::new()));
    assert_eq!(read_array("['x']"), Some(list(&["x"])));
}

#[test]
fn written_mappings_read_back() {
    let pairs = vec![
        ("~/.wasm/etc".to_string(), "/etc".to_string()),
        ("a".to_string(), "b:c".to_string()),
    ];
    let written = hermitfile::record::write_mappings(&pairs);
    assert_eq!(accept_mappings(&written), pairs);
}

#[test]
fn failures_name_the_file_they_are_about() {
    assert_eq!(
        AssembleError::MissingMandatoryField(MandatoryField::Source).subject(),
        Subject::Manifest
    );
    assert_eq!(AssembleError::DonorNotFound.subject(), Subject::Donor);
    assert_eq!(AssembleError::DonorUnreadable.subject(), Subject::Donor);
    assert_eq!(AssembleError::ModulePayloadUnreadable.subject(), Subject::Module);
    assert_eq!(AssembleError::OutputWriteFailure.subject(), Subject::Output);
}
