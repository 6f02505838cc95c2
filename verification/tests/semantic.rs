use commit_core::semantic::{analyze_file, diff_symbols, extract_rust_symbols, SymbolChange};
use commit_core::{ChangeKind, Language, SymbolKind, Visibility};

fn analyze(old: &str, new: &str) -> Vec<SymbolChange> {
    let old_symbols = extract_rust_symbols(old).expect("parse old");
    let new_symbols = extract_rust_symbols(new).expect("parse new");
    diff_symbols(&old_symbols, &new_symbols)
}

fn find<'a>(changes: &'a [SymbolChange], name: &str) -> &'a SymbolChange {
    changes
        .iter()
        .find(|c| c.name == name)
        .unwrap_or_else(|| panic!("expected change for {name}: {changes:#?}"))
}

#[test]
fn extracts_public_function_visibility() {
    let symbols = extract_rust_symbols("pub fn foo() {}\nfn bar() {}").expect("parse");
    let foo = symbols.iter().find(|s| s.name == "foo").expect("foo");
    let bar = symbols.iter().find(|s| s.name == "bar").expect("bar");
    assert_eq!(foo.visibility, Visibility::Public);
    assert_eq!(bar.visibility, Visibility::Private);
}

#[test]
fn extracts_pub_crate_visibility() {
    let symbols = extract_rust_symbols("pub(crate) fn foo() {}").expect("parse");
    let foo = symbols.iter().find(|s| s.name == "foo").expect("foo");
    assert_eq!(foo.visibility, Visibility::PubCrate);
}

#[test]
fn detects_added_function() {
    let old = "fn keep() {}\n";
    let new = "fn keep() {}\npub fn fresh() {}\n";
    let changes = analyze(old, new);
    let fresh = find(&changes, "fresh");
    assert_eq!(fresh.change, ChangeKind::Added);
    assert_eq!(fresh.kind, SymbolKind::Function);
    assert_eq!(fresh.visibility, Visibility::Public);
}

#[test]
fn detects_removed_function() {
    let old = "fn keep() {}\npub fn gone() {}\n";
    let new = "fn keep() {}\n";
    let changes = analyze(old, new);
    let gone = find(&changes, "gone");
    assert_eq!(gone.change, ChangeKind::Removed);
    assert_eq!(gone.visibility, Visibility::Public);
}

#[test]
fn detects_body_modified_function() {
    let old = "fn touched() { 1 }\n";
    let new = "fn touched() { 2 }\n";
    let changes = analyze(old, new);
    let touched = find(&changes, "touched");
    assert_eq!(touched.change, ChangeKind::BodyModified);
}

#[test]
fn detects_signature_changed_function() {
    let old = "fn moved(x: u32) -> bool { true }\n";
    let new = "fn moved(x: u32, y: u32) -> bool { true }\n";
    let changes = analyze(old, new);
    let moved = find(&changes, "moved");
    assert_eq!(moved.change, ChangeKind::SignatureChanged);
}

#[test]
fn detects_struct_body_modified() {
    let old = "pub struct Config { pub name: String }\n";
    let new = "pub struct Config { pub name: String, pub count: u32 }\n";
    let changes = analyze(old, new);
    let config = find(&changes, "Config");
    assert_eq!(config.kind, SymbolKind::Struct);
    assert_eq!(config.change, ChangeKind::BodyModified);
    assert_eq!(config.visibility, Visibility::Public);
}

#[test]
fn qualifies_methods_with_impl_type() {
    let new = r#"
            pub struct Foo;
            impl Foo {
                pub fn new() -> Self { Foo }
            }
        "#;
    let symbols = extract_rust_symbols(new).expect("parse");
    let names: Vec<&str> = symbols.iter().map(|s| s.name.as_str()).collect();
    assert!(names.contains(&"Foo"));
    assert!(
        names.contains(&"Foo::new"),
        "expected Foo::new in {names:?}"
    );
}

#[test]
fn unchanged_files_yield_no_changes() {
    let source = "pub fn stable() {}\npub struct Stable;\n";
    let changes = analyze(source, source);
    assert!(changes.is_empty(), "expected no changes, got {changes:#?}");
}

#[test]
fn analyze_file_returns_none_for_non_rust_paths() {
    assert!(analyze_file("README.md", Some(""), Some("hi")).is_none());
}

#[test]
fn malformed_rust_does_not_panic_and_extracts_what_it_can() {
    let new = "pub fn ok() {}\nfn broken( {\n";
    let symbols = extract_rust_symbols(new).expect("parser tolerates broken source");
    let names: Vec<&str> = symbols.iter().map(|s| s.name.as_str()).collect();
    assert!(
        names.contains(&"ok"),
        "should still extract `ok` from partially valid source: {names:?}"
    );
}

#[test]
fn trait_impls_are_named_by_trait_and_type() {
    let source = "impl Clone for Foo {\n    fn clone(&self) -> Self { Foo }\n}\n";
    let symbols = extract_rust_symbols(source).expect("parse");
    assert_eq!(symbols.len(), 2);
    assert_eq!(symbols[0].kind, SymbolKind::Impl);
    assert_eq!(symbols[0].name, "Clone for Foo");
    assert_eq!(symbols[0].visibility, Visibility::Private);
    assert_eq!(symbols[0].signature_text, "impl Clone for Foo ");
    assert_eq!(symbols[1].name, "Clone for Foo::clone");
    assert_eq!(symbols[1].signature_text, "fn clone(&self) -> Self ");
}

#[test]
fn extracts_every_kind_of_item() {
    let source = "mod m {}\nenum E { A }\nunion U { a: u8 }\ntrait T {}\ntype A = u8;\nconst C: u8 = 1;\nstatic S: u8 = 1;\nmacro_rules! mac { () => {} }\n";
    let symbols = extract_rust_symbols(source).expect("parse");
    let kinds: Vec<SymbolKind> = symbols.iter().map(|s| s.kind).collect();
    assert_eq!(
        kinds,
        vec![
            SymbolKind::Mod,
            SymbolKind::Enum,
            SymbolKind::Union,
            SymbolKind::Trait,
            SymbolKind::TypeAlias,
            SymbolKind::Const,
            SymbolKind::Static,
            SymbolKind::Macro,
        ]
    );
    assert_eq!(symbols[4].full_text, "type A = u8;");
}

#[test]
fn analyze_file_reports_changes_of_rust_files() {
    let file = analyze_file("src/lib.rs", None, Some("pub fn fresh() {}\n")).expect("changes");
    assert_eq!(file.path, "src/lib.rs");
    assert_eq!(file.language, Language::Rust);
    assert_eq!(file.symbols.len(), 1);
    assert_eq!(file.symbols[0].name, "fresh");
    assert_eq!(file.symbols[0].change, ChangeKind::Added);
    assert!(analyze_file("src/lib.rs", Some("fn a() {}"), Some("fn a() {}")).is_none());
}

#[test]
fn text_between_respects_character_boundaries() {
    let source = "é=1";
    assert_eq!(commit_core::semantic::text_in(source, 0, 2), Some("é"));
    assert_eq!(commit_core::semantic::text_in(source, 1, 2), None);
    assert_eq!(commit_core::semantic::text_in(source, 2, 9), None);
}

#[test]
fn new_and_deleted_files_add_and_remove_every_symbol() {
    let symbols = extract_rust_symbols("fn a() {}\nstruct B;\n").expect("parse");
    let added = diff_symbols(&Vec::new(), &symbols);
    assert_eq!(added.len(), 2);
    assert!(added.iter().all(|c| c.change == ChangeKind::Added));
    let removed = diff_symbols(&symbols, &Vec::new());
    assert_eq!(removed.len(), 2);
    assert!(removed.iter().all(|c| c.change == ChangeKind::Removed));
    assert_eq!(removed[1].name, "B");
}
