use idl2wit::names::{derive_identifier, file_stem, identifier_from_kebab, is_recognized_name, remove_digits, target_file_name};

fn chars(s: &str) -> Vec<char> {
    s.chars().collect()
}

fn text(v: &[char]) -> String {
    v.iter().collect()
}

#[test]
fn stem_drops_last_extension() {
    assert_eq!(text(&file_stem(&chars("a.b.idl"))), "a.b");
    assert_eq!(text(&file_stem(&chars("plain"))), "plain");
    assert_eq!(text(&file_stem(&chars(".hidden"))), ".hidden");
    assert_eq!(text(&file_stem(&chars(""))), "");
}

#[test]
fn recognizes_both_spellings_only() {
    assert!(is_recognized_name(&chars("x.idl")));
    assert!(is_recognized_name(&chars("x.webidl")));
    assert!(!is_recognized_name(&chars("readme.txt")));
    assert!(!is_recognized_name(&chars("x.IDL")));
    assert!(!is_recognized_name(&chars("idl")));
    assert!(!is_recognized_name(&chars(".idl")));
    assert!(!is_recognized_name(&chars("x.idl.bak")));
}

#[test]
fn target_name_replaces_extension() {
    assert_eq!(text(&target_file_name(&chars("Foo123.idl"))), "Foo123.wit");
    assert_eq!(text(&target_file_name(&chars("bar.webidl"))), "bar.wit");
    assert_eq!(text(&target_file_name(&chars("noext"))), "noext.wit");
}

#[test]
fn digits_are_removed() {
    assert_eq!(text(&remove_digits(&chars("a1b22c333"))), "abc");
    assert_eq!(text(&remove_digits(&chars("2024"))), "");
}

#[test]
fn suffix_is_appended() {
    assert_eq!(text(&identifier_from_kebab(&chars("my-api"))), "my-api-interface");
    assert_eq!(text(&identifier_from_kebab(&chars(""))), "-interface");
}

#[test]
fn identifier_is_kebab_case_without_digits() {
    assert_eq!(text(&derive_identifier(&chars("MyFile2.idl"))), "my-file-interface");
    assert_eq!(text(&derive_identifier(&chars("HTMLElement.webidl"))), "html-element-interface");
    assert_eq!(text(&derive_identifier(&chars("a.idl"))), "a-interface");
}

#[test]
fn identifier_is_stable_and_may_collide() {
    let a = derive_identifier(&chars("Foo123.idl"));
    let b = derive_identifier(&chars("Foo123.idl"));
    assert_eq!(a, b);
    assert_eq!(text(&a), "foo-interface");
    assert_eq!(text(&derive_identifier(&chars("Foo1.idl"))), text(&derive_identifier(&chars("Foo2.webidl"))));
    assert!(text(&derive_identifier(&chars("x9y.idl"))).ends_with("-interface"));
    assert!(!text(&derive_identifier(&chars("9a8b7.idl"))).chars().any(|c| c.is_ascii_digit()));
}
