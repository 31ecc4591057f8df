use jni_codegen::codegen::mod_file::{emit_entry, gen_entry, gen_mod, Entry};
use jni_codegen::error::GenError;
use jni_codegen::layout::{build_path, package_dir, relative_to, root_package, with_file};

fn strings(list: &[&str]) -> Vec<String> {
    list.iter().map(|s| s.to_string()).collect()
}

#[test]
fn package_under_the_root() {
    assert_eq!(package_dir("a.b.c", "a"), vec!["b", "c"]);
    assert_eq!(package_dir("a.b", "a"), vec!["b"]);
    assert_eq!(package_dir("a", "a"), Vec::<String>::new());
}

#[test]
fn only_a_whole_package_is_a_prefix() {
    assert_eq!(relative_to("ab.c", "a"), "ab.c");
    assert_eq!(relative_to("a.b.a.c", "a"), "b.a.c");
    assert_eq!(relative_to("x.y", ""), "x.y");
    assert_eq!(relative_to("org.bukkit.entity", "org.bukkit"), "entity");
    assert_eq!(package_dir("x.y", "a"), vec!["x", "y"]);
}

#[test]
fn file_of_a_class() {
    assert_eq!(build_path("a.b.c.FooBar", "a"), Ok(strings(&["b", "c", "foo_bar.rs"])));
    assert_eq!(build_path("a.Foo", "a"), Ok(strings(&["foo.rs"])));
    assert_eq!(build_path("Foo", ""), Ok(strings(&["foo.rs"])));
    assert_eq!(with_file(strings(&["b", "X"]), "x"), strings(&["b", "x.rs"]));
    assert_eq!(with_file(strings(&[]), "x"), strings(&["x.rs"]));
}

#[test]
fn a_name_without_pieces_has_no_file() {
    assert_eq!(build_path("a", "a"), Err(GenError::EmptyName));
    assert_eq!(build_path("", "a"), Err(GenError::EmptyName));
    assert_eq!(build_path("", ""), Err(GenError::EmptyName));
}

#[test]
fn the_root_comes_first_in_order() {
    assert_eq!(root_package(&strings(&["a.b.c", "a", "a.b"])), Some(1));
    assert_eq!(root_package(&strings(&["org.b", "org.a"])), Some(1));
    assert_eq!(root_package(&strings(&["a", "b", "a"])), Some(0));
    assert_eq!(root_package(&strings(&[])), None);
}

#[test]
fn index_of_a_directory() {
    let entries = vec![Entry::from_file_name("foo.rs", true), Entry::from_file_name("c", false)];
    assert_eq!(entries[0].name, "foo");
    assert!(entries[0].file);
    assert_eq!(entries[1].name, "c");
    assert_eq!(gen_mod(&entries), Ok("mod foo;\npub use foo::*;\npub mod c;\n".to_string()));
    assert_eq!(gen_mod(&Vec::new()), Ok(String::new()));
}

#[test]
fn index_entries() {
    assert_eq!(emit_entry("world", true), "mod world;\npub use world::*;\n");
    assert_eq!(emit_entry("entity", false), "pub mod entity;\n");
    let bad = Entry { name: "my-file".to_string(), file: true };
    assert_eq!(gen_entry(&bad), Err(GenError::InvalidIdentifier));
    let entries = vec![Entry::from_file_name("ok.rs", true), bad, Entry::from_file_name("", false)];
    assert_eq!(gen_mod(&entries), Err(GenError::InvalidIdentifier));
}

#[test]
fn indexes_for_nested_packages() {
    let root = "a";
    assert_eq!(package_dir("a.b", root), vec!["b"]);
    assert_eq!(package_dir("a.b.c", root), vec!["b", "c"]);
    let in_b = vec![Entry::from_file_name("c", false), Entry::from_file_name("thing.rs", true)];
    assert_eq!(gen_mod(&in_b), Ok("pub mod c;\nmod thing;\npub use thing::*;\n".to_string()));
    let in_c = vec![Entry::from_file_name("leaf.rs", true)];
    assert_eq!(gen_mod(&in_c), Ok("mod leaf;\npub use leaf::*;\n".to_string()));
}
