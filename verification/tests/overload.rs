use jni_codegen::models::{Method, Parameter};
use jni_codegen::overload::{is_taken, resolve_name, resolve_names, suffix};

fn named(name: &str) -> Method {
    Method {
        name: name.to_string(),
        return_type: Parameter { name: None, class: "void".to_string(), is_array: false },
        is_static: false,
        from_interface: None,
        parameters: vec![],
    }
}

fn names(list: &[&str]) -> Vec<Method> {
    list.iter().map(|n| named(n)).collect()
}

#[test]
fn three_methods_of_one_name() {
    assert_eq!(resolve_names(&names(&["foo", "foo", "foo"])), vec!["foo", "foo_0", "foo_1"]);
}

#[test]
fn different_names_stay() {
    assert_eq!(resolve_names(&names(&["a", "b", "c"])), vec!["a", "b", "c"]);
    assert_eq!(resolve_names(&names(&[])), Vec::<String>::new());
}

#[test]
fn a_suffix_counts_among_the_names() {
    assert_eq!(resolve_names(&names(&["foo", "foo_0", "foo"])), vec!["foo", "foo_0", "foo_1"]);
    assert_eq!(resolve_names(&names(&["foo", "foo", "foo_0"])), vec!["foo", "foo_0", "foo_0_0"]);
}

#[test]
fn resolved_names_differ() {
    let list: Vec<&str> = std::iter::repeat("get").take(12).collect();
    let resolved = resolve_names(&names(&list));
    assert_eq!(resolved.len(), 12);
    assert_eq!(resolved[11], "get_10");
    for i in 0..resolved.len() {
        for j in 0..i {
            assert_ne!(resolved[i], resolved[j]);
        }
    }
}

#[test]
fn one_name_against_those_in_use() {
    let taken = vec!["foo".to_string(), "foo_0".to_string(), "foo_2".to_string()];
    assert!(is_taken(&taken, "foo_0"));
    assert!(!is_taken(&taken, "foo_1"));
    assert_eq!(resolve_name(&taken, "foo"), "foo_1");
    assert_eq!(resolve_name(&taken, "bar"), "bar");
    assert_eq!(suffix("foo", 12), "foo_12");
}
