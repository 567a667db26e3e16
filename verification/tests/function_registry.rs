use local_engine::functions::{FunctionModule, FunctionRegistry, JsonFunctions, ScalarUdf};

fn name(s: &str) -> String {
    s.to_string()
}

#[test]
fn a_new_registry_knows_nothing() {
    let r = FunctionRegistry::new();
    assert_eq!(r.get(&name("json_query")), None);
    assert!(r.entries().is_empty());
}

#[test]
fn functions_are_found_under_name_and_aliases() {
    let mut r = FunctionRegistry::new();
    r.add_fn(&ScalarUdf {
        name: name("length"),
        aliases: vec![name("len"), name("size")],
    });
    assert_eq!(r.get(&name("length")), Some(name("length")));
    assert_eq!(r.get(&name("len")), Some(name("length")));
    assert_eq!(r.get(&name("size")), Some(name("length")));
    assert_eq!(r.get(&name("width")), None);
    assert_eq!(r.entries().len(), 3);
}

#[test]
fn a_later_entry_replaces_an_earlier_one() {
    let mut r = FunctionRegistry::new();
    r.add_fn(&ScalarUdf {
        name: name("a"),
        aliases: vec![name("x")],
    });
    r.add_fn(&ScalarUdf {
        name: name("b"),
        aliases: vec![name("x")],
    });
    assert_eq!(r.get(&name("x")), Some(name("b")));
    assert_eq!(r.get(&name("a")), Some(name("a")));
    assert_eq!(r.entries().len(), 3);
    r.insert(name("a"), name("c"));
    assert_eq!(r.get(&name("a")), Some(name("c")));
}

#[test]
fn json_functions_register_the_query_function() {
    let mut r = FunctionRegistry::new();
    r.register::<JsonFunctions>();
    assert_eq!(r.get(&name("json_query")), Some(name("json_query")));
    let mut other = FunctionRegistry::new();
    JsonFunctions::register(&mut other);
    assert_eq!(other.entries().len(), 1);
}
