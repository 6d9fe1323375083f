use runtime_checker::cli::RuntimeKind;
use runtime_checker::data::{node_runtime, runtime, DataError, RuntimeDb, RuntimeRegistry};

fn db(name: &str) -> RuntimeDb {
    RuntimeDb {
        name: name.to_string(),
        features: vec![],
        globals: vec![],
        member_chains: vec![],
        properties: vec![],
        syntax: vec![],
        support: vec![],
        fast_patterns: vec![],
    }
}

#[test]
fn each_runtime_kind_gets_its_own_database() {
    let registry = RuntimeRegistry {
        node: db("node"),
        deno: db("deno"),
        bun: db("bun"),
        safari: db("safari"),
        chrome: db("chrome"),
        firefox: db("firefox"),
    };
    for (kind, name) in [
        (RuntimeKind::Node, "node"),
        (RuntimeKind::Deno, "deno"),
        (RuntimeKind::Bun, "bun"),
        (RuntimeKind::Safari, "safari"),
        (RuntimeKind::Chrome, "chrome"),
        (RuntimeKind::Firefox, "firefox"),
    ] {
        assert_eq!(runtime(&registry, kind).unwrap().name(), name);
    }
    assert_eq!(runtime(&registry, RuntimeKind::All).err(), Some(DataError::NotConcreteRuntime));
    assert_eq!(node_runtime(&registry).name(), "node");
}
