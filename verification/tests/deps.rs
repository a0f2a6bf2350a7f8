use spsl::deps::{DepsError, ModuleStore};
use spsl::module::{ImportList, Module, ModuleKey, ModulePath};
use spsl::syntax::{
    DataType, ExternalDeclaration, FullySpecifiedType, InitDeclaratorList, SingleDeclaration,
    TypeSpecifier,
};

fn dp_decl(name: &str) -> ExternalDeclaration {
    ExternalDeclaration::InitDeclaratorList(InitDeclaratorList {
        head: SingleDeclaration {
            ty: FullySpecifiedType {
                qualifier: None,
                ty: TypeSpecifier { ty: DataType::Vec4, array_specifier: None },
            },
            name: Some(name.to_owned()),
            array_specifier: None,
            initializer: None,
        },
        tail: Vec::new(),
    })
}

fn dp_import(key: &str) -> ImportList {
    ImportList {
        module: ModulePath { path: key.split('.').map(|s| s.to_owned()).collect() },
        list: vec!["all".to_owned()],
    }
}

fn dp_module(imports: &[&str], body: &[&str]) -> Module {
    Module {
        imports: imports.iter().map(|k| dp_import(k)).collect(),
        glsl: body.iter().map(|n| dp_decl(n)).collect(),
    }
}

fn dp_store(modules: &[(&str, &[&str])]) -> ModuleStore {
    let mut store = ModuleStore::new();
    for (key, imports) in modules {
        let first = format!("{}_first", key);
        let second = format!("{}_second", key);
        store.insert(ModuleKey::new(key), dp_module(imports, &[&first, &second]));
    }
    store
}

fn dp_keys(keys: &[&str]) -> Vec<ModuleKey> {
    keys.iter().map(|k| ModuleKey::new(k)).collect()
}

#[test]
fn the_key_of_an_import_joins_its_path_with_dots() {
    assert_eq!(dp_import("foo.bar.zoo").module_key(), ModuleKey::new("foo.bar.zoo"));
    assert_eq!(dp_import("zoo").module_key(), ModuleKey::new("zoo"));
    let nothing = ImportList { module: ModulePath { path: Vec::new() }, list: Vec::new() };
    assert_eq!(nothing.module_key(), ModuleKey::new(""));
}

#[test]
fn a_module_without_imports_has_no_dependencies() {
    let store = dp_store(&[("a", &[])]);
    let module = dp_module(&[], &["x"]);
    assert_eq!(module.deps(&store, &ModuleKey::new("m")), Ok(Vec::new()));
}

#[test]
fn gather_without_imports_returns_the_body_unchanged() {
    let store = dp_store(&[("a", &[])]);
    let module = dp_module(&[], &["x", "y"]);
    let (flat, deps) = module.gather(&store, &ModuleKey::new("m")).unwrap();
    assert_eq!(deps, Vec::new());
    assert_eq!(flat, dp_module(&[], &["x", "y"]));
}

#[test]
fn gather_of_a_chain_concatenates_in_dependency_order() {
    let store = dp_store(&[("a", &[]), ("b", &["a"])]);
    let c = dp_module(&["b"], &["c_first", "c_second"]);
    let (flat, deps) = c.gather(&store, &ModuleKey::new("c")).unwrap();
    assert_eq!(deps, dp_keys(&["a", "b"]));
    assert_eq!(
        flat,
        dp_module(&[], &["a_first", "a_second", "b_first", "b_second", "c_first", "c_second"])
    );
}

#[test]
fn a_shared_dependency_is_listed_once_and_first() {
    let store = dp_store(&[("base", &[]), ("left", &["base"]), ("right", &["base", "left"])]);
    let top = dp_module(&["left", "right", "base"], &[]);
    assert_eq!(top.deps(&store, &ModuleKey::new("top")), Ok(dp_keys(&["base", "left", "right"])));
    let other = dp_module(&["right", "left"], &[]);
    assert_eq!(other.deps(&store, &ModuleKey::new("top")), Ok(dp_keys(&["base", "left", "right"])));
}

#[test]
fn every_dependency_comes_after_its_own_dependencies() {
    let store = dp_store(&[
        ("a", &["b", "c"]),
        ("b", &["d"]),
        ("c", &["d", "e"]),
        ("d", &[]),
        ("e", &["d"]),
    ]);
    let top = dp_module(&["a", "e"], &[]);
    let deps = top.deps(&store, &ModuleKey::new("top")).unwrap();
    assert_eq!(deps, dp_keys(&["d", "b", "e", "c", "a"]));
    let edges = [("a", "b"), ("a", "c"), ("b", "d"), ("c", "d"), ("c", "e"), ("e", "d")];
    for (u, v) in edges {
        let pu = deps.iter().position(|k| k.as_str() == u).unwrap();
        let pv = deps.iter().position(|k| k.as_str() == v).unwrap();
        assert!(pv < pu);
    }
}

#[test]
fn a_module_that_imports_itself_is_a_cycle() {
    let store = ModuleStore::new();
    let module = dp_module(&["m"], &[]);
    assert_eq!(
        module.deps(&store, &ModuleKey::new("m")),
        Err(DepsError::Cycle(ModuleKey::new("m"), ModuleKey::new("m")))
    );
    assert_eq!(
        module.gather(&store, &ModuleKey::new("m")),
        Err(DepsError::Cycle(ModuleKey::new("m"), ModuleKey::new("m")))
    );
}

#[test]
fn a_longer_cycle_names_the_importer_and_the_imported() {
    let store = dp_store(&[("a", &["b"]), ("b", &["c"]), ("c", &["a"])]);
    let top = dp_module(&["a"], &[]);
    assert_eq!(
        top.deps(&store, &ModuleKey::new("top")),
        Err(DepsError::Cycle(ModuleKey::new("c"), ModuleKey::new("a")))
    );
    let back = dp_store(&[("a", &["top"])]);
    assert_eq!(
        top.deps(&back, &ModuleKey::new("top")),
        Err(DepsError::Cycle(ModuleKey::new("a"), ModuleKey::new("top")))
    );
}

#[test]
fn a_module_that_is_not_in_the_store_is_a_load_error() {
    let store = dp_store(&[("a", &["missing.module"])]);
    let top = dp_module(&["a"], &[]);
    assert_eq!(
        top.deps(&store, &ModuleKey::new("top")),
        Err(DepsError::LoadError(ModuleKey::new("missing.module")))
    );
}

#[test]
fn a_later_module_replaces_an_earlier_one_of_the_same_key() {
    let mut store = dp_store(&[("a", &["b"]), ("b", &[])]);
    assert!(store.get(&ModuleKey::new("c")).is_none());
    store.insert(ModuleKey::new("a"), dp_module(&[], &["new"]));
    assert_eq!(store.get(&ModuleKey::new("a")), Some(&dp_module(&[], &["new"])));
    let top = dp_module(&["a"], &[]);
    assert_eq!(top.deps(&store, &ModuleKey::new("top")), Ok(dp_keys(&["a"])));
}
