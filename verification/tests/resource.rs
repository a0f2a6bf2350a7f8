use spsl::resource::{
    DirtyEvent, LoadError, LoadOutcome, LoadResult, Res, ResCache, ResCacheError,
    UPDATE_AWAIT_TIME_MS,
};

fn rs_cache() -> ResCache {
    ResCache::new("data", Some("/srv/data".to_owned())).unwrap()
}

fn rs_paths(paths: &[&str]) -> Vec<String> {
    paths.iter().map(|p| (*p).to_owned()).collect()
}

#[test]
fn a_root_without_canonical_form_does_not_exist() {
    match ResCache::new("nowhere", None) {
        Err(e) => assert_eq!(e, ResCacheError::RootDoesNotExist("nowhere".to_owned())),
        Ok(_) => panic!("a cache was created"),
    }
}

#[test]
fn keys_and_paths_are_joined_with_slashes() {
    assert_eq!(ResCache::cache_key("models", "cube.obj"), "models/cube.obj");
    assert_eq!(rs_cache().path_of("models/cube.obj"), "/srv/data/models/cube.obj");
    assert_eq!(UPDATE_AWAIT_TIME_MS, 1000);
}

#[test]
fn get_without_file_gives_nothing_and_caches_nothing() {
    let mut cache = rs_cache();
    assert_eq!(cache.get("models", "cube.obj", LoadOutcome::Absent, 10), None);
    assert_eq!(cache.lookup("models/cube.obj"), None);
    assert_eq!(
        cache.get_("models", "cube.obj", LoadOutcome::Absent, 10),
        Err(LoadError::FileNotFound("models/cube.obj".to_owned()))
    );
    assert_eq!(cache.get("models", "cube.obj", LoadOutcome::Loaded(Vec::new()), 10), Some(0));
}

#[test]
fn a_failed_load_is_reported_and_caches_nothing() {
    let mut cache = rs_cache();
    let failure = LoadError::ParseFailed("line 3".to_owned());
    assert_eq!(
        cache.get_("models", "cube.obj", LoadOutcome::Failed(failure.clone()), 10),
        Err(failure)
    );
    assert_eq!(
        cache.get("models", "cube.obj", LoadOutcome::Failed(LoadError::ConversionFailed("x".to_owned())), 10),
        None
    );
    assert_eq!(cache.lookup("models/cube.obj"), None);
}

#[test]
fn a_loaded_resource_is_a_hit_from_then_on() {
    let mut cache = rs_cache();
    assert_eq!(cache.get_("models", "cube.obj", LoadOutcome::Loaded(Vec::new()), 10), Ok(0));
    assert_eq!(cache.get_("models", "ball.obj", LoadOutcome::Loaded(Vec::new()), 11), Ok(1));
    assert_eq!(cache.get_("models", "cube.obj", LoadOutcome::Absent, 12), Ok(0));
    assert_eq!(cache.get_("textures", "cube.obj", LoadOutcome::Absent, 12).is_err(), true);
    assert_eq!(cache.lookup("models/ball.obj"), Some(1));
}

#[test]
fn a_proxy_is_cached_and_returned_again() {
    let mut cache = rs_cache();
    assert_eq!(cache.get("models", "cube.obj", LoadOutcome::Absent, 10), None);
    let proxy = cache.get_proxied("models", "cube.obj", LoadOutcome::Absent, 10);
    assert_eq!(proxy, 0);
    assert_eq!(cache.get("models", "cube.obj", LoadOutcome::Absent, 11), Some(proxy));
    assert_eq!(cache.get_proxied("models", "cube.obj", LoadOutcome::Loaded(Vec::new()), 12), proxy);
    let failed = LoadOutcome::Failed(LoadError::ParseFailed("bad".to_owned()));
    assert_eq!(cache.get_proxied("models", "ball.obj", failed, 13), 1);
    assert_eq!(cache.get_proxied("models", "cone.obj", LoadOutcome::Loaded(Vec::new()), 14), 2);
}

#[test]
fn inject_gives_the_next_handle_and_replaces_the_live_resource() {
    let mut cache = rs_cache();
    assert_eq!(cache.inject("models/cube.obj".to_owned(), Vec::new(), 0), 0);
    assert_eq!(cache.inject("models/cube.obj".to_owned(), Vec::new(), 5), 1);
    assert_eq!(cache.lookup("models/cube.obj"), Some(1));
}

#[test]
fn dirty_events_are_taken_out_in_order() {
    let mut cache = rs_cache();
    cache.mark_dirty("a".to_owned(), 1);
    cache.mark_dirty("b".to_owned(), 2);
    assert_eq!(
        cache.sync(),
        vec![DirtyEvent { path: "a".to_owned(), at: 1 }, DirtyEvent { path: "b".to_owned(), at: 2 }]
    );
    assert_eq!(cache.sync(), Vec::new());
}

#[test]
fn a_write_within_the_window_reloads_nothing() {
    let mut cache = rs_cache();
    let cube = cache.inject("models/cube.obj".to_owned(), Vec::new(), 5000);
    assert_eq!(cache.due("models/cube.obj", 5999), None);
    assert_eq!(cache.due("models/cube.obj", 6000), Some(cube));
    assert_eq!(cache.due("models/cube.obj", 100), None);
    assert_eq!(cache.due("models/ball.obj", 9000), None);
}

#[test]
fn every_write_moves_the_last_update() {
    let mut cache = rs_cache();
    let cube = cache.inject("models/cube.obj".to_owned(), Vec::new(), 0);
    assert_eq!(cache.due("models/cube.obj", 900), None);
    assert_eq!(cache.settle("models/cube.obj", 900, false), None);
    assert_eq!(cache.due("models/cube.obj", 1800), None);
    assert_eq!(cache.settle("models/cube.obj", 1800, false), None);
    assert_eq!(cache.due("models/cube.obj", 2799), None);
    assert_eq!(cache.due("models/cube.obj", 2800), Some(cube));
    assert_eq!(cache.settle("models/cube.obj", 2800, true), None);
    assert_eq!(cache.due("models/cube.obj", 2801), None);
    assert_eq!(cache.due("models/cube.obj", 3800), Some(cube));
}

#[test]
fn a_successful_reload_cascades_to_the_dependent() {
    let mut cache = rs_cache();
    let lib = cache.inject("modules/lib.spsl".to_owned(), Vec::new(), 0);
    let program = cache.inject("programs/p.glsl".to_owned(), rs_paths(&["modules/lib.spsl", "modules/x.spsl"]), 0);
    assert_eq!(cache.due("modules/lib.spsl", 1000), Some(lib));
    assert_eq!(cache.settle("modules/lib.spsl", 1000, true), Some(program));
    assert_eq!(cache.due("modules/lib.spsl", 1500), None);
    assert_eq!(cache.settle("modules/lib.spsl", 1500, true), None);
    assert_eq!(cache.due("modules/lib.spsl", 2500), Some(lib));
    assert_eq!(cache.settle("modules/lib.spsl", 2500, false), None);
    assert_eq!(cache.settle("modules/x.spsl", 9000, true), None);
    assert_eq!(cache.due("programs/p.glsl", 999), None);
}

#[test]
fn the_last_resource_that_declared_a_dependency_is_its_dependent() {
    let mut cache = rs_cache();
    cache.inject("modules/lib.spsl".to_owned(), Vec::new(), 0);
    cache.inject("programs/p.glsl".to_owned(), rs_paths(&["modules/lib.spsl"]), 0);
    let q = cache.inject("programs/q.glsl".to_owned(), rs_paths(&["modules/lib.spsl"]), 0);
    assert_eq!(cache.settle("modules/lib.spsl", 1000, true), Some(q));
}

#[test]
fn a_load_result_holds_the_resource_and_its_dependencies() {
    let plain = LoadResult::from(7u32);
    assert_eq!(plain.res, 7);
    assert_eq!(plain.dependencies, Vec::<String>::new());
    let with = LoadResult::new(8u32, rs_paths(&["a", "b"]));
    assert_eq!(with.res, 8);
    assert_eq!(with.dependencies, rs_paths(&["a", "b"]));
}

#[test]
fn holders_of_a_resource_share_one_value() {
    let res = Res::new(1u32);
    let other = res.clone();
    *res.as_rc().borrow_mut() = 2;
    assert_eq!(*other.as_rc().borrow(), 2);
    assert!(std::rc::Rc::ptr_eq(res.as_rc(), other.as_rc()));
}
