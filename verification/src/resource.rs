//! The index of a resource cache.
//!
//! A resource is a typed value loaded from a file below the root of the
//! cache. The index knows every live resource by its key, the tag of its type
//! followed by its path below the root, and gives each a handle: the position
//! at which it was injected. It also knows when each resource was last
//! updated, which resource is to be told when a path changes, and which paths
//! have been reported as written to. Loading and reloading themselves are the
//! caller's: every function here takes what the file system and the loader
//! gave, and says what the cache does with it.
use crate::syntax::view_seq;
use std::cell::RefCell;
use std::rc::Rc;
use vstd::prelude::*;
use vstd::string::*;

verus! {

/// `std::cell::RefCell`, the cell that the holders of a resource share.
#[verifier::external_type_specification]
#[verifier::external_body]
#[verifier::reject_recursive_types(T)]
pub struct ExRefCell<T: ?Sized>(RefCell<T>);

/// `RefCell::new`: a cell around the value. Nothing is stated of the result:
/// what a cell holds can change behind a shared reference.
pub assume_specification<T>[ RefCell::<T>::new ](value: T) -> (r: RefCell<T>)
;

/// `any_cache::HashCache`, in which the cache files the handle of every live
/// resource.
#[verifier::external_type_specification]
#[verifier::external_body]
pub struct ExHashCache(any_cache::HashCache);

/// The key under which the cache files the handle of a resource.
#[derive(Hash)]
pub struct ResKey(pub String);

impl any_cache::CacheKey for ResKey {
    type Target = usize;
}

/// What a `HashCache` answers for each [`ResKey`]: the handle that `get`
/// returns for the key, for every key for which it returns one.
pub uninterp spec fn cached_handles(cache: any_cache::HashCache) -> Map<Seq<char>, usize>;

/// Whether `after` is what a cache that answered `before` may answer once
/// `handle` was saved under `key`: it answers `handle` for `key`, and for any
/// other key either `handle` too or what it answered before. (The cache
/// files a value under a hash of its key, so a save may take the place of
/// the value of another key.)
pub open spec fn saved(
    before: Map<Seq<char>, usize>,
    after: Map<Seq<char>, usize>,
    key: Seq<char>,
    handle: usize,
) -> bool {
    &&& after.contains_key(key)
    &&& after[key] == handle
    &&& forall|k: Seq<char>|
        #![trigger after.contains_key(k)]
        #![trigger before.contains_key(k)]
        (after.contains_key(k) && after[k] == handle) || (after.contains_key(k)
            == before.contains_key(k) && (before.contains_key(k) ==> after[k] == before[k]))
}

/// The answers of a cache that holds nothing.
pub open spec fn no_handles() -> Map<Seq<char>, usize> {
    Map::empty()
}

/// `HashCache::new`: a cache that holds nothing, so it answers for no key.
#[verifier::external_body]
fn new_handles() -> (r: any_cache::HashCache)
    ensures
        cached_handles(r) == no_handles(),
{
    any_cache::HashCache::new()
}

/// `Cache::get` of `HashCache`: the value filed under the hash of the key,
/// if there is one. This is what [`cached_handles`] names.
#[verifier::external_body]
fn cached_handle(cache: &any_cache::HashCache, key: &str) -> (r: Option<usize>)
    ensures
        r == (if cached_handles(*cache).contains_key(key@) {
            Some(cached_handles(*cache)[key@])
        } else {
            None::<usize>
        }),
{
    any_cache::Cache::get(cache, &ResKey(key.to_owned())).copied()
}

/// `Cache::save` of `HashCache`: files the value under the hash of the key,
/// in place of what was filed there. After it the cache answers the value
/// for the key; what it answers for another key is the value too, if the
/// hashes of the two keys are the same, and is unchanged otherwise.
#[verifier::external_body]
fn cache_handle(cache: &mut any_cache::HashCache, key: &str, handle: usize)
    ensures
        saved(cached_handles(*old(cache)), cached_handles(*final(cache)), key@, handle),
{
    any_cache::Cache::save(cache, ResKey(key.to_owned()), handle);
}

/// Time, in milliseconds, that has to pass after the last update of a
/// resource before a write to its file reloads it.
pub const UPDATE_AWAIT_TIME_MS: u64 = 1000;

/// Why a resource could not be loaded.
#[derive(Debug, PartialEq, Eq)]
pub enum LoadError {
    /// The file was not found.
    FileNotFound(String),
    /// The file was not parsed.
    ParseFailed(String),
    /// The file was parsed, but what it holds could not be converted.
    ConversionFailed(String),
}

/// The model of a [`LoadError`].
pub ghost enum LoadErrorView {
    FileNotFound(Seq<char>),
    ParseFailed(Seq<char>),
    ConversionFailed(Seq<char>),
}

impl View for LoadError {
    type V = LoadErrorView;

    open spec fn view(&self) -> LoadErrorView {
        match *self {
            LoadError::FileNotFound(a) => LoadErrorView::FileNotFound(a@),
            LoadError::ParseFailed(a) => LoadErrorView::ParseFailed(a@),
            LoadError::ConversionFailed(a) => LoadErrorView::ConversionFailed(a@),
        }
    }
}

impl Clone for LoadError {
    fn clone(&self) -> (r: Self)
        ensures
            r@ == self@,
    {
        match self {
            LoadError::FileNotFound(a) => LoadError::FileNotFound(a.clone()),
            LoadError::ParseFailed(a) => LoadError::ParseFailed(a.clone()),
            LoadError::ConversionFailed(a) => LoadError::ConversionFailed(a.clone()),
        }
    }
}

/// Why a cache could not be created.
#[derive(Debug, PartialEq, Eq)]
pub enum ResCacheError {
    /// The root of the resources does not exist.
    RootDoesNotExist(String),
}

impl Clone for ResCacheError {
    fn clone(&self) -> (r: Self)
        ensures
            match (*self, r) {
                (ResCacheError::RootDoesNotExist(a), ResCacheError::RootDoesNotExist(b)) => a@ == b@,
            },
    {
        match self {
            ResCacheError::RootDoesNotExist(a) => ResCacheError::RootDoesNotExist(a.clone()),
        }
    }
}

/// What loading a resource gives: the resource and the paths it depends on.
pub struct LoadResult<T> {
    /// The loaded resource.
    pub res: T,
    /// The paths that the resource declared as its dependencies.
    pub dependencies: Vec<String>,
}

impl<T> LoadResult<T> {
    /// A resource with its dependencies.
    pub fn new(res: T, dependencies: Vec<String>) -> (r: Self)
        ensures
            r.res == res,
            r.dependencies == dependencies,
    {
        LoadResult { res, dependencies }
    }

    /// A resource without dependencies.
    pub fn from(t: T) -> (r: Self)
        ensures
            r.res == t,
            r.dependencies@.len() == 0,
    {
        LoadResult { res: t, dependencies: Vec::new() }
    }
}

/// A resource, shared by everyone who holds it.
#[verifier::reject_recursive_types(T)]
pub struct Res<T>(pub Rc<RefCell<T>>);

impl<T> Res<T> {
    /// Wraps a value as a resource.
    pub fn new(resource: T) -> (r: Self) {
        Res(Rc::new(RefCell::new(resource)))
    }

    /// The shared cell of the resource.
    pub fn as_rc(&self) -> (r: &Rc<RefCell<T>>)
        ensures
            *r == self.0,
    {
        &self.0
    }
}

impl<T> Clone for Res<T> {
    fn clone(&self) -> (r: Self)
        ensures
            r == *self,
    {
        Res(self.0.clone())
    }
}

/// A write to a file below the root, as the watcher reported it.
#[derive(Debug, PartialEq, Eq)]
pub struct DirtyEvent {
    /// The path of the file below the root.
    pub path: String,
    /// When the write was detected, in milliseconds.
    pub at: u64,
}

impl View for DirtyEvent {
    type V = (Seq<char>, u64);

    open spec fn view(&self) -> (Seq<char>, u64) {
        (self.path@, self.at)
    }
}

/// What the file system and the loader gave for a resource.
#[derive(Debug, PartialEq, Eq)]
pub enum LoadOutcome {
    /// There is no file for the resource.
    Absent,
    /// The file is there, and loading it failed.
    Failed(LoadError),
    /// The resource was loaded; it declared these paths as its dependencies.
    Loaded(Vec<String>),
}

/// The model of a [`LoadOutcome`].
pub ghost enum LoadOutcomeView {
    Absent,
    Failed(LoadErrorView),
    Loaded(Seq<Seq<char>>),
}

impl View for LoadOutcome {
    type V = LoadOutcomeView;

    open spec fn view(&self) -> LoadOutcomeView {
        match *self {
            LoadOutcome::Absent => LoadOutcomeView::Absent,
            LoadOutcome::Failed(e) => LoadOutcomeView::Failed(e@),
            LoadOutcome::Loaded(d) => LoadOutcomeView::Loaded(view_seq(d@)),
        }
    }
}

/// The index of a resource cache.
pub struct ResCache {
    root: String,
    cache: any_cache::HashCache,
    keys: Vec<String>,
    last_updates: Vec<u64>,
    dependencies: Vec<String>,
    dependents: Vec<String>,
    dirty: Vec<DirtyEvent>,
}

/// The model of a [`ResCache`].
pub ghost struct ResCacheView {
    /// The root of the resources.
    pub root: Seq<char>,
    /// The handle of the live resource of each key.
    pub cache: Map<Seq<char>, usize>,
    /// The key of every injected resource; the position is its handle.
    pub keys: Seq<Seq<char>>,
    /// When each resource was last updated, by handle.
    pub last_updates: Seq<u64>,
    /// The paths that were declared as dependencies, in the order of their
    /// declaration.
    pub dependencies: Seq<Seq<char>>,
    /// For each declared dependency, the key of the resource that declared
    /// it.
    pub dependents: Seq<Seq<char>>,
    /// The writes that were reported and not yet taken out.
    pub dirty: Seq<(Seq<char>, u64)>,
}

/// The last position of `k` in `keys`, if it occurs.
pub open spec fn find_last(keys: Seq<Seq<char>>, k: Seq<char>) -> Option<int>
    decreases keys.len(),
{
    if keys.len() == 0 {
        None
    } else if keys.last() == k {
        Some(keys.len() - 1)
    } else {
        find_last(keys.drop_last(), k)
    }
}

/// What [`find_last`] finds is a position of the key.
pub proof fn lemma_find_last(keys: Seq<Seq<char>>, k: Seq<char>)
    ensures
        match find_last(keys, k) {
            Some(i) => 0 <= i < keys.len() && keys[i] == k,
            None => !keys.contains(k),
        },
    decreases keys.len(),
{
    if keys.len() != 0 && keys.last() != k {
        lemma_find_last(keys.drop_last(), k);
        if keys.contains(k) {
            let i = choose|i: int| 0 <= i < keys.len() && keys[i] == k;
            assert(keys.drop_last()[i] == k);
        }
    }
}

/// The key of a resource: the tag of its type, a slash, and its path.
pub open spec fn key_of(ty: Seq<char>, key: Seq<char>) -> Seq<char> {
    ty + seq!['/'] + key
}

/// Whether a write detected at `at` comes long enough after `last_update`
/// to reload.
pub open spec fn elapsed(last_update: u64, at: u64) -> bool {
    at - last_update >= UPDATE_AWAIT_TIME_MS
}

impl ResCacheView {
    /// Whether the model is well formed: one time per resource, one
    /// dependent per declared dependency, and every handle that the cache
    /// answers is the handle of an injected resource.
    pub open spec fn well_formed(self) -> bool {
        &&& self.keys.len() == self.last_updates.len()
        &&& self.keys.len() <= usize::MAX
        &&& self.dependencies.len() == self.dependents.len()
        &&& forall|k: Seq<char>| #[trigger]
            self.cache.contains_key(k) ==> self.cache[k] < self.keys.len()
    }

    /// The handle of the live resource of a key, as the cache answers it.
    pub open spec fn handle(self, key: Seq<char>) -> Option<int> {
        if self.cache.contains_key(key) {
            Some(self.cache[key] as int)
        } else {
            None
        }
    }

    /// The handle of the resource that was injected last under a key.
    pub open spec fn latest(self, key: Seq<char>) -> Option<int> {
        find_last(self.keys, key)
    }

    /// The key of the resource to tell when `path` was reloaded: the last
    /// one that declared `path` as a dependency.
    pub open spec fn dependent(self, path: Seq<char>) -> Option<Seq<char>> {
        match find_last(self.dependencies, path) {
            Some(i) => Some(self.dependents[i]),
            None => None,
        }
    }

    /// Whether `after` is the cache once a resource was injected under `key`
    /// at time `now` with the given dependencies: the resource has the next
    /// handle, the cache answers it for `key`, and the resource is the
    /// dependent of each of its dependencies.
    pub open spec fn injected(
        self,
        after: ResCacheView,
        key: Seq<char>,
        dependencies: Seq<Seq<char>>,
        now: u64,
    ) -> bool {
        &&& after.root == self.root
        &&& after.dirty == self.dirty
        &&& after.keys == self.keys.push(key)
        &&& after.last_updates == self.last_updates.push(now)
        &&& after.dependencies == self.dependencies + dependencies
        &&& after.dependents == self.dependents + Seq::new(dependencies.len(), |i: int| key)
        &&& saved(self.cache, after.cache, key, self.keys.len() as usize)
    }

    /// The answer to asking for the resource `key` of the type tagged `ty`.
    ///
    /// A live resource is the answer. Otherwise the outcome of loading
    /// decides: without a file the answer is `FileNotFound` with the key,
    /// after a failure it is that failure, and a loaded resource is the
    /// answer, under the next handle.
    pub open spec fn answer(self, ty: Seq<char>, key: Seq<char>, outcome: LoadOutcomeView)
        -> Result<int, LoadErrorView> {
        let k = key_of(ty, key);
        match self.handle(k) {
            Some(h) => Ok(h),
            None => match outcome {
                LoadOutcomeView::Absent => Err(LoadErrorView::FileNotFound(k)),
                LoadOutcomeView::Failed(e) => Err(e),
                LoadOutcomeView::Loaded(_) => Ok(self.keys.len() as int),
            },
        }
    }

    /// Whether `after` is the cache once the resource `key` of the type
    /// tagged `ty` was asked for: a loaded resource is injected where the
    /// cache held no live one, and nothing changes otherwise.
    pub open spec fn fetched(
        self,
        after: ResCacheView,
        ty: Seq<char>,
        key: Seq<char>,
        outcome: LoadOutcomeView,
        now: u64,
    ) -> bool {
        match (self.handle(key_of(ty, key)), outcome) {
            (None, LoadOutcomeView::Loaded(d)) => self.injected(after, key_of(ty, key), d, now),
            _ => after == self,
        }
    }

    /// Whether `after` is the cache once the resource was asked for with a
    /// proxy at hand: as [`Self::fetched`], but where the answer is an error
    /// the proxy is injected, without dependencies.
    pub open spec fn proxied(
        self,
        after: ResCacheView,
        ty: Seq<char>,
        key: Seq<char>,
        outcome: LoadOutcomeView,
        now: u64,
    ) -> bool {
        match self.answer(ty, key, outcome) {
            Ok(_) => self.fetched(after, ty, key, outcome, now),
            Err(_) => self.injected(after, key_of(ty, key), Seq::empty(), now),
        }
    }

    /// The answer to asking for a resource with a proxy at hand: the answer
    /// of [`Self::answer`], or the proxy, under the next handle.
    pub open spec fn proxy_answer(self, ty: Seq<char>, key: Seq<char>, outcome: LoadOutcomeView)
        -> int {
        match self.answer(ty, key, outcome) {
            Ok(h) => h,
            Err(_) => self.keys.len() as int,
        }
    }

    /// The resource to reload for a write to `path` detected at `at`: the
    /// resource that was injected last under that key, if enough time has
    /// passed since its last update.
    pub open spec fn due(self, path: Seq<char>, at: u64) -> Option<int> {
        match self.latest(path) {
            Some(h) => if elapsed(self.last_updates[h], at) {
                Some(h)
            } else {
                None
            },
            None => None,
        }
    }

    /// The cache after a write to `path` detected at `at` was dealt with:
    /// the resource of that key, if there is one, was last updated at `at`,
    /// whether it was reloaded or not.
    pub open spec fn settled(self, path: Seq<char>, at: u64) -> ResCacheView {
        match self.latest(path) {
            Some(h) => ResCacheView { last_updates: self.last_updates.update(h, at), ..self },
            None => self,
        }
    }

    /// The resource to reload next after a write to `path` detected at `at`
    /// was dealt with: the dependent of `path`, if the resource of `path`
    /// was due and its reload succeeded.
    pub open spec fn cascade(self, path: Seq<char>, at: u64, reloaded: bool) -> Option<int> {
        if reloaded && self.due(path, at) is Some {
            match self.dependent(path) {
                Some(d) => self.latest(d),
                None => None,
            }
        } else {
            None
        }
    }
}

/// The last position of `key` in `keys`, if it occurs.
fn position(keys: &Vec<String>, key: &str) -> (r: Option<usize>)
    ensures
        match r {
            Some(i) => find_last(view_seq(keys@), key@) == Some(i as int) && i < keys.len(),
            None => find_last(view_seq(keys@), key@) is None,
        },
{
    let ghost all = view_seq(keys@);
    let mut i: usize = keys.len();
    proof {
        assert(all.take(i as int) =~= all);
    }
    while i > 0
        invariant
            i <= keys.len(),
            all == view_seq(keys@),
            find_last(all, key@) == find_last(all.take(i as int), key@),
        decreases i,
    {
        proof {
            assert(all.take(i as int).drop_last() =~= all.take(i - 1));
            assert(all.take(i as int).last() == keys@[i - 1]@);
        }
        if crate::module::same_text(&keys[i - 1], key) {
            return Some(i - 1);
        }
        i -= 1;
    }
    None
}

impl View for ResCache {
    type V = ResCacheView;

    closed spec fn view(&self) -> ResCacheView {
        ResCacheView {
            root: self.root@,
            cache: cached_handles(self.cache),
            keys: view_seq(self.keys@),
            last_updates: self.last_updates@,
            dependencies: view_seq(self.dependencies@),
            dependents: view_seq(self.dependents@),
            dirty: view_seq(self.dirty@),
        }
    }
}

impl ResCache {
    /// A cache without resources for the root `root`, whose canonical form
    /// is `canonical`; `RootDoesNotExist` with `root` if it has none.
    pub fn new(root: &str, canonical: Option<String>) -> (r: Result<ResCache, ResCacheError>)
        ensures
            match r {
                Ok(cache) => canonical is Some && cache@.well_formed() && cache@ == (ResCacheView {
                    root: canonical.unwrap()@,
                    cache: Map::empty(),
                    keys: Seq::empty(),
                    last_updates: Seq::empty(),
                    dependencies: Seq::empty(),
                    dependents: Seq::empty(),
                    dirty: Seq::empty(),
                }),
                Err(ResCacheError::RootDoesNotExist(p)) => canonical is None && p@ == root@,
            },
    {
        match canonical {
            Some(canon_root) => {
                let cache = ResCache {
                    root: canon_root,
                    cache: new_handles(),
                    keys: Vec::new(),
                    last_updates: Vec::new(),
                    dependencies: Vec::new(),
                    dependents: Vec::new(),
                    dirty: Vec::new(),
                };
                proof {
                    assert(cache@.keys =~= Seq::empty());
                    assert(cache@.dependencies =~= Seq::empty());
                    assert(cache@.dependents =~= Seq::empty());
                    assert(cache@.dirty =~= Seq::empty());
                }
                Ok(cache)
            },
            None => Err(ResCacheError::RootDoesNotExist(String::from_str(root))),
        }
    }

    /// The key of the resource `key` of the type tagged `ty`.
    pub fn cache_key(ty: &str, key: &str) -> (r: String)
        ensures
            r@ == key_of(ty@, key@),
    {
        let mut k = String::from_str(ty);
        k.append("/");
        k.append(key);
        proof {
            reveal_strlit("/");
            assert("/"@ =~= seq!['/']);
        }
        k
    }

    /// The path of the file of a resource: the root, a slash, and the key.
    pub fn path_of(&self, cache_key: &str) -> (r: String)
        ensures
            r@ == self@.root + seq!['/'] + cache_key@,
    {
        let mut p = self.root.clone();
        p.append("/");
        p.append(cache_key);
        proof {
            reveal_strlit("/");
            assert("/"@ =~= seq!['/']);
        }
        p
    }

    /// The handle of the live resource of a key, if there is one.
    pub fn lookup(&self, cache_key: &str) -> (r: Option<usize>)
        requires
            self@.well_formed(),
        ensures
            match r {
                Some(h) => self@.handle(cache_key@) == Some(h as int) && h < self@.keys.len(),
                None => self@.handle(cache_key@) is None,
            },
    {
        cached_handle(&self.cache, cache_key)
    }

    /// Injects a resource under `key`, loaded at `now` with the given
    /// dependencies. Returns its handle.
    pub fn inject(&mut self, key: String, dependencies: Vec<String>, now: u64) -> (r: usize)
        requires
            old(self)@.well_formed(),
        ensures
            final(self)@.well_formed(),
            old(self)@.injected(final(self)@, key@, view_seq(dependencies@), now),
            r == old(self)@.keys.len(),
            final(self)@.handle(key@) == Some(r as int),
            final(self)@.latest(key@) == Some(r as int),
    {
        let ghost before = self@;
        let ghost declared = view_seq(dependencies@);
        let handle = self.keys.len();
        let mut i: usize = 0;
        proof {
            assert(view_seq(self.dependencies@) =~= before.dependencies + declared.take(0));
            assert(view_seq(self.dependents@) =~= before.dependents + Seq::new(0, |j: int| key@));
        }
        while i < dependencies.len()
            invariant
                i <= dependencies.len(),
                declared == view_seq(dependencies@),
                self.keys == old(self).keys,
                self.cache == old(self).cache,
                self.last_updates == old(self).last_updates,
                self.root == old(self).root,
                self.dirty == old(self).dirty,
                before == old(self)@,
                view_seq(self.dependencies@) == before.dependencies + declared.take(i as int),
                view_seq(self.dependents@) == before.dependents + Seq::new(i as nat, |j: int| key@),
            decreases dependencies.len() - i,
        {
            let ghost paths = view_seq(self.dependencies@);
            let ghost owners = view_seq(self.dependents@);
            self.dependencies.push(dependencies[i].clone());
            self.dependents.push(key.clone());
            proof {
                assert(view_seq(self.dependencies@) =~= paths.push(declared[i as int]));
                assert(view_seq(self.dependents@) =~= owners.push(key@));
                assert(view_seq(self.dependencies@) =~= before.dependencies + declared.take(i + 1));
                assert(view_seq(self.dependents@) =~= before.dependents + Seq::new(
                    (i + 1) as nat,
                    |j: int| key@,
                ));
            }
            i += 1;
        }
        let ghost k = key@;
        cache_handle(&mut self.cache, key.as_str(), handle);
        self.keys.push(key);
        self.last_updates.push(now);
        let injected = self.keys.len();
        proof {
            assert(declared.take(i as int) =~= declared);
            assert(view_seq(self.keys@) =~= before.keys.push(k));
            assert(self@.keys.drop_last() =~= before.keys);
            assert(saved(before.cache, self@.cache, k, handle));
            assert forall|x: Seq<char>| #[trigger] self@.cache.contains_key(x) implies self@.cache[x]
                < self@.keys.len() by {
                if !(self@.cache[x] == handle) {
                    assert(before.cache.contains_key(x));
                }
            }
        }
        handle
    }

    /// Asks for the resource `key` of the type tagged `ty`. `outcome` is what
    /// loading its file gave; it is looked at only if the cache holds no
    /// live resource of that key.
    pub fn get_(&mut self, ty: &str, key: &str, outcome: LoadOutcome, now: u64) -> (r: Result<
        usize,
        LoadError,
    >)
        requires
            old(self)@.well_formed(),
        ensures
            final(self)@.well_formed(),
            old(self)@.fetched(final(self)@, ty@, key@, outcome@, now),
            match r {
                Ok(h) => old(self)@.answer(ty@, key@, outcome@) == Ok::<int, LoadErrorView>(h as int)
                    && final(self)@.handle(key_of(ty@, key@)) == Some(h as int),
                Err(e) => old(self)@.answer(ty@, key@, outcome@) == Err::<int, _>(e@),
            },
    {
        let k = Self::cache_key(ty, key);
        match self.lookup(k.as_str()) {
            Some(h) => Ok(h),
            None => match outcome {
                LoadOutcome::Absent => Err(LoadError::FileNotFound(k)),
                LoadOutcome::Failed(e) => Err(e),
                LoadOutcome::Loaded(dependencies) => Ok(self.inject(k, dependencies, now)),
            },
        }
    }

    /// Asks for a resource, as [`Self::get_`]; there is no answer where that
    /// fails. Without a live resource and without a file the cache does not
    /// change.
    pub fn get(&mut self, ty: &str, key: &str, outcome: LoadOutcome, now: u64) -> (r: Option<usize>)
        requires
            old(self)@.well_formed(),
        ensures
            final(self)@.well_formed(),
            old(self)@.fetched(final(self)@, ty@, key@, outcome@, now),
            match r {
                Some(h) => old(self)@.answer(ty@, key@, outcome@) == Ok::<int, LoadErrorView>(
                    h as int,
                ) && final(self)@.handle(key_of(ty@, key@)) == Some(h as int),
                None => old(self)@.answer(ty@, key@, outcome@) is Err,
            },
            old(self)@.handle(key_of(ty@, key@)) is None && outcome@ is Absent ==> r is None
                && final(self)@ == old(self)@,
    {
        match self.get_(ty, key, outcome, now) {
            Ok(h) => Some(h),
            Err(_) => None,
        }
    }

    /// Asks for a resource, as [`Self::get_`]; where that fails, the proxy
    /// that the caller holds is injected under the key, without
    /// dependencies, and is the answer.
    pub fn get_proxied(&mut self, ty: &str, key: &str, outcome: LoadOutcome, now: u64) -> (r: usize)
        requires
            old(self)@.well_formed(),
        ensures
            final(self)@.well_formed(),
            old(self)@.proxied(final(self)@, ty@, key@, outcome@, now),
            r == old(self)@.proxy_answer(ty@, key@, outcome@),
            final(self)@.handle(key_of(ty@, key@)) == Some(r as int),
    {
        match self.get_(ty, key, outcome, now) {
            Ok(h) => h,
            Err(_) => {
                let k = Self::cache_key(ty, key);
                let none: Vec<String> = Vec::new();
                proof {
                    assert(view_seq(none@) =~= Seq::empty());
                }
                self.inject(k, none, now)
            },
        }
    }

    /// Records a write to `path`, detected at `at`.
    pub fn mark_dirty(&mut self, path: String, at: u64)
        ensures
            final(self)@ == (ResCacheView {
                dirty: old(self)@.dirty.push((path@, at)),
                ..old(self)@
            }),
    {
        let ghost before = view_seq(self.dirty@);
        self.dirty.push(DirtyEvent { path, at });
        proof {
            assert(view_seq(self.dirty@) =~= before.push((path@, at)));
        }
    }

    /// Starts a round of reloads: takes every recorded write out of the
    /// cache, in the order of their recording. The caller deals with each in
    /// turn: it reloads what [`Self::due`] names, then calls
    /// [`Self::settle`] and reloads what that names.
    pub fn sync(&mut self) -> (r: Vec<DirtyEvent>)
        ensures
            view_seq(r@) == old(self)@.dirty,
            final(self)@ == (ResCacheView { dirty: Seq::empty(), ..old(self)@ }),
    {
        let mut taken: Vec<DirtyEvent> = Vec::new();
        proof {
            assert(view_seq(taken@) =~= Seq::empty());
        }
        std::mem::swap(&mut self.dirty, &mut taken);
        taken
    }

    /// The resource to reload for a write to `path` detected at `at`.
    pub fn due(&self, path: &str, at: u64) -> (r: Option<usize>)
        requires
            self@.well_formed(),
        ensures
            match r {
                Some(h) => self@.due(path@, at) == Some(h as int) && h < self@.keys.len(),
                None => self@.due(path@, at) is None,
            },
    {
        match position(&self.keys, path) {
            Some(h) => {
                let last = self.last_updates[h];
                if at >= last && at - last >= UPDATE_AWAIT_TIME_MS {
                    Some(h)
                } else {
                    None
                }
            },
            None => None,
        }
    }

    /// Ends the dealing with a write to `path` detected at `at`. `reloaded`
    /// says whether the resource that was due has been reloaded. The live
    /// resource of `path` is from now on last updated at `at`. Returns the
    /// resource to reload next, if any.
    pub fn settle(&mut self, path: &str, at: u64, reloaded: bool) -> (r: Option<usize>)
        requires
            old(self)@.well_formed(),
        ensures
            final(self)@.well_formed(),
            final(self)@ == old(self)@.settled(path@, at),
            match r {
                Some(h) => old(self)@.cascade(path@, at, reloaded) == Some(h as int)
                    && h < final(self)@.keys.len(),
                None => old(self)@.cascade(path@, at, reloaded) is None,
            },
    {
        let was_due = self.due(path, at);
        let next = if reloaded && was_due.is_some() {
            match position(&self.dependencies, path) {
                Some(i) => {
                    proof {
                        lemma_find_last(self@.dependencies, path@);
                    }
                    let dependent = &self.dependents[i];
                    assert(self@.dependents[i as int] == dependent@);
                    position(&self.keys, dependent.as_str())
                },
                None => None,
            }
        } else {
            None
        };
        let ghost before = self@;
        match position(&self.keys, path) {
            Some(h) => {
                self.last_updates.set(h, at);
                proof {
                    assert(self@.last_updates =~= before.last_updates.update(h as int, at));
                }
            },
            None => {},
        }
        proof {
            assert(self@.cache == before.cache);
            assert(self@.keys == before.keys);
        }
        next
    }
}

/// The last position of a key in a list that ends with a list holding the
/// key lies in that last list.
proof fn lemma_find_last_in_tail(a: Seq<Seq<char>>, b: Seq<Seq<char>>, k: Seq<char>)
    requires
        b.contains(k),
    ensures
        find_last(a + b, k) is Some,
        a.len() <= find_last(a + b, k)->Some_0 < a.len() + b.len(),
    decreases b.len(),
{
    let all = a + b;
    assert(b.len() > 0);
    assert(all.last() == b.last());
    if b.last() != k {
        let i = choose|i: int| 0 <= i < b.len() && b[i] == k;
        assert(b.drop_last()[i] == k);
        assert(all.drop_last() =~= a + b.drop_last());
        lemma_find_last_in_tail(a, b.drop_last(), k);
    }
}

/// A proxy is cached.
///
/// Once a resource was asked for with a proxy at hand, asking for the same
/// key and type again gives the same resource and changes nothing, whatever
/// loading would give. For a key without a live resource and without a
/// file, that resource is the proxy: it has a new handle.
pub proof fn lemma_proxy_is_cached(
    cache: ResCacheView,
    after: ResCacheView,
    ty: Seq<char>,
    key: Seq<char>,
    outcome: LoadOutcomeView,
    now: u64,
    again: LoadOutcomeView,
    later: u64,
    last: ResCacheView,
)
    requires
        cache.well_formed(),
        cache.proxied(after, ty, key, outcome, now),
        after.fetched(last, ty, key, again, later),
    ensures
        after.answer(ty, key, again) == Ok::<int, LoadErrorView>(
            cache.proxy_answer(ty, key, outcome),
        ),
        last == after,
        cache.handle(key_of(ty, key)) is None && outcome is Absent ==> cache.proxy_answer(
            ty,
            key,
            outcome,
        ) == cache.keys.len(),
{
}

/// Writes are debounced.
///
/// After a write to `path` detected at `t0` was dealt with, a write to the
/// same path detected at `t` names the live resource of `path` for a reload
/// if at least [`UPDATE_AWAIT_TIME_MS`] milliseconds lie between the two,
/// and names nothing otherwise.
pub proof fn lemma_debounce(cache: ResCacheView, path: Seq<char>, t0: u64, t: u64)
    requires
        cache.well_formed(),
    ensures
        cache.settled(path, t0).due(path, t) == (if t - t0 >= UPDATE_AWAIT_TIME_MS {
            cache.latest(path)
        } else {
            None
        }),
        cache.settled(path, t0).latest(path) == cache.latest(path),
{
    lemma_find_last(cache.keys, path);
}

/// The last position of a key in a list is its last position in the list
/// followed by a list that does not hold the key.
proof fn lemma_find_last_before_tail(a: Seq<Seq<char>>, b: Seq<Seq<char>>, k: Seq<char>)
    requires
        !b.contains(k),
    ensures
        find_last(a + b, k) == find_last(a, k),
    decreases b.len(),
{
    if b.len() == 0 {
        assert(a + b =~= a);
    } else {
        let all = a + b;
        assert(all.last() == b.last());
        assert(b[b.len() - 1] == b.last());
        assert(all.drop_last() =~= a + b.drop_last());
        assert forall|i: int| 0 <= i < b.drop_last().len() implies b.drop_last()[i] != k by {
            assert(b[i] == b.drop_last()[i]);
        }
        lemma_find_last_before_tail(a, b.drop_last(), k);
    }
}

/// A reload cascades to the dependent.
///
/// Right after a resource was injected under `dependent` with `path` among
/// its dependencies, a successful reload of the resource of `path` that was
/// due names that dependent, and nothing else, to reload next.
pub proof fn lemma_cascade(
    cache: ResCacheView,
    after: ResCacheView,
    dependent: Seq<char>,
    dependencies: Seq<Seq<char>>,
    now: u64,
    path: Seq<char>,
    at: u64,
)
    requires
        cache.well_formed(),
        cache.injected(after, dependent, dependencies, now),
        dependencies.contains(path),
        after.due(path, at) is Some,
    ensures
        after.cascade(path, at, true) == Some(cache.keys.len() as int),
        after.cascade(path, at, false) is None,
        after.latest(dependent) == Some(cache.keys.len() as int),
{
    lemma_find_last_in_tail(cache.dependencies, dependencies, path);
    assert(after.keys.drop_last() =~= cache.keys);
}

/// The dependent stays the dependent.
///
/// Injecting a resource that is neither the resource of `path` nor its
/// dependent, and that does not declare `path` as a dependency, changes
/// nothing of what a write to `path` reloads: neither the resource that is
/// due nor the one that a successful reload cascades to.
pub proof fn lemma_cascade_is_kept(
    cache: ResCacheView,
    after: ResCacheView,
    other: Seq<char>,
    dependencies: Seq<Seq<char>>,
    now: u64,
    path: Seq<char>,
    at: u64,
    reloaded: bool,
)
    requires
        cache.well_formed(),
        cache.injected(after, other, dependencies, now),
        !dependencies.contains(path),
        other != path,
        cache.dependent(path) != Some(other),
    ensures
        after.due(path, at) == cache.due(path, at),
        after.dependent(path) == cache.dependent(path),
        after.cascade(path, at, reloaded) == cache.cascade(path, at, reloaded),
{
    lemma_find_last_before_tail(cache.dependencies, dependencies, path);
    lemma_find_last(cache.dependencies, path);
    lemma_find_last(cache.keys, path);
    assert(after.keys.drop_last() =~= cache.keys);
    if cache.dependent(path) is Some {
        let d = cache.dependent(path)->Some_0;
        lemma_find_last(cache.keys, d);
    }
}

} // verus!
