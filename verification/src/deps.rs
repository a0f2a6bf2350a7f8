//! Dependencies between modules, and flattening.
//!
//! The modules that a module imports, directly or through other modules, are
//! found by a depth-first walk of the imports that keeps the chain of
//! modules being visited. The walk lists every dependency once, after the
//! dependencies of its own, and fails on an import that leads back into the
//! chain. Flattening concatenates the declarations of the dependencies, in
//! that order, with those of the module itself.
use crate::module::{collect, lemma_collect_take, Module, ModuleKey, ModuleView};
use crate::syntax::{
    clone_vec_external_declaration, view_seq, ExternalDeclaration, ExternalDeclarationView,
};
use vstd::prelude::*;

verus! {

/// Why the dependencies of a module cannot be listed.
#[derive(Debug, PartialEq)]
pub enum DepsError {
    /// The imports form a cycle: the first module imports the second, which
    /// is being visited already.
    Cycle(ModuleKey, ModuleKey),
    /// The module of this key could not be loaded.
    LoadError(ModuleKey),
}

/// The model of a [`DepsError`].
pub ghost enum DepsErrorView {
    Cycle(Seq<char>, Seq<char>),
    LoadError(Seq<char>),
}

impl View for DepsError {
    type V = DepsErrorView;

    open spec fn view(&self) -> DepsErrorView {
        match *self {
            DepsError::Cycle(a, b) => DepsErrorView::Cycle(a@, b@),
            DepsError::LoadError(a) => DepsErrorView::LoadError(a@),
        }
    }
}

impl Clone for DepsError {
    fn clone(&self) -> (r: Self)
        ensures
            r@ == self@,
    {
        match self {
            DepsError::Cycle(a, b) => DepsError::Cycle(a.clone(), b.clone()),
            DepsError::LoadError(a) => DepsError::LoadError(a.clone()),
        }
    }
}

/// The modules that have been loaded, by key.
pub struct ModuleStore {
    keys: Vec<ModuleKey>,
    modules: Vec<Module>,
}

/// The map that a list of entries stands for: a later entry replaces an
/// earlier one of the same key.
pub open spec fn store_map(keys: Seq<Seq<char>>, modules: Seq<ModuleView>) -> Map<
    Seq<char>,
    ModuleView,
>
    decreases keys.len(),
{
    if keys.len() == 0 || modules.len() != keys.len() {
        Map::empty()
    } else {
        store_map(keys.drop_last(), modules.drop_last()).insert(keys.last(), modules.last())
    }
}

/// The map of a list of entries has finitely many keys.
pub proof fn lemma_store_map_finite(keys: Seq<Seq<char>>, modules: Seq<ModuleView>)
    ensures
        store_map(keys, modules).dom().finite(),
    decreases keys.len(),
{
    if keys.len() != 0 && modules.len() == keys.len() {
        lemma_store_map_finite(keys.drop_last(), modules.drop_last());
    }
}

/// If no entry from position `i` on has the key `k`, the first `i` entries
/// decide what the map holds for `k`.
proof fn lemma_store_map_prefix(
    keys: Seq<Seq<char>>,
    modules: Seq<ModuleView>,
    i: int,
    k: Seq<char>,
)
    requires
        0 <= i <= keys.len(),
        modules.len() == keys.len(),
        forall|j: int| i <= j < keys.len() ==> keys[j] != k,
    ensures
        store_map(keys, modules).contains_key(k) == store_map(
            keys.take(i),
            modules.take(i),
        ).contains_key(k),
        store_map(keys, modules).contains_key(k) ==> store_map(keys, modules)[k] == store_map(
            keys.take(i),
            modules.take(i),
        )[k],
    decreases keys.len() - i,
{
    if i == keys.len() {
        assert(keys.take(i) =~= keys);
        assert(modules.take(i) =~= modules);
    } else {
        assert(keys.drop_last().take(i) =~= keys.take(i));
        assert(modules.drop_last().take(i) =~= modules.take(i));
        lemma_store_map_prefix(keys.drop_last(), modules.drop_last(), i, k);
    }
}

impl View for ModuleStore {
    type V = Map<Seq<char>, ModuleView>;

    closed spec fn view(&self) -> Map<Seq<char>, ModuleView> {
        store_map(view_seq(self.keys@), view_seq(self.modules@))
    }
}

impl ModuleStore {
    /// Whether the store is well formed: it holds one module per key.
    pub closed spec fn well_formed(&self) -> bool {
        self.keys@.len() == self.modules@.len()
    }

    /// A store without modules.
    pub fn new() -> (r: Self)
        ensures
            r.well_formed(),
            r@ == Map::<Seq<char>, ModuleView>::empty(),
    {
        let r = ModuleStore { keys: Vec::new(), modules: Vec::new() };
        proof {
            assert(view_seq(r.keys@) =~= Seq::empty());
        }
        r
    }

    /// Puts a module under a key; it replaces the module that the store held
    /// under that key, if any.
    pub fn insert(&mut self, key: ModuleKey, module: Module)
        requires
            old(self).well_formed(),
        ensures
            final(self).well_formed(),
            final(self)@ == old(self)@.insert(key@, module@),
    {
        let ghost keys = view_seq(self.keys@);
        let ghost modules = view_seq(self.modules@);
        self.keys.push(key);
        self.modules.push(module);
        proof {
            assert(view_seq(self.keys@).drop_last() =~= keys);
            assert(view_seq(self.modules@).drop_last() =~= modules);
        }
    }

    /// The module under a key, if the store holds one.
    pub fn get(&self, key: &ModuleKey) -> (r: Option<&Module>)
        requires
            self.well_formed(),
        ensures
            match r {
                Some(m) => self@.contains_key(key@) && self@[key@] == m@,
                None => !self@.contains_key(key@),
            },
    {
        let ghost keys = view_seq(self.keys@);
        let ghost modules = view_seq(self.modules@);
        let mut i: usize = self.keys.len();
        while i > 0
            invariant
                i <= self.keys.len(),
                self.keys@.len() == self.modules@.len(),
                keys == view_seq(self.keys@),
                modules == view_seq(self.modules@),
                forall|j: int| i <= j < keys.len() ==> keys[j] != key@,
            decreases i,
        {
            if self.keys[i - 1].same(key) {
                proof {
                    lemma_store_map_prefix(keys, modules, i as int, key@);
                    assert(keys.take(i as int).drop_last() =~= keys.take(i - 1));
                    assert(modules.take(i as int).drop_last() =~= modules.take(i - 1));
                    assert(keys.take(i as int).last() == key@);
                    assert(modules.take(i as int).last() == self.modules@[i - 1]@);
                }
                return Some(&self.modules[i - 1]);
            }
            i -= 1;
        }
        proof {
            lemma_store_map_prefix(keys, modules, 0, key@);
            assert(keys.take(0).len() == 0);
        }
        None
    }

    /// The store has finitely many keys.
    pub proof fn lemma_finite(&self)
        ensures
            self@.dom().finite(),
    {
        lemma_store_map_finite(view_seq(self.keys@), view_seq(self.modules@));
    }
}

/// The walk over the imports `imports` of the module `owner`, from position
/// `idx` on.
///
/// `parents` is the chain of modules being visited, `owner` last, and `deps`
/// the dependencies listed so far. An import that is listed already is
/// skipped. One that is in the chain is a cycle. One that the store does not
/// hold is a load error. Any other is visited in turn, with its key added to
/// the chain, and listed after what its own imports added. `fuel` bounds the
/// depth of the walk; [`deps_of`] gives it enough.
pub open spec fn visit(
    store: Map<Seq<char>, ModuleView>,
    owner: Seq<char>,
    imports: Seq<Seq<char>>,
    idx: int,
    parents: Seq<Seq<char>>,
    deps: Seq<Seq<char>>,
    fuel: nat,
) -> Result<Seq<Seq<char>>, DepsErrorView>
    decreases fuel, imports.len() - idx,
{
    if idx < 0 || idx >= imports.len() {
        Ok(deps)
    } else {
        let k = imports[idx];
        if deps.contains(k) {
            visit(store, owner, imports, idx + 1, parents, deps, fuel)
        } else if parents.contains(k) {
            Err(DepsErrorView::Cycle(owner, k))
        } else if !store.contains_key(k) || fuel == 0 {
            Err(DepsErrorView::LoadError(k))
        } else {
            match visit(store, k, store[k].imports, 0, parents.push(k), deps, (fuel - 1) as nat) {
                Err(e) => Err(e),
                Ok(deeper) => visit(store, owner, imports, idx + 1, parents, deeper.push(k), fuel),
            }
        }
    }
}

/// The dependencies of the module `module` of key `key`: every module that it
/// imports, directly or through other modules, once, each after the modules
/// that it imports itself; or the first error of the walk.
pub open spec fn deps_of(store: Map<Seq<char>, ModuleView>, module: ModuleView, key: Seq<char>)
    -> Result<Seq<Seq<char>>, DepsErrorView> {
    visit(store, key, module.imports, 0, seq![key], Seq::empty(), store.dom().len() + 1)
}

/// The declarations of the modules of the given keys, concatenated in order.
pub open spec fn bodies_of(store: Map<Seq<char>, ModuleView>, keys: Seq<Seq<char>>) -> Seq<
    ExternalDeclarationView,
> {
    collect(keys, |k: Seq<char>| store[k].glsl)
}

/// The flattened module: the declarations of the dependencies, then those of
/// the module itself, and no imports.
pub open spec fn flattened(
    store: Map<Seq<char>, ModuleView>,
    module: ModuleView,
    deps: Seq<Seq<char>>,
) -> ModuleView {
    ModuleView { imports: Seq::empty(), glsl: bodies_of(store, deps) + module.glsl }
}

/// Whether the list holds the key.
fn holds_key(keys: &Vec<ModuleKey>, key: &ModuleKey) -> (r: bool)
    ensures
        r == view_seq(keys@).contains(key@),
{
    let ghost all = view_seq(keys@);
    let mut i: usize = 0;
    while i < keys.len()
        invariant
            i <= keys.len(),
            all == view_seq(keys@),
            forall|j: int| 0 <= j < i ==> all[j] != key@,
        decreases keys.len() - i,
    {
        if keys[i].same(key) {
            assert(all[i as int] == key@);
            return true;
        }
        i += 1;
    }
    false
}

/// A chain of distinct modules, all but the first in the store, with a
/// further module of the store that is not in the chain, is no longer than
/// the store has keys.
proof fn lemma_chain_fits(dom: Set<Seq<char>>, parents: Seq<Seq<char>>, k: Seq<char>)
    requires
        dom.finite(),
        parents.no_duplicates(),
        parents.len() >= 1,
        forall|j: int| 1 <= j < parents.len() ==> dom.contains(#[trigger] parents[j]),
        dom.contains(k),
        !parents.contains(k),
    ensures
        parents.len() <= dom.len(),
{
    let tail = parents.skip(1).push(k);
    assert forall|i: int, j: int| 0 <= i < tail.len() && 0 <= j < tail.len() && i != j implies tail[i]
        != tail[j] by {
        if i < tail.len() - 1 && j < tail.len() - 1 {
            assert(tail[i] == parents[i + 1]);
            assert(tail[j] == parents[j + 1]);
        } else if i < tail.len() - 1 {
            assert(tail[i] == parents[i + 1]);
            assert(parents.contains(parents[i + 1]));
        } else {
            assert(tail[j] == parents[j + 1]);
            assert(parents.contains(parents[j + 1]));
        }
    }
    tail.unique_seq_to_set();
    assert(tail.to_set().subset_of(dom)) by {
        assert forall|x: Seq<char>| tail.to_set().contains(x) implies dom.contains(x) by {
            let i = choose|i: int| 0 <= i < tail.len() && tail[i] == x;
            if i < tail.len() - 1 {
                assert(tail[i] == parents[i + 1]);
            }
        }
    }
    vstd::set_lib::lemma_len_subset(tail.to_set(), dom);
}

impl Module {
    /// The modules that this module depends on, without duplicates, each
    /// after the modules that it depends on itself.
    pub fn deps(&self, store: &ModuleStore, key: &ModuleKey) -> (r: Result<
        Vec<ModuleKey>,
        DepsError,
    >)
        requires
            store.well_formed(),
        ensures
            match r {
                Ok(deps) => deps_of(store@, self@, key@) == Ok::<_, DepsErrorView>(view_seq(deps@))
                    && forall|i: int|
                    0 <= i < deps@.len() ==> store@.contains_key(#[trigger] view_seq(deps@)[i]),
                Err(e) => deps_of(store@, self@, key@) == Err::<Seq<Seq<char>>, _>(e@),
            },
    {
        let mut deps: Vec<ModuleKey> = Vec::new();
        let mut parents: Vec<ModuleKey> = Vec::new();
        let ghost fuel = store@.dom().len() + 1;
        proof {
            store.lemma_finite();
            assert(view_seq(parents@).push(key@) =~= seq![key@]);
            assert(view_seq(deps@) =~= Seq::<Seq<char>>::empty());
        }
        match self.deps_no_cycle(store, key, &mut parents, &mut deps, Ghost(fuel)) {
            Ok(_) => Ok(deps),
            Err(e) => Err(e),
        }
    }

    /// The walk of [`visit`] over the imports of this module.
    fn deps_no_cycle(
        &self,
        store: &ModuleStore,
        key: &ModuleKey,
        parents: &mut Vec<ModuleKey>,
        deps: &mut Vec<ModuleKey>,
        Ghost(fuel): Ghost<nat>,
    ) -> (r: Result<(), DepsError>)
        requires
            store.well_formed(),
            view_seq(old(parents)@).push(key@).no_duplicates(),
            forall|j: int|
                1 <= j < old(parents)@.len() + 1 ==> store@.contains_key(
                    #[trigger] view_seq(old(parents)@).push(key@)[j],
                ),
            fuel + old(parents)@.len() + 1 == store@.dom().len() + 2,
            forall|i: int|
                0 <= i < old(deps)@.len() ==> store@.contains_key(#[trigger] view_seq(old(deps)@)[i]),
        ensures
            match r {
                Ok(_) => visit(
                    store@,
                    key@,
                    self@.imports,
                    0,
                    view_seq(old(parents)@).push(key@),
                    view_seq(old(deps)@),
                    fuel,
                ) == Ok::<_, DepsErrorView>(view_seq(final(deps)@)) && view_seq(final(parents)@)
                    == view_seq(old(parents)@).push(key@) && forall|i: int|
                    0 <= i < final(deps)@.len() ==> store@.contains_key(
                        #[trigger] view_seq(final(deps)@)[i],
                    ),
                Err(e) => visit(
                    store@,
                    key@,
                    self@.imports,
                    0,
                    view_seq(old(parents)@).push(key@),
                    view_seq(old(deps)@),
                    fuel,
                ) == Err::<Seq<Seq<char>>, _>(e@),
            },
        decreases fuel,
    {
        let ghost chain = view_seq(parents@).push(key@);
        let ghost start = view_seq(deps@);
        let ghost imports = self@.imports;
        let ghost total = visit(store@, key@, imports, 0, chain, start, fuel);
        let ghost before = view_seq(parents@);
        parents.push(key.clone());
        proof {
            assert(view_seq(parents@) =~= before.push(key@));
        }
        let mut i: usize = 0;
        while i < self.imports.len()
            invariant
                i <= self.imports.len(),
                store.well_formed(),
                imports == self@.imports,
                imports.len() == self.imports@.len(),
                view_seq(parents@) == chain,
                chain == view_seq(old(parents)@).push(key@),
                start == view_seq(old(deps)@),
                total == visit(store@, key@, imports, 0, chain, start, fuel),
                chain.no_duplicates(),
                chain.len() >= 1,
                forall|j: int| 1 <= j < chain.len() ==> store@.contains_key(#[trigger] chain[j]),
                fuel + chain.len() == store@.dom().len() + 2,
                forall|j: int|
                    0 <= j < deps@.len() ==> store@.contains_key(#[trigger] view_seq(deps@)[j]),
                visit(store@, key@, imports, i as int, chain, view_seq(deps@), fuel) == total,
            decreases self.imports.len() - i,
        {
            let module_key = self.imports[i].module_key();
            assert(imports[i as int] == module_key@);
            if holds_key(deps, &module_key) {
                i += 1;
                continue ;
            }
            if holds_key(parents, &module_key) {
                return Err(DepsError::Cycle(key.clone(), module_key));
            }
            let module = match store.get(&module_key) {
                Some(module) => module,
                None => {
                    return Err(DepsError::LoadError(module_key));
                },
            };
            proof {
                store.lemma_finite();
                lemma_chain_fits(store@.dom(), chain, module_key@);
                assert forall|a: int, b: int|
                    0 <= a < chain.push(module_key@).len() && 0 <= b < chain.push(
                        module_key@,
                    ).len() && a != b implies chain.push(module_key@)[a] != chain.push(
                    module_key@,
                )[b] by {
                    if a < chain.len() && b < chain.len() {
                    } else if a < chain.len() {
                        assert(chain.contains(chain[a]));
                    } else {
                        assert(chain.contains(chain[b]));
                    }
                }
            }
            match module.deps_no_cycle(store, &module_key, parents, deps, Ghost((fuel - 1) as nat)) {
                Ok(_) => {},
                Err(e) => {
                    return Err(e);
                },
            }
            let ghost deeper = view_seq(deps@);
            deps.push(module_key.clone());
            let ghost visited = parents@;
            parents.pop();
            proof {
                assert(view_seq(deps@) =~= deeper.push(module_key@));
                assert(view_seq(visited) == chain.push(module_key@));
                assert(parents@ =~= visited.drop_last());
                assert(view_seq(parents@).len() == chain.len());
                assert forall|j: int| 0 <= j < chain.len() implies view_seq(parents@)[j]
                    == chain[j] by {
                    assert(view_seq(visited)[j] == chain.push(module_key@)[j]);
                }
                assert(view_seq(parents@) =~= chain);
                assert forall|j: int| 0 <= j < deps@.len() implies store@.contains_key(
                    #[trigger] view_seq(deps@)[j],
                ) by {
                    if j < deeper.len() {
                        assert(view_seq(deps@)[j] == deeper[j]);
                    }
                }
            }
            i += 1;
        }
        Ok(())
    }

    /// Folds the module and its dependencies into one module without
    /// imports. The dependencies are returned with it.
    pub fn gather(&self, store: &ModuleStore, key: &ModuleKey) -> (r: Result<
        (Module, Vec<ModuleKey>),
        DepsError,
    >)
        requires
            store.well_formed(),
        ensures
            match r {
                Ok((module, deps)) => deps_of(store@, self@, key@) == Ok::<_, DepsErrorView>(
                    view_seq(deps@),
                ) && module@ == flattened(store@, self@, view_seq(deps@)),
                Err(e) => deps_of(store@, self@, key@) == Err::<Seq<Seq<char>>, _>(e@),
            },
            self@.imports.len() == 0 ==> match r {
                Ok((module, deps)) => deps@.len() == 0 && module@.glsl == self@.glsl
                    && module@.imports.len() == 0,
                Err(_) => false,
            },
    {
        let deps = match self.deps(store, key) {
            Ok(deps) => deps,
            Err(e) => {
                return Err(e);
            },
        };
        let ghost keys = view_seq(deps@);
        let ghost body = |k: Seq<char>| store@[k].glsl;
        let mut glsl: Vec<ExternalDeclaration> = Vec::new();
        let mut i: usize = 0;
        proof {
            assert(view_seq(glsl@) =~= collect(keys.take(0), body));
        }
        while i < deps.len()
            invariant
                i <= deps.len(),
                store.well_formed(),
                keys == view_seq(deps@),
                body == (|k: Seq<char>| store@[k].glsl),
                forall|j: int| 0 <= j < deps@.len() ==> store@.contains_key(#[trigger] keys[j]),
                view_seq(glsl@) == collect(keys.take(i as int), body),
            decreases deps.len() - i,
        {
            let ghost before = view_seq(glsl@);
            assert(store@.contains_key(keys[i as int]));
            assert(keys[i as int] == deps@[i as int]@);
            if let Some(m) = store.get(&deps[i]) {
                let mut more = clone_vec_external_declaration(&m.glsl);
                let ghost added = view_seq(more@);
                glsl.append(&mut more);
                proof {
                    lemma_collect_take(keys, body, i as int);
                    assert(view_seq(glsl@) =~= before + added);
                }
            }
            i += 1;
        }
        let ghost bodies = view_seq(glsl@);
        let mut own = clone_vec_external_declaration(&self.glsl);
        let ghost added = view_seq(own@);
        glsl.append(&mut own);
        let module = Module { imports: Vec::new(), glsl };
        proof {
            assert(keys.take(i as int) =~= keys);
            assert(view_seq(module.glsl@) =~= bodies + added);
            assert(module@.imports =~= Seq::empty());
            if self@.imports.len() == 0 {
                assert(keys.len() == 0);
                assert(module@.glsl =~= self@.glsl);
            }
        }
        Ok((module, deps))
    }
}

/// Whether every listed module is in the store and comes after every module
/// that it imports.
pub open spec fn imports_precede(store: Map<Seq<char>, ModuleView>, deps: Seq<Seq<char>>) -> bool {
    forall|j: int, n: int|
        0 <= j < deps.len() && 0 <= n < store[deps[j]].imports.len() ==> deps.take(j).contains(
            #[trigger] store[#[trigger] deps[j]].imports[n],
        )
}

/// Whether every listed module is in the store.
pub open spec fn all_loaded(store: Map<Seq<char>, ModuleView>, deps: Seq<Seq<char>>) -> bool {
    forall|j: int| 0 <= j < deps.len() ==> store.contains_key(#[trigger] deps[j])
}

/// Whether no key is in both lists.
pub open spec fn disjoint(a: Seq<Seq<char>>, b: Seq<Seq<char>>) -> bool {
    forall|x: Seq<char>| !(a.contains(x) && b.contains(x))
}

/// Whether the first `idx` imports are all listed.
pub open spec fn listed_up_to(imports: Seq<Seq<char>>, idx: int, deps: Seq<Seq<char>>) -> bool {
    forall|i: int| 0 <= i < idx && i < imports.len() ==> deps.contains(#[trigger] imports[i])
}

/// Listing a module whose imports are all listed keeps the order.
proof fn lemma_push_keeps_order(store: Map<Seq<char>, ModuleView>, deps: Seq<Seq<char>>, k: Seq<char>)
    requires
        imports_precede(store, deps),
        all_loaded(store, deps),
        store.contains_key(k),
        !deps.contains(k),
        deps.no_duplicates(),
        listed_up_to(store[k].imports, store[k].imports.len() as int, deps),
    ensures
        imports_precede(store, deps.push(k)),
        all_loaded(store, deps.push(k)),
        deps.push(k).no_duplicates(),
{
    let more = deps.push(k);
    assert forall|j: int, n: int|
        0 <= j < more.len() && 0 <= n < store[more[j]].imports.len() implies more.take(j).contains(
        #[trigger] store[#[trigger] more[j]].imports[n],
    ) by {
        if j < deps.len() {
            assert(more[j] == deps[j]);
            assert(more.take(j) =~= deps.take(j));
        } else {
            assert(more.take(j) =~= deps);
        }
    }
    assert forall|a: int, b: int| 0 <= a < more.len() && 0 <= b < more.len() && a != b implies more[a]
        != more[b] by {
        if a < deps.len() && b < deps.len() {
        } else if a < deps.len() {
            assert(deps.contains(deps[a]));
        } else {
            assert(deps.contains(deps[b]));
        }
    }
}

/// What the walk keeps: if the modules listed so far are in order, without
/// duplicates and apart from the chain, then so are the modules listed at
/// the end, and every import of the owner is among them.
proof fn lemma_visit_order(
    store: Map<Seq<char>, ModuleView>,
    owner: Seq<char>,
    imports: Seq<Seq<char>>,
    idx: int,
    parents: Seq<Seq<char>>,
    deps: Seq<Seq<char>>,
    fuel: nat,
)
    requires
        0 <= idx <= imports.len(),
        imports_precede(store, deps),
        all_loaded(store, deps),
        deps.no_duplicates(),
        disjoint(parents, deps),
        listed_up_to(imports, idx, deps),
    ensures
        match visit(store, owner, imports, idx, parents, deps, fuel) {
            Ok(d) => imports_precede(store, d) && all_loaded(store, d) && d.no_duplicates()
                && disjoint(parents, d) && listed_up_to(imports, imports.len() as int, d)
                && forall|x: Seq<char>| deps.contains(x) ==> d.contains(x),
            Err(_) => true,
        },
    decreases fuel, imports.len() - idx,
{
    if idx < imports.len() {
        let k = imports[idx];
        if deps.contains(k) {
            lemma_visit_order(store, owner, imports, idx + 1, parents, deps, fuel);
        } else if parents.contains(k) {
        } else if !store.contains_key(k) || fuel == 0 {
        } else {
            let chain = parents.push(k);
            assert(disjoint(chain, deps)) by {
                assert forall|x: Seq<char>| !(chain.contains(x) && deps.contains(x)) by {
                    if chain.contains(x) && deps.contains(x) {
                        let i = choose|i: int| 0 <= i < chain.len() && chain[i] == x;
                        if i < parents.len() {
                            assert(parents.contains(x));
                        }
                    }
                }
            }
            lemma_visit_order(store, k, store[k].imports, 0, chain, deps, (fuel - 1) as nat);
            match visit(store, k, store[k].imports, 0, chain, deps, (fuel - 1) as nat) {
                Err(_) => {},
                Ok(deeper) => {
                    assert(chain[parents.len() as int] == k);
                    assert(chain.contains(k));
                    assert(!deeper.contains(k));
                    lemma_push_keeps_order(store, deeper, k);
                    let more = deeper.push(k);
                    assert(more[deeper.len() as int] == k);
                    assert forall|x: Seq<char>| deeper.contains(x) implies more.contains(x) by {
                        let i = choose|i: int| 0 <= i < deeper.len() && deeper[i] == x;
                        assert(more[i] == x);
                    }
                    assert(disjoint(parents, more)) by {
                        assert forall|x: Seq<char>| !(parents.contains(x) && more.contains(x)) by {
                            if parents.contains(x) && more.contains(x) {
                                let i = choose|i: int| 0 <= i < parents.len() && parents[i] == x;
                                assert(chain[i] == x);
                                assert(chain.contains(x));
                                let j = choose|j: int| 0 <= j < more.len() && more[j] == x;
                                if j < deeper.len() {
                                    assert(deeper.contains(x));
                                }
                            }
                        }
                    }
                    assert(listed_up_to(imports, idx + 1, more)) by {
                        assert forall|i: int| 0 <= i < idx + 1 && i < imports.len() implies more.contains(
                            #[trigger] imports[i],
                        ) by {
                            if i < idx {
                                assert(deps.contains(imports[i]));
                            }
                        }
                    }
                    lemma_visit_order(store, owner, imports, idx + 1, parents, more, fuel);
                },
            }
        }
    }
}

/// The dependencies of a module are in dependency order.
///
/// Where the dependencies of a module can be listed, the list holds no
/// module twice and not the module itself, it holds every module that the
/// module imports, every listed module is in the store, and every module
/// that a listed module imports is listed before it.
pub proof fn lemma_deps_in_order(
    store: Map<Seq<char>, ModuleView>,
    module: ModuleView,
    key: Seq<char>,
)
    ensures
        match deps_of(store, module, key) {
            Ok(deps) => deps.no_duplicates() && !deps.contains(key) && all_loaded(store, deps)
                && listed_up_to(module.imports, module.imports.len() as int, deps)
                && imports_precede(store, deps),
            Err(_) => true,
        },
{
    let none = Seq::<Seq<char>>::empty();
    lemma_visit_order(store, key, module.imports, 0, seq![key], none, store.dom().len() + 1);
    assert(seq![key][0] == key);
    assert(seq![key].contains(key));
}

/// Whether `path` follows imports from the module: its first key is an
/// import of the module, and every further key is an import of the module
/// that the store holds under the key before it.
pub open spec fn is_import_path(
    store: Map<Seq<char>, ModuleView>,
    module: ModuleView,
    path: Seq<Seq<char>>,
) -> bool {
    &&& path.len() >= 1
    &&& module.imports.contains(path[0])
    &&& forall|i: int|
        0 <= i < path.len() - 1 ==> store.contains_key(#[trigger] path[i]) && store[path[i]].imports.contains(
            path[i + 1],
        )
}

/// Along a path of imports the positions in the list of dependencies go
/// down: the key at position `i` of the path is listed before position
/// `bound - i`.
proof fn lemma_path_descends(
    store: Map<Seq<char>, ModuleView>,
    module: ModuleView,
    deps: Seq<Seq<char>>,
    path: Seq<Seq<char>>,
    i: int,
)
    requires
        is_import_path(store, module, path),
        imports_precede(store, deps),
        listed_up_to(module.imports, module.imports.len() as int, deps),
        0 <= i < path.len(),
    ensures
        deps.len() - i >= 0,
        deps.take(deps.len() - i).contains(path[i]),
    decreases i,
{
    if i == 0 {
        let n = choose|n: int| 0 <= n < module.imports.len() && module.imports[n] == path[0];
        assert(deps.contains(module.imports[n]));
        assert(deps.take(deps.len() as int) =~= deps);
    } else {
        lemma_path_descends(store, module, deps, path, i - 1);
        let before = deps.take(deps.len() - (i - 1));
        let j = choose|j: int| 0 <= j < before.len() && before[j] == path[i - 1];
        assert(deps[j] == path[i - 1]);
        let imported = store[path[i - 1]].imports;
        let n = choose|n: int| 0 <= n < imported.len() && imported[n] == path[i];
        assert(deps.take(j).contains(store[deps[j]].imports[n]));
        let m = choose|m: int| 0 <= m < deps.take(j).len() && deps.take(j)[m] == path[i];
        assert(deps.take(deps.len() - i)[m] == path[i]);
    }
}

/// The dependencies of a module hold every module that it imports, directly
/// or through other modules: every key on a path of imports from the module
/// is listed.
pub proof fn lemma_deps_hold_every_import(
    store: Map<Seq<char>, ModuleView>,
    module: ModuleView,
    key: Seq<char>,
    path: Seq<Seq<char>>,
    i: int,
)
    requires
        deps_of(store, module, key) is Ok,
        is_import_path(store, module, path),
        0 <= i < path.len(),
    ensures
        (deps_of(store, module, key)->Ok_0).contains(path[i]),
{
    lemma_deps_in_order(store, module, key);
    let deps = deps_of(store, module, key)->Ok_0;
    lemma_path_descends(store, module, deps, path, i);
    let t = deps.take(deps.len() - i);
    let j = choose|j: int| 0 <= j < t.len() && t[j] == path[i];
    assert(deps[j] == path[i]);
}

/// Where the dependencies of a module can be listed, its imports have no
/// cycle: no path of imports from the module leads back to the module, and
/// none meets a module twice. So a module whose imports have a cycle, of
/// whatever length, has no list of dependencies.
pub proof fn lemma_deps_without_cycle(
    store: Map<Seq<char>, ModuleView>,
    module: ModuleView,
    key: Seq<char>,
    path: Seq<Seq<char>>,
)
    requires
        deps_of(store, module, key) is Ok,
        is_import_path(store, module, path),
    ensures
        !path.contains(key),
        path.no_duplicates(),
{
    lemma_deps_in_order(store, module, key);
    let deps = deps_of(store, module, key)->Ok_0;
    assert forall|i: int| 0 <= i < path.len() implies path[i] != key by {
        lemma_path_descends(store, module, deps, path, i);
        let t = deps.take(deps.len() - i);
        let j = choose|j: int| 0 <= j < t.len() && t[j] == path[i];
        assert(deps[j] == path[i]);
        assert(deps.contains(path[i]));
    }
    assert forall|a: int, b: int| 0 <= a < b < path.len() implies path[a] != path[b] by {
        lemma_later_is_lower(store, module, deps, path, a, b);
    }
}

/// On a path of imports, a later key is listed before an earlier one, so the
/// two differ.
proof fn lemma_later_is_lower(
    store: Map<Seq<char>, ModuleView>,
    module: ModuleView,
    deps: Seq<Seq<char>>,
    path: Seq<Seq<char>>,
    a: int,
    b: int,
)
    requires
        is_import_path(store, module, path),
        imports_precede(store, deps),
        listed_up_to(module.imports, module.imports.len() as int, deps),
        deps.no_duplicates(),
        0 <= a < b < path.len(),
    ensures
        path[a] != path[b],
{
    lemma_path_descends(store, module, deps, path, a);
    let t = deps.take(deps.len() - a);
    let j = choose|j: int| 0 <= j < t.len() && t[j] == path[a];
    assert(deps[j] == path[a]);
    lemma_below(store, deps, path, a, b, j);
}

/// If the key at position `a` of a path of imports is listed at position
/// `j`, the key at a later position `b` is listed before `j`.
proof fn lemma_below(
    store: Map<Seq<char>, ModuleView>,
    deps: Seq<Seq<char>>,
    path: Seq<Seq<char>>,
    a: int,
    b: int,
    j: int,
)
    requires
        forall|i: int|
            0 <= i < path.len() - 1 ==> store.contains_key(#[trigger] path[i]) && store[path[i]].imports.contains(
                path[i + 1],
            ),
        imports_precede(store, deps),
        deps.no_duplicates(),
        0 <= a < b < path.len(),
        0 <= j < deps.len(),
        deps[j] == path[a],
    ensures
        deps.take(j).contains(path[b]),
        path[a] != path[b],
    decreases b - a,
{
    assert(store.contains_key(path[a]));
    let imported = store[path[a]].imports;
    let n = choose|n: int| 0 <= n < imported.len() && imported[n] == path[a + 1];
    assert(deps.take(j).contains(store[deps[j]].imports[n]));
    let m = choose|m: int| 0 <= m < deps.take(j).len() && deps.take(j)[m] == path[a + 1];
    assert(deps[m] == path[a + 1]);
    if a + 1 < b {
        lemma_below(store, deps, path, a + 1, b, m);
        let q = choose|q: int| 0 <= q < deps.take(m).len() && deps.take(m)[q] == path[b];
        assert(deps.take(j)[q] == path[b]);
    }
    let q = choose|q: int| 0 <= q < deps.take(j).len() && deps.take(j)[q] == path[b];
    assert(deps[q] == path[b]);
    assert(q != j);
}

/// Whether the store holds every module that the module or a module of the
/// store imports.
pub open spec fn imports_loaded(store: Map<Seq<char>, ModuleView>, module: ModuleView) -> bool {
    &&& forall|i: int|
        0 <= i < module.imports.len() ==> store.contains_key(#[trigger] module.imports[i])
    &&& forall|k: Seq<char>, n: int|
        store.contains_key(k) && 0 <= n < store[k].imports.len() ==> store.contains_key(
            #[trigger] store[k].imports[n],
        )
}

/// Whether a path of imports from the module closes a cycle: it leads back
/// to the module, or it meets a module twice.
pub open spec fn closes_cycle(
    store: Map<Seq<char>, ModuleView>,
    module: ModuleView,
    key: Seq<char>,
    path: Seq<Seq<char>>,
) -> bool {
    is_import_path(store, module, path) && (path.contains(key) || !path.no_duplicates())
}

/// Whether the chain is the module followed by a path of imports, and
/// `imports` are the imports of its last module.
spec fn chain_follows_imports(
    store: Map<Seq<char>, ModuleView>,
    module: ModuleView,
    key: Seq<char>,
    parents: Seq<Seq<char>>,
    imports: Seq<Seq<char>>,
) -> bool {
    &&& parents.len() >= 1
    &&& parents[0] == key
    &&& parents.len() == 1 ==> imports == module.imports
    &&& parents.len() > 1 ==> is_import_path(store, module, parents.skip(1)) && store.contains_key(
        parents.last(),
    ) && imports == store[parents.last()].imports
}

/// With every imported module in the store, the walk loads what it asks
/// for: it ends with a list or with a cycle.
proof fn lemma_visit_loads(
    store: Map<Seq<char>, ModuleView>,
    module: ModuleView,
    owner: Seq<char>,
    imports: Seq<Seq<char>>,
    idx: int,
    parents: Seq<Seq<char>>,
    deps: Seq<Seq<char>>,
    fuel: nat,
)
    requires
        store.dom().finite(),
        imports_loaded(store, module),
        0 <= idx <= imports.len(),
        forall|i: int| 0 <= i < imports.len() ==> store.contains_key(#[trigger] imports[i]),
        parents.no_duplicates(),
        parents.len() >= 1,
        forall|j: int| 1 <= j < parents.len() ==> store.contains_key(#[trigger] parents[j]),
        fuel + parents.len() == store.dom().len() + 2,
    ensures
        !(visit(store, owner, imports, idx, parents, deps, fuel) is Err && visit(
            store,
            owner,
            imports,
            idx,
            parents,
            deps,
            fuel,
        )->Err_0 is LoadError),
    decreases fuel, imports.len() - idx,
{
    if idx < imports.len() {
        let k = imports[idx];
        if deps.contains(k) {
            lemma_visit_loads(store, module, owner, imports, idx + 1, parents, deps, fuel);
        } else if parents.contains(k) {
        } else {
            assert(store.contains_key(k));
            lemma_chain_fits(store.dom(), parents, k);
            let chain = parents.push(k);
            assert forall|a: int, b: int|
                0 <= a < chain.len() && 0 <= b < chain.len() && a != b implies chain[a]
                != chain[b] by {
                if a < parents.len() && b < parents.len() {
                } else if a < parents.len() {
                    assert(parents.contains(parents[a]));
                } else {
                    assert(parents.contains(parents[b]));
                }
            }
            lemma_visit_loads(
                store,
                module,
                k,
                store[k].imports,
                0,
                chain,
                deps,
                (fuel - 1) as nat,
            );
            match visit(store, k, store[k].imports, 0, chain, deps, (fuel - 1) as nat) {
                Err(_) => {},
                Ok(deeper) => {
                    lemma_visit_loads(
                        store,
                        module,
                        owner,
                        imports,
                        idx + 1,
                        parents,
                        deeper.push(k),
                        fuel,
                    );
                },
            }
        }
    }
}

/// A walk that ends with a cycle has found one: the returned path of
/// imports closes a cycle.
proof fn lemma_visit_cycle(
    store: Map<Seq<char>, ModuleView>,
    module: ModuleView,
    key: Seq<char>,
    owner: Seq<char>,
    imports: Seq<Seq<char>>,
    idx: int,
    parents: Seq<Seq<char>>,
    deps: Seq<Seq<char>>,
    fuel: nat,
) -> (path: Seq<Seq<char>>)
    requires
        0 <= idx <= imports.len(),
        chain_follows_imports(store, module, key, parents, imports),
        visit(store, owner, imports, idx, parents, deps, fuel) is Err,
        visit(store, owner, imports, idx, parents, deps, fuel)->Err_0 is Cycle,
    ensures
        closes_cycle(store, module, key, path),
    decreases fuel, imports.len() - idx,
{
    let k = imports[idx];
    if deps.contains(k) {
        lemma_visit_cycle(store, module, key, owner, imports, idx + 1, parents, deps, fuel)
    } else if parents.contains(k) {
        let path = parents.skip(1).push(k);
        let at = choose|at: int| 0 <= at < parents.len() && parents[at] == k;
        assert(path[path.len() - 1] == k);
        lemma_chain_extends(store, module, key, parents, imports, idx);
        if at == 0 {
            assert(path.contains(key));
        } else {
            assert(path[at - 1] == k);
            assert(at - 1 != path.len() - 1);
        }
        path
    } else {
        let chain = parents.push(k);
        lemma_chain_extends(store, module, key, parents, imports, idx);
        assert(chain.skip(1) =~= parents.skip(1).push(k));
        match visit(store, k, store[k].imports, 0, chain, deps, (fuel - 1) as nat) {
            Err(_) => lemma_visit_cycle(
                store,
                module,
                key,
                k,
                store[k].imports,
                0,
                chain,
                deps,
                (fuel - 1) as nat,
            ),
            Ok(deeper) => lemma_visit_cycle(
                store,
                module,
                key,
                owner,
                imports,
                idx + 1,
                parents,
                deeper.push(k),
                fuel,
            ),
        }
    }
}

/// A chain that follows imports, with one more import of its last module,
/// is a path of imports.
proof fn lemma_chain_extends(
    store: Map<Seq<char>, ModuleView>,
    module: ModuleView,
    key: Seq<char>,
    parents: Seq<Seq<char>>,
    imports: Seq<Seq<char>>,
    idx: int,
)
    requires
        chain_follows_imports(store, module, key, parents, imports),
        0 <= idx < imports.len(),
    ensures
        is_import_path(store, module, parents.skip(1).push(imports[idx])),
{
    let k = imports[idx];
    let path = parents.skip(1).push(k);
    if parents.len() == 1 {
        assert(path[0] == k);
        assert(module.imports.contains(k));
    } else {
        let old_path = parents.skip(1);
        assert(path[0] == old_path[0]);
        assert forall|i: int| 0 <= i < path.len() - 1 implies store.contains_key(
            #[trigger] path[i],
        ) && store[path[i]].imports.contains(path[i + 1]) by {
            if i < old_path.len() - 1 {
                assert(path[i] == old_path[i]);
                assert(path[i + 1] == old_path[i + 1]);
                assert(store.contains_key(old_path[i]));
            } else {
                assert(path[i] == parents.last());
                assert(path[i + 1] == k);
                assert(store[parents.last()].imports.contains(imports[idx]));
            }
        }
    }
}

/// Whether the module imports `k`, directly or through other modules: some
/// path of imports from the module ends in `k`.
pub open spec fn imports_module(
    store: Map<Seq<char>, ModuleView>,
    module: ModuleView,
    k: Seq<char>,
) -> bool {
    exists|path: Seq<Seq<char>>| #[trigger] is_import_path(store, module, path) && path.last() == k
}

/// Whether the module imports every listed key, directly or through other
/// modules.
pub open spec fn all_imported(
    store: Map<Seq<char>, ModuleView>,
    module: ModuleView,
    deps: Seq<Seq<char>>,
) -> bool {
    forall|j: int| 0 <= j < deps.len() ==> imports_module(store, module, #[trigger] deps[j])
}

/// The walk lists only modules that the module imports.
proof fn lemma_visit_imported(
    store: Map<Seq<char>, ModuleView>,
    module: ModuleView,
    key: Seq<char>,
    owner: Seq<char>,
    imports: Seq<Seq<char>>,
    idx: int,
    parents: Seq<Seq<char>>,
    deps: Seq<Seq<char>>,
    fuel: nat,
)
    requires
        0 <= idx <= imports.len(),
        chain_follows_imports(store, module, key, parents, imports),
        all_imported(store, module, deps),
    ensures
        match visit(store, owner, imports, idx, parents, deps, fuel) {
            Ok(d) => all_imported(store, module, d),
            Err(_) => true,
        },
    decreases fuel, imports.len() - idx,
{
    if idx < imports.len() {
        let k = imports[idx];
        if deps.contains(k) {
            lemma_visit_imported(store, module, key, owner, imports, idx + 1, parents, deps, fuel);
        } else if parents.contains(k) {
        } else if !store.contains_key(k) || fuel == 0 {
        } else {
            let chain = parents.push(k);
            lemma_chain_extends(store, module, key, parents, imports, idx);
            assert(chain.skip(1) =~= parents.skip(1).push(k));
            lemma_visit_imported(
                store,
                module,
                key,
                k,
                store[k].imports,
                0,
                chain,
                deps,
                (fuel - 1) as nat,
            );
            match visit(store, k, store[k].imports, 0, chain, deps, (fuel - 1) as nat) {
                Err(_) => {},
                Ok(deeper) => {
                    let more = deeper.push(k);
                    assert(chain.skip(1).last() == k);
                    assert(imports_module(store, module, k));
                    assert forall|j: int| 0 <= j < more.len() implies imports_module(
                        store,
                        module,
                        #[trigger] more[j],
                    ) by {
                        if j < deeper.len() {
                            assert(more[j] == deeper[j]);
                        }
                    }
                    lemma_visit_imported(
                        store,
                        module,
                        key,
                        owner,
                        imports,
                        idx + 1,
                        parents,
                        more,
                        fuel,
                    );
                },
            }
        }
    }
}

/// The dependencies of a module are modules that it imports: every listed
/// key ends a path of imports from the module. With
/// [`lemma_deps_hold_every_import`] and [`lemma_deps_in_order`], the list
/// holds the modules that the module imports, directly or through other
/// modules, each exactly once.
pub proof fn lemma_deps_are_imports(
    store: Map<Seq<char>, ModuleView>,
    module: ModuleView,
    key: Seq<char>,
)
    ensures
        match deps_of(store, module, key) {
            Ok(deps) => all_imported(store, module, deps),
            Err(_) => true,
        },
{
    let none = Seq::<Seq<char>>::empty();
    lemma_visit_imported(
        store,
        module,
        key,
        key,
        module.imports,
        0,
        seq![key],
        none,
        store.dom().len() + 1,
    );
}

/// A cycle is always reported as a cycle.
///
/// If the store holds every imported module and some path of imports from
/// the module closes a cycle, of whatever length, then listing the
/// dependencies of the module fails with `Cycle`.
pub proof fn lemma_cycle_is_reported(
    store: Map<Seq<char>, ModuleView>,
    module: ModuleView,
    key: Seq<char>,
    path: Seq<Seq<char>>,
)
    requires
        store.dom().finite(),
        imports_loaded(store, module),
        closes_cycle(store, module, key, path),
    ensures
        deps_of(store, module, key) is Err,
        deps_of(store, module, key)->Err_0 is Cycle,
{
    let none = Seq::<Seq<char>>::empty();
    if deps_of(store, module, key) is Ok {
        lemma_deps_without_cycle(store, module, key, path);
    }
    lemma_visit_loads(
        store,
        module,
        key,
        module.imports,
        0,
        seq![key],
        none,
        store.dom().len() + 1,
    );
}

/// Without a cycle the dependencies can be listed.
///
/// If the store holds every imported module and listing the dependencies of
/// the module fails, then the returned path of imports from the module
/// closes a cycle. So for imports without a cycle there is a list, which
/// [`lemma_deps_in_order`] describes.
pub proof fn lemma_failure_is_a_cycle(
    store: Map<Seq<char>, ModuleView>,
    module: ModuleView,
    key: Seq<char>,
) -> (path: Seq<Seq<char>>)
    requires
        store.dom().finite(),
        imports_loaded(store, module),
        deps_of(store, module, key) is Err,
    ensures
        closes_cycle(store, module, key, path),
{
    let none = Seq::<Seq<char>>::empty();
    lemma_visit_loads(
        store,
        module,
        key,
        module.imports,
        0,
        seq![key],
        none,
        store.dom().len() + 1,
    );
    lemma_visit_cycle(
        store,
        module,
        key,
        key,
        module.imports,
        0,
        seq![key],
        none,
        store.dom().len() + 1,
    )
}

} // verus!
