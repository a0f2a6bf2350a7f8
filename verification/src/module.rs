//! Shader modules and what can be read off their declarations.
//!
//! A module is a list of top-level declarations together with the list of
//! modules it imports. The four extractors project the declarations onto
//! uniforms, interface blocks, struct definitions and functions, each keeping
//! source order.
use crate::syntax::{
    clone_opt_array_specifier, clone_vec_external_declaration, lemma_view_seq_take, view_opt,
    view_seq, DataType, DataTypeView, ExternalDeclaration,
    ExternalDeclarationView, FullySpecifiedTypeView, FunctionDefinition, FunctionDefinitionView,
    QualifierSpec, SingleDeclaration, SingleDeclarationNoTypeView, SingleDeclarationView,
    StructDef, StructDefView, TypeQualifier,
};
use vstd::prelude::*;
use vstd::string::*;

verus! {

/// `str::replace` with a character as the pattern and a replacement of one
/// character: every occurrence of `from` becomes that character, and every
/// other character stays.
#[verifier::external_body]
fn replace_char(s: &str, from: char, to: &str) -> (r: String)
    requires
        to@.len() == 1,
    ensures
        r@ == s@.map_values(|c: char| if c == from { to@[0] } else { c }),
{
    s.replace(from, to)
}

/// Two strings hold the same characters.
pub fn same_text(a: &String, b: &str) -> (r: bool)
    ensures
        r == (a@ == b@),
{
    let other = String::from_str(b);
    *a == other
}

/// The name of a module: a dotted path such as `foo.bar.zoo`.
#[derive(Debug, PartialEq, Eq, Hash)]
pub struct ModuleKey(String);

impl View for ModuleKey {
    type V = Seq<char>;

    closed spec fn view(&self) -> Seq<char> {
        self.0@
    }
}

impl Clone for ModuleKey {
    fn clone(&self) -> (r: Self)
        ensures
            r@ == self@,
    {
        ModuleKey(self.0.clone())
    }
}

/// The file path that stands for a module key: every dot becomes a path
/// separator and the extension `.spsl` is appended.
pub open spec fn path_of_key(key: Seq<char>) -> Seq<char> {
    key.map_values(|c: char| if c == '.' { '/' } else { c }) + ".spsl"@
}

impl ModuleKey {
    /// The key with the given text.
    pub fn new(key: &str) -> (r: Self)
        ensures
            r@ == key@,
    {
        ModuleKey(String::from_str(key))
    }

    /// The text of the key.
    pub fn as_str(&self) -> (r: &str)
        ensures
            r@ == self@,
    {
        self.0.as_str()
    }

    /// The path, relative to the root of the modules, of the file that holds
    /// the module of this key.
    pub fn key_to_path(&self) -> (r: String)
        ensures
            r@ == path_of_key(self@),
    {
        proof {
            reveal_strlit("/");
        }
        let mut path = replace_char(self.0.as_str(), '.', "/");
        proof {
            assert(path@ =~= self@.map_values(|c: char| if c == '.' { '/' } else { c }));
        }
        path.append(".spsl");
        path
    }

    /// Whether two keys name the same module.
    pub fn same(&self, other: &ModuleKey) -> (r: bool)
        ensures
            r == (self@ == other@),
    {
        self.0 == other.0
    }
}

/// The dotted path of an imported module, segment by segment.
#[derive(Debug, PartialEq)]
pub struct ModulePath {
    pub path: Vec<String>,
}

/// One import statement: the imported module and the symbols asked of it.
/// The symbols are informative only: every symbol is imported.
#[derive(Debug, PartialEq)]
pub struct ImportList {
    pub module: ModulePath,
    pub list: Vec<String>,
}

/// The segments joined by dots.
pub open spec fn dotted(path: Seq<Seq<char>>) -> Seq<char>
    decreases path.len(),
{
    if path.len() == 0 {
        Seq::empty()
    } else if path.len() == 1 {
        path[0]
    } else {
        dotted(path.drop_last()) + seq!['.'] + path.last()
    }
}

impl View for ModulePath {
    type V = Seq<Seq<char>>;

    open spec fn view(&self) -> Seq<Seq<char>> {
        view_seq(self.path@)
    }
}

impl ImportList {
    /// The key of the imported module.
    pub open spec fn key(&self) -> Seq<char> {
        dotted(self.module@)
    }

    /// The key of the imported module.
    pub fn module_key(&self) -> (r: ModuleKey)
        ensures
            r@ == self.key(),
    {
        let mut text = String::new();
        let mut i: usize = 0;
        let ghost path = self.module@;
        while i < self.module.path.len()
            invariant
                i <= self.module.path.len(),
                path == view_seq(self.module.path@),
                text@ == dotted(path.take(i as int)),
            decreases self.module.path.len() - i,
        {
            proof {
                reveal_strlit(".");
                assert(path.take(i + 1).drop_last() =~= path.take(i as int));
                assert("."@ =~= seq!['.']);
            }
            if i > 0 {
                text.append(".");
            }
            text.append(self.module.path[i].as_str());
            i += 1;
        }
        proof {
            assert(path.take(i as int) =~= path);
        }
        ModuleKey(text)
    }
}

/// A shader module: its imports and its top-level declarations, both in
/// source order.
#[derive(Debug, PartialEq)]
pub struct Module {
    pub imports: Vec<ImportList>,
    pub glsl: Vec<ExternalDeclaration>,
}

/// The model of a [`Module`]: the keys it imports and its declarations.
pub ghost struct ModuleView {
    pub imports: Seq<Seq<char>>,
    pub glsl: Seq<ExternalDeclarationView>,
}

impl View for Module {
    type V = ModuleView;

    open spec fn view(&self) -> ModuleView {
        ModuleView {
            imports: self.imports@.map_values(|i: ImportList| i.key()),
            glsl: view_seq(self.glsl@),
        }
    }
}

impl Clone for ModulePath {
    fn clone(&self) -> (r: Self)
        ensures
            r@ == self@,
    {
        ModulePath { path: clone_strings(&self.path) }
    }
}

impl Clone for ImportList {
    fn clone(&self) -> (r: Self)
        ensures
            r.key() == self.key(),
            view_seq(r.list@) == view_seq(self.list@),
    {
        ImportList { module: self.module.clone(), list: clone_strings(&self.list) }
    }
}

/// A copy of a list of strings.
pub fn clone_strings(v: &Vec<String>) -> (r: Vec<String>)
    ensures
        view_seq(r@) == view_seq(v@),
{
    let mut r: Vec<String> = Vec::new();
    let mut i: usize = 0;
    proof {
        assert(view_seq(r@) =~= view_seq(v@.take(0)));
    }
    while i < v.len()
        invariant
            i <= v.len(),
            view_seq(r@) == view_seq(v@.take(i as int)),
        decreases v.len() - i,
    {
        let ghost before = r@;
        r.push(v[i].clone());
        proof {
            lemma_view_seq_take(v@, i as int);
            assert(view_seq(r@) =~= view_seq(before).push(v@[i as int]@));
        }
        i += 1;
    }
    proof {
        assert(v@.take(i as int) =~= v@);
    }
    r
}

impl Clone for Module {
    fn clone(&self) -> (r: Self)
        ensures
            r@ == self@,
    {
        let mut imports: Vec<ImportList> = Vec::new();
        let mut i: usize = 0;
        while i < self.imports.len()
            invariant
                i <= self.imports.len(),
                imports@.len() == i,
                forall|j: int| 0 <= j < i ==> (#[trigger] imports@[j]).key() == self.imports@[j].key(),
            decreases self.imports.len() - i,
        {
            imports.push(self.imports[i].clone());
            i += 1;
        }
        let r = Module { imports, glsl: clone_vec_external_declaration(&self.glsl) };
        proof {
            assert(r@.imports =~= self@.imports);
        }
        r
    }
}

/// What each element of a sequence contributes, concatenated in order.
pub open spec fn collect<A, B>(s: Seq<A>, f: spec_fn(A) -> Seq<B>) -> Seq<B>
    decreases s.len(),
{
    if s.len() == 0 {
        Seq::empty()
    } else {
        collect(s.drop_last(), f) + f(s.last())
    }
}

/// Collecting over one more element appends what that element contributes.
pub proof fn lemma_collect_take<A, B>(s: Seq<A>, f: spec_fn(A) -> Seq<B>, i: int)
    requires
        0 <= i < s.len(),
    ensures
        collect(s.take(i + 1), f) == collect(s.take(i), f) + f(s[i]),
{
    assert(s.take(i + 1).drop_last() =~= s.take(i));
}

/// Whether the qualifiers hold the `uniform` storage qualifier.
pub open spec fn has_uniform(q: Option<Seq<QualifierSpec>>) -> bool {
    match q {
        Some(q) => q.contains(QualifierSpec::Uniform),
        None => false,
    }
}

/// A further name of a declaration, as a declaration of its own with the
/// type of the first name and no initial value.
pub open spec fn expand_tail(
    ty: FullySpecifiedTypeView,
    next: SingleDeclarationNoTypeView,
) -> SingleDeclarationView {
    SingleDeclarationView {
        ty,
        name: Some(next.name),
        array_specifier: next.array_specifier,
        initializer: None,
    }
}

/// The uniforms that one declaration declares: none unless it is a
/// declaration of variables qualified `uniform`; then its first name as
/// written, followed by one entry per further name.
pub open spec fn uniform_entries(d: ExternalDeclarationView) -> Seq<SingleDeclarationView> {
    match d {
        ExternalDeclarationView::InitDeclaratorList(i) => if has_uniform(i.head.ty.qualifier) {
            seq![i.head] + i.tail.map_values(
                |n: SingleDeclarationNoTypeView| expand_tail(i.head.ty, n),
            )
        } else {
            Seq::empty()
        },
        _ => Seq::empty(),
    }
}

/// The interface block that one declaration is, if it is one.
pub open spec fn block_entries(d: ExternalDeclarationView) -> Seq<glsl::syntax::Block> {
    match d {
        ExternalDeclarationView::Block(b) => seq![b],
        _ => Seq::empty(),
    }
}

/// The function that one declaration defines, if it defines one.
pub open spec fn function_entries(d: ExternalDeclarationView) -> Seq<FunctionDefinitionView> {
    match d {
        ExternalDeclarationView::FunctionDefinition(f) => seq![f],
        _ => Seq::empty(),
    }
}

/// The struct that one declaration defines as the type of its first name,
/// if it defines one.
pub open spec fn struct_entries(d: ExternalDeclarationView) -> Seq<StructDefView> {
    match d {
        ExternalDeclarationView::InitDeclaratorList(i) => match i.head.ty.ty.ty {
            DataTypeView::Struct(s) => seq![s],
            _ => Seq::empty(),
        },
        _ => Seq::empty(),
    }
}

/// The uniforms that a list of declarations declares, in order.
pub open spec fn uniforms_of(glsl: Seq<ExternalDeclarationView>) -> Seq<SingleDeclarationView> {
    collect(glsl, |d: ExternalDeclarationView| uniform_entries(d))
}

/// The interface blocks among a list of declarations, in order.
pub open spec fn blocks_of(glsl: Seq<ExternalDeclarationView>) -> Seq<glsl::syntax::Block> {
    collect(glsl, |d: ExternalDeclarationView| block_entries(d))
}

/// The functions that a list of declarations defines, in order.
pub open spec fn functions_of(glsl: Seq<ExternalDeclarationView>) -> Seq<FunctionDefinitionView> {
    collect(glsl, |d: ExternalDeclarationView| function_entries(d))
}

/// The structs that a list of declarations defines, in order.
pub open spec fn structs_of(glsl: Seq<ExternalDeclarationView>) -> Seq<StructDefView> {
    collect(glsl, |d: ExternalDeclarationView| struct_entries(d))
}

/// Whether the qualifiers hold the `uniform` storage qualifier.
pub fn is_uniform(qualifier: &Option<TypeQualifier>) -> (r: bool)
    ensures
        r == has_uniform(view_opt(*qualifier)),
{
    match qualifier {
        None => false,
        Some(q) => {
            let mut i: usize = 0;
            while i < q.qualifiers.len()
                invariant
                    i <= q.qualifiers.len(),
                    view_opt(*qualifier) == Some(q@),
                    !q.qualifiers@.take(i as int).contains(QualifierSpec::Uniform),
                decreases q.qualifiers.len() - i,
            {
                if let QualifierSpec::Uniform = q.qualifiers[i] {
                    assert(q.qualifiers@[i as int] == QualifierSpec::Uniform);
                    assert(q@.contains(QualifierSpec::Uniform));
                    return true;
                }
                proof {
                    assert(q.qualifiers@.take(i + 1) =~= q.qualifiers@.take(i as int).push(
                        q.qualifiers@[i as int],
                    ));
                }
                i += 1;
            }
            proof {
                assert(q.qualifiers@.take(i as int) =~= q.qualifiers@);
            }
            false
        },
    }
}

impl Module {
    /// All the uniforms that the module declares, in source order. A
    /// declaration of several names gives one entry per name, each with the
    /// type and qualifier of the first.
    pub fn uniforms(&self) -> (r: Vec<SingleDeclaration>)
        ensures
            view_seq(r@) == uniforms_of(self@.glsl),
    {
        let ghost f = |d: ExternalDeclarationView| uniform_entries(d);
        let ghost glsl = self@.glsl;
        let mut uniforms: Vec<SingleDeclaration> = Vec::new();
        let mut i: usize = 0;
        proof {
            assert(view_seq(uniforms@) =~= collect(glsl.take(0), f));
        }
        while i < self.glsl.len()
            invariant
                i <= self.glsl.len(),
                glsl == view_seq(self.glsl@),
                f == (|d: ExternalDeclarationView| uniform_entries(d)),
                view_seq(uniforms@) == collect(glsl.take(i as int), f),
            decreases self.glsl.len() - i,
        {
            proof {
                lemma_collect_take(glsl, f, i as int);
            }
            let ghost before = view_seq(uniforms@);
            if let ExternalDeclaration::InitDeclaratorList(list) = &self.glsl[i] {
                if is_uniform(&list.head.ty.qualifier) {
                    uniforms.push(list.head.clone());
                    let ghost ty = list.head.ty@;
                    let ghost tail = view_seq(list.tail@);
                    let ghost g = |n: SingleDeclarationNoTypeView| expand_tail(ty, n);
                    let mut j: usize = 0;
                    proof {
                        assert(view_seq(uniforms@) =~= before + (seq![list.head@]
                            + tail.take(0).map_values(g)));
                    }
                    while j < list.tail.len()
                        invariant
                            j <= list.tail.len(),
                            ty == list.head.ty@,
                            tail == view_seq(list.tail@),
                            g == (|n: SingleDeclarationNoTypeView| expand_tail(ty, n)),
                            view_seq(uniforms@) == before + (seq![list.head@] + tail.take(
                                j as int,
                            ).map_values(g)),
                        decreases list.tail.len() - j,
                    {
                        let next = &list.tail[j];
                        let ghost so_far = view_seq(uniforms@);
                        uniforms.push(
                            SingleDeclaration {
                                ty: list.head.ty.clone(),
                                name: Some(next.name.clone()),
                                array_specifier: clone_opt_array_specifier(&next.array_specifier),
                                initializer: None,
                            },
                        );
                        proof {
                            assert(view_seq(uniforms@) =~= so_far.push(expand_tail(ty, tail[j as int])));
                            assert(tail.take(j + 1).map_values(g) =~= tail.take(j as int).map_values(
                                g,
                            ).push(g(tail[j as int])));
                            assert(view_seq(uniforms@) =~= before + (seq![list.head@] + tail.take(
                                j + 1,
                            ).map_values(g)));
                        }
                        j += 1;
                    }
                    proof {
                        assert(tail.take(j as int) =~= tail);
                    }
                }
            }
            proof {
                assert(view_seq(uniforms@) =~= before + f(glsl[i as int]));
            }
            i += 1;
        }
        proof {
            assert(glsl.take(i as int) =~= glsl);
        }
        uniforms
    }

    /// All the interface blocks of the module, in source order.
    pub fn blocks(&self) -> (r: Vec<glsl::syntax::Block>)
        ensures
            r@ == blocks_of(self@.glsl),
    {
        let ghost f = |d: ExternalDeclarationView| block_entries(d);
        let ghost glsl = self@.glsl;
        let mut blocks: Vec<glsl::syntax::Block> = Vec::new();
        let mut i: usize = 0;
        proof {
            assert(blocks@ =~= collect(glsl.take(0), f));
        }
        while i < self.glsl.len()
            invariant
                i <= self.glsl.len(),
                glsl == view_seq(self.glsl@),
                f == (|d: ExternalDeclarationView| block_entries(d)),
                blocks@ == collect(glsl.take(i as int), f),
            decreases self.glsl.len() - i,
        {
            proof {
                lemma_collect_take(glsl, f, i as int);
            }
            let ghost before = blocks@;
            if let ExternalDeclaration::Block(block) = &self.glsl[i] {
                blocks.push(block.clone());
            }
            proof {
                assert(blocks@ =~= before + f(glsl[i as int]));
            }
            i += 1;
        }
        proof {
            assert(glsl.take(i as int) =~= glsl);
        }
        blocks
    }

    /// All the functions that the module defines, in source order.
    pub fn functions(&self) -> (r: Vec<FunctionDefinition>)
        ensures
            view_seq(r@) == functions_of(self@.glsl),
    {
        let ghost f = |d: ExternalDeclarationView| function_entries(d);
        let ghost glsl = self@.glsl;
        let mut functions: Vec<FunctionDefinition> = Vec::new();
        let mut i: usize = 0;
        proof {
            assert(view_seq(functions@) =~= collect(glsl.take(0), f));
        }
        while i < self.glsl.len()
            invariant
                i <= self.glsl.len(),
                glsl == view_seq(self.glsl@),
                f == (|d: ExternalDeclarationView| function_entries(d)),
                view_seq(functions@) == collect(glsl.take(i as int), f),
            decreases self.glsl.len() - i,
        {
            proof {
                lemma_collect_take(glsl, f, i as int);
            }
            let ghost before = view_seq(functions@);
            if let ExternalDeclaration::FunctionDefinition(def) = &self.glsl[i] {
                functions.push(def.clone());
            }
            proof {
                assert(view_seq(functions@) =~= before + f(glsl[i as int]));
            }
            i += 1;
        }
        proof {
            assert(glsl.take(i as int) =~= glsl);
        }
        functions
    }

    /// All the structs that the module defines as the type of a declaration,
    /// in source order.
    pub fn structs(&self) -> (r: Vec<StructDef>)
        ensures
            view_seq(r@) == structs_of(self@.glsl),
    {
        let ghost f = |d: ExternalDeclarationView| struct_entries(d);
        let ghost glsl = self@.glsl;
        let mut structs: Vec<StructDef> = Vec::new();
        let mut i: usize = 0;
        proof {
            assert(view_seq(structs@) =~= collect(glsl.take(0), f));
        }
        while i < self.glsl.len()
            invariant
                i <= self.glsl.len(),
                glsl == view_seq(self.glsl@),
                f == (|d: ExternalDeclarationView| struct_entries(d)),
                view_seq(structs@) == collect(glsl.take(i as int), f),
            decreases self.glsl.len() - i,
        {
            proof {
                lemma_collect_take(glsl, f, i as int);
            }
            let ghost before = view_seq(structs@);
            if let ExternalDeclaration::InitDeclaratorList(list) = &self.glsl[i] {
                if let DataType::Struct(s) = &list.head.ty.ty.ty {
                    structs.push(s.clone());
                }
            }
            proof {
                assert(view_seq(structs@) =~= before + f(glsl[i as int]));
            }
            i += 1;
        }
        proof {
            assert(glsl.take(i as int) =~= glsl);
        }
        structs
    }
}

} // verus!
