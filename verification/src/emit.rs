//! GLSL source for a flattened module.
//!
//! The source is given as the ordered list of its pieces. A piece is either a
//! node of the syntax tree, to be printed by the GLSL printer, or literal
//! text. The shared pieces come first: uniforms, interface blocks, structs
//! and every function but the entry function. The vertex stage follows: its
//! inputs, its outputs, the entry function and the synthesized `main`.
use crate::module::{
    blocks_of, collect, functions_of, lemma_collect_take, same_text, structs_of, uniforms_of,
    Module, ModuleView,
};
use crate::syntax::{
    view_seq, ArrayedIdentifierView, DataTypeView, ExternalDeclaration, ExternalDeclarationView,
    FunctionDefinition, FunctionDefinitionView, FunctionParameterDeclaration,
    FunctionParameterDeclarationView, SingleDeclaration, SingleDeclarationView, StructDef,
    StructDefView, StructFieldSpecifierView, TypeSpecifierView,
};
use crate::vertex::{
    all_named, find_struct, get_vertex_output_type, interface_of, output_type_of,
    vertex_shader_inputs, vertex_shader_outputs, VertexShaderInterfaceError,
    VertexShaderInterfaceErrorView,
};
use vstd::prelude::*;
use vstd::string::*;

verus! {

/// One piece of GLSL source.
#[derive(Debug, PartialEq)]
pub enum GLSLPiece {
    /// The declaration of a uniform.
    Uniform(SingleDeclaration),
    /// An interface block.
    Block(glsl::syntax::Block),
    /// The definition of a struct.
    Struct(StructDef),
    /// The definition of a function.
    Function(FunctionDefinition),
    /// A top-level declaration.
    Declaration(ExternalDeclaration),
    /// Literal text.
    Text(String),
}

/// The model of a [`GLSLPiece`].
pub ghost enum GLSLPieceView {
    Uniform(SingleDeclarationView),
    Block(glsl::syntax::Block),
    Struct(StructDefView),
    Function(FunctionDefinitionView),
    Declaration(ExternalDeclarationView),
    Text(Seq<char>),
}

impl View for GLSLPiece {
    type V = GLSLPieceView;

    open spec fn view(&self) -> GLSLPieceView {
        match *self {
            GLSLPiece::Uniform(a) => GLSLPieceView::Uniform(a@),
            GLSLPiece::Block(a) => GLSLPieceView::Block(a),
            GLSLPiece::Struct(a) => GLSLPieceView::Struct(a@),
            GLSLPiece::Function(a) => GLSLPieceView::Function(a@),
            GLSLPiece::Declaration(a) => GLSLPieceView::Declaration(a@),
            GLSLPiece::Text(a) => GLSLPieceView::Text(a@),
        }
    }
}

/// GLSL source, piece by piece.
pub type GLSLString = Vec<GLSLPiece>;

/// Why a module cannot be turned into GLSL source.
#[derive(Debug, PartialEq)]
pub enum GLSLConversionError {
    /// The entry function of the vertex stage does not define an interface.
    VertexShaderInterfaceError(VertexShaderInterfaceError),
    /// The module has no entry function for the vertex stage.
    NoVertexShader,
    /// The module has no entry function for the fragment stage.
    NoFragmentShader,
}

impl Clone for GLSLConversionError {
    fn clone(&self) -> (r: Self)
        ensures
            r@ == self@,
    {
        match self {
            GLSLConversionError::VertexShaderInterfaceError(e) =>
                GLSLConversionError::VertexShaderInterfaceError(e.clone()),
            GLSLConversionError::NoVertexShader => GLSLConversionError::NoVertexShader,
            GLSLConversionError::NoFragmentShader => GLSLConversionError::NoFragmentShader,
        }
    }
}

/// The model of a [`GLSLConversionError`].
pub ghost enum GLSLConversionErrorView {
    VertexShaderInterfaceError(VertexShaderInterfaceErrorView),
    NoVertexShader,
    NoFragmentShader,
}

impl View for GLSLConversionError {
    type V = GLSLConversionErrorView;

    open spec fn view(&self) -> GLSLConversionErrorView {
        match *self {
            GLSLConversionError::VertexShaderInterfaceError(e) =>
                GLSLConversionErrorView::VertexShaderInterfaceError(e@),
            GLSLConversionError::NoVertexShader => GLSLConversionErrorView::NoVertexShader,
            GLSLConversionError::NoFragmentShader => GLSLConversionErrorView::NoFragmentShader,
        }
    }
}

/// The assignment of one field of the local `v` to its output.
pub open spec fn assign_line(id: Seq<char>) -> Seq<char> {
    "  __v_"@ + id + " = v."@ + id + ";\n"@
}

/// The assignments for the identifiers of one field.
pub open spec fn field_assigns(f: StructFieldSpecifierView) -> Seq<char> {
    collect(f.identifiers, |a: ArrayedIdentifierView| assign_line(a.name))
}

/// The assignments that `main` makes: the position, then every identifier of
/// every field after the first.
pub open spec fn assigns_of(fields: Seq<StructFieldSpecifierView>) -> Seq<char> {
    "  gl_Position = v.gl_Position;\n"@ + collect(
        fields.skip(1),
        |f: StructFieldSpecifierView| field_assigns(f),
    )
}

/// The name of a parameter; empty if it has none.
pub open spec fn arg_name(p: FunctionParameterDeclarationView) -> Seq<char> {
    match p {
        FunctionParameterDeclarationView::Named(_, d) => d.name,
        FunctionParameterDeclarationView::Unnamed(_, _) => Seq::empty(),
    }
}

/// The names of the parameters, separated by a comma and a space.
pub open spec fn args_text(params: Seq<FunctionParameterDeclarationView>) -> Seq<char>
    decreases params.len(),
{
    if params.len() == 0 {
        Seq::empty()
    } else if params.len() == 1 {
        arg_name(params[0])
    } else {
        args_text(params.drop_last()) + ", "@ + arg_name(params.last())
    }
}

/// The synthesized `main`: it declares a local `v` of the output struct,
/// calls the entry function with the parameter names in order, and assigns
/// the fields of `v` to the outputs.
pub open spec fn main_text(f: FunctionDefinitionView, s: StructDefView) -> Seq<char> {
    "void main() {\n  "@ + s.name.unwrap() + " v = map_vertex("@ + args_text(
        f.prototype.parameters,
    ) + ");\n"@ + assigns_of(s.fields) + "}\n\n"@
}

/// The declarations as pieces, in order.
pub open spec fn declaration_pieces(decls: Seq<ExternalDeclarationView>) -> Seq<GLSLPieceView> {
    decls.map_values(|d: ExternalDeclarationView| GLSLPieceView::Declaration(d))
}

/// The pieces of the vertex stage that the entry function `f` defines: its
/// inputs, its outputs, the function itself, and `main`.
pub open spec fn vertex_stage(f: FunctionDefinitionView, structs: Seq<StructDefView>) -> Result<
    Seq<GLSLPieceView>,
    VertexShaderInterfaceErrorView,
> {
    match interface_of(f, structs) {
        Err(e) => Err(e),
        Ok(interface) => Ok(
            declaration_pieces(interface.inputs) + declaration_pieces(interface.outputs) + seq![
                GLSLPieceView::Function(f),
                GLSLPieceView::Text(
                    main_text(f, output_type_of(f.prototype.ty.ty, structs)->Ok_0),
                ),
            ],
        ),
    }
}

/// Appends the name of one argument of the entry function.
pub fn sink_vertex_shader_input_arg(sink: &mut String, arg: &FunctionParameterDeclaration) -> (r:
    Result<(), VertexShaderInterfaceError>)
    ensures
        arg@ is Named ==> r is Ok && final(sink)@ == old(sink)@ + arg_name(arg@),
        !(arg@ is Named) ==> r == Err::<(), _>(VertexShaderInterfaceError::UnnamedInput)
            && final(sink)@ == old(sink)@,
{
    match arg {
        FunctionParameterDeclaration::Named(_, d) => {
            sink.append(d.name.as_str());
            Ok(())
        },
        FunctionParameterDeclaration::Unnamed(_, _) => Err(
            VertexShaderInterfaceError::UnnamedInput,
        ),
    }
}

/// Whether every parameter has a name.
fn check_all_named(args: &Vec<FunctionParameterDeclaration>) -> (r: bool)
    ensures
        r == all_named(view_seq(args@)),
{
    let ghost params = view_seq(args@);
    let mut i: usize = 0;
    while i < args.len()
        invariant
            i <= args.len(),
            params == view_seq(args@),
            forall|j: int| 0 <= j < i ==> #[trigger] params[j] is Named,
        decreases args.len() - i,
    {
        if let FunctionParameterDeclaration::Unnamed(_, _) = &args[i] {
            assert(!(params[i as int] is Named));
            return false;
        }
        i += 1;
    }
    true
}

/// Appends the arguments of the call of the entry function: the names of its
/// parameters, separated by a comma and a space. Nothing is appended if a
/// parameter has no name.
pub fn sink_vertex_shader_input_args(sink: &mut String, map_vertex: &FunctionDefinition) -> (r:
    Result<(), VertexShaderInterfaceError>)
    ensures
        all_named(map_vertex@.prototype.parameters) ==> r is Ok && final(sink)@ == old(sink)@
            + args_text(map_vertex@.prototype.parameters),
        !all_named(map_vertex@.prototype.parameters) ==> r == Err::<(), _>(
            VertexShaderInterfaceError::UnnamedInput,
        ) && final(sink)@ == old(sink)@,
{
    let args = &map_vertex.prototype.parameters;
    if !check_all_named(args) {
        return Err(VertexShaderInterfaceError::UnnamedInput);
    }
    let ghost params = view_seq(args@);
    let ghost start = sink@;
    let mut i: usize = 0;
    proof {
        assert(sink@ =~= start + args_text(params.take(0)));
    }
    while i < args.len()
        invariant
            i <= args.len(),
            params == view_seq(args@),
            all_named(params),
            sink@ == start + args_text(params.take(i as int)),
        decreases args.len() - i,
    {
        proof {
            assert(params.take(i + 1).drop_last() =~= params.take(i as int));
            assert(params[i as int] is Named);
        }
        if i > 0 {
            sink.append(", ");
        }
        let _ = sink_vertex_shader_input_arg(sink, &args[i]);
        proof {
            assert(sink@ =~= start + args_text(params.take(i + 1)));
        }
        i += 1;
    }
    proof {
        assert(params.take(i as int) =~= params);
    }
    Ok(())
}

/// Appends the name of the output struct to `sink`, and to `assigns` the
/// assignments that `main` makes.
pub fn sink_vertex_shader_output(sink: &mut String, assigns: &mut String, ty: &StructDef)
    requires
        ty@.name is Some,
        ty@.fields.len() >= 1,
    ensures
        final(sink)@ == old(sink)@ + ty@.name.unwrap(),
        final(assigns)@ == old(assigns)@ + assigns_of(ty@.fields),
{
    if let Some(name) = &ty.name {
        sink.append(name.as_str());
    }
    assigns.append("  gl_Position = v.gl_Position;\n");
    let ghost start = assigns@;
    let ghost rest = ty@.fields.skip(1);
    let ghost f = |f: StructFieldSpecifierView| field_assigns(f);
    let mut i: usize = 1;
    proof {
        assert(assigns@ =~= start + collect(rest.take(0), f));
    }
    while i < ty.fields.len()
        invariant
            1 <= i <= ty.fields.len(),
            rest == view_seq(ty.fields@).skip(1),
            f == (|f: StructFieldSpecifierView| field_assigns(f)),
            assigns@ == start + collect(rest.take(i - 1), f),
        decreases ty.fields.len() - i,
    {
        let field = &ty.fields[i];
        let ghost ids = field@.identifiers;
        let ghost g = |a: ArrayedIdentifierView| assign_line(a.name);
        let ghost before = assigns@;
        let mut j: usize = 0;
        proof {
            assert(rest[i - 1] == field@);
            lemma_collect_take(rest, f, i - 1);
            assert(assigns@ =~= before + collect(ids.take(0), g));
        }
        while j < field.identifiers.len()
            invariant
                j <= field.identifiers.len(),
                ids == view_seq(field.identifiers@),
                g == (|a: ArrayedIdentifierView| assign_line(a.name)),
                assigns@ == before + collect(ids.take(j as int), g),
            decreases field.identifiers.len() - j,
        {
            let id = &field.identifiers[j];
            proof {
                lemma_collect_take(ids, g, j as int);
                assert(ids[j as int].name == id.name@);
            }
            let ghost so_far = assigns@;
            assigns.append("  __v_");
            assigns.append(id.name.as_str());
            assigns.append(" = v.");
            assigns.append(id.name.as_str());
            assigns.append(";\n");
            proof {
                assert(assigns@ =~= so_far + assign_line(id.name@));
                assert(assigns@ =~= before + collect(ids.take(j + 1), g));
            }
            j += 1;
        }
        proof {
            assert(ids.take(j as int) =~= ids);
            assert(assigns@ =~= start + collect(rest.take(i as int), f));
        }
        i += 1;
    }
    proof {
        assert(rest.take(i - 1) =~= rest);
    }
}

/// Appends the vertex stage that the entry function defines. Nothing is
/// appended if the function does not define one.
pub fn sink_vertex_shader(
    sink: &mut Vec<GLSLPiece>,
    map_vertex: &FunctionDefinition,
    structs: &Vec<StructDef>,
) -> (r: Result<(), VertexShaderInterfaceError>)
    ensures
        match r {
            Ok(_) => match vertex_stage(map_vertex@, view_seq(structs@)) {
                Ok(pieces) => view_seq(final(sink)@) == view_seq(old(sink)@) + pieces,
                Err(_) => false,
            },
            Err(e) => vertex_stage(map_vertex@, view_seq(structs@)) == Err::<Seq<GLSLPieceView>, _>(
                e@,
            ) && final(sink)@ == old(sink)@,
        },
{
    let ghost start = view_seq(sink@);
    let ghost catalog = view_seq(structs@);
    let inputs = match vertex_shader_inputs(&map_vertex.prototype.parameters) {
        Ok(inputs) => inputs,
        Err(e) => {
            return Err(e);
        },
    };
    let outputs = match vertex_shader_outputs(&map_vertex.prototype.ty, structs) {
        Ok(outputs) => outputs,
        Err(e) => {
            return Err(e);
        },
    };
    let output_ty = match get_vertex_output_type(map_vertex, structs) {
        Ok(ty) => ty,
        Err(e) => {
            return Err(e);
        },
    };
    proof {
        lemma_found_struct_is_named(catalog, map_vertex@.prototype.ty.ty);
    }
    let mut main = String::from_str("void main() {\n  ");
    let mut assigns = String::new();
    sink_vertex_shader_output(&mut main, &mut assigns, &output_ty);
    main.append(" v = map_vertex(");
    let _ = sink_vertex_shader_input_args(&mut main, map_vertex);
    main.append(");\n");
    main.append(assigns.as_str());
    main.append("}\n\n");
    proof {
        assert(main@ =~= main_text(map_vertex@, output_ty@));
    }
    let ghost ins = view_seq(inputs@);
    let ghost outs = view_seq(outputs@);
    push_declarations(sink, &inputs);
    push_declarations(sink, &outputs);
    let ghost declared = view_seq(sink@);
    sink.push(GLSLPiece::Function(map_vertex.clone()));
    let ghost defined = view_seq(sink@);
    proof {
        assert(defined =~= declared.push(GLSLPieceView::Function(map_vertex@)));
    }
    let ghost text = main@;
    sink.push(GLSLPiece::Text(main));
    proof {
        assert(view_seq(sink@) =~= defined.push(GLSLPieceView::Text(text)));
        assert(view_seq(sink@) =~= start + (declaration_pieces(ins) + declaration_pieces(outs)
            + seq![
            GLSLPieceView::Function(map_vertex@),
            GLSLPieceView::Text(main_text(map_vertex@, output_ty@)),
        ]));
    }
    Ok(())
}

/// The struct that a return type names has a name.
proof fn lemma_found_struct_is_named(structs: Seq<StructDefView>, ty: TypeSpecifierView)
    ensures
        output_type_of(ty, structs) is Ok ==> (output_type_of(ty, structs)->Ok_0).name is Some,
{
    if let DataTypeView::TypeName(name) = ty.ty {
        lemma_find_struct_named(structs, name, 0);
    }
}

/// Whatever `find_struct` finds has the name that was looked for.
proof fn lemma_find_struct_named(structs: Seq<StructDefView>, name: Seq<char>, from: int)
    ensures
        find_struct_result_named(structs, name, from),
    decreases structs.len() - from,
{
    if 0 <= from < structs.len() && structs[from].name != Some(name) {
        lemma_find_struct_named(structs, name, from + 1);
    }
}

/// What [`lemma_find_struct_named`] states.
spec fn find_struct_result_named(structs: Seq<StructDefView>, name: Seq<char>, from: int) -> bool {
    match find_struct(structs, name, from) {
        Some(s) => s.name == Some(name),
        None => true,
    }
}

/// Appends the declarations, each as a piece, in order.
fn push_declarations(sink: &mut Vec<GLSLPiece>, decls: &Vec<ExternalDeclaration>)
    ensures
        view_seq(final(sink)@) == view_seq(old(sink)@) + declaration_pieces(view_seq(decls@)),
{
    let ghost start = view_seq(sink@);
    let ghost all = view_seq(decls@);
    let mut i: usize = 0;
    proof {
        assert(view_seq(sink@) =~= start + declaration_pieces(all.take(0)));
    }
    while i < decls.len()
        invariant
            i <= decls.len(),
            all == view_seq(decls@),
            view_seq(sink@) == start + declaration_pieces(all.take(i as int)),
        decreases decls.len() - i,
    {
        let ghost before = view_seq(sink@);
        sink.push(GLSLPiece::Declaration(decls[i].clone()));
        proof {
            assert(view_seq(sink@) =~= before.push(GLSLPieceView::Declaration(all[i as int])));
            assert(declaration_pieces(all.take(i + 1)) =~= declaration_pieces(
                all.take(i as int),
            ).push(GLSLPieceView::Declaration(all[i as int])));
        }
        i += 1;
    }
    proof {
        assert(all.take(i as int) =~= all);
    }
}

/// Whether a function is the entry function of the vertex stage: the one
/// named `map_vertex`.
pub open spec fn is_entry(f: FunctionDefinitionView) -> bool {
    f.prototype.name == "map_vertex"@
}

/// Whether one of the functions is an entry function of the vertex stage.
pub open spec fn has_entry(fs: Seq<FunctionDefinitionView>) -> bool {
    exists|i: int| 0 <= i < fs.len() && is_entry(#[trigger] fs[i])
}

/// The pieces for one uniform: its declaration, then a semicolon and a line
/// break.
pub open spec fn uniform_pieces(u: SingleDeclarationView) -> Seq<GLSLPieceView> {
    seq![GLSLPieceView::Uniform(u), GLSLPieceView::Text(";\n"@)]
}

/// The pieces for the uniforms, in order.
pub open spec fn uniforms_pieces(us: Seq<SingleDeclarationView>) -> Seq<GLSLPieceView> {
    collect(us, |u: SingleDeclarationView| uniform_pieces(u))
}

/// The pieces for the interface blocks, in order.
pub open spec fn blocks_pieces(bs: Seq<glsl::syntax::Block>) -> Seq<GLSLPieceView> {
    bs.map_values(|b: glsl::syntax::Block| GLSLPieceView::Block(b))
}

/// The pieces for the structs, in order.
pub open spec fn structs_pieces(ss: Seq<StructDefView>) -> Seq<GLSLPieceView> {
    ss.map_values(|s: StructDefView| GLSLPieceView::Struct(s))
}

/// The piece for a function among the shared code: the function itself,
/// unless it is an entry function.
pub open spec fn plain_function(f: FunctionDefinitionView) -> Seq<GLSLPieceView> {
    if is_entry(f) {
        Seq::empty()
    } else {
        seq![GLSLPieceView::Function(f)]
    }
}

/// The shared functions as pieces, in order.
pub open spec fn plain_functions(fs: Seq<FunctionDefinitionView>) -> Seq<GLSLPieceView> {
    collect(fs, |f: FunctionDefinitionView| plain_function(f))
}

/// The pieces of the vertex stage: what every entry function among `fs`
/// gives, in order; or the error of the first one that defines no interface.
pub open spec fn vertex_pieces(
    fs: Seq<FunctionDefinitionView>,
    structs: Seq<StructDefView>,
) -> Result<Seq<GLSLPieceView>, VertexShaderInterfaceErrorView>
    decreases fs.len(),
{
    if fs.len() == 0 {
        Ok(Seq::empty())
    } else {
        match vertex_pieces(fs.drop_last(), structs) {
            Err(e) => Err(e),
            Ok(before) => if is_entry(fs.last()) {
                match vertex_stage(fs.last(), structs) {
                    Err(e) => Err(e),
                    Ok(stage) => Ok(before + stage),
                }
            } else {
                Ok(before)
            },
        }
    }
}

/// The GLSL source of a module.
///
/// Without an entry function there is no source: `NoVertexShader`. An entry
/// function that defines no interface gives its error. Otherwise the source
/// is the uniforms, the interface blocks, the structs, the functions that
/// are no entry function, and the vertex stage, in this order.
pub open spec fn glsl_of(m: ModuleView) -> Result<Seq<GLSLPieceView>, GLSLConversionErrorView> {
    let fs = functions_of(m.glsl);
    let structs = structs_of(m.glsl);
    if !has_entry(fs) {
        Err(GLSLConversionErrorView::NoVertexShader)
    } else {
        match vertex_pieces(fs, structs) {
            Err(e) => Err(GLSLConversionErrorView::VertexShaderInterfaceError(e)),
            Ok(stage) => Ok(
                uniforms_pieces(uniforms_of(m.glsl)) + blocks_pieces(blocks_of(m.glsl))
                    + structs_pieces(structs) + plain_functions(fs) + stage,
            ),
        }
    }
}

/// An error among the first `i` functions is the error of them all.
proof fn lemma_vertex_pieces_err(
    fs: Seq<FunctionDefinitionView>,
    structs: Seq<StructDefView>,
    i: int,
)
    requires
        0 <= i <= fs.len(),
        vertex_pieces(fs.take(i), structs) is Err,
    ensures
        vertex_pieces(fs, structs) == vertex_pieces(fs.take(i), structs),
    decreases fs.len(),
{
    if i == fs.len() {
        assert(fs.take(i) =~= fs);
    } else {
        assert(fs.drop_last().take(i) =~= fs.take(i));
        lemma_vertex_pieces_err(fs.drop_last(), structs, i);
    }
}

impl Module {
    /// The GLSL source of the module, piece by piece.
    pub fn to_glsl_string(&self) -> (r: Result<GLSLString, GLSLConversionError>)
        ensures
            match r {
                Ok(pieces) => glsl_of(self@) == Ok::<_, GLSLConversionErrorView>(view_seq(pieces@)),
                Err(e) => glsl_of(self@) == Err::<Seq<GLSLPieceView>, _>(e@),
            },
            !has_entry(functions_of(self@.glsl)) ==> r == Err::<GLSLString, _>(
                GLSLConversionError::NoVertexShader,
            ),
    {
        let uniforms = self.uniforms();
        let blocks = self.blocks();
        let structs = self.structs();
        let functions = self.functions();
        let ghost us = view_seq(uniforms@);
        let ghost catalog = view_seq(structs@);
        let ghost fs = view_seq(functions@);
        let mut common: Vec<GLSLPiece> = Vec::new();
        let mut vs: Vec<GLSLPiece> = Vec::new();

        let ghost pu = |u: SingleDeclarationView| uniform_pieces(u);
        let mut i: usize = 0;
        proof {
            assert(view_seq(common@) =~= collect(us.take(0), pu));
        }
        while i < uniforms.len()
            invariant
                i <= uniforms.len(),
                us == view_seq(uniforms@),
                pu == (|u: SingleDeclarationView| uniform_pieces(u)),
                view_seq(common@) == collect(us.take(i as int), pu),
            decreases uniforms.len() - i,
        {
            let ghost before = view_seq(common@);
            common.push(GLSLPiece::Uniform(uniforms[i].clone()));
            let ghost declared = view_seq(common@);
            common.push(GLSLPiece::Text(String::from_str(";\n")));
            proof {
                lemma_collect_take(us, pu, i as int);
                assert(declared =~= before.push(GLSLPieceView::Uniform(us[i as int])));
                assert(view_seq(common@) =~= before + uniform_pieces(us[i as int]));
            }
            i += 1;
        }
        proof {
            assert(us.take(i as int) =~= us);
        }
        let ghost with_uniforms = view_seq(common@);

        let mut i: usize = 0;
        proof {
            assert(view_seq(common@) =~= with_uniforms + blocks_pieces(blocks@.take(0)));
        }
        while i < blocks.len()
            invariant
                i <= blocks.len(),
                view_seq(common@) == with_uniforms + blocks_pieces(blocks@.take(i as int)),
            decreases blocks.len() - i,
        {
            let ghost before = view_seq(common@);
            common.push(GLSLPiece::Block(blocks[i].clone()));
            proof {
                assert(view_seq(common@) =~= before.push(GLSLPieceView::Block(blocks@[i as int])));
                assert(blocks_pieces(blocks@.take(i + 1)) =~= blocks_pieces(
                    blocks@.take(i as int),
                ).push(GLSLPieceView::Block(blocks@[i as int])));
            }
            i += 1;
        }
        proof {
            assert(blocks@.take(i as int) =~= blocks@);
        }
        let ghost with_blocks = view_seq(common@);

        let mut i: usize = 0;
        proof {
            assert(view_seq(common@) =~= with_blocks + structs_pieces(catalog.take(0)));
        }
        while i < structs.len()
            invariant
                i <= structs.len(),
                catalog == view_seq(structs@),
                view_seq(common@) == with_blocks + structs_pieces(catalog.take(i as int)),
            decreases structs.len() - i,
        {
            let ghost before = view_seq(common@);
            common.push(GLSLPiece::Struct(structs[i].clone()));
            proof {
                assert(view_seq(common@) =~= before.push(GLSLPieceView::Struct(catalog[i as int])));
                assert(structs_pieces(catalog.take(i + 1)) =~= structs_pieces(
                    catalog.take(i as int),
                ).push(GLSLPieceView::Struct(catalog[i as int])));
            }
            i += 1;
        }
        proof {
            assert(catalog.take(i as int) =~= catalog);
        }
        let ghost shared = view_seq(common@);

        let ghost pf = |f: FunctionDefinitionView| plain_function(f);
        let mut i: usize = 0;
        proof {
            assert(view_seq(common@) =~= shared + collect(fs.take(0), pf));
            assert(view_seq(vs@) =~= Seq::<GLSLPieceView>::empty());
        }
        while i < functions.len()
            invariant
                i <= functions.len(),
                fs == view_seq(functions@),
                catalog == view_seq(structs@),
                fs == functions_of(self@.glsl),
                catalog == structs_of(self@.glsl),
                pf == (|f: FunctionDefinitionView| plain_function(f)),
                view_seq(common@) == shared + collect(fs.take(i as int), pf),
                vertex_pieces(fs.take(i as int), catalog) == Ok::<_, VertexShaderInterfaceErrorView>(
                    view_seq(vs@),
                ),
                (vs@.len() > 0) == has_entry(fs.take(i as int)),
            decreases functions.len() - i,
        {
            let fun = &functions[i];
            let ghost before = view_seq(common@);
            proof {
                lemma_collect_take(fs, pf, i as int);
                assert(fs.take(i + 1).drop_last() =~= fs.take(i as int));
                assert(fs.take(i + 1).last() == fs[i as int]);
                assert(fs[i as int] == fun@);
            }
            if same_text(&fun.prototype.name, "map_vertex") {
                match sink_vertex_shader(&mut vs, fun, &structs) {
                    Ok(_) => {},
                    Err(e) => {
                        proof {
                            lemma_vertex_pieces_err(fs, catalog, i + 1);
                            assert(is_entry(fs[i as int]));
                        }
                        return Err(GLSLConversionError::VertexShaderInterfaceError(e));
                    },
                }
                proof {
                    assert(view_seq(common@) =~= before + pf(fs[i as int]));
                    assert(vs@.len() == view_seq(vs@).len());
                    assert(is_entry(fs.take(i + 1)[i as int]));
                }
            } else {
                common.push(GLSLPiece::Function(fun.clone()));
                proof {
                    assert(view_seq(common@) =~= before + pf(fs[i as int]));
                    if has_entry(fs.take(i + 1)) {
                        let k = choose|k: int|
                            0 <= k < fs.take(i + 1).len() && is_entry(#[trigger] fs.take(i + 1)[k]);
                        assert(is_entry(fs.take(i as int)[k]));
                    }
                    if has_entry(fs.take(i as int)) {
                        let k = choose|k: int|
                            0 <= k < fs.take(i as int).len() && is_entry(
                                #[trigger] fs.take(i as int)[k],
                            );
                        assert(is_entry(fs.take(i + 1)[k]));
                    }
                }
            }
            i += 1;
        }
        proof {
            assert(fs.take(i as int) =~= fs);
        }
        if vs.len() == 0 {
            Err(GLSLConversionError::NoVertexShader)
        } else {
            let ghost plain = view_seq(common@);
            let ghost stage = view_seq(vs@);
            common.append(&mut vs);
            proof {
                assert(view_seq(common@) =~= plain + stage);
            }
            Ok(common)
        }
    }
}

} // verus!
