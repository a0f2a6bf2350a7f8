//! The vertex stage, derived from one entry function.
//!
//! The parameters of the entry function become the inputs of the stage, the
//! fields of the struct it returns become its outputs, and a synthesized
//! `main` ties both to the function.
use crate::module::same_text;
use crate::syntax::{
    clone_opt_array_specifier, clone_vec_external_declaration, view_opt, view_seq,
    ArrayedIdentifierView, DataType, DataTypeView, ExternalDeclaration, ExternalDeclarationView,
    FieldDataType, FieldDataTypeView, FieldTypeSpecifier, FieldTypeSpecifierView,
    FullySpecifiedType, FullySpecifiedTypeView, FunctionDefinition, FunctionDefinitionView,
    FunctionParameterDeclaration, FunctionParameterDeclarationView,
    FunctionParameterDeclaratorView, InitDeclaratorList, InitDeclaratorListView, QualifierSpec,
    SingleDeclaration, SingleDeclarationView, StructDef, StructDefView, StructFieldSpecifier,
    StructFieldSpecifierView, TypeQualifier, TypeSpecifier, TypeSpecifierView,
};
use vstd::prelude::*;
use vstd::string::*;

verus! {

/// The inputs of a vertex stage and its outputs to the next stage.
#[derive(Debug, PartialEq)]
pub struct VertexShaderInterface {
    pub inputs: Vec<ExternalDeclaration>,
    pub outputs: Vec<ExternalDeclaration>,
}

/// The model of a [`VertexShaderInterface`].
pub ghost struct VertexShaderInterfaceView {
    pub inputs: Seq<ExternalDeclarationView>,
    pub outputs: Seq<ExternalDeclarationView>,
}

impl View for VertexShaderInterface {
    type V = VertexShaderInterfaceView;

    open spec fn view(&self) -> VertexShaderInterfaceView {
        VertexShaderInterfaceView {
            inputs: view_seq(self.inputs@),
            outputs: view_seq(self.outputs@),
        }
    }
}

impl Clone for VertexShaderInterface {
    fn clone(&self) -> (r: Self)
        ensures
            r@ == self@,
    {
        VertexShaderInterface {
            inputs: clone_vec_external_declaration(&self.inputs),
            outputs: clone_vec_external_declaration(&self.outputs),
        }
    }
}

/// Why an entry function cannot be turned into a vertex stage.
#[derive(Debug, PartialEq)]
pub enum VertexShaderInterfaceError {
    /// A parameter of the entry function has no name.
    UnnamedInput,
    /// The return type of the entry function carries a qualifier.
    OutputHasMainQualifier,
    /// The return type of the entry function does not name a known struct.
    OutputTypeMustBeAStruct(TypeSpecifier),
    /// The first field of the output struct is not an unqualified `vec4`
    /// named `gl_Position` alone. Holds the first field, if there is one.
    WrongOutputFirstField(Option<StructFieldSpecifier>),
    /// An output field has a struct type. The index counts the fields after
    /// the first, from zero.
    OutputFieldCannotBeStruct(usize, FieldTypeSpecifier),
    /// An output field does not declare exactly one identifier. The index
    /// counts the fields after the first, from zero.
    OutputFieldCannotHaveSeveralIdentifiers(usize, StructFieldSpecifier),
}

/// The model of a [`VertexShaderInterfaceError`].
pub ghost enum VertexShaderInterfaceErrorView {
    UnnamedInput,
    OutputHasMainQualifier,
    OutputTypeMustBeAStruct(TypeSpecifierView),
    WrongOutputFirstField(Option<StructFieldSpecifierView>),
    OutputFieldCannotBeStruct(usize, FieldTypeSpecifierView),
    OutputFieldCannotHaveSeveralIdentifiers(usize, StructFieldSpecifierView),
}

impl View for VertexShaderInterfaceError {
    type V = VertexShaderInterfaceErrorView;

    open spec fn view(&self) -> VertexShaderInterfaceErrorView {
        match *self {
            VertexShaderInterfaceError::UnnamedInput => VertexShaderInterfaceErrorView::UnnamedInput,
            VertexShaderInterfaceError::OutputHasMainQualifier =>
                VertexShaderInterfaceErrorView::OutputHasMainQualifier,
            VertexShaderInterfaceError::OutputTypeMustBeAStruct(t) =>
                VertexShaderInterfaceErrorView::OutputTypeMustBeAStruct(t@),
            VertexShaderInterfaceError::WrongOutputFirstField(f) =>
                VertexShaderInterfaceErrorView::WrongOutputFirstField(view_opt(f)),
            VertexShaderInterfaceError::OutputFieldCannotBeStruct(i, t) =>
                VertexShaderInterfaceErrorView::OutputFieldCannotBeStruct(i, t@),
            VertexShaderInterfaceError::OutputFieldCannotHaveSeveralIdentifiers(i, f) =>
                VertexShaderInterfaceErrorView::OutputFieldCannotHaveSeveralIdentifiers(i, f@),
        }
    }
}

impl Clone for VertexShaderInterfaceError {
    fn clone(&self) -> (r: Self)
        ensures
            r@ == self@,
    {
        match self {
            VertexShaderInterfaceError::UnnamedInput => VertexShaderInterfaceError::UnnamedInput,
            VertexShaderInterfaceError::OutputHasMainQualifier =>
                VertexShaderInterfaceError::OutputHasMainQualifier,
            VertexShaderInterfaceError::OutputTypeMustBeAStruct(t) =>
                VertexShaderInterfaceError::OutputTypeMustBeAStruct(t.clone()),
            VertexShaderInterfaceError::WrongOutputFirstField(f) => match f {
                Some(f) => VertexShaderInterfaceError::WrongOutputFirstField(Some(f.clone())),
                None => VertexShaderInterfaceError::WrongOutputFirstField(None),
            },
            VertexShaderInterfaceError::OutputFieldCannotBeStruct(i, t) =>
                VertexShaderInterfaceError::OutputFieldCannotBeStruct(*i, t.clone()),
            VertexShaderInterfaceError::OutputFieldCannotHaveSeveralIdentifiers(i, f) =>
                VertexShaderInterfaceError::OutputFieldCannotHaveSeveralIdentifiers(*i, f.clone()),
        }
    }
}

/// A declaration of the single name that `head` declares.
pub open spec fn single(head: SingleDeclarationView) -> ExternalDeclarationView {
    ExternalDeclarationView::InitDeclaratorList(
        InitDeclaratorListView { head, tail: Seq::empty() },
    )
}

/// The qualifiers of the input at position `i`: its location, the `in`
/// storage qualifier, then the qualifiers the parameter was written with.
pub open spec fn input_qualifier(i: int, user: Option<Seq<QualifierSpec>>) -> Seq<QualifierSpec> {
    let base = seq![QualifierSpec::Location(i as usize), QualifierSpec::In];
    match user {
        Some(q) => base + q,
        None => base,
    }
}

/// The input declared for the named parameter at position `i`: the type,
/// name and array size of the parameter under the qualifiers of
/// [`input_qualifier`].
pub open spec fn input_decl(
    i: int,
    user: Option<Seq<QualifierSpec>>,
    decl: FunctionParameterDeclaratorView,
) -> ExternalDeclarationView {
    single(
        SingleDeclarationView {
            ty: FullySpecifiedTypeView { qualifier: Some(input_qualifier(i, user)), ty: decl.ty },
            name: Some(decl.name),
            array_specifier: decl.array_spec,
            initializer: None,
        },
    )
}

/// The input declared for the parameter at position `i`.
pub open spec fn input_at(i: int, p: FunctionParameterDeclarationView) -> ExternalDeclarationView {
    match p {
        FunctionParameterDeclarationView::Named(q, d) => input_decl(i, q, d),
        FunctionParameterDeclarationView::Unnamed(q, t) => input_decl(
            i,
            q,
            FunctionParameterDeclaratorView { ty: t, name: Seq::empty(), array_spec: None },
        ),
    }
}

/// Whether every parameter has a name.
pub open spec fn all_named(params: Seq<FunctionParameterDeclarationView>) -> bool {
    forall|i: int|
        0 <= i < params.len() ==> #[trigger] params[i] is Named
}

/// The inputs of the vertex stage: one per parameter, in order, the one at
/// position `i` with location `i`; or `UnnamedInput` if a parameter has no
/// name.
pub open spec fn inputs_of(params: Seq<FunctionParameterDeclarationView>) -> Result<
    Seq<ExternalDeclarationView>,
    VertexShaderInterfaceErrorView,
> {
    if all_named(params) {
        Ok(Seq::new(params.len(), |i: int| input_at(i, params[i])))
    } else {
        Err(VertexShaderInterfaceErrorView::UnnamedInput)
    }
}

/// The first struct of the catalog, from position `from` on, that has the
/// given name.
pub open spec fn find_struct(structs: Seq<StructDefView>, name: Seq<char>, from: int) -> Option<
    StructDefView,
>
    decreases structs.len() - from,
{
    if from < 0 || from >= structs.len() {
        None
    } else if structs[from].name == Some(name) {
        Some(structs[from])
    } else {
        find_struct(structs, name, from + 1)
    }
}

/// The struct that the return type names, or `OutputTypeMustBeAStruct` if
/// the type is not the name of a struct of the catalog.
pub open spec fn output_type_of(ty: TypeSpecifierView, structs: Seq<StructDefView>) -> Result<
    StructDefView,
    VertexShaderInterfaceErrorView,
> {
    match ty.ty {
        DataTypeView::TypeName(name) => match find_struct(structs, name, 0) {
            Some(s) => Ok(s),
            None => Err(VertexShaderInterfaceErrorView::OutputTypeMustBeAStruct(ty)),
        },
        _ => Err(VertexShaderInterfaceErrorView::OutputTypeMustBeAStruct(ty)),
    }
}

/// Whether a field is an unqualified `vec4` that declares `gl_Position` and
/// nothing else.
pub open spec fn is_position_field(f: StructFieldSpecifierView) -> bool {
    &&& f.qualifier is None
    &&& f.ty.ty == FieldDataTypeView::Vec4
    &&& f.identifiers == seq![
        ArrayedIdentifierView { name: "gl_Position"@, array_spec: None },
    ]
}

/// The type of a field as the type of a declaration; none for a struct
/// defined in place.
pub open spec fn lift_type(t: FieldTypeSpecifierView) -> Option<TypeSpecifierView> {
    match t.ty {
        FieldDataTypeView::Vec4 => Some(
            TypeSpecifierView { ty: DataTypeView::Vec4, array_specifier: t.array_specifier },
        ),
        FieldDataTypeView::TypeName(n) => Some(
            TypeSpecifierView { ty: DataTypeView::TypeName(n), array_specifier: t.array_specifier },
        ),
        FieldDataTypeView::Other(o) => Some(
            TypeSpecifierView { ty: DataTypeView::Other(o), array_specifier: t.array_specifier },
        ),
        FieldDataTypeView::Struct(_) => None,
    }
}

/// What is wrong with the output field at position `i` after the first, if
/// anything: a struct type, or not exactly one identifier.
pub open spec fn field_error(i: int, f: StructFieldSpecifierView) -> Option<
    VertexShaderInterfaceErrorView,
> {
    if f.ty.ty is Struct {
        Some(VertexShaderInterfaceErrorView::OutputFieldCannotBeStruct(i as usize, f.ty))
    } else if f.identifiers.len() != 1 {
        Some(
            VertexShaderInterfaceErrorView::OutputFieldCannotHaveSeveralIdentifiers(i as usize, f),
        )
    } else {
        None
    }
}

/// The qualifiers of an output: those of the field, then the `out` storage
/// qualifier.
pub open spec fn output_qualifier(user: Option<Seq<QualifierSpec>>) -> Seq<QualifierSpec> {
    match user {
        Some(q) => q + seq![QualifierSpec::Out],
        None => seq![QualifierSpec::Out],
    }
}

/// The output declared for a field that passed [`field_error`]: the type of
/// the field, its identifier behind the prefix `__v_`, the array size of the
/// identifier, under the qualifiers of [`output_qualifier`].
pub open spec fn output_decl(f: StructFieldSpecifierView) -> ExternalDeclarationView {
    single(
        SingleDeclarationView {
            ty: FullySpecifiedTypeView {
                qualifier: Some(output_qualifier(f.qualifier)),
                ty: lift_type(f.ty).unwrap(),
            },
            name: Some("__v_"@ + f.identifiers[0].name),
            array_specifier: f.identifiers[0].array_spec,
            initializer: None,
        },
    )
}

/// The first error among the fields after the first, from position `from`
/// (counted after the first field) on.
pub open spec fn first_field_error(fields: Seq<StructFieldSpecifierView>, from: int) -> Option<
    VertexShaderInterfaceErrorView,
>
    decreases fields.len() - from,
{
    if from < 0 || from + 1 >= fields.len() {
        None
    } else {
        match field_error(from, fields[from + 1]) {
            Some(e) => Some(e),
            None => first_field_error(fields, from + 1),
        }
    }
}

/// The outputs of the vertex stage for an entry function that returns `ty`.
///
/// The type must carry no qualifier and name a struct of the catalog, the
/// first field of that struct must be the position field, and every other
/// field must pass [`field_error`]; the first of these that fails, in this
/// order and field by field, decides the error. Otherwise there is one output
/// per field after the first, in order.
pub open spec fn outputs_of(ty: FullySpecifiedTypeView, structs: Seq<StructDefView>) -> Result<
    Seq<ExternalDeclarationView>,
    VertexShaderInterfaceErrorView,
> {
    if ty.qualifier is Some {
        Err(VertexShaderInterfaceErrorView::OutputHasMainQualifier)
    } else {
        match output_type_of(ty.ty, structs) {
            Err(e) => Err(e),
            Ok(s) => if s.fields.len() == 0 {
                Err(VertexShaderInterfaceErrorView::WrongOutputFirstField(None))
            } else if !is_position_field(s.fields[0]) {
                Err(VertexShaderInterfaceErrorView::WrongOutputFirstField(Some(s.fields[0])))
            } else {
                match first_field_error(s.fields, 0) {
                    Some(e) => Err(e),
                    None => Ok(
                        Seq::new(
                            (s.fields.len() - 1) as nat,
                            |i: int| output_decl(s.fields[i + 1]),
                        ),
                    ),
                }
            },
        }
    }
}

/// The interface of the vertex stage: its inputs, then its outputs; an error
/// of the inputs comes before one of the outputs.
pub open spec fn interface_of(f: FunctionDefinitionView, structs: Seq<StructDefView>) -> Result<
    VertexShaderInterfaceView,
    VertexShaderInterfaceErrorView,
> {
    match inputs_of(f.prototype.parameters) {
        Err(e) => Err(e),
        Ok(inputs) => match outputs_of(f.prototype.ty, structs) {
            Err(e) => Err(e),
            Ok(outputs) => Ok(VertexShaderInterfaceView { inputs, outputs }),
        },
    }
}

/// The inputs of the vertex stage for the given parameters.
pub fn vertex_shader_inputs(args: &Vec<FunctionParameterDeclaration>) -> (r: Result<
    Vec<ExternalDeclaration>,
    VertexShaderInterfaceError,
>)
    ensures
        match r {
            Ok(v) => inputs_of(view_seq(args@)) == Ok::<_, VertexShaderInterfaceErrorView>(
                view_seq(v@),
            ),
            Err(e) => inputs_of(view_seq(args@)) == Err::<Seq<ExternalDeclarationView>, _>(e@),
        },
{
    let ghost params = view_seq(args@);
    let mut inputs: Vec<ExternalDeclaration> = Vec::new();
    let mut i: usize = 0;
    while i < args.len()
        invariant
            i <= args.len(),
            params == view_seq(args@),
            forall|j: int| 0 <= j < i ==> #[trigger] params[j] is Named,
            view_seq(inputs@) =~= Seq::new(i as nat, |j: int| input_at(j, params[j])),
        decreases args.len() - i,
    {
        match &args[i] {
            FunctionParameterDeclaration::Unnamed(_, _) => {
                assert(!(params[i as int] is Named));
                return Err(VertexShaderInterfaceError::UnnamedInput);
            },
            FunctionParameterDeclaration::Named(ty_qual, decl) => {
                let mut qualifiers: Vec<QualifierSpec> = Vec::new();
                qualifiers.push(QualifierSpec::Location(i));
                qualifiers.push(QualifierSpec::In);
                if let Some(qual) = ty_qual {
                    let mut user = qual.clone();
                    qualifiers.append(&mut user.qualifiers);
                }
                let ghost before = view_seq(inputs@);
                proof {
                    assert(qualifiers@ =~= input_qualifier(i as int, view_opt(*ty_qual)));
                }
                let head = SingleDeclaration {
                    ty: FullySpecifiedType {
                        qualifier: Some(TypeQualifier { qualifiers }),
                        ty: decl.ty.clone(),
                    },
                    name: Some(decl.name.clone()),
                    array_specifier: clone_opt_array_specifier(&decl.array_spec),
                    initializer: None,
                };
                let list = InitDeclaratorList { head, tail: Vec::new() };
                proof {
                    assert(list@.tail =~= Seq::empty());
                }
                inputs.push(ExternalDeclaration::InitDeclaratorList(list));
                proof {
                    assert(view_seq(inputs@) =~= before.push(input_at(i as int, params[i as int])));
                }
            },
        }
        i += 1;
    }
    Ok(inputs)
}

/// The struct of the catalog that the return type of the entry function
/// names.
pub fn get_vertex_output_type(map_vertex: &FunctionDefinition, structs: &Vec<StructDef>) -> (r:
    Result<StructDef, VertexShaderInterfaceError>)
    ensures
        match r {
            Ok(s) => output_type_of(map_vertex@.prototype.ty.ty, view_seq(structs@)) == Ok::<
                _,
                VertexShaderInterfaceErrorView,
            >(s@),
            Err(e) => output_type_of(map_vertex@.prototype.ty.ty, view_seq(structs@)) == Err::<
                StructDefView,
                _,
            >(e@),
        },
{
    let ty = &map_vertex.prototype.ty.ty;
    match find_output_struct(ty, structs) {
        Some(i) => Ok(structs[i].clone()),
        None => Err(VertexShaderInterfaceError::OutputTypeMustBeAStruct(ty.clone())),
    }
}

/// The position in the catalog of the struct that `ty` names.
fn find_output_struct(ty: &TypeSpecifier, structs: &Vec<StructDef>) -> (r: Option<usize>)
    ensures
        match r {
            Some(i) => i < structs.len() && output_type_of(ty@, view_seq(structs@)) == Ok::<
                _,
                VertexShaderInterfaceErrorView,
            >(structs@[i as int]@),
            None => output_type_of(ty@, view_seq(structs@)) == Err::<StructDefView, _>(
                VertexShaderInterfaceErrorView::OutputTypeMustBeAStruct(ty@),
            ),
        },
{
    if let DataType::TypeName(name) = &ty.ty {
        let ghost catalog = view_seq(structs@);
        let mut i: usize = 0;
        while i < structs.len()
            invariant
                i <= structs.len(),
                catalog == view_seq(structs@),
                ty@.ty == DataTypeView::TypeName(name@),
                find_struct(catalog, name@, i as int) == find_struct(catalog, name@, 0),
            decreases structs.len() - i,
        {
            if let Some(n) = &structs[i].name {
                if same_text(n, name.as_str()) {
                    assert(catalog[i as int].name == Some(name@));
                    return Some(i);
                }
            }
            assert(catalog[i as int].name != Some(name@));
            i += 1;
        }
        None
    } else {
        None
    }
}

/// Whether a field is an unqualified `vec4` that declares `gl_Position` and
/// nothing else.
fn check_position_field(f: &StructFieldSpecifier) -> (r: bool)
    ensures
        r == is_position_field(f@),
{
    if f.qualifier.is_some() {
        return false;
    }
    if let FieldDataType::Vec4 = f.ty.ty {
    } else {
        return false;
    }
    if f.identifiers.len() != 1 {
        assert(f@.identifiers.len() != 1);
        return false;
    }
    let id = &f.identifiers[0];
    let named = same_text(&id.name, "gl_Position");
    let plain = id.array_spec.is_none();
    proof {
        let one = seq![ArrayedIdentifierView { name: "gl_Position"@, array_spec: None }];
        assert(f@.identifiers[0] == id@);
        if named && plain {
            assert(f@.identifiers =~= one);
        } else {
            assert(one[0] != f@.identifiers[0]);
        }
    }
    named && plain
}

/// The type of a field as the type of a declaration; none for a struct
/// defined in place.
fn lift_field_type(t: &FieldTypeSpecifier) -> (r: Option<TypeSpecifier>)
    ensures
        view_opt(r) == lift_type(t@),
{
    let ty = match &t.ty {
        FieldDataType::Vec4 => DataType::Vec4,
        FieldDataType::TypeName(n) => DataType::TypeName(n.clone()),
        FieldDataType::Other(o) => DataType::Other(o.clone()),
        FieldDataType::Struct(_) => {
            return None;
        },
    };
    Some(TypeSpecifier { ty, array_specifier: clone_opt_array_specifier(&t.array_specifier) })
}

/// The output declared for a field of the output struct.
fn vertex_shader_output_field_to_ext_decl(field: &StructFieldSpecifier) -> (r:
    ExternalDeclaration)
    requires
        !(field@.ty.ty is Struct),
        field@.identifiers.len() >= 1,
    ensures
        r@ == output_decl(field@),
{
    let mut qualifiers: Vec<QualifierSpec> = Vec::new();
    if let Some(qual) = &field.qualifier {
        let mut user = qual.clone();
        qualifiers.append(&mut user.qualifiers);
    }
    qualifiers.push(QualifierSpec::Out);
    proof {
        assert(qualifiers@ =~= output_qualifier(view_opt(field.qualifier)));
    }
    let ty = match lift_field_type(&field.ty) {
        Some(ty) => ty,
        None => unreached(),
    };
    let id = &field.identifiers[0];
    assert(field@.identifiers[0] == id@);
    let mut name = String::from_str("__v_");
    name.append(id.name.as_str());
    let head = SingleDeclaration {
        ty: FullySpecifiedType { qualifier: Some(TypeQualifier { qualifiers }), ty },
        name: Some(name),
        array_specifier: clone_opt_array_specifier(&id.array_spec),
        initializer: None,
    };
    let list = InitDeclaratorList { head, tail: Vec::new() };
    proof {
        assert(list@.tail =~= Seq::empty());
    }
    ExternalDeclaration::InitDeclaratorList(list)
}

/// The outputs of the vertex stage for an entry function that returns
/// `fsty`, with the structs that the module defines.
pub fn vertex_shader_outputs(fsty: &FullySpecifiedType, structs: &Vec<StructDef>) -> (r: Result<
    Vec<ExternalDeclaration>,
    VertexShaderInterfaceError,
>)
    ensures
        match r {
            Ok(v) => outputs_of(fsty@, view_seq(structs@)) == Ok::<
                _,
                VertexShaderInterfaceErrorView,
            >(view_seq(v@)),
            Err(e) => outputs_of(fsty@, view_seq(structs@)) == Err::<
                Seq<ExternalDeclarationView>,
                _,
            >(e@),
        },
{
    if fsty.qualifier.is_some() {
        return Err(VertexShaderInterfaceError::OutputHasMainQualifier);
    }
    let at = match find_output_struct(&fsty.ty, structs) {
        Some(at) => at,
        None => {
            return Err(VertexShaderInterfaceError::OutputTypeMustBeAStruct(fsty.ty.clone()));
        },
    };
    let s = &structs[at];
    let ghost fields = s@.fields;
    if s.fields.len() == 0 {
        return Err(VertexShaderInterfaceError::WrongOutputFirstField(None));
    }
    let first_field = &s.fields[0];
    assert(fields[0] == first_field@);
    if !check_position_field(first_field) {
        return Err(VertexShaderInterfaceError::WrongOutputFirstField(Some(first_field.clone())));
    }
    let mut outputs: Vec<ExternalDeclaration> = Vec::new();
    let mut i: usize = 0;
    while i + 1 < s.fields.len()
        invariant
            i + 1 <= s.fields.len(),
            fields == view_seq(s.fields@),
            fields == s@.fields,
            fsty@.qualifier is None,
            output_type_of(fsty@.ty, view_seq(structs@)) == Ok::<_, VertexShaderInterfaceErrorView>(
                s@,
            ),
            is_position_field(fields[0]),
            first_field_error(fields, i as int) == first_field_error(fields, 0),
            view_seq(outputs@) =~= Seq::new(i as nat, |j: int| output_decl(fields[j + 1])),
        decreases s.fields.len() - i,
    {
        let field = &s.fields[i + 1];
        assert(fields[i + 1] == field@);
        if let FieldDataType::Struct(_) = field.ty.ty {
            return Err(VertexShaderInterfaceError::OutputFieldCannotBeStruct(i, field.ty.clone()));
        }
        if field.identifiers.len() != 1 {
            return Err(
                VertexShaderInterfaceError::OutputFieldCannotHaveSeveralIdentifiers(
                    i,
                    field.clone(),
                ),
            );
        }
        let ghost before = view_seq(outputs@);
        outputs.push(vertex_shader_output_field_to_ext_decl(field));
        proof {
            assert(view_seq(outputs@) =~= before.push(output_decl(fields[i + 1])));
        }
        i += 1;
    }
    Ok(outputs)
}

/// The interface of the vertex stage that an entry function defines, with
/// the structs that the module defines.
pub fn vertex_shader_interface(fun_def: &FunctionDefinition, structs: &Vec<StructDef>) -> (r:
    Result<VertexShaderInterface, VertexShaderInterfaceError>)
    ensures
        match r {
            Ok(v) => interface_of(fun_def@, view_seq(structs@)) == Ok::<
                _,
                VertexShaderInterfaceErrorView,
            >(v@),
            Err(e) => interface_of(fun_def@, view_seq(structs@)) == Err::<
                VertexShaderInterfaceView,
                _,
            >(e@),
        },
{
    let proto = &fun_def.prototype;
    let inputs = match vertex_shader_inputs(&proto.parameters) {
        Ok(inputs) => inputs,
        Err(e) => {
            return Err(e);
        },
    };
    let outputs = match vertex_shader_outputs(&proto.ty, structs) {
        Ok(outputs) => outputs,
        Err(e) => {
            return Err(e);
        },
    };
    Ok(VertexShaderInterface { inputs, outputs })
}

/// The inputs carry their positions as locations.
///
/// For parameters that all have a name there is one input per parameter, in
/// order, and the input at position `i` declares the name of parameter `i`
/// under `location = i` followed by `in`.
pub proof fn lemma_inputs_carry_locations(params: Seq<FunctionParameterDeclarationView>, i: int)
    requires
        all_named(params),
        0 <= i < params.len(),
    ensures
        inputs_of(params) is Ok,
        (inputs_of(params)->Ok_0).len() == params.len(),
        (inputs_of(params)->Ok_0)[i] is InitDeclaratorList,
        ({
            let head = (inputs_of(params)->Ok_0)[i]->InitDeclaratorList_0.head;
            &&& head.name == Some(params[i]->Named_1.name)
            &&& head.ty.ty == params[i]->Named_1.ty
            &&& head.ty.qualifier is Some
            &&& head.ty.qualifier->Some_0.len() >= 2
            &&& head.ty.qualifier->Some_0[0] == QualifierSpec::Location(i as usize)
            &&& head.ty.qualifier->Some_0[1] == QualifierSpec::In
        }),
{
    assert(params[i] is Named);
}

/// A return type that names no struct is refused.
///
/// An entry function whose return type carries no qualifier and is not the
/// name of a struct of the catalog has no outputs: the error is
/// `OutputTypeMustBeAStruct` with that type.
pub proof fn lemma_output_must_be_a_struct(ty: FullySpecifiedTypeView, structs: Seq<StructDefView>)
    requires
        ty.qualifier is None,
        !(ty.ty.ty is TypeName) || find_struct(structs, ty.ty.ty->TypeName_0, 0) is None,
    ensures
        outputs_of(ty, structs) == Err::<Seq<ExternalDeclarationView>, _>(
            VertexShaderInterfaceErrorView::OutputTypeMustBeAStruct(ty.ty),
        ),
{
}

/// A wrong first field is refused.
///
/// An entry function whose return type carries no qualifier and names a
/// struct whose first field is not an unqualified `vec4` named `gl_Position`
/// alone has no outputs: the error is `WrongOutputFirstField` with that
/// field.
pub proof fn lemma_wrong_first_field(
    ty: FullySpecifiedTypeView,
    structs: Seq<StructDefView>,
    s: StructDefView,
)
    requires
        ty.qualifier is None,
        output_type_of(ty.ty, structs) == Ok::<_, VertexShaderInterfaceErrorView>(s),
        s.fields.len() >= 1,
        !is_position_field(s.fields[0]),
    ensures
        outputs_of(ty, structs) == Err::<Seq<ExternalDeclarationView>, _>(
            VertexShaderInterfaceErrorView::WrongOutputFirstField(Some(s.fields[0])),
        ),
{
}

/// The first error from position `from` on, where every field before
/// position `i` is right and the one at `i` is wrong, is the error of the
/// field at `i`.
proof fn lemma_first_field_error(fields: Seq<StructFieldSpecifierView>, from: int, i: int)
    requires
        0 <= from <= i,
        i + 1 < fields.len(),
        forall|j: int| from <= j < i ==> field_error(j, #[trigger] fields[j + 1]) is None,
        field_error(i, fields[i + 1]) is Some,
    ensures
        first_field_error(fields, from) == field_error(i, fields[i + 1]),
    decreases i - from,
{
    if from < i {
        assert(field_error(from, fields[from + 1]) is None);
        lemma_first_field_error(fields, from + 1, i);
    }
}

/// A struct-typed output field is refused with its index.
///
/// If the output struct is right up to the field at position `i` after the
/// first, and that field has a struct type, the error is
/// `OutputFieldCannotBeStruct` with `i` and the type of the field.
pub proof fn lemma_struct_field_is_refused(
    ty: FullySpecifiedTypeView,
    structs: Seq<StructDefView>,
    s: StructDefView,
    i: int,
)
    requires
        ty.qualifier is None,
        output_type_of(ty.ty, structs) == Ok::<_, VertexShaderInterfaceErrorView>(s),
        0 <= i,
        i + 1 < s.fields.len(),
        is_position_field(s.fields[0]),
        forall|j: int| 0 <= j < i ==> field_error(j, #[trigger] s.fields[j + 1]) is None,
        s.fields[i + 1].ty.ty is Struct,
    ensures
        outputs_of(ty, structs) == Err::<Seq<ExternalDeclarationView>, _>(
            VertexShaderInterfaceErrorView::OutputFieldCannotBeStruct(
                i as usize,
                s.fields[i + 1].ty,
            ),
        ),
{
    lemma_first_field_error(s.fields, 0, i);
}

} // verus!
