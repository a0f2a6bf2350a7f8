use glsl::syntax::{ArraySpecifier, CompoundStatement};
use spsl::syntax::{
    ArrayedIdentifier, DataType, ExternalDeclaration, FieldDataType, FieldTypeSpecifier,
    FullySpecifiedType, FunctionDefinition, FunctionParameterDeclaration,
    FunctionParameterDeclarator, FunctionPrototype, InitDeclaratorList, QualifierSpec,
    SingleDeclaration, StructDef, StructFieldSpecifier, TypeQualifier, TypeSpecifier,
};
use spsl::vertex::{
    get_vertex_output_type, vertex_shader_inputs, vertex_shader_interface, vertex_shader_outputs,
    VertexShaderInterface, VertexShaderInterfaceError,
};

fn vx_type(name: &str) -> TypeSpecifier {
    TypeSpecifier { ty: DataType::TypeName(name.to_owned()), array_specifier: None }
}

fn vx_param(ty: &str, name: &str) -> FunctionParameterDeclaration {
    FunctionParameterDeclaration::Named(
        None,
        FunctionParameterDeclarator { ty: vx_type(ty), name: name.to_owned(), array_spec: None },
    )
}

fn vx_field(ty: FieldDataType, names: &[&str]) -> StructFieldSpecifier {
    StructFieldSpecifier {
        qualifier: None,
        ty: FieldTypeSpecifier { ty, array_specifier: None },
        identifiers: names
            .iter()
            .map(|n| ArrayedIdentifier { name: (*n).to_owned(), array_spec: None })
            .collect(),
    }
}

fn vx_position() -> StructFieldSpecifier {
    vx_field(FieldDataType::Vec4, &["gl_Position"])
}

fn vx_struct(name: &str, fields: Vec<StructFieldSpecifier>) -> StructDef {
    StructDef { name: Some(name.to_owned()), fields }
}

fn vx_returning(ty: TypeSpecifier) -> FullySpecifiedType {
    FullySpecifiedType { qualifier: None, ty }
}

fn vx_entry(ret: FullySpecifiedType, parameters: Vec<FunctionParameterDeclaration>) -> FunctionDefinition {
    FunctionDefinition {
        prototype: FunctionPrototype { ty: ret, name: "map_vertex".to_owned(), parameters },
        statement: CompoundStatement { statement_list: Vec::new() },
    }
}

fn vx_decl(
    qualifiers: Vec<QualifierSpec>,
    ty: TypeSpecifier,
    name: &str,
    array_specifier: Option<ArraySpecifier>,
) -> ExternalDeclaration {
    ExternalDeclaration::InitDeclaratorList(InitDeclaratorList {
        head: SingleDeclaration {
            ty: FullySpecifiedType { qualifier: Some(TypeQualifier { qualifiers }), ty },
            name: Some(name.to_owned()),
            array_specifier,
            initializer: None,
        },
        tail: Vec::new(),
    })
}

#[test]
fn inputs_carry_their_position_as_location() {
    let args = vec![vx_param("vec3", "position"), vx_param("vec4", "color")];
    let inputs = vertex_shader_inputs(&args).unwrap();
    assert_eq!(
        inputs,
        vec![
            vx_decl(vec![QualifierSpec::Location(0), QualifierSpec::In], vx_type("vec3"), "position", None),
            vx_decl(vec![QualifierSpec::Location(1), QualifierSpec::In], vx_type("vec4"), "color", None),
        ]
    );
}

#[test]
fn inputs_keep_the_qualifiers_and_the_array_size_of_the_parameter() {
    let user = glsl::syntax::TypeQualifierSpec::Interpolation(glsl::syntax::InterpolationQualifier::Flat);
    let args = vec![
        vx_param("vec3", "position"),
        vx_param("vec3", "normal"),
        FunctionParameterDeclaration::Named(
            Some(TypeQualifier { qualifiers: vec![QualifierSpec::Other(user.clone())] }),
            FunctionParameterDeclarator {
                ty: TypeSpecifier { ty: DataType::Vec4, array_specifier: None },
                name: "weights".to_owned(),
                array_spec: Some(ArraySpecifier::Unsized),
            },
        ),
    ];
    let inputs = vertex_shader_inputs(&args).unwrap();
    assert_eq!(inputs.len(), 3);
    assert_eq!(
        inputs[2],
        vx_decl(
            vec![QualifierSpec::Location(2), QualifierSpec::In, QualifierSpec::Other(user)],
            TypeSpecifier { ty: DataType::Vec4, array_specifier: None },
            "weights",
            Some(ArraySpecifier::Unsized),
        )
    );
}

#[test]
fn inputs_of_no_parameters_are_empty() {
    assert_eq!(vertex_shader_inputs(&Vec::new()), Ok(Vec::new()));
}

#[test]
fn an_unnamed_parameter_is_refused() {
    let args = vec![
        vx_param("vec3", "position"),
        FunctionParameterDeclaration::Unnamed(None, vx_type("vec4")),
    ];
    assert_eq!(vertex_shader_inputs(&args), Err(VertexShaderInterfaceError::UnnamedInput));
}

#[test]
fn outputs_are_the_fields_after_the_position() {
    let flat = glsl::syntax::TypeQualifierSpec::Interpolation(glsl::syntax::InterpolationQualifier::Flat);
    let mut color = vx_field(FieldDataType::Vec4, &["color"]);
    color.qualifier = Some(TypeQualifier { qualifiers: vec![QualifierSpec::Other(flat.clone())] });
    let mut uv = vx_field(FieldDataType::TypeName("vec2".to_owned()), &["uv"]);
    uv.identifiers[0].array_spec = Some(ArraySpecifier::Unsized);
    let other = vx_field(FieldDataType::Other(glsl::syntax::TypeSpecifierNonArray::Float), &["fog"]);
    let structs = vec![
        vx_struct("Other", vec![vx_position()]),
        vx_struct("Vertex", vec![vx_position(), color, uv, other]),
    ];
    let outputs = vertex_shader_outputs(&vx_returning(vx_type("Vertex")), &structs).unwrap();
    assert_eq!(
        outputs,
        vec![
            vx_decl(
                vec![QualifierSpec::Other(flat), QualifierSpec::Out],
                TypeSpecifier { ty: DataType::Vec4, array_specifier: None },
                "__v_color",
                None,
            ),
            vx_decl(vec![QualifierSpec::Out], vx_type("vec2"), "__v_uv", Some(ArraySpecifier::Unsized)),
            vx_decl(
                vec![QualifierSpec::Out],
                TypeSpecifier {
                    ty: DataType::Other(glsl::syntax::TypeSpecifierNonArray::Float),
                    array_specifier: None,
                },
                "__v_fog",
                None,
            ),
        ]
    );
}

#[test]
fn a_struct_with_the_position_alone_has_no_outputs() {
    let structs = vec![vx_struct("Vertex", vec![vx_position()])];
    assert_eq!(vertex_shader_outputs(&vx_returning(vx_type("Vertex")), &structs), Ok(Vec::new()));
}

#[test]
fn the_first_struct_of_the_name_is_the_output_type() {
    let structs = vec![
        vx_struct("Vertex", vec![vx_position(), vx_field(FieldDataType::Vec4, &["a"])]),
        vx_struct("Vertex", vec![vx_position(), vx_field(FieldDataType::Vec4, &["b"])]),
    ];
    let entry = vx_entry(vx_returning(vx_type("Vertex")), Vec::new());
    assert_eq!(get_vertex_output_type(&entry, &structs), Ok(structs[0].clone()));
}

#[test]
fn a_qualified_return_type_is_refused() {
    let structs = vec![vx_struct("Vertex", vec![vx_position()])];
    let ty = FullySpecifiedType {
        qualifier: Some(TypeQualifier { qualifiers: vec![QualifierSpec::Uniform] }),
        ty: vx_type("Vertex"),
    };
    assert_eq!(
        vertex_shader_outputs(&ty, &structs),
        Err(VertexShaderInterfaceError::OutputHasMainQualifier)
    );
}

#[test]
fn a_return_type_that_is_no_struct_is_refused() {
    let structs = vec![vx_struct("Vertex", vec![vx_position()])];
    let vec4 = TypeSpecifier { ty: DataType::Vec4, array_specifier: None };
    assert_eq!(
        vertex_shader_outputs(&vx_returning(vec4.clone()), &structs),
        Err(VertexShaderInterfaceError::OutputTypeMustBeAStruct(vec4))
    );
    assert_eq!(
        vertex_shader_outputs(&vx_returning(vx_type("Fragment")), &structs),
        Err(VertexShaderInterfaceError::OutputTypeMustBeAStruct(vx_type("Fragment")))
    );
    let entry = vx_entry(vx_returning(vx_type("Fragment")), Vec::new());
    assert_eq!(
        get_vertex_output_type(&entry, &structs),
        Err(VertexShaderInterfaceError::OutputTypeMustBeAStruct(vx_type("Fragment")))
    );
}

#[test]
fn a_wrong_first_field_is_refused() {
    let ty = vx_returning(vx_type("Vertex"));
    let wrong_name = vx_field(FieldDataType::Vec4, &["position"]);
    let wrong_type = vx_field(FieldDataType::TypeName("vec3".to_owned()), &["gl_Position"]);
    let two_names = vx_field(FieldDataType::Vec4, &["gl_Position", "other"]);
    let mut qualified = vx_position();
    qualified.qualifier = Some(TypeQualifier { qualifiers: vec![QualifierSpec::Out] });
    let mut arrayed = vx_position();
    arrayed.identifiers[0].array_spec = Some(ArraySpecifier::Unsized);
    for first in vec![wrong_name, wrong_type, two_names, qualified, arrayed] {
        let structs = vec![vx_struct("Vertex", vec![first.clone(), vx_field(FieldDataType::Vec4, &["c"])])];
        assert_eq!(
            vertex_shader_outputs(&ty, &structs),
            Err(VertexShaderInterfaceError::WrongOutputFirstField(Some(first)))
        );
    }
    let empty = vec![vx_struct("Vertex", Vec::new())];
    assert_eq!(
        vertex_shader_outputs(&ty, &empty),
        Err(VertexShaderInterfaceError::WrongOutputFirstField(None))
    );
}

#[test]
fn a_struct_typed_output_field_is_refused_with_its_index() {
    let nested = glsl::syntax::StructSpecifier { name: Some("Inner".to_owned()), fields: Vec::new() };
    let bad = vx_field(FieldDataType::Struct(nested), &["inner"]);
    let structs = vec![vx_struct(
        "Vertex",
        vec![vx_position(), vx_field(FieldDataType::Vec4, &["a"]), vx_field(FieldDataType::Vec4, &["b"]), bad.clone()],
    )];
    assert_eq!(
        vertex_shader_outputs(&vx_returning(vx_type("Vertex")), &structs),
        Err(VertexShaderInterfaceError::OutputFieldCannotBeStruct(2, bad.ty))
    );
}

#[test]
fn an_output_field_of_several_identifiers_is_refused_with_its_index() {
    let bad = vx_field(FieldDataType::Vec4, &["a", "b"]);
    let none = vx_field(FieldDataType::Vec4, &[]);
    let structs = vec![
        vx_struct("Vertex", vec![vx_position(), bad.clone()]),
        vx_struct("Empty", vec![vx_position(), vx_field(FieldDataType::Vec4, &["a"]), none.clone()]),
    ];
    assert_eq!(
        vertex_shader_outputs(&vx_returning(vx_type("Vertex")), &structs),
        Err(VertexShaderInterfaceError::OutputFieldCannotHaveSeveralIdentifiers(0, bad))
    );
    assert_eq!(
        vertex_shader_outputs(&vx_returning(vx_type("Empty")), &structs),
        Err(VertexShaderInterfaceError::OutputFieldCannotHaveSeveralIdentifiers(1, none))
    );
}

#[test]
fn the_first_wrong_field_decides_the_error() {
    let nested = glsl::syntax::StructSpecifier { name: None, fields: Vec::new() };
    let several = vx_field(FieldDataType::Vec4, &["a", "b"]);
    let inner = vx_field(FieldDataType::Struct(nested), &["inner"]);
    let structs = vec![vx_struct("Vertex", vec![vx_position(), several.clone(), inner])];
    assert_eq!(
        vertex_shader_outputs(&vx_returning(vx_type("Vertex")), &structs),
        Err(VertexShaderInterfaceError::OutputFieldCannotHaveSeveralIdentifiers(0, several))
    );
}

#[test]
fn the_interface_holds_inputs_and_outputs() {
    let structs = vec![vx_struct("Vertex", vec![vx_position(), vx_field(FieldDataType::Vec4, &["color"])])];
    let entry = vx_entry(
        vx_returning(vx_type("Vertex")),
        vec![vx_param("vec3", "position"), vx_param("vec4", "color")],
    );
    let interface = vertex_shader_interface(&entry, &structs).unwrap();
    assert_eq!(
        interface,
        VertexShaderInterface {
            inputs: vec![
                vx_decl(vec![QualifierSpec::Location(0), QualifierSpec::In], vx_type("vec3"), "position", None),
                vx_decl(vec![QualifierSpec::Location(1), QualifierSpec::In], vx_type("vec4"), "color", None),
            ],
            outputs: vec![vx_decl(
                vec![QualifierSpec::Out],
                TypeSpecifier { ty: DataType::Vec4, array_specifier: None },
                "__v_color",
                None,
            )],
        }
    );
}

#[test]
fn an_error_of_the_inputs_comes_before_one_of_the_outputs() {
    let entry = vx_entry(
        vx_returning(TypeSpecifier { ty: DataType::Vec4, array_specifier: None }),
        vec![FunctionParameterDeclaration::Unnamed(None, vx_type("vec4"))],
    );
    assert_eq!(vertex_shader_interface(&entry, &Vec::new()), Err(VertexShaderInterfaceError::UnnamedInput));
}
