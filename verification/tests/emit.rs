use glsl::syntax::CompoundStatement;
use spsl::emit::{
    sink_vertex_shader, sink_vertex_shader_input_arg, sink_vertex_shader_input_args,
    sink_vertex_shader_output, GLSLConversionError, GLSLPiece,
};
use spsl::module::Module;
use spsl::syntax::{
    ArrayedIdentifier, DataType, ExternalDeclaration, FieldDataType, FieldTypeSpecifier,
    FullySpecifiedType, FunctionDefinition, FunctionParameterDeclaration,
    FunctionParameterDeclarator, FunctionPrototype, InitDeclaratorList, QualifierSpec,
    SingleDeclaration, StructDef, StructFieldSpecifier, TypeQualifier, TypeSpecifier,
};
use spsl::vertex::VertexShaderInterfaceError;

fn em_type(name: &str) -> TypeSpecifier {
    TypeSpecifier { ty: DataType::TypeName(name.to_owned()), array_specifier: None }
}

fn em_param(ty: &str, name: &str) -> FunctionParameterDeclaration {
    FunctionParameterDeclaration::Named(
        None,
        FunctionParameterDeclarator { ty: em_type(ty), name: name.to_owned(), array_spec: None },
    )
}

fn em_field(names: &[&str]) -> StructFieldSpecifier {
    StructFieldSpecifier {
        qualifier: None,
        ty: FieldTypeSpecifier { ty: FieldDataType::Vec4, array_specifier: None },
        identifiers: names
            .iter()
            .map(|n| ArrayedIdentifier { name: (*n).to_owned(), array_spec: None })
            .collect(),
    }
}

fn em_fun(name: &str, ret: TypeSpecifier, parameters: Vec<FunctionParameterDeclaration>) -> FunctionDefinition {
    FunctionDefinition {
        prototype: FunctionPrototype {
            ty: FullySpecifiedType { qualifier: None, ty: ret },
            name: name.to_owned(),
            parameters,
        },
        statement: CompoundStatement { statement_list: Vec::new() },
    }
}

fn em_decl(qualifiers: Option<Vec<QualifierSpec>>, ty: TypeSpecifier, name: Option<&str>) -> SingleDeclaration {
    SingleDeclaration {
        ty: FullySpecifiedType { qualifier: qualifiers.map(|qualifiers| TypeQualifier { qualifiers }), ty },
        name: name.map(|n| n.to_owned()),
        array_specifier: None,
        initializer: None,
    }
}

fn em_list(head: SingleDeclaration) -> ExternalDeclaration {
    ExternalDeclaration::InitDeclaratorList(InitDeclaratorList { head, tail: Vec::new() })
}

fn em_vertex() -> StructDef {
    StructDef {
        name: Some("Vertex".to_owned()),
        fields: vec![em_field(&["gl_Position"]), em_field(&["color"]), em_field(&["uv"])],
    }
}

fn em_block() -> glsl::syntax::Block {
    glsl::syntax::Block {
        qualifier: glsl::syntax::TypeQualifier {
            qualifiers: vec![glsl::syntax::TypeQualifierSpec::Storage(
                glsl::syntax::StorageQualifier::Uniform,
            )],
        },
        name: "Camera".to_owned(),
        fields: Vec::new(),
        identifier: None,
    }
}

#[test]
fn a_module_without_entry_function_has_no_vertex_shader() {
    let module = Module {
        imports: Vec::new(),
        glsl: vec![
            em_list(em_decl(None, TypeSpecifier { ty: DataType::Struct(em_vertex()), array_specifier: None }, None)),
            ExternalDeclaration::FunctionDefinition(em_fun("helper", em_type("Vertex"), Vec::new())),
        ],
    };
    assert_eq!(module.to_glsl_string(), Err(GLSLConversionError::NoVertexShader));
    let empty = Module { imports: Vec::new(), glsl: Vec::new() };
    assert_eq!(empty.to_glsl_string(), Err(GLSLConversionError::NoVertexShader));
}

#[test]
fn the_source_is_shared_code_then_the_vertex_stage() {
    let uniform = em_decl(Some(vec![QualifierSpec::Uniform]), em_type("mat4"), Some("projection"));
    let vertex = em_decl(None, TypeSpecifier { ty: DataType::Struct(em_vertex()), array_specifier: None }, None);
    let entry = em_fun(
        "map_vertex",
        em_type("Vertex"),
        vec![em_param("vec3", "position"), em_param("vec4", "color")],
    );
    let helper = em_fun("helper", em_type("float"), Vec::new());
    let module = Module {
        imports: Vec::new(),
        glsl: vec![
            ExternalDeclaration::FunctionDefinition(entry.clone()),
            ExternalDeclaration::Block(em_block()),
            em_list(vertex),
            ExternalDeclaration::FunctionDefinition(helper.clone()),
            em_list(uniform.clone()),
        ],
    };
    let input = |i: usize, ty: &str, name: &str| {
        GLSLPiece::Declaration(em_list(em_decl(
            Some(vec![QualifierSpec::Location(i), QualifierSpec::In]),
            em_type(ty),
            Some(name),
        )))
    };
    let output = |name: &str| {
        GLSLPiece::Declaration(em_list(em_decl(
            Some(vec![QualifierSpec::Out]),
            TypeSpecifier { ty: DataType::Vec4, array_specifier: None },
            Some(name),
        )))
    };
    let main = "void main() {\n  Vertex v = map_vertex(position, color);\n  gl_Position = v.gl_Position;\n  __v_color = v.color;\n  __v_uv = v.uv;\n}\n\n";
    assert_eq!(
        module.to_glsl_string(),
        Ok(vec![
            GLSLPiece::Uniform(uniform),
            GLSLPiece::Text(";\n".to_owned()),
            GLSLPiece::Block(em_block()),
            GLSLPiece::Struct(em_vertex()),
            GLSLPiece::Function(helper),
            input(0, "vec3", "position"),
            input(1, "vec4", "color"),
            output("__v_color"),
            output("__v_uv"),
            GLSLPiece::Function(entry),
            GLSLPiece::Text(main.to_owned()),
        ])
    );
}

#[test]
fn an_entry_function_without_interface_gives_its_error() {
    let entry = em_fun("map_vertex", TypeSpecifier { ty: DataType::Vec4, array_specifier: None }, Vec::new());
    let module = Module { imports: Vec::new(), glsl: vec![ExternalDeclaration::FunctionDefinition(entry)] };
    assert_eq!(
        module.to_glsl_string(),
        Err(GLSLConversionError::VertexShaderInterfaceError(
            VertexShaderInterfaceError::OutputTypeMustBeAStruct(TypeSpecifier {
                ty: DataType::Vec4,
                array_specifier: None
            })
        ))
    );
}

#[test]
fn the_vertex_stage_is_appended_to_the_sink() {
    let entry = em_fun("map_vertex", em_type("Vertex"), Vec::new());
    let structs = vec![StructDef { name: Some("Vertex".to_owned()), fields: vec![em_field(&["gl_Position"])] }];
    let mut sink = vec![GLSLPiece::Text("before".to_owned())];
    assert_eq!(sink_vertex_shader(&mut sink, &entry, &structs), Ok(()));
    assert_eq!(
        sink,
        vec![
            GLSLPiece::Text("before".to_owned()),
            GLSLPiece::Function(entry),
            GLSLPiece::Text(
                "void main() {\n  Vertex v = map_vertex();\n  gl_Position = v.gl_Position;\n}\n\n".to_owned()
            ),
        ]
    );
}

#[test]
fn a_failing_vertex_stage_leaves_the_sink() {
    let entry = em_fun("map_vertex", em_type("Vertex"), vec![FunctionParameterDeclaration::Unnamed(None, em_type("vec3"))]);
    let mut sink = vec![GLSLPiece::Text("before".to_owned())];
    assert_eq!(
        sink_vertex_shader(&mut sink, &entry, &vec![em_vertex()]),
        Err(VertexShaderInterfaceError::UnnamedInput)
    );
    assert_eq!(sink, vec![GLSLPiece::Text("before".to_owned())]);
}

#[test]
fn arguments_are_separated_by_a_comma_and_a_space() {
    let entry = em_fun(
        "map_vertex",
        em_type("Vertex"),
        vec![em_param("vec3", "a"), em_param("vec3", "b"), em_param("vec3", "c")],
    );
    let mut sink = String::from("f(");
    assert_eq!(sink_vertex_shader_input_args(&mut sink, &entry), Ok(()));
    assert_eq!(sink, "f(a, b, c");
    let one = em_fun("map_vertex", em_type("Vertex"), vec![em_param("vec3", "a")]);
    let mut sink = String::new();
    assert_eq!(sink_vertex_shader_input_args(&mut sink, &one), Ok(()));
    assert_eq!(sink, "a");
}

#[test]
fn arguments_without_a_name_are_refused() {
    let entry = em_fun(
        "map_vertex",
        em_type("Vertex"),
        vec![em_param("vec3", "a"), FunctionParameterDeclaration::Unnamed(None, em_type("vec3"))],
    );
    let mut sink = String::from("f(");
    assert_eq!(sink_vertex_shader_input_args(&mut sink, &entry), Err(VertexShaderInterfaceError::UnnamedInput));
    assert_eq!(sink, "f(");
    let mut sink = String::from("x");
    assert_eq!(
        sink_vertex_shader_input_arg(&mut sink, &FunctionParameterDeclaration::Unnamed(None, em_type("vec3"))),
        Err(VertexShaderInterfaceError::UnnamedInput)
    );
    assert_eq!(sink, "x");
    assert_eq!(sink_vertex_shader_input_arg(&mut sink, &em_param("vec3", "a")), Ok(()));
    assert_eq!(sink, "xa");
}

#[test]
fn every_identifier_after_the_first_field_is_assigned() {
    let ty = StructDef {
        name: Some("V".to_owned()),
        fields: vec![em_field(&["gl_Position"]), em_field(&["a", "b"]), em_field(&[]), em_field(&["c"])],
    };
    let mut sink = String::from("  ");
    let mut assigns = String::new();
    sink_vertex_shader_output(&mut sink, &mut assigns, &ty);
    assert_eq!(sink, "  V");
    assert_eq!(
        assigns,
        "  gl_Position = v.gl_Position;\n  __v_a = v.a;\n  __v_b = v.b;\n  __v_c = v.c;\n"
    );
}
