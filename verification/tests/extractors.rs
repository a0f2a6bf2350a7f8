use glsl::syntax::{ArraySpecifier, Block, CompoundStatement};
use spsl::module::Module;
use spsl::syntax::{
    DataType, ExternalDeclaration, FullySpecifiedType, FunctionDefinition, FunctionPrototype,
    InitDeclaratorList, QualifierSpec, SingleDeclaration, SingleDeclarationNoType, StructDef,
    TypeQualifier, TypeSpecifier,
};

fn ex_ty(ty: DataType, qualifiers: Option<Vec<QualifierSpec>>) -> FullySpecifiedType {
    FullySpecifiedType {
        qualifier: qualifiers.map(|qualifiers| TypeQualifier { qualifiers }),
        ty: TypeSpecifier { ty, array_specifier: None },
    }
}

fn ex_decl(ty: FullySpecifiedType, name: Option<&str>) -> SingleDeclaration {
    SingleDeclaration {
        ty,
        name: name.map(|n| n.to_owned()),
        array_specifier: None,
        initializer: None,
    }
}

fn ex_list(head: SingleDeclaration, tail: Vec<SingleDeclarationNoType>) -> ExternalDeclaration {
    ExternalDeclaration::InitDeclaratorList(InitDeclaratorList { head, tail })
}

fn ex_fun(name: &str) -> FunctionDefinition {
    FunctionDefinition {
        prototype: FunctionPrototype {
            ty: ex_ty(DataType::Vec4, None),
            name: name.to_owned(),
            parameters: Vec::new(),
        },
        statement: CompoundStatement { statement_list: Vec::new() },
    }
}

fn ex_block(name: &str) -> Block {
    Block {
        qualifier: glsl::syntax::TypeQualifier {
            qualifiers: vec![glsl::syntax::TypeQualifierSpec::Storage(
                glsl::syntax::StorageQualifier::Uniform,
            )],
        },
        name: name.to_owned(),
        fields: Vec::new(),
        identifier: None,
    }
}

fn ex_module(glsl: Vec<ExternalDeclaration>) -> Module {
    Module { imports: Vec::new(), glsl }
}

#[test]
fn uniforms_keeps_only_uniform_declarations_in_order() {
    let a = ex_decl(ex_ty(DataType::Vec4, Some(vec![QualifierSpec::Uniform])), Some("a"));
    let b = ex_decl(ex_ty(DataType::Vec4, None), Some("b"));
    let c = ex_decl(
        ex_ty(DataType::TypeName("mat4".to_owned()), Some(vec![QualifierSpec::In, QualifierSpec::Uniform])),
        Some("c"),
    );
    let d = ex_decl(ex_ty(DataType::Vec4, Some(vec![QualifierSpec::In])), Some("d"));
    let module = ex_module(vec![
        ex_list(a.clone(), Vec::new()),
        ex_list(b, Vec::new()),
        ExternalDeclaration::FunctionDefinition(ex_fun("f")),
        ex_list(c.clone(), Vec::new()),
        ex_list(d, Vec::new()),
    ]);
    assert_eq!(module.uniforms(), vec![a, c]);
}

#[test]
fn uniforms_expands_a_declaration_of_several_names() {
    let ty = ex_ty(DataType::Vec4, Some(vec![QualifierSpec::Uniform]));
    let mut head = ex_decl(ty.clone(), Some("a"));
    head.initializer = None;
    let tail = vec![
        SingleDeclarationNoType {
            name: "b".to_owned(),
            array_specifier: Some(ArraySpecifier::Unsized),
            initializer: None,
        },
        SingleDeclarationNoType { name: "c".to_owned(), array_specifier: None, initializer: None },
    ];
    let module = ex_module(vec![ex_list(head.clone(), tail)]);
    let b = SingleDeclaration {
        ty: ty.clone(),
        name: Some("b".to_owned()),
        array_specifier: Some(ArraySpecifier::Unsized),
        initializer: None,
    };
    let c = ex_decl(ty, Some("c"));
    assert_eq!(module.uniforms(), vec![head, b, c]);
}

#[test]
fn uniforms_of_a_module_without_declarations_is_empty() {
    assert_eq!(ex_module(Vec::new()).uniforms(), Vec::new());
}

#[test]
fn blocks_keeps_interface_blocks_in_order() {
    let module = ex_module(vec![
        ExternalDeclaration::Block(ex_block("First")),
        ExternalDeclaration::FunctionDefinition(ex_fun("f")),
        ExternalDeclaration::Block(ex_block("Second")),
    ]);
    assert_eq!(module.blocks(), vec![ex_block("First"), ex_block("Second")]);
}

#[test]
fn functions_keeps_function_definitions_in_order() {
    let module = ex_module(vec![
        ExternalDeclaration::FunctionDefinition(ex_fun("f")),
        ExternalDeclaration::Block(ex_block("B")),
        ExternalDeclaration::FunctionDefinition(ex_fun("map_vertex")),
        ExternalDeclaration::FunctionDefinition(ex_fun("g")),
    ]);
    assert_eq!(module.functions(), vec![ex_fun("f"), ex_fun("map_vertex"), ex_fun("g")]);
}

#[test]
fn structs_keeps_structs_that_are_the_type_of_a_declaration() {
    let s = StructDef { name: Some("Vertex".to_owned()), fields: Vec::new() };
    let t = StructDef { name: None, fields: Vec::new() };
    let module = ex_module(vec![
        ex_list(ex_decl(ex_ty(DataType::Struct(s.clone()), None), None), Vec::new()),
        ex_list(ex_decl(ex_ty(DataType::TypeName("Vertex".to_owned()), None), Some("v")), Vec::new()),
        ex_list(
            ex_decl(ex_ty(DataType::Struct(t.clone()), Some(vec![QualifierSpec::Uniform])), Some("u")),
            Vec::new(),
        ),
        ExternalDeclaration::Declaration(glsl::syntax::Declaration::Precision(
            glsl::syntax::PrecisionQualifier::High,
            glsl::syntax::TypeSpecifier {
                ty: glsl::syntax::TypeSpecifierNonArray::Float,
                array_specifier: None,
            },
        )),
    ]);
    assert_eq!(module.structs(), vec![s, t]);
}
