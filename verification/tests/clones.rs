use glsl::syntax::{ArraySpecifier, CompoundStatement, Expr, Initializer};
use spsl::deps::DepsError;
use spsl::emit::GLSLConversionError;
use spsl::module::{ImportList, Module, ModuleKey, ModulePath};
use spsl::resource::LoadError;
use spsl::syntax::{
    ArrayedIdentifier, DataType, ExternalDeclaration, FieldDataType, FieldTypeSpecifier,
    FullySpecifiedType, FunctionDefinition, FunctionParameterDeclaration,
    FunctionParameterDeclarator, FunctionPrototype, InitDeclaratorList, QualifierSpec,
    SingleDeclaration, SingleDeclarationNoType, StructDef, StructFieldSpecifier, TypeQualifier,
    TypeSpecifier,
};
use spsl::vertex::VertexShaderInterfaceError;

fn cl_struct() -> StructDef {
    StructDef {
        name: Some("Vertex".to_owned()),
        fields: vec![StructFieldSpecifier {
            qualifier: Some(TypeQualifier { qualifiers: vec![QualifierSpec::Location(3)] }),
            ty: FieldTypeSpecifier {
                ty: FieldDataType::Other(glsl::syntax::TypeSpecifierNonArray::Mat4),
                array_specifier: Some(ArraySpecifier::ExplicitlySized(Box::new(Expr::IntConst(2)))),
            },
            identifiers: vec![
                ArrayedIdentifier { name: "a".to_owned(), array_spec: None },
                ArrayedIdentifier { name: "b".to_owned(), array_spec: Some(ArraySpecifier::Unsized) },
            ],
        }],
    }
}

fn cl_module() -> Module {
    let ty = FullySpecifiedType {
        qualifier: Some(TypeQualifier {
            qualifiers: vec![
                QualifierSpec::Uniform,
                QualifierSpec::Other(glsl::syntax::TypeQualifierSpec::Invariant),
            ],
        }),
        ty: TypeSpecifier { ty: DataType::Struct(cl_struct()), array_specifier: None },
    };
    let list = InitDeclaratorList {
        head: SingleDeclaration {
            ty: ty.clone(),
            name: Some("v".to_owned()),
            array_specifier: None,
            initializer: Some(Initializer::Simple(Box::new(Expr::BoolConst(true)))),
        },
        tail: vec![SingleDeclarationNoType {
            name: "w".to_owned(),
            array_specifier: Some(ArraySpecifier::Unsized),
            initializer: None,
        }],
    };
    let function = FunctionDefinition {
        prototype: FunctionPrototype {
            ty,
            name: "f".to_owned(),
            parameters: vec![
                FunctionParameterDeclaration::Named(
                    None,
                    FunctionParameterDeclarator {
                        ty: TypeSpecifier { ty: DataType::Vec4, array_specifier: None },
                        name: "p".to_owned(),
                        array_spec: None,
                    },
                ),
                FunctionParameterDeclaration::Unnamed(
                    Some(TypeQualifier { qualifiers: vec![QualifierSpec::In, QualifierSpec::Out] }),
                    TypeSpecifier { ty: DataType::TypeName("T".to_owned()), array_specifier: None },
                ),
            ],
        },
        statement: CompoundStatement { statement_list: Vec::new() },
    };
    Module {
        imports: vec![ImportList {
            module: ModulePath { path: vec!["a".to_owned(), "b".to_owned()] },
            list: vec!["x".to_owned()],
        }],
        glsl: vec![
            ExternalDeclaration::InitDeclaratorList(list),
            ExternalDeclaration::FunctionDefinition(function),
            ExternalDeclaration::Preprocessor(glsl::syntax::Preprocessor::Version(
                glsl::syntax::PreprocessorVersion { version: 330, profile: None },
            )),
        ],
    }
}

#[test]
fn a_cloned_module_equals_the_module() {
    let module = cl_module();
    assert_eq!(module.clone(), module);
    assert_eq!(module.clone().imports[0].module_key(), ModuleKey::new("a.b"));
}

#[test]
fn cloned_errors_equal_the_errors() {
    let deps = DepsError::Cycle(ModuleKey::new("a"), ModuleKey::new("b"));
    assert_eq!(deps.clone(), deps);
    let load = LoadError::ConversionFailed("why".to_owned());
    assert_eq!(load.clone(), load);
    let field = cl_struct().fields[0].clone();
    let interface = VertexShaderInterfaceError::OutputFieldCannotHaveSeveralIdentifiers(4, field.clone());
    assert_eq!(interface.clone(), interface);
    let first = VertexShaderInterfaceError::WrongOutputFirstField(Some(field));
    assert_eq!(first.clone(), first);
    let glsl = GLSLConversionError::VertexShaderInterfaceError(interface);
    assert_eq!(glsl.clone(), glsl);
}
