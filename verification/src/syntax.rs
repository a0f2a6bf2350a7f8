//! The syntax tree of a shader module.
//!
//! The tree holds, as plain data, every part that linking and interface
//! synthesis look at. The parts that are only carried along (array sizes,
//! initializers, function bodies, interface blocks, ...) stay values of the
//! `glsl` crate. Every type has a view, its mathematical model, and `clone`
//! is proved to keep the view.
use vstd::prelude::*;

verus! {

/// `glsl::syntax::ArraySpecifier`, carried through as it is.
#[verifier::external_type_specification]
#[verifier::external_body]
pub struct ExArraySpecifier(glsl::syntax::ArraySpecifier);

/// `glsl::syntax::Initializer`, carried through as it is.
#[verifier::external_type_specification]
#[verifier::external_body]
pub struct ExInitializer(glsl::syntax::Initializer);

/// `glsl::syntax::CompoundStatement`, carried through as it is.
#[verifier::external_type_specification]
#[verifier::external_body]
pub struct ExCompoundStatement(glsl::syntax::CompoundStatement);

/// `glsl::syntax::Block`, carried through as it is.
#[verifier::external_type_specification]
#[verifier::external_body]
pub struct ExBlock(glsl::syntax::Block);

/// `glsl::syntax::TypeQualifierSpec`, carried through as it is.
#[verifier::external_type_specification]
#[verifier::external_body]
pub struct ExTypeQualifierSpec(glsl::syntax::TypeQualifierSpec);

/// `glsl::syntax::TypeSpecifierNonArray`, carried through as it is.
#[verifier::external_type_specification]
#[verifier::external_body]
pub struct ExTypeSpecifierNonArray(glsl::syntax::TypeSpecifierNonArray);

/// `glsl::syntax::StructSpecifier`, carried through as it is.
#[verifier::external_type_specification]
#[verifier::external_body]
pub struct ExStructSpecifier(glsl::syntax::StructSpecifier);

/// `glsl::syntax::Declaration`, carried through as it is.
#[verifier::external_type_specification]
#[verifier::external_body]
pub struct ExDeclaration(glsl::syntax::Declaration);

/// `glsl::syntax::Preprocessor`, carried through as it is.
#[verifier::external_type_specification]
#[verifier::external_body]
pub struct ExPreprocessor(glsl::syntax::Preprocessor);

/// `Clone::clone` as `glsl` derives it for its `ArraySpecifier`: the copy equals the
/// value it was made from.
pub assume_specification[ <glsl::syntax::ArraySpecifier as Clone>::clone ](
    a: &glsl::syntax::ArraySpecifier,
) -> (r: glsl::syntax::ArraySpecifier)
    ensures
        r == *a,
;

/// `Clone::clone` as `glsl` derives it for its `Initializer`: the copy equals the
/// value it was made from.
pub assume_specification[ <glsl::syntax::Initializer as Clone>::clone ](
    a: &glsl::syntax::Initializer,
) -> (r: glsl::syntax::Initializer)
    ensures
        r == *a,
;

/// `Clone::clone` as `glsl` derives it for its `CompoundStatement`: the copy equals the
/// value it was made from.
pub assume_specification[ <glsl::syntax::CompoundStatement as Clone>::clone ](
    a: &glsl::syntax::CompoundStatement,
) -> (r: glsl::syntax::CompoundStatement)
    ensures
        r == *a,
;

/// `Clone::clone` as `glsl` derives it for its `Block`: the copy equals the
/// value it was made from.
pub assume_specification[ <glsl::syntax::Block as Clone>::clone ](
    a: &glsl::syntax::Block,
) -> (r: glsl::syntax::Block)
    ensures
        r == *a,
;

/// `Clone::clone` as `glsl` derives it for its `TypeQualifierSpec`: the copy equals the
/// value it was made from.
pub assume_specification[ <glsl::syntax::TypeQualifierSpec as Clone>::clone ](
    a: &glsl::syntax::TypeQualifierSpec,
) -> (r: glsl::syntax::TypeQualifierSpec)
    ensures
        r == *a,
;

/// `Clone::clone` as `glsl` derives it for its `TypeSpecifierNonArray`: the copy equals the
/// value it was made from.
pub assume_specification[ <glsl::syntax::TypeSpecifierNonArray as Clone>::clone ](
    a: &glsl::syntax::TypeSpecifierNonArray,
) -> (r: glsl::syntax::TypeSpecifierNonArray)
    ensures
        r == *a,
;

/// `Clone::clone` as `glsl` derives it for its `StructSpecifier`: the copy equals the
/// value it was made from.
pub assume_specification[ <glsl::syntax::StructSpecifier as Clone>::clone ](
    a: &glsl::syntax::StructSpecifier,
) -> (r: glsl::syntax::StructSpecifier)
    ensures
        r == *a,
;

/// `Clone::clone` as `glsl` derives it for its `Declaration`: the copy equals the
/// value it was made from.
pub assume_specification[ <glsl::syntax::Declaration as Clone>::clone ](
    a: &glsl::syntax::Declaration,
) -> (r: glsl::syntax::Declaration)
    ensures
        r == *a,
;

/// `Clone::clone` as `glsl` derives it for its `Preprocessor`: the copy equals the
/// value it was made from.
pub assume_specification[ <glsl::syntax::Preprocessor as Clone>::clone ](
    a: &glsl::syntax::Preprocessor,
) -> (r: glsl::syntax::Preprocessor)
    ensures
        r == *a,
;

/// The view of an optional value.
pub open spec fn view_opt<T: View>(o: Option<T>) -> Option<T::V> {
    match o {
        Some(t) => Some(t@),
        None => None,
    }
}

/// The views of a sequence of values, in order.
pub open spec fn view_seq<T: View>(s: Seq<T>) -> Seq<T::V> {
    s.map_values(|t: T| t@)
}

/// Taking one more element of a sequence appends that element's view.
pub proof fn lemma_view_seq_take<T: View>(s: Seq<T>, i: int)
    requires
        0 <= i < s.len(),
    ensures
        view_seq(s.take(i + 1)) == view_seq(s.take(i)).push(s[i]@),
        s.take(i + 1) == s.take(i).push(s[i]),
        s.take(s.len() as int) == s,
        view_seq(s.take(0)) == Seq::<T::V>::empty(),
{
    assert(view_seq(s.take(i + 1)) =~= view_seq(s.take(i)).push(s[i]@));
    assert(s.take(i + 1) =~= s.take(i).push(s[i]));
    assert(s.take(s.len() as int) =~= s);
    assert(view_seq(s.take(0)) =~= Seq::<T::V>::empty());
}

/// One qualifier of a type.
///
/// The qualifiers that linking reads or writes are variants of their own;
/// `Other` carries any other qualifier untouched.
#[derive(Debug, PartialEq)]
pub enum QualifierSpec {
    /// The `uniform` storage qualifier.
    Uniform,
    /// The `in` storage qualifier.
    In,
    /// The `out` storage qualifier.
    Out,
    /// `layout (location = n)`.
    Location(usize),
    /// Any other qualifier.
    Other(glsl::syntax::TypeQualifierSpec),
}

impl Clone for QualifierSpec {
    fn clone(&self) -> (r: Self)
        ensures
            r == *self,
    {
        match self {
            QualifierSpec::Uniform => QualifierSpec::Uniform,
            QualifierSpec::In => QualifierSpec::In,
            QualifierSpec::Out => QualifierSpec::Out,
            QualifierSpec::Location(n) => QualifierSpec::Location(*n),
            QualifierSpec::Other(q) => QualifierSpec::Other(q.clone()),
        }
    }
}

/// The qualifiers of a type, in source order.
#[derive(Debug, PartialEq)]
pub struct TypeQualifier {
    pub qualifiers: Vec<QualifierSpec>,
}

impl View for TypeQualifier {
    type V = Seq<QualifierSpec>;

    open spec fn view(&self) -> Seq<QualifierSpec> {
        self.qualifiers@
    }
}

impl Clone for TypeQualifier {
    fn clone(&self) -> (r: Self)
        ensures
            r@ == self@,
    {
        let mut qualifiers: Vec<QualifierSpec> = Vec::new();
        let mut i: usize = 0;
        while i < self.qualifiers.len()
            invariant
                i <= self.qualifiers.len(),
                qualifiers@ == self.qualifiers@.take(i as int),
            decreases self.qualifiers.len() - i,
        {
            qualifiers.push(self.qualifiers[i].clone());
            proof {
                assert(self.qualifiers@.take(i + 1) =~= self.qualifiers@.take(i as int).push(
                    self.qualifiers@[i as int],
                ));
            }
            i += 1;
        }
        proof {
            assert(self.qualifiers@.take(i as int) =~= self.qualifiers@);
        }
        TypeQualifier { qualifiers }
    }
}

/// A copy of an optional string.
pub fn clone_opt_string(o: &Option<String>) -> (r: Option<String>)
    ensures
        view_opt(r) == view_opt(*o),
{
    match o {
        Some(s) => Some(s.clone()),
        None => None,
    }
}

/// A copy of an optional qualifier.
pub fn clone_opt_type_qualifier(o: &Option<TypeQualifier>) -> (r: Option<TypeQualifier>)
    ensures
        view_opt(r) == view_opt(*o),
{
    match o {
        Some(s) => Some(s.clone()),
        None => None,
    }
}

/// A copy of an optional array size.
pub fn clone_opt_array_specifier(o: &Option<glsl::syntax::ArraySpecifier>) -> (r: Option<
    glsl::syntax::ArraySpecifier,
>)
    ensures
        r == *o,
{
    match o {
        Some(s) => Some(s.clone()),
        None => None,
    }
}

/// A copy of an optional initializer.
pub fn clone_opt_initializer(o: &Option<glsl::syntax::Initializer>) -> (r: Option<
    glsl::syntax::Initializer,
>)
    ensures
        r == *o,
{
    match o {
        Some(s) => Some(s.clone()),
        None => None,
    }
}

/// An identifier with its optional array size.
#[derive(Debug, PartialEq)]
pub struct ArrayedIdentifier {
    /// The identifier.
    pub name: String,
    /// Its array size, if it names an array.
    pub array_spec: Option<glsl::syntax::ArraySpecifier>,
}

/// The model of [`ArrayedIdentifier`].
pub ghost struct ArrayedIdentifierView {
    pub name: Seq<char>,
    pub array_spec: Option<glsl::syntax::ArraySpecifier>,
}

impl View for ArrayedIdentifier {
    type V = ArrayedIdentifierView;

    open spec fn view(&self) -> ArrayedIdentifierView {
        ArrayedIdentifierView {
            name: self.name@,
            array_spec: self.array_spec,
        }
    }
}

impl Clone for ArrayedIdentifier {
    fn clone(&self) -> (r: Self)
        ensures
            r@ == self@,
    {
        ArrayedIdentifier {
            name: self.name.clone(),
            array_spec: clone_opt_array_specifier(&self.array_spec),
        }
    }
}

/// A copy of a list of [`ArrayedIdentifier`], element by element.
pub fn clone_vec_arrayed_identifier(v: &Vec<ArrayedIdentifier>) -> (r: Vec<ArrayedIdentifier>)
    ensures
        view_seq(r@) == view_seq(v@),
{
    let mut r: Vec<ArrayedIdentifier> = Vec::new();
    let mut i: usize = 0;
    proof {
        assert(view_seq(r@) =~= view_seq(v@.take(0)));
    }
    while i < v.len()
        invariant
            i <= v.len(),
            view_seq(r@) == view_seq(v@.take(i as int)),
        decreases v.len() - i,
    {
        let ghost before = r@;
        r.push(v[i].clone());
        proof {
            lemma_view_seq_take(v@, i as int);
            assert(view_seq(r@) =~= view_seq(before).push(v@[i as int]@));
        }
        i += 1;
    }
    proof {
        assert(v@.take(i as int) =~= v@);
    }
    r
}

/// The type of a struct field, without its array size.
#[derive(Debug, PartialEq)]
pub enum FieldDataType {
    /// The four-component float vector.
    Vec4,
    /// A type known by its name.
    TypeName(String),
    /// A struct defined in place.
    Struct(glsl::syntax::StructSpecifier),
    /// Any other built-in type.
    Other(glsl::syntax::TypeSpecifierNonArray),
}

/// The model of [`FieldDataType`].
pub ghost enum FieldDataTypeView {
    Vec4,
    TypeName(Seq<char>),
    Struct(glsl::syntax::StructSpecifier),
    Other(glsl::syntax::TypeSpecifierNonArray),
}

impl View for FieldDataType {
    type V = FieldDataTypeView;

    open spec fn view(&self) -> FieldDataTypeView {
        match *self {
            FieldDataType::Vec4 => FieldDataTypeView::Vec4,
            FieldDataType::TypeName(a) => FieldDataTypeView::TypeName(a@),
            FieldDataType::Struct(a) => FieldDataTypeView::Struct(a),
            FieldDataType::Other(a) => FieldDataTypeView::Other(a),
        }
    }
}

impl Clone for FieldDataType {
    fn clone(&self) -> (r: Self)
        ensures
            r@ == self@,
    {
        match self {
            FieldDataType::Vec4 => FieldDataType::Vec4,
            FieldDataType::TypeName(a) => FieldDataType::TypeName(a.clone()),
            FieldDataType::Struct(a) => FieldDataType::Struct(a.clone()),
            FieldDataType::Other(a) => FieldDataType::Other(a.clone()),
        }
    }
}

/// The type of a struct field.
#[derive(Debug, PartialEq)]
pub struct FieldTypeSpecifier {
    /// The type.
    pub ty: FieldDataType,
    /// Its array size, if any.
    pub array_specifier: Option<glsl::syntax::ArraySpecifier>,
}

/// The model of [`FieldTypeSpecifier`].
pub ghost struct FieldTypeSpecifierView {
    pub ty: FieldDataTypeView,
    pub array_specifier: Option<glsl::syntax::ArraySpecifier>,
}

impl View for FieldTypeSpecifier {
    type V = FieldTypeSpecifierView;

    open spec fn view(&self) -> FieldTypeSpecifierView {
        FieldTypeSpecifierView {
            ty: self.ty@,
            array_specifier: self.array_specifier,
        }
    }
}

impl Clone for FieldTypeSpecifier {
    fn clone(&self) -> (r: Self)
        ensures
            r@ == self@,
    {
        FieldTypeSpecifier {
            ty: self.ty.clone(),
            array_specifier: clone_opt_array_specifier(&self.array_specifier),
        }
    }
}

/// One field declaration of a struct: a type shared by one or more identifiers.
#[derive(Debug, PartialEq)]
pub struct StructFieldSpecifier {
    /// The qualifier of the field, if any.
    pub qualifier: Option<TypeQualifier>,
    /// The type of the field.
    pub ty: FieldTypeSpecifier,
    /// The identifiers that share the type.
    pub identifiers: Vec<ArrayedIdentifier>,
}

/// The model of [`StructFieldSpecifier`].
pub ghost struct StructFieldSpecifierView {
    pub qualifier: Option<Seq<QualifierSpec>>,
    pub ty: FieldTypeSpecifierView,
    pub identifiers: Seq<ArrayedIdentifierView>,
}

impl View for StructFieldSpecifier {
    type V = StructFieldSpecifierView;

    open spec fn view(&self) -> StructFieldSpecifierView {
        StructFieldSpecifierView {
            qualifier: view_opt(self.qualifier),
            ty: self.ty@,
            identifiers: view_seq(self.identifiers@),
        }
    }
}

impl Clone for StructFieldSpecifier {
    fn clone(&self) -> (r: Self)
        ensures
            r@ == self@,
    {
        StructFieldSpecifier {
            qualifier: clone_opt_type_qualifier(&self.qualifier),
            ty: self.ty.clone(),
            identifiers: clone_vec_arrayed_identifier(&self.identifiers),
        }
    }
}

/// A copy of a list of [`StructFieldSpecifier`], element by element.
pub fn clone_vec_struct_field_specifier(v: &Vec<StructFieldSpecifier>) -> (r: Vec<StructFieldSpecifier>)
    ensures
        view_seq(r@) == view_seq(v@),
{
    let mut r: Vec<StructFieldSpecifier> = Vec::new();
    let mut i: usize = 0;
    proof {
        assert(view_seq(r@) =~= view_seq(v@.take(0)));
    }
    while i < v.len()
        invariant
            i <= v.len(),
            view_seq(r@) == view_seq(v@.take(i as int)),
        decreases v.len() - i,
    {
        let ghost before = r@;
        r.push(v[i].clone());
        proof {
            lemma_view_seq_take(v@, i as int);
            assert(view_seq(r@) =~= view_seq(before).push(v@[i as int]@));
        }
        i += 1;
    }
    proof {
        assert(v@.take(i as int) =~= v@);
    }
    r
}

/// The definition of a struct type.
#[derive(Debug, PartialEq)]
pub struct StructDef {
    /// The name of the struct, if it has one.
    pub name: Option<String>,
    /// Its fields, in order.
    pub fields: Vec<StructFieldSpecifier>,
}

/// The model of [`StructDef`].
pub ghost struct StructDefView {
    pub name: Option<Seq<char>>,
    pub fields: Seq<StructFieldSpecifierView>,
}

impl View for StructDef {
    type V = StructDefView;

    open spec fn view(&self) -> StructDefView {
        StructDefView {
            name: view_opt(self.name),
            fields: view_seq(self.fields@),
        }
    }
}

impl Clone for StructDef {
    fn clone(&self) -> (r: Self)
        ensures
            r@ == self@,
    {
        StructDef {
            name: clone_opt_string(&self.name),
            fields: clone_vec_struct_field_specifier(&self.fields),
        }
    }
}


/// A type without its array size.
#[derive(Debug, PartialEq)]
pub enum DataType {
    /// The four-component float vector.
    Vec4,
    /// A type known by its name.
    TypeName(String),
    /// A struct defined in place.
    Struct(StructDef),
    /// Any other built-in type.
    Other(glsl::syntax::TypeSpecifierNonArray),
}

/// The model of [`DataType`].
pub ghost enum DataTypeView {
    Vec4,
    TypeName(Seq<char>),
    Struct(StructDefView),
    Other(glsl::syntax::TypeSpecifierNonArray),
}

impl View for DataType {
    type V = DataTypeView;

    open spec fn view(&self) -> DataTypeView {
        match *self {
            DataType::Vec4 => DataTypeView::Vec4,
            DataType::TypeName(a) => DataTypeView::TypeName(a@),
            DataType::Struct(a) => DataTypeView::Struct(a@),
            DataType::Other(a) => DataTypeView::Other(a),
        }
    }
}

impl Clone for DataType {
    fn clone(&self) -> (r: Self)
        ensures
            r@ == self@,
    {
        match self {
            DataType::Vec4 => DataType::Vec4,
            DataType::TypeName(a) => DataType::TypeName(a.clone()),
            DataType::Struct(a) => DataType::Struct(a.clone()),
            DataType::Other(a) => DataType::Other(a.clone()),
        }
    }
}

/// A type with its optional array size.
#[derive(Debug, PartialEq)]
pub struct TypeSpecifier {
    /// The type.
    pub ty: DataType,
    /// Its array size, if any.
    pub array_specifier: Option<glsl::syntax::ArraySpecifier>,
}

/// The model of [`TypeSpecifier`].
pub ghost struct TypeSpecifierView {
    pub ty: DataTypeView,
    pub array_specifier: Option<glsl::syntax::ArraySpecifier>,
}

impl View for TypeSpecifier {
    type V = TypeSpecifierView;

    open spec fn view(&self) -> TypeSpecifierView {
        TypeSpecifierView {
            ty: self.ty@,
            array_specifier: self.array_specifier,
        }
    }
}

impl Clone for TypeSpecifier {
    fn clone(&self) -> (r: Self)
        ensures
            r@ == self@,
    {
        TypeSpecifier {
            ty: self.ty.clone(),
            array_specifier: clone_opt_array_specifier(&self.array_specifier),
        }
    }
}

/// A type with its optional qualifier.
#[derive(Debug, PartialEq)]
pub struct FullySpecifiedType {
    /// The qualifier, if any.
    pub qualifier: Option<TypeQualifier>,
    /// The type.
    pub ty: TypeSpecifier,
}

/// The model of [`FullySpecifiedType`].
pub ghost struct FullySpecifiedTypeView {
    pub qualifier: Option<Seq<QualifierSpec>>,
    pub ty: TypeSpecifierView,
}

impl View for FullySpecifiedType {
    type V = FullySpecifiedTypeView;

    open spec fn view(&self) -> FullySpecifiedTypeView {
        FullySpecifiedTypeView {
            qualifier: view_opt(self.qualifier),
            ty: self.ty@,
        }
    }
}

impl Clone for FullySpecifiedType {
    fn clone(&self) -> (r: Self)
        ensures
            r@ == self@,
    {
        FullySpecifiedType {
            qualifier: clone_opt_type_qualifier(&self.qualifier),
            ty: self.ty.clone(),
        }
    }
}

/// The declaration of at most one name.
#[derive(Debug, PartialEq)]
pub struct SingleDeclaration {
    /// The declared type.
    pub ty: FullySpecifiedType,
    /// The declared name, if any.
    pub name: Option<String>,
    /// Its array size, if any.
    pub array_specifier: Option<glsl::syntax::ArraySpecifier>,
    /// Its initial value, if any.
    pub initializer: Option<glsl::syntax::Initializer>,
}

/// The model of [`SingleDeclaration`].
pub ghost struct SingleDeclarationView {
    pub ty: FullySpecifiedTypeView,
    pub name: Option<Seq<char>>,
    pub array_specifier: Option<glsl::syntax::ArraySpecifier>,
    pub initializer: Option<glsl::syntax::Initializer>,
}

impl View for SingleDeclaration {
    type V = SingleDeclarationView;

    open spec fn view(&self) -> SingleDeclarationView {
        SingleDeclarationView {
            ty: self.ty@,
            name: view_opt(self.name),
            array_specifier: self.array_specifier,
            initializer: self.initializer,
        }
    }
}

impl Clone for SingleDeclaration {
    fn clone(&self) -> (r: Self)
        ensures
            r@ == self@,
    {
        SingleDeclaration {
            ty: self.ty.clone(),
            name: clone_opt_string(&self.name),
            array_specifier: clone_opt_array_specifier(&self.array_specifier),
            initializer: clone_opt_initializer(&self.initializer),
        }
    }
}


/// A further name in a declaration, sharing the type of the first.
#[derive(Debug, PartialEq)]
pub struct SingleDeclarationNoType {
    /// The declared name.
    pub name: String,
    /// Its array size, if any.
    pub array_specifier: Option<glsl::syntax::ArraySpecifier>,
    /// Its initial value, if any.
    pub initializer: Option<glsl::syntax::Initializer>,
}

/// The model of [`SingleDeclarationNoType`].
pub ghost struct SingleDeclarationNoTypeView {
    pub name: Seq<char>,
    pub array_specifier: Option<glsl::syntax::ArraySpecifier>,
    pub initializer: Option<glsl::syntax::Initializer>,
}

impl View for SingleDeclarationNoType {
    type V = SingleDeclarationNoTypeView;

    open spec fn view(&self) -> SingleDeclarationNoTypeView {
        SingleDeclarationNoTypeView {
            name: self.name@,
            array_specifier: self.array_specifier,
            initializer: self.initializer,
        }
    }
}

impl Clone for SingleDeclarationNoType {
    fn clone(&self) -> (r: Self)
        ensures
            r@ == self@,
    {
        SingleDeclarationNoType {
            name: self.name.clone(),
            array_specifier: clone_opt_array_specifier(&self.array_specifier),
            initializer: clone_opt_initializer(&self.initializer),
        }
    }
}

/// A copy of a list of [`SingleDeclarationNoType`], element by element.
pub fn clone_vec_single_declaration_no_type(v: &Vec<SingleDeclarationNoType>) -> (r: Vec<SingleDeclarationNoType>)
    ensures
        view_seq(r@) == view_seq(v@),
{
    let mut r: Vec<SingleDeclarationNoType> = Vec::new();
    let mut i: usize = 0;
    proof {
        assert(view_seq(r@) =~= view_seq(v@.take(0)));
    }
    while i < v.len()
        invariant
            i <= v.len(),
            view_seq(r@) == view_seq(v@.take(i as int)),
        decreases v.len() - i,
    {
        let ghost before = r@;
        r.push(v[i].clone());
        proof {
            lemma_view_seq_take(v@, i as int);
            assert(view_seq(r@) =~= view_seq(before).push(v@[i as int]@));
        }
        i += 1;
    }
    proof {
        assert(v@.take(i as int) =~= v@);
    }
    r
}

/// A declaration of one or more names that share one type.
#[derive(Debug, PartialEq)]
pub struct InitDeclaratorList {
    /// The first declaration, which carries the type.
    pub head: SingleDeclaration,
    /// The further names.
    pub tail: Vec<SingleDeclarationNoType>,
}

/// The model of [`InitDeclaratorList`].
pub ghost struct InitDeclaratorListView {
    pub head: SingleDeclarationView,
    pub tail: Seq<SingleDeclarationNoTypeView>,
}

impl View for InitDeclaratorList {
    type V = InitDeclaratorListView;

    open spec fn view(&self) -> InitDeclaratorListView {
        InitDeclaratorListView {
            head: self.head@,
            tail: view_seq(self.tail@),
        }
    }
}

impl Clone for InitDeclaratorList {
    fn clone(&self) -> (r: Self)
        ensures
            r@ == self@,
    {
        InitDeclaratorList {
            head: self.head.clone(),
            tail: clone_vec_single_declaration_no_type(&self.tail),
        }
    }
}

/// The type and name of a named parameter.
#[derive(Debug, PartialEq)]
pub struct FunctionParameterDeclarator {
    /// The type of the parameter.
    pub ty: TypeSpecifier,
    /// Its name.
    pub name: String,
    /// Its array size, if any.
    pub array_spec: Option<glsl::syntax::ArraySpecifier>,
}

/// The model of [`FunctionParameterDeclarator`].
pub ghost struct FunctionParameterDeclaratorView {
    pub ty: TypeSpecifierView,
    pub name: Seq<char>,
    pub array_spec: Option<glsl::syntax::ArraySpecifier>,
}

impl View for FunctionParameterDeclarator {
    type V = FunctionParameterDeclaratorView;

    open spec fn view(&self) -> FunctionParameterDeclaratorView {
        FunctionParameterDeclaratorView {
            ty: self.ty@,
            name: self.name@,
            array_spec: self.array_spec,
        }
    }
}

impl Clone for FunctionParameterDeclarator {
    fn clone(&self) -> (r: Self)
        ensures
            r@ == self@,
    {
        FunctionParameterDeclarator {
            ty: self.ty.clone(),
            name: self.name.clone(),
            array_spec: clone_opt_array_specifier(&self.array_spec),
        }
    }
}

/// A parameter of a function.
#[derive(Debug, PartialEq)]
pub enum FunctionParameterDeclaration {
    /// A parameter with a name.
    Named(Option<TypeQualifier>, FunctionParameterDeclarator),
    /// A parameter without a name.
    Unnamed(Option<TypeQualifier>, TypeSpecifier),
}

/// The model of [`FunctionParameterDeclaration`].
pub ghost enum FunctionParameterDeclarationView {
    Named(Option<Seq<QualifierSpec>>, FunctionParameterDeclaratorView),
    Unnamed(Option<Seq<QualifierSpec>>, TypeSpecifierView),
}

impl View for FunctionParameterDeclaration {
    type V = FunctionParameterDeclarationView;

    open spec fn view(&self) -> FunctionParameterDeclarationView {
        match *self {
            FunctionParameterDeclaration::Named(a, b) => FunctionParameterDeclarationView::Named(view_opt(a), b@),
            FunctionParameterDeclaration::Unnamed(a, b) => FunctionParameterDeclarationView::Unnamed(view_opt(a), b@),
        }
    }
}

impl Clone for FunctionParameterDeclaration {
    fn clone(&self) -> (r: Self)
        ensures
            r@ == self@,
    {
        match self {
            FunctionParameterDeclaration::Named(a, b) => FunctionParameterDeclaration::Named(clone_opt_type_qualifier(a), b.clone()),
            FunctionParameterDeclaration::Unnamed(a, b) => FunctionParameterDeclaration::Unnamed(clone_opt_type_qualifier(a), b.clone()),
        }
    }
}

/// A copy of a list of [`FunctionParameterDeclaration`], element by element.
pub fn clone_vec_function_parameter_declaration(v: &Vec<FunctionParameterDeclaration>) -> (r: Vec<FunctionParameterDeclaration>)
    ensures
        view_seq(r@) == view_seq(v@),
{
    let mut r: Vec<FunctionParameterDeclaration> = Vec::new();
    let mut i: usize = 0;
    proof {
        assert(view_seq(r@) =~= view_seq(v@.take(0)));
    }
    while i < v.len()
        invariant
            i <= v.len(),
            view_seq(r@) == view_seq(v@.take(i as int)),
        decreases v.len() - i,
    {
        let ghost before = r@;
        r.push(v[i].clone());
        proof {
            lemma_view_seq_take(v@, i as int);
            assert(view_seq(r@) =~= view_seq(before).push(v@[i as int]@));
        }
        i += 1;
    }
    proof {
        assert(v@.take(i as int) =~= v@);
    }
    r
}

/// The signature of a function.
#[derive(Debug, PartialEq)]
pub struct FunctionPrototype {
    /// The return type.
    pub ty: FullySpecifiedType,
    /// The name of the function.
    pub name: String,
    /// The parameters, in order.
    pub parameters: Vec<FunctionParameterDeclaration>,
}

/// The model of [`FunctionPrototype`].
pub ghost struct FunctionPrototypeView {
    pub ty: FullySpecifiedTypeView,
    pub name: Seq<char>,
    pub parameters: Seq<FunctionParameterDeclarationView>,
}

impl View for FunctionPrototype {
    type V = FunctionPrototypeView;

    open spec fn view(&self) -> FunctionPrototypeView {
        FunctionPrototypeView {
            ty: self.ty@,
            name: self.name@,
            parameters: view_seq(self.parameters@),
        }
    }
}

impl Clone for FunctionPrototype {
    fn clone(&self) -> (r: Self)
        ensures
            r@ == self@,
    {
        FunctionPrototype {
            ty: self.ty.clone(),
            name: self.name.clone(),
            parameters: clone_vec_function_parameter_declaration(&self.parameters),
        }
    }
}

/// A function with its body.
#[derive(Debug, PartialEq)]
pub struct FunctionDefinition {
    /// The signature.
    pub prototype: FunctionPrototype,
    /// The body.
    pub statement: glsl::syntax::CompoundStatement,
}

/// The model of [`FunctionDefinition`].
pub ghost struct FunctionDefinitionView {
    pub prototype: FunctionPrototypeView,
    pub statement: glsl::syntax::CompoundStatement,
}

impl View for FunctionDefinition {
    type V = FunctionDefinitionView;

    open spec fn view(&self) -> FunctionDefinitionView {
        FunctionDefinitionView {
            prototype: self.prototype@,
            statement: self.statement,
        }
    }
}

impl Clone for FunctionDefinition {
    fn clone(&self) -> (r: Self)
        ensures
            r@ == self@,
    {
        FunctionDefinition {
            prototype: self.prototype.clone(),
            statement: self.statement.clone(),
        }
    }
}


/// One top-level declaration of a module.
#[derive(Debug, PartialEq)]
pub enum ExternalDeclaration {
    /// A function definition.
    FunctionDefinition(FunctionDefinition),
    /// A declaration of variables, or of a struct type.
    InitDeclaratorList(InitDeclaratorList),
    /// An interface block.
    Block(glsl::syntax::Block),
    /// Any other declaration.
    Declaration(glsl::syntax::Declaration),
    /// A preprocessor directive.
    Preprocessor(glsl::syntax::Preprocessor),
}

/// The model of [`ExternalDeclaration`].
pub ghost enum ExternalDeclarationView {
    FunctionDefinition(FunctionDefinitionView),
    InitDeclaratorList(InitDeclaratorListView),
    Block(glsl::syntax::Block),
    Declaration(glsl::syntax::Declaration),
    Preprocessor(glsl::syntax::Preprocessor),
}

impl View for ExternalDeclaration {
    type V = ExternalDeclarationView;

    open spec fn view(&self) -> ExternalDeclarationView {
        match *self {
            ExternalDeclaration::FunctionDefinition(a) => ExternalDeclarationView::FunctionDefinition(a@),
            ExternalDeclaration::InitDeclaratorList(a) => ExternalDeclarationView::InitDeclaratorList(a@),
            ExternalDeclaration::Block(a) => ExternalDeclarationView::Block(a),
            ExternalDeclaration::Declaration(a) => ExternalDeclarationView::Declaration(a),
            ExternalDeclaration::Preprocessor(a) => ExternalDeclarationView::Preprocessor(a),
        }
    }
}

impl Clone for ExternalDeclaration {
    fn clone(&self) -> (r: Self)
        ensures
            r@ == self@,
    {
        match self {
            ExternalDeclaration::FunctionDefinition(a) => ExternalDeclaration::FunctionDefinition(a.clone()),
            ExternalDeclaration::InitDeclaratorList(a) => ExternalDeclaration::InitDeclaratorList(a.clone()),
            ExternalDeclaration::Block(a) => ExternalDeclaration::Block(a.clone()),
            ExternalDeclaration::Declaration(a) => ExternalDeclaration::Declaration(a.clone()),
            ExternalDeclaration::Preprocessor(a) => ExternalDeclaration::Preprocessor(a.clone()),
        }
    }
}

/// A copy of a list of [`ExternalDeclaration`], element by element.
pub fn clone_vec_external_declaration(v: &Vec<ExternalDeclaration>) -> (r: Vec<ExternalDeclaration>)
    ensures
        view_seq(r@) == view_seq(v@),
{
    let mut r: Vec<ExternalDeclaration> = Vec::new();
    let mut i: usize = 0;
    proof {
        assert(view_seq(r@) =~= view_seq(v@.take(0)));
    }
    while i < v.len()
        invariant
            i <= v.len(),
            view_seq(r@) == view_seq(v@.take(i as int)),
        decreases v.len() - i,
    {
        let ghost before = r@;
        r.push(v[i].clone());
        proof {
            lemma_view_seq_take(v@, i as int);
            assert(view_seq(r@) =~= view_seq(before).push(v@[i as int]@));
        }
        i += 1;
    }
    proof {
        assert(v@.take(i as int) =~= v@);
    }
    r
}

} // verus!
