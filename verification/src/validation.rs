//! Validation of a schema. Every problem that one pass can find is reported:
//! the result is either the schema or the full list of what is wrong with it,
//! in a fixed order.
//!
//! The order is: type names that are declared twice, in source order; then,
//! object type by object type, its interfaces, its `id` field and its
//! annotations; then names of full-text indexes that are used twice; then
//! import aliases that are used twice.

use crate::ast::{
    base_type, entry_value, field_named, fields_view,
    names_view, values_view, Definition, DefinitionView, Directive, DirectiveView,
    Document, DocumentView, Field, FieldView, ObjectType, ObjectTypeView,
    Value, ValueView,
};
use crate::fulltext::{
    algorithm_of, fulltext_algorithm_token, fulltext_fields, fulltext_name, included_field_name,
    read_fulltext_fields, read_included_field, FulltextAlgorithm,
};
use crate::import::{imported_type_of, schema_reference_of, ImportedType, SchemaReference};
use crate::index::index_of;
use crate::schema::Schema;
use crate::text::{owned, str_eq};
use vstd::prelude::*;
use vstd::string::StringExecFns;

verus! {

/// A list of names, written with `, ` between them.
#[derive(Debug, PartialEq, Eq)]
pub struct Strings(pub Vec<String>);

impl View for Strings {
    type V = Seq<Seq<char>>;

    open spec fn view(&self) -> Seq<Seq<char>> {
        names_view(self.0@)
    }
}

/// The first `n` names, with `, ` between them.
pub open spec fn joined(names: Seq<Seq<char>>, n: int) -> Seq<char>
    decreases n,
{
    if n <= 0 {
        Seq::empty()
    } else if n == 1 {
        names[0]
    } else {
        joined(names, n - 1) + ", "@ + names[n - 1]
    }
}

impl Clone for Strings {
    fn clone(&self) -> (r: Self)
        ensures
            r@ == self@,
    {
        Strings(crate::ast::clone_names(&self.0))
    }
}

impl Strings {
    /// The names with `, ` between them.
    pub fn to_string(&self) -> (text: String)
        ensures
            text@ == joined(self@, self@.len() as int),
    {
        let mut text = String::new();
        let mut i: usize = 0;
        while i < self.0.len()
            invariant
                i <= self.0.len(),
                text@ == joined(self@, i as int),
            decreases self.0.len() - i,
        {
            if i > 0 {
                text = text.concat(", ");
            }
            text = text.concat(self.0[i].as_str());
            assert(self@[i as int] == self.0@[i as int]@);
            assert(text@ =~= joined(self@, i + 1));
            i += 1;
        }
        text
    }
}

/// One thing that is wrong with a schema.
#[derive(Debug, PartialEq, Eq)]
pub enum SchemaValidationError {
    /// An object type implements an interface that is not declared: the
    /// interface.
    InterfaceUndefined(String),
    /// An object type lacks fields of an interface it implements, or has them
    /// with another type: the object type, the interface, the fields.
    InterfaceFieldsMissing(String, String, Strings),
    /// An object type has no `id` field: the type.
    IdFieldMissing(String),
    /// The `id` field of an object type is not an `ID`, a `String` or
    /// `Bytes`: the object type, and the type of its `id` field.
    IllegalIdType(String, String),
    /// A type name is declared a second time: the name.
    DuplicateTypeName(String),
    /// A full-text annotation has no string `name`: the annotated type.
    FulltextNameUndefined(String),
    /// A full-text annotation has no `algorithm` token: the annotated type.
    FulltextAlgorithmUndefined(String),
    /// The `algorithm` of a full-text annotation is neither `rank` nor
    /// `proximityRank`: the token.
    FulltextAlgorithmInvalid(String),
    /// The `include` argument of a full-text annotation is not a list of
    /// exactly one object with a non-empty `fields` list of named fields:
    /// the annotated type.
    FulltextIncludeInvalid(String),
    /// A full-text annotation includes a field that the annotated type does
    /// not have: the type, the field.
    FulltextIncludedFieldInvalid(String, String),
    /// The name of a full-text index is used a second time: the name.
    FulltextNameDuplicate(String),
    /// The `types` argument of an import is not a list, or one of its entries
    /// is neither a name nor a name with an alias: the annotated type.
    ImportedTypeInvalid(String),
    /// The `from` argument of an import does not name a deployment: the
    /// annotated type.
    ImportedSchemaInvalid(String),
    /// An import alias is used a second time: the alias.
    ImportAliasCollision(String),
}

/// The view of a [`SchemaValidationError`].
pub enum ValidationErrorView {
    InterfaceUndefined(Seq<char>),
    InterfaceFieldsMissing(Seq<char>, Seq<char>, Seq<Seq<char>>),
    IdFieldMissing(Seq<char>),
    IllegalIdType(Seq<char>, Seq<char>),
    DuplicateTypeName(Seq<char>),
    FulltextNameUndefined(Seq<char>),
    FulltextAlgorithmUndefined(Seq<char>),
    FulltextAlgorithmInvalid(Seq<char>),
    FulltextIncludeInvalid(Seq<char>),
    FulltextIncludedFieldInvalid(Seq<char>, Seq<char>),
    FulltextNameDuplicate(Seq<char>),
    ImportedTypeInvalid(Seq<char>),
    ImportedSchemaInvalid(Seq<char>),
    ImportAliasCollision(Seq<char>),
}

impl View for SchemaValidationError {
    type V = ValidationErrorView;

    open spec fn view(&self) -> ValidationErrorView {
        match self {
            SchemaValidationError::InterfaceUndefined(i) => ValidationErrorView::InterfaceUndefined(
                i@,
            ),
            SchemaValidationError::InterfaceFieldsMissing(t, i, fields) => {
                ValidationErrorView::InterfaceFieldsMissing(t@, i@, fields@)
            },
            SchemaValidationError::IdFieldMissing(t) => ValidationErrorView::IdFieldMissing(t@),
            SchemaValidationError::IllegalIdType(t, declared) => ValidationErrorView::IllegalIdType(
                t@,
                declared@,
            ),
            SchemaValidationError::DuplicateTypeName(n) => ValidationErrorView::DuplicateTypeName(
                n@,
            ),
            SchemaValidationError::FulltextNameUndefined(t) => {
                ValidationErrorView::FulltextNameUndefined(t@)
            },
            SchemaValidationError::FulltextAlgorithmUndefined(t) => {
                ValidationErrorView::FulltextAlgorithmUndefined(t@)
            },
            SchemaValidationError::FulltextAlgorithmInvalid(token) => {
                ValidationErrorView::FulltextAlgorithmInvalid(token@)
            },
            SchemaValidationError::FulltextIncludeInvalid(t) => {
                ValidationErrorView::FulltextIncludeInvalid(t@)
            },
            SchemaValidationError::FulltextIncludedFieldInvalid(t, field) => {
                ValidationErrorView::FulltextIncludedFieldInvalid(t@, field@)
            },
            SchemaValidationError::FulltextNameDuplicate(n) => {
                ValidationErrorView::FulltextNameDuplicate(n@)
            },
            SchemaValidationError::ImportedTypeInvalid(t) => {
                ValidationErrorView::ImportedTypeInvalid(t@)
            },
            SchemaValidationError::ImportedSchemaInvalid(t) => {
                ValidationErrorView::ImportedSchemaInvalid(t@)
            },
            SchemaValidationError::ImportAliasCollision(alias) => {
                ValidationErrorView::ImportAliasCollision(alias@)
            },
        }
    }
}

impl ValidationErrorView {
    /// The error in words.
    pub open spec fn message(self) -> Seq<char> {
        match self {
            ValidationErrorView::InterfaceUndefined(i) => "Interface `"@ + i + "` not defined"@,
            ValidationErrorView::InterfaceFieldsMissing(t, i, fields) => "Entity type `"@ + t
                + "` does not satisfy interface `"@ + i
                + "` because it is missing the following fields: "@ + joined(
                fields,
                fields.len() as int,
            ),
            ValidationErrorView::IdFieldMissing(t) => "Entity type `"@ + t
                + "` does not have an `id` field"@,
            ValidationErrorView::IllegalIdType(t, declared) => "Entity type `"@ + t
                + "` uses illegal type `"@ + declared + "` for its `id` field"@,
            ValidationErrorView::DuplicateTypeName(n) => "Type `"@ + n + "` is defined twice"@,
            ValidationErrorView::FulltextNameUndefined(t) => "Fulltext directive on `"@ + t
                + "` has no name"@,
            ValidationErrorView::FulltextAlgorithmUndefined(t) => "Fulltext directive on `"@ + t
                + "` has no algorithm"@,
            ValidationErrorView::FulltextAlgorithmInvalid(token) => "Fulltext algorithm is invalid: "@
                + token,
            ValidationErrorView::FulltextIncludeInvalid(t) => "Fulltext directive on `"@ + t
                + "` has an invalid include list"@,
            ValidationErrorView::FulltextIncludedFieldInvalid(t, field) => "Fulltext field `"@
                + field + "` not found on `"@ + t + "`"@,
            ValidationErrorView::FulltextNameDuplicate(n) => "Fulltext name `"@ + n
                + "` is used twice"@,
            ValidationErrorView::ImportedTypeInvalid(t) => "Import on `"@ + t
                + "` has an invalid list of types"@,
            ValidationErrorView::ImportedSchemaInvalid(t) => "Import on `"@ + t
                + "` does not name a schema to import from"@,
            ValidationErrorView::ImportAliasCollision(alias) => "Import alias `"@ + alias
                + "` is used twice"@,
        }
    }
}

impl SchemaValidationError {
    /// The error in words.
    pub fn to_string(&self) -> (message: String)
        ensures
            message@ == self@.message(),
    {
        match self {
            SchemaValidationError::InterfaceUndefined(i) => String::from_str("Interface `").concat(
                i.as_str(),
            ).concat("` not defined"),
            SchemaValidationError::InterfaceFieldsMissing(t, i, fields) => {
                let listed = fields.to_string();
                String::from_str("Entity type `").concat(t.as_str()).concat(
                    "` does not satisfy interface `",
                ).concat(i.as_str()).concat(
                    "` because it is missing the following fields: ",
                ).concat(listed.as_str())
            },
            SchemaValidationError::IdFieldMissing(t) => String::from_str("Entity type `").concat(
                t.as_str(),
            ).concat("` does not have an `id` field"),
            SchemaValidationError::IllegalIdType(t, declared) => String::from_str(
                "Entity type `",
            ).concat(t.as_str()).concat("` uses illegal type `").concat(declared.as_str()).concat(
                "` for its `id` field",
            ),
            SchemaValidationError::DuplicateTypeName(n) => String::from_str("Type `").concat(
                n.as_str(),
            ).concat("` is defined twice"),
            SchemaValidationError::FulltextNameUndefined(t) => String::from_str(
                "Fulltext directive on `",
            ).concat(t.as_str()).concat("` has no name"),
            SchemaValidationError::FulltextAlgorithmUndefined(t) => String::from_str(
                "Fulltext directive on `",
            ).concat(t.as_str()).concat("` has no algorithm"),
            SchemaValidationError::FulltextAlgorithmInvalid(token) => String::from_str(
                "Fulltext algorithm is invalid: ",
            ).concat(token.as_str()),
            SchemaValidationError::FulltextIncludeInvalid(t) => String::from_str(
                "Fulltext directive on `",
            ).concat(t.as_str()).concat("` has an invalid include list"),
            SchemaValidationError::FulltextIncludedFieldInvalid(t, field) => String::from_str(
                "Fulltext field `",
            ).concat(field.as_str()).concat("` not found on `").concat(t.as_str()).concat("`"),
            SchemaValidationError::FulltextNameDuplicate(n) => String::from_str(
                "Fulltext name `",
            ).concat(n.as_str()).concat("` is used twice"),
            SchemaValidationError::ImportedTypeInvalid(t) => String::from_str(
                "Import on `",
            ).concat(t.as_str()).concat("` has an invalid list of types"),
            SchemaValidationError::ImportedSchemaInvalid(t) => String::from_str(
                "Import on `",
            ).concat(t.as_str()).concat("` does not name a schema to import from"),
            SchemaValidationError::ImportAliasCollision(alias) => String::from_str(
                "Import alias `",
            ).concat(alias.as_str()).concat("` is used twice"),
        }
    }
}

/// The view of a list of errors.
pub open spec fn errors_view(errors: Seq<SchemaValidationError>) -> Seq<ValidationErrorView> {
    Seq::new(errors.len(), |i: int| errors[i]@)
}

// Names that are used twice.

/// Whether the name at position `n` stands at an earlier position too.
pub open spec fn occurs_before(names: Seq<Seq<char>>, n: int) -> bool {
    exists|i: int| 0 <= i < n && #[trigger] names[i] == names[n]
}

/// The names among the first `n` that stand at an earlier position too, each
/// as often as it is repeated.
pub open spec fn repeats(names: Seq<Seq<char>>, n: int) -> Seq<Seq<char>>
    decreases n,
{
    if n <= 0 {
        Seq::empty()
    } else if occurs_before(names, n - 1) {
        repeats(names, n - 1).push(names[n - 1])
    } else {
        repeats(names, n - 1)
    }
}

/// The names that are used twice.
fn repeated_names(names: &Vec<String>) -> (r: Vec<String>)
    ensures
        names_view(r@) == repeats(names_view(names@), names@.len() as int),
{
    let ghost all = names_view(names@);
    let mut r: Vec<String> = Vec::new();
    let mut n: usize = 0;
    assert(names_view(r@) =~= repeats(all, 0));
    while n < names.len()
        invariant
            n <= names.len(),
            all == names_view(names@),
            names_view(r@) == repeats(all, n as int),
        decreases names.len() - n,
    {
        let mut seen = false;
        let mut i: usize = 0;
        while i < n && !seen
            invariant
                i <= n < names.len(),
                all == names_view(names@),
                seen ==> occurs_before(all, n as int),
                !seen ==> forall|j: int| 0 <= j < i ==> #[trigger] all[j] != all[n as int],
            decreases n - i + (if seen { 0int } else { 1int }),
        {
            if str_eq(names[i].as_str(), names[n].as_str()) {
                assert(all[i as int] == all[n as int]);
                seen = true;
            } else {
                i += 1;
            }
        }
        if seen {
            r.push(names[n].clone());
            assert(names_view(r@) =~= repeats(all, n as int).push(all[n as int]));
        }
        n += 1;
    }
    r
}

// Interfaces.

/// Whether the fields of an object type satisfy a field of an interface: one
/// of them has its name and its type.
pub open spec fn satisfies(fields: Seq<FieldView>, wanted: FieldView) -> bool {
    exists|j: int|
        0 <= j < fields.len() && (#[trigger] fields[j]).name == wanted.name && fields[j].field_type
            == wanted.field_type
}

/// The names of those among the first `k` fields of an interface that the
/// fields of an object type do not satisfy.
pub open spec fn missing_fields(fields: Seq<FieldView>, wanted: Seq<FieldView>, k: int) -> Seq<
    Seq<char>,
>
    decreases k,
{
    if k <= 0 {
        Seq::empty()
    } else if satisfies(fields, wanted[k - 1]) {
        missing_fields(fields, wanted, k - 1)
    } else {
        missing_fields(fields, wanted, k - 1).push(wanted[k - 1].name)
    }
}

/// What is wrong with the way an object type implements the interface named
/// `name`.
pub open spec fn interface_errors(doc: DocumentView, object: ObjectTypeView, name: Seq<char>) -> Seq<
    ValidationErrorView,
> {
    match doc.interface_type(name) {
        None => seq![ValidationErrorView::InterfaceUndefined(name)],
        Some(interface) => {
            let missing = missing_fields(
                object.fields,
                interface.fields,
                interface.fields.len() as int,
            );
            if missing.len() > 0 {
                seq![ValidationErrorView::InterfaceFieldsMissing(object.name, name, missing)]
            } else {
                Seq::empty()
            }
        },
    }
}

/// What is wrong with the first `m` interfaces of an object type.
pub open spec fn interfaces_errors(doc: DocumentView, object: ObjectTypeView, m: int) -> Seq<
    ValidationErrorView,
>
    decreases m,
{
    if m <= 0 {
        Seq::empty()
    } else {
        interfaces_errors(doc, object, m - 1) + interface_errors(
            doc,
            object,
            object.implements_interfaces[m - 1],
        )
    }
}

/// Whether the fields of an object type satisfy a field of an interface.
fn field_satisfied(fields: &Vec<Field>, wanted: &Field) -> (ok: bool)
    ensures
        ok == satisfies(fields_view(fields@), wanted@),
{
    let mut j: usize = 0;
    while j < fields.len()
        invariant
            j <= fields.len(),
            forall|k: int|
                0 <= k < j ==> !((#[trigger] fields_view(fields@)[k]).name == wanted@.name
                    && fields_view(fields@)[k].field_type == wanted@.field_type),
        decreases fields.len() - j,
    {
        if str_eq(fields[j].name.as_str(), wanted.name.as_str()) && fields[j].field_type.same_as(
            &wanted.field_type,
        ) {
            assert(fields_view(fields@)[j as int].name == wanted@.name);
            return true;
        }
        j += 1;
    }
    false
}

/// What is wrong with the interfaces of an object type.
fn check_interfaces(document: &Document, object: &ObjectType) -> (errors: Vec<
    SchemaValidationError,
>)
    ensures
        errors_view(errors@) == interfaces_errors(
            document@,
            object@,
            object@.implements_interfaces.len() as int,
        ),
{
    let mut errors: Vec<SchemaValidationError> = Vec::new();
    let mut m: usize = 0;
    assert(errors_view(errors@) =~= interfaces_errors(document@, object@, 0));
    while m < object.implements_interfaces.len()
        invariant
            m <= object.implements_interfaces.len(),
            errors_view(errors@) == interfaces_errors(document@, object@, m as int),
        decreases object.implements_interfaces.len() - m,
    {
        let name = object.implements_interfaces[m].as_str();
        assert(object@.implements_interfaces[m as int] == name@);
        let ghost before = errors_view(errors@);
        match document.get_interface_type(name) {
            None => {
                errors.push(SchemaValidationError::InterfaceUndefined(owned(name)));
                assert(errors_view(errors@) =~= before + interface_errors(
                    document@,
                    object@,
                    name@,
                ));
            },
            Some(interface) => {
                let mut missing: Vec<String> = Vec::new();
                let mut k: usize = 0;
                assert(names_view(missing@) =~= missing_fields(
                    object@.fields,
                    interface@.fields,
                    0,
                ));
                while k < interface.fields.len()
                    invariant
                        k <= interface.fields.len(),
                        names_view(missing@) == missing_fields(
                            object@.fields,
                            interface@.fields,
                            k as int,
                        ),
                    decreases interface.fields.len() - k,
                {
                    assert(interface@.fields[k as int] == interface.fields@[k as int]@);
                    if !field_satisfied(&object.fields, &interface.fields[k]) {
                        let ghost so_far = names_view(missing@);
                        missing.push(interface.fields[k].name.clone());
                        assert(names_view(missing@) =~= so_far.push(
                            interface@.fields[k as int].name,
                        ));
                    }
                    k += 1;
                }
                if missing.len() > 0 {
                    errors.push(
                        SchemaValidationError::InterfaceFieldsMissing(
                            object.name.clone(),
                            owned(name),
                            Strings(missing),
                        ),
                    );
                    assert(errors_view(errors@) =~= before + interface_errors(
                        document@,
                        object@,
                        name@,
                    ));
                } else {
                    assert(errors_view(errors@) =~= before + interface_errors(
                        document@,
                        object@,
                        name@,
                    ));
                }
            },
        }
        m += 1;
    }
    errors
}

// The id field.

/// Whether an `id` field may have this type.
pub open spec fn legal_id_type(declared: Seq<char>) -> bool {
    declared == "ID"@ || declared == "String"@ || declared == "Bytes"@
}

/// What is wrong with the `id` field of an object type.
pub open spec fn id_errors(object: ObjectTypeView) -> Seq<ValidationErrorView> {
    match field_named(object.fields, "id"@) {
        None => seq![ValidationErrorView::IdFieldMissing(object.name)],
        Some(field) => {
            let declared = base_type(field.field_type);
            if legal_id_type(declared) {
                Seq::empty()
            } else {
                seq![ValidationErrorView::IllegalIdType(object.name, declared)]
            }
        },
    }
}

/// What is wrong with the `id` field of an object type.
fn check_id(object: &ObjectType) -> (errors: Vec<SchemaValidationError>)
    ensures
        errors_view(errors@) == id_errors(object@),
{
    let mut errors: Vec<SchemaValidationError> = Vec::new();
    match object.field("id") {
        None => {
            errors.push(SchemaValidationError::IdFieldMissing(object.name.clone()));
        },
        Some(field) => {
            let declared = field.field_type.get_base_type();
            if !(str_eq(declared, "ID") || str_eq(declared, "String") || str_eq(
                declared,
                "Bytes",
            )) {
                errors.push(
                    SchemaValidationError::IllegalIdType(object.name.clone(), owned(declared)),
                );
            }
        },
    }
    assert(errors_view(errors@) =~= id_errors(object@));
    errors
}

// Full-text annotations.

/// What is wrong with the first `n` entries of the `fields` list of a
/// full-text annotation on `object`.
pub open spec fn included_fields_errors(object: ObjectTypeView, fields: Seq<ValueView>, n: int) -> Seq<
    ValidationErrorView,
>
    decreases n,
{
    if n <= 0 {
        Seq::empty()
    } else {
        let so_far = included_fields_errors(object, fields, n - 1);
        match included_field_name(fields[n - 1]) {
            None => so_far.push(ValidationErrorView::FulltextIncludeInvalid(object.name)),
            Some(field) => if field_named(object.fields, field) is Some {
                so_far
            } else {
                so_far.push(ValidationErrorView::FulltextIncludedFieldInvalid(object.name, field))
            },
        }
    }
}

/// What is wrong with a full-text annotation on `object`: with its name, then
/// with its algorithm, then with what it includes.
pub open spec fn fulltext_errors(object: ObjectTypeView, d: DirectiveView) -> Seq<
    ValidationErrorView,
> {
    let name_errors = if fulltext_name(d) is Some {
        Seq::empty()
    } else {
        seq![ValidationErrorView::FulltextNameUndefined(object.name)]
    };
    let algorithm_errors = match fulltext_algorithm_token(d) {
        None => seq![ValidationErrorView::FulltextAlgorithmUndefined(object.name)],
        Some(token) => if algorithm_of(token) is Some {
            Seq::empty()
        } else {
            seq![ValidationErrorView::FulltextAlgorithmInvalid(token)]
        },
    };
    let include_errors = match fulltext_fields(d) {
        None => seq![ValidationErrorView::FulltextIncludeInvalid(object.name)],
        Some(fields) => if fields.len() == 0 {
            seq![ValidationErrorView::FulltextIncludeInvalid(object.name)]
        } else {
            included_fields_errors(object, fields, fields.len() as int)
        },
    };
    name_errors + algorithm_errors + include_errors
}

/// What is wrong with a full-text annotation on `object`.
fn check_fulltext(object: &ObjectType, directive: &Directive) -> (errors: Vec<
    SchemaValidationError,
>)
    ensures
        errors_view(errors@) == fulltext_errors(object@, directive@),
{
    let mut errors: Vec<SchemaValidationError> = Vec::new();
    let named = match directive.argument("name") {
        Some(value) => value.as_str().is_some(),
        None => false,
    };
    if !named {
        errors.push(SchemaValidationError::FulltextNameUndefined(object.name.clone()));
    }
    let token = match directive.argument("algorithm") {
        Some(value) => value.as_enum(),
        None => None,
    };
    match token {
        None => {
            errors.push(SchemaValidationError::FulltextAlgorithmUndefined(object.name.clone()));
        },
        Some(token) => {
            if FulltextAlgorithm::try_from(token).is_err() {
                errors.push(SchemaValidationError::FulltextAlgorithmInvalid(owned(token)));
            }
        },
    }
    let ghost head = errors_view(errors@);
    match read_fulltext_fields(directive) {
        None => {
            errors.push(SchemaValidationError::FulltextIncludeInvalid(object.name.clone()));
        },
        Some(fields) => {
            if fields.len() == 0 {
                errors.push(SchemaValidationError::FulltextIncludeInvalid(object.name.clone()));
            } else {
                let ghost entries = values_view(fields@);
                let mut n: usize = 0;
                assert(errors_view(errors@) =~= head + included_fields_errors(
                    object@,
                    entries,
                    0,
                ));
                while n < fields.len()
                    invariant
                        n <= fields.len(),
                        entries == values_view(fields@),
                        errors_view(errors@) == head + included_fields_errors(
                            object@,
                            entries,
                            n as int,
                        ),
                    decreases fields.len() - n,
                {
                    assert(entries[n as int] == fields@[n as int]@);
                    let ghost so_far = errors_view(errors@);
                    match read_included_field(&fields[n]) {
                        None => {
                            errors.push(
                                SchemaValidationError::FulltextIncludeInvalid(object.name.clone()),
                            );
                            assert(errors_view(errors@) =~= so_far.push(
                                ValidationErrorView::FulltextIncludeInvalid(object@.name),
                            ));
                        },
                        Some(field) => {
                            if object.field(field).is_none() {
                                errors.push(
                                    SchemaValidationError::FulltextIncludedFieldInvalid(
                                        object.name.clone(),
                                        owned(field),
                                    ),
                                );
                                assert(errors_view(errors@) =~= so_far.push(
                                    ValidationErrorView::FulltextIncludedFieldInvalid(
                                        object@.name,
                                        field@,
                                    ),
                                ));
                            }
                        },
                    }
                    assert(errors_view(errors@) =~= head + included_fields_errors(
                        object@,
                        entries,
                        n + 1,
                    ));
                    n += 1;
                }
            }
        },
    }
    assert(errors_view(errors@) =~= fulltext_errors(object@, directive@));
    errors
}

// Import annotations.

/// The `types` list of an import annotation.
pub open spec fn import_types(d: DirectiveView) -> Option<Seq<ValueView>> {
    match entry_value(d.arguments, "types"@) {
        Some(ValueView::List(items)) => Some(items),
        _ => None,
    }
}

/// Whether the `from` argument of an import annotation names a deployment.
pub open spec fn import_source_named(d: DirectiveView) -> bool {
    match entry_value(d.arguments, "from"@) {
        Some(value) => schema_reference_of(value) is Some,
        None => false,
    }
}

/// What is wrong with the first `n` entries of the `types` list of an import
/// annotation on `object`.
pub open spec fn imported_types_errors(object: ObjectTypeView, items: Seq<ValueView>, n: int) -> Seq<
    ValidationErrorView,
>
    decreases n,
{
    if n <= 0 {
        Seq::empty()
    } else if imported_type_of(items[n - 1]) is Some {
        imported_types_errors(object, items, n - 1)
    } else {
        imported_types_errors(object, items, n - 1).push(
            ValidationErrorView::ImportedTypeInvalid(object.name),
        )
    }
}

/// What is wrong with an import annotation on `object`: with its types, then
/// with the schema it imports from.
pub open spec fn import_errors(object: ObjectTypeView, d: DirectiveView) -> Seq<
    ValidationErrorView,
> {
    let types_errors = match import_types(d) {
        None => seq![ValidationErrorView::ImportedTypeInvalid(object.name)],
        Some(items) => imported_types_errors(object, items, items.len() as int),
    };
    let source_errors = if import_source_named(d) {
        Seq::empty()
    } else {
        seq![ValidationErrorView::ImportedSchemaInvalid(object.name)]
    };
    types_errors + source_errors
}

/// The `types` list of an import annotation.
fn read_import_types(directive: &Directive) -> (items: Option<&Vec<Value>>)
    ensures
        match items {
            Some(l) => import_types(directive@) == Some(values_view(l@)),
            None => import_types(directive@) is None,
        },
{
    match directive.argument("types") {
        Some(value) => value.as_list(),
        None => None,
    }
}

/// What is wrong with an import annotation on `object`.
fn check_import(object: &ObjectType, directive: &Directive) -> (errors: Vec<
    SchemaValidationError,
>)
    ensures
        errors_view(errors@) == import_errors(object@, directive@),
{
    let mut errors: Vec<SchemaValidationError> = Vec::new();
    match read_import_types(directive) {
        None => {
            errors.push(SchemaValidationError::ImportedTypeInvalid(object.name.clone()));
        },
        Some(items) => {
            let ghost entries = values_view(items@);
            let mut n: usize = 0;
            assert(errors_view(errors@) =~= imported_types_errors(object@, entries, 0));
            while n < items.len()
                invariant
                    n <= items.len(),
                    entries == values_view(items@),
                    errors_view(errors@) == imported_types_errors(object@, entries, n as int),
                decreases items.len() - n,
            {
                assert(entries[n as int] == items@[n as int]@);
                if ImportedType::parse(&items[n]).is_none() {
                    let ghost so_far = errors_view(errors@);
                    errors.push(SchemaValidationError::ImportedTypeInvalid(object.name.clone()));
                    assert(errors_view(errors@) =~= so_far.push(
                        ValidationErrorView::ImportedTypeInvalid(object@.name),
                    ));
                }
                n += 1;
            }
        },
    }
    let ghost head = errors_view(errors@);
    let source_named = match directive.argument("from") {
        Some(value) => SchemaReference::parse(value).is_some(),
        None => false,
    };
    if !source_named {
        errors.push(SchemaValidationError::ImportedSchemaInvalid(object.name.clone()));
        assert(errors_view(errors@) =~= head.push(
            ValidationErrorView::ImportedSchemaInvalid(object@.name),
        ));
    }
    assert(errors_view(errors@) =~= import_errors(object@, directive@));
    errors
}

// One object type.

/// What is wrong with one annotation on `object`.
pub open spec fn directive_errors(object: ObjectTypeView, d: DirectiveView) -> Seq<
    ValidationErrorView,
> {
    if d.name == "fulltext"@ {
        fulltext_errors(object, d)
    } else if d.name == "import"@ {
        import_errors(object, d)
    } else {
        Seq::empty()
    }
}

/// What is wrong with the first `n` annotations on `object`.
pub open spec fn directives_errors(object: ObjectTypeView, n: int) -> Seq<ValidationErrorView>
    decreases n,
{
    if n <= 0 {
        Seq::empty()
    } else {
        directives_errors(object, n - 1) + directive_errors(object, object.directives[n - 1])
    }
}

/// What is wrong with one object type: with its interfaces, then with its
/// `id` field, then with its annotations.
pub open spec fn object_errors(doc: DocumentView, object: ObjectTypeView) -> Seq<
    ValidationErrorView,
> {
    interfaces_errors(doc, object, object.implements_interfaces.len() as int) + id_errors(object)
        + directives_errors(object, object.directives.len() as int)
}

/// What is wrong with the object types among the first `n` declarations.
pub open spec fn objects_errors(doc: DocumentView, n: int) -> Seq<ValidationErrorView>
    decreases n,
{
    if n <= 0 {
        Seq::empty()
    } else {
        match doc.definitions[n - 1] {
            DefinitionView::Object(object) => objects_errors(doc, n - 1) + object_errors(
                doc,
                object,
            ),
            _ => objects_errors(doc, n - 1),
        }
    }
}

/// Puts `more` at the end of `errors`.
fn append_errors(errors: &mut Vec<SchemaValidationError>, more: Vec<SchemaValidationError>)
    ensures
        errors_view(final(errors)@) == errors_view(old(errors)@) + errors_view(more@),
{
    let mut more = more;
    let ghost added = more@;
    errors.append(&mut more);
    assert(errors_view(errors@) =~= errors_view(old(errors)@) + errors_view(added));
}

/// What is wrong with one object type.
fn check_object(document: &Document, object: &ObjectType) -> (errors: Vec<SchemaValidationError>)
    ensures
        errors_view(errors@) == object_errors(document@, object@),
{
    let mut errors = check_interfaces(document, object);
    append_errors(&mut errors, check_id(object));
    let ghost head = errors_view(errors@);
    let mut n: usize = 0;
    assert(errors_view(errors@) =~= head + directives_errors(object@, 0));
    while n < object.directives.len()
        invariant
            n <= object.directives.len(),
            errors_view(errors@) == head + directives_errors(object@, n as int),
        decreases object.directives.len() - n,
    {
        let directive = &object.directives[n];
        assert(object@.directives[n as int] == directive@);
        let ghost so_far = errors_view(errors@);
        if str_eq(directive.name.as_str(), "fulltext") {
            append_errors(&mut errors, check_fulltext(object, directive));
        } else if str_eq(directive.name.as_str(), "import") {
            append_errors(&mut errors, check_import(object, directive));
        }
        assert(errors_view(errors@) =~= so_far + directive_errors(object@, directive@));
        assert(errors_view(errors@) =~= head + directives_errors(object@, n + 1));
        n += 1;
    }
    errors
}

// Names across the schema.

/// The names of the types that the schema declares, in source order.
pub open spec fn type_names(doc: DocumentView) -> Seq<Seq<char>> {
    Seq::new(doc.definitions.len(), |i: int| doc.definitions[i].name())
}

/// The names of the full-text indexes among the first `n` annotations.
pub open spec fn directives_fulltext_names(directives: Seq<DirectiveView>, n: int) -> Seq<
    Seq<char>,
>
    decreases n,
{
    if n <= 0 {
        Seq::empty()
    } else {
        let so_far = directives_fulltext_names(directives, n - 1);
        let d = directives[n - 1];
        if d.name == "fulltext"@ && fulltext_name(d) is Some {
            so_far.push(fulltext_name(d)->Some_0)
        } else {
            so_far
        }
    }
}

/// The names of the full-text indexes of the first `n` declarations.
pub open spec fn fulltext_names_upto(doc: DocumentView, n: int) -> Seq<Seq<char>>
    decreases n,
{
    if n <= 0 {
        Seq::empty()
    } else {
        match doc.definitions[n - 1] {
            DefinitionView::Object(object) => fulltext_names_upto(doc, n - 1)
                + directives_fulltext_names(object.directives, object.directives.len() as int),
            _ => fulltext_names_upto(doc, n - 1),
        }
    }
}

/// The names of the full-text indexes of the schema, in source order.
pub open spec fn fulltext_names(doc: DocumentView) -> Seq<Seq<char>> {
    fulltext_names_upto(doc, doc.definitions.len() as int)
}

/// The aliases of the imported types among the first `n` entries of a `types`
/// list.
pub open spec fn items_aliases(items: Seq<ValueView>, n: int) -> Seq<Seq<char>>
    decreases n,
{
    if n <= 0 {
        Seq::empty()
    } else {
        match imported_type_of(items[n - 1]) {
            Some(imported) => items_aliases(items, n - 1).push(imported.alias),
            None => items_aliases(items, n - 1),
        }
    }
}

/// The aliases that the first `n` annotations import under.
pub open spec fn directives_aliases(directives: Seq<DirectiveView>, n: int) -> Seq<Seq<char>>
    decreases n,
{
    if n <= 0 {
        Seq::empty()
    } else {
        let so_far = directives_aliases(directives, n - 1);
        let d = directives[n - 1];
        if d.name == "import"@ && import_types(d) is Some {
            so_far + items_aliases(import_types(d)->Some_0, import_types(d)->Some_0.len() as int)
        } else {
            so_far
        }
    }
}

/// The aliases that the first `n` declarations import under.
pub open spec fn aliases_upto(doc: DocumentView, n: int) -> Seq<Seq<char>>
    decreases n,
{
    if n <= 0 {
        Seq::empty()
    } else {
        match doc.definitions[n - 1] {
            DefinitionView::Object(object) => aliases_upto(doc, n - 1) + directives_aliases(
                object.directives,
                object.directives.len() as int,
            ),
            _ => aliases_upto(doc, n - 1),
        }
    }
}

/// The aliases that the schema imports under, in source order.
pub open spec fn import_aliases(doc: DocumentView) -> Seq<Seq<char>> {
    aliases_upto(doc, doc.definitions.len() as int)
}

/// Puts copies of `more` at the end of `names`.
fn append_names(names: &mut Vec<String>, more: Vec<String>)
    ensures
        names_view(final(names)@) == names_view(old(names)@) + names_view(more@),
{
    let mut more = more;
    let ghost added = more@;
    names.append(&mut more);
    assert(names_view(names@) =~= names_view(old(names)@) + names_view(added));
}

/// The names of the types that the schema declares.
fn collect_type_names(document: &Document) -> (names: Vec<String>)
    ensures
        names_view(names@) == type_names(document@),
{
    let mut names: Vec<String> = Vec::new();
    let mut n: usize = 0;
    while n < document.definitions.len()
        invariant
            n <= document.definitions.len(),
            names@.len() == n,
            forall|i: int| 0 <= i < n ==> (#[trigger] names@[i])@ == document@.definitions[i].name(),
        decreases document.definitions.len() - n,
    {
        names.push(owned(document.definitions[n].name()));
        n += 1;
    }
    assert(names_view(names@) =~= type_names(document@));
    names
}

/// The names of the full-text indexes on one object type.
fn collect_fulltext_names(object: &ObjectType) -> (names: Vec<String>)
    ensures
        names_view(names@) == directives_fulltext_names(
            object@.directives,
            object@.directives.len() as int,
        ),
{
    let mut names: Vec<String> = Vec::new();
    let mut n: usize = 0;
    assert(names_view(names@) =~= directives_fulltext_names(object@.directives, 0));
    while n < object.directives.len()
        invariant
            n <= object.directives.len(),
            names_view(names@) == directives_fulltext_names(object@.directives, n as int),
        decreases object.directives.len() - n,
    {
        let directive = &object.directives[n];
        assert(object@.directives[n as int] == directive@);
        if str_eq(directive.name.as_str(), "fulltext") {
            let name = match directive.argument("name") {
                Some(value) => value.as_str(),
                None => None,
            };
            if let Some(name) = name {
                let ghost so_far = names_view(names@);
                names.push(owned(name));
                assert(names_view(names@) =~= so_far.push(name@));
            }
        }
        n += 1;
    }
    names
}

/// The aliases that one object type imports under.
fn collect_aliases(object: &ObjectType) -> (names: Vec<String>)
    ensures
        names_view(names@) == directives_aliases(
            object@.directives,
            object@.directives.len() as int,
        ),
{
    let mut names: Vec<String> = Vec::new();
    let mut n: usize = 0;
    assert(names_view(names@) =~= directives_aliases(object@.directives, 0));
    while n < object.directives.len()
        invariant
            n <= object.directives.len(),
            names_view(names@) == directives_aliases(object@.directives, n as int),
        decreases object.directives.len() - n,
    {
        let directive = &object.directives[n];
        assert(object@.directives[n as int] == directive@);
        if str_eq(directive.name.as_str(), "import") {
            if let Some(items) = read_import_types(directive) {
                let ghost head = names_view(names@);
                let ghost entries = values_view(items@);
                let mut m: usize = 0;
                assert(names_view(names@) =~= head + items_aliases(entries, 0));
                while m < items.len()
                    invariant
                        m <= items.len(),
                        entries == values_view(items@),
                        names_view(names@) == head + items_aliases(entries, m as int),
                    decreases items.len() - m,
                {
                    assert(entries[m as int] == items@[m as int]@);
                    if let Some(imported) = ImportedType::parse(&items[m]) {
                        let ghost so_far = names_view(names@);
                        names.push(imported.alias);
                        assert(names_view(names@) =~= so_far.push(imported@.alias));
                    }
                    assert(names_view(names@) =~= head + items_aliases(entries, m + 1));
                    m += 1;
                }
            }
        }
        n += 1;
    }
    names
}

// The whole schema.

/// One error for each name, made by `make`.
pub open spec fn errors_for(
    names: Seq<Seq<char>>,
    make: spec_fn(Seq<char>) -> ValidationErrorView,
) -> Seq<ValidationErrorView> {
    Seq::new(names.len(), |i: int| make(names[i]))
}

/// Everything that is wrong with a schema, in the order in which it is
/// reported.
pub open spec fn validation_errors(doc: DocumentView) -> Seq<ValidationErrorView> {
    errors_for(
        repeats(type_names(doc), doc.definitions.len() as int),
        |n: Seq<char>| ValidationErrorView::DuplicateTypeName(n),
    ) + objects_errors(doc, doc.definitions.len() as int) + errors_for(
        repeats(fulltext_names(doc), fulltext_names(doc).len() as int),
        |n: Seq<char>| ValidationErrorView::FulltextNameDuplicate(n),
    ) + errors_for(
        repeats(import_aliases(doc), import_aliases(doc).len() as int),
        |n: Seq<char>| ValidationErrorView::ImportAliasCollision(n),
    )
}

/// Everything that is wrong with a schema, in the order in which it is
/// reported.
pub fn check_document(document: &Document) -> (errors: Vec<SchemaValidationError>)
    ensures
        errors_view(errors@) == validation_errors(document@),
{
    let mut errors: Vec<SchemaValidationError> = Vec::new();
    let declared = collect_type_names(document);
    let twice = repeated_names(&declared);
    let mut i: usize = 0;
    while i < twice.len()
        invariant
            i <= twice.len(),
            errors@.len() == i,
            forall|j: int|
                0 <= j < i ==> (#[trigger] errors@[j])@ == ValidationErrorView::DuplicateTypeName(
                    twice@[j]@,
                ),
        decreases twice.len() - i,
    {
        errors.push(SchemaValidationError::DuplicateTypeName(twice[i].clone()));
        i += 1;
    }
    let ghost first = errors_view(errors@);
    proof {
        let names = repeats(type_names(document@), document@.definitions.len() as int);
        assert(names_view(declared@).len() == declared@.len());
        assert(type_names(document@).len() == document@.definitions.len());
        assert(names_view(twice@) == names);
        assert forall|j: int| 0 <= j < first.len() implies first[j]
            == ValidationErrorView::DuplicateTypeName(names[j]) by {
            assert(names_view(twice@)[j] == twice@[j]@);
        }
    }
    assert(first =~= errors_for(
        repeats(type_names(document@), document@.definitions.len() as int),
        |n: Seq<char>| ValidationErrorView::DuplicateTypeName(n),
    ));
    let mut fulltext: Vec<String> = Vec::new();
    let mut aliases: Vec<String> = Vec::new();
    let mut n: usize = 0;
    assert(names_view(fulltext@) =~= fulltext_names_upto(document@, 0));
    assert(names_view(aliases@) =~= aliases_upto(document@, 0));
    assert(errors_view(errors@) =~= first + objects_errors(document@, 0));
    while n < document.definitions.len()
        invariant
            n <= document.definitions.len(),
            errors_view(errors@) == first + objects_errors(document@, n as int),
            names_view(fulltext@) == fulltext_names_upto(document@, n as int),
            names_view(aliases@) == aliases_upto(document@, n as int),
        decreases document.definitions.len() - n,
    {
        if let Definition::Object(object) = &document.definitions[n] {
            assert(document@.definitions[n as int] == DefinitionView::Object(object@));
            let ghost so_far = errors_view(errors@);
            append_errors(&mut errors, check_object(document, object));
            append_names(&mut fulltext, collect_fulltext_names(object));
            append_names(&mut aliases, collect_aliases(object));
            assert(errors_view(errors@) =~= first + objects_errors(document@, n + 1));
        }
        n += 1;
    }
    let ghost second = errors_view(errors@);
    let twice = repeated_names(&fulltext);
    let mut i: usize = 0;
    while i < twice.len()
        invariant
            i <= twice.len(),
            errors_view(errors@).len() == second.len() + i,
            forall|j: int| 0 <= j < second.len() ==> errors_view(errors@)[j] == second[j],
            forall|j: int|
                0 <= j < i ==> errors_view(errors@)[second.len() + j]
                    == ValidationErrorView::FulltextNameDuplicate(names_view(twice@)[j]),
        decreases twice.len() - i,
    {
        errors.push(SchemaValidationError::FulltextNameDuplicate(twice[i].clone()));
        i += 1;
    }
    let ghost third = errors_view(errors@);
    assert(third =~= second + errors_for(
        repeats(fulltext_names(document@), fulltext_names(document@).len() as int),
        |n: Seq<char>| ValidationErrorView::FulltextNameDuplicate(n),
    ));
    let twice = repeated_names(&aliases);
    let mut i: usize = 0;
    while i < twice.len()
        invariant
            i <= twice.len(),
            errors_view(errors@).len() == third.len() + i,
            forall|j: int| 0 <= j < third.len() ==> errors_view(errors@)[j] == third[j],
            forall|j: int|
                0 <= j < i ==> errors_view(errors@)[third.len() + j]
                    == ValidationErrorView::ImportAliasCollision(names_view(twice@)[j]),
        decreases twice.len() - i,
    {
        errors.push(SchemaValidationError::ImportAliasCollision(twice[i].clone()));
        i += 1;
    }
    assert(errors_view(errors@) =~= third + errors_for(
        repeats(import_aliases(document@), import_aliases(document@).len() as int),
        |n: Seq<char>| ValidationErrorView::ImportAliasCollision(n),
    ));
    errors
}

/// Validates a schema: the schema with its tables if nothing is wrong with
/// it, else everything that is wrong with it.
pub fn validate(document: Document) -> (r: Result<Schema, Vec<SchemaValidationError>>)
    ensures
        match r {
            Ok(schema) => {
                &&& validation_errors(document@).len() == 0
                &&& schema@.document == document@
                &&& schema@.interfaces_for_type == index_of(document@).interfaces_for_type
                &&& schema@.types_for_interface == index_of(document@).types_for_interface
                &&& schema@.well_formed()
            },
            Err(errors) => errors@.len() > 0 && errors_view(errors@) == validation_errors(
                document@,
            ),
        },
{
    let errors = check_document(&document);
    if errors.len() == 0 {
        Ok(Schema::new(document))
    } else {
        Err(errors)
    }
}

} // verus!
