//! What it means for a schema to be valid, said without reference to the
//! order in which problems are reported, and the proof that validation finds
//! nothing wrong exactly with the valid schemas.

use crate::api_schema::{lemma_with_introspection, with_introspection};
use crate::ast::{
    base_type, field_named, DefinitionView, DirectiveView, DocumentView, FieldView,
    ObjectTypeView, ValueView,
};
use crate::fulltext::{
    fulltext_fields, fulltext_shape,
    included_field_name,
};
use crate::import::imported_type_of;
use crate::validation::{
    directive_errors, directives_errors, errors_for, fulltext_errors, fulltext_names, id_errors,
    import_aliases, import_errors, import_source_named, import_types, imported_types_errors,
    included_fields_errors, interface_errors, interfaces_errors, legal_id_type, missing_fields,
    object_errors, objects_errors, occurs_before, repeats, satisfies, type_names,
    validation_errors, ValidationErrorView,
};
use vstd::prelude::*;

verus! {

/// Whether an object type implements the interface named `name` as it
/// should: the interface is declared, and the object type has each of its
/// fields, with the same type.
pub open spec fn implements_well(doc: DocumentView, object: ObjectTypeView, name: Seq<char>) -> bool {
    match doc.interface_type(name) {
        Some(interface) => forall|k: int|
            0 <= k < interface.fields.len() ==> satisfies(
                object.fields,
                #[trigger] interface.fields[k],
            ),
        None => false,
    }
}

/// Whether an object type has an `id` field that is an `ID`, a `String` or
/// `Bytes`, whatever lists and non-null marks stand around it.
pub open spec fn id_well(object: ObjectTypeView) -> bool {
    match field_named(object.fields, "id"@) {
        Some(field) => legal_id_type(base_type(field.field_type)),
        None => false,
    }
}

/// Whether a full-text annotation on `object` has the shape of one and
/// includes only fields that the object type has.
pub open spec fn fulltext_well(object: ObjectTypeView, d: DirectiveView) -> bool {
    &&& fulltext_shape(d)
    &&& forall|i: int|
        0 <= i < fulltext_fields(d)->Some_0.len() ==> field_named(
            object.fields,
            included_field_name(#[trigger] fulltext_fields(d)->Some_0[i])->Some_0,
        ) is Some
}

/// Whether an import annotation lists only imported types and names the
/// schema to import them from.
pub open spec fn import_well(d: DirectiveView) -> bool {
    &&& import_types(d) is Some
    &&& forall|i: int|
        0 <= i < import_types(d)->Some_0.len() ==> imported_type_of(
            #[trigger] import_types(d)->Some_0[i],
        ) is Some
    &&& import_source_named(d)
}

/// Whether an annotation on `object` is as it should be: a full-text or
/// import annotation must be well formed, any other is not looked at.
pub open spec fn directive_well(object: ObjectTypeView, d: DirectiveView) -> bool {
    if d.name == "fulltext"@ {
        fulltext_well(object, d)
    } else if d.name == "import"@ {
        import_well(d)
    } else {
        true
    }
}

/// Whether an object type is valid within its schema.
pub open spec fn object_valid(doc: DocumentView, object: ObjectTypeView) -> bool {
    &&& forall|m: int|
        0 <= m < object.implements_interfaces.len() ==> implements_well(
            doc,
            object,
            #[trigger] object.implements_interfaces[m],
        )
    &&& id_well(object)
    &&& forall|n: int|
        0 <= n < object.directives.len() ==> directive_well(object, #[trigger] object.directives[n])
}

/// Whether a schema is valid: no type name is declared twice, every object
/// type is valid, and no name of a full-text index and no import alias is
/// used twice.
pub open spec fn document_valid(doc: DocumentView) -> bool {
    &&& type_names(doc).no_duplicates()
    &&& forall|n: int|
        0 <= n < doc.definitions.len() && (#[trigger] doc.definitions[n]) is Object
            ==> object_valid(doc, doc.definitions[n]->Object_0)
    &&& fulltext_names(doc).no_duplicates()
    &&& import_aliases(doc).no_duplicates()
}

/// No name among the first `n` is repeated exactly when they are all
/// different.
pub proof fn lemma_repeats(names: Seq<Seq<char>>, n: int)
    requires
        0 <= n <= names.len(),
    ensures
        repeats(names, n).len() == 0 <==> forall|i: int, j: int|
            0 <= i < j < n ==> #[trigger] names[i] != #[trigger] names[j],
    decreases n,
{
    if n > 0 {
        lemma_repeats(names, n - 1);
        if occurs_before(names, n - 1) {
            let i = choose|i: int| 0 <= i < n - 1 && #[trigger] names[i] == names[n - 1];
            assert(names[i] == names[n - 1]);
        }
        if repeats(names, n).len() == 0 {
            assert forall|i: int, j: int| 0 <= i < j < n implies #[trigger] names[i]
                != #[trigger] names[j] by {
                if j == n - 1 {
                    if names[i] == names[j] {
                        assert(occurs_before(names, n - 1));
                    }
                }
            }
        }
    }
}

/// No name of a whole list is repeated exactly when the list has no
/// duplicates.
pub proof fn lemma_no_repeats(names: Seq<Seq<char>>)
    ensures
        repeats(names, names.len() as int).len() == 0 <==> names.no_duplicates(),
{
    lemma_repeats(names, names.len() as int);
    if names.no_duplicates() {
        assert forall|i: int, j: int| 0 <= i < j < names.len() implies #[trigger] names[i]
            != #[trigger] names[j] by {}
    }
    if repeats(names, names.len() as int).len() == 0 {
        assert forall|i: int, j: int|
            0 <= i < names.len() && 0 <= j < names.len() && i != j implies names[i]
            != names[j] by {
            if i < j {
                assert(names[i] != names[j]);
            } else {
                assert(names[j] != names[i]);
            }
        }
    }
}

/// No field is missing exactly when every field of the interface is
/// satisfied.
pub proof fn lemma_missing_fields(fields: Seq<FieldView>, wanted: Seq<FieldView>, k: int)
    requires
        0 <= k <= wanted.len(),
    ensures
        missing_fields(fields, wanted, k).len() == 0 <==> forall|j: int|
            0 <= j < k ==> satisfies(fields, #[trigger] wanted[j]),
    decreases k,
{
    if k > 0 {
        lemma_missing_fields(fields, wanted, k - 1);
    }
}

/// Nothing is wrong with the first `m` interfaces of an object type exactly
/// when it implements each of them well.
pub proof fn lemma_interfaces_errors(doc: DocumentView, object: ObjectTypeView, m: int)
    requires
        0 <= m <= object.implements_interfaces.len(),
    ensures
        interfaces_errors(doc, object, m).len() == 0 <==> forall|j: int|
            0 <= j < m ==> implements_well(doc, object, #[trigger] object.implements_interfaces[j]),
    decreases m,
{
    if m > 0 {
        lemma_interfaces_errors(doc, object, m - 1);
        let name = object.implements_interfaces[m - 1];
        match doc.interface_type(name) {
            Some(interface) => {
                lemma_missing_fields(
                    object.fields,
                    interface.fields,
                    interface.fields.len() as int,
                );
            },
            None => {},
        }
        assert(interface_errors(doc, object, name).len() == 0 <==> implements_well(
            doc,
            object,
            name,
        ));
    }
}

/// Nothing is wrong with the first `n` included fields exactly when each is
/// named and is a field of the object type.
pub proof fn lemma_included_fields_errors(object: ObjectTypeView, fields: Seq<ValueView>, n: int)
    requires
        0 <= n <= fields.len(),
    ensures
        included_fields_errors(object, fields, n).len() == 0 <==> forall|i: int|
            0 <= i < n ==> included_field_name(#[trigger] fields[i]) is Some && field_named(
                object.fields,
                included_field_name(fields[i])->Some_0,
            ) is Some,
    decreases n,
{
    if n > 0 {
        lemma_included_fields_errors(object, fields, n - 1);
    }
}

/// Nothing is wrong with a full-text annotation exactly when it is well
/// formed.
pub proof fn lemma_fulltext_errors(object: ObjectTypeView, d: DirectiveView)
    ensures
        fulltext_errors(object, d).len() == 0 <==> fulltext_well(object, d),
{
    match fulltext_fields(d) {
        Some(fields) => {
            lemma_included_fields_errors(object, fields, fields.len() as int);
        },
        None => {},
    }
}

/// Nothing is wrong with the first `n` entries of a `types` list exactly when
/// each is an imported type.
pub proof fn lemma_imported_types_errors(object: ObjectTypeView, items: Seq<ValueView>, n: int)
    requires
        0 <= n <= items.len(),
    ensures
        imported_types_errors(object, items, n).len() == 0 <==> forall|i: int|
            0 <= i < n ==> imported_type_of(#[trigger] items[i]) is Some,
    decreases n,
{
    if n > 0 {
        lemma_imported_types_errors(object, items, n - 1);
    }
}

/// Nothing is wrong with an import annotation exactly when it is well formed.
pub proof fn lemma_import_errors(object: ObjectTypeView, d: DirectiveView)
    ensures
        import_errors(object, d).len() == 0 <==> import_well(d),
{
    match import_types(d) {
        Some(items) => {
            lemma_imported_types_errors(object, items, items.len() as int);
        },
        None => {},
    }
}

/// Nothing is wrong with the first `n` annotations on an object type exactly
/// when each is as it should be.
pub proof fn lemma_directives_errors(object: ObjectTypeView, n: int)
    requires
        0 <= n <= object.directives.len(),
    ensures
        directives_errors(object, n).len() == 0 <==> forall|i: int|
            0 <= i < n ==> directive_well(object, #[trigger] object.directives[i]),
    decreases n,
{
    if n > 0 {
        lemma_directives_errors(object, n - 1);
        let d = object.directives[n - 1];
        lemma_fulltext_errors(object, d);
        lemma_import_errors(object, d);
        assert(directive_errors(object, d).len() == 0 <==> directive_well(object, d));
    }
}

/// Nothing is wrong with an object type exactly when it is valid.
pub proof fn lemma_object_errors(doc: DocumentView, object: ObjectTypeView)
    ensures
        object_errors(doc, object).len() == 0 <==> object_valid(doc, object),
{
    lemma_interfaces_errors(doc, object, object.implements_interfaces.len() as int);
    lemma_directives_errors(object, object.directives.len() as int);
    assert(id_errors(object).len() == 0 <==> id_well(object));
}

/// Nothing is wrong with the object types among the first `n` declarations
/// exactly when each of them is valid.
pub proof fn lemma_objects_errors(doc: DocumentView, n: int)
    requires
        0 <= n <= doc.definitions.len(),
    ensures
        objects_errors(doc, n).len() == 0 <==> forall|i: int|
            0 <= i < n && (#[trigger] doc.definitions[i]) is Object ==> object_valid(
                doc,
                doc.definitions[i]->Object_0,
            ),
    decreases n,
{
    if n > 0 {
        lemma_objects_errors(doc, n - 1);
        match doc.definitions[n - 1] {
            DefinitionView::Object(object) => {
                lemma_object_errors(doc, object);
            },
            _ => {},
        }
    }
}

/// Validation finds nothing wrong with a schema exactly when the schema is
/// valid.
pub proof fn lemma_validation_complete(doc: DocumentView)
    ensures
        validation_errors(doc).len() == 0 <==> document_valid(doc),
{
    lemma_no_repeats(type_names(doc));
    lemma_no_repeats(fulltext_names(doc));
    lemma_no_repeats(import_aliases(doc));
    lemma_objects_errors(doc, doc.definitions.len() as int);
    let first = errors_for(
        repeats(type_names(doc), doc.definitions.len() as int),
        |n: Seq<char>| ValidationErrorView::DuplicateTypeName(n),
    );
    let second = objects_errors(doc, doc.definitions.len() as int);
    let third = errors_for(
        repeats(fulltext_names(doc), fulltext_names(doc).len() as int),
        |n: Seq<char>| ValidationErrorView::FulltextNameDuplicate(n),
    );
    let fourth = errors_for(
        repeats(import_aliases(doc), import_aliases(doc).len() as int),
        |n: Seq<char>| ValidationErrorView::ImportAliasCollision(n),
    );
    assert(validation_errors(doc) == first + second + third + fourth);
    assert(validation_errors(doc).len() == first.len() + second.len() + third.len()
        + fourth.len());
    assert(type_names(doc).len() == doc.definitions.len());
}

/// A valid schema passes validation, and where it or the introspection
/// fragment declares an object type named `Query`, the API schema built from
/// it has that type for its root query type.
pub proof fn lemma_valid_schema_builds(doc: DocumentView, fragment: DocumentView)
    requires
        document_valid(doc),
        doc.has_object_type("Query"@) || fragment.has_object_type("Query"@),
    ensures
        validation_errors(doc).len() == 0,
        with_introspection(doc, fragment).object_type("Query"@) is Some,
{
    lemma_validation_complete(doc);
    lemma_with_introspection(doc, fragment);
}

} // verus!
