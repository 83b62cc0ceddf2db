//! The API schema: a schema with introspection mixed in, its root types
//! picked out and its object types at hand by name.
//!
//! The introspection fragment is the same for every schema. The caller builds
//! it once and hands it to every construction.

use crate::ast::{
    field_named, fields_view, lemma_field_position, lemma_object_position, object_position,
    Definition, DefinitionView, Document, DocumentView, Field, FieldView, InputValue,
    InputValueView, ObjectType, ObjectTypeView, Type, TypeView,
};
use crate::index::NameTable;
use crate::schema::{Schema, SchemaView};
use crate::text::{owned, str_eq};
use std::sync::Arc;
use vstd::hash_map::StringHashMap;
use vstd::prelude::*;
use vstd::string::StringExecFns;

verus! {

/// The two fields that introspection adds to the root query type:
/// `__schema: __Schema!` and `__type(name: String!): __Type`.
pub open spec fn introspection_fields_view() -> Seq<FieldView> {
    seq![
        FieldView {
            name: "__schema"@,
            arguments: Seq::empty(),
            field_type: TypeView::NonNullType(Box::new(TypeView::NamedType("__Schema"@))),
            directives: Seq::empty(),
        },
        FieldView {
            name: "__type"@,
            arguments: seq![
                InputValueView {
                    name: "name"@,
                    value_type: TypeView::NonNullType(Box::new(TypeView::NamedType("String"@))),
                    default_value: None,
                    directives: Seq::empty(),
                },
            ],
            field_type: TypeView::NamedType("__Type"@),
            directives: Seq::empty(),
        },
    ]
}

/// The type `name!`.
fn non_null(name: &str) -> (t: Type)
    ensures
        t@ == TypeView::NonNullType(Box::new(TypeView::NamedType(name@))),
{
    let inner = Type::NamedType(owned(name));
    assert(inner@ == TypeView::NamedType(name@));
    Type::NonNullType(Box::new(inner))
}

/// The two fields that introspection adds to the root query type.
pub fn introspection_fields() -> (fields: Vec<Field>)
    ensures
        fields_view(fields@) == introspection_fields_view(),
{
    let schema_field = Field {
        name: String::from_str("__schema"),
        arguments: Vec::new(),
        field_type: non_null("__Schema"),
        directives: Vec::new(),
    };
    let name_argument = InputValue {
        name: String::from_str("name"),
        value_type: non_null("String"),
        default_value: None,
        directives: Vec::new(),
    };
    let mut arguments: Vec<InputValue> = Vec::new();
    arguments.push(name_argument);
    let type_field = Field {
        name: String::from_str("__type"),
        arguments,
        field_type: Type::NamedType(String::from_str("__Type")),
        directives: Vec::new(),
    };
    let mut fields: Vec<Field> = Vec::new();
    fields.push(schema_field);
    fields.push(type_field);
    proof {
        let want = introspection_fields_view();
        let got = fields_view(fields@);
        assert(got.len() == want.len());
        assert(got[0].arguments =~= want[0].arguments);
        assert(got[0].directives =~= want[0].directives);
        assert(got[0] == want[0]);
        assert(got[1].arguments.len() == 1);
        assert(got[1].arguments[0].directives =~= want[1].arguments[0].directives);
        assert(got[1].arguments[0] == want[1].arguments[0]);
        assert(got[1].arguments =~= want[1].arguments);
        assert(got[1].directives =~= want[1].directives);
        assert(got[1] == want[1]);
        assert(got =~= want);
    }
    fields
}

/// The declarations of a schema with introspection mixed in: the
/// declarations of the fragment come after those of the schema, and the root
/// query type, the first object type named `Query`, gets the two
/// introspection fields at the end of its own. Where there is no such type
/// the fields go nowhere.
pub open spec fn with_introspection(doc: DocumentView, fragment: DocumentView) -> DocumentView {
    let merged = doc.definitions + fragment.definitions;
    let at = object_position(merged, "Query"@, merged.len() as int);
    if at < merged.len() {
        let query = merged[at]->Object_0;
        DocumentView {
            definitions: merged.update(
                at,
                DefinitionView::Object(
                    ObjectTypeView { fields: query.fields + introspection_fields_view(), ..query },
                ),
            ),
        }
    } else {
        DocumentView { definitions: merged }
    }
}

/// The object types among the first `n` declarations, by name. Of two with
/// one name the later one counts.
pub open spec fn object_types_upto(doc: DocumentView, n: int) -> Map<Seq<char>, ObjectTypeView>
    decreases n,
{
    if n <= 0 {
        Map::empty()
    } else {
        let so_far = object_types_upto(doc, n - 1);
        match doc.definitions[n - 1] {
            DefinitionView::Object(object) => so_far.insert(object.name, object),
            _ => so_far,
        }
    }
}

/// The object types of a schema, by name.
pub open spec fn object_types_of(doc: DocumentView) -> Map<Seq<char>, ObjectTypeView> {
    object_types_upto(doc, doc.definitions.len() as int)
}

/// The names under which `object_types_upto` holds something are the names
/// of the object types among those declarations.
pub proof fn lemma_object_type_names(doc: DocumentView, n: int, name: Seq<char>)
    requires
        0 <= n <= doc.definitions.len(),
    ensures
        object_types_upto(doc, n).contains_key(name) <==> exists|i: int|
            0 <= i < n && (#[trigger] doc.definitions[i]) is Object && doc.definitions[i].name()
                == name,
    decreases n,
{
    if n > 0 {
        lemma_object_type_names(doc, n - 1, name);
        if object_types_upto(doc, n - 1).contains_key(name) {
            let i = choose|i: int|
                0 <= i < n - 1 && (#[trigger] doc.definitions[i]) is Object
                    && doc.definitions[i].name() == name;
            assert(doc.definitions[i] is Object && doc.definitions[i].name() == name);
        }
        if doc.definitions[n - 1] is Object && doc.definitions[n - 1].name() == name {
            assert(object_types_upto(doc, n).contains_key(name));
        }
    }
}

/// Copies the declarations of `fragment` to the end of `schema` and gives the
/// root query type the introspection fields.
pub fn add_introspection_schema(schema: &mut Document, fragment: &Document)
    ensures
        final(schema)@ == with_introspection(old(schema)@, fragment@),
{
    let mut i: usize = 0;
    while i < fragment.definitions.len()
        invariant
            i <= fragment.definitions.len(),
            schema@.definitions == old(schema)@.definitions + fragment@.definitions.take(i as int),
        decreases fragment.definitions.len() - i,
    {
        let ghost so_far = schema@.definitions;
        schema.definitions.push(fragment.definitions[i].clone());
        assert(schema@.definitions =~= so_far.push(fragment@.definitions[i as int]));
        assert(fragment@.definitions.take(i + 1) =~= fragment@.definitions.take(i as int).push(
            fragment@.definitions[i as int],
        ));
        assert(schema@.definitions =~= old(schema)@.definitions + fragment@.definitions.take(
            i + 1,
        ));
        i += 1;
    }
    assert(fragment@.definitions.take(i as int) =~= fragment@.definitions);
    let ghost merged = schema@.definitions;
    let mut at: usize = 0;
    while at < schema.definitions.len()
        invariant
            at <= schema.definitions.len(),
            schema@.definitions == merged,
            merged == old(schema)@.definitions + fragment@.definitions,
            forall|j: int|
                0 <= j < at ==> !((#[trigger] merged[j]) is Object && merged[j].name() == "Query"@),
        decreases schema.definitions.len() - at,
    {
        if let Definition::Object(query) = &schema.definitions[at] {
            if str_eq(query.name.as_str(), "Query") {
                proof {
                    lemma_object_position(merged, "Query"@, merged.len() as int);
                    let p = object_position(merged, "Query"@, merged.len() as int);
                    assert(merged[at as int] is Object && merged[at as int].name() == "Query"@);
                    if p < at {
                        assert(merged[p] is Object && merged[p].name() == "Query"@);
                    }
                    assert(p == at);
                    assert(merged[at as int]->Object_0 == query@);
                }
                let mut with_fields = query.clone();
                let mut extra = introspection_fields();
                let ghost before = with_fields@.fields;
                with_fields.fields.append(&mut extra);
                assert(with_fields@.fields =~= before + introspection_fields_view());
                schema.definitions.set(at, Definition::Object(with_fields));
                assert(schema@.definitions =~= with_introspection(
                    old(schema)@,
                    fragment@,
                ).definitions);
                return ;
            }
        }
        at += 1;
    }
    proof {
        lemma_object_position(merged, "Query"@, merged.len() as int);
    }
}

/// Why an API schema could not be built.
#[derive(Clone, Copy, Debug, PartialEq, Eq)]
pub enum ApiSchemaError {
    /// The schema declares no object type named `Query`.
    MissingRootQuery,
}

impl ApiSchemaError {
    /// The error in words.
    pub fn to_string(&self) -> (message: String)
        ensures
            message@ == "no root `Query` in the schema"@,
    {
        String::from_str("no root `Query` in the schema")
    }
}

/// A schema that can serve queries: introspection is mixed in, the root
/// types are picked out, and every object type is at hand under its name.
pub struct ApiSchema {
    /// The schema, with introspection mixed into its declarations.
    pub schema: Schema,
    /// The root query type.
    pub query_type: Arc<ObjectType>,
    /// The root subscription type, where the schema has one.
    pub subscription_type: Option<Arc<ObjectType>>,
    /// Every object type of the schema, under its name.
    pub object_types: StringHashMap<Arc<ObjectType>>,
}

impl ApiSchema {
    /// The view of the schema within.
    pub open spec fn schema_view(&self) -> SchemaView {
        self.schema@
    }

    /// The view of the object types, by name.
    pub open spec fn object_types_view(&self) -> Map<Seq<char>, ObjectTypeView> {
        Map::new(
            |name: Seq<char>| self.object_types@.contains_key(name),
            |name: Seq<char>| (*self.object_types@[name])@,
        )
    }

    /// The view of the root subscription type.
    pub open spec fn subscription_view(&self) -> Option<ObjectTypeView> {
        match self.subscription_type {
            Some(t) => Some((*t)@),
            None => None,
        }
    }

    /// Whether the parts fit together: the root query type is the first
    /// object type named `Query`, with the two introspection fields among its
    /// own; the root subscription type is the first object type named
    /// `Subscription`, if there is one; and the object types by name are
    /// those of the declarations, the root types among them.
    pub open spec fn well_formed(&self) -> bool {
        let doc = self.schema_view().document;
        &&& doc.object_type("Query"@) == Some((*self.query_type)@)
        &&& field_named((*self.query_type)@.fields, "__schema"@) is Some
        &&& field_named((*self.query_type)@.fields, "__type"@) is Some
        &&& doc.object_type("Subscription"@) == self.subscription_view()
        &&& self.object_types_view() == object_types_of(doc)
        &&& self.object_types_view().contains_key("Query"@)
        &&& self.subscription_type is Some ==> self.object_types_view().contains_key(
            "Subscription"@,
        )
    }

    /// Builds the API schema of `api_schema`, with the declarations of
    /// `introspection` mixed in. Fails only where neither declares an object
    /// type named `Query`. The tables of the schema are kept as they are;
    /// where they fitted its declarations they fit the new ones.
    pub fn from_api_schema(api_schema: Schema, introspection: &Document) -> (r: Result<
        ApiSchema,
        ApiSchemaError,
    >)
        ensures
            match r {
                Ok(api) => {
                    &&& api.schema_view() == (SchemaView {
                        document: with_introspection(api_schema@.document, introspection@),
                        ..api_schema@
                    })
                    &&& api.well_formed()
                    &&& api_schema@.well_formed() ==> api.schema_view().well_formed()
                },
                Err(e) => e == ApiSchemaError::MissingRootQuery && with_introspection(
                    api_schema@.document,
                    introspection@,
                ).object_type("Query"@) is None,
            },
            r is Ok <==> (api_schema@.document.has_object_type("Query"@)
                || introspection@.has_object_type("Query"@)),
    {
        let Schema { document, interfaces_for_type, types_for_interface } = api_schema;
        let mut document = document;
        add_introspection_schema(&mut document, introspection);
        let ghost merged = document@;
        proof {
            lemma_with_introspection(api_schema@.document, introspection@);
        }
        let query_type = match document.get_root_query_type() {
            Some(query) => Arc::new(query.clone()),
            None => {
                return Err(ApiSchemaError::MissingRootQuery);
            },
        };
        let subscription_type = match document.get_root_subscription_type() {
            Some(subscription) => Some(Arc::new(subscription.clone())),
            None => None,
        };
        let mut object_types: StringHashMap<Arc<ObjectType>> = StringHashMap::new();
        let mut i: usize = 0;
        while i < document.definitions.len()
            invariant
                i <= document.definitions.len(),
                document@ == merged,
                object_types@.dom() =~= object_types_upto(merged, i as int).dom(),
                forall|name: Seq<char>| #[trigger]
                    object_types@.contains_key(name) ==> (*object_types@[name])@
                        == object_types_upto(merged, i as int)[name],
            decreases document.definitions.len() - i,
        {
            if let Definition::Object(object) = &document.definitions[i] {
                assert(merged.definitions[i as int] == DefinitionView::Object(object@));
                object_types.insert(object.name.clone(), Arc::new(object.clone()));
            }
            i += 1;
        }
        let schema = Schema { document, interfaces_for_type, types_for_interface };
        let api = ApiSchema { schema, query_type, subscription_type, object_types };
        proof {
            assert(api.object_types_view() =~= object_types_of(merged));
            lemma_object_type_names(merged, merged.definitions.len() as int, "Query"@);
            lemma_object_type_names(merged, merged.definitions.len() as int, "Subscription"@);
            crate::ast::lemma_object_type(merged, "Query"@);
            crate::ast::lemma_object_type(merged, "Subscription"@);
            if api_schema@.well_formed() {
                lemma_more_declarations(api_schema@, merged);
            }
        }
        Ok(api)
    }

    /// The declarations of the schema.
    pub fn document(&self) -> (document: &Document)
        ensures
            document@ == self.schema_view().document,
    {
        &self.schema.document
    }

    /// The schema within.
    pub fn schema(&self) -> (schema: &Schema)
        ensures
            schema@ == self.schema_view(),
    {
        &self.schema
    }

    /// For each interface, the object types that implement it.
    pub fn types_for_interface(&self) -> (table: &NameTable<ObjectType>)
        ensures
            table@ == self.schema_view().types_for_interface,
    {
        &self.schema.types_for_interface
    }

    /// The declarations of the schema, one by one.
    pub fn definitions(&self) -> (definitions: &Vec<Definition>)
        ensures
            crate::ast::definitions_view(definitions@) == self.schema_view().document.definitions,
    {
        &self.schema.document.definitions
    }

    /// The object type named `name`.
    pub fn object_type(&self, name: &str) -> (found: Option<&Arc<ObjectType>>)
        ensures
            match found {
                Some(t) => self.object_types_view().contains_key(name@)
                    && self.object_types_view()[name@] == (**t)@,
                None => !self.object_types_view().contains_key(name@),
            },
    {
        self.object_types.get(name)
    }
}

/// What mixing introspection in does to the lookups of a schema: the root
/// query type is found afterwards exactly when the schema or the fragment
/// declares one, and then it is the first such type with the two
/// introspection fields after its own; every interface that was declared
/// still is.
pub proof fn lemma_with_introspection(doc: DocumentView, fragment: DocumentView)
    ensures
        with_introspection(doc, fragment).object_type("Query"@) is Some <==> (doc.has_object_type(
            "Query"@,
        ) || fragment.has_object_type("Query"@)),
        with_introspection(doc, fragment).object_type("Query"@) matches Some(query) ==> {
            &&& query.name == "Query"@
            &&& field_named(query.fields, "__schema"@) is Some
            &&& field_named(query.fields, "__type"@) is Some
        },
        forall|name: Seq<char>| #[trigger]
            doc.has_interface_type(name) ==> with_introspection(doc, fragment).has_interface_type(
                name,
            ),
{
    let merged = doc.definitions + fragment.definitions;
    let after = with_introspection(doc, fragment);
    let at = object_position(merged, "Query"@, merged.len() as int);
    lemma_object_position(merged, "Query"@, merged.len() as int);
    crate::ast::lemma_object_type(after, "Query"@);
    if doc.has_object_type("Query"@) {
        let i = choose|i: int|
            0 <= i < doc.definitions.len() && (#[trigger] doc.definitions[i]) is Object
                && doc.definitions[i].name() == "Query"@;
        assert(merged[i] == doc.definitions[i]);
    }
    if fragment.has_object_type("Query"@) {
        let i = choose|i: int|
            0 <= i < fragment.definitions.len() && (#[trigger] fragment.definitions[i]) is Object
                && fragment.definitions[i].name() == "Query"@;
        assert(merged[doc.definitions.len() + i] == fragment.definitions[i]);
    }
    if at < merged.len() {
        // The root query type keeps its place and its name, so it is still the first.
        if at < doc.definitions.len() {
            assert(merged[at] == doc.definitions[at]);
        } else {
            assert(merged[at] == fragment.definitions[at - doc.definitions.len()]);
        }
        assert(after.definitions[at] is Object && after.definitions[at].name() == "Query"@);
        assert forall|j: int| 0 <= j < at implies !((#[trigger] after.definitions[j]) is Object
            && after.definitions[j].name() == "Query"@) by {
            assert(after.definitions[j] == merged[j]);
        }
        crate::ast::lemma_object_found(after, "Query"@, at);
        let query = after.definitions[at]->Object_0;
        let own = merged[at]->Object_0.fields;
        let extra = introspection_fields_view();
        lemma_field_position(query.fields, "__schema"@, query.fields.len() as int);
        lemma_field_position(query.fields, "__type"@, query.fields.len() as int);
        assert(query.fields[own.len() as int] == extra[0]);
        assert(query.fields[own.len() as int + 1] == extra[1]);
    } else if after.has_object_type("Query"@) {
        let i = choose|i: int|
            0 <= i < after.definitions.len() && (#[trigger] after.definitions[i]) is Object
                && after.definitions[i].name() == "Query"@;
        assert(merged[i] is Object && merged[i].name() == "Query"@);
    }
    assert forall|name: Seq<char>| #[trigger] doc.has_interface_type(name) implies after.has_interface_type(
        name,
    ) by {
        let i = choose|i: int|
            0 <= i < doc.definitions.len() && (#[trigger] doc.definitions[i]) is Interface
                && doc.definitions[i].name() == name;
        assert(merged[i] == doc.definitions[i]);
        assert(after.definitions[i] == merged[i]);
        assert(after.definitions[i] is Interface && after.definitions[i].name() == name);
    }
}

/// Tables that fit a schema still fit once introspection is mixed into its
/// declarations.
pub proof fn lemma_more_declarations(schema: SchemaView, merged: DocumentView)
    requires
        schema.well_formed(),
        forall|name: Seq<char>| #[trigger]
            schema.document.has_interface_type(name) ==> merged.has_interface_type(name),
    ensures
        (SchemaView { document: merged, ..schema }).well_formed(),
{
}

/// Building is repeatable: two API schemas built from schemas with the same
/// declarations, with the same fragment mixed in, have the same object types
/// under the same names.
pub proof fn lemma_object_types_repeatable(
    first: SchemaView,
    second: SchemaView,
    fragment: DocumentView,
    first_built: ApiSchema,
    second_built: ApiSchema,
)
    requires
        first.document == second.document,
        first_built.well_formed(),
        second_built.well_formed(),
        first_built.schema_view().document == with_introspection(first.document, fragment),
        second_built.schema_view().document == with_introspection(second.document, fragment),
    ensures
        first_built.object_types_view().dom() == second_built.object_types_view().dom(),
        first_built.object_types_view() == second_built.object_types_view(),
{
}

} // verus!
