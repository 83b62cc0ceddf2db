//! A schema with its two lookup tables, and the coercion of an entity's
//! identifier into the value that the store holds for it.

use crate::ast::{
    base_type, field_named, Document, DocumentView, InterfaceType, InterfaceTypeView,
    ObjectType, ObjectTypeView,
};
use crate::index::{
    build_index, index_of, lemma_index_sound, lists_interface, lists_object, table_well_formed,
    NameTable,
};
use crate::store::{decode_hex, parse_hex, EntityKey, StoreValue, StoreValueView};
use crate::text::{owned, str_eq};
use vstd::prelude::*;
use vstd::string::StringExecFns;

verus! {

/// The schema of one subgraph: its declarations, and the two tables derived
/// from them.
#[derive(Debug, PartialEq, Eq)]
pub struct Schema {
    pub document: Document,
    /// For each object type, the interfaces it implements.
    pub interfaces_for_type: NameTable<InterfaceType>,
    /// For each interface, the object types that implement it.
    pub types_for_interface: NameTable<ObjectType>,
}

/// The view of a [`Schema`].
pub struct SchemaView {
    pub document: DocumentView,
    pub interfaces_for_type: Seq<(Seq<char>, Seq<InterfaceTypeView>)>,
    pub types_for_interface: Seq<(Seq<char>, Seq<ObjectTypeView>)>,
}

impl View for Schema {
    type V = SchemaView;

    open spec fn view(&self) -> SchemaView {
        SchemaView {
            document: self.document@,
            interfaces_for_type: self.interfaces_for_type@,
            types_for_interface: self.types_for_interface@,
        }
    }
}

impl Clone for Schema {
    fn clone(&self) -> (r: Self)
        ensures
            r@ == self@,
    {
        Schema {
            document: self.document.clone(),
            interfaces_for_type: self.interfaces_for_type.clone(),
            types_for_interface: self.types_for_interface.clone(),
        }
    }
}

impl SchemaView {
    /// Whether the tables fit the declarations: no name stands twice in a
    /// table and no list is empty; every interface listed under an object
    /// type is declared; and an object type named `t` is listed under the
    /// interface `i` exactly when an interface named `i` is listed under `t`.
    pub open spec fn well_formed(self) -> bool {
        &&& table_well_formed(self.interfaces_for_type)
        &&& table_well_formed(self.types_for_interface)
        &&& forall|e: int, j: int|
            0 <= e < self.interfaces_for_type.len() && 0 <= j
                < self.interfaces_for_type[e].1.len() ==> self.document.has_interface_type(
                (#[trigger] self.interfaces_for_type[e].1[j]).name,
            )
        &&& forall|t: Seq<char>, i: Seq<char>| #[trigger]
            lists_object(self.types_for_interface, i, t) <==> lists_interface(
                self.interfaces_for_type,
                t,
                i,
            )
    }
}

/// Why an identifier could not be turned into a store value.
#[derive(Debug, PartialEq, Eq)]
pub enum IdValueError {
    /// The schema declares no object type of that name: the type, and the
    /// identifier as written.
    UnknownEntityType(String, String),
    /// The entity type declares no `id` field: the type.
    IdFieldMissing(String),
    /// The `id` field is of a type that no identifier can have: the entity
    /// type, and the type that its `id` field declares.
    IllegalIdType(String, String),
    /// The identifier of a `Bytes` entity is not hexadecimal: the type, and
    /// the identifier as written.
    MalformedHexId(String, String),
}

/// The view of an [`IdValueError`].
pub enum IdValueErrorView {
    UnknownEntityType(Seq<char>, Seq<char>),
    IdFieldMissing(Seq<char>),
    IllegalIdType(Seq<char>, Seq<char>),
    MalformedHexId(Seq<char>, Seq<char>),
}

impl View for IdValueError {
    type V = IdValueErrorView;

    open spec fn view(&self) -> IdValueErrorView {
        match self {
            IdValueError::UnknownEntityType(t, id) => IdValueErrorView::UnknownEntityType(t@, id@),
            IdValueError::IdFieldMissing(t) => IdValueErrorView::IdFieldMissing(t@),
            IdValueError::IllegalIdType(t, declared) => IdValueErrorView::IllegalIdType(
                t@,
                declared@,
            ),
            IdValueError::MalformedHexId(t, id) => IdValueErrorView::MalformedHexId(t@, id@),
        }
    }
}

impl IdValueErrorView {
    /// The error in words.
    pub open spec fn message(self) -> Seq<char> {
        match self {
            IdValueErrorView::UnknownEntityType(t, id) => "Entity "@ + t + "["@ + id
                + "]: unknown entity type `"@ + t + "`"@,
            IdValueErrorView::IdFieldMissing(t) => "Entity type "@ + t + " has no id field"@,
            IdValueErrorView::IllegalIdType(t, declared) => "Entity type "@ + t
                + " uses illegal type "@ + declared + " for id column"@,
            IdValueErrorView::MalformedHexId(t, id) => "Entity "@ + t + "["@ + id
                + "]: id is not a hex string"@,
        }
    }
}

impl IdValueError {
    /// The error in words.
    pub fn to_string(&self) -> (message: String)
        ensures
            message@ == self@.message(),
    {
        match self {
            IdValueError::UnknownEntityType(t, id) => String::from_str("Entity ").concat(
                t.as_str(),
            ).concat("[").concat(id.as_str()).concat("]: unknown entity type `").concat(
                t.as_str(),
            ).concat("`"),
            IdValueError::IdFieldMissing(t) => String::from_str("Entity type ").concat(
                t.as_str(),
            ).concat(" has no id field"),
            IdValueError::IllegalIdType(t, declared) => String::from_str("Entity type ").concat(
                t.as_str(),
            ).concat(" uses illegal type ").concat(declared.as_str()).concat(" for id column"),
            IdValueError::MalformedHexId(t, id) => String::from_str("Entity ").concat(
                t.as_str(),
            ).concat("[").concat(id.as_str()).concat("]: id is not a hex string"),
        }
    }
}

/// The value of the identifier `raw_id` of an entity of the type
/// `entity_type`: the text itself where the `id` field of the type is an `ID`
/// or a `String`, the bytes it stands for where the field is `Bytes`.
pub open spec fn id_value_of(doc: DocumentView, entity_type: Seq<char>, raw_id: Seq<char>) -> Result<
    StoreValueView,
    IdValueErrorView,
> {
    match doc.object_type(entity_type) {
        None => Err(IdValueErrorView::UnknownEntityType(entity_type, raw_id)),
        Some(object) => match field_named(object.fields, "id"@) {
            None => Err(IdValueErrorView::IdFieldMissing(entity_type)),
            Some(field) => {
                let declared = base_type(field.field_type);
                if declared == "ID"@ || declared == "String"@ {
                    Ok(StoreValueView::String(raw_id))
                } else if declared == "Bytes"@ {
                    match decode_hex(raw_id) {
                        Some(bytes) => Ok(StoreValueView::Bytes(bytes)),
                        None => Err(IdValueErrorView::MalformedHexId(entity_type, raw_id)),
                    }
                } else {
                    Err(IdValueErrorView::IllegalIdType(entity_type, declared))
                }
            },
        },
    }
}

/// The view of the outcome of [`Schema::id_value`].
pub open spec fn id_outcome_view(r: Result<StoreValue, IdValueError>) -> Result<
    StoreValueView,
    IdValueErrorView,
> {
    match r {
        Ok(value) => Ok(value@),
        Err(e) => Err(e@),
    }
}

impl Schema {
    /// The schema of these declarations, with its tables built from them.
    pub fn new(document: Document) -> (r: Schema)
        ensures
            r@.document == document@,
            r@.interfaces_for_type == index_of(document@).interfaces_for_type,
            r@.types_for_interface == index_of(document@).types_for_interface,
            r@.well_formed(),
    {
        let (interfaces_for_type, types_for_interface) = build_index(&document);
        proof {
            lemma_index_sound(document@);
        }
        Schema { document, interfaces_for_type, types_for_interface }
    }

    /// Construct a value for the entity type's id attribute.
    pub fn id_value(&self, key: &EntityKey) -> (r: Result<StoreValue, IdValueError>)
        ensures
            id_outcome_view(r) == id_value_of(self@.document, key.entity_type@, key.entity_id@),
    {
        let object = match self.document.get_object_type(key.entity_type.as_str()) {
            Some(object) => object,
            None => {
                return Err(
                    IdValueError::UnknownEntityType(
                        key.entity_type.clone(),
                        key.entity_id.clone(),
                    ),
                );
            },
        };
        let field = match object.field("id") {
            Some(field) => field,
            None => {
                return Err(IdValueError::IdFieldMissing(key.entity_type.clone()));
            },
        };
        let declared = field.field_type.get_base_type();
        if str_eq(declared, "ID") || str_eq(declared, "String") {
            Ok(StoreValue::String(key.entity_id.clone()))
        } else if str_eq(declared, "Bytes") {
            match parse_hex(key.entity_id.as_str()) {
                Some(bytes) => Ok(StoreValue::Bytes(bytes)),
                None => Err(
                    IdValueError::MalformedHexId(key.entity_type.clone(), key.entity_id.clone()),
                ),
            }
        } else {
            Err(IdValueError::IllegalIdType(key.entity_type.clone(), owned(declared)))
        }
    }
}

} // verus!
