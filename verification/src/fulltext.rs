//! Full-text index definitions, read from `@fulltext` annotations:
//! `@fulltext(name: "...", algorithm: rank, include: [{fields: [{name: "..."}]}])`.

use crate::ast::{
    entry_value, find_entry, values_view, Definition, DefinitionView, Directive, DirectiveView,
    Document, DocumentView, Value, ValueView,
};
use crate::text::{owned, str_eq};
use vstd::hash_set::StringHashSet;
use vstd::prelude::*;
use vstd::string::StringExecFns;

verus! {

/// How the matches of a full-text search are ranked.
#[derive(Clone, Copy, Debug, PartialEq, Eq)]
pub enum FulltextAlgorithm {
    Rank,
    ProximityRank,
}

/// The algorithm that a token names: `rank` or `proximityRank`.
pub open spec fn algorithm_of(token: Seq<char>) -> Option<FulltextAlgorithm> {
    if token == "rank"@ {
        Some(FulltextAlgorithm::Rank)
    } else if token == "proximityRank"@ {
        Some(FulltextAlgorithm::ProximityRank)
    } else {
        None
    }
}

/// What is said of a token that names no algorithm: the token, and the two
/// that would have been accepted.
pub open spec fn invalid_algorithm_message(token: Seq<char>) -> Seq<char> {
    "The provided fulltext search algorithm "@ + token
        + " is invalid. It must be one of: rank, proximityRank"@
}

impl FulltextAlgorithm {
    /// Reads an algorithm from its token.
    pub fn try_from(algorithm: &str) -> (r: Result<FulltextAlgorithm, String>)
        ensures
            match r {
                Ok(a) => algorithm_of(algorithm@) == Some(a),
                Err(message) => algorithm_of(algorithm@) is None && message@
                    == invalid_algorithm_message(algorithm@),
            },
    {
        if str_eq(algorithm, "rank") {
            Ok(FulltextAlgorithm::Rank)
        } else if str_eq(algorithm, "proximityRank") {
            Ok(FulltextAlgorithm::ProximityRank)
        } else {
            let message = String::from_str("The provided fulltext search algorithm ").concat(
                algorithm,
            ).concat(" is invalid. It must be one of: rank, proximityRank");
            Err(message)
        }
    }
}

/// The settings of a full-text index. The language is reserved: it cannot be
/// configured yet.
#[derive(Clone, Copy, Debug, PartialEq, Eq)]
pub struct FulltextConfig {
    pub language: (),
    pub algorithm: FulltextAlgorithm,
}

/// One full-text index: its name, its settings and the fields it covers.
pub struct FulltextDefinition {
    pub config: FulltextConfig,
    pub included_fields: StringHashSet,
    pub name: String,
}

/// The view of a [`FulltextDefinition`].
pub struct FulltextDefinitionView {
    pub config: FulltextConfig,
    pub included_fields: Set<Seq<char>>,
    pub name: Seq<char>,
}

impl View for FulltextDefinition {
    type V = FulltextDefinitionView;

    open spec fn view(&self) -> FulltextDefinitionView {
        FulltextDefinitionView {
            config: self.config,
            included_fields: self.included_fields@,
            name: self.name@,
        }
    }
}

/// The name that the annotation gives the index: its `name` argument, where
/// that is a string.
pub open spec fn fulltext_name(d: DirectiveView) -> Option<Seq<char>> {
    match entry_value(d.arguments, "name"@) {
        Some(ValueView::String(name)) => Some(name),
        _ => None,
    }
}

/// The token of the `algorithm` argument, where that is an enum value.
pub open spec fn fulltext_algorithm_token(d: DirectiveView) -> Option<Seq<char>> {
    match entry_value(d.arguments, "algorithm"@) {
        Some(ValueView::Enum(token)) => Some(token),
        _ => None,
    }
}

/// The `include` argument, where that is a list.
pub open spec fn fulltext_include(d: DirectiveView) -> Option<Seq<ValueView>> {
    match entry_value(d.arguments, "include"@) {
        Some(ValueView::List(items)) => Some(items),
        _ => None,
    }
}

/// The one entity that the index covers: the single entry of `include`, where
/// there is exactly one and it is an object.
pub open spec fn fulltext_entity(d: DirectiveView) -> Option<Seq<(Seq<char>, ValueView)>> {
    match fulltext_include(d) {
        Some(items) => if items.len() == 1 {
            match items[0] {
                ValueView::Object(entries) => Some(entries),
                _ => None,
            }
        } else {
            None
        },
        None => None,
    }
}

/// The `fields` list of the included entity.
pub open spec fn fulltext_fields(d: DirectiveView) -> Option<Seq<ValueView>> {
    match fulltext_entity(d) {
        Some(entries) => match entry_value(entries, "fields"@) {
            Some(ValueView::List(fields)) => Some(fields),
            _ => None,
        },
        None => None,
    }
}

/// The field that one entry of a `fields` list names: the `name` of the
/// object, where that is a string.
pub open spec fn included_field_name(entry: ValueView) -> Option<Seq<char>> {
    match entry {
        ValueView::Object(entries) => match entry_value(entries, "name"@) {
            Some(ValueView::String(name)) => Some(name),
            _ => None,
        },
        _ => None,
    }
}

/// Whether the annotation has the shape of a full-text index: a string
/// `name`, an `algorithm` that is `rank` or `proximityRank`, and an `include`
/// list of exactly one object, whose `fields` list is not empty and holds only
/// objects with a string `name`.
pub open spec fn fulltext_shape(d: DirectiveView) -> bool {
    &&& fulltext_name(d) is Some
    &&& fulltext_algorithm_token(d) matches Some(token) && algorithm_of(token) is Some
    &&& fulltext_fields(d) matches Some(fields) && fields.len() > 0 && forall|i: int|
        0 <= i < fields.len() ==> included_field_name(#[trigger] fields[i]) is Some
}

/// The names of the fields that the index covers, in the order written.
pub open spec fn fulltext_field_names(d: DirectiveView) -> Seq<Seq<char>> {
    let fields = fulltext_fields(d)->Some_0;
    Seq::new(fields.len(), |i: int| included_field_name(fields[i])->Some_0)
}

/// The index that an annotation of the right shape defines.
pub open spec fn fulltext_definition(d: DirectiveView) -> FulltextDefinitionView {
    FulltextDefinitionView {
        config: FulltextConfig {
            language: (),
            algorithm: algorithm_of(fulltext_algorithm_token(d)->Some_0)->Some_0,
        },
        included_fields: fulltext_field_names(d).to_set(),
        name: fulltext_name(d)->Some_0,
    }
}

/// The field that one entry of a `fields` list names.
pub fn read_included_field(entry: &Value) -> (name: Option<&str>)
    ensures
        match name {
            Some(n) => included_field_name(entry@) == Some(n@),
            None => included_field_name(entry@) is None,
        },
{
    match entry.as_object() {
        Some(entries) => match find_entry(entries, "name") {
            Some(value) => value.as_str(),
            None => None,
        },
        None => None,
    }
}

/// The `fields` list of the entity that the annotation includes.
pub fn read_fulltext_fields(directive: &Directive) -> (fields: Option<&Vec<Value>>)
    ensures
        match fields {
            Some(f) => fulltext_fields(directive@) == Some(values_view(f@)),
            None => fulltext_fields(directive@) is None,
        },
{
    let entities = match directive.argument("include") {
        Some(value) => match value.as_list() {
            Some(items) => items,
            None => { return None; },
        },
        None => { return None; },
    };
    if entities.len() != 1 {
        return None;
    }
    assert(values_view(entities@)[0] == entities@[0]@);
    let entity = match entities[0].as_object() {
        Some(entries) => entries,
        None => { return None; },
    };
    match find_entry(entity, "fields") {
        Some(value) => value.as_list(),
        None => None,
    }
}

/// Whether the annotation has the shape of a full-text index.
pub fn has_fulltext_shape(directive: &Directive) -> (ok: bool)
    ensures
        ok == fulltext_shape(directive@),
{
    let named = match directive.argument("name") {
        Some(value) => value.as_str().is_some(),
        None => false,
    };
    if !named {
        return false;
    }
    let ranked = match directive.argument("algorithm") {
        Some(value) => match value.as_enum() {
            Some(token) => FulltextAlgorithm::try_from(token).is_ok(),
            None => false,
        },
        None => false,
    };
    if !ranked {
        return false;
    }
    let fields = match read_fulltext_fields(directive) {
        Some(fields) => fields,
        None => { return false; },
    };
    if fields.len() == 0 {
        return false;
    }
    let mut i: usize = 0;
    while i < fields.len()
        invariant
            i <= fields.len(),
            fulltext_fields(directive@) == Some(values_view(fields@)),
            forall|j: int|
                0 <= j < i ==> included_field_name(#[trigger] values_view(fields@)[j]) is Some,
        decreases fields.len() - i,
    {
        if read_included_field(&fields[i]).is_none() {
            assert(included_field_name(values_view(fields@)[i as int]) is None);
            return false;
        }
        i += 1;
    }
    true
}

impl FulltextDefinition {
    /// The index that a validated annotation defines. The language stays at
    /// its reserved value.
    pub fn extract(directive: &Directive) -> (r: FulltextDefinition)
        requires
            fulltext_shape(directive@),
        ensures
            r@ == fulltext_definition(directive@),
    {
        let name = directive.argument("name").unwrap().as_str().unwrap();
        let algorithm = FulltextAlgorithm::try_from(
            directive.argument("algorithm").unwrap().as_enum().unwrap(),
        ).unwrap();
        let language = ();
        let included_field_values = read_fulltext_fields(directive).unwrap();
        let mut included_fields = StringHashSet::new();
        let ghost names = fulltext_field_names(directive@);
        let mut i: usize = 0;
        while i < included_field_values.len()
            invariant
                i <= included_field_values.len(),
                fulltext_shape(directive@),
                fulltext_fields(directive@) == Some(values_view(included_field_values@)),
                names == fulltext_field_names(directive@),
                names.len() == included_field_values.len(),
                included_fields@ == names.take(i as int).to_set(),
            decreases included_field_values.len() - i,
        {
            assert(values_view(included_field_values@)[i as int] == included_field_values@[i as int]@);
            let field = read_included_field(&included_field_values[i]).unwrap();
            included_fields.insert(owned(field));
            proof {
                assert(field@ == names[i as int]);
                assert(names.take(i + 1) =~= names.take(i as int).push(names[i as int]));
                assert(names.take(i as int).push(names[i as int]).to_set() =~= names.take(
                    i as int,
                ).to_set().insert(names[i as int])) by {
                    let before = names.take(i as int);
                    let after = before.push(names[i as int]);
                    assert forall|s: Seq<char>| after.contains(s) <==> (before.contains(s) || s
                        == names[i as int]) by {
                        if after.contains(s) {
                            let k = choose|k: int| 0 <= k < after.len() && after[k] == s;
                            if k < before.len() {
                                assert(before[k] == s);
                            }
                        }
                        if before.contains(s) {
                            let k = choose|k: int| 0 <= k < before.len() && before[k] == s;
                            assert(after[k] == s);
                        }
                        if s == names[i as int] {
                            assert(after[before.len() as int] == s);
                        }
                    }
                }
            }
            i += 1;
        }
        assert(names.take(i as int) =~= names);
        FulltextDefinition {
            config: FulltextConfig { language, algorithm },
            included_fields,
            name: owned(name),
        }
    }

    /// The index that the annotation defines, if it has the shape of one.
    pub fn try_extract(directive: &Directive) -> (r: Option<FulltextDefinition>)
        ensures
            match r {
                Some(definition) => fulltext_shape(directive@) && definition@
                    == fulltext_definition(directive@),
                None => !fulltext_shape(directive@),
            },
    {
        if has_fulltext_shape(directive) {
            Some(FulltextDefinition::extract(directive))
        } else {
            None
        }
    }
}

/// The view of a list of full-text indexes.
pub open spec fn indexes_view(definitions: Seq<FulltextDefinition>) -> Seq<
    FulltextDefinitionView,
> {
    Seq::new(definitions.len(), |i: int| definitions[i]@)
}

/// The full-text indexes that the first `n` annotations define. An annotation
/// that is not named `fulltext`, or has not the shape of an index, defines
/// none.
pub open spec fn directives_definitions(directives: Seq<DirectiveView>, n: int) -> Seq<
    FulltextDefinitionView,
>
    decreases n,
{
    if n <= 0 {
        Seq::empty()
    } else {
        let so_far = directives_definitions(directives, n - 1);
        let d = directives[n - 1];
        if d.name == "fulltext"@ && fulltext_shape(d) {
            so_far.push(fulltext_definition(d))
        } else {
            so_far
        }
    }
}

/// The full-text indexes that the object types among the first `n`
/// declarations define.
pub open spec fn definitions_upto(doc: DocumentView, n: int) -> Seq<FulltextDefinitionView>
    decreases n,
{
    if n <= 0 {
        Seq::empty()
    } else {
        match doc.definitions[n - 1] {
            DefinitionView::Object(object) => definitions_upto(doc, n - 1) + directives_definitions(
                object.directives,
                object.directives.len() as int,
            ),
            _ => definitions_upto(doc, n - 1),
        }
    }
}

/// The full-text indexes of a schema, in source order.
pub open spec fn fulltext_definitions_of(doc: DocumentView) -> Seq<FulltextDefinitionView> {
    definitions_upto(doc, doc.definitions.len() as int)
}

/// The full-text indexes of a schema, in source order. A schema without
/// full-text annotations has none: the list is empty.
pub fn fulltext_definitions(document: &Document) -> (definitions: Vec<FulltextDefinition>)
    ensures
        indexes_view(definitions@) == fulltext_definitions_of(document@),
{
    let mut definitions: Vec<FulltextDefinition> = Vec::new();
    let mut n: usize = 0;
    assert(indexes_view(definitions@) =~= definitions_upto(document@, 0));
    while n < document.definitions.len()
        invariant
            n <= document.definitions.len(),
            indexes_view(definitions@) == definitions_upto(document@, n as int),
        decreases document.definitions.len() - n,
    {
        if let Definition::Object(object) = &document.definitions[n] {
            assert(document@.definitions[n as int] == DefinitionView::Object(object@));
            let ghost head = indexes_view(definitions@);
            let mut m: usize = 0;
            assert(indexes_view(definitions@) =~= head + directives_definitions(
                object@.directives,
                0,
            ));
            while m < object.directives.len()
                invariant
                    m <= object.directives.len(),
                    indexes_view(definitions@) == head + directives_definitions(
                        object@.directives,
                        m as int,
                    ),
                decreases object.directives.len() - m,
            {
                let directive = &object.directives[m];
                assert(object@.directives[m as int] == directive@);
                if str_eq(directive.name.as_str(), "fulltext") {
                    if let Some(definition) = FulltextDefinition::try_extract(directive) {
                        let ghost so_far = indexes_view(definitions@);
                        definitions.push(definition);
                        assert(indexes_view(definitions@) =~= so_far.push(
                            fulltext_definition(directive@),
                        ));
                    }
                }
                assert(indexes_view(definitions@) =~= head + directives_definitions(
                    object@.directives,
                    m + 1,
                ));
                m += 1;
            }
        }
        n += 1;
    }
    definitions
}

} // verus!
