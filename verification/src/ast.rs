//! The declaration model: the parsed form of a schema that every other module
//! reads. Each type has a view, its mathematical counterpart over sequences,
//! and the contracts of the library are stated over those views.

use crate::text::str_eq;
use vstd::prelude::*;

verus! {

/// A type reference: a named type, or a list or non-null wrapper around one.
#[derive(Debug, PartialEq, Eq)]
pub enum Type {
    NamedType(String),
    ListType(Box<Type>),
    NonNullType(Box<Type>),
}

/// The view of a [`Type`].
pub enum TypeView {
    NamedType(Seq<char>),
    ListType(Box<TypeView>),
    NonNullType(Box<TypeView>),
}

impl View for Type {
    type V = TypeView;

    open spec fn view(&self) -> TypeView
        decreases self,
    {
        match self {
            Type::NamedType(name) => TypeView::NamedType(name@),
            Type::ListType(inner) => TypeView::ListType(Box::new((**inner).view())),
            Type::NonNullType(inner) => TypeView::NonNullType(Box::new((**inner).view())),
        }
    }
}

/// The name that is left of a type once every list and non-null wrapper is
/// taken off.
pub open spec fn base_type(t: TypeView) -> Seq<char>
    decreases t,
{
    match t {
        TypeView::NamedType(name) => name,
        TypeView::ListType(inner) => base_type(*inner),
        TypeView::NonNullType(inner) => base_type(*inner),
    }
}

impl Clone for Type {
    fn clone(&self) -> (r: Self)
        ensures
            r@ == self@,
        decreases self,
    {
        match self {
            Type::NamedType(name) => Type::NamedType(name.clone()),
            Type::ListType(inner) => Type::ListType(Box::new((**inner).clone())),
            Type::NonNullType(inner) => Type::NonNullType(Box::new((**inner).clone())),
        }
    }
}

impl Type {
    /// The name of the innermost named type.
    pub fn get_base_type(&self) -> (name: &str)
        ensures
            name@ == base_type(self@),
        decreases self,
    {
        match self {
            Type::NamedType(name) => name.as_str(),
            Type::ListType(inner) => inner.get_base_type(),
            Type::NonNullType(inner) => inner.get_base_type(),
        }
    }

    /// Whether two type references are the same type.
    pub fn same_as(&self, other: &Type) -> (same: bool)
        ensures
            same == (self@ == other@),
        decreases self,
    {
        match (self, other) {
            (Type::NamedType(a), Type::NamedType(b)) => str_eq(a.as_str(), b.as_str()),
            (Type::ListType(a), Type::ListType(b)) => a.same_as(b),
            (Type::NonNullType(a), Type::NonNullType(b)) => a.same_as(b),
            _ => false,
        }
    }
}

/// A value written in an annotation.
#[derive(Debug, PartialEq, Eq)]
pub enum Value {
    Variable(String),
    Int(i64),
    /// A floating-point number, held as the bits of its IEEE 754 double.
    Float(u64),
    String(String),
    Boolean(bool),
    Null,
    Enum(String),
    List(Vec<Value>),
    /// An object: its entries, each a key and a value. A key is looked up from
    /// the front, so the first entry with that key is the one that counts.
    Object(Vec<(String, Value)>),
}

/// The view of a [`Value`].
pub enum ValueView {
    Variable(Seq<char>),
    Int(int),
    Float(int),
    String(Seq<char>),
    Boolean(bool),
    Null,
    Enum(Seq<char>),
    List(Seq<ValueView>),
    Object(Seq<(Seq<char>, ValueView)>),
}

/// The view of a value: each text as its characters, each list and object
/// as the sequence of the views of what it holds.
pub open spec fn value_view(v: Value) -> ValueView
    decreases v,
{
    match v {
        Value::Variable(name) => ValueView::Variable(name@),
        Value::Int(n) => ValueView::Int(n as int),
        Value::Float(bits) => ValueView::Float(bits as int),
        Value::String(text) => ValueView::String(text@),
        Value::Boolean(b) => ValueView::Boolean(b),
        Value::Null => ValueView::Null,
        Value::Enum(token) => ValueView::Enum(token@),
        Value::List(items) => ValueView::List(
            Seq::new(
                items@.len(),
                |i: int|
                    if 0 <= i < items@.len() {
                        value_view(items@[i])
                    } else {
                        ValueView::Null
                    },
            ),
        ),
        Value::Object(entries) => ValueView::Object(
            Seq::new(
                entries@.len(),
                |i: int|
                    if 0 <= i < entries@.len() {
                        (entries@[i].0@, value_view(entries@[i].1))
                    } else {
                        (Seq::empty(), ValueView::Null)
                    },
            ),
        ),
    }
}

impl View for Value {
    type V = ValueView;

    open spec fn view(&self) -> ValueView {
        value_view(*self)
    }
}

/// The view of a list of keyed values.
pub open spec fn entries_view(entries: Seq<(String, Value)>) -> Seq<(Seq<char>, ValueView)> {
    Seq::new(entries.len(), |i: int| (entries[i].0@, entries[i].1@))
}

/// The view of a list of values.
pub open spec fn values_view(items: Seq<Value>) -> Seq<ValueView> {
    Seq::new(items.len(), |i: int| items[i]@)
}

/// The view of an object is the view of its entries, one by one.
pub proof fn lemma_object_view(v: Value)
    requires
        v is Object,
    ensures
        v@ == ValueView::Object(entries_view(v->Object_0@)),
{
    let e = v->Object_0;
    assert(v@->Object_0 =~= entries_view(e@));
}

/// The view of a list is the view of its items, one by one.
pub proof fn lemma_list_view(v: Value)
    requires
        v is List,
    ensures
        v@ == ValueView::List(values_view(v->List_0@)),
{
    let l = v->List_0;
    assert(v@->List_0 =~= values_view(l@));
}

/// The position of the first entry with the key `key` among the first `n`
/// entries, or `n` if there is none.
pub open spec fn entry_position<T>(entries: Seq<(Seq<char>, T)>, key: Seq<char>, n: int) -> int
    decreases n,
{
    if n <= 0 {
        0
    } else {
        let before = entry_position(entries, key, n - 1);
        if before < n - 1 {
            before
        } else if entries[n - 1].0 == key {
            n - 1
        } else {
            n
        }
    }
}

/// The value of the first entry with the key `key`, if there is one.
pub open spec fn entry_value<T>(entries: Seq<(Seq<char>, T)>, key: Seq<char>) -> Option<T> {
    let at = entry_position(entries, key, entries.len() as int);
    if at < entries.len() {
        Some(entries[at].1)
    } else {
        None
    }
}

/// `entry_position` is the least position that holds the key.
pub proof fn lemma_entry_position<T>(entries: Seq<(Seq<char>, T)>, key: Seq<char>, n: int)
    requires
        0 <= n <= entries.len(),
    ensures
        0 <= entry_position(entries, key, n) <= n,
        entry_position(entries, key, n) < n ==> entries[entry_position(entries, key, n)].0 == key,
        forall|j: int| 0 <= j < entry_position(entries, key, n) ==> (#[trigger] entries[j]).0 != key,
    decreases n,
{
    if n > 0 {
        lemma_entry_position(entries, key, n - 1);
    }
}

/// A key that some entry holds is found, at the first such entry.
pub proof fn lemma_entry_found<T>(entries: Seq<(Seq<char>, T)>, key: Seq<char>, at: int)
    requires
        0 <= at < entries.len(),
        entries[at].0 == key,
        forall|j: int| 0 <= j < at ==> (#[trigger] entries[j]).0 != key,
    ensures
        entry_position(entries, key, entries.len() as int) == at,
        entry_value(entries, key) == Some(entries[at].1),
{
    lemma_entry_position(entries, key, entries.len() as int);
}

/// A key that no entry holds is not found.
pub proof fn lemma_entry_absent<T>(entries: Seq<(Seq<char>, T)>, key: Seq<char>)
    requires
        forall|j: int| 0 <= j < entries.len() ==> (#[trigger] entries[j]).0 != key,
    ensures
        entry_position(entries, key, entries.len() as int) == entries.len(),
        entry_value(entries, key) is None,
{
    lemma_entry_position(entries, key, entries.len() as int);
}

/// Finds the value under `key` in a list of keyed values.
pub fn find_entry<'a>(entries: &'a Vec<(String, Value)>, key: &str) -> (found: Option<&'a Value>)
    ensures
        found matches Some(v) ==> entry_value(entries_view(entries@), key@) == Some(v@),
        found is None ==> entry_value(entries_view(entries@), key@) is None,
{
    let mut i: usize = 0;
    while i < entries.len()
        invariant
            i <= entries.len(),
            forall|j: int| 0 <= j < i ==> (#[trigger] entries_view(entries@)[j]).0 != key@,
        decreases entries.len() - i,
    {
        if str_eq(entries[i].0.as_str(), key) {
            proof {
                lemma_entry_found(entries_view(entries@), key@, i as int);
            }
            return Some(&entries[i].1);
        }
        i += 1;
    }
    proof {
        lemma_entry_absent(entries_view(entries@), key@);
    }
    None
}

/// Copies a list of keyed values.
pub fn clone_entries(entries: &Vec<(String, Value)>) -> (copy: Vec<(String, Value)>)
    ensures
        entries_view(copy@) == entries_view(entries@),
{
    let mut copy: Vec<(String, Value)> = Vec::new();
    let mut i: usize = 0;
    while i < entries.len()
        invariant
            i <= entries.len(),
            copy@.len() == i,
            forall|j: int|
                0 <= j < i ==> copy@[j].0@ == entries@[j].0@ && copy@[j].1@ == entries@[j].1@,
        decreases entries.len() - i,
    {
        copy.push((entries[i].0.clone(), entries[i].1.clone()));
        i += 1;
    }
    assert(entries_view(copy@) =~= entries_view(entries@));
    copy
}

impl Clone for Value {
    fn clone(&self) -> (r: Self)
        ensures
            r@ == self@,
        decreases self,
    {
        match self {
            Value::Variable(name) => Value::Variable(name.clone()),
            Value::Int(n) => Value::Int(*n),
            Value::Float(bits) => Value::Float(*bits),
            Value::String(text) => Value::String(text.clone()),
            Value::Boolean(b) => Value::Boolean(*b),
            Value::Null => Value::Null,
            Value::Enum(token) => Value::Enum(token.clone()),
            Value::List(items) => {
                let mut copy: Vec<Value> = Vec::new();
                let mut i: usize = 0;
                while i < items.len()
                    invariant
                        i <= items.len(),
                        *self == Value::List(*items),
                        copy@.len() == i,
                        forall|j: int| 0 <= j < i ==> copy@[j]@ == items@[j]@,
                    decreases items.len() - i,
                {
                    proof {
                        assert(decreases_to!(*self => self->List_0));
                        assert(decreases_to!(items => items@[i as int]));
                    }
                    copy.push(items[i].clone());
                    i += 1;
                }
                let r = Value::List(copy);
                assert(r@->List_0 =~= self@->List_0);
                r
            },
            Value::Object(entries) => {
                let mut copy: Vec<(String, Value)> = Vec::new();
                let mut i: usize = 0;
                while i < entries.len()
                    invariant
                        i <= entries.len(),
                        *self == Value::Object(*entries),
                        copy@.len() == i,
                        forall|j: int|
                            0 <= j < i ==> copy@[j].0@ == entries@[j].0@ && copy@[j].1@
                                == entries@[j].1@,
                    decreases entries.len() - i,
                {
                    proof {
                        assert(decreases_to!(*self => self->Object_0));
                        assert(decreases_to!(entries => entries@[i as int]));
                        assert(decreases_to!(entries@[i as int] => entries@[i as int].1));
                    }
                    copy.push((entries[i].0.clone(), entries[i].1.clone()));
                    i += 1;
                }
                let r = Value::Object(copy);
                assert(r@->Object_0 =~= self@->Object_0);
                r
            },
        }
    }
}

impl Value {
    /// The text of a string value.
    pub fn as_str(&self) -> (text: Option<&str>)
        ensures
            match text {
                Some(t) => self@ == ValueView::String(t@),
                None => !(self@ is String),
            },
    {
        match self {
            Value::String(text) => Some(text.as_str()),
            _ => None,
        }
    }

    /// The token of an enum value.
    pub fn as_enum(&self) -> (token: Option<&str>)
        ensures
            match token {
                Some(t) => self@ == ValueView::Enum(t@),
                None => !(self@ is Enum),
            },
    {
        match self {
            Value::Enum(token) => Some(token.as_str()),
            _ => None,
        }
    }

    /// The items of a list value.
    pub fn as_list(&self) -> (found: Option<&Vec<Value>>)
        ensures
            match found {
                Some(l) => self@ == ValueView::List(values_view(l@)),
                None => !(self@ is List),
            },
    {
        match self {
            Value::List(items) => {
                proof {
                    lemma_list_view(*self);
                }
                Some(items)
            },
            _ => None,
        }
    }

    /// The entries of an object value.
    pub fn as_object(&self) -> (found: Option<&Vec<(String, Value)>>)
        ensures
            match found {
                Some(e) => self@ == ValueView::Object(entries_view(e@)),
                None => !(self@ is Object),
            },
    {
        match self {
            Value::Object(entries) => {
                proof {
                    lemma_object_view(*self);
                }
                Some(entries)
            },
            _ => None,
        }
    }
}

/// An annotation on a type or a field: `@name(argument: value, ...)`.
#[derive(Debug, PartialEq, Eq)]
pub struct Directive {
    pub name: String,
    pub arguments: Vec<(String, Value)>,
}

/// The view of a [`Directive`].
pub struct DirectiveView {
    pub name: Seq<char>,
    pub arguments: Seq<(Seq<char>, ValueView)>,
}

impl View for Directive {
    type V = DirectiveView;

    open spec fn view(&self) -> DirectiveView {
        DirectiveView { name: self.name@, arguments: entries_view(self.arguments@) }
    }
}

impl Clone for Directive {
    fn clone(&self) -> (r: Self)
        ensures
            r@ == self@,
    {
        Directive { name: self.name.clone(), arguments: clone_entries(&self.arguments) }
    }
}

impl Directive {
    /// The value of the argument `name`, if the annotation has one.
    pub fn argument(&self, name: &str) -> (value: Option<&Value>)
        ensures
            value matches Some(v) ==> entry_value(self@.arguments, name@) == Some(v@),
            value is None ==> entry_value(self@.arguments, name@) is None,
    {
        find_entry(&self.arguments, name)
    }
}

/// The view of a list of annotations.
pub open spec fn directives_view(directives: Seq<Directive>) -> Seq<DirectiveView> {
    Seq::new(directives.len(), |i: int| directives[i]@)
}

/// Copies a list of annotations.
pub fn clone_directives(directives: &Vec<Directive>) -> (copy: Vec<Directive>)
    ensures
        directives_view(copy@) == directives_view(directives@),
{
    let copy = directives.clone();
    assert(directives_view(copy@) =~= directives_view(directives@));
    copy
}

/// An argument that a field takes.
#[derive(Debug, PartialEq, Eq)]
pub struct InputValue {
    pub name: String,
    pub value_type: Type,
    pub default_value: Option<Value>,
    pub directives: Vec<Directive>,
}

/// The view of an [`InputValue`].
pub struct InputValueView {
    pub name: Seq<char>,
    pub value_type: TypeView,
    pub default_value: Option<ValueView>,
    pub directives: Seq<DirectiveView>,
}

impl View for InputValue {
    type V = InputValueView;

    open spec fn view(&self) -> InputValueView {
        InputValueView {
            name: self.name@,
            value_type: self.value_type@,
            default_value: match self.default_value {
                Some(v) => Some(v@),
                None => None,
            },
            directives: directives_view(self.directives@),
        }
    }
}

impl Clone for InputValue {
    fn clone(&self) -> (r: Self)
        ensures
            r@ == self@,
    {
        let default_value = match &self.default_value {
            Some(v) => Some(v.clone()),
            None => None,
        };
        InputValue {
            name: self.name.clone(),
            value_type: self.value_type.clone(),
            default_value,
            directives: clone_directives(&self.directives),
        }
    }
}

/// The view of a list of field arguments.
pub open spec fn input_values_view(arguments: Seq<InputValue>) -> Seq<InputValueView> {
    Seq::new(arguments.len(), |i: int| arguments[i]@)
}

/// A field of an object or interface type.
#[derive(Debug, PartialEq, Eq)]
pub struct Field {
    pub name: String,
    pub arguments: Vec<InputValue>,
    pub field_type: Type,
    pub directives: Vec<Directive>,
}

/// The view of a [`Field`].
pub struct FieldView {
    pub name: Seq<char>,
    pub arguments: Seq<InputValueView>,
    pub field_type: TypeView,
    pub directives: Seq<DirectiveView>,
}

impl View for Field {
    type V = FieldView;

    open spec fn view(&self) -> FieldView {
        FieldView {
            name: self.name@,
            arguments: input_values_view(self.arguments@),
            field_type: self.field_type@,
            directives: directives_view(self.directives@),
        }
    }
}

impl Clone for Field {
    fn clone(&self) -> (r: Self)
        ensures
            r@ == self@,
    {
        let arguments = self.arguments.clone();
        assert(input_values_view(arguments@) =~= input_values_view(self.arguments@));
        Field {
            name: self.name.clone(),
            arguments,
            field_type: self.field_type.clone(),
            directives: clone_directives(&self.directives),
        }
    }
}

/// The view of a list of fields.
pub open spec fn fields_view(fields: Seq<Field>) -> Seq<FieldView> {
    Seq::new(fields.len(), |i: int| fields[i]@)
}

/// The position of the first field named `name` among the first `n` fields,
/// or `n` if there is none.
pub open spec fn field_position(fields: Seq<FieldView>, name: Seq<char>, n: int) -> int
    decreases n,
{
    if n <= 0 {
        0
    } else {
        let before = field_position(fields, name, n - 1);
        if before < n - 1 {
            before
        } else if fields[n - 1].name == name {
            n - 1
        } else {
            n
        }
    }
}

/// The first field named `name`, if there is one.
pub open spec fn field_named(fields: Seq<FieldView>, name: Seq<char>) -> Option<FieldView> {
    let at = field_position(fields, name, fields.len() as int);
    if at < fields.len() {
        Some(fields[at])
    } else {
        None
    }
}

/// `field_position` is the least position of a field with that name.
pub proof fn lemma_field_position(fields: Seq<FieldView>, name: Seq<char>, n: int)
    requires
        0 <= n <= fields.len(),
    ensures
        0 <= field_position(fields, name, n) <= n,
        field_position(fields, name, n) < n ==> fields[field_position(fields, name, n)].name
            == name,
        forall|j: int| 0 <= j < field_position(fields, name, n) ==> (#[trigger] fields[j]).name != name,
    decreases n,
{
    if n > 0 {
        lemma_field_position(fields, name, n - 1);
    }
}

/// A field whose name no earlier field has is the one found under that name.
pub proof fn lemma_field_found(fields: Seq<FieldView>, name: Seq<char>, at: int)
    requires
        0 <= at < fields.len(),
        fields[at].name == name,
        forall|j: int| 0 <= j < at ==> (#[trigger] fields[j]).name != name,
    ensures
        field_named(fields, name) == Some(fields[at]),
{
    lemma_field_position(fields, name, fields.len() as int);
}

/// Finds the first field named `name`.
pub fn find_field<'a>(fields: &'a Vec<Field>, name: &str) -> (found: Option<&'a Field>)
    ensures
        found matches Some(f) ==> field_named(fields_view(fields@), name@) == Some(f@),
        found is None ==> field_named(fields_view(fields@), name@) is None,
{
    let mut i: usize = 0;
    while i < fields.len()
        invariant
            i <= fields.len(),
            forall|j: int| 0 <= j < i ==> (#[trigger] fields_view(fields@)[j]).name != name@,
        decreases fields.len() - i,
    {
        if str_eq(fields[i].name.as_str(), name) {
            proof {
                lemma_field_found(fields_view(fields@), name@, i as int);
            }
            return Some(&fields[i]);
        }
        i += 1;
    }
    proof {
        lemma_field_position(fields_view(fields@), name@, fields.len() as int);
    }
    None
}

/// Copies a list of fields.
pub fn clone_fields(fields: &Vec<Field>) -> (copy: Vec<Field>)
    ensures
        fields_view(copy@) == fields_view(fields@),
{
    let copy = fields.clone();
    assert(fields_view(copy@) =~= fields_view(fields@));
    copy
}

/// The view of a list of names.
pub open spec fn names_view(names: Seq<String>) -> Seq<Seq<char>> {
    Seq::new(names.len(), |i: int| names[i]@)
}

/// Copies a list of names.
pub fn clone_names(names: &Vec<String>) -> (copy: Vec<String>)
    ensures
        names_view(copy@) == names_view(names@),
{
    let copy = names.clone();
    assert(names_view(copy@) =~= names_view(names@));
    copy
}

/// An object type: in a subgraph schema, the declaration of an entity type.
#[derive(Debug, PartialEq, Eq)]
pub struct ObjectType {
    pub name: String,
    pub implements_interfaces: Vec<String>,
    pub directives: Vec<Directive>,
    pub fields: Vec<Field>,
}

/// The view of an [`ObjectType`].
pub struct ObjectTypeView {
    pub name: Seq<char>,
    pub implements_interfaces: Seq<Seq<char>>,
    pub directives: Seq<DirectiveView>,
    pub fields: Seq<FieldView>,
}

impl View for ObjectType {
    type V = ObjectTypeView;

    open spec fn view(&self) -> ObjectTypeView {
        ObjectTypeView {
            name: self.name@,
            implements_interfaces: names_view(self.implements_interfaces@),
            directives: directives_view(self.directives@),
            fields: fields_view(self.fields@),
        }
    }
}

impl Clone for ObjectType {
    fn clone(&self) -> (r: Self)
        ensures
            r@ == self@,
    {
        ObjectType {
            name: self.name.clone(),
            implements_interfaces: clone_names(&self.implements_interfaces),
            directives: clone_directives(&self.directives),
            fields: clone_fields(&self.fields),
        }
    }
}

impl ObjectType {
    /// An object type of that name, with no interface, annotation or field.
    pub fn new(name: String) -> (r: Self)
        ensures
            r@ == (ObjectTypeView {
                name: name@,
                implements_interfaces: Seq::empty(),
                directives: Seq::empty(),
                fields: Seq::empty(),
            }),
    {
        let r = ObjectType {
            name,
            implements_interfaces: Vec::new(),
            directives: Vec::new(),
            fields: Vec::new(),
        };
        assert(r@.implements_interfaces =~= Seq::empty());
        assert(r@.directives =~= Seq::empty());
        assert(r@.fields =~= Seq::empty());
        r
    }

    /// The first field named `name`.
    pub fn field(&self, name: &str) -> (found: Option<&Field>)
        ensures
            found matches Some(f) ==> field_named(self@.fields, name@) == Some(f@),
            found is None ==> field_named(self@.fields, name@) is None,
    {
        find_field(&self.fields, name)
    }
}

/// An interface type.
#[derive(Debug, PartialEq, Eq)]
pub struct InterfaceType {
    pub name: String,
    pub directives: Vec<Directive>,
    pub fields: Vec<Field>,
}

/// The view of an [`InterfaceType`].
pub struct InterfaceTypeView {
    pub name: Seq<char>,
    pub directives: Seq<DirectiveView>,
    pub fields: Seq<FieldView>,
}

impl View for InterfaceType {
    type V = InterfaceTypeView;

    open spec fn view(&self) -> InterfaceTypeView {
        InterfaceTypeView {
            name: self.name@,
            directives: directives_view(self.directives@),
            fields: fields_view(self.fields@),
        }
    }
}

impl Clone for InterfaceType {
    fn clone(&self) -> (r: Self)
        ensures
            r@ == self@,
    {
        InterfaceType {
            name: self.name.clone(),
            directives: clone_directives(&self.directives),
            fields: clone_fields(&self.fields),
        }
    }
}

/// One declaration of a schema.
#[derive(Debug, PartialEq, Eq)]
pub enum Definition {
    Object(ObjectType),
    Interface(InterfaceType),
    /// Any other named type (a scalar, an enum, a union, an input object), of
    /// which only the name matters here.
    Other(String),
}

/// The view of a [`Definition`].
pub enum DefinitionView {
    Object(ObjectTypeView),
    Interface(InterfaceTypeView),
    Other(Seq<char>),
}

impl View for Definition {
    type V = DefinitionView;

    open spec fn view(&self) -> DefinitionView {
        match self {
            Definition::Object(t) => DefinitionView::Object(t@),
            Definition::Interface(t) => DefinitionView::Interface(t@),
            Definition::Other(name) => DefinitionView::Other(name@),
        }
    }
}

impl DefinitionView {
    /// The name of the type that the declaration declares.
    pub open spec fn name(self) -> Seq<char> {
        match self {
            DefinitionView::Object(t) => t.name,
            DefinitionView::Interface(t) => t.name,
            DefinitionView::Other(name) => name,
        }
    }
}

impl Clone for Definition {
    fn clone(&self) -> (r: Self)
        ensures
            r@ == self@,
    {
        match self {
            Definition::Object(t) => Definition::Object(t.clone()),
            Definition::Interface(t) => Definition::Interface(t.clone()),
            Definition::Other(name) => Definition::Other(name.clone()),
        }
    }
}

impl Definition {
    /// The name of the type that the declaration declares.
    pub fn name(&self) -> (name: &str)
        ensures
            name@ == self@.name(),
    {
        match self {
            Definition::Object(t) => t.name.as_str(),
            Definition::Interface(t) => t.name.as_str(),
            Definition::Other(name) => name.as_str(),
        }
    }
}

/// The view of a list of declarations.
pub open spec fn definitions_view(definitions: Seq<Definition>) -> Seq<DefinitionView> {
    Seq::new(definitions.len(), |i: int| definitions[i]@)
}

/// A schema: its declarations, in source order.
#[derive(Debug, PartialEq, Eq)]
pub struct Document {
    pub definitions: Vec<Definition>,
}

/// The view of a [`Document`].
pub struct DocumentView {
    pub definitions: Seq<DefinitionView>,
}

impl View for Document {
    type V = DocumentView;

    open spec fn view(&self) -> DocumentView {
        DocumentView { definitions: definitions_view(self.definitions@) }
    }
}

impl Clone for Document {
    fn clone(&self) -> (r: Self)
        ensures
            r@ == self@,
    {
        let definitions = self.definitions.clone();
        assert(definitions_view(definitions@) =~= definitions_view(self.definitions@));
        Document { definitions }
    }
}

/// The position of the first object type named `name` among the first `n`
/// declarations, or `n` if there is none.
pub open spec fn object_position(definitions: Seq<DefinitionView>, name: Seq<char>, n: int) -> int
    decreases n,
{
    if n <= 0 {
        0
    } else {
        let before = object_position(definitions, name, n - 1);
        if before < n - 1 {
            before
        } else if definitions[n - 1] is Object && definitions[n - 1].name() == name {
            n - 1
        } else {
            n
        }
    }
}

/// The position of the first interface type named `name` among the first `n`
/// declarations, or `n` if there is none.
pub open spec fn interface_position(
    definitions: Seq<DefinitionView>,
    name: Seq<char>,
    n: int,
) -> int
    decreases n,
{
    if n <= 0 {
        0
    } else {
        let before = interface_position(definitions, name, n - 1);
        if before < n - 1 {
            before
        } else if definitions[n - 1] is Interface && definitions[n - 1].name() == name {
            n - 1
        } else {
            n
        }
    }
}

impl DocumentView {
    /// The first object type named `name`.
    pub open spec fn object_type(self, name: Seq<char>) -> Option<ObjectTypeView> {
        let at = object_position(self.definitions, name, self.definitions.len() as int);
        if at < self.definitions.len() {
            Some(self.definitions[at]->Object_0)
        } else {
            None
        }
    }

    /// The first interface type named `name`.
    pub open spec fn interface_type(self, name: Seq<char>) -> Option<InterfaceTypeView> {
        let at = interface_position(self.definitions, name, self.definitions.len() as int);
        if at < self.definitions.len() {
            Some(self.definitions[at]->Interface_0)
        } else {
            None
        }
    }

    /// Whether the schema declares an object type named `name`.
    pub open spec fn has_object_type(self, name: Seq<char>) -> bool {
        exists|i: int|
            0 <= i < self.definitions.len() && (#[trigger] self.definitions[i]) is Object
                && self.definitions[i].name() == name
    }

    /// Whether the schema declares an interface type named `name`.
    pub open spec fn has_interface_type(self, name: Seq<char>) -> bool {
        exists|i: int|
            0 <= i < self.definitions.len() && (#[trigger] self.definitions[i]) is Interface
                && self.definitions[i].name() == name
    }
}

/// `object_position` is the least position of an object type with that name.
pub proof fn lemma_object_position(definitions: Seq<DefinitionView>, name: Seq<char>, n: int)
    requires
        0 <= n <= definitions.len(),
    ensures
        0 <= object_position(definitions, name, n) <= n,
        object_position(definitions, name, n) < n ==> {
            let at = object_position(definitions, name, n);
            definitions[at] is Object && definitions[at].name() == name
        },
        forall|j: int|
            0 <= j < object_position(definitions, name, n) ==> !((#[trigger] definitions[j]) is Object
                && definitions[j].name() == name),
    decreases n,
{
    if n > 0 {
        lemma_object_position(definitions, name, n - 1);
    }
}

/// `interface_position` is the least position of an interface type with that
/// name.
pub proof fn lemma_interface_position(definitions: Seq<DefinitionView>, name: Seq<char>, n: int)
    requires
        0 <= n <= definitions.len(),
    ensures
        0 <= interface_position(definitions, name, n) <= n,
        interface_position(definitions, name, n) < n ==> {
            let at = interface_position(definitions, name, n);
            definitions[at] is Interface && definitions[at].name() == name
        },
        forall|j: int|
            0 <= j < interface_position(definitions, name, n) ==> !((
            #[trigger] definitions[j]) is Interface && definitions[j].name() == name),
    decreases n,
{
    if n > 0 {
        lemma_interface_position(definitions, name, n - 1);
    }
}

/// An object type whose name no earlier object type has is the one found
/// under that name.
pub proof fn lemma_object_found(doc: DocumentView, name: Seq<char>, at: int)
    requires
        0 <= at < doc.definitions.len(),
        doc.definitions[at] is Object,
        doc.definitions[at].name() == name,
        forall|j: int|
            0 <= j < at ==> !((#[trigger] doc.definitions[j]) is Object && doc.definitions[j].name()
                == name),
    ensures
        doc.object_type(name) == Some(doc.definitions[at]->Object_0),
{
    lemma_object_position(doc.definitions, name, doc.definitions.len() as int);
}

/// An interface type whose name no earlier interface type has is the one
/// found under that name.
pub proof fn lemma_interface_found(doc: DocumentView, name: Seq<char>, at: int)
    requires
        0 <= at < doc.definitions.len(),
        doc.definitions[at] is Interface,
        doc.definitions[at].name() == name,
        forall|j: int|
            0 <= j < at ==> !((#[trigger] doc.definitions[j]) is Interface
                && doc.definitions[j].name() == name),
    ensures
        doc.interface_type(name) == Some(doc.definitions[at]->Interface_0),
{
    lemma_interface_position(doc.definitions, name, doc.definitions.len() as int);
}

/// An object type is found by its name exactly when the schema declares one,
/// and what is found is a declaration of the schema with that name.
pub proof fn lemma_object_type(doc: DocumentView, name: Seq<char>)
    ensures
        doc.object_type(name) is Some <==> doc.has_object_type(name),
        doc.object_type(name) matches Some(t) ==> t.name == name && doc.definitions.contains(
            DefinitionView::Object(t),
        ),
{
    lemma_object_position(doc.definitions, name, doc.definitions.len() as int);
}

/// An interface type is found by its name exactly when the schema declares
/// one, and what is found is a declaration of the schema with that name.
pub proof fn lemma_interface_type(doc: DocumentView, name: Seq<char>)
    ensures
        doc.interface_type(name) is Some <==> doc.has_interface_type(name),
        doc.interface_type(name) matches Some(t) ==> t.name == name && doc.definitions.contains(
            DefinitionView::Interface(t),
        ),
{
    lemma_interface_position(doc.definitions, name, doc.definitions.len() as int);
}

impl Document {
    /// The first object type named `name`.
    pub fn get_object_type(&self, name: &str) -> (found: Option<&ObjectType>)
        ensures
            found matches Some(t) ==> self@.object_type(name@) == Some(t@),
            found is None ==> self@.object_type(name@) is None,
    {
        let mut i: usize = 0;
        while i < self.definitions.len()
            invariant
                i <= self.definitions.len(),
                forall|j: int|
                    0 <= j < i ==> !((#[trigger] self@.definitions[j]) is Object
                        && self@.definitions[j].name() == name@),
            decreases self.definitions.len() - i,
        {
            if let Definition::Object(t) = &self.definitions[i] {
                if str_eq(t.name.as_str(), name) {
                    proof {
                        lemma_object_found(self@, name@, i as int);
                    }
                    return Some(t);
                }
            }
            i += 1;
        }
        proof {
            lemma_object_position(self@.definitions, name@, self.definitions.len() as int);
        }
        None
    }

    /// The first interface type named `name`.
    pub fn get_interface_type(&self, name: &str) -> (found: Option<&InterfaceType>)
        ensures
            found matches Some(t) ==> self@.interface_type(name@) == Some(t@),
            found is None ==> self@.interface_type(name@) is None,
    {
        let mut i: usize = 0;
        while i < self.definitions.len()
            invariant
                i <= self.definitions.len(),
                forall|j: int|
                    0 <= j < i ==> !((#[trigger] self@.definitions[j]) is Interface
                        && self@.definitions[j].name() == name@),
            decreases self.definitions.len() - i,
        {
            if let Definition::Interface(t) = &self.definitions[i] {
                if str_eq(t.name.as_str(), name) {
                    proof {
                        lemma_interface_found(self@, name@, i as int);
                    }
                    return Some(t);
                }
            }
            i += 1;
        }
        proof {
            lemma_interface_position(self@.definitions, name@, self.definitions.len() as int);
        }
        None
    }

    /// The root query type: the first object type named `Query`.
    pub fn get_root_query_type(&self) -> (found: Option<&ObjectType>)
        ensures
            found matches Some(t) ==> self@.object_type("Query"@) == Some(t@),
            found is None ==> self@.object_type("Query"@) is None,
    {
        self.get_object_type("Query")
    }

    /// The root subscription type: the first object type named `Subscription`.
    pub fn get_root_subscription_type(&self) -> (found: Option<&ObjectType>)
        ensures
            found matches Some(t) ==> self@.object_type("Subscription"@) == Some(t@),
            found is None ==> self@.object_type("Subscription"@) is None,
    {
        self.get_object_type("Subscription")
    }
}

} // verus!
