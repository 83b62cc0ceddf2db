//! The two lookup tables of a schema: for each object type the interfaces it
//! implements, and for each interface the object types that implement it.
//!
//! Both are filled in one pass over the object types, in source order. An
//! object type that names an interface the schema does not declare adds
//! nothing for that name.

use crate::ast::{
    entry_position, entry_value, lemma_entry_absent, lemma_entry_found, lemma_entry_position,
    lemma_interface_type, Definition, DefinitionView, Document, DocumentView, InterfaceType,
    InterfaceTypeView, ObjectType, ObjectTypeView,
};
use crate::text::{owned, str_eq};
use vstd::prelude::*;

verus! {

/// A table from names to lists, in the order in which the names were first
/// added. A name is looked up from the front.
#[derive(Debug, PartialEq, Eq)]
pub struct NameTable<V> {
    pub entries: Vec<(String, Vec<V>)>,
}

/// The view of a list of items.
pub open spec fn items_view<V: View>(items: Seq<V>) -> Seq<V::V> {
    Seq::new(items.len(), |j: int| items[j]@)
}

impl<V: View> View for NameTable<V> {
    type V = Seq<(Seq<char>, Seq<V::V>)>;

    open spec fn view(&self) -> Seq<(Seq<char>, Seq<V::V>)> {
        Seq::new(
            self.entries@.len(),
            |i: int| (self.entries@[i].0@, items_view(self.entries@[i].1@)),
        )
    }
}

/// The table with `item` added at the end of the list under `key`; a key that
/// the table does not hold yet goes to the end of the table.
pub open spec fn table_add<T>(table: Seq<(Seq<char>, Seq<T>)>, key: Seq<char>, item: T) -> Seq<
    (Seq<char>, Seq<T>),
> {
    let at = entry_position(table, key, table.len() as int);
    if at < table.len() {
        table.update(at, (key, table[at].1.push(item)))
    } else {
        table.push((key, seq![item]))
    }
}

/// Whether the list under `key` holds an item that `wanted` accepts.
pub open spec fn table_holds<T>(
    table: Seq<(Seq<char>, Seq<T>)>,
    key: Seq<char>,
    wanted: spec_fn(T) -> bool,
) -> bool {
    match entry_value(table, key) {
        Some(items) => exists|j: int| 0 <= j < items.len() && wanted(#[trigger] items[j]),
        None => false,
    }
}

/// Whether no key stands twice in the table and no list is empty.
pub open spec fn table_well_formed<T>(table: Seq<(Seq<char>, Seq<T>)>) -> bool {
    &&& forall|i: int, j: int|
        0 <= i < j < table.len() ==> (#[trigger] table[i]).0 != (#[trigger] table[j]).0
    &&& forall|i: int| 0 <= i < table.len() ==> (#[trigger] table[i]).1.len() > 0
}

/// What adding an item does to the lookups of a table: a key is held
/// afterwards if it was held or is the one added to; the list under the key
/// added to is the old one with the item at its end, or the item alone; the
/// other lists are as they were.
pub proof fn lemma_table_add_value<T>(
    table: Seq<(Seq<char>, Seq<T>)>,
    key: Seq<char>,
    item: T,
    k: Seq<char>,
)
    ensures
        entry_value(table_add(table, key, item), k) is Some <==> (entry_value(table, k) is Some || k
            == key),
        k != key ==> entry_value(table_add(table, key, item), k) == entry_value(table, k),
        k == key ==> entry_value(table_add(table, key, item), k) == Some(
            match entry_value(table, key) {
                Some(items) => items.push(item),
                None => seq![item],
            },
        ),
{
    let after = table_add(table, key, item);
    let at = entry_position(table, key, table.len() as int);
    lemma_entry_position(table, key, table.len() as int);
    let p = entry_position(table, k, table.len() as int);
    lemma_entry_position(table, k, table.len() as int);
    if at < table.len() {
        if k == key {
            lemma_entry_found(after, k, at);
        } else if p < table.len() {
            assert(p != at);
            lemma_entry_found(after, k, p);
        } else {
            lemma_entry_absent(after, k);
        }
    } else {
        if k == key {
            lemma_entry_found(after, k, table.len() as int);
        } else if p < table.len() {
            lemma_entry_found(after, k, p);
        } else {
            lemma_entry_absent(after, k);
        }
    }
}

/// Adding an item keeps the keys of a table apart and its lists non-empty.
pub proof fn lemma_table_add_well_formed<T>(
    table: Seq<(Seq<char>, Seq<T>)>,
    key: Seq<char>,
    item: T,
)
    requires
        table_well_formed(table),
    ensures
        table_well_formed(table_add(table, key, item)),
{
    lemma_entry_position(table, key, table.len() as int);
}

/// A list holds after an addition what it held before, and the new item under
/// the key it was added to.
pub proof fn lemma_table_add_holds<T>(
    table: Seq<(Seq<char>, Seq<T>)>,
    key: Seq<char>,
    item: T,
    k: Seq<char>,
    wanted: spec_fn(T) -> bool,
)
    ensures
        table_holds(table_add(table, key, item), k, wanted) <==> (table_holds(table, k, wanted) || (
        k == key && wanted(item))),
{
    lemma_table_add_value(table, key, item, k);
    let after = table_add(table, key, item);
    if k == key {
        let now = entry_value(after, k)->Some_0;
        match entry_value(table, key) {
            Some(before) => {
                assert(now == before.push(item));
                if table_holds(table, k, wanted) {
                    let j = choose|j: int| 0 <= j < before.len() && wanted(#[trigger] before[j]);
                    assert(now[j] == before[j]);
                    assert(wanted(now[j]));
                }
                if wanted(item) {
                    assert(now[before.len() as int] == item);
                    assert(wanted(now[before.len() as int]));
                }
                if table_holds(after, k, wanted) {
                    let j = choose|j: int| 0 <= j < now.len() && wanted(#[trigger] now[j]);
                    if j < before.len() {
                        assert(now[j] == before[j]);
                        assert(wanted(before[j]));
                    } else {
                        assert(now[j] == item);
                    }
                }
            },
            None => {
                assert(now == seq![item]);
                if wanted(item) {
                    assert(now[0] == item);
                    assert(wanted(now[0]));
                }
                if table_holds(after, k, wanted) {
                    let j = choose|j: int| 0 <= j < now.len() && wanted(#[trigger] now[j]);
                    assert(now[j] == item);
                }
            },
        }
    }
}

impl<V: View> NameTable<V> {
    /// A table that holds nothing.
    pub fn new() -> (r: Self)
        ensures
            r@ == Seq::<(Seq<char>, Seq<V::V>)>::empty(),
    {
        let r = NameTable { entries: Vec::new() };
        assert(r@ =~= Seq::<(Seq<char>, Seq<V::V>)>::empty());
        r
    }

    /// The number of names in the table.
    pub fn len(&self) -> (n: usize)
        ensures
            n == self@.len(),
    {
        self.entries.len()
    }

    /// The position of `key` in the table, or the length of the table.
    fn position(&self, key: &str) -> (at: usize)
        ensures
            at == entry_position(self@, key@, self@.len() as int),
    {
        let mut i: usize = 0;
        while i < self.entries.len()
            invariant
                i <= self.entries.len(),
                forall|j: int| 0 <= j < i ==> (#[trigger] self@[j]).0 != key@,
            decreases self.entries.len() - i,
        {
            if str_eq(self.entries[i].0.as_str(), key) {
                proof {
                    lemma_entry_found(self@, key@, i as int);
                }
                return i;
            }
            i += 1;
        }
        proof {
            lemma_entry_absent(self@, key@);
        }
        i
    }

    /// The list under `key`, if the table holds that name.
    pub fn get(&self, key: &str) -> (found: Option<&Vec<V>>)
        ensures
            match found {
                Some(items) => entry_value(self@, key@) == Some(items_view(items@)),
                None => entry_value(self@, key@) is None,
            },
    {
        let at = self.position(key);
        if at < self.entries.len() {
            Some(&self.entries[at].1)
        } else {
            None
        }
    }

    /// Whether the table holds the name `key`.
    pub fn contains_key(&self, key: &str) -> (held: bool)
        ensures
            held == (entry_value(self@, key@) is Some),
    {
        self.position(key) < self.entries.len()
    }

    /// Adds `item` at the end of the list under `key`.
    pub fn add(&mut self, key: &str, item: V)
        ensures
            final(self)@ == table_add(old(self)@, key@, item@),
    {
        let at = self.position(key);
        if at < self.entries.len() {
            proof {
                lemma_entry_position(self@, key@, self@.len() as int);
            }
            self.entries[at].1.push(item);
            assert(self@ =~= table_add(old(self)@, key@, item@)) by {
                let want = table_add(old(self)@, key@, item@);
                assert(self@.len() == want.len());
                assert forall|i: int| 0 <= i < want.len() implies self@[i] == want[i] by {
                    if i == at {
                        assert(self@[i].1 =~= want[i].1);
                    } else {
                        assert(self@[i].1 =~= want[i].1);
                    }
                }
            }
        } else {
            let mut items: Vec<V> = Vec::new();
            items.push(item);
            self.entries.push((owned(key), items));
            assert(self@ =~= table_add(old(self)@, key@, item@)) by {
                let want = table_add(old(self)@, key@, item@);
                assert(self@.len() == want.len());
                assert forall|i: int| 0 <= i < want.len() implies self@[i] == want[i] by {
                    assert(self@[i].1 =~= want[i].1);
                }
            }
        }
    }
}

impl Clone for NameTable<ObjectType> {
    fn clone(&self) -> (r: Self)
        ensures
            r@ == self@,
    {
        let mut entries: Vec<(String, Vec<ObjectType>)> = Vec::new();
        let mut i: usize = 0;
        while i < self.entries.len()
            invariant
                i <= self.entries.len(),
                entries@.len() == i,
                forall|j: int|
                    0 <= j < i ==> (#[trigger] entries@[j]).0@ == self.entries@[j].0@ && items_view(
                        entries@[j].1@,
                    ) == items_view(self.entries@[j].1@),
            decreases self.entries.len() - i,
        {
            let items = self.entries[i].1.clone();
            assert(items_view(items@) =~= items_view(self.entries@[i as int].1@));
            entries.push((self.entries[i].0.clone(), items));
            i += 1;
        }
        let r = NameTable { entries };
        assert(r@ =~= self@);
        r
    }
}

impl Clone for NameTable<InterfaceType> {
    fn clone(&self) -> (r: Self)
        ensures
            r@ == self@,
    {
        let mut entries: Vec<(String, Vec<InterfaceType>)> = Vec::new();
        let mut i: usize = 0;
        while i < self.entries.len()
            invariant
                i <= self.entries.len(),
                entries@.len() == i,
                forall|j: int|
                    0 <= j < i ==> (#[trigger] entries@[j]).0@ == self.entries@[j].0@ && items_view(
                        entries@[j].1@,
                    ) == items_view(self.entries@[j].1@),
            decreases self.entries.len() - i,
        {
            let items = self.entries[i].1.clone();
            assert(items_view(items@) =~= items_view(self.entries@[i as int].1@));
            entries.push((self.entries[i].0.clone(), items));
            i += 1;
        }
        let r = NameTable { entries };
        assert(r@ =~= self@);
        r
    }
}

/// The view of the two tables of a schema.
pub struct IndexView {
    pub interfaces_for_type: Seq<(Seq<char>, Seq<InterfaceTypeView>)>,
    pub types_for_interface: Seq<(Seq<char>, Seq<ObjectTypeView>)>,
}

/// The tables once the first `m` interfaces that `object` names are linked
/// into `before`: each name that the schema declares as an interface puts that
/// interface under the object type, and the object type under the interface.
pub open spec fn link_object(
    doc: DocumentView,
    object: ObjectTypeView,
    m: int,
    before: IndexView,
) -> IndexView
    decreases m,
{
    if m <= 0 {
        before
    } else {
        let so_far = link_object(doc, object, m - 1, before);
        let name = object.implements_interfaces[m - 1];
        match doc.interface_type(name) {
            Some(interface) => IndexView {
                interfaces_for_type: table_add(so_far.interfaces_for_type, object.name, interface),
                types_for_interface: table_add(so_far.types_for_interface, name, object),
            },
            None => so_far,
        }
    }
}

/// The tables of the first `n` declarations of the schema.
pub open spec fn index_upto(doc: DocumentView, n: int) -> IndexView
    decreases n,
{
    if n <= 0 {
        IndexView { interfaces_for_type: Seq::empty(), types_for_interface: Seq::empty() }
    } else {
        let so_far = index_upto(doc, n - 1);
        match doc.definitions[n - 1] {
            DefinitionView::Object(object) => link_object(
                doc,
                object,
                object.implements_interfaces.len() as int,
                so_far,
            ),
            _ => so_far,
        }
    }
}

/// The tables of a schema.
pub open spec fn index_of(doc: DocumentView) -> IndexView {
    index_upto(doc, doc.definitions.len() as int)
}

/// Whether the schema declares an object type that names the interface
/// `interface` among those it implements.
pub open spec fn has_implementer(doc: DocumentView, interface: Seq<char>) -> bool {
    exists|i: int, j: int|
        0 <= i < doc.definitions.len() && (#[trigger] doc.definitions[i]) is Object && 0 <= j
            < doc.definitions[i]->Object_0.implements_interfaces.len()
            && #[trigger] doc.definitions[i]->Object_0.implements_interfaces[j] == interface
}

/// Whether an object type named `object` stands under `interface` in the
/// table of implementers.
pub open spec fn lists_object(
    table: Seq<(Seq<char>, Seq<ObjectTypeView>)>,
    interface: Seq<char>,
    object: Seq<char>,
) -> bool {
    table_holds(table, interface, |o: ObjectTypeView| o.name == object)
}

/// Whether an interface named `interface` stands under `object` in the table
/// of interfaces.
pub open spec fn lists_interface(
    table: Seq<(Seq<char>, Seq<InterfaceTypeView>)>,
    object: Seq<char>,
    interface: Seq<char>,
) -> bool {
    table_holds(table, object, |f: InterfaceTypeView| f.name == interface)
}

/// What holds of the tables of any schema, whatever it declares:
/// no name stands twice in a table and no list is empty;
/// every interface in a list of the first table is declared by the schema;
/// a name stands in the second table only if the schema declares it as an
/// interface and some object type names it;
/// and the two tables mirror each other: an object type named `t` stands
/// under the interface `i` exactly when an interface named `i` stands under
/// `t`.
pub open spec fn index_sound(doc: DocumentView, index: IndexView) -> bool {
    &&& table_well_formed(index.interfaces_for_type)
    &&& table_well_formed(index.types_for_interface)
    &&& forall|e: int, j: int|
        0 <= e < index.interfaces_for_type.len() && 0 <= j
            < index.interfaces_for_type[e].1.len() ==> doc.has_interface_type(
            (#[trigger] index.interfaces_for_type[e].1[j]).name,
        )
    &&& forall|k: Seq<char>| #[trigger]
        entry_value(index.types_for_interface, k) is Some ==> doc.has_interface_type(k)
            && has_implementer(doc, k)
    &&& forall|t: Seq<char>, i: Seq<char>| #[trigger]
        lists_object(index.types_for_interface, i, t) <==> lists_interface(
            index.interfaces_for_type,
            t,
            i,
        )
}

/// `index_sound` holds after each link of an object type of the schema.
proof fn lemma_link_object_sound(
    doc: DocumentView,
    at: int,
    object: ObjectTypeView,
    m: int,
    before: IndexView,
)
    requires
        0 <= at < doc.definitions.len(),
        doc.definitions[at] == DefinitionView::Object(object),
        0 <= m <= object.implements_interfaces.len(),
        index_sound(doc, before),
    ensures
        index_sound(doc, link_object(doc, object, m, before)),
    decreases m,
{
    if m > 0 {
        lemma_link_object_sound(doc, at, object, m - 1, before);
        let so_far = link_object(doc, object, m - 1, before);
        let name = object.implements_interfaces[m - 1];
        lemma_interface_type(doc, name);
        match doc.interface_type(name) {
            Some(interface) => {
                let after = link_object(doc, object, m, before);
                lemma_table_add_well_formed(so_far.interfaces_for_type, object.name, interface);
                lemma_table_add_well_formed(so_far.types_for_interface, name, object);
                assert forall|k: Seq<char>| #[trigger]
                    entry_value(after.types_for_interface, k) is Some implies doc.has_interface_type(
                    k,
                ) && has_implementer(doc, k) by {
                    lemma_table_add_value(so_far.types_for_interface, name, object, k);
                    if k == name {
                        assert(doc.definitions[at]->Object_0.implements_interfaces[m - 1] == name);
                        assert(has_implementer(doc, name));
                    }
                }
                assert(doc.definitions[at]->Object_0.implements_interfaces[m - 1] == name);
                assert(has_implementer(doc, name));
                assert forall|e: int, j: int|
                    0 <= e < after.interfaces_for_type.len() && 0 <= j
                        < after.interfaces_for_type[e].1.len() implies doc.has_interface_type(
                    (#[trigger] after.interfaces_for_type[e].1[j]).name,
                ) by {
                    let table = so_far.interfaces_for_type;
                    let p = entry_position(table, object.name, table.len() as int);
                    lemma_entry_position(table, object.name, table.len() as int);
                    if p < table.len() {
                        if e == p {
                            if j < table[p].1.len() {
                                assert(after.interfaces_for_type[e].1[j] == table[e].1[j]);
                            }
                        } else {
                            assert(after.interfaces_for_type[e].1[j] == table[e].1[j]);
                        }
                    } else {
                        if e < table.len() {
                            assert(after.interfaces_for_type[e].1[j] == table[e].1[j]);
                        }
                    }
                }
                assert forall|t: Seq<char>, i: Seq<char>| #[trigger]
                    lists_object(after.types_for_interface, i, t) <==> lists_interface(
                        after.interfaces_for_type,
                        t,
                        i,
                    ) by {
                    lemma_table_add_holds(
                        so_far.types_for_interface,
                        name,
                        object,
                        i,
                        |o: ObjectTypeView| o.name == t,
                    );
                    lemma_table_add_holds(
                        so_far.interfaces_for_type,
                        object.name,
                        interface,
                        t,
                        |f: InterfaceTypeView| f.name == i,
                    );
                    assert(lists_object(so_far.types_for_interface, i, t) <==> lists_interface(
                        so_far.interfaces_for_type,
                        t,
                        i,
                    ));
                }
            },
            None => {},
        }
    }
}

/// `index_sound` holds of the tables of every prefix of a schema.
proof fn lemma_index_upto_sound(doc: DocumentView, n: int)
    requires
        0 <= n <= doc.definitions.len(),
    ensures
        index_sound(doc, index_upto(doc, n)),
    decreases n,
{
    if n > 0 {
        lemma_index_upto_sound(doc, n - 1);
        match doc.definitions[n - 1] {
            DefinitionView::Object(object) => {
                lemma_link_object_sound(
                    doc,
                    n - 1,
                    object,
                    object.implements_interfaces.len() as int,
                    index_upto(doc, n - 1),
                );
            },
            _ => {},
        }
    }
}

/// The tables of a schema are sound: see [`index_sound`].
pub proof fn lemma_index_sound(doc: DocumentView)
    ensures
        index_sound(doc, index_of(doc)),
{
    lemma_index_upto_sound(doc, doc.definitions.len() as int);
}

/// An interface that no object type of the schema names has no entry in the
/// table of implementers, and no entry of that table is an empty list.
pub proof fn lemma_no_implementer_no_entry(doc: DocumentView, interface: Seq<char>)
    requires
        !has_implementer(doc, interface),
    ensures
        entry_value(index_of(doc).types_for_interface, interface) is None,
        forall|k: Seq<char>| #[trigger]
            entry_value(index_of(doc).types_for_interface, k) is Some ==> entry_value(
                index_of(doc).types_for_interface,
                k,
            )->Some_0.len() > 0,
{
    lemma_index_sound(doc);
    let table = index_of(doc).types_for_interface;
    assert forall|k: Seq<char>| #[trigger] entry_value(table, k) is Some implies entry_value(
        table,
        k,
    )->Some_0.len() > 0 by {
        lemma_entry_position(table, k, table.len() as int);
    }
}

/// An object type named `object` stands under the interface `interface` in
/// one table exactly when an interface named `interface` stands under
/// `object` in the other.
pub proof fn lemma_tables_mirror(doc: DocumentView, object: Seq<char>, interface: Seq<char>)
    ensures
        lists_object(index_of(doc).types_for_interface, interface, object) <==> lists_interface(
            index_of(doc).interfaces_for_type,
            object,
            interface,
        ),
{
    lemma_index_sound(doc);
}

/// Builds the two tables of a schema: the interfaces of each object type, and
/// the object types of each interface.
pub fn build_index(document: &Document) -> (r: (NameTable<InterfaceType>, NameTable<ObjectType>))
    ensures
        r.0@ == index_of(document@).interfaces_for_type,
        r.1@ == index_of(document@).types_for_interface,
{
    let mut interfaces_for_type: NameTable<InterfaceType> = NameTable::new();
    let mut types_for_interface: NameTable<ObjectType> = NameTable::new();
    let mut n: usize = 0;
    while n < document.definitions.len()
        invariant
            n <= document.definitions.len(),
            interfaces_for_type@ == index_upto(document@, n as int).interfaces_for_type,
            types_for_interface@ == index_upto(document@, n as int).types_for_interface,
        decreases document.definitions.len() - n,
    {
        if let Definition::Object(object) = &document.definitions[n] {
            let ghost before = index_upto(document@, n as int);
            assert(document@.definitions[n as int] == DefinitionView::Object(object@));
            let mut m: usize = 0;
            while m < object.implements_interfaces.len()
                invariant
                    m <= object.implements_interfaces.len(),
                    interfaces_for_type@ == link_object(
                        document@,
                        object@,
                        m as int,
                        before,
                    ).interfaces_for_type,
                    types_for_interface@ == link_object(
                        document@,
                        object@,
                        m as int,
                        before,
                    ).types_for_interface,
                decreases object.implements_interfaces.len() - m,
            {
                let name = object.implements_interfaces[m].as_str();
                assert(object@.implements_interfaces[m as int] == name@);
                match document.get_interface_type(name) {
                    Some(interface) => {
                        interfaces_for_type.add(object.name.as_str(), interface.clone());
                        types_for_interface.add(name, object.clone());
                    },
                    None => {},
                }
                m += 1;
            }
        }
        n += 1;
    }
    (interfaces_for_type, types_for_interface)
}

} // verus!
