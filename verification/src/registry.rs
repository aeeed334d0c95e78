//! The tables of what can be built: which kinds of net and of server exist,
//! by name, each with the schema of its configuration.

use vstd::prelude::*;

verus! {

/// `==` on string slices: whether the two hold the same characters.
#[verifier::external_body]
pub(crate) fn same_text(a: &str, b: &str) -> (r: bool)
    ensures
        r == (a@ == b@),
{
    a == b
}

/// One entry of a table: a name and what is filed under it. In the
/// registry that is a kind of net or server and the schema of its
/// configuration, as JSON text.
#[derive(Debug, Clone, PartialEq, Eq)]
pub struct Item {
    pub name: String,
    pub value: String,
}

/// An entry of a table, mathematically.
pub struct ItemView {
    pub name: Seq<char>,
    pub value: Seq<char>,
}

impl View for Item {
    type V = ItemView;

    open spec fn view(&self) -> ItemView {
        ItemView { name: self.name@, value: self.value@ }
    }
}

/// The entries of a table, mathematically, in the table's order.
pub open spec fn item_views(items: Seq<Item>) -> Seq<ItemView> {
    items.map_values(|i: Item| i@)
}

/// The place of the entry named `name` among `items`, if there is one.
pub open spec fn position(items: Seq<ItemView>, name: Seq<char>) -> Option<int>
    decreases items.len(),
{
    if items.len() == 0 {
        None
    } else if items.last().name == name {
        Some(items.len() - 1)
    } else {
        position(items.drop_last(), name)
    }
}

/// No two entries have the same name.
pub open spec fn distinct(items: Seq<ItemView>) -> bool {
    forall|i: int, j: int|
        0 <= i < j < items.len() ==> (#[trigger] items[i]).name != (#[trigger] items[j]).name
}

/// `position` finds an entry with the name, and finds nothing only when no
/// entry has it.
pub proof fn lemma_position(items: Seq<ItemView>, name: Seq<char>)
    ensures
        match position(items, name) {
            Some(i) => 0 <= i < items.len() && items[i].name == name,
            None => forall|i: int| 0 <= i < items.len() ==> (#[trigger] items[i]).name != name,
        },
    decreases items.len(),
{
    if items.len() > 0 && items.last().name != name {
        lemma_position(items.drop_last(), name);
        assert forall|i: int| 0 <= i < items.len() - 1 implies items[i] == items.drop_last()[i] by {}
        if position(items, name) is None {
            assert forall|i: int| 0 <= i < items.len() implies (#[trigger] items[i]).name
                != name by {
                if i < items.len() - 1 {
                    assert(items.drop_last()[i].name != name);
                }
            }
        }
    }
}

/// In a table without repeated names, the entry with a name is found where
/// it stands.
pub proof fn lemma_position_distinct(items: Seq<ItemView>, i: int)
    requires
        distinct(items),
        0 <= i < items.len(),
    ensures
        position(items, items[i].name) == Some(i),
{
    lemma_position(items, items[i].name);
    let found = position(items, items[i].name)->Some_0;
    if found != i {
        if found < i {
            assert(items[found].name != items[i].name);
        } else {
            assert(items[i].name != items[found].name);
        }
    }
}

/// The table after an entry for `name` with `schema` was put in: an entry
/// of that name gets the new schema in its place; else the entry joins the
/// end.
pub open spec fn put(items: Seq<ItemView>, name: Seq<char>, schema: Seq<char>) -> Seq<ItemView> {
    match position(items, name) {
        Some(i) => items.update(i, ItemView { name, value: schema }),
        None => items.push(ItemView { name, value: schema }),
    }
}

/// Putting an entry into a table without repeated names leaves it without
/// repeated names, and the entry is found under its name afterwards.
pub proof fn lemma_put(items: Seq<ItemView>, name: Seq<char>, schema: Seq<char>)
    requires
        distinct(items),
    ensures
        distinct(put(items, name, schema)),
        position(put(items, name, schema), name) is Some,
        put(items, name, schema)[position(put(items, name, schema), name)->Some_0].value == schema,
{
    lemma_position(items, name);
    let after = put(items, name, schema);
    assert forall|i: int, j: int| 0 <= i < j < after.len() implies (#[trigger] after[i]).name != (
    #[trigger] after[j]).name by {
        if j < items.len() {
            assert(items[i].name != items[j].name);
        }
    }
    match position(items, name) {
        Some(i) => {
            lemma_position_distinct(after, i);
        },
        None => {
            lemma_position_distinct(after, items.len() as int);
        },
    }
}

/// What is filed under `name`, if anything is.
pub open spec fn lookup(items: Seq<ItemView>, name: Seq<char>) -> Option<Seq<char>> {
    match position(items, name) {
        Some(i) => Some(items[i].value),
        None => None,
    }
}

/// What is found in a table after an entry was put in does not depend on
/// what else the table holds, nor on the order in which it came to hold
/// it: under the entry's name its schema is found, and under every other
/// name what was found before.
pub proof fn lemma_lookup_put(
    items: Seq<ItemView>,
    name: Seq<char>,
    schema: Seq<char>,
    other: Seq<char>,
)
    requires
        distinct(items),
    ensures
        lookup(put(items, name, schema), other) == if other == name {
            Some(schema)
        } else {
            lookup(items, other)
        },
{
    lemma_put(items, name, schema);
    let after = put(items, name, schema);
    lemma_position(items, name);
    lemma_position(items, other);
    lemma_position(after, other);
    if other != name {
        match position(items, other) {
            Some(i) => {
                assert(after[i] == items[i]);
                lemma_position_distinct(after, i);
            },
            None => {
                if position(after, other) is Some {
                    let j = position(after, other)->Some_0;
                    if j < items.len() {
                        assert(items[j].name != other);
                    }
                }
            },
        }
    }
}

/// A table of kinds, by name. No name occurs twice.
#[derive(Debug)]
pub struct Table {
    items: Vec<Item>,
}

impl View for Table {
    type V = Seq<ItemView>;

    closed spec fn view(&self) -> Seq<ItemView> {
        item_views(self.items@)
    }
}

impl Table {
    /// No name occurs twice.
    pub open spec fn wf(&self) -> bool {
        distinct(self@)
    }

    pub fn new() -> (t: Table)
        ensures
            t@ == Seq::<ItemView>::empty(),
            t.wf(),
    {
        let t = Table { items: Vec::new() };
        assert(t@ =~= Seq::<ItemView>::empty());
        t
    }

    /// How many kinds the table holds.
    pub fn len(&self) -> (n: usize)
        ensures
            n == self@.len(),
    {
        self.items.len()
    }

    /// Where the kind named `name` stands in the table.
    pub fn find(&self, name: &str) -> (r: Option<usize>)
        ensures
            match r {
                Some(i) => position(self@, name@) == Some(i as int),
                None => position(self@, name@) is None,
            },
    {
        let mut i: usize = self.items.len();
        assert(self@.take(i as int) =~= self@);
        while i > 0
            invariant
                i <= self.items@.len(),
                position(self@, name@) == position(self@.take(i as int), name@),
            decreases i,
        {
            proof {
                let head = self@.take(i as int);
                assert(head.drop_last() =~= self@.take(i - 1));
                assert(head.last() == self@[i - 1]);
            }
            i -= 1;
            if same_text(self.items[i].name.as_str(), name) {
                return Some(i);
            }
        }
        None
    }

    /// The schema of the kind named `name`, if the table holds it.
    pub fn get(&self, name: &str) -> (r: Option<&String>)
        ensures
            match r {
                Some(s) => position(self@, name@) is Some && s@ == self@[position(
                    self@,
                    name@,
                )->Some_0].value,
                None => position(self@, name@) is None,
            },
    {
        match self.find(name) {
            Some(i) => {
                proof {
                    lemma_position(self@, name@);
                }
                Some(&self.items[i].value)
            },
            None => None,
        }
    }

    /// Whether the table holds a kind named `name`.
    pub fn contains(&self, name: &str) -> (r: bool)
        ensures
            r == position(self@, name@) is Some,
    {
        self.find(name).is_some()
    }

    /// Puts the kind `name` with `schema` into the table. A kind of that
    /// name that is there already is replaced.
    pub fn add(&mut self, name: String, schema: String)
        requires
            old(self).wf(),
        ensures
            final(self).wf(),
            final(self)@ == put(old(self)@, name@, schema@),
    {
        proof {
            lemma_put(self@, name@, schema@);
            lemma_position(self@, name@);
        }
        match self.find(name.as_str()) {
            Some(i) => {
                self.items[i] = Item { name, value: schema };
                assert(self@ =~= put(old(self)@, name@, schema@));
            },
            None => {
                self.items.push(Item { name, value: schema });
                assert(self@ =~= put(old(self)@, name@, schema@));
            },
        }
    }

    /// The entry at place `i`.
    pub fn item(&self, i: usize) -> (r: &Item)
        requires
            i < self@.len(),
        ensures
            r@ == self@[i as int],
    {
        &self.items[i]
    }

    /// A copy of the table.
    pub fn copy(&self) -> (t: Table)
        ensures
            t@ == self@,
    {
        let mut items: Vec<Item> = Vec::new();
        let mut i: usize = 0;
        while i < self.items.len()
            invariant
                i <= self.items@.len(),
                item_views(items@) == self@.take(i as int),
            decreases self.items@.len() - i,
        {
            let item = Item {
                name: self.items[i].name.clone(),
                value: self.items[i].value.clone(),
            };
            let ghost before = items@;
            assert(item@ == self@[i as int]);
            items.push(item);
            assert(item_views(items@) =~= item_views(before).push(item@));
            assert(item_views(items@) =~= self@.take(i + 1));
            i += 1;
        }
        assert(self@.take(self@.len() as int) =~= self@);
        Table { items }
    }
}

/// The kinds of net and of server that the program can build.
#[derive(Debug)]
pub struct Registry {
    pub net: Table,
    pub server: Table,
}

impl Registry {
    pub open spec fn wf(&self) -> bool {
        self.net.wf() && self.server.wf()
    }

    pub fn new() -> (r: Registry)
        ensures
            r.wf(),
            r.net@ == Seq::<ItemView>::empty(),
            r.server@ == Seq::<ItemView>::empty(),
    {
        Registry { net: Table::new(), server: Table::new() }
    }

    /// Registers a kind of net.
    pub fn add_net(&mut self, name: String, schema: String)
        requires
            old(self).wf(),
        ensures
            final(self).wf(),
            final(self).net@ == put(old(self).net@, name@, schema@),
            final(self).server@ == old(self).server@,
    {
        self.net.add(name, schema);
    }

    /// Registers a kind of server.
    pub fn add_server(&mut self, name: String, schema: String)
        requires
            old(self).wf(),
        ensures
            final(self).wf(),
            final(self).server@ == put(old(self).server@, name@, schema@),
            final(self).net@ == old(self).net@,
    {
        self.server.add(name, schema);
    }
}

/// The schemas of everything that can be configured, by name: what a
/// running topology shows of its registry.
#[derive(Debug)]
pub struct RegistrySchema {
    net: Table,
    server: Table,
}

impl RegistrySchema {
    /// The schemas of the kinds of net.
    pub closed spec fn spec_net(&self) -> Seq<ItemView> {
        self.net@
    }

    /// The schemas of the kinds of server.
    pub closed spec fn spec_server(&self) -> Seq<ItemView> {
        self.server@
    }

    pub fn net(&self) -> (t: &Table)
        ensures
            t@ == self.spec_net(),
    {
        &self.net
    }

    pub fn server(&self) -> (t: &Table)
        ensures
            t@ == self.spec_server(),
    {
        &self.server
    }
}

/// Copies the name and the schema of every kind out of the registry.
pub fn get_registry_schema(registry: &Registry) -> (r: RegistrySchema)
    ensures
        r.spec_net() == registry.net@,
        r.spec_server() == registry.server@,
{
    RegistrySchema { net: registry.net.copy(), server: registry.server.copy() }
}

} // verus!
