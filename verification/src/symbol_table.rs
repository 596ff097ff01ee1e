//! The table of memory segments: each segment name has one addressing mode.

use vstd::prelude::*;

verus! {

/// How a segment is addressed. `Relative(base)`: the register named `base`
/// holds a pointer, and the cell is at that pointer plus the index.
/// `Absolute(base)`: the cell is at `base` plus the index.
#[derive(Debug, PartialEq, Copy, Clone)]
pub enum Address<'a> {
    Relative(&'a str),
    Absolute(u16),
}

/// What an `Address` holds, as a mathematical value.
pub enum AddressView {
    Relative(Seq<char>),
    Absolute(u16),
}

impl<'a> View for Address<'a> {
    type V = AddressView;

    open spec fn view(&self) -> AddressView {
        match self {
            Address::Relative(base) => AddressView::Relative(base@),
            Address::Absolute(base) => AddressView::Absolute(*base),
        }
    }
}

/// One line of the table.
#[derive(Debug)]
struct Entry {
    name: String,
    address: Address<'static>,
}

/// The table of segments. It holds each name at most once.
#[derive(Debug)]
pub struct SymbolTable {
    symbols: Vec<Entry>,
    current_address: u16,
}

/// The map that a list of entries stands for; of two entries with one name
/// the later one counts.
spec fn entries_map(entries: Seq<Entry>) -> Map<Seq<char>, AddressView>
    decreases entries.len(),
{
    if entries.len() == 0 {
        Map::empty()
    } else {
        entries_map(entries.drop_last()).insert(entries.last().name@, entries.last().address@)
    }
}

/// Whether no two entries have the same name.
spec fn distinct_names(entries: Seq<Entry>) -> bool {
    forall|i: int, j: int|
        0 <= i < j < entries.len() ==> (#[trigger] entries[i]).name@ != (#[trigger] entries[j]).name@
}

/// A name that no entry has is no key of the map.
proof fn lemma_missing(entries: Seq<Entry>, name: Seq<char>)
    requires
        forall|i: int| 0 <= i < entries.len() ==> (#[trigger] entries[i]).name@ != name,
    ensures
        !entries_map(entries).contains_key(name),
    decreases entries.len(),
{
    if entries.len() > 0 {
        assert(entries.last().name@ != name);
        assert forall|i: int| 0 <= i < entries.drop_last().len() implies (
        #[trigger] entries.drop_last()[i]).name@ != name by {
            assert(entries[i].name@ != name);
        }
        lemma_missing(entries.drop_last(), name);
    }
}

/// Where the names are distinct, the map gives each entry's name the
/// entry's own address.
proof fn lemma_lookup(entries: Seq<Entry>, i: int)
    requires
        distinct_names(entries),
        0 <= i < entries.len(),
    ensures
        entries_map(entries).contains_key(entries[i].name@),
        entries_map(entries)[entries[i].name@] == entries[i].address@,
    decreases entries.len(),
{
    if i < entries.len() - 1 {
        assert(entries[i].name@ != entries[entries.len() - 1].name@);
        lemma_distinct_front(entries);
        lemma_lookup(entries.drop_last(), i);
    }
}

/// Distinct names stay distinct where the last entry is left out.
proof fn lemma_distinct_front(entries: Seq<Entry>)
    requires
        distinct_names(entries),
        entries.len() > 0,
    ensures
        distinct_names(entries.drop_last()),
{
    let front = entries.drop_last();
    assert forall|i: int, j: int| 0 <= i < j < front.len() implies (#[trigger] front[i]).name@ != (
    #[trigger] front[j]).name@ by {
        assert(entries[i].name@ != entries[j].name@);
    }
}

/// Putting an entry in the place of one with the same name keeps the names
/// distinct and changes the map at that name alone.
proof fn lemma_replace(entries: Seq<Entry>, i: int, entry: Entry)
    requires
        distinct_names(entries),
        0 <= i < entries.len(),
        entries[i].name@ == entry.name@,
    ensures
        distinct_names(entries.update(i, entry)),
        entries_map(entries.update(i, entry)) == entries_map(entries).insert(
            entry.name@,
            entry.address@,
        ),
    decreases entries.len(),
{
    let after = entries.update(i, entry);
    assert forall|a: int, b: int| 0 <= a < b < after.len() implies (#[trigger] after[a]).name@ != (
    #[trigger] after[b]).name@ by {
        assert(after[a].name@ == entries[a].name@);
        assert(after[b].name@ == entries[b].name@);
    }
    let front = entries.drop_last();
    let last = entries.last();
    if i == entries.len() - 1 {
        assert(after.drop_last() =~= front);
        assert(entries_map(after) =~= entries_map(entries).insert(entry.name@, entry.address@));
    } else {
        assert(entries[i].name@ != entries[entries.len() - 1].name@);
        lemma_distinct_front(entries);
        lemma_replace(front, i, entry);
        assert(after.drop_last() =~= front.update(i, entry));
        assert(after.last() == last);
        assert(entries_map(after) =~= entries_map(entries).insert(entry.name@, entry.address@));
    }
}

/// An entry with a new name behind the others keeps the names distinct.
proof fn lemma_append(entries: Seq<Entry>, entry: Entry)
    requires
        distinct_names(entries),
        forall|i: int| 0 <= i < entries.len() ==> (#[trigger] entries[i]).name@ != entry.name@,
    ensures
        distinct_names(entries.push(entry)),
        entries_map(entries.push(entry)) == entries_map(entries).insert(
            entry.name@,
            entry.address@,
        ),
{
    let after = entries.push(entry);
    assert(after.drop_last() =~= entries);
    assert forall|a: int, b: int| 0 <= a < b < after.len() implies (#[trigger] after[a]).name@ != (
    #[trigger] after[b]).name@ by {
        if b < entries.len() {
            assert(entries[a].name@ != entries[b].name@);
        } else {
            assert(entries[a].name@ != entry.name@);
        }
    }
}

/// The segments that every table starts with.
pub open spec fn starting_table() -> Map<Seq<char>, AddressView> {
    Map::<Seq<char>, AddressView>::empty().insert(
        "local"@,
        AddressView::Relative("LCL"@),
    ).insert("argument"@, AddressView::Relative("ARG"@)).insert(
        "this"@,
        AddressView::Relative("THIS"@),
    ).insert("that"@, AddressView::Relative("THAT"@)).insert(
        "temp"@,
        AddressView::Absolute(5),
    ).insert("static"@, AddressView::Absolute(16))
}

/// The starting table holds the six segments of the language and no other
/// name: `local`, `argument`, `this` and `that` go through the registers
/// `LCL`, `ARG`, `THIS` and `THAT`; `temp` starts at address 5 and `static` at
/// address 16. A table that was empty holds just these once it is loaded.
pub proof fn lemma_starting_table()
    ensures
        Map::<Seq<char>, AddressView>::empty().union_prefer_right(starting_table())
            == starting_table(),
        forall|name: Seq<char>| #[trigger]
            starting_table().contains_key(name) <==> {
                ||| name == "local"@
                ||| name == "argument"@
                ||| name == "this"@
                ||| name == "that"@
                ||| name == "temp"@
                ||| name == "static"@
            },
        starting_table()["local"@] == AddressView::Relative("LCL"@),
        starting_table()["argument"@] == AddressView::Relative("ARG"@),
        starting_table()["this"@] == AddressView::Relative("THIS"@),
        starting_table()["that"@] == AddressView::Relative("THAT"@),
        starting_table()["temp"@] == AddressView::Absolute(5),
        starting_table()["static"@] == AddressView::Absolute(16),
{
    reveal_strlit("local");
    reveal_strlit("argument");
    reveal_strlit("this");
    reveal_strlit("that");
    reveal_strlit("temp");
    reveal_strlit("static");
    // the names differ in length, but for three of length four
    assert("local"@.len() == 5 && "argument"@.len() == 8 && "static"@.len() == 6);
    assert("this"@.len() == 4 && "that"@.len() == 4 && "temp"@.len() == 4);
    assert("this"@[2] != "that"@[2] && "this"@[1] != "temp"@[1] && "that"@[1] != "temp"@[1]);
    assert(Map::<Seq<char>, AddressView>::empty().union_prefer_right(starting_table())
        =~= starting_table());
}

impl View for SymbolTable {
    type V = Map<Seq<char>, AddressView>;

    closed spec fn view(&self) -> Map<Seq<char>, AddressView> {
        entries_map(self.symbols@)
    }
}

impl SymbolTable {
    #[verifier::type_invariant]
    spec fn well_formed(&self) -> bool {
        distinct_names(self.symbols@)
    }

    /// The first address that no segment of the starting table uses.
    pub closed spec fn free_address(&self) -> u16 {
        self.current_address
    }

    /// The empty table. Its first free address is 16.
    pub fn new() -> (table: SymbolTable)
        ensures
            table@ == Map::<Seq<char>, AddressView>::empty(),
            table.free_address() == 16,
    {
        SymbolTable { symbols: Vec::new(), current_address: 16 }
    }

    /// Puts the segments of the starting table into the table. An entry that
    /// is there under one of their names is replaced.
    pub fn load_starting_table(&mut self)
        ensures
            final(self)@ == old(self)@.union_prefer_right(starting_table()),
            final(self).free_address() == old(self).free_address(),
    {
        self.add_entry("local", Address::Relative("LCL"));
        self.add_entry("argument", Address::Relative("ARG"));
        self.add_entry("this", Address::Relative("THIS"));
        self.add_entry("that", Address::Relative("THAT"));
        self.add_entry("temp", Address::Absolute(5));
        self.add_entry("static", Address::Absolute(16));
    }

    /// The position of the entry under the name `symbol`.
    fn find(&self, symbol: &String) -> (found: Option<usize>)
        ensures
            match found {
                Some(i) => i < self.symbols.len() && self.symbols[i as int].name@ == symbol@,
                None => forall|j: int|
                    0 <= j < self.symbols.len() ==> (#[trigger] self.symbols[j]).name@ != symbol@,
            },
    {
        let mut i: usize = 0;
        while i < self.symbols.len()
            invariant
                0 <= i <= self.symbols.len(),
                forall|j: int| 0 <= j < i ==> (#[trigger] self.symbols[j]).name@ != symbol@,
            decreases self.symbols.len() - i,
        {
            if self.symbols[i].name == *symbol {
                return Some(i);
            }
            i = i + 1;
        }
        None
    }

    /// Gives `symbol` the address `address`, whether or not it had one.
    pub fn add_entry(&mut self, symbol: &str, address: Address<'static>)
        ensures
            final(self)@ == old(self)@.insert(symbol@, address@),
            final(self).free_address() == old(self).free_address(),
    {
        let name = symbol.to_owned();
        let found = self.find(&name);
        let entry = Entry { name, address };
        proof {
            use_type_invariant(&*self);
            match found {
                Some(i) => lemma_replace(self.symbols@, i as int, entry),
                None => lemma_append(self.symbols@, entry),
            }
        }
        let mut symbols: Vec<Entry> = Vec::new();
        core::mem::swap(&mut self.symbols, &mut symbols);
        match found {
            Some(i) => symbols.set(i, entry),
            None => symbols.push(entry),
        }
        self.symbols = symbols;
    }

    /// Whether `symbol` has an address.
    pub fn contains(&self, symbol: &str) -> (found: bool)
        ensures
            found == self@.contains_key(symbol@),
    {
        self.get_address(symbol).is_some()
    }

    /// The address of `symbol`, if it has one.
    pub fn get_address(&self, symbol: &str) -> (address: Option<&Address<'static>>)
        ensures
            match address {
                Some(a) => self@.contains_key(symbol@) && self@[symbol@] == a@,
                None => !self@.contains_key(symbol@),
            },
    {
        let name = symbol.to_owned();
        match self.find(&name) {
            Some(i) => {
                proof {
                    use_type_invariant(self);
                    lemma_lookup(self.symbols@, i as int);
                }
                Some(&self.symbols[i].address)
            },
            None => {
                proof {
                    lemma_missing(self.symbols@, symbol@);
                }
                None
            },
        }
    }

    /// Whether the table holds no segment.
    pub fn is_empty(&self) -> (empty: bool)
        ensures
            empty == (self@ == Map::<Seq<char>, AddressView>::empty()),
    {
        proof {
            if self.symbols.len() > 0 {
                assert(self@.contains_key(self.symbols@.last().name@));
            }
        }
        self.symbols.len() == 0
    }

    /// Whether every segment of this table is in `other` with the same
    /// address.
    fn within(&self, other: &SymbolTable) -> (inside: bool)
        ensures
            inside == included(self@, other@),
    {
        proof {
            use_type_invariant(self);
        }
        let mut i: usize = 0;
        while i < self.symbols.len()
            invariant
                0 <= i <= self.symbols.len(),
                distinct_names(self.symbols@),
                forall|j: int|
                    0 <= j < i ==> {
                        let name = (#[trigger] self.symbols[j]).name@;
                        other@.contains_key(name) && other@[name] == self@[name]
                    },
            decreases self.symbols.len() - i,
        {
            proof {
                lemma_lookup(self.symbols@, i as int);
            }
            let entry = &self.symbols[i];
            let same = match other.get_address(entry.name.as_str()) {
                Some(address) => same_address(address, &entry.address),
                None => false,
            };
            if !same {
                return false;
            }
            i = i + 1;
        }
        proof {
            assert forall|name: Seq<char>| self@.contains_key(name) implies #[trigger] other@.contains_key(
                name,
            ) && self@[name] == other@[name] by {
                if forall|j: int|
                    0 <= j < self.symbols.len() ==> (#[trigger] self.symbols[j]).name@ != name {
                    lemma_missing(self.symbols@, name);
                }
            }
        }
        true
    }

    /// The first address that no segment of the starting table uses.
    pub fn get_free_address(&self) -> (address: u16)
        ensures
            address == self.free_address(),
    {
        self.current_address
    }
}

/// Whether `second` gives every name of `first` the address that `first`
/// gives it.
spec fn included(first: Map<Seq<char>, AddressView>, second: Map<Seq<char>, AddressView>) -> bool {
    forall|name: Seq<char>| #[trigger]
        first.contains_key(name) ==> second.contains_key(name) && second[name] == first[name]
}

/// Whether two addresses are the same.
fn same_address(first: &Address<'static>, second: &Address<'static>) -> (same: bool)
    ensures
        same == (first@ == second@),
{
    match (first, second) {
        (Address::Relative(a), Address::Relative(b)) => String::from_str(*a) == String::from_str(*b),
        (Address::Absolute(a), Address::Absolute(b)) => *a == *b,
        _ => false,
    }
}

impl PartialEq for SymbolTable {
    /// Two tables are equal where they give the same names the same
    /// addresses and have the same first free address.
    fn eq(&self, other: &SymbolTable) -> (same: bool) {
        let same = self.current_address == other.current_address && self.within(other)
            && other.within(self);
        proof {
            if same {
                assert(self@ =~= other@);
            }
        }
        same
    }
}

impl vstd::std_specs::cmp::PartialEqSpecImpl for SymbolTable {
    open spec fn obeys_eq_spec() -> bool {
        true
    }

    open spec fn eq_spec(&self, other: &SymbolTable) -> bool {
        self@ == other@ && self.free_address() == other.free_address()
    }
}

} // verus!
