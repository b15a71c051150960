//! Symbol tables: names of a binary's symbols and the numbers they stand for.

use vstd::hash_map::StringHashMap;
use vstd::prelude::*;

verus! {

/// `names` holds `name`.
spec fn lists(names: Seq<String>, name: Seq<char>) -> bool {
    exists|i: int| 0 <= i < names.len() && (#[trigger] names[i])@ == name
}

/// A list with one more name holds that name and what it held before.
proof fn lemma_lists_push(names: Seq<String>, added: String)
    ensures
        forall|name: Seq<char>|
            #[trigger] lists(names.push(added), name) <==> (lists(names, name) || name == added@),
{
    let longer = names.push(added);
    let last = names.len() as int;
    assert(longer[last] == added);
    assert forall|name: Seq<char>| lists(longer, name) <==> (lists(names, name) || name
        == added@) by {
        if lists(longer, name) {
            let c = choose|c: int| 0 <= c < longer.len() && (#[trigger] longer[c])@ == name;
            if c < last {
                assert(names[c] == longer[c]);
            }
        }
        if lists(names, name) {
            let c = choose|c: int| 0 <= c < names.len() && (#[trigger] names[c])@ == name;
            assert(longer[c] == names[c]);
        }
    }
}

/// A table from symbol names to numbers, each name at most once: to offsets
/// within a binary file, or to addresses within a process. The numbers are
/// kept in a hash map; the names are listed beside it, so that a table can
/// be walked.
pub struct SymbolTable {
    numbers: StringHashMap<usize>,
    names: Vec<String>,
}

impl View for SymbolTable {
    type V = Map<Seq<char>, usize>;

    closed spec fn view(&self) -> Map<Seq<char>, usize> {
        self.numbers@
    }
}

impl SymbolTable {
    /// The table's invariant: the names listed are the names that have a
    /// number.
    pub closed spec fn wf(&self) -> bool {
        &&& forall|i: int|
            0 <= i < self.names@.len() ==> self.numbers@.contains_key((#[trigger] self.names@[i])@)
        &&& forall|name: Seq<char>| self.numbers@.contains_key(name) ==> lists(self.names@, name)
    }

    /// The table without a name.
    pub fn new() -> (t: SymbolTable)
        ensures
            t.wf(),
            t@ == Map::<Seq<char>, usize>::empty(),
    {
        SymbolTable { numbers: StringHashMap::new(), names: Vec::new() }
    }

    /// The number that `name` stands for, if the table holds the name.
    pub fn get(&self, name: &str) -> (r: Option<usize>)
        ensures
            r == (if self@.contains_key(name@) {
                Some(self@[name@])
            } else {
                None
            }),
    {
        match self.numbers.get(name) {
            Some(value) => Some(*value),
            None => None,
        }
    }

    /// Whether the table holds `name`.
    pub fn contains(&self, name: &str) -> (r: bool)
        ensures
            r == self@.contains_key(name@),
    {
        self.numbers.contains_key(name)
    }

    /// Sets the number of `name`, replacing the one it had.
    pub fn insert(&mut self, name: String, value: usize)
        requires
            old(self).wf(),
        ensures
            final(self).wf(),
            final(self)@ == old(self)@.insert(name@, value),
    {
        let ghost names = self.names@;
        let ghost numbers = self.numbers@;
        let known = self.numbers.contains_key(name.as_str());
        if !known {
            self.names.push(name.clone());
            assert(self.names@ == names.push(name));
        }
        self.numbers.insert(name, value);
        proof {
            assert forall|i: int| 0 <= i < self.names@.len() implies self.numbers@.contains_key(
                (#[trigger] self.names@[i])@,
            ) by {
                if i < names.len() {
                    assert(self.names@[i] == names[i]);
                }
            }
            assert forall|key: Seq<char>| self.numbers@.contains_key(key) implies lists(
                self.names@,
                key,
            ) by {
                if numbers.contains_key(key) {
                    assert(lists(names, key));
                }
                if !known {
                    lemma_lists_push(names, name);
                }
            }
        }
    }

    /// Sets the number of `name` unless the table holds the name already;
    /// says whether it was set.
    pub fn insert_absent(&mut self, name: String, value: usize) -> (added: bool)
        requires
            old(self).wf(),
        ensures
            final(self).wf(),
            added == !old(self)@.contains_key(name@),
            final(self)@ == (if added {
                old(self)@.insert(name@, value)
            } else {
                old(self)@
            }),
    {
        if self.numbers.contains_key(name.as_str()) {
            false
        } else {
            self.insert(name, value);
            true
        }
    }
}

/// One symbol as a binary's symbol table gives it: its name, where the
/// string table has one at the symbol's name offset, and its value.
#[derive(Debug)]
pub struct RawSymbol {
    pub name: Option<String>,
    pub value: u64,
}

impl View for RawSymbol {
    type V = (Option<Seq<char>>, u64);

    open spec fn view(&self) -> (Option<Seq<char>>, u64) {
        (
            match self.name {
                Some(name) => Some(name@),
                None => None,
            },
            self.value,
        )
    }
}

/// The views of a list of raw symbols, in order.
pub open spec fn raw_views(symbols: Seq<RawSymbol>) -> Seq<(Option<Seq<char>>, u64)> {
    symbols.map_values(|symbol: RawSymbol| symbol@)
}

/// A file that holds no readable ELF image.
#[derive(Clone, Copy, Debug, PartialEq, Eq, Structural)]
pub struct BinaryFormatError {}

/// The error of `goblin`'s parsers; nothing is read from it.
#[verifier::external_type_specification]
#[verifier::external_body]
pub struct ExElfError(goblin::error::Error);

/// What `goblin` reads from the ELF image `bytes`: the symbols of its symbol
/// table, in the table's order, each with the name that the string table
/// has for it and with its value; `None` where `goblin` cannot read `bytes`
/// as an ELF image.
pub uninterp spec fn elf_symbols(bytes: Seq<u8>) -> Option<Seq<(Option<Seq<char>>, u64)>>;

/// Whether a character has the Unicode property Alphabetic, as
/// `char::is_alphabetic` tells it.
pub uninterp spec fn is_alphabetic(c: char) -> bool;

/// Calls `goblin::elf::Elf::parse` on `bytes` and copies out, for each
/// symbol of the parsed image's `syms` table in order, the name that
/// `strtab.get_at` finds at the symbol's `st_name` and its `st_value`.
/// Not proved: that the outcome is `elf_symbols` of the bytes, an error where
/// that is `None`.
#[verifier::external_body]
fn read_elf_symbols(bytes: &[u8]) -> (r: Result<Vec<RawSymbol>, goblin::error::Error>)
    ensures
        match r {
            Ok(symbols) => elf_symbols(bytes@) == Some(raw_views(symbols@)),
            Err(_) => elf_symbols(bytes@) is None,
        },
{
    let elf = goblin::elf::Elf::parse(bytes)?;
    Ok(
        elf.syms.iter().map(
            |sym| RawSymbol {
                name: elf.strtab.get_at(sym.st_name).map(|name| name.to_string()),
                value: sym.st_value,
            },
        ).collect(),
    )
}

/// Calls `char::is_alphabetic`. Not proved: that the answer is the Unicode
/// property, which `is_alphabetic` names.
#[verifier::external_body]
fn char_is_alphabetic(c: char) -> (r: bool)
    ensures
        r == is_alphabetic(c),
{
    c.is_alphabetic()
}

/// Whether a symbol is kept, given the first character of its name and
/// whether that character is alphabetic: a name has to start with a letter
/// or an underscore.
pub fn keeps_first_char(first: char, alphabetic: bool) -> (kept: bool)
    ensures
        kept == (alphabetic || first == '_'),
{
    alphabetic || first == '_'
}

/// Whether a table keeps a symbol of this name.
pub open spec fn keeps_name(name: Option<Seq<char>>) -> bool {
    name matches Some(n) && n.len() > 0 && (is_alphabetic(n[0]) || n[0] == '_')
}

/// The table of a binary's symbols: the kept ones, each under its name,
/// a later symbol replacing an earlier one of the same name.
pub open spec fn table_of(raw: Seq<(Option<Seq<char>>, u64)>) -> Map<Seq<char>, usize>
    decreases raw.len(),
{
    if raw.len() == 0 {
        Map::empty()
    } else {
        let earlier = table_of(raw.drop_last());
        let (name, value) = raw.last();
        if keeps_name(name) {
            earlier.insert(name->Some_0, value as usize)
        } else {
            earlier
        }
    }
}

/// The symbol at `i` carries the name `name`.
pub open spec fn carries(raw: Seq<(Option<Seq<char>>, u64)>, i: int, name: Seq<char>) -> bool {
    0 <= i < raw.len() && raw[i].0 == Some(name)
}

/// What `table_of` holds. A name is in the table exactly if it is one that
/// is kept and some symbol carries it, and its number is then the value of
/// the last symbol that carries it.
pub proof fn law_table_holds_last(raw: Seq<(Option<Seq<char>>, u64)>, name: Seq<char>, i: int)
    requires
        carries(raw, i, name),
        forall|j: int| i < j < raw.len() ==> !#[trigger] carries(raw, j, name),
    ensures
        table_of(raw).contains_key(name) <==> keeps_name(Some(name)),
        keeps_name(Some(name)) ==> table_of(raw)[name] == raw[i].1 as usize,
    decreases raw.len(),
{
    let before = raw.drop_last();
    let last = raw.len() - 1;
    if i < last {
        assert(!carries(raw, last, name));
        assert(carries(before, i, name));
        assert forall|j: int| i < j < before.len() implies !#[trigger] carries(before, j, name) by {
            assert(!carries(raw, j, name));
        }
        law_table_holds_last(before, name, i);
    } else {
        if !keeps_name(Some(name)) {
            law_table_lacks_dropped(before, name);
        }
    }
}

/// A name that is not kept is not in the table, nor is one that no symbol
/// carries.
pub proof fn law_table_lacks_dropped(raw: Seq<(Option<Seq<char>>, u64)>, name: Seq<char>)
    requires
        !keeps_name(Some(name)) || forall|j: int| 0 <= j < raw.len() ==> !#[trigger] carries(
            raw,
            j,
            name,
        ),
    ensures
        !table_of(raw).contains_key(name),
    decreases raw.len(),
{
    if raw.len() > 0 {
        let before = raw.drop_last();
        let last = raw.len() - 1;
        if keeps_name(Some(name)) {
            assert(!carries(raw, last, name));
            assert forall|j: int| 0 <= j < before.len() implies !#[trigger] carries(before, j, name) by {
                assert(!carries(raw, j, name));
            }
        }
        law_table_lacks_dropped(before, name);
    }
}

/// Whether a table keeps a symbol called `name`.
pub fn keeps_symbol(name: &str) -> (kept: bool)
    ensures
        kept == keeps_name(Some(name@)),
{
    if name.is_empty() {
        return false;
    }
    let first = name.get_char(0);
    keeps_first_char(first, char_is_alphabetic(first))
}

impl SymbolTable {
    /// Builds the table of a binary from the symbols of its symbol table.
    pub fn from_raw(raw: &Vec<RawSymbol>) -> (t: SymbolTable)
        ensures
            t.wf(),
            t@ == table_of(raw_views(raw@)),
    {
        let mut table = SymbolTable::new();
        let mut i: usize = 0;
        while i < raw.len()
            invariant
                i <= raw@.len(),
                table.wf(),
                table@ == table_of(raw_views(raw@).take(i as int)),
            decreases raw@.len() - i,
        {
            let ghost views = raw_views(raw@);
            proof {
                assert(views.take(i + 1).drop_last() =~= views.take(i as int));
                assert(views.take(i + 1).last() == raw@[i as int]@);
            }
            match &raw[i].name {
                Some(name) => {
                    if keeps_symbol(name.as_str()) {
                        table.insert(name.clone(), raw[i].value as usize);
                    }
                },
                None => {},
            }
            i += 1;
        }
        proof {
            assert(raw_views(raw@).take(i as int) =~= raw_views(raw@));
        }
        table
    }
}

/// The symbol table of the binary whose bytes are `bytes`: `table_of` of its
/// ELF symbols, and an error where the bytes hold no readable ELF image.
pub fn symbols_of_image(bytes: &[u8]) -> (r: Result<SymbolTable, BinaryFormatError>)
    ensures
        match elf_symbols(bytes@) {
            Some(raw) => r matches Ok(t) && t.wf() && t@ == table_of(raw),
            None => r is Err,
        },
{
    match read_elf_symbols(bytes) {
        Ok(raw) => Ok(SymbolTable::from_raw(&raw)),
        Err(_) => Err(BinaryFormatError {  }),
    }
}

/// Whether the file offset `offset` lies in the part of a file that starts
/// at `basis` and is `size` bytes long.
pub open spec fn in_window(offset: int, basis: int, size: int) -> bool {
    basis <= offset < basis + size
}

/// The index after one mapping has been taken in. The mapping shows `size`
/// bytes of a file from offset `basis` on, at the address `start`. Every
/// symbol of the file's table whose offset lies in that part gets the address
/// `offset - basis + start`, unless the index held its name already.
pub open spec fn absorbed(
    index: Map<Seq<char>, usize>,
    table: Map<Seq<char>, usize>,
    basis: int,
    start: int,
    size: int,
) -> Map<Seq<char>, usize> {
    Map::new(
        |name: Seq<char>|
            index.contains_key(name) || (table.contains_key(name) && in_window(
                table[name] as int,
                basis,
                size,
            )),
        |name: Seq<char>|
            if index.contains_key(name) {
                index[name]
            } else {
                (table[name] - basis + start) as usize
            },
    )
}

/// What a table holds under the names of `names`.
spec fn listed_part(table: Map<Seq<char>, usize>, names: Seq<String>) -> Map<Seq<char>, usize> {
    Map::new(
        |name: Seq<char>| table.contains_key(name) && lists(names, name),
        |name: Seq<char>| table[name],
    )
}

/// With one more name of the table listed, the listed part holds that name
/// too.
proof fn lemma_listed_next(table: Map<Seq<char>, usize>, names: Seq<String>, i: int)
    requires
        0 <= i < names.len(),
        table.contains_key(names[i]@),
    ensures
        listed_part(table, names.take(i + 1)) == listed_part(table, names.take(i)).insert(
            names[i]@,
            table[names[i]@],
        ),
{
    let next = listed_part(table, names.take(i + 1));
    let grown = listed_part(table, names.take(i)).insert(names[i]@, table[names[i]@]);
    assert(names.take(i + 1) == names.take(i).push(names[i]));
    lemma_lists_push(names.take(i), names[i]);
    assert forall|name: Seq<char>| next.contains_key(name) <==> grown.contains_key(name) by {
        assert(lists(names.take(i + 1), name) <==> (lists(names.take(i), name) || name
            == names[i]@));
    }
    assert(next =~= grown);
}

impl SymbolTable {
    /// Takes one mapping in: see `absorbed`.
    pub fn absorb(&mut self, table: &SymbolTable, basis: usize, start: usize, size: usize)
        requires
            old(self).wf(),
            table.wf(),
            start + size <= usize::MAX,
        ensures
            final(self).wf(),
            final(self)@ == absorbed(old(self)@, table@, basis as int, start as int, size as int),
    {
        let ghost before = self@;
        let mut i: usize = 0;
        proof {
            assert(listed_part(table@, table.names@.take(0)) =~= Map::<Seq<char>, usize>::empty());
            assert(self@ =~= absorbed(
                before,
                listed_part(table@, table.names@.take(0)),
                basis as int,
                start as int,
                size as int,
            ));
        }
        while i < table.names.len()
            invariant
                i <= table.names@.len(),
                self.wf(),
                table.wf(),
                start + size <= usize::MAX,
                self@ == absorbed(
                    before,
                    listed_part(table@, table.names@.take(i as int)),
                    basis as int,
                    start as int,
                    size as int,
                ),
            decreases table.names@.len() - i,
        {
            let ghost seen = listed_part(table@, table.names@.take(i as int));
            proof {
                lemma_listed_next(table@, table.names@, i as int);
            }
            let name = &table.names[i];
            let offset = *table.numbers.get(name.as_str()).unwrap();
            if offset >= basis && offset - basis < size {
                let address = start + (offset - basis);
                self.insert_absent(name.clone(), address);
            }
            proof {
                assert(self@ =~= absorbed(
                    before,
                    seen.insert(name@, table@[name@]),
                    basis as int,
                    start as int,
                    size as int,
                ));
            }
            i += 1;
        }
        proof {
            assert(table.names@.take(i as int) == table.names@);
            assert(listed_part(table@, table.names@) =~= table@);
        }
    }
}

} // verus!
