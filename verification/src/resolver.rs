//! Resolving the symbols of a process's mapped binaries to live addresses.

use crate::symbols::{
    absorbed, elf_symbols, in_window, symbols_of_image, table_of, BinaryFormatError,
    SymbolTable,
};
use vstd::prelude::*;

verus! {

/// One contiguous range of a process's virtual addresses, as the process's
/// memory-map listing gives it.
#[derive(Debug)]
pub struct MemoryMapping {
    pub start: usize,
    pub end: usize,
    pub file_offset: usize,
    pub backing_path: Option<String>,
}

impl MemoryMapping {
    /// The number of bytes mapped; a range that ends before it starts is
    /// empty.
    pub open spec fn span(self) -> int {
        if self.end >= self.start {
            self.end - self.start
        } else {
            0
        }
    }

    /// The mapping shows a file named by an absolute path.
    pub open spec fn file_backed(self) -> bool {
        self.backing_path matches Some(path) && path@.len() > 0 && path@[0] == '/'
    }

    /// The mapping has no backing path at all.
    pub open spec fn anonymous(self) -> bool {
        self.backing_path is None
    }

    /// The backing path, where there is one.
    pub open spec fn path(self) -> Seq<char> {
        self.backing_path->Some_0@
    }

    /// The number of bytes mapped.
    pub fn size(&self) -> (n: usize)
        ensures
            n == self.span(),
    {
        if self.end >= self.start {
            self.end - self.start
        } else {
            0
        }
    }

    /// Whether the mapping shows a file named by an absolute path.
    pub fn is_file_backed(&self) -> (b: bool)
        ensures
            b == self.file_backed(),
    {
        match &self.backing_path {
            Some(path) => !path.as_str().is_empty() && path.as_str().get_char(0) == '/',
            None => false,
        }
    }
}

/// A file named by a mapping, with its bytes where the file could be read.
#[derive(Debug)]
pub struct LibraryFile {
    pub path: String,
    pub contents: Option<Vec<u8>>,
}

/// The mapping whose file the mapping at `i` shows: itself where it is
/// file-backed; the mapping just before it where it is anonymous and starts
/// at the address where that one, a file-backed one, ends; none otherwise.
pub open spec fn window_source(maps: Seq<MemoryMapping>, i: int) -> Option<int> {
    if maps[i].file_backed() {
        Some(i)
    } else if maps[i].anonymous() && i > 0 && maps[i - 1].file_backed() && maps[i - 1].start
        + maps[i - 1].span() == maps[i].start {
        Some(i - 1)
    } else {
        None
    }
}

/// The file offset that the first byte of the mapping at `i` shows: its own
/// file offset, or for an anonymous continuation the offset at which the
/// mapping before it ends.
pub open spec fn window_basis(maps: Seq<MemoryMapping>, i: int) -> int {
    if maps[i].file_backed() {
        maps[i].file_offset as int
    } else {
        maps[i - 1].file_offset + maps[i - 1].span()
    }
}

/// `i` is the first place in `libs` of a file with the path `path`.
pub open spec fn first_with_path(libs: Seq<LibraryFile>, path: Seq<char>, i: int) -> bool {
    &&& 0 <= i < libs.len()
    &&& libs[i].path@ == path
    &&& forall|j: int| 0 <= j < i ==> (#[trigger] libs[j]).path@ != path
}

/// The place of the file that stands for `path`: the first with that path.
pub open spec fn library_for(libs: Seq<LibraryFile>, path: Seq<char>) -> Option<int> {
    if exists|i: int| first_with_path(libs, path, i) {
        Some(choose|i: int| first_with_path(libs, path, i))
    } else {
        None
    }
}

/// The symbol table of a file: empty where the file could not be read,
/// that of its ELF image otherwise, and `None` where its bytes hold no
/// readable image.
pub open spec fn symbols_of_file(file: LibraryFile) -> Option<Map<Seq<char>, usize>> {
    match file.contents {
        None => Some(Map::empty()),
        Some(bytes) => match elf_symbols(bytes@) {
            None => None,
            Some(raw) => Some(table_of(raw)),
        },
    }
}

/// The symbol table that stands for `path`; a path that no file of `libs`
/// carries has an empty one.
pub open spec fn symbols_at(libs: Seq<LibraryFile>, path: Seq<char>) -> Option<
    Map<Seq<char>, usize>,
> {
    match library_for(libs, path) {
        None => Some(Map::empty()),
        Some(i) => symbols_of_file(libs[i]),
    }
}

/// The index after the first `k` mappings have been taken in, in order, or
/// an error where one of them shows a file that holds no readable image.
pub open spec fn resolved(maps: Seq<MemoryMapping>, libs: Seq<LibraryFile>, k: nat) -> Result<
    Map<Seq<char>, usize>,
    BinaryFormatError,
>
    decreases k,
{
    if k == 0 {
        Ok(Map::empty())
    } else {
        let i = k - 1;
        match resolved(maps, libs, i as nat) {
            Err(e) => Err(e),
            Ok(index) => match window_source(maps, i) {
                None => Ok(index),
                Some(source) => match symbols_at(libs, maps[source].path()) {
                    None => Err(BinaryFormatError {  }),
                    Some(table) => Ok(
                        absorbed(
                            index,
                            table,
                            window_basis(maps, i),
                            maps[i].start as int,
                            maps[i].span(),
                        ),
                    ),
                },
            },
        }
    }
}

/// The place in `maps` of the mapping whose file the mapping at `i` shows.
pub fn source_of(maps: &Vec<MemoryMapping>, i: usize) -> (r: Option<usize>)
    requires
        i < maps@.len(),
    ensures
        match r {
            Some(source) => window_source(maps@, i as int) == Some(source as int),
            None => window_source(maps@, i as int) is None,
        },
{
    if maps[i].is_file_backed() {
        Some(i)
    } else if maps[i].backing_path.is_none() && i > 0 && maps[i - 1].is_file_backed() {
        let before = &maps[i - 1];
        if before.size() <= usize::MAX - before.start && before.start + before.size()
            == maps[i].start {
            Some(i - 1)
        } else {
            None
        }
    } else {
        None
    }
}

/// The file offset that the first byte of the mapping at `i` shows, where a
/// machine word holds it.
pub fn basis_of(maps: &Vec<MemoryMapping>, i: usize) -> (r: Option<usize>)
    requires
        i < maps@.len(),
        window_source(maps@, i as int) is Some,
    ensures
        match r {
            Some(basis) => window_basis(maps@, i as int) == basis,
            None => window_basis(maps@, i as int) > usize::MAX,
        },
{
    if maps[i].is_file_backed() {
        Some(maps[i].file_offset)
    } else {
        let before = &maps[i - 1];
        if before.size() <= usize::MAX - before.file_offset {
            Some(before.file_offset + before.size())
        } else {
            None
        }
    }
}

/// The place of the file that stands for `path`.
pub fn find_library(libs: &Vec<LibraryFile>, path: &String) -> (r: Option<usize>)
    ensures
        match r {
            Some(i) => library_for(libs@, path@) == Some(i as int),
            None => library_for(libs@, path@) is None,
        },
{
    let mut i: usize = 0;
    while i < libs.len()
        invariant
            i <= libs@.len(),
            forall|j: int| 0 <= j < i ==> (#[trigger] libs@[j]).path@ != path@,
        decreases libs@.len() - i,
    {
        if libs[i].path == *path {
            proof {
                assert(first_with_path(libs@, path@, i as int));
                let chosen = choose|c: int| first_with_path(libs@, path@, c);
                assert(chosen == i);
            }
            return Some(i);
        }
        i += 1;
    }
    proof {
        assert forall|c: int| !first_with_path(libs@, path@, c) by {
            if first_with_path(libs@, path@, c) {
                assert(libs@[c].path@ != path@);
            }
        }
    }
    None
}

/// A part of a file that starts beyond every offset a table can hold shows
/// no symbol.
proof fn lemma_basis_out_of_reach(
    index: Map<Seq<char>, usize>,
    table: Map<Seq<char>, usize>,
    basis: int,
    start: int,
    size: int,
)
    requires
        basis > usize::MAX,
    ensures
        absorbed(index, table, basis, start, size) == index,
{
    assert(absorbed(index, table, basis, start, size) =~= index);
}

/// An empty table adds nothing.
proof fn lemma_empty_table(index: Map<Seq<char>, usize>, basis: int, start: int, size: int)
    ensures
        absorbed(index, Map::empty(), basis, start, size) == index,
{
    assert(absorbed(index, Map::empty(), basis, start, size) =~= index);
}

/// Once resolution has failed, taking in more mappings does not mend it.
pub proof fn lemma_failure_stays(
    maps: Seq<MemoryMapping>,
    libs: Seq<LibraryFile>,
    k: nat,
    n: nat,
)
    requires
        k <= n,
        resolved(maps, libs, k) is Err,
    ensures
        resolved(maps, libs, n) is Err,
    decreases n,
{
    if k < n {
        lemma_failure_stays(maps, libs, k, (n - 1) as nat);
    }
}

/// The symbol table of one mapped file, as `symbols_of_file` states it. A
/// file that could not be opened has no symbols, and is no failure. A file
/// whose bytes are no readable binary is one.
pub fn get_symbols_for_library(file: &LibraryFile) -> (r: Result<SymbolTable, BinaryFormatError>)
    ensures
        match symbols_of_file(*file) {
            Some(table) => r matches Ok(t) && t.wf() && t@ == table,
            None => r is Err,
        },
{
    match &file.contents {
        None => Ok(SymbolTable::new()),
        Some(bytes) => symbols_of_image(bytes.as_slice()),
    }
}

/// Builds the index of a process's symbols from its mappings, in the order
/// of the listing, and the files that they name: `resolved` of all the
/// mappings. Each file is parsed at most once.
pub fn get_symbols(maps: &Vec<MemoryMapping>, libs: &Vec<LibraryFile>) -> (r: Result<
    SymbolTable,
    BinaryFormatError,
>)
    ensures
        match resolved(maps@, libs@, maps@.len()) {
            Ok(index) => r matches Ok(t) && t.wf() && t@ == index,
            Err(_) => r is Err,
        },
{
    let mut tables: Vec<Option<SymbolTable>> = Vec::new();
    while tables.len() < libs.len()
        invariant
            tables@.len() <= libs@.len(),
            forall|j: int| 0 <= j < tables@.len() ==> (#[trigger] tables@[j]) is None,
        decreases libs@.len() - tables@.len(),
    {
        tables.push(None);
    }
    let mut index = SymbolTable::new();
    let mut k: usize = 0;
    while k < maps.len()
        invariant
            k <= maps@.len(),
            index.wf(),
            resolved(maps@, libs@, k as nat) matches Ok(so_far) && so_far == index@,
            tables@.len() == libs@.len(),
            forall|j: int|
                0 <= j < tables@.len() ==> ((#[trigger] tables@[j]) matches Some(t) ==> t.wf()
                    && symbols_of_file(libs@[j]) == Some(t@)),
        decreases maps@.len() - k,
    {
        let ghost before = index@;
        match source_of(maps, k) {
            None => {},
            Some(source) => {
                let basis = basis_of(maps, k);
                let place = find_library(libs, maps[source].backing_path.as_ref().unwrap());
                match place {
                    None => {
                        proof {
                            lemma_empty_table(
                                before,
                                window_basis(maps@, k as int),
                                maps@[k as int].start as int,
                                maps@[k as int].span(),
                            );
                        }
                    },
                    Some(at) => {
                        if tables[at].is_none() {
                            match get_symbols_for_library(&libs[at]) {
                                Ok(table) => {
                                    tables.set(at, Some(table));
                                },
                                Err(e) => {
                                    proof {
                                        assert(resolved(maps@, libs@, (k + 1) as nat) is Err);
                                        lemma_failure_stays(
                                            maps@,
                                            libs@,
                                            (k + 1) as nat,
                                            maps@.len(),
                                        );
                                    }
                                    return Err(e);
                                },
                            }
                        }
                        let table = tables[at].as_ref().unwrap();
                        match basis {
                            Some(basis) => {
                                index.absorb(table, basis, maps[k].start, maps[k].size());
                            },
                            None => {
                                proof {
                                    lemma_basis_out_of_reach(
                                        before,
                                        table@,
                                        window_basis(maps@, k as int),
                                        maps@[k as int].start as int,
                                        maps@[k as int].span(),
                                    );
                                }
                            },
                        }
                    },
                }
            },
        }
        k += 1;
    }
    Ok(index)
}

/// Some file-backed mapping of `maps` names the file `path`.
pub open spec fn names_path(maps: Seq<MemoryMapping>, path: Seq<char>) -> bool {
    exists|i: int| 0 <= i < maps.len() && (#[trigger] maps[i]).file_backed() && maps[i].path() == path
}

/// `paths` holds `path`.
pub open spec fn lists_path(paths: Seq<String>, path: Seq<char>) -> bool {
    exists|j: int| 0 <= j < paths.len() && (#[trigger] paths[j])@ == path
}

/// The first `i + 1` mappings name the paths that the first `i` name, and
/// the path of the mapping at `i` where that one is file-backed.
proof fn lemma_names_next(maps: Seq<MemoryMapping>, i: int)
    requires
        0 <= i < maps.len(),
    ensures
        forall|path: Seq<char>|
            names_path(maps.take(i + 1), path) <==> (names_path(maps.take(i), path) || (
            maps[i].file_backed() && maps[i].path() == path)),
{
    let seen = maps.take(i);
    let next = maps.take(i + 1);
    assert(next[i] == maps[i]);
    assert forall|path: Seq<char>| names_path(next, path) <==> (names_path(seen, path) || (
    maps[i].file_backed() && maps[i].path() == path)) by {
        if names_path(next, path) {
            let c = choose|c: int|
                0 <= c < next.len() && (#[trigger] next[c]).file_backed() && next[c].path() == path;
            if c < i {
                assert(seen[c] == next[c]);
            }
        }
        if names_path(seen, path) {
            let c = choose|c: int|
                0 <= c < seen.len() && (#[trigger] seen[c]).file_backed() && seen[c].path() == path;
            assert(next[c] == seen[c]);
        }
    }
}

/// A list with one more path holds that path and what it held before.
proof fn lemma_lists_push(paths: Seq<String>, added: String)
    ensures
        forall|path: Seq<char>|
            lists_path(paths.push(added), path) <==> (lists_path(paths, path) || path == added@),
{
    let longer = paths.push(added);
    let last = paths.len() as int;
    assert(longer[last] == added);
    assert forall|path: Seq<char>| lists_path(longer, path) <==> (lists_path(paths, path) || path
        == added@) by {
        if lists_path(longer, path) {
            let c = choose|c: int| 0 <= c < longer.len() && (#[trigger] longer[c])@ == path;
            if c < last {
                assert(paths[c] == longer[c]);
            }
        }
        if lists_path(paths, path) {
            let c = choose|c: int| 0 <= c < paths.len() && (#[trigger] paths[c])@ == path;
            assert(longer[c] == paths[c]);
        }
    }
}

/// Whether `paths` holds `path`.
fn lists(paths: &Vec<String>, path: &String) -> (found: bool)
    ensures
        found == lists_path(paths@, path@),
{
    let mut j: usize = 0;
    while j < paths.len()
        invariant
            j <= paths@.len(),
            forall|c: int| 0 <= c < j ==> (#[trigger] paths@[c])@ != path@,
        decreases paths@.len() - j,
    {
        if paths[j] == *path {
            return true;
        }
        j += 1;
    }
    false
}

/// The files that resolution will ask for: the absolute paths that the
/// file-backed mappings name, each once.
pub fn library_paths(maps: &Vec<MemoryMapping>) -> (paths: Vec<String>)
    ensures
        forall|path: Seq<char>| lists_path(paths@, path) <==> names_path(maps@, path),
        forall|a: int, b: int|
            0 <= a < b < paths@.len() ==> (#[trigger] paths@[a])@ != (#[trigger] paths@[b])@,
{
    let mut paths: Vec<String> = Vec::new();
    let mut i: usize = 0;
    while i < maps.len()
        invariant
            i <= maps@.len(),
            forall|path: Seq<char>|
                lists_path(paths@, path) <==> names_path(maps@.take(i as int), path),
            forall|a: int, b: int|
                0 <= a < b < paths@.len() ==> (#[trigger] paths@[a])@ != (#[trigger] paths@[b])@,
        decreases maps@.len() - i,
    {
        let ghost listed = paths@;
        proof {
            lemma_names_next(maps@, i as int);
        }
        if maps[i].is_file_backed() {
            let path = maps[i].backing_path.as_ref().unwrap();
            if !lists(&paths, path) {
                paths.push(path.clone());
                proof {
                    lemma_lists_push(listed, paths@[listed.len() as int]);
                    assert(paths@ == listed.push(paths@[listed.len() as int]));
                }
            }
        }
        proof {
            assert forall|path: Seq<char>| lists_path(paths@, path) <==> names_path(
                maps@.take(i + 1),
                path,
            ) by {
                assert(lists_path(listed, path) <==> names_path(maps@.take(i as int), path));
            }
        }
        i += 1;
    }
    proof {
        assert(maps@.take(i as int) == maps@);
    }
    paths
}

/// One file that is no readable binary fails the whole resolution: where a
/// mapping shows such a file, there is no index.
pub proof fn law_malformed_file_aborts(maps: Seq<MemoryMapping>, libs: Seq<LibraryFile>, i: int)
    requires
        0 <= i < maps.len(),
        window_source(maps, i) matches Some(source) && symbols_at(libs, maps[source].path()) is None,
    ensures
        resolved(maps, libs, maps.len()) is Err,
{
    lemma_failure_stays(maps, libs, (i + 1) as nat, maps.len());
}

/// Where resolution of the first `n` mappings succeeds, that of the first
/// `k <= n` does.
pub proof fn lemma_success_before(
    maps: Seq<MemoryMapping>,
    libs: Seq<LibraryFile>,
    k: nat,
    n: nat,
)
    requires
        k <= n,
        resolved(maps, libs, n) is Ok,
    ensures
        resolved(maps, libs, k) is Ok,
{
    if resolved(maps, libs, k) is Err {
        lemma_failure_stays(maps, libs, k, n);
    }
}

/// First match wins: a name that the first `k` mappings resolved keeps its
/// address whatever mappings follow, where resolution succeeds.

pub proof fn law_first_match_wins(
    maps: Seq<MemoryMapping>,
    libs: Seq<LibraryFile>,
    k: nat,
    n: nat,
    name: Seq<char>,
)
    requires
        k <= n,
        resolved(maps, libs, n) is Ok,
        resolved(maps, libs, k) is Ok,
        resolved(maps, libs, k)->Ok_0.contains_key(name),
    ensures
        resolved(maps, libs, n)->Ok_0.contains_key(name),
        resolved(maps, libs, n)->Ok_0[name] == resolved(maps, libs, k)->Ok_0[name],
    decreases n,
{
    if k < n {
        lemma_success_before(maps, libs, (n - 1) as nat, n);
        law_first_match_wins(maps, libs, k, (n - 1) as nat, name);
    }
}

/// Resolution correctness. A symbol at file offset `O` of a library, one of
/// whose mappings has file offset `F` and start address `L`, with
/// `F <= O < F + size`, resolves to `O - F + L`, provided that no earlier
/// mapping resolved the symbol's name, and that resolution succeeds: it
/// gives no index at all where a mapped file is no readable binary.
pub proof fn law_resolution(
    maps: Seq<MemoryMapping>,
    libs: Seq<LibraryFile>,
    i: int,
    name: Seq<char>,
)
    requires
        0 <= i < maps.len(),
        maps[i].file_backed(),
        resolved(maps, libs, maps.len()) is Ok,
        !resolved(maps, libs, i as nat)->Ok_0.contains_key(name),
        symbols_at(libs, maps[i].path()) matches Some(table) && table.contains_key(name)
            && in_window(table[name] as int, maps[i].file_offset as int, maps[i].span()),
    ensures
        resolved(maps, libs, maps.len())->Ok_0.contains_key(name),
        resolved(maps, libs, maps.len())->Ok_0[name] == symbols_at(
            libs,
            maps[i].path(),
        )->Some_0[name] - maps[i].file_offset + maps[i].start,
{
    lemma_success_before(maps, libs, (i + 1) as nat, maps.len());
    lemma_success_before(maps, libs, i as nat, maps.len());
    law_first_match_wins(maps, libs, (i + 1) as nat, maps.len(), name);
}

/// Anonymous extension. Where a file-backed mapping is followed, at the
/// address where it ends, by an anonymous one, the anonymous mapping shows
/// the file from the offset on at which the first one ends: a symbol whose
/// file offset `O` lies that far resolves to the anonymous mapping's start
/// plus `O` less that offset, provided that no earlier mapping resolved the
/// symbol's name, and that resolution succeeds.
pub proof fn law_anonymous_extension(
    maps: Seq<MemoryMapping>,
    libs: Seq<LibraryFile>,
    i: int,
    name: Seq<char>,
)
    requires
        1 <= i < maps.len(),
        maps[i - 1].file_backed(),
        maps[i].anonymous(),
        maps[i - 1].start + maps[i - 1].span() == maps[i].start,
        resolved(maps, libs, maps.len()) is Ok,
        !resolved(maps, libs, i as nat)->Ok_0.contains_key(name),
        symbols_at(libs, maps[i - 1].path()) matches Some(table) && table.contains_key(name)
            && in_window(
            table[name] as int,
            maps[i - 1].file_offset + maps[i - 1].span(),
            maps[i].span(),
        ),
    ensures
        resolved(maps, libs, maps.len())->Ok_0.contains_key(name),
        resolved(maps, libs, maps.len())->Ok_0[name] == maps[i].start + (symbols_at(
            libs,
            maps[i - 1].path(),
        )->Some_0[name] - (maps[i - 1].file_offset + maps[i - 1].span())),
{
    lemma_success_before(maps, libs, (i + 1) as nat, maps.len());
    lemma_success_before(maps, libs, i as nat, maps.len());
    law_first_match_wins(maps, libs, (i + 1) as nat, maps.len(), name);
}

} // verus!
