use libthread_db::resolver::{
    basis_of, find_library, get_symbols, get_symbols_for_library, library_paths, source_of,
    LibraryFile, MemoryMapping,
};
use libthread_db::symbols::{
    keeps_first_char, keeps_symbol, symbols_of_image, RawSymbol, SymbolTable,
};

fn put16(out: &mut Vec<u8>, v: u16) {
    out.extend_from_slice(&v.to_le_bytes());
}

fn put32(out: &mut Vec<u8>, v: u32) {
    out.extend_from_slice(&v.to_le_bytes());
}

fn put64(out: &mut Vec<u8>, v: u64) {
    out.extend_from_slice(&v.to_le_bytes());
}

fn section(out: &mut Vec<u8>, name: u32, kind: u32, offset: u64, size: u64, link: u32, entsize: u64) {
    put32(out, name);
    put32(out, kind);
    put64(out, 0);
    put64(out, 0);
    put64(out, offset);
    put64(out, size);
    put32(out, link);
    put32(out, 0);
    put64(out, 1);
    put64(out, entsize);
}

/// A 64-bit little-endian ELF image whose symbol table holds `symbols`.
fn elf_with_symbols(symbols: &[(&str, u64)]) -> Vec<u8> {
    let mut strtab: Vec<u8> = vec![0];
    let mut entries: Vec<u8> = Vec::new();
    // The first entry of a symbol table is the undefined symbol.
    entries.extend_from_slice(&[0u8; 24]);
    for (name, value) in symbols {
        let at = strtab.len() as u32;
        strtab.extend_from_slice(name.as_bytes());
        strtab.push(0);
        put32(&mut entries, at);
        entries.push(0x11);
        entries.push(0);
        put16(&mut entries, 1);
        put64(&mut entries, *value);
        put64(&mut entries, 8);
    }
    let shstrtab: &[u8] = b"\0.symtab\0.strtab\0.shstrtab\0";
    let strtab_at = 64u64;
    let shstrtab_at = strtab_at + strtab.len() as u64;
    let symtab_at = shstrtab_at + shstrtab.len() as u64;
    let headers_at = symtab_at + entries.len() as u64;

    let mut out: Vec<u8> = Vec::new();
    out.extend_from_slice(&[0x7f, b'E', b'L', b'F', 2, 1, 1, 0, 0, 0, 0, 0, 0, 0, 0, 0]);
    put16(&mut out, 3);
    put16(&mut out, 62);
    put32(&mut out, 1);
    put64(&mut out, 0);
    put64(&mut out, 0);
    put64(&mut out, headers_at);
    put32(&mut out, 0);
    put16(&mut out, 64);
    put16(&mut out, 56);
    put16(&mut out, 0);
    put16(&mut out, 64);
    put16(&mut out, 4);
    put16(&mut out, 3);
    assert_eq!(out.len(), 64);
    out.extend_from_slice(&strtab);
    out.extend_from_slice(shstrtab);
    out.extend_from_slice(&entries);
    section(&mut out, 0, 0, 0, 0, 0, 0);
    section(&mut out, 1, 2, symtab_at, entries.len() as u64, 2, 24);
    section(&mut out, 9, 3, strtab_at, strtab.len() as u64, 0, 0);
    section(&mut out, 17, 3, shstrtab_at, shstrtab.len() as u64, 0, 0);
    out
}

fn file_mapping(start: usize, end: usize, file_offset: usize, path: &str) -> MemoryMapping {
    MemoryMapping { start, end, file_offset, backing_path: Some(path.to_string()) }
}

fn anonymous_mapping(start: usize, end: usize) -> MemoryMapping {
    MemoryMapping { start, end, file_offset: 0, backing_path: None }
}

fn library(path: &str, symbols: &[(&str, u64)]) -> LibraryFile {
    LibraryFile { path: path.to_string(), contents: Some(elf_with_symbols(symbols)) }
}

#[test]
fn table_starts_empty() {
    let table = SymbolTable::new();
    assert_eq!(table.get("anything"), None);
    assert!(!table.contains("anything"));
}

#[test]
fn table_insert_replaces() {
    let mut table = SymbolTable::new();
    table.insert("alpha".to_string(), 1);
    table.insert("beta".to_string(), 2);
    table.insert("alpha".to_string(), 3);
    assert_eq!(table.get("alpha"), Some(3));
    assert_eq!(table.get("beta"), Some(2));
    assert_eq!(table.get("gamma"), None);
}

#[test]
fn table_insert_absent_keeps_first() {
    let mut table = SymbolTable::new();
    assert!(table.insert_absent("alpha".to_string(), 1));
    assert!(!table.insert_absent("alpha".to_string(), 7));
    assert!(table.insert_absent("beta".to_string(), 2));
    assert_eq!(table.get("alpha"), Some(1));
    assert_eq!(table.get("beta"), Some(2));
}

#[test]
fn first_character_rule() {
    assert!(keeps_first_char('a', true));
    assert!(keeps_first_char('_', false));
    assert!(!keeps_first_char('1', false));
    assert!(!keeps_first_char('.', false));
}

#[test]
fn symbol_names_are_filtered() {
    assert!(keeps_symbol("nptl_version"));
    assert!(keeps_symbol("_thread_db_sizeof_pthread"));
    assert!(keeps_symbol("Zed"));
    assert!(keeps_symbol("\u{4eac}"));
    assert!(!keeps_symbol(""));
    assert!(!keeps_symbol("1abc"));
    assert!(!keeps_symbol(".L42"));
    assert!(!keeps_symbol("$x"));
}

#[test]
fn table_from_raw_symbols() {
    let raw = vec![
        RawSymbol { name: Some("first".to_string()), value: 0x10 },
        RawSymbol { name: None, value: 0x20 },
        RawSymbol { name: Some("".to_string()), value: 0x30 },
        RawSymbol { name: Some("9lives".to_string()), value: 0x40 },
        RawSymbol { name: Some("_second".to_string()), value: 0x50 },
        RawSymbol { name: Some("first".to_string()), value: 0x60 },
    ];
    let table = SymbolTable::from_raw(&raw);
    assert_eq!(table.get("first"), Some(0x60));
    assert_eq!(table.get("_second"), Some(0x50));
    assert_eq!(table.get("9lives"), None);
    assert_eq!(table.get(""), None);
}

#[test]
fn library_symbols_are_read() {
    let image = elf_with_symbols(&[("__nptl_nthreads", 0x1d2e0), ("nptl_version", 0x18f30), ("1x", 5)]);
    let table = symbols_of_image(&image).expect("a readable image");
    assert_eq!(table.get("__nptl_nthreads"), Some(0x1d2e0));
    assert_eq!(table.get("nptl_version"), Some(0x18f30));
    assert_eq!(table.get("1x"), None);
    assert_eq!(table.get("absent"), None);
}

#[test]
fn library_without_symbols_is_empty() {
    let image = elf_with_symbols(&[]);
    let table = symbols_of_image(&image).expect("a readable image");
    assert_eq!(table.get("nptl_version"), None);
}

#[test]
fn malformed_library_is_an_error() {
    assert!(symbols_of_image(b"this is no binary at all").is_err());
    assert!(symbols_of_image(&[]).is_err());
    let mut image = elf_with_symbols(&[("nptl_version", 0x18f30)]);
    image.truncate(80);
    assert!(symbols_of_image(&image).is_err());
}

#[test]
fn library_file_with_image_is_read() {
    let file = LibraryFile {
        path: "/usr/lib/there.so".to_string(),
        contents: Some(elf_with_symbols(&[("nptl_version", 0x18f30)])),
    };
    let table = get_symbols_for_library(&file).expect("a readable image");
    assert_eq!(table.get("nptl_version"), Some(0x18f30));
    let file = LibraryFile { path: "/usr/lib/bad.so".to_string(), contents: Some(vec![0; 7]) };
    assert!(get_symbols_for_library(&file).is_err());
}

#[test]
fn unreadable_library_has_no_symbols() {
    let file = LibraryFile { path: "/usr/lib/gone.so".to_string(), contents: None };
    let table = get_symbols_for_library(&file).expect("no error for a file that cannot be read");
    assert_eq!(table.get("nptl_version"), None);
}

#[test]
fn absorb_turns_offsets_into_addresses() {
    let mut table = SymbolTable::new();
    table.insert("low".to_string(), 0x0fff);
    table.insert("first".to_string(), 0x1000);
    table.insert("inside".to_string(), 0x1234);
    table.insert("last".to_string(), 0x1fff);
    table.insert("beyond".to_string(), 0x2000);
    let mut index = SymbolTable::new();
    index.insert("inside".to_string(), 42);
    index.absorb(&table, 0x1000, 0x7000_0000, 0x1000);
    assert_eq!(index.get("low"), None);
    assert_eq!(index.get("first"), Some(0x7000_0000));
    assert_eq!(index.get("inside"), Some(42));
    assert_eq!(index.get("last"), Some(0x7000_0fff));
    assert_eq!(index.get("beyond"), None);
}

#[test]
fn mapping_size_and_backing() {
    let m = file_mapping(0x1000, 0x3000, 0, "/lib/libc.so");
    assert_eq!(m.size(), 0x2000);
    assert!(m.is_file_backed());
    assert_eq!(file_mapping(0x3000, 0x1000, 0, "/lib/libc.so").size(), 0);
    assert!(!file_mapping(0x1000, 0x3000, 0, "[stack]").is_file_backed());
    assert!(!file_mapping(0x1000, 0x3000, 0, "").is_file_backed());
    assert!(!anonymous_mapping(0x1000, 0x3000).is_file_backed());
}

#[test]
fn window_sources() {
    let maps = vec![
        file_mapping(0x1000, 0x2000, 0x4000, "/lib/a.so"),
        anonymous_mapping(0x2000, 0x3000),
        anonymous_mapping(0x3000, 0x4000),
        file_mapping(0x5000, 0x6000, 0, "[heap]"),
        anonymous_mapping(0x6000, 0x7000),
        file_mapping(0x8000, 0x9000, 0, "/lib/b.so"),
        anonymous_mapping(0x9800, 0xa000),
    ];
    assert_eq!(source_of(&maps, 0), Some(0));
    assert_eq!(basis_of(&maps, 0), Some(0x4000));
    assert_eq!(source_of(&maps, 1), Some(0));
    assert_eq!(basis_of(&maps, 1), Some(0x5000));
    // A second anonymous mapping is no continuation.
    assert_eq!(source_of(&maps, 2), None);
    assert_eq!(source_of(&maps, 3), None);
    assert_eq!(source_of(&maps, 4), None);
    assert_eq!(source_of(&maps, 5), Some(5));
    // A gap between the addresses breaks the chain.
    assert_eq!(source_of(&maps, 6), None);
}

#[test]
fn window_basis_beyond_a_word() {
    let maps = vec![
        file_mapping(0x1000, 0x3000, usize::MAX - 0xfff, "/lib/a.so"),
        anonymous_mapping(0x3000, 0x4000),
    ];
    assert_eq!(source_of(&maps, 1), Some(0));
    assert_eq!(basis_of(&maps, 1), None);
    let libs = vec![library("/lib/a.so", &[("sym", 0x10)])];
    let index = get_symbols(&maps, &libs).expect("resolution");
    assert_eq!(index.get("sym"), None);
}

#[test]
fn first_library_of_a_path_counts() {
    let libs = vec![
        library("/lib/a.so", &[("sym", 1)]),
        library("/lib/b.so", &[("sym", 2)]),
        library("/lib/a.so", &[("sym", 3)]),
    ];
    assert_eq!(find_library(&libs, &"/lib/a.so".to_string()), Some(0));
    assert_eq!(find_library(&libs, &"/lib/b.so".to_string()), Some(1));
    assert_eq!(find_library(&libs, &"/lib/c.so".to_string()), None);
}

#[test]
fn library_paths_lists_each_file_once() {
    let maps = vec![
        file_mapping(0x1000, 0x2000, 0, "/lib/a.so"),
        file_mapping(0x2000, 0x3000, 0x1000, "/lib/a.so"),
        anonymous_mapping(0x3000, 0x4000),
        file_mapping(0x5000, 0x6000, 0, "[stack]"),
        file_mapping(0x7000, 0x8000, 0, "/lib/b.so"),
        file_mapping(0x8000, 0x9000, 0x1000, "/lib/a.so"),
    ];
    let mut paths = library_paths(&maps);
    paths.sort();
    assert_eq!(paths, vec!["/lib/a.so".to_string(), "/lib/b.so".to_string()]);
    assert!(library_paths(&Vec::new()).is_empty());
}

#[test]
fn resolution_correctness() {
    // A symbol at file offset O in a mapping with file offset F and start L
    // resolves to O - F + L.
    let maps = vec![
        file_mapping(0x7fff_f7f7_8000, 0x7fff_f7f7_e000, 0x0000, "/usr/lib64/libpthread-2.28.so"),
        file_mapping(0x7fff_f7f7_e000, 0x7fff_f7f8_e000, 0x6000, "/usr/lib64/libpthread-2.28.so"),
        file_mapping(0x7fff_f7f8_e000, 0x7fff_f7f9_4000, 0x16000, "/usr/lib64/libpthread-2.28.so"),
    ];
    let libs = vec![library(
        "/usr/lib64/libpthread-2.28.so",
        &[("in_first", 0x10), ("in_second", 0x6000), ("in_third", 0x1bfff), ("nowhere", 0x1c000)],
    )];
    let index = get_symbols(&maps, &libs).expect("resolution");
    assert_eq!(index.get("in_first"), Some(0x7fff_f7f7_8010));
    assert_eq!(index.get("in_second"), Some(0x7fff_f7f7_e000));
    assert_eq!(index.get("in_third"), Some(0x1bfff - 0x16000 + 0x7fff_f7f8_e000));
    assert_eq!(index.get("nowhere"), None);
}

#[test]
fn anonymous_extension() {
    // Mapping A: file-backed, offset 0, size S1. Mapping B: anonymous, right
    // behind it. A symbol at offset O with S1 <= O < S1 + B.size resolves
    // to B.start + (O - S1).
    let maps = vec![
        file_mapping(0x7fff_f7f9_5000, 0x7fff_f7f9_6000, 0, "/usr/lib64/libpthread-2.28.so"),
        anonymous_mapping(0x7fff_f7f9_6000, 0x7fff_f7f9_a000),
        anonymous_mapping(0x7fff_f7f9_a000, 0x7fff_f7f9_b000),
    ];
    let libs = vec![library(
        "/usr/lib64/libpthread-2.28.so",
        &[("__nptl_nthreads", 0x12e0), ("at_the_end", 0x4fff), ("past_the_end", 0x5000)],
    )];
    let index = get_symbols(&maps, &libs).expect("resolution");
    assert_eq!(index.get("__nptl_nthreads"), Some(0x7fff_f7f9_6000 + (0x12e0 - 0x1000)));
    assert_eq!(index.get("at_the_end"), Some(0x7fff_f7f9_9fff));
    // The second anonymous mapping absorbs nothing.
    assert_eq!(index.get("past_the_end"), None);
}

#[test]
fn earliest_mapping_wins() {
    let maps = vec![
        file_mapping(0x10000, 0x11000, 0, "/lib/a.so"),
        file_mapping(0x20000, 0x21000, 0, "/lib/b.so"),
        file_mapping(0x30000, 0x31000, 0, "/lib/a.so"),
    ];
    let libs = vec![
        library("/lib/a.so", &[("shared", 0x100), ("only_a", 0x200)]),
        library("/lib/b.so", &[("shared", 0x300), ("only_b", 0x400)]),
    ];
    let index = get_symbols(&maps, &libs).expect("resolution");
    assert_eq!(index.get("shared"), Some(0x10100));
    assert_eq!(index.get("only_a"), Some(0x10200));
    assert_eq!(index.get("only_b"), Some(0x20400));
}

#[test]
fn unreadable_and_unlisted_files_are_skipped() {
    let maps = vec![
        file_mapping(0x10000, 0x11000, 0, "/lib/gone.so"),
        file_mapping(0x20000, 0x21000, 0, "/lib/unlisted.so"),
        file_mapping(0x30000, 0x31000, 0, "[stack]"),
        anonymous_mapping(0x40000, 0x41000),
        file_mapping(0x50000, 0x51000, 0, "/lib/a.so"),
    ];
    let libs = vec![
        LibraryFile { path: "/lib/gone.so".to_string(), contents: None },
        library("/lib/a.so", &[("sym", 0x100)]),
    ];
    let index = get_symbols(&maps, &libs).expect("resolution");
    assert_eq!(index.get("sym"), Some(0x50100));
}

#[test]
fn malformed_library_fails_resolution() {
    let maps = vec![
        file_mapping(0x10000, 0x11000, 0, "/lib/a.so"),
        file_mapping(0x20000, 0x21000, 0, "/lib/broken.so"),
    ];
    let libs = vec![
        library("/lib/a.so", &[("sym", 0x100)]),
        LibraryFile { path: "/lib/broken.so".to_string(), contents: Some(vec![1, 2, 3, 4]) },
    ];
    assert!(get_symbols(&maps, &libs).is_err());
    // A broken file that no mapping shows does no harm.
    let maps = vec![file_mapping(0x10000, 0x11000, 0, "/lib/a.so")];
    let index = get_symbols(&maps, &libs).expect("resolution");
    assert_eq!(index.get("sym"), Some(0x10100));
}

#[test]
fn test_get_symbols() {
    // The mappings of a threading library as a process's listing shows
    // them; the last, anonymous one holds what lies behind the data.
    let path = "/usr/lib64/libpthread-2.28.so";
    let maps = vec![
        file_mapping(0x7ffff7f78000, 0x7ffff7f7e000, 0x00000000, path),
        file_mapping(0x7ffff7f7e000, 0x7ffff7f8e000, 0x00006000, path),
        file_mapping(0x7ffff7f8e000, 0x7ffff7f94000, 0x00016000, path),
        file_mapping(0x7ffff7f94000, 0x7ffff7f95000, 0x0001b000, path),
        file_mapping(0x7ffff7f95000, 0x7ffff7f96000, 0x0001c000, path),
        anonymous_mapping(0x7ffff7f96000, 0x7ffff7f9a000),
    ];
    let libs = vec![library(
        path,
        &[("__nptl_nthreads", 0x1d2e0), ("nptl_version", 0x17000), ("_thread_db_sizeof_pthread", 0x1c010)],
    )];
    let symbols = get_symbols(&maps, &libs).expect("could not get symbols");
    assert_eq!(symbols.get("__nptl_nthreads"), Some(0x7ffff7f962e0));
    assert_eq!(symbols.get("nptl_version"), Some(0x7ffff7f8f000));
    assert_eq!(symbols.get("_thread_db_sizeof_pthread"), Some(0x7ffff7f95010));
}
