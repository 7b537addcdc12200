use xconnect::call::{Call, FunctionPointer, LibraryHandle};
use xconnect::loader::{
    load, open, open_optional, resolve, BundleRequest, LoadStep, LoaderError, OptionalStep,
    SearchStep,
};

fn owned(names: &[&str]) -> Vec<String> {
    names.iter().map(|n| n.to_string()).collect()
}

/// A loader that opens the listed names only and counts what it is asked.
struct FakeLoader {
    openable: Vec<(&'static str, usize)>,
    missing: Vec<&'static str>,
    asked: Vec<Call>,
}

impl FakeLoader {
    fn new(openable: &[(&'static str, usize)], missing: &[&'static str]) -> FakeLoader {
        FakeLoader { openable: openable.to_vec(), missing: missing.to_vec(), asked: Vec::new() }
    }

    fn perform(&mut self, call: Call) -> usize {
        self.asked.push(call.clone());
        match call {
            Call::OpenLibrary { name } => {
                for (n, addr) in &self.openable {
                    if *n == name {
                        return *addr;
                    }
                }
                0
            }
            Call::ResolveSymbol { library, symbol } => {
                if self.missing.iter().any(|m| *m == symbol) {
                    0
                } else {
                    library.addr + 1 + symbol.len()
                }
            }
            _ => panic!("not a loader call"),
        }
    }

    fn opened(&self) -> Vec<String> {
        let mut names = Vec::new();
        for call in &self.asked {
            if let Call::OpenLibrary { name } = call {
                names.push(name.clone());
            }
        }
        names
    }
}

fn run_open(loader: &mut FakeLoader, candidates: &[&str]) -> Result<LibraryHandle, LoaderError> {
    let mut step = open(owned(candidates));
    loop {
        match step {
            SearchStep::Try(search) => {
                let addr = loader.perform(search.call());
                step = search.reply(addr);
            }
            SearchStep::Done(result) => return result,
        }
    }
}

fn run_open_optional(loader: &mut FakeLoader, candidates: &[&str]) -> Option<LibraryHandle> {
    let mut step = open_optional(owned(candidates));
    loop {
        match step {
            OptionalStep::Try(search) => {
                let addr = loader.perform(search.call());
                step = search.reply(addr);
            }
            OptionalStep::Done(result) => return result,
        }
    }
}

fn run_load(
    loader: &mut FakeLoader,
    candidates: &[&str],
    symbols: &[&str],
) -> Result<xconnect::loader::Bundle, LoaderError> {
    let request = BundleRequest { candidates: owned(candidates), symbols: owned(symbols) };
    let mut step = load(request);
    loop {
        match step {
            LoadStep::Pending(pending) => {
                let addr = loader.perform(pending.call());
                step = pending.reply(addr);
            }
            LoadStep::Done(result) => return result,
        }
    }
}

#[test]
fn open_returns_the_first_openable_candidate() {
    let mut loader = FakeLoader::new(&[("libb.so", 0x2000), ("libc.so", 0x3000)], &[]);
    let result = run_open(&mut loader, &["liba.so", "libb.so", "libc.so"]);
    assert_eq!(result, Ok(LibraryHandle { addr: 0x2000 }));
    assert_eq!(loader.opened(), owned(&["liba.so", "libb.so"]));
}

#[test]
fn open_makes_one_call_when_the_first_candidate_opens() {
    let mut loader = FakeLoader::new(&[("liba.so", 0x1000), ("libb.so", 0x2000)], &[]);
    let result = run_open(&mut loader, &["liba.so", "libb.so"]);
    assert_eq!(result, Ok(LibraryHandle { addr: 0x1000 }));
    assert_eq!(loader.asked.len(), 1);
    assert_eq!(loader.asked[0], Call::OpenLibrary { name: "liba.so".to_string() });
}

#[test]
fn open_follows_the_order_of_the_list_in_every_ordering() {
    let names = ["liba.so", "libb.so", "libc.so"];
    let orders: [[usize; 3]; 6] =
        [[0, 1, 2], [0, 2, 1], [1, 0, 2], [1, 2, 0], [2, 0, 1], [2, 1, 0]];
    for order in orders.iter() {
        let candidates = [names[order[0]], names[order[1]], names[order[2]]];
        let mut loader = FakeLoader::new(&[("libb.so", 0x2000), ("libc.so", 0x3000)], &[]);
        let result = run_open(&mut loader, &candidates);
        let first = candidates.iter().position(|n| *n != "liba.so").unwrap();
        let expected = if candidates[first] == "libb.so" { 0x2000 } else { 0x3000 };
        assert_eq!(result, Ok(LibraryHandle { addr: expected }));
        assert_eq!(loader.opened(), owned(&candidates[..first + 1]));
    }
}

#[test]
fn open_fails_with_not_found_when_no_candidate_opens() {
    let mut loader = FakeLoader::new(&[("libz.so", 0x9000)], &[]);
    let result = run_open(&mut loader, &["liba.so.1", "liba.so"]);
    assert_eq!(result, Err(LoaderError::NotFound(owned(&["liba.so.1", "liba.so"]))));
    assert_eq!(loader.opened(), owned(&["liba.so.1", "liba.so"]));
}

#[test]
fn open_optional_returns_none_when_no_candidate_opens() {
    let mut loader = FakeLoader::new(&[], &[]);
    let result = run_open_optional(&mut loader, &["libGL.so.1", "libGL.so"]);
    assert_eq!(result, None);
    assert_eq!(loader.opened(), owned(&["libGL.so.1", "libGL.so"]));
}

#[test]
fn open_optional_returns_the_first_openable_candidate() {
    let mut loader = FakeLoader::new(&[("libGL.so", 0x7000)], &[]);
    let result = run_open_optional(&mut loader, &["libGL.so.1", "libGL.so"]);
    assert_eq!(result, Some(LibraryHandle { addr: 0x7000 }));
    assert_eq!(loader.asked.len(), 2);
}

#[test]
fn open_of_no_candidates_fails_without_a_call() {
    match open(Vec::new()) {
        SearchStep::Done(Err(LoaderError::NotFound(tried))) => assert!(tried.is_empty()),
        _ => panic!("an empty list cannot be searched"),
    }
    match open_optional(Vec::new()) {
        OptionalStep::Done(None) => {}
        _ => panic!("an empty list cannot be searched"),
    }
}

#[test]
fn search_names_the_candidate_it_tries() {
    let step = open(owned(&["liba.so.1", "liba.so"]));
    let search = match step {
        SearchStep::Try(search) => search,
        SearchStep::Done(_) => panic!("there is a name to try"),
    };
    assert_eq!(search.name(), "liba.so.1");
    let search = match search.reply(0) {
        SearchStep::Try(search) => search,
        SearchStep::Done(_) => panic!("there is a second name to try"),
    };
    assert_eq!(search.name(), "liba.so");
    assert_eq!(search.call(), Call::OpenLibrary { name: "liba.so".to_string() });
}

#[test]
fn resolve_returns_the_address() {
    let lookup = resolve(LibraryHandle { addr: 0x1000 }, "XOpenDisplay".to_string());
    assert_eq!(
        lookup.call(),
        Call::ResolveSymbol {
            library: LibraryHandle { addr: 0x1000 },
            symbol: "XOpenDisplay".to_string()
        }
    );
    assert_eq!(lookup.reply(0x1234), Ok(FunctionPointer { addr: 0x1234 }));
}

#[test]
fn resolve_fails_with_the_symbol_name() {
    let lookup = resolve(LibraryHandle { addr: 0x1000 }, "XNoSuchCall".to_string());
    assert_eq!(lookup.reply(0), Err(LoaderError::SymbolNotFound("XNoSuchCall".to_string())));
}

#[test]
fn load_resolves_every_symbol_in_order() {
    let mut loader = FakeLoader::new(&[("libX.so", 0x1000)], &[]);
    let bundle = run_load(&mut loader, &["libX.so.6", "libX.so"], &["a", "bcd", "ef"]).unwrap();
    assert_eq!(bundle.library(), LibraryHandle { addr: 0x1000 });
    assert_eq!(bundle.len(), 3);
    assert_eq!(bundle.entry(0), Some(FunctionPointer { addr: 0x1002 }));
    assert_eq!(bundle.entry(1), Some(FunctionPointer { addr: 0x1004 }));
    assert_eq!(bundle.entry(2), Some(FunctionPointer { addr: 0x1003 }));
    assert_eq!(bundle.entry(3), None);
    assert_eq!(
        loader.asked,
        vec![
            Call::OpenLibrary { name: "libX.so.6".to_string() },
            Call::OpenLibrary { name: "libX.so".to_string() },
            Call::ResolveSymbol { library: LibraryHandle { addr: 0x1000 }, symbol: "a".to_string() },
            Call::ResolveSymbol {
                library: LibraryHandle { addr: 0x1000 },
                symbol: "bcd".to_string()
            },
            Call::ResolveSymbol {
                library: LibraryHandle { addr: 0x1000 },
                symbol: "ef".to_string()
            },
        ]
    );
}

#[test]
fn load_fails_entirely_when_one_symbol_is_missing() {
    let mut loader = FakeLoader::new(&[("libX.so", 0x1000)], &["second"]);
    let result = run_load(&mut loader, &["libX.so"], &["first", "second", "third"]);
    assert_eq!(result.unwrap_err(), LoaderError::SymbolNotFound("second".to_string()));
    // the lookup of the third symbol is never made
    assert_eq!(loader.asked.len(), 3);
}

#[test]
fn load_fails_when_the_last_symbol_is_missing() {
    let mut loader = FakeLoader::new(&[("libX.so", 0x1000)], &["third"]);
    let result = run_load(&mut loader, &["libX.so"], &["first", "second", "third"]);
    assert_eq!(result.unwrap_err(), LoaderError::SymbolNotFound("third".to_string()));
    assert_eq!(loader.asked.len(), 4);
}

#[test]
fn load_fails_with_not_found_when_the_library_is_absent() {
    let mut loader = FakeLoader::new(&[], &[]);
    let result = run_load(&mut loader, &["libX.so.6", "libX.so"], &["first"]);
    assert_eq!(result.unwrap_err(), LoaderError::NotFound(owned(&["libX.so.6", "libX.so"])));
    assert_eq!(loader.asked.len(), 2);
}

#[test]
fn load_without_symbols_is_done_once_the_library_is_open() {
    let mut loader = FakeLoader::new(&[("libX.so", 0x1000)], &[]);
    let bundle = run_load(&mut loader, &["libX.so"], &[]).unwrap();
    assert_eq!(bundle.library(), LibraryHandle { addr: 0x1000 });
    assert_eq!(bundle.len(), 0);
    assert_eq!(bundle.entry(0), None);
    assert_eq!(loader.asked.len(), 1);
}
