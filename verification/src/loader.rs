//! Searching for a shared library among candidate names and resolving its
//! symbols, one native call at a time.

use vstd::prelude::*;
use crate::call::{names, Call, CallView, FunctionPointer, LibraryHandle};

verus! {

/// Why a library or one of its symbols could not be had.
#[derive(Clone, Debug, PartialEq, Eq)]
pub enum LoaderError {
    /// None of these candidate names could be opened.
    NotFound(Vec<String>),
    /// The library opened but does not export this symbol.
    SymbolNotFound(String),
}

pub enum LoaderErrorView {
    NotFound(Seq<Seq<char>>),
    SymbolNotFound(Seq<char>),
}

impl View for LoaderError {
    type V = LoaderErrorView;

    open spec fn view(&self) -> LoaderErrorView {
        match *self {
            LoaderError::NotFound(candidates) => LoaderErrorView::NotFound(names(candidates@)),
            LoaderError::SymbolNotFound(symbol) => LoaderErrorView::SymbolNotFound(symbol@),
        }
    }
}

/// The view of the outcome of a search.
pub open spec fn opened_view(r: Result<LibraryHandle, LoaderError>) -> Result<
    LibraryHandle,
    LoaderErrorView,
> {
    match r {
        Ok(h) => Ok(h),
        Err(e) => Err(e@),
    }
}

// ---------------------------------------------------------------------
// Searching among candidate names
// ---------------------------------------------------------------------

/// A search that is waiting for the answer to one open call.
pub struct Search {
    candidates: Vec<String>,
    position: usize,
}

pub struct SearchView {
    pub candidates: Seq<Seq<char>>,
    pub position: nat,
}

/// Where a search stands after an answer: another name to try, or done.
pub enum SearchStep {
    Try(Search),
    Done(Result<LibraryHandle, LoaderError>),
}

pub enum SearchStepView {
    Try(SearchView),
    Done(Result<LibraryHandle, LoaderErrorView>),
}

impl SearchView {
    pub open spec fn wf(self) -> bool {
        self.position < self.candidates.len()
    }

    /// The name that is being tried.
    pub open spec fn name(self) -> Seq<char> {
        self.candidates[self.position as int]
    }

    pub open spec fn call(self) -> CallView {
        CallView::OpenLibrary { name: self.name() }
    }

    /// A non-null answer ends the search with that handle. A null answer
    /// moves on to the next name, or ends the search when none is left.
    pub open spec fn reply(self, addr: usize) -> SearchStepView {
        if addr != 0 {
            SearchStepView::Done(Ok(LibraryHandle { addr }))
        } else if self.position + 1 < self.candidates.len() {
            SearchStepView::Try(
                SearchView { candidates: self.candidates, position: self.position + 1 },
            )
        } else {
            SearchStepView::Done(Err(LoaderErrorView::NotFound(self.candidates)))
        }
    }
}

impl SearchStepView {
    /// A search that goes on is well formed, and a handle is never null.
    pub open spec fn wf(self) -> bool {
        match self {
            SearchStepView::Try(s) => s.wf(),
            SearchStepView::Done(Ok(h)) => h.addr != 0,
            SearchStepView::Done(Err(_)) => true,
        }
    }
}

/// The start of a search: the first name is tried, if there is one.
pub open spec fn open_spec(candidates: Seq<Seq<char>>) -> SearchStepView {
    if candidates.len() == 0 {
        SearchStepView::Done(Err(LoaderErrorView::NotFound(candidates)))
    } else {
        SearchStepView::Try(SearchView { candidates, position: 0 })
    }
}

impl View for Search {
    type V = SearchView;

    closed spec fn view(&self) -> SearchView {
        SearchView { candidates: names(self.candidates@), position: self.position as nat }
    }
}

impl View for SearchStep {
    type V = SearchStepView;

    open spec fn view(&self) -> SearchStepView {
        match *self {
            SearchStep::Try(s) => SearchStepView::Try(s@),
            SearchStep::Done(r) => SearchStepView::Done(opened_view(r)),
        }
    }
}

/// Begins the search for a library under `candidates`, tried in order.
pub fn open(candidates: Vec<String>) -> (step: SearchStep)
    ensures
        step@ == open_spec(names(candidates@)),
        step@.wf(),
{
    if candidates.len() == 0 {
        SearchStep::Done(Err(LoaderError::NotFound(candidates)))
    } else {
        SearchStep::Try(Search { candidates, position: 0 })
    }
}

impl Search {
    #[verifier::type_invariant]
    spec fn inv(self) -> bool {
        self.position < self.candidates.len()
    }

    /// The file name to open now.
    pub fn name(&self) -> (name: &String)
        ensures
            self@.wf(),
            name@ == self@.name(),
    {
        proof {
            use_type_invariant(self);
        }
        &self.candidates[self.position]
    }

    /// The call to perform now.
    pub fn call(&self) -> (call: Call)
        ensures
            self@.wf(),
            call@ == self@.call(),
    {
        Call::OpenLibrary { name: self.name().clone() }
    }

    /// Takes the answer to the pending open call.
    pub fn reply(self, addr: usize) -> (step: SearchStep)
        ensures
            self@.wf(),
            step@ == self@.reply(addr),
            step@.wf(),
    {
        proof {
            use_type_invariant(&self);
        }
        if addr != 0 {
            SearchStep::Done(Ok(LibraryHandle { addr }))
        } else if self.position + 1 < self.candidates.len() {
            SearchStep::Try(Search { candidates: self.candidates, position: self.position + 1 })
        } else {
            SearchStep::Done(Err(LoaderError::NotFound(self.candidates)))
        }
    }
}


// ---------------------------------------------------------------------
// Searching for a library that may be absent
// ---------------------------------------------------------------------

/// A search whose failure is an expected outcome, not an error.
pub struct OptionalSearch {
    search: Search,
}

/// Where an optional search stands: another name to try, or done, with
/// `None` for a library that is absent.
pub enum OptionalStep {
    Try(OptionalSearch),
    Done(Option<LibraryHandle>),
}

pub enum OptionalStepView {
    Try(SearchView),
    Done(Option<LibraryHandle>),
}

/// The same search, with every failure collapsed to `None`.
pub open spec fn collapse(step: SearchStepView) -> OptionalStepView {
    match step {
        SearchStepView::Try(s) => OptionalStepView::Try(s),
        SearchStepView::Done(Ok(h)) => OptionalStepView::Done(Some(h)),
        SearchStepView::Done(Err(_)) => OptionalStepView::Done(None),
    }
}

impl View for OptionalSearch {
    type V = SearchView;

    closed spec fn view(&self) -> SearchView {
        self.search@
    }
}

impl View for OptionalStep {
    type V = OptionalStepView;

    open spec fn view(&self) -> OptionalStepView {
        match *self {
            OptionalStep::Try(s) => OptionalStepView::Try(s@),
            OptionalStep::Done(r) => OptionalStepView::Done(r),
        }
    }
}

fn collapsed(step: SearchStep) -> (r: OptionalStep)
    ensures
        r@ == collapse(step@),
{
    match step {
        SearchStep::Try(search) => OptionalStep::Try(OptionalSearch { search }),
        SearchStep::Done(Ok(h)) => OptionalStep::Done(Some(h)),
        SearchStep::Done(Err(_)) => OptionalStep::Done(None),
    }
}

/// Begins the search for a library that may be absent.
pub fn open_optional(candidates: Vec<String>) -> (step: OptionalStep)
    ensures
        step@ == collapse(open_spec(names(candidates@))),
{
    collapsed(open(candidates))
}

impl OptionalSearch {
    /// The file name to open now.
    pub fn name(&self) -> (name: &String)
        ensures
            self@.wf(),
            name@ == self@.name(),
    {
        self.search.name()
    }

    /// The call to perform now.
    pub fn call(&self) -> (call: Call)
        ensures
            self@.wf(),
            call@ == self@.call(),
    {
        self.search.call()
    }

    /// Takes the answer to the pending open call.
    pub fn reply(self, addr: usize) -> (step: OptionalStep)
        ensures
            self@.wf(),
            step@ == collapse(self@.reply(addr)),
    {
        collapsed(self.search.reply(addr))
    }
}

// ---------------------------------------------------------------------
// Resolving one symbol
// ---------------------------------------------------------------------

/// A symbol lookup that is waiting for its answer.
pub struct Resolution {
    pub library: LibraryHandle,
    pub symbol: String,
}

/// The view of the outcome of a lookup.
pub open spec fn resolved_view(r: Result<FunctionPointer, LoaderError>) -> Result<
    FunctionPointer,
    LoaderErrorView,
> {
    match r {
        Ok(p) => Ok(p),
        Err(e) => Err(e@),
    }
}

/// A non-null answer is the symbol's address; a null answer means that the
/// library does not export the symbol.
pub open spec fn resolve_spec(symbol: Seq<char>, addr: usize) -> Result<
    FunctionPointer,
    LoaderErrorView,
> {
    if addr != 0 {
        Ok(FunctionPointer { addr })
    } else {
        Err(LoaderErrorView::SymbolNotFound(symbol))
    }
}

/// Begins the lookup of `symbol` in `library`.
pub fn resolve(library: LibraryHandle, symbol: String) -> (r: Resolution)
    ensures
        r.library == library,
        r.symbol@ == symbol@,
{
    Resolution { library, symbol }
}

impl Resolution {
    /// The call to perform now.
    pub fn call(&self) -> (call: Call)
        ensures
            call@ == (CallView::ResolveSymbol { library: self.library.addr, symbol: self.symbol@ }),
    {
        Call::ResolveSymbol { library: self.library, symbol: self.symbol.clone() }
    }

    /// Takes the answer to the lookup.
    pub fn reply(self, addr: usize) -> (r: Result<FunctionPointer, LoaderError>)
        ensures
            resolved_view(r) == resolve_spec(self.symbol@, addr),
    {
        if addr != 0 {
            Ok(FunctionPointer { addr })
        } else {
            Err(LoaderError::SymbolNotFound(self.symbol))
        }
    }
}

// ---------------------------------------------------------------------
// Capability bundles
// ---------------------------------------------------------------------

/// What it takes to build one bundle: the file names under which its
/// library may be found, in order of preference, and the symbols it needs.
pub struct BundleRequest {
    pub candidates: Vec<String>,
    pub symbols: Vec<String>,
}

pub struct RequestView {
    pub candidates: Seq<Seq<char>>,
    pub symbols: Seq<Seq<char>>,
}

impl View for BundleRequest {
    type V = RequestView;

    open spec fn view(&self) -> RequestView {
        RequestView { candidates: names(self.candidates@), symbols: names(self.symbols@) }
    }
}

/// An opened library with every requested symbol resolved; entry `i` is the
/// address of the request's symbol `i`.
#[derive(Debug)]
pub struct Bundle {
    library: LibraryHandle,
    entries: Vec<FunctionPointer>,
}

pub struct BundleView {
    pub library: usize,
    pub entries: Seq<usize>,
}

impl BundleView {
    /// Neither the library nor any entry is null.
    pub open spec fn wf(self) -> bool {
        &&& self.library != 0
        &&& forall|i: int| 0 <= i < self.entries.len() ==> self.entries[i] != 0
    }
}

/// The addresses of a list of pointers.
pub open spec fn addresses(v: Seq<FunctionPointer>) -> Seq<usize> {
    v.map_values(|p: FunctionPointer| p.addr)
}

impl View for Bundle {
    type V = BundleView;

    closed spec fn view(&self) -> BundleView {
        BundleView { library: self.library.addr, entries: addresses(self.entries@) }
    }
}

impl Bundle {
    #[verifier::type_invariant]
    spec fn inv(self) -> bool {
        self@.wf()
    }

    /// The library the entries were resolved in.
    pub fn library(&self) -> (h: LibraryHandle)
        ensures
            self@.wf(),
            h.addr == self@.library,
    {
        proof {
            use_type_invariant(self);
        }
        self.library
    }

    /// The number of resolved entries.
    pub fn len(&self) -> (n: usize)
        ensures
            n == self@.entries.len(),
    {
        self.entries.len()
    }

    /// The address of entry `i`, if there is one.
    pub fn entry(&self, i: usize) -> (p: Option<FunctionPointer>)
        ensures
            self@.wf(),
            match p {
                Some(p) => i < self@.entries.len() && p.addr == self@.entries[i as int]
                    && p.addr != 0,
                None => i >= self@.entries.len(),
            },
    {
        proof {
            use_type_invariant(self);
        }
        if i < self.entries.len() {
            Some(self.entries[i])
        } else {
            None
        }
    }
}


// ---------------------------------------------------------------------
// Building a bundle
// ---------------------------------------------------------------------

/// A bundle under construction, waiting for the answer to one loader call.
pub struct BundleLoad {
    symbols: Vec<String>,
    stage: LoadStage,
}

enum LoadStage {
    Opening(Search),
    Resolving { library: LibraryHandle, entries: Vec<FunctionPointer> },
}

pub enum LoadView {
    /// The library is being searched for.
    Opening { search: SearchView, symbols: Seq<Seq<char>> },
    /// The library is open and `entries` holds the addresses of the first
    /// symbols; the next one is being looked up.
    Resolving { library: usize, symbols: Seq<Seq<char>>, entries: Seq<usize> },
}

/// Where a load stands after an answer: another call to make, or done, with
/// the whole bundle or with the error that ended it.
pub enum LoadStep {
    Pending(BundleLoad),
    Done(Result<Bundle, LoaderError>),
}

pub enum LoadStepView {
    Pending(LoadView),
    Done(Result<BundleView, LoaderErrorView>),
}

/// The view of the outcome of a load.
pub open spec fn loaded_view(r: Result<Bundle, LoaderError>) -> Result<BundleView, LoaderErrorView> {
    match r {
        Ok(b) => Ok(b@),
        Err(e) => Err(e@),
    }
}

/// What follows once the library is open: the first lookup, or the finished
/// bundle when no symbol is asked for.
pub open spec fn after_open(library: usize, symbols: Seq<Seq<char>>) -> LoadStepView {
    if symbols.len() == 0 {
        LoadStepView::Done(Ok(BundleView { library, entries: Seq::empty() }))
    } else {
        LoadStepView::Pending(LoadView::Resolving { library, symbols, entries: Seq::empty() })
    }
}

/// What follows an answer of the search for the library.
pub open spec fn after_search(step: SearchStepView, symbols: Seq<Seq<char>>) -> LoadStepView {
    match step {
        SearchStepView::Try(search) => LoadStepView::Pending(LoadView::Opening { search, symbols }),
        SearchStepView::Done(Ok(h)) => after_open(h.addr, symbols),
        SearchStepView::Done(Err(e)) => LoadStepView::Done(Err(e)),
    }
}

/// The start of a load: the search for the library begins.
pub open spec fn load_spec(request: RequestView) -> LoadStepView {
    after_search(open_spec(request.candidates), request.symbols)
}

impl LoadView {
    pub open spec fn wf(self) -> bool {
        match self {
            LoadView::Opening { search, symbols } => search.wf(),
            LoadView::Resolving { library, symbols, entries } => {
                &&& library != 0
                &&& entries.len() < symbols.len()
                &&& forall|i: int| 0 <= i < entries.len() ==> entries[i] != 0
            },
        }
    }

    /// The symbols the bundle needs.
    pub open spec fn symbols(self) -> Seq<Seq<char>> {
        match self {
            LoadView::Opening { search, symbols } => symbols,
            LoadView::Resolving { library, symbols, entries } => symbols,
        }
    }

    pub open spec fn call(self) -> CallView {
        match self {
            LoadView::Opening { search, symbols } => search.call(),
            LoadView::Resolving { library, symbols, entries } => CallView::ResolveSymbol {
                library,
                symbol: symbols[entries.len() as int],
            },
        }
    }

    /// While the library is searched for, the answer goes to the search.
    /// Afterwards a null answer ends the load with the missing symbol's
    /// name, and a non-null one is kept as the next entry; the bundle is
    /// done when every symbol has its entry.
    pub open spec fn reply(self, addr: usize) -> LoadStepView {
        match self {
            LoadView::Opening { search, symbols } => after_search(search.reply(addr), symbols),
            LoadView::Resolving { library, symbols, entries } => {
                match resolve_spec(symbols[entries.len() as int], addr) {
                    Err(e) => LoadStepView::Done(Err(e)),
                    Ok(p) => if entries.len() + 1 == symbols.len() {
                        LoadStepView::Done(Ok(BundleView { library, entries: entries.push(p.addr) }))
                    } else {
                        LoadStepView::Pending(
                            LoadView::Resolving { library, symbols, entries: entries.push(p.addr) },
                        )
                    },
                }
            },
        }
    }
}

impl LoadStepView {
    pub open spec fn wf(self) -> bool {
        match self {
            LoadStepView::Pending(l) => l.wf(),
            LoadStepView::Done(Ok(b)) => b.wf(),
            LoadStepView::Done(Err(_)) => true,
        }
    }
}

impl View for BundleLoad {
    type V = LoadView;

    closed spec fn view(&self) -> LoadView {
        match self.stage {
            LoadStage::Opening(search) => LoadView::Opening {
                search: search@,
                symbols: names(self.symbols@),
            },
            LoadStage::Resolving { library, entries } => LoadView::Resolving {
                library: library.addr,
                symbols: names(self.symbols@),
                entries: addresses(entries@),
            },
        }
    }
}

impl View for LoadStep {
    type V = LoadStepView;

    open spec fn view(&self) -> LoadStepView {
        match *self {
            LoadStep::Pending(l) => LoadStepView::Pending(l@),
            LoadStep::Done(r) => LoadStepView::Done(loaded_view(r)),
        }
    }
}

fn opened(library: LibraryHandle, symbols: Vec<String>) -> (step: LoadStep)
    requires
        library.addr != 0,
    ensures
        step@ == after_open(library.addr, names(symbols@)),
        step@.wf(),
{
    let entries: Vec<FunctionPointer> = Vec::new();
    assert(addresses(entries@) =~= Seq::<usize>::empty());
    if symbols.len() == 0 {
        LoadStep::Done(Ok(Bundle { library, entries }))
    } else {
        LoadStep::Pending(BundleLoad { symbols, stage: LoadStage::Resolving { library, entries } })
    }
}

fn searched(step: SearchStep, symbols: Vec<String>) -> (r: LoadStep)
    requires
        step@.wf(),
    ensures
        r@ == after_search(step@, names(symbols@)),
        r@.wf(),
{
    match step {
        SearchStep::Try(search) => LoadStep::Pending(
            BundleLoad { symbols, stage: LoadStage::Opening(search) },
        ),
        SearchStep::Done(Ok(library)) => opened(library, symbols),
        SearchStep::Done(Err(e)) => LoadStep::Done(Err(e)),
    }
}

/// Begins to build the bundle that `request` describes.
pub fn load(request: BundleRequest) -> (step: LoadStep)
    ensures
        step@ == load_spec(request@),
        step@.wf(),
{
    searched(open(request.candidates), request.symbols)
}

impl BundleLoad {
    #[verifier::type_invariant]
    spec fn inv(self) -> bool {
        self@.wf()
    }

    /// The call to perform now.
    pub fn call(&self) -> (call: Call)
        ensures
            self@.wf(),
            call@ == self@.call(),
    {
        proof {
            use_type_invariant(self);
        }
        match &self.stage {
            LoadStage::Opening(search) => search.call(),
            LoadStage::Resolving { library, entries } => Call::ResolveSymbol {
                library: *library,
                symbol: self.symbols[entries.len()].clone(),
            },
        }
    }

    /// Takes the answer to the pending call.
    pub fn reply(self, addr: usize) -> (step: LoadStep)
        ensures
            self@.wf(),
            step@ == self@.reply(addr),
            step@.wf(),
    {
        proof {
            use_type_invariant(&self);
        }
        let symbols = self.symbols;
        match self.stage {
            LoadStage::Opening(search) => searched(search.reply(addr), symbols),
            LoadStage::Resolving { library, entries } => {
                let mut entries = entries;
                if addr == 0 {
                    LoadStep::Done(
                        Err(LoaderError::SymbolNotFound(symbols[entries.len()].clone())),
                    )
                } else {
                    let ghost before = entries@;
                    entries.push(FunctionPointer { addr });
                    assert(addresses(entries@) =~= addresses(before).push(addr));
                    if entries.len() == symbols.len() {
                        LoadStep::Done(Ok(Bundle { library, entries }))
                    } else {
                        LoadStep::Pending(
                            BundleLoad { symbols, stage: LoadStage::Resolving { library, entries } },
                        )
                    }
                }
            },
        }
    }
}

} // verus!
