//! The native calls a driver performs on behalf of the state machines, and
//! the plain values that stand for native addresses.

use vstd::prelude::*;

verus! {

/// Address of an opened shared library, as the platform loader returned it.
#[derive(Clone, Copy, Debug, PartialEq, Eq, Structural)]
pub struct LibraryHandle {
    pub addr: usize,
}

/// Address of a resolved symbol.
#[derive(Clone, Copy, Debug, PartialEq, Eq, Structural)]
pub struct FunctionPointer {
    pub addr: usize,
}

/// One native call. The driver performs it and answers with the word the
/// call returned: an address for the loader calls and for `OpenDisplay`
/// (zero for null), anything for the others.
#[derive(Clone, Debug, PartialEq, Eq)]
pub enum Call {
    /// Open the shared library of this file name.
    OpenLibrary { name: String },
    /// Look this symbol up in an opened library.
    ResolveSymbol { library: LibraryHandle, symbol: String },
    /// Call the process-wide thread initialisation at `entry`.
    InitThreads { entry: FunctionPointer },
    /// Install `handler` as the error callback through `entry`; `None`
    /// restores the platform's default handler.
    SetErrorHandler { entry: FunctionPointer, handler: Option<FunctionPointer> },
    /// Connect to the default display through `entry`.
    OpenDisplay { entry: FunctionPointer },
    /// Close `display` through `entry`.
    CloseDisplay { entry: FunctionPointer, display: usize },
}

/// Mathematical counterpart of [`Call`]: names are sequences of characters.
pub enum CallView {
    OpenLibrary { name: Seq<char> },
    ResolveSymbol { library: usize, symbol: Seq<char> },
    InitThreads { entry: usize },
    SetErrorHandler { entry: usize, handler: Option<usize> },
    OpenDisplay { entry: usize },
    CloseDisplay { entry: usize, display: usize },
}

impl View for Call {
    type V = CallView;

    open spec fn view(&self) -> CallView {
        match *self {
            Call::OpenLibrary { name } => CallView::OpenLibrary { name: name@ },
            Call::ResolveSymbol { library, symbol } => CallView::ResolveSymbol {
                library: library.addr,
                symbol: symbol@,
            },
            Call::InitThreads { entry } => CallView::InitThreads { entry: entry.addr },
            Call::SetErrorHandler { entry, handler } => CallView::SetErrorHandler {
                entry: entry.addr,
                handler: match handler {
                    Some(h) => Some(h.addr),
                    None => None,
                },
            },
            Call::OpenDisplay { entry } => CallView::OpenDisplay { entry: entry.addr },
            Call::CloseDisplay { entry, display } => CallView::CloseDisplay {
                entry: entry.addr,
                display,
            },
        }
    }
}

impl CallView {
    /// Whether the call belongs to the loader (opening or resolving).
    pub open spec fn is_loader_call(self) -> bool {
        self is OpenLibrary || self is ResolveSymbol
    }
}

/// The views of a list of names.
pub open spec fn names(v: Seq<String>) -> Seq<Seq<char>> {
    v.map_values(|s: String| s@)
}

} // verus!
