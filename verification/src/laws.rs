//! What holds of every run of the state machines, whatever the platform
//! answers.
//!
//! A run feeds a machine the answers of a script, one after the other,
//! until the machine is done or the script is used up. The trace of a run is
//! the sequence of states in which a call was pending; answer `i` of the
//! script is the answer to the call of state `i` of the trace.

use vstd::prelude::*;
use crate::call::{CallView, LibraryHandle};
use crate::connection::{
    core_symbols, initial, ProgressView, SetupView, StageView, State, TablesView,
    XNotSupportedView, MANDATORY,
};
use crate::loader::{
    collapse, load_spec, open_spec, LoadStepView, LoadView, LoaderErrorView, OptionalStepView,
    RequestView, SearchStepView, SearchView,
};

verus! {

// ---------------------------------------------------------------------
// Searches
// ---------------------------------------------------------------------

/// Where a search stands after the answers of `replies`.
pub open spec fn search_run(step: SearchStepView, replies: Seq<usize>) -> SearchStepView
    decreases replies.len(),
{
    match step {
        SearchStepView::Try(s) => if replies.len() == 0 {
            step
        } else {
            search_run(s.reply(replies[0]), replies.drop_first())
        },
        SearchStepView::Done(_) => step,
    }
}

/// The states of a search in which a call was pending.
pub open spec fn search_trace(step: SearchStepView, replies: Seq<usize>) -> Seq<SearchView>
    decreases replies.len(),
{
    match step {
        SearchStepView::Try(s) => if replies.len() == 0 {
            seq![s]
        } else {
            seq![s] + search_trace(s.reply(replies[0]), replies.drop_first())
        },
        SearchStepView::Done(_) => Seq::empty(),
    }
}

/// Where an optional search stands after the answers of `replies`.
pub open spec fn optional_run(step: OptionalStepView, replies: Seq<usize>) -> OptionalStepView
    decreases replies.len(),
{
    match step {
        OptionalStepView::Try(s) => if replies.len() == 0 {
            step
        } else {
            optional_run(collapse(s.reply(replies[0])), replies.drop_first())
        },
        OptionalStepView::Done(_) => step,
    }
}

/// An optional search runs as the plain search does, failure collapsed.
pub proof fn law_optional_run_collapses(step: SearchStepView, replies: Seq<usize>)
    ensures
        optional_run(collapse(step), replies) == collapse(search_run(step, replies)),
    decreases replies.len(),
{
    if let SearchStepView::Try(s) = step {
        if replies.len() > 0 {
            law_optional_run_collapses(s.reply(replies[0]), replies.drop_first());
        }
    }
}

/// From a search at `s`, with the first non-null answer at index `k` and a
/// name left for it: the search ends with that answer as the handle, and
/// the names tried are the next `k + 1` candidates, in order.
proof fn lemma_search_finds(s: SearchView, replies: Seq<usize>, k: int)
    requires
        s.wf(),
        0 <= k < replies.len(),
        s.position + k < s.candidates.len(),
        replies[k] != 0,
        forall|j: int| 0 <= j < k ==> replies[j] == 0,
    ensures
        search_run(SearchStepView::Try(s), replies) == SearchStepView::Done(
            Ok(LibraryHandle { addr: replies[k] }),
        ),
        search_trace(SearchStepView::Try(s), replies).len() == k + 1,
        forall|i: int|
            0 <= i <= k ==> (#[trigger] search_trace(SearchStepView::Try(s), replies)[i])
                == (SearchView { candidates: s.candidates, position: (s.position + i) as nat }),
    decreases k,
{
    reveal_with_fuel(search_run, 2);
    let rest = replies.drop_first();
    if k == 0 {
        assert(search_trace(s.reply(replies[0]), rest) =~= Seq::<SearchView>::empty());
    } else {
        assert(replies[0] == 0);
        let next = SearchView { candidates: s.candidates, position: s.position + 1 };
        assert(s.reply(replies[0]) == SearchStepView::Try(next));
        assert forall|j: int| 0 <= j < k - 1 implies rest[j] == 0 by {
            assert(rest[j] == replies[j + 1]);
        }
        lemma_search_finds(next, rest, k - 1);
        let tail = search_trace(SearchStepView::Try(next), rest);
        let all = search_trace(SearchStepView::Try(s), replies);
        assert(all == seq![s] + tail);
        assert forall|i: int| 0 <= i <= k implies (#[trigger] all[i]) == (SearchView {
            candidates: s.candidates,
            position: (s.position + i) as nat,
        }) by {
            if i > 0 {
                assert(all[i] == tail[i - 1]);
            }
        }
    }
}

/// From a search at `s`, with a null answer for every name that is left:
/// the search ends with `NotFound`, and every name left has been tried.
proof fn lemma_search_exhausts(s: SearchView, replies: Seq<usize>)
    requires
        s.wf(),
        replies.len() >= s.candidates.len() - s.position,
        forall|j: int| 0 <= j < s.candidates.len() - s.position ==> replies[j] == 0,
    ensures
        search_run(SearchStepView::Try(s), replies) == SearchStepView::Done(
            Err(LoaderErrorView::NotFound(s.candidates)),
        ),
        search_trace(SearchStepView::Try(s), replies).len() == s.candidates.len() - s.position,
        forall|i: int|
            0 <= i < s.candidates.len() - s.position ==> (#[trigger] search_trace(
                SearchStepView::Try(s),
                replies,
            )[i]) == (SearchView { candidates: s.candidates, position: (s.position + i) as nat }),
    decreases s.candidates.len() - s.position,
{
    reveal_with_fuel(search_run, 2);
    let rest = replies.drop_first();
    assert(replies[0] == 0);
    if s.position + 1 < s.candidates.len() {
        let next = SearchView { candidates: s.candidates, position: s.position + 1 };
        assert forall|j: int| 0 <= j < next.candidates.len() - next.position implies rest[j]
            == 0 by {
            assert(rest[j] == replies[j + 1]);
        }
        lemma_search_exhausts(next, rest);
        let tail = search_trace(SearchStepView::Try(next), rest);
        let all = search_trace(SearchStepView::Try(s), replies);
        assert(all == seq![s] + tail);
        assert forall|i: int| 0 <= i < s.candidates.len() - s.position implies (#[trigger] all[i])
            == (SearchView { candidates: s.candidates, position: (s.position + i) as nat }) by {
            if i > 0 {
                assert(all[i] == tail[i - 1]);
            }
        }
    } else {
        assert(search_trace(s.reply(replies[0]), rest) =~= Seq::<SearchView>::empty());
    }
}

/// Whatever the candidates and their order: when answer `k` is the first
/// that is not null, the search returns it as the handle, and exactly the
/// candidates `0..=k` have been tried, in order; none after the success.
pub proof fn law_open_returns_first_openable(
    candidates: Seq<Seq<char>>,
    replies: Seq<usize>,
    k: int,
)
    requires
        0 <= k < candidates.len(),
        k < replies.len(),
        replies[k] != 0,
        forall|j: int| 0 <= j < k ==> replies[j] == 0,
    ensures
        search_run(open_spec(candidates), replies) == SearchStepView::Done(
            Ok(LibraryHandle { addr: replies[k] }),
        ),
        search_trace(open_spec(candidates), replies).len() == k + 1,
        forall|i: int|
            0 <= i <= k ==> (#[trigger] search_trace(open_spec(candidates), replies)[i]).call()
                == (CallView::OpenLibrary { name: candidates[i] }),
{
    let s = SearchView { candidates, position: 0 };
    lemma_search_finds(s, replies, k);
}

/// When every candidate is answered with null, `open` fails with
/// `NotFound`, `open_optional` returns `None`, and each candidate has been
/// tried once, in order. An empty list fails without a call.
pub proof fn law_open_fails_when_nothing_opens(candidates: Seq<Seq<char>>, replies: Seq<usize>)
    requires
        replies.len() >= candidates.len(),
        forall|j: int| 0 <= j < candidates.len() ==> replies[j] == 0,
    ensures
        search_run(open_spec(candidates), replies) == SearchStepView::Done(
            Err(LoaderErrorView::NotFound(candidates)),
        ),
        optional_run(collapse(open_spec(candidates)), replies) == OptionalStepView::Done(None),
        search_trace(open_spec(candidates), replies).len() == candidates.len(),
        forall|i: int|
            0 <= i < candidates.len() ==> (#[trigger] search_trace(
                open_spec(candidates),
                replies,
            )[i]).call() == (CallView::OpenLibrary { name: candidates[i] }),
{
    law_optional_run_collapses(open_spec(candidates), replies);
    if candidates.len() > 0 {
        let s = SearchView { candidates, position: 0 };
        lemma_search_exhausts(s, replies);
    }
}


// ---------------------------------------------------------------------
// Bundles
// ---------------------------------------------------------------------

/// Where a load stands after the answers of `replies`.
pub open spec fn load_run(step: LoadStepView, replies: Seq<usize>) -> LoadStepView
    decreases replies.len(),
{
    match step {
        LoadStepView::Pending(l) => if replies.len() == 0 {
            step
        } else {
            load_run(l.reply(replies[0]), replies.drop_first())
        },
        LoadStepView::Done(_) => step,
    }
}

/// The states of a load in which a call was pending.
pub open spec fn load_trace(step: LoadStepView, replies: Seq<usize>) -> Seq<LoadView>
    decreases replies.len(),
{
    match step {
        LoadStepView::Pending(l) => if replies.len() == 0 {
            seq![l]
        } else {
            seq![l] + load_trace(l.reply(replies[0]), replies.drop_first())
        },
        LoadStepView::Done(_) => Seq::empty(),
    }
}

/// A load keeps its symbol list and stays well formed.
pub proof fn law_load_step(l: LoadView, addr: usize)
    requires
        l.wf(),
    ensures
        l.reply(addr).wf(),
        l.reply(addr) matches LoadStepView::Pending(next) ==> next.symbols() == l.symbols(),
        l.reply(addr) matches LoadStepView::Done(Ok(b)) ==> b.entries.len() == l.symbols().len(),
{
}

/// The bundle that a load ends with, seen from any state of the load: it
/// has an entry for every symbol, none of them null; the entries that were
/// there stay, and each later entry is the answer to the lookup of its
/// symbol; the library is the non-null answer that ended the search.
proof fn lemma_load_whole(l: LoadView, replies: Seq<usize>)
    requires
        l.wf(),
    ensures
        load_run(LoadStepView::Pending(l), replies) matches LoadStepView::Done(Ok(b)) ==> {
            let trace = load_trace(LoadStepView::Pending(l), replies);
            &&& b.wf()
            &&& b.entries.len() == l.symbols().len()
            &&& trace.len() <= replies.len()
            &&& l matches LoadView::Resolving { library, symbols, entries } ==> b.library
                == library && forall|k: int| 0 <= k < entries.len() ==> b.entries[k] == entries[k]
            &&& forall|j: int|
                0 <= j < trace.len() ==> match #[trigger] trace[j] {
                    LoadView::Opening { search, symbols } => replies[j] != 0 ==> b.library
                        == replies[j],
                    LoadView::Resolving { library, symbols, entries } => entries.len()
                        < b.entries.len() && b.entries[entries.len() as int] == replies[j],
                }
        },
    decreases replies.len(),
{
    reveal_with_fuel(load_run, 2);
    reveal_with_fuel(load_trace, 2);
    if replies.len() > 0 {
        let rest = replies.drop_first();
        let step = l.reply(replies[0]);
        law_load_step(l, replies[0]);
        let all = load_trace(LoadStepView::Pending(l), replies);
        match step {
            LoadStepView::Pending(next) => {
                lemma_load_whole(next, rest);
                let tail = load_trace(step, rest);
                assert(all == seq![l] + tail);
                if let LoadStepView::Done(Ok(b)) = load_run(step, rest) {
                    assert forall|j: int| 0 <= j < all.len() implies match #[trigger] all[j] {
                        LoadView::Opening { search, symbols } => replies[j] != 0 ==> b.library
                            == replies[j],
                        LoadView::Resolving { library, symbols, entries } => entries.len()
                            < b.entries.len() && b.entries[entries.len() as int] == replies[j],
                    } by {
                        if j > 0 {
                            assert(all[j] == tail[j - 1]);
                            assert(replies[j] == rest[j - 1]);
                        } else {
                            assert(all[0] == l);
                            if let LoadView::Resolving { library, symbols, entries } = l {
                                let grown = entries.push(replies[0]);
                                assert(next == (LoadView::Resolving {
                                    library,
                                    symbols,
                                    entries: grown,
                                }));
                                assert(b.entries[entries.len() as int] == grown[entries.len() as int]);
                            }
                        }
                    }
                    if let LoadView::Resolving { library, symbols, entries } = l {
                        let grown = entries.push(replies[0]);
                        assert forall|k: int| 0 <= k < entries.len() implies b.entries[k]
                            == entries[k] by {
                            assert(b.entries[k] == grown[k]);
                        }
                    }
                }
            },
            LoadStepView::Done(_) => {
                assert(load_trace(step, rest) =~= Seq::<LoadView>::empty());
                assert(all =~= seq![l]);
            },
        }
    }
}

/// No partial bundle: whatever the answers, a load that ends with a bundle
/// has resolved every symbol of the request. No entry is null, entry `i` is
/// the answer to the lookup of symbol `i`, and the library is the answer
/// that ended the search.
pub proof fn law_bundle_is_whole(request: RequestView, replies: Seq<usize>)
    ensures
        load_run(load_spec(request), replies) matches LoadStepView::Done(Ok(b)) ==> {
            let trace = load_trace(load_spec(request), replies);
            &&& b.wf()
            &&& b.entries.len() == request.symbols.len()
            &&& forall|j: int|
                0 <= j < trace.len() ==> match #[trigger] trace[j] {
                    LoadView::Opening { search, symbols } => replies[j] != 0 ==> b.library
                        == replies[j],
                    LoadView::Resolving { library, symbols, entries } => symbols
                        == request.symbols && entries.len() < b.entries.len()
                        && b.entries[entries.len() as int] == replies[j],
                }
        },
{
    if let LoadStepView::Pending(l) = load_spec(request) {
        lemma_load_whole(l, replies);
        lemma_load_keeps_symbols(l, replies);
    }
}

/// Every state of a load's trace asks for the same symbols.
proof fn lemma_load_keeps_symbols(l: LoadView, replies: Seq<usize>)
    requires
        l.wf(),
    ensures
        forall|j: int|
            0 <= j < load_trace(LoadStepView::Pending(l), replies).len() ==> (
            #[trigger] load_trace(LoadStepView::Pending(l), replies)[j]).symbols() == l.symbols(),
    decreases replies.len(),
{
    reveal_with_fuel(load_trace, 2);
    if replies.len() > 0 {
        let rest = replies.drop_first();
        let step = l.reply(replies[0]);
        law_load_step(l, replies[0]);
        let all = load_trace(LoadStepView::Pending(l), replies);
        match step {
            LoadStepView::Pending(next) => {
                lemma_load_keeps_symbols(next, rest);
                let tail = load_trace(step, rest);
                assert(all == seq![l] + tail);
                assert forall|j: int| 0 <= j < all.len() implies (#[trigger] all[j]).symbols()
                    == l.symbols() by {
                    if j > 0 {
                        assert(all[j] == tail[j - 1]);
                    }
                }
            },
            LoadStepView::Done(_) => {
                assert(load_trace(step, rest) =~= Seq::<LoadView>::empty());
                assert(all =~= seq![l]);
            },
        }
    }
}

/// From any state of a load: a lookup that is answered with null ends the
/// load at once, with the name of the symbol that was looked up.
proof fn lemma_load_missing(l: LoadView, replies: Seq<usize>, i: int)
    requires
        l.wf(),
        0 <= i < replies.len(),
        i < load_trace(LoadStepView::Pending(l), replies).len(),
        load_trace(LoadStepView::Pending(l), replies)[i] is Resolving,
        replies[i] == 0,
    ensures
        load_trace(LoadStepView::Pending(l), replies).len() == i + 1,
        load_trace(LoadStepView::Pending(l), replies)[i].call() matches CallView::ResolveSymbol {
            library,
            symbol,
        } && load_run(LoadStepView::Pending(l), replies) == LoadStepView::Done(
            Err(LoaderErrorView::SymbolNotFound(symbol)),
        ),
    decreases replies.len(),
{
    reveal_with_fuel(load_run, 2);
    reveal_with_fuel(load_trace, 2);
    let rest = replies.drop_first();
    let step = l.reply(replies[0]);
    law_load_step(l, replies[0]);
    let all = load_trace(LoadStepView::Pending(l), replies);
    let tail = load_trace(step, rest);
    assert(all == seq![l] + tail);
    if i == 0 {
        assert(tail =~= Seq::<LoadView>::empty());
    } else {
        assert(all[i] == tail[i - 1]);
        assert(replies[i] == rest[i - 1]);
        match step {
            LoadStepView::Pending(next) => {
                lemma_load_missing(next, rest, i - 1);
            },
            LoadStepView::Done(_) => {},
        }
    }
}

/// A symbol that does not resolve fails the whole bundle, however many
/// symbols resolved before it: when the lookup pending in state `i` of the
/// trace is answered with null, the load ends there with
/// `SymbolNotFound` for that symbol, and no bundle is produced.
pub proof fn law_missing_symbol_fails_bundle(request: RequestView, replies: Seq<usize>, i: int)
    requires
        0 <= i < replies.len(),
        i < load_trace(load_spec(request), replies).len(),
        load_trace(load_spec(request), replies)[i] is Resolving,
        replies[i] == 0,
    ensures
        load_trace(load_spec(request), replies).len() == i + 1,
        load_trace(load_spec(request), replies)[i].call() matches CallView::ResolveSymbol {
            library,
            symbol,
        } && load_run(load_spec(request), replies) == LoadStepView::Done(
            Err(LoaderErrorView::SymbolNotFound(symbol)),
        ),
{
    if let LoadStepView::Pending(l) = load_spec(request) {
        lemma_load_missing(l, replies, i);
    }
}


// ---------------------------------------------------------------------
// Setups
// ---------------------------------------------------------------------

/// Where a setup stands after the answers of `replies`.
pub open spec fn setup_run(progress: ProgressView, replies: Seq<usize>) -> ProgressView
    decreases replies.len(),
{
    match progress {
        ProgressView::Pending(s) => if replies.len() == 0 {
            progress
        } else {
            setup_run(s.reply(replies[0]), replies.drop_first())
        },
        ProgressView::Done(_) => progress,
    }
}

/// The states of a setup in which a call was pending.
pub open spec fn setup_trace(progress: ProgressView, replies: Seq<usize>) -> Seq<SetupView>
    decreases replies.len(),
{
    match progress {
        ProgressView::Pending(s) => if replies.len() == 0 {
            seq![s]
        } else {
            seq![s] + setup_trace(s.reply(replies[0]), replies.drop_first())
        },
        ProgressView::Done(_) => Seq::empty(),
    }
}

/// A setup begins well formed, in `Start`, with the attempt to open the
/// windowing core under its versioned name.
pub proof fn law_initial(handler: Option<usize>, tables: TablesView)
    ensures
        initial(handler, tables).wf(),
        initial(handler, tables).state() == State::Start,
        initial(handler, tables).call() == (CallView::OpenLibrary { name: "libX11.so.6"@ }),
{
}

/// One answer takes a setup along the chain `Start`, `MandatoryLoaded`,
/// `ThreadsInited`, `ErrorHandlerInstalled`, `OptionalProbed`: it stays
/// where it is while a bundle is loaded, or moves to the next state. It
/// fails only from `Start` and from `OptionalProbed`, and connects only
/// from `OptionalProbed`. A well-formed setup stays well formed.
pub proof fn law_transitions(s: SetupView, word: usize)
    requires
        s.wf(),
    ensures
        s.reply(word).wf(),
        match s.state() {
            State::Start => s.reply(word).state() == State::Start || s.reply(word).state()
                == State::MandatoryLoaded || s.reply(word).state() == State::Failed,
            State::MandatoryLoaded => s.reply(word).state() == State::ThreadsInited,
            State::ThreadsInited => s.reply(word).state() == State::ErrorHandlerInstalled,
            State::ErrorHandlerInstalled => s.reply(word).state() == State::ErrorHandlerInstalled
                || s.reply(word).state() == State::OptionalProbed,
            State::OptionalProbed => s.reply(word).state() == (if word == 0 {
                State::Failed
            } else {
                State::Connected
            }),
            State::Connected | State::Failed => false,
        },
{
    if let StageView::Loading(load) = s.stage {
        law_load_step(load, word);
    }
}


/// From any state: a run that ends with a library error began in `Start`
/// and never left it, so every call was a loader call.
proof fn lemma_library_failure(s: SetupView, replies: Seq<usize>)
    requires
        s.wf(),
        setup_run(ProgressView::Pending(s), replies) matches ProgressView::Done(
            Err(XNotSupportedView::LibraryOpenError(_)),
        ),
    ensures
        forall|i: int|
            0 <= i < setup_trace(ProgressView::Pending(s), replies).len() ==> {
                let at = #[trigger] setup_trace(ProgressView::Pending(s), replies)[i];
                at.state() == State::Start && at.call().is_loader_call()
            },
    decreases replies.len(),
{
    reveal_with_fuel(setup_run, 2);
    reveal_with_fuel(setup_trace, 2);
    let rest = replies.drop_first();
    let step = s.reply(replies[0]);
    law_transitions(s, replies[0]);
    let all = setup_trace(ProgressView::Pending(s), replies);
    let tail = setup_trace(step, rest);
    assert(all == seq![s] + tail);
    match step {
        ProgressView::Pending(next) => {
            lemma_library_failure(next, rest);
            if tail.len() > 0 {
                assert(tail[0] == next);
            }
            assert(next.state() == State::Start);
            assert forall|i: int| 0 <= i < all.len() implies {
                let at = #[trigger] all[i];
                at.state() == State::Start && at.call().is_loader_call()
            } by {
                if i > 0 {
                    assert(all[i] == tail[i - 1]);
                }
            }
        },
        ProgressView::Done(_) => {
            assert(tail =~= Seq::<SetupView>::empty());
            assert(all =~= seq![s]);
        },
    }
}

/// When establishing a connection ends with `LibraryOpenError`, the setup
/// never left `Start`: every call that was made opens a library or resolves
/// a symbol, and neither the thread initialisation nor the installation of
/// the handler nor the connect call was made.
pub proof fn law_library_failure_makes_no_native_call(
    handler: Option<usize>,
    tables: TablesView,
    replies: Seq<usize>,
)
    requires
        setup_run(ProgressView::Pending(initial(handler, tables)), replies) matches ProgressView::Done(
            Err(XNotSupportedView::LibraryOpenError(_)),
        ),
    ensures
        forall|i: int|
            0 <= i < setup_trace(ProgressView::Pending(initial(handler, tables)), replies).len()
                ==> {
                let at = #[trigger] setup_trace(
                    ProgressView::Pending(initial(handler, tables)),
                    replies,
                )[i];
                &&& at.state() == State::Start
                &&& at.call().is_loader_call()
                &&& at.call() !is InitThreads
                &&& at.call() !is SetErrorHandler
                &&& at.call() !is OpenDisplay
            },
{
    law_initial(handler, tables);
    lemma_library_failure(initial(handler, tables), replies);
}

/// From any state: when the load of a mandatory bundle ends with an error
/// in state `i` of the trace, the run ends there with that error.
proof fn lemma_mandatory_failure(s: SetupView, replies: Seq<usize>, i: int, e: LoaderErrorView)
    requires
        s.wf(),
        0 <= i < replies.len(),
        i < setup_trace(ProgressView::Pending(s), replies).len(),
        setup_trace(ProgressView::Pending(s), replies)[i].state() == State::Start,
        setup_trace(ProgressView::Pending(s), replies)[i].stage matches StageView::Loading(load)
            && load.reply(replies[i]) == LoadStepView::Done(Err(e)),
    ensures
        setup_trace(ProgressView::Pending(s), replies).len() == i + 1,
        setup_run(ProgressView::Pending(s), replies) == ProgressView::Done(
            Err(XNotSupportedView::LibraryOpenError(e)),
        ),
    decreases replies.len(),
{
    reveal_with_fuel(setup_run, 2);
    reveal_with_fuel(setup_trace, 2);
    let rest = replies.drop_first();
    let step = s.reply(replies[0]);
    law_transitions(s, replies[0]);
    let all = setup_trace(ProgressView::Pending(s), replies);
    let tail = setup_trace(step, rest);
    assert(all == seq![s] + tail);
    if i == 0 {
        assert(tail =~= Seq::<SetupView>::empty());
    } else {
        assert(all[i] == tail[i - 1]);
        assert(replies[i] == rest[i - 1]);
        match step {
            ProgressView::Pending(next) => {
                lemma_mandatory_failure(next, rest, i - 1, e);
            },
            ProgressView::Done(_) => {},
        }
    }
}

/// A mandatory bundle that fails to load aborts the setup: when, in state
/// `i` of the trace, the setup is in `Start` and the answer ends the load
/// with the error `e`, establishing ends at once with
/// `LibraryOpenError(e)`.
pub proof fn law_mandatory_failure_aborts(
    handler: Option<usize>,
    tables: TablesView,
    replies: Seq<usize>,
    i: int,
    e: LoaderErrorView,
)
    requires
        0 <= i < replies.len(),
        i < setup_trace(ProgressView::Pending(initial(handler, tables)), replies).len(),
        setup_trace(ProgressView::Pending(initial(handler, tables)), replies)[i].state()
            == State::Start,
        setup_trace(ProgressView::Pending(initial(handler, tables)), replies)[i].stage matches StageView::Loading(
            load,
        ) && load.reply(replies[i]) == LoadStepView::Done(Err(e)),
    ensures
        setup_trace(ProgressView::Pending(initial(handler, tables)), replies).len() == i + 1,
        setup_run(ProgressView::Pending(initial(handler, tables)), replies) == ProgressView::Done(
            Err(XNotSupportedView::LibraryOpenError(e)),
        ),
{
    law_initial(handler, tables);
    lemma_mandatory_failure(initial(handler, tables), replies, i, e);
}


/// The position of a state along the chain of a setup.
pub open spec fn rank(state: State) -> int {
    match state {
        State::Start => 0,
        State::MandatoryLoaded => 1,
        State::ThreadsInited => 2,
        State::ErrorHandlerInstalled => 3,
        State::OptionalProbed => 4,
        State::Connected => 5,
        State::Failed => 5,
    }
}

/// The run has ended with the answer to the connect call.
pub open spec fn ended_at_display(progress: ProgressView) -> bool {
    progress matches ProgressView::Done(r) && !(r matches Err(
        XNotSupportedView::LibraryOpenError(_),
    ))
}

/// From any state: a run that ends with the answer to the connect call has
/// made that call last and once; a null answer is `XOpenDisplayFailed`,
/// any other is the display of the connection. The run has passed each of
/// the states that lay before it once: `init` is where the threads were
/// initialised and `install` where the handler was installed, if the run
/// began before that.
proof fn lemma_reaches_display(s: SetupView, replies: Seq<usize>) -> (at: (int, int))
    requires
        s.wf(),
        ended_at_display(setup_run(ProgressView::Pending(s), replies)),
    ensures
        ({
            let trace = setup_trace(ProgressView::Pending(s), replies);
            let n = trace.len() as int;
            let (init, install) = at;
            &&& 1 <= n <= replies.len()
            &&& trace[n - 1].state() == State::OptionalProbed
            &&& match setup_run(ProgressView::Pending(s), replies) {
                ProgressView::Done(Ok(c)) => replies[n - 1] != 0 && c == trace[n - 1].connection(
                    replies[n - 1],
                ),
                _ => replies[n - 1] == 0,
            }
            &&& rank(s.state()) <= 1 ==> 0 <= init && install == init + 1 && trace[init].state()
                == State::MandatoryLoaded
            &&& rank(s.state()) <= 2 ==> 0 <= install < n - 1 && trace[install].state()
                == State::ThreadsInited
            &&& forall|j: int|
                0 <= j < n ==> match (#[trigger] trace[j]).state() {
                    State::Start => j < init && rank(s.state()) == 0,
                    State::MandatoryLoaded => j == init && rank(s.state()) <= 1,
                    State::ThreadsInited => j == install && rank(s.state()) <= 2,
                    State::ErrorHandlerInstalled => j < n - 1 && (rank(s.state()) <= 2 ==> install
                        < j),
                    State::OptionalProbed => j == n - 1,
                    State::Connected | State::Failed => false,
                }
        }),
    decreases replies.len(),
{
    reveal_with_fuel(setup_run, 2);
    reveal_with_fuel(setup_trace, 2);
    let rest = replies.drop_first();
    let step = s.reply(replies[0]);
    law_transitions(s, replies[0]);
    let all = setup_trace(ProgressView::Pending(s), replies);
    let tail = setup_trace(step, rest);
    assert(all == seq![s] + tail);
    match step {
        ProgressView::Pending(next) => {
            let (init2, install2) = lemma_reaches_display(next, rest);
            assert(tail[0] == next);
            let n = all.len() as int;
            assert(n == tail.len() + 1);
            assert(all[n - 1] == tail[n - 2]);
            assert(replies[n - 1] == rest[n - 2]);
            let init = if s.state() == State::MandatoryLoaded {
                0
            } else {
                init2 + 1
            };
            let install = if s.state() == State::ThreadsInited {
                0
            } else if s.state() == State::MandatoryLoaded {
                1
            } else {
                install2 + 1
            };
            if rank(s.state()) <= 1 {
                assert(all[init] == if init == 0 {
                    s
                } else {
                    tail[init - 1]
                });
            }
            if rank(s.state()) <= 2 {
                assert(all[install] == if install == 0 {
                    s
                } else {
                    tail[install - 1]
                });
            }
            assert forall|j: int| 0 <= j < n implies match (#[trigger] all[j]).state() {
                State::Start => j < init && rank(s.state()) == 0,
                State::MandatoryLoaded => j == init && rank(s.state()) <= 1,
                State::ThreadsInited => j == install && rank(s.state()) <= 2,
                State::ErrorHandlerInstalled => j < n - 1 && (rank(s.state()) <= 2 ==> install < j),
                State::OptionalProbed => j == n - 1,
                State::Connected | State::Failed => false,
            } by {
                if j > 0 {
                    assert(all[j] == tail[j - 1]);
                }
            }
            (init, install)
        },
        ProgressView::Done(_) => {
            assert(tail =~= Seq::<SetupView>::empty());
            assert(all =~= seq![s]);
            (0, 0)
        },
    }
}

/// When establishing a connection ends with `XOpenDisplayFailed`, the
/// connect call was the last call and was answered with null. Before it the
/// threads were initialised, in state `init` of the trace, and the handler
/// was installed, in the state after it; each was called exactly once, and
/// the connect call exactly once.
pub proof fn law_display_failure_follows_initialisation(
    handler: Option<usize>,
    tables: TablesView,
    replies: Seq<usize>,
) -> (init: int)
    requires
        setup_run(ProgressView::Pending(initial(handler, tables)), replies) == ProgressView::Done(
            Err(XNotSupportedView::XOpenDisplayFailed),
        ),
    ensures
        ({
            let trace = setup_trace(ProgressView::Pending(initial(handler, tables)), replies);
            let last = trace.len() - 1;
            &&& 0 <= init && init + 1 < last < replies.len()
            &&& trace[init].call() is InitThreads
            &&& trace[init + 1].call() is SetErrorHandler
            &&& trace[last].call() is OpenDisplay
            &&& replies[last] == 0
            &&& forall|j: int|
                0 <= j <= last ==> {
                    let call = (#[trigger] trace[j]).call();
                    &&& call is InitThreads <==> j == init
                    &&& call is SetErrorHandler <==> j == init + 1
                    &&& call is OpenDisplay <==> j == last
                }
        }),
{
    law_initial(handler, tables);
    let (init, install) = lemma_reaches_display(initial(handler, tables), replies);
    let trace = setup_trace(ProgressView::Pending(initial(handler, tables)), replies);
    lemma_trace_wf(initial(handler, tables), replies);
    assert forall|j: int| 0 <= j < trace.len() implies {
        let call = (#[trigger] trace[j]).call();
        &&& call is InitThreads <==> j == init
        &&& call is SetErrorHandler <==> j == init + 1
        &&& call is OpenDisplay <==> j == trace.len() - 1
    } by {
        law_call_of_state(trace[j]);
    }
    law_call_of_state(trace[init]);
    law_call_of_state(trace[init + 1]);
    law_call_of_state(trace[trace.len() - 1]);
    init
}

/// Which call is pending in which state.
pub proof fn law_call_of_state(s: SetupView)
    requires
        s.wf(),
    ensures
        s.call().is_loader_call() <==> s.state() == State::Start || s.state()
            == State::ErrorHandlerInstalled,
        s.call() is InitThreads <==> s.state() == State::MandatoryLoaded,
        s.call() is SetErrorHandler <==> s.state() == State::ThreadsInited,
        s.call() is OpenDisplay <==> s.state() == State::OptionalProbed,
        s.call() !is CloseDisplay,
{
}

/// Every state of a trace is well formed.
proof fn lemma_trace_wf(s: SetupView, replies: Seq<usize>)
    requires
        s.wf(),
    ensures
        forall|j: int|
            0 <= j < setup_trace(ProgressView::Pending(s), replies).len() ==> (
            #[trigger] setup_trace(ProgressView::Pending(s), replies)[j]).wf(),
        setup_run(ProgressView::Pending(s), replies).wf(),
    decreases replies.len(),
{
    reveal_with_fuel(setup_run, 2);
    reveal_with_fuel(setup_trace, 2);
    if replies.len() > 0 {
        let rest = replies.drop_first();
        let step = s.reply(replies[0]);
        law_transitions(s, replies[0]);
        let all = setup_trace(ProgressView::Pending(s), replies);
        let tail = setup_trace(step, rest);
        assert(all == seq![s] + tail);
        match step {
            ProgressView::Pending(next) => {
                lemma_trace_wf(next, rest);
                assert forall|j: int| 0 <= j < all.len() implies (#[trigger] all[j]).wf() by {
                    if j > 0 {
                        assert(all[j] == tail[j - 1]);
                    }
                }
            },
            ProgressView::Done(_) => {
                assert(tail =~= Seq::<SetupView>::empty());
                assert(all =~= seq![s]);
            },
        }
    }
}


/// From any state: the answer to the connect call decides the run. When
/// state `m` of the trace is `OptionalProbed`, the run ends there: with
/// `XOpenDisplayFailed` for a null answer, else with the connection made of
/// the bundles of that state and the answer as its display.
proof fn lemma_display_decides(s: SetupView, replies: Seq<usize>, m: int)
    requires
        s.wf(),
        0 <= m < replies.len(),
        m < setup_trace(ProgressView::Pending(s), replies).len(),
        setup_trace(ProgressView::Pending(s), replies)[m].state() == State::OptionalProbed,
    ensures
        setup_trace(ProgressView::Pending(s), replies).len() == m + 1,
        setup_run(ProgressView::Pending(s), replies) == (if replies[m] == 0 {
            ProgressView::Done(Err(XNotSupportedView::XOpenDisplayFailed))
        } else {
            ProgressView::Done(
                Ok(setup_trace(ProgressView::Pending(s), replies)[m].connection(replies[m])),
            )
        }),
    decreases replies.len(),
{
    reveal_with_fuel(setup_run, 2);
    reveal_with_fuel(setup_trace, 2);
    let rest = replies.drop_first();
    let step = s.reply(replies[0]);
    law_transitions(s, replies[0]);
    let all = setup_trace(ProgressView::Pending(s), replies);
    let tail = setup_trace(step, rest);
    assert(all == seq![s] + tail);
    if m == 0 {
        assert(tail =~= Seq::<SetupView>::empty());
    } else {
        assert(all[m] == tail[m - 1]);
        assert(replies[m] == rest[m - 1]);
        match step {
            ProgressView::Pending(next) => {
                lemma_display_decides(next, rest, m - 1);
            },
            ProgressView::Done(_) => {},
        }
    }
}

/// No optional bundle is there, and none is half loaded.
spec fn nothing_optional(s: SetupView) -> bool {
    &&& forall|k: int| 0 <= k < s.optional.len() ==> (#[trigger] s.optional[k]) is None
    &&& s.state() == State::ErrorHandlerInstalled ==> s.stage matches StageView::Loading(
        LoadView::Opening { .. },
    )
}

/// From any state without an optional bundle: when every attempt to open
/// an optional library is answered with null, the state in which the
/// display is opened has no optional bundle either.
proof fn lemma_optionals_stay_absent(s: SetupView, replies: Seq<usize>, m: int)
    requires
        s.wf(),
        nothing_optional(s),
        0 <= m < setup_trace(ProgressView::Pending(s), replies).len(),
        m <= replies.len(),
        forall|j: int|
            0 <= j < m ==> {
                let at = #[trigger] setup_trace(ProgressView::Pending(s), replies)[j];
                at.state() == State::ErrorHandlerInstalled && at.call() is OpenLibrary
                    ==> replies[j] == 0
            },
    ensures
        nothing_optional(setup_trace(ProgressView::Pending(s), replies)[m]),
    decreases replies.len(),
{
    reveal_with_fuel(setup_trace, 2);
    let all = setup_trace(ProgressView::Pending(s), replies);
    if m > 0 {
        let rest = replies.drop_first();
        let step = s.reply(replies[0]);
        law_transitions(s, replies[0]);
        let tail = setup_trace(step, rest);
        assert(all == seq![s] + tail);
        assert(all[0] == s);
        assert(all[m] == tail[m - 1]);
        match step {
            ProgressView::Pending(next) => {
                assert(nothing_optional(next)) by {
                    if let StageView::Loading(load) = s.stage {
                        law_load_step(load, replies[0]);
                    }
                }
                assert forall|j: int| 0 <= j < m - 1 implies {
                    let at = #[trigger] tail[j];
                    at.state() == State::ErrorHandlerInstalled && at.call() is OpenLibrary
                        ==> rest[j] == 0
                } by {
                    assert(all[j + 1] == tail[j]);
                    assert(replies[j + 1] == rest[j]);
                }
                lemma_optionals_stay_absent(next, rest, m - 1);
            },
            ProgressView::Done(_) => {},
        }
    } else {
        assert(all[0] == s);
    }
}

/// Optional bundles never fail a setup. When every attempt to open an
/// optional library is answered with null, and the connect call, pending in
/// state `m` of the trace, is answered with a display, establishing
/// succeeds: the connection holds that display and the four mandatory
/// bundles, and both optional bundles are absent.
pub proof fn law_absent_optionals_still_connect(
    handler: Option<usize>,
    tables: TablesView,
    replies: Seq<usize>,
    m: int,
)
    requires
        0 <= m < replies.len(),
        m < setup_trace(ProgressView::Pending(initial(handler, tables)), replies).len(),
        setup_trace(ProgressView::Pending(initial(handler, tables)), replies)[m].state()
            == State::OptionalProbed,
        replies[m] != 0,
        forall|j: int|
            0 <= j < m ==> {
                let at = #[trigger] setup_trace(
                    ProgressView::Pending(initial(handler, tables)),
                    replies,
                )[j];
                at.state() == State::ErrorHandlerInstalled && at.call() is OpenLibrary
                    ==> replies[j] == 0
            },
    ensures
        setup_run(ProgressView::Pending(initial(handler, tables)), replies) matches ProgressView::Done(
            Ok(c),
        ) && c.wf() && c.display == replies[m] && c.glx is None && c.egl is None,
{
    let s = initial(handler, tables);
    law_initial(handler, tables);
    lemma_display_decides(s, replies, m);
    lemma_optionals_stay_absent(s, replies, m);
    lemma_trace_wf(s, replies);
}

/// The answer to the connect call decides the outcome: when the call is
/// pending in state `m` of the trace, establishing ends there, with
/// `XOpenDisplayFailed` for a null answer, and else with the connection
/// that holds the answer as its display and the bundles loaded until then.
pub proof fn law_display_answer_decides(
    handler: Option<usize>,
    tables: TablesView,
    replies: Seq<usize>,
    m: int,
)
    requires
        0 <= m < replies.len(),
        m < setup_trace(ProgressView::Pending(initial(handler, tables)), replies).len(),
        setup_trace(ProgressView::Pending(initial(handler, tables)), replies)[m].state()
            == State::OptionalProbed,
    ensures
        setup_trace(ProgressView::Pending(initial(handler, tables)), replies).len() == m + 1,
        setup_run(ProgressView::Pending(initial(handler, tables)), replies) == (if replies[m]
            == 0 {
            ProgressView::Done(Err(XNotSupportedView::XOpenDisplayFailed))
        } else {
            ProgressView::Done(
                Ok(
                    setup_trace(
                        ProgressView::Pending(initial(handler, tables)),
                        replies,
                    )[m].connection(replies[m]),
                ),
            )
        }),
{
    law_initial(handler, tables);
    lemma_display_decides(initial(handler, tables), replies, m);
}


// ---------------------------------------------------------------------
// The entry points of the windowing core
// ---------------------------------------------------------------------

/// A run seen from state `j` of its trace: the rest of the trace is the
/// trace of that state under the rest of the answers, and the run ends the
/// same.
proof fn lemma_trace_suffix(s: SetupView, replies: Seq<usize>, j: int)
    requires
        s.wf(),
        0 <= j < setup_trace(ProgressView::Pending(s), replies).len(),
    ensures
        j <= replies.len(),
        setup_trace(ProgressView::Pending(s), replies)[j].wf(),
        setup_trace(
            ProgressView::Pending(setup_trace(ProgressView::Pending(s), replies)[j]),
            replies.skip(j),
        ) == setup_trace(ProgressView::Pending(s), replies).skip(j),
        setup_run(
            ProgressView::Pending(setup_trace(ProgressView::Pending(s), replies)[j]),
            replies.skip(j),
        ) == setup_run(ProgressView::Pending(s), replies),
    decreases j,
{
    reveal_with_fuel(setup_run, 2);
    reveal_with_fuel(setup_trace, 2);
    let all = setup_trace(ProgressView::Pending(s), replies);
    if j == 0 {
        assert(replies.skip(0) =~= replies);
        assert(all.skip(0) =~= all);
    } else {
        let rest = replies.drop_first();
        let step = s.reply(replies[0]);
        law_transitions(s, replies[0]);
        let tail = setup_trace(step, rest);
        assert(all == seq![s] + tail);
        assert(all[j] == tail[j - 1]);
        match step {
            ProgressView::Pending(next) => {
                lemma_trace_suffix(next, rest, j - 1);
                assert(rest.skip(j - 1) =~= replies.skip(j));
                assert(tail.skip(j - 1) =~= all.skip(j));
            },
            ProgressView::Done(_) => {},
        }
    }
}

/// Once the windowing core is loaded, its bundle stays what it is.
proof fn lemma_core_is_kept(s: SetupView, replies: Seq<usize>, m: int)
    requires
        s.wf(),
        s.mandatory.len() > 0,
        0 <= m < setup_trace(ProgressView::Pending(s), replies).len(),
    ensures
        setup_trace(ProgressView::Pending(s), replies)[m].mandatory.len() > 0,
        setup_trace(ProgressView::Pending(s), replies)[m].mandatory[0] == s.mandatory[0],
    decreases m,
{
    reveal_with_fuel(setup_trace, 2);
    let all = setup_trace(ProgressView::Pending(s), replies);
    if m == 0 {
        assert(all[0] == s);
    } else {
        let rest = replies.drop_first();
        let step = s.reply(replies[0]);
        law_transitions(s, replies[0]);
        let tail = setup_trace(step, rest);
        assert(all == seq![s] + tail);
        assert(all[m] == tail[m - 1]);
        match step {
            ProgressView::Pending(next) => {
                lemma_core_is_kept(next, rest, m - 1);
            },
            ProgressView::Done(_) => {},
        }
    }
}

/// The windowing core has these entries so far: while it is being loaded,
/// the entries resolved; once it is loaded, the first entries of its bundle.
spec fn core_has(s: SetupView, entries: Seq<usize>, library: usize) -> bool {
    if s.mandatory.len() == 0 {
        s.stage matches StageView::Loading(LoadView::Resolving { library: l, symbols, entries: e })
            && l == library && entries.len() <= e.len() && forall|i: int|
            0 <= i < entries.len() ==> e[i] == entries[i]
    } else {
        s.mandatory[0].library == library && entries.len() <= s.mandatory[0].entries.len()
            && forall|i: int| 0 <= i < entries.len() ==> s.mandatory[0].entries[i] == entries[i]
    }
}

/// What has been resolved in the windowing core is never lost.
proof fn lemma_core_grows(
    s: SetupView,
    replies: Seq<usize>,
    m: int,
    entries: Seq<usize>,
    library: usize,
)
    requires
        s.wf(),
        core_has(s, entries, library),
        0 <= m < setup_trace(ProgressView::Pending(s), replies).len(),
    ensures
        core_has(setup_trace(ProgressView::Pending(s), replies)[m], entries, library),
    decreases m,
{
    reveal_with_fuel(setup_trace, 2);
    let all = setup_trace(ProgressView::Pending(s), replies);
    if m == 0 {
        assert(all[0] == s);
    } else {
        let rest = replies.drop_first();
        let step = s.reply(replies[0]);
        law_transitions(s, replies[0]);
        let tail = setup_trace(step, rest);
        assert(all == seq![s] + tail);
        assert(all[m] == tail[m - 1]);
        match step {
            ProgressView::Pending(next) => {
                assert(core_has(next, entries, library)) by {
                    if let StageView::Loading(load) = s.stage {
                        law_load_step(load, replies[0]);
                    }
                }
                lemma_core_grows(next, rest, m - 1, entries, library);
            },
            ProgressView::Done(_) => {},
        }
    }
}

/// While the windowing core is being loaded, its symbol list is the one
/// that the load began with.
proof fn lemma_core_symbols(s: SetupView, replies: Seq<usize>, j: int)
    requires
        s.wf(),
        s.mandatory.len() == 0,
        0 <= j < setup_trace(ProgressView::Pending(s), replies).len(),
        setup_trace(ProgressView::Pending(s), replies)[j].mandatory.len() == 0,
    ensures
        setup_trace(ProgressView::Pending(s), replies)[j].stage matches StageView::Loading(load)
            && s.stage matches StageView::Loading(first) && load.symbols() == first.symbols(),
    decreases j,
{
    reveal_with_fuel(setup_trace, 2);
    let all = setup_trace(ProgressView::Pending(s), replies);
    if j == 0 {
        assert(all[0] == s);
    } else {
        let rest = replies.drop_first();
        let step = s.reply(replies[0]);
        law_transitions(s, replies[0]);
        if let StageView::Loading(load) = s.stage {
            law_load_step(load, replies[0]);
        }
        let tail = setup_trace(step, rest);
        assert(all == seq![s] + tail);
        assert(all[j] == tail[j - 1]);
        match step {
            ProgressView::Pending(next) => {
                if next.mandatory.len() == 0 {
                    lemma_core_symbols(next, rest, j - 1);
                } else {
                    lemma_core_is_kept(next, rest, j - 1);
                }
            },
            ProgressView::Done(_) => {},
        }
    }
}

/// The calls into the windowing core go through the addresses that were
/// resolved for them. When state `j` of the trace looks up symbol `k` of
/// the core, that symbol is `k` of the four entry points followed by the
/// caller's symbols; and in every later state `m` in which the core is
/// loaded, entry `k` of its bundle is the answer to that lookup, and its
/// library is the one the symbol was looked up in. So the thread
/// initialisation is called at the address resolved for `XInitThreads`,
/// the handler installed through the one for `XSetErrorHandler`, the
/// display opened through the one for `XOpenDisplay` and closed through
/// the one for `XCloseDisplay`.
pub proof fn law_core_entries_are_resolved(
    handler: Option<usize>,
    tables: TablesView,
    replies: Seq<usize>,
    j: int,
    m: int,
)
    requires
        0 <= j < m,
        m < setup_trace(ProgressView::Pending(initial(handler, tables)), replies).len(),
        setup_trace(ProgressView::Pending(initial(handler, tables)), replies)[j].mandatory.len()
            == 0,
        setup_trace(ProgressView::Pending(initial(handler, tables)), replies)[j].call() is ResolveSymbol,
    ensures
        ({
            let trace = setup_trace(ProgressView::Pending(initial(handler, tables)), replies);
            &&& trace[j].stage matches StageView::Loading(
                LoadView::Resolving { library, symbols, entries },
            )
            &&& symbols == core_symbols() + tables.xlib
            &&& trace[j].call() == (CallView::ResolveSymbol {
                library,
                symbol: symbols[entries.len() as int],
            })
            &&& trace[m].mandatory.len() > 0 ==> {
                &&& trace[m].mandatory[0].library == library
                &&& entries.len() < trace[m].mandatory[0].entries.len()
                &&& trace[m].mandatory[0].entries[entries.len() as int] == replies[j]
            }
        }),
{
    let s = initial(handler, tables);
    law_initial(handler, tables);
    let trace = setup_trace(ProgressView::Pending(s), replies);
    lemma_core_symbols(s, replies, j);
    lemma_trace_suffix(s, replies, j);
    lemma_trace_suffix(s, replies, j + 1);
    let at = trace[j];
    let next = trace[j + 1];
    // one step from state `j` leads to state `j + 1`
    let rest = replies.skip(j);
    reveal_with_fuel(setup_trace, 2);
    assert(setup_trace(ProgressView::Pending(at), rest) == trace.skip(j));
    assert(trace.skip(j)[1] == next);
    assert(rest[0] == replies[j]);
    assert(at.reply(replies[j]) == ProgressView::Pending(next)) by {
        let tail = setup_trace(at.reply(rest[0]), rest.drop_first());
        assert(setup_trace(ProgressView::Pending(at), rest) == seq![at] + tail);
        assert(tail[0] == next);
    }
    if let StageView::Loading(LoadView::Resolving { library, symbols, entries }) = at.stage {
        let grown = entries.push(replies[j]);
        law_load_step(at.stage->Loading_0, replies[j]);
        assert(core_has(next, grown, library));
        lemma_core_grows(next, replies.skip(j + 1), m - j - 1, grown, library);
        assert(trace.skip(j + 1)[m - j - 1] == trace[m]);
        if trace[m].mandatory.len() > 0 {
            assert(trace[m].mandatory[0].entries[entries.len() as int] == grown[entries.len() as int]);
        }
    }
}

// ---------------------------------------------------------------------
// Every setup ends
// ---------------------------------------------------------------------

/// The most calls that a load can still make.
pub open spec fn load_budget(l: LoadView) -> int {
    match l {
        LoadView::Opening { search, symbols } => search.candidates.len() - search.position
            + symbols.len(),
        LoadView::Resolving { library, symbols, entries } => symbols.len() - entries.len(),
    }
}

/// The most calls that the loads of `requests` can make.
pub open spec fn requests_budget(requests: Seq<RequestView>) -> int
    decreases requests.len(),
{
    if requests.len() == 0 {
        0
    } else {
        requests[0].candidates.len() + requests[0].symbols.len() + requests_budget(
            requests.drop_first(),
        )
    }
}

/// The most calls that a setup can still make: one for each candidate and
/// each symbol that is left, and one for each call into the windowing core.
pub open spec fn setup_budget(s: SetupView) -> int {
    requests_budget(s.waiting) + match s.stage {
        StageView::Loading(load) => load_budget(load) + if s.mandatory.len() < MANDATORY {
            3int
        } else {
            1int
        },
        StageView::InitThreads => 3,
        StageView::SetErrorHandler => 2,
        StageView::OpenDisplay => 1,
    }
}

proof fn lemma_budget_falls(s: SetupView, word: usize)
    requires
        s.wf(),
    ensures
        setup_budget(s) >= 1,
        s.reply(word) matches ProgressView::Pending(next) ==> setup_budget(next) < setup_budget(s),
{
    if s.waiting.len() > 0 {
        assert(s.waiting[0].candidates.len() > 0);
    }
    let after = s.waiting.drop_first();
    assert(requests_budget(after) >= 0) by {
        lemma_budget_is_natural(after);
    }
    assert(requests_budget(s.waiting) >= 0) by {
        lemma_budget_is_natural(s.waiting);
    }
}

proof fn lemma_budget_is_natural(requests: Seq<RequestView>)
    ensures
        requests_budget(requests) >= 0,
    decreases requests.len(),
{
    if requests.len() > 0 {
        lemma_budget_is_natural(requests.drop_first());
    }
}

/// From any state, a setup is done after at most `setup_budget` answers.
pub proof fn law_setup_ends(s: SetupView, replies: Seq<usize>)
    requires
        s.wf(),
        replies.len() >= setup_budget(s),
    ensures
        setup_run(ProgressView::Pending(s), replies) is Done,
        setup_trace(ProgressView::Pending(s), replies).len() <= setup_budget(s),
    decreases replies.len(),
{
    reveal_with_fuel(setup_run, 2);
    reveal_with_fuel(setup_trace, 2);
    lemma_budget_falls(s, replies[0]);
    law_transitions(s, replies[0]);
    let rest = replies.drop_first();
    let step = s.reply(replies[0]);
    let all = setup_trace(ProgressView::Pending(s), replies);
    let tail = setup_trace(step, rest);
    assert(all == seq![s] + tail);
    match step {
        ProgressView::Pending(next) => {
            law_setup_ends(next, rest);
        },
        ProgressView::Done(_) => {
            assert(tail =~= Seq::<SetupView>::empty());
        },
    }
}

} // verus!
