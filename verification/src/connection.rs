//! Establishing the connection: which bundles are loaded, in which order
//! the native calls are made, and what becomes of their answers.

use vstd::prelude::*;
use crate::call::{names, Call, CallView, FunctionPointer};
use crate::loader::{
    load, Bundle, BundleLoad, BundleRequest, BundleView, LoadStep, LoadStepView, LoadView,
    LoaderError, LoaderErrorView, RequestView, SearchView,
};

verus! {

// ---------------------------------------------------------------------
// Errors
// ---------------------------------------------------------------------

/// Why no connection could be established.
#[derive(Clone, Debug, PartialEq, Eq)]
pub enum XNotSupported {
    /// A mandatory library could not be opened or lacks a symbol.
    LibraryOpenError(LoaderError),
    /// The display server refused the connection or could not be reached.
    XOpenDisplayFailed,
}

pub enum XNotSupportedView {
    LibraryOpenError(LoaderErrorView),
    XOpenDisplayFailed,
}

impl View for XNotSupported {
    type V = XNotSupportedView;

    open spec fn view(&self) -> XNotSupportedView {
        match *self {
            XNotSupported::LibraryOpenError(e) => XNotSupportedView::LibraryOpenError(e@),
            XNotSupported::XOpenDisplayFailed => XNotSupportedView::XOpenDisplayFailed,
        }
    }
}

impl From<LoaderError> for XNotSupported {
    fn from(err: LoaderError) -> (r: XNotSupported) {
        XNotSupported::LibraryOpenError(err)
    }
}

impl vstd::std_specs::convert::FromSpecImpl<LoaderError> for XNotSupported {
    open spec fn obeys_from_spec() -> bool {
        true
    }

    open spec fn from_spec(err: LoaderError) -> XNotSupported {
        XNotSupported::LibraryOpenError(err)
    }
}

impl XNotSupported {
    /// A short message for the error.
    pub fn description(&self) -> (text: &'static str)
        ensures
            text@ == (match *self {
                XNotSupported::LibraryOpenError(_) =>
                    "Failed to load one of xlib's shared libraries"@,
                XNotSupported::XOpenDisplayFailed => "Failed to open connection to X server"@,
            }),
    {
        match *self {
            XNotSupported::LibraryOpenError(_) => "Failed to load one of xlib's shared libraries",
            XNotSupported::XOpenDisplayFailed => "Failed to open connection to X server",
        }
    }

    /// The loader error behind a library failure.
    pub fn cause(&self) -> (cause: Option<&LoaderError>)
        ensures
            cause == (match *self {
                XNotSupported::LibraryOpenError(e) => Some(&e),
                XNotSupported::XOpenDisplayFailed => None,
            }),
    {
        match self {
            XNotSupported::LibraryOpenError(err) => Some(err),
            XNotSupported::XOpenDisplayFailed => None,
        }
    }
}


// ---------------------------------------------------------------------
// What is loaded
// ---------------------------------------------------------------------

/// The symbols the caller wants from each library, beyond the four entry
/// points of the windowing core that the connection itself calls.
pub struct SymbolTables {
    pub xlib: Vec<String>,
    pub xcursor: Vec<String>,
    pub xf86vmode: Vec<String>,
    pub xinput2: Vec<String>,
    pub glx: Vec<String>,
    pub egl: Vec<String>,
}

pub struct TablesView {
    pub xlib: Seq<Seq<char>>,
    pub xcursor: Seq<Seq<char>>,
    pub xf86vmode: Seq<Seq<char>>,
    pub xinput2: Seq<Seq<char>>,
    pub glx: Seq<Seq<char>>,
    pub egl: Seq<Seq<char>>,
}

impl View for SymbolTables {
    type V = TablesView;

    open spec fn view(&self) -> TablesView {
        TablesView {
            xlib: names(self.xlib@),
            xcursor: names(self.xcursor@),
            xf86vmode: names(self.xf86vmode@),
            xinput2: names(self.xinput2@),
            glx: names(self.glx@),
            egl: names(self.egl@),
        }
    }
}

/// Number of bundles whose absence aborts the setup; they are loaded first.
pub const MANDATORY: usize = 4;

/// Number of bundles whose absence is tolerated.
pub const OPTIONAL: usize = 2;

/// The entry points of the windowing core that the connection calls; they
/// are the first four entries of its bundle, in this order.
pub open spec fn core_symbols() -> Seq<Seq<char>> {
    seq!["XInitThreads"@, "XSetErrorHandler"@, "XOpenDisplay"@, "XCloseDisplay"@]
}

/// The bundles in the order in which they are loaded: windowing core,
/// cursor theming, display modes, extended input, then the two rendering
/// interfaces. Each library is tried under its versioned name first.
pub open spec fn standard_requests(tables: TablesView) -> Seq<RequestView> {
    seq![
        RequestView {
            candidates: seq!["libX11.so.6"@, "libX11.so"@],
            symbols: core_symbols() + tables.xlib,
        },
        RequestView {
            candidates: seq!["libXcursor.so.1"@, "libXcursor.so"@],
            symbols: tables.xcursor,
        },
        RequestView {
            candidates: seq!["libXxf86vm.so.1"@, "libXxf86vm.so"@],
            symbols: tables.xf86vmode,
        },
        RequestView { candidates: seq!["libXi.so.6"@, "libXi.so"@], symbols: tables.xinput2 },
        RequestView { candidates: seq!["libGL.so.1"@, "libGL.so"@], symbols: tables.glx },
        RequestView { candidates: seq!["libEGL.so.1"@, "libEGL.so"@], symbols: tables.egl },
    ]
}

/// The views of a list of requests.
pub open spec fn requests_view(v: Seq<BundleRequest>) -> Seq<RequestView> {
    v.map_values(|r: BundleRequest| r@)
}

fn pair(first: &str, second: &str) -> (v: Vec<String>)
    ensures
        names(v@) == seq![first@, second@],
{
    let mut v: Vec<String> = Vec::new();
    v.push(first.to_owned());
    v.push(second.to_owned());
    assert(names(v@) =~= seq![first@, second@]);
    v
}

fn core_and(extra: Vec<String>) -> (v: Vec<String>)
    ensures
        names(v@) == core_symbols() + names(extra@),
{
    let mut extra = extra;
    let ghost given = extra@;
    let mut v: Vec<String> = Vec::new();
    v.push("XInitThreads".to_owned());
    v.push("XSetErrorHandler".to_owned());
    v.push("XOpenDisplay".to_owned());
    v.push("XCloseDisplay".to_owned());
    v.append(&mut extra);
    assert(names(v@) =~= core_symbols() + names(given));
    v
}

fn requests(tables: SymbolTables) -> (v: Vec<BundleRequest>)
    ensures
        requests_view(v@) == standard_requests(tables@),
{
    let mut v: Vec<BundleRequest> = Vec::new();
    v.push(
        BundleRequest {
            candidates: pair("libX11.so.6", "libX11.so"),
            symbols: core_and(tables.xlib),
        },
    );
    v.push(
        BundleRequest {
            candidates: pair("libXcursor.so.1", "libXcursor.so"),
            symbols: tables.xcursor,
        },
    );
    v.push(
        BundleRequest {
            candidates: pair("libXxf86vm.so.1", "libXxf86vm.so"),
            symbols: tables.xf86vmode,
        },
    );
    v.push(
        BundleRequest { candidates: pair("libXi.so.6", "libXi.so"), symbols: tables.xinput2 },
    );
    v.push(BundleRequest { candidates: pair("libGL.so.1", "libGL.so"), symbols: tables.glx });
    v.push(BundleRequest { candidates: pair("libEGL.so.1", "libEGL.so"), symbols: tables.egl });
    assert(requests_view(v@) =~= standard_requests(tables@));
    v
}


// ---------------------------------------------------------------------
// The connection
// ---------------------------------------------------------------------

/// An open connection to the display server, with the bundles it was
/// established through. It exists only while the display is open, and is
/// given up by [`XConnection::close`].
#[derive(Debug)]
pub struct XConnection {
    xlib: Bundle,
    xf86vmode: Bundle,
    xcursor: Bundle,
    xinput2: Bundle,
    glx: Option<Bundle>,
    egl: Option<Bundle>,
    display: usize,
}

pub struct ConnectionView {
    pub xlib: BundleView,
    pub xf86vmode: BundleView,
    pub xcursor: BundleView,
    pub xinput2: BundleView,
    pub glx: Option<BundleView>,
    pub egl: Option<BundleView>,
    pub display: usize,
}

impl ConnectionView {
    /// The display is open, the windowing core has its four entry points,
    /// and no bundle holds a null address.
    pub open spec fn wf(self) -> bool {
        &&& self.display != 0
        &&& self.xlib.entries.len() >= core_symbols().len()
        &&& self.xlib.wf()
        &&& self.xf86vmode.wf()
        &&& self.xcursor.wf()
        &&& self.xinput2.wf()
        &&& self.glx matches Some(b) ==> b.wf()
        &&& self.egl matches Some(b) ==> b.wf()
    }

    /// The call that closes the display.
    pub open spec fn close(self) -> CallView {
        CallView::CloseDisplay { entry: self.xlib.entries[3], display: self.display }
    }
}

/// The view of a bundle that may be absent.
pub open spec fn optional_view(b: Option<Bundle>) -> Option<BundleView> {
    match b {
        Some(b) => Some(b@),
        None => None,
    }
}

impl View for XConnection {
    type V = ConnectionView;

    closed spec fn view(&self) -> ConnectionView {
        ConnectionView {
            xlib: self.xlib@,
            xf86vmode: self.xf86vmode@,
            xcursor: self.xcursor@,
            xinput2: self.xinput2@,
            glx: optional_view(self.glx),
            egl: optional_view(self.egl),
            display: self.display,
        }
    }
}

impl XConnection {
    #[verifier::type_invariant]
    spec fn inv(self) -> bool {
        self@.wf()
    }

    /// The windowing core.
    pub fn xlib(&self) -> (b: &Bundle)
        ensures
            self@.wf(),
            b@ == self@.xlib,
    {
        proof {
            use_type_invariant(self);
        }
        &self.xlib
    }

    /// The display-mode extension.
    pub fn xf86vmode(&self) -> (b: &Bundle)
        ensures
            self@.wf(),
            b@ == self@.xf86vmode,
    {
        proof {
            use_type_invariant(self);
        }
        &self.xf86vmode
    }

    /// Cursor theming.
    pub fn xcursor(&self) -> (b: &Bundle)
        ensures
            self@.wf(),
            b@ == self@.xcursor,
    {
        proof {
            use_type_invariant(self);
        }
        &self.xcursor
    }

    /// The extended-input extension.
    pub fn xinput2(&self) -> (b: &Bundle)
        ensures
            self@.wf(),
            b@ == self@.xinput2,
    {
        proof {
            use_type_invariant(self);
        }
        &self.xinput2
    }

    /// The GLX rendering interface, where the system has it.
    pub fn glx(&self) -> (b: Option<&Bundle>)
        ensures
            self@.wf(),
            match b {
                Some(b) => self@.glx == Some(b@),
                None => self@.glx is None,
            },
    {
        proof {
            use_type_invariant(self);
        }
        self.glx.as_ref()
    }

    /// The EGL rendering interface, where the system has it.
    pub fn egl(&self) -> (b: Option<&Bundle>)
        ensures
            self@.wf(),
            match b {
                Some(b) => self@.egl == Some(b@),
                None => self@.egl is None,
            },
    {
        proof {
            use_type_invariant(self);
        }
        self.egl.as_ref()
    }

    /// The address of the open display; never null.
    pub fn display(&self) -> (d: usize)
        ensures
            self@.wf(),
            d == self@.display,
            d != 0,
    {
        proof {
            use_type_invariant(self);
        }
        self.display
    }

    /// Gives the connection up and says how to close its display. The
    /// connection is consumed, so the display cannot be closed through it a
    /// second time.
    pub fn close(self) -> (call: Call)
        ensures
            self@.wf(),
            call@ == self@.close(),
    {
        proof {
            use_type_invariant(&self);
        }
        let entry = self.xlib.entry(3);
        Call::CloseDisplay { entry: entry.unwrap(), display: self.display }
    }
}


// ---------------------------------------------------------------------
// The setup
// ---------------------------------------------------------------------

/// A connection being established, waiting for the answer to one call.
pub struct Setup {
    handler: Option<FunctionPointer>,
    waiting: Vec<BundleRequest>,
    mandatory: Vec<Bundle>,
    optional: Vec<Option<Bundle>>,
    stage: Stage,
}

enum Stage {
    Loading(BundleLoad),
    InitThreads,
    SetErrorHandler,
    OpenDisplay,
}

pub enum StageView {
    /// A bundle is being loaded: a mandatory one while fewer than
    /// [`MANDATORY`] are there, an optional one afterwards.
    Loading(LoadView),
    /// The thread initialisation is being called.
    InitThreads,
    /// The error handler is being installed.
    SetErrorHandler,
    /// The display is being opened.
    OpenDisplay,
}

pub struct SetupView {
    /// The error callback to install.
    pub handler: Option<usize>,
    /// The requests that have not been begun, in load order.
    pub waiting: Seq<RequestView>,
    /// The mandatory bundles loaded so far, in load order.
    pub mandatory: Seq<BundleView>,
    /// The optional bundles probed so far, in load order.
    pub optional: Seq<Option<BundleView>>,
    pub stage: StageView,
}

/// Where a setup stands after an answer: another call to make, or done,
/// with the connection or with the error that ended it.
pub enum Progress {
    Pending(Setup),
    Done(Result<XConnection, XNotSupported>),
}

pub enum ProgressView {
    Pending(SetupView),
    Done(Result<ConnectionView, XNotSupportedView>),
}

/// How far a setup has come. A setup that waits for an answer is in one of
/// the first five states; the last two are final.
#[derive(Clone, Copy, Debug, PartialEq, Eq, Structural)]
pub enum State {
    /// The mandatory bundles are being loaded.
    Start,
    /// All mandatory bundles are there; the threads are being initialised.
    MandatoryLoaded,
    /// The threads are initialised; the error handler is being installed.
    ThreadsInited,
    /// The handler is installed; the optional bundles are being probed.
    ErrorHandlerInstalled,
    /// Both optional bundles are probed; the display is being opened.
    OptionalProbed,
    /// The display is open and the connection exists.
    Connected,
    /// The setup has ended with an error.
    Failed,
}

/// The first state of a load: the first candidate is being tried.
pub open spec fn first_try(request: RequestView) -> LoadView {
    LoadView::Opening {
        search: SearchView { candidates: request.candidates, position: 0 },
        symbols: request.symbols,
    }
}

/// The state in which a setup begins: the windowing core is searched for.
pub open spec fn initial(handler: Option<usize>, tables: TablesView) -> SetupView {
    SetupView {
        handler,
        waiting: standard_requests(tables).drop_first(),
        mandatory: Seq::empty(),
        optional: Seq::empty(),
        stage: StageView::Loading(first_try(standard_requests(tables)[0])),
    }
}

impl SetupView {
    pub open spec fn wf(self) -> bool {
        &&& searchable(self.waiting)
        &&& forall|i: int| 0 <= i < self.mandatory.len() ==> (#[trigger] self.mandatory[i]).wf()
        &&& forall|i: int|
            0 <= i < self.optional.len() ==> ((#[trigger] self.optional[i]) matches Some(b)
                ==> b.wf())
        &&& self.mandatory.len() > 0 ==> self.mandatory[0].entries.len() >= core_symbols().len()
        &&& match self.stage {
            StageView::Loading(load) => {
                &&& load.wf()
                &&& self.mandatory.len() + self.optional.len() + 1 + self.waiting.len()
                    == MANDATORY + OPTIONAL
                &&& self.mandatory.len() <= MANDATORY
                &&& self.mandatory.len() < MANDATORY ==> self.optional.len() == 0
                &&& self.mandatory.len() == 0 ==> load.symbols().len() >= core_symbols().len()
            },
            StageView::InitThreads | StageView::SetErrorHandler => {
                &&& self.mandatory.len() == MANDATORY
                &&& self.optional.len() == 0
                &&& self.waiting.len() == OPTIONAL
            },
            StageView::OpenDisplay => {
                &&& self.mandatory.len() == MANDATORY
                &&& self.optional.len() == OPTIONAL
                &&& self.waiting.len() == 0
            },
        }
    }

    pub open spec fn state(self) -> State {
        match self.stage {
            StageView::Loading(_) => if self.mandatory.len() < MANDATORY {
                State::Start
            } else {
                State::ErrorHandlerInstalled
            },
            StageView::InitThreads => State::MandatoryLoaded,
            StageView::SetErrorHandler => State::ThreadsInited,
            StageView::OpenDisplay => State::OptionalProbed,
        }
    }

    /// The call that is pending. The three calls into the windowing core go
    /// through the entry points of its bundle, the first one loaded.
    pub open spec fn call(self) -> CallView {
        match self.stage {
            StageView::Loading(load) => load.call(),
            StageView::InitThreads => CallView::InitThreads { entry: self.mandatory[0].entries[0] },
            StageView::SetErrorHandler => CallView::SetErrorHandler {
                entry: self.mandatory[0].entries[1],
                handler: self.handler,
            },
            StageView::OpenDisplay => CallView::OpenDisplay { entry: self.mandatory[0].entries[2] },
        }
    }

    /// The setup with the load of the next waiting request begun.
    pub open spec fn begin_next(self) -> SetupView {
        SetupView {
            waiting: self.waiting.drop_first(),
            stage: StageView::Loading(first_try(self.waiting[0])),
            ..self
        }
    }

    /// A mandatory bundle is there: the next one is begun, or, after the
    /// last, the threads are initialised.
    pub open spec fn loaded(self, bundle: BundleView) -> SetupView {
        let kept = SetupView { mandatory: self.mandatory.push(bundle), ..self };
        if kept.mandatory.len() == MANDATORY {
            SetupView { stage: StageView::InitThreads, ..kept }
        } else {
            kept.begin_next()
        }
    }

    /// An optional bundle is there or absent: the next one is begun, or,
    /// after the last, the display is opened.
    pub open spec fn probed(self, bundle: Option<BundleView>) -> SetupView {
        let kept = SetupView { optional: self.optional.push(bundle), ..self };
        if kept.optional.len() == OPTIONAL {
            SetupView { stage: StageView::OpenDisplay, ..kept }
        } else {
            kept.begin_next()
        }
    }

    /// The connection that a non-null display completes.
    pub open spec fn connection(self, display: usize) -> ConnectionView {
        assembled(self.mandatory, self.optional, display)
    }

    /// What the answer `word` to the pending call leads to.
    ///
    /// While a bundle is loaded the answer goes to the load. A mandatory
    /// bundle that fails ends the setup with its error; an optional one
    /// that fails is absent and the setup goes on. The answers to the
    /// thread initialisation and to the installation of the handler are
    /// not looked at. A null display ends the setup with
    /// `XOpenDisplayFailed`, any other completes the connection.
    pub open spec fn reply(self, word: usize) -> ProgressView {
        match self.stage {
            StageView::Loading(load) => match load.reply(word) {
                LoadStepView::Pending(next) => ProgressView::Pending(
                    SetupView { stage: StageView::Loading(next), ..self },
                ),
                LoadStepView::Done(Ok(bundle)) => if self.mandatory.len() < MANDATORY {
                    ProgressView::Pending(self.loaded(bundle))
                } else {
                    ProgressView::Pending(self.probed(Some(bundle)))
                },
                LoadStepView::Done(Err(e)) => if self.mandatory.len() < MANDATORY {
                    ProgressView::Done(Err(XNotSupportedView::LibraryOpenError(e)))
                } else {
                    ProgressView::Pending(self.probed(None))
                },
            },
            StageView::InitThreads => ProgressView::Pending(
                SetupView { stage: StageView::SetErrorHandler, ..self },
            ),
            StageView::SetErrorHandler => ProgressView::Pending(self.begin_next()),
            StageView::OpenDisplay => if word == 0 {
                ProgressView::Done(Err(XNotSupportedView::XOpenDisplayFailed))
            } else {
                ProgressView::Done(Ok(self.connection(word)))
            },
        }
    }
}

impl ProgressView {
    pub open spec fn wf(self) -> bool {
        match self {
            ProgressView::Pending(s) => s.wf(),
            ProgressView::Done(Ok(c)) => c.wf(),
            ProgressView::Done(Err(_)) => true,
        }
    }

    pub open spec fn state(self) -> State {
        match self {
            ProgressView::Pending(s) => s.state(),
            ProgressView::Done(Ok(_)) => State::Connected,
            ProgressView::Done(Err(_)) => State::Failed,
        }
    }
}

/// The views of a list of bundles.
pub open spec fn bundles_view(v: Seq<Bundle>) -> Seq<BundleView> {
    v.map_values(|b: Bundle| b@)
}

/// The views of a list of bundles that may be absent.
pub open spec fn optionals_view(v: Seq<Option<Bundle>>) -> Seq<Option<BundleView>> {
    v.map_values(|b: Option<Bundle>| optional_view(b))
}

/// The view of the outcome of a setup.
pub open spec fn outcome_view(r: Result<XConnection, XNotSupported>) -> Result<
    ConnectionView,
    XNotSupportedView,
> {
    match r {
        Ok(c) => Ok(c@),
        Err(e) => Err(e@),
    }
}

impl View for Setup {
    type V = SetupView;

    closed spec fn view(&self) -> SetupView {
        SetupView {
            handler: match self.handler {
                Some(h) => Some(h.addr),
                None => None,
            },
            waiting: requests_view(self.waiting@),
            mandatory: bundles_view(self.mandatory@),
            optional: optionals_view(self.optional@),
            stage: match self.stage {
                Stage::Loading(load) => StageView::Loading(load@),
                Stage::InitThreads => StageView::InitThreads,
                Stage::SetErrorHandler => StageView::SetErrorHandler,
                Stage::OpenDisplay => StageView::OpenDisplay,
            },
        }
    }
}

impl View for Progress {
    type V = ProgressView;

    open spec fn view(&self) -> ProgressView {
        match *self {
            Progress::Pending(s) => ProgressView::Pending(s@),
            Progress::Done(r) => ProgressView::Done(outcome_view(r)),
        }
    }
}


/// The address of a handler that may be absent.
pub open spec fn handler_view(handler: Option<FunctionPointer>) -> Option<usize> {
    match handler {
        Some(h) => Some(h.addr),
        None => None,
    }
}

/// Every request has a name to try.
pub open spec fn searchable(requests: Seq<RequestView>) -> bool {
    forall|i: int| 0 <= i < requests.len() ==> (#[trigger] requests[i]).candidates.len() > 0
}

/// The connection made of four mandatory bundles, two optional ones and a
/// display, each list in load order.
pub open spec fn assembled(
    mandatory: Seq<BundleView>,
    optional: Seq<Option<BundleView>>,
    display: usize,
) -> ConnectionView {
    ConnectionView {
        xlib: mandatory[0],
        xcursor: mandatory[1],
        xf86vmode: mandatory[2],
        xinput2: mandatory[3],
        glx: optional[0],
        egl: optional[1],
        display,
    }
}

/// The view of a setup's parts before a stage is chosen.
spec fn parts_view(
    handler: Option<FunctionPointer>,
    waiting: Seq<BundleRequest>,
    mandatory: Seq<Bundle>,
    optional: Seq<Option<Bundle>>,
) -> SetupView {
    SetupView {
        handler: handler_view(handler),
        waiting: requests_view(waiting),
        mandatory: bundles_view(mandatory),
        optional: optionals_view(optional),
        stage: StageView::InitThreads,
    }
}

fn begin_next(
    handler: Option<FunctionPointer>,
    waiting: Vec<BundleRequest>,
    mandatory: Vec<Bundle>,
    optional: Vec<Option<Bundle>>,
) -> (s: Setup)
    requires
        waiting.len() > 0,
        parts_view(handler, waiting@, mandatory@, optional@).begin_next().wf(),
        requests_view(waiting@)[0].candidates.len() > 0,
    ensures
        s@ == parts_view(handler, waiting@, mandatory@, optional@).begin_next(),
{
    let mut waiting = waiting;
    let ghost all = waiting@;
    let request = waiting.remove(0);
    assert(requests_view(waiting@) =~= requests_view(all).drop_first());
    assert(request@ == requests_view(all)[0]);
    match load(request) {
        LoadStep::Pending(next) => Setup {
            handler,
            waiting,
            mandatory,
            optional,
            stage: Stage::Loading(next),
        },
        LoadStep::Done(_) => vstd::pervasive::unreached(),
    }
}

fn loaded(
    handler: Option<FunctionPointer>,
    waiting: Vec<BundleRequest>,
    mandatory: Vec<Bundle>,
    optional: Vec<Option<Bundle>>,
    bundle: Bundle,
) -> (s: Setup)
    requires
        parts_view(handler, waiting@, mandatory@, optional@).loaded(bundle@).wf(),
        mandatory.len() < MANDATORY,
        waiting.len() + mandatory.len() == MANDATORY + OPTIONAL - 1,
        searchable(requests_view(waiting@)),
    ensures
        s@ == parts_view(handler, waiting@, mandatory@, optional@).loaded(bundle@),
{
    let mut mandatory = mandatory;
    let ghost before = mandatory@;
    mandatory.push(bundle);
    assert(bundles_view(mandatory@) =~= bundles_view(before).push(bundle@));
    if mandatory.len() == MANDATORY {
        Setup { handler, waiting, mandatory, optional, stage: Stage::InitThreads }
    } else {
        begin_next(handler, waiting, mandatory, optional)
    }
}

fn probed(
    handler: Option<FunctionPointer>,
    waiting: Vec<BundleRequest>,
    mandatory: Vec<Bundle>,
    optional: Vec<Option<Bundle>>,
    bundle: Option<Bundle>,
) -> (s: Setup)
    requires
        parts_view(handler, waiting@, mandatory@, optional@).probed(optional_view(bundle)).wf(),
        optional.len() < OPTIONAL,
        waiting.len() + optional.len() == OPTIONAL - 1,
        searchable(requests_view(waiting@)),
    ensures
        s@ == parts_view(handler, waiting@, mandatory@, optional@).probed(optional_view(bundle)),
{
    let mut optional = optional;
    let ghost before = optional@;
    let ghost added = optional_view(bundle);
    optional.push(bundle);
    assert(optionals_view(optional@) =~= optionals_view(before).push(added));
    if optional.len() == OPTIONAL {
        Setup { handler, waiting, mandatory, optional, stage: Stage::OpenDisplay }
    } else {
        begin_next(handler, waiting, mandatory, optional)
    }
}

fn connected(mandatory: Vec<Bundle>, optional: Vec<Option<Bundle>>, display: usize) -> (c:
    XConnection)
    requires
        mandatory.len() == MANDATORY,
        optional.len() == OPTIONAL,
        assembled(bundles_view(mandatory@), optionals_view(optional@), display).wf(),
    ensures
        c@ == assembled(bundles_view(mandatory@), optionals_view(optional@), display),
{
    let mut mandatory = mandatory;
    let mut optional = optional;
    let egl = optional.pop().unwrap();
    let glx = optional.pop().unwrap();
    let xinput2 = mandatory.pop().unwrap();
    let xf86vmode = mandatory.pop().unwrap();
    let xcursor = mandatory.pop().unwrap();
    let xlib = mandatory.pop().unwrap();
    XConnection { xlib, xf86vmode, xcursor, xinput2, glx, egl, display }
}

impl Setup {
    #[verifier::type_invariant]
    spec fn inv(self) -> bool {
        self@.wf()
    }

    /// The call to perform now.
    pub fn call(&self) -> (call: Call)
        ensures
            self@.wf(),
            call@ == self@.call(),
    {
        proof {
            use_type_invariant(self);
        }
        match &self.stage {
            Stage::Loading(load) => load.call(),
            Stage::InitThreads => Call::InitThreads { entry: self.mandatory[0].entry(0).unwrap() },
            Stage::SetErrorHandler => Call::SetErrorHandler {
                entry: self.mandatory[0].entry(1).unwrap(),
                handler: self.handler,
            },
            Stage::OpenDisplay => Call::OpenDisplay { entry: self.mandatory[0].entry(2).unwrap() },
        }
    }

    /// How far the setup has come.
    pub fn state(&self) -> (state: State)
        ensures
            state == self@.state(),
    {
        match &self.stage {
            Stage::Loading(_) => if self.mandatory.len() < MANDATORY {
                State::Start
            } else {
                State::ErrorHandlerInstalled
            },
            Stage::InitThreads => State::MandatoryLoaded,
            Stage::SetErrorHandler => State::ThreadsInited,
            Stage::OpenDisplay => State::OptionalProbed,
        }
    }

    /// Takes the answer to the pending call: the word that the call
    /// returned, with zero for a null address.
    pub fn reply(self, word: usize) -> (progress: Progress)
        ensures
            self@.wf(),
            progress@ == self@.reply(word),
            progress@.wf(),
    {
        proof {
            use_type_invariant(&self);
        }
        let Setup { handler, waiting, mandatory, optional, stage } = self;
        match stage {
            Stage::Loading(load) => match load.reply(word) {
                LoadStep::Pending(next) => Progress::Pending(
                    Setup { handler, waiting, mandatory, optional, stage: Stage::Loading(next) },
                ),
                LoadStep::Done(Ok(bundle)) => if mandatory.len() < MANDATORY {
                    Progress::Pending(loaded(handler, waiting, mandatory, optional, bundle))
                } else {
                    Progress::Pending(probed(handler, waiting, mandatory, optional, Some(bundle)))
                },
                LoadStep::Done(Err(e)) => if mandatory.len() < MANDATORY {
                    Progress::Done(Err(XNotSupported::from(e)))
                } else {
                    Progress::Pending(probed(handler, waiting, mandatory, optional, None))
                },
            },
            Stage::InitThreads => Progress::Pending(
                Setup { handler, waiting, mandatory, optional, stage: Stage::SetErrorHandler },
            ),
            Stage::SetErrorHandler => Progress::Pending(
                begin_next(handler, waiting, mandatory, optional),
            ),
            Stage::OpenDisplay => if word == 0 {
                Progress::Done(Err(XNotSupported::XOpenDisplayFailed))
            } else {
                Progress::Done(Ok(connected(mandatory, optional, word)))
            },
        }
    }
}

impl XConnection {
    /// Begins to establish a connection. `error_handler` is the callback to
    /// install, `None` for the platform's default; `tables` names the
    /// symbols to resolve in each library. The first call is the attempt to
    /// open the windowing core under its first name.
    pub fn new(error_handler: Option<FunctionPointer>, tables: SymbolTables) -> (setup: Setup)
        ensures
            setup@ == initial(handler_view(error_handler), tables@),
            setup@.wf(),
    {
        let waiting = requests(tables);
        let mandatory: Vec<Bundle> = Vec::new();
        let optional: Vec<Option<Bundle>> = Vec::new();
        assert(bundles_view(mandatory@) =~= Seq::<BundleView>::empty());
        assert(optionals_view(optional@) =~= Seq::<Option<BundleView>>::empty());
        begin_next(error_handler, waiting, mandatory, optional)
    }
}


impl Progress {
    /// How far the setup has come.
    pub fn state(&self) -> (state: State)
        ensures
            state == self@.state(),
    {
        match self {
            Progress::Pending(setup) => setup.state(),
            Progress::Done(Ok(_)) => State::Connected,
            Progress::Done(Err(_)) => State::Failed,
        }
    }
}

} // verus!
