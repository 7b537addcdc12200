use xconnect::call::{Call, FunctionPointer, LibraryHandle};
use xconnect::connection::{Progress, Setup, State, SymbolTables, XConnection, XNotSupported};
use xconnect::loader::LoaderError;

const ALL: [&str; 6] =
    ["libX11.so.6", "libXcursor.so.1", "libXxf86vm.so.1", "libXi.so.6", "libGL.so.1", "libEGL.so.1"];

fn owned(names: &[&str]) -> Vec<String> {
    names.iter().map(|n| n.to_string()).collect()
}

fn tables() -> SymbolTables {
    SymbolTables {
        xlib: owned(&["XFlush"]),
        xcursor: owned(&["XcursorLibraryLoadCursor"]),
        xf86vmode: owned(&["XF86VidModeGetAllModeLines", "XF86VidModeSwitchToMode"]),
        xinput2: owned(&["XIQueryVersion"]),
        glx: owned(&["glXCreateContext"]),
        egl: owned(&["eglGetDisplay"]),
    }
}

/// A platform that knows the listed libraries, lacks the listed symbols,
/// answers the connect call with `display`, and keeps every call it is
/// asked to make.
struct FakePlatform {
    libraries: Vec<&'static str>,
    missing: Vec<&'static str>,
    display: usize,
    asked: Vec<Call>,
    states: Vec<State>,
}

impl FakePlatform {
    fn new(libraries: &[&'static str], missing: &[&'static str], display: usize) -> FakePlatform {
        FakePlatform {
            libraries: libraries.to_vec(),
            missing: missing.to_vec(),
            display,
            asked: Vec::new(),
            states: Vec::new(),
        }
    }

    fn handle_of(&self, name: &str) -> usize {
        match self.libraries.iter().position(|n| *n == name) {
            Some(i) => 0x1000 * (i + 1),
            None => 0,
        }
    }

    fn address_of(library: usize, symbol: &str) -> usize {
        library + 1 + symbol.len()
    }

    fn perform(&mut self, call: Call) -> usize {
        self.asked.push(call.clone());
        match call {
            Call::OpenLibrary { name } => self.handle_of(&name),
            Call::ResolveSymbol { library, symbol } => {
                if self.missing.iter().any(|m| *m == symbol) {
                    0
                } else {
                    FakePlatform::address_of(library.addr, &symbol)
                }
            }
            Call::InitThreads { .. } => 1,
            Call::SetErrorHandler { .. } => 0,
            Call::OpenDisplay { .. } => self.display,
            Call::CloseDisplay { .. } => 0,
        }
    }

    fn establish(
        &mut self,
        handler: Option<FunctionPointer>,
    ) -> Result<XConnection, XNotSupported> {
        let mut setup: Setup = XConnection::new(handler, tables());
        loop {
            self.states.push(setup.state());
            let word = self.perform(setup.call());
            match setup.reply(word) {
                Progress::Pending(next) => setup = next,
                Progress::Done(result) => return result,
            }
        }
    }

    fn count(&self, wanted: fn(&Call) -> bool) -> usize {
        self.asked.iter().filter(|c| wanted(c)).count()
    }

    fn position(&self, wanted: fn(&Call) -> bool) -> Option<usize> {
        self.asked.iter().position(|c| wanted(c))
    }

    fn opened(&self) -> Vec<String> {
        let mut names = Vec::new();
        for call in &self.asked {
            if let Call::OpenLibrary { name } = call {
                names.push(name.clone());
            }
        }
        names
    }
}

fn is_init(c: &Call) -> bool {
    matches!(c, Call::InitThreads { .. })
}

fn is_install(c: &Call) -> bool {
    matches!(c, Call::SetErrorHandler { .. })
}

fn is_connect(c: &Call) -> bool {
    matches!(c, Call::OpenDisplay { .. })
}

#[test]
fn establish_succeeds_with_every_library() {
    let mut platform = FakePlatform::new(&ALL, &[], 0xd15);
    let connection = platform.establish(None).unwrap();
    assert_eq!(connection.display(), 0xd15);
    assert_eq!(connection.xlib().library(), LibraryHandle { addr: 0x1000 });
    assert_eq!(connection.xcursor().library(), LibraryHandle { addr: 0x2000 });
    assert_eq!(connection.xf86vmode().library(), LibraryHandle { addr: 0x3000 });
    assert_eq!(connection.xinput2().library(), LibraryHandle { addr: 0x4000 });
    assert_eq!(connection.glx().unwrap().library(), LibraryHandle { addr: 0x5000 });
    assert_eq!(connection.egl().unwrap().library(), LibraryHandle { addr: 0x6000 });
    // the four entry points come first, then the caller's symbols
    assert_eq!(connection.xlib().len(), 5);
    assert_eq!(
        connection.xlib().entry(0),
        Some(FunctionPointer { addr: FakePlatform::address_of(0x1000, "XInitThreads") })
    );
    assert_eq!(
        connection.xlib().entry(4),
        Some(FunctionPointer { addr: FakePlatform::address_of(0x1000, "XFlush") })
    );
    assert_eq!(connection.xf86vmode().len(), 2);
    assert_eq!(
        connection.glx().unwrap().entry(0),
        Some(FunctionPointer { addr: FakePlatform::address_of(0x5000, "glXCreateContext") })
    );
}

#[test]
fn establish_makes_its_calls_in_order() {
    let mut platform = FakePlatform::new(&ALL, &[], 0xd15);
    platform.establish(Some(FunctionPointer { addr: 0xcb })).unwrap();
    let core = LibraryHandle { addr: 0x1000 };
    let entry = |symbol: &str| FunctionPointer { addr: FakePlatform::address_of(0x1000, symbol) };
    let lookup = |library: usize, symbol: &str| Call::ResolveSymbol {
        library: LibraryHandle { addr: library },
        symbol: symbol.to_string(),
    };
    let open = |name: &str| Call::OpenLibrary { name: name.to_string() };
    let expected = vec![
        open("libX11.so.6"),
        Call::ResolveSymbol { library: core, symbol: "XInitThreads".to_string() },
        lookup(0x1000, "XSetErrorHandler"),
        lookup(0x1000, "XOpenDisplay"),
        lookup(0x1000, "XCloseDisplay"),
        lookup(0x1000, "XFlush"),
        open("libXcursor.so.1"),
        lookup(0x2000, "XcursorLibraryLoadCursor"),
        open("libXxf86vm.so.1"),
        lookup(0x3000, "XF86VidModeGetAllModeLines"),
        lookup(0x3000, "XF86VidModeSwitchToMode"),
        open("libXi.so.6"),
        lookup(0x4000, "XIQueryVersion"),
        Call::InitThreads { entry: entry("XInitThreads") },
        Call::SetErrorHandler {
            entry: entry("XSetErrorHandler"),
            handler: Some(FunctionPointer { addr: 0xcb }),
        },
        open("libGL.so.1"),
        lookup(0x5000, "glXCreateContext"),
        open("libEGL.so.1"),
        lookup(0x6000, "eglGetDisplay"),
        Call::OpenDisplay { entry: entry("XOpenDisplay") },
    ];
    assert_eq!(platform.asked, expected);
}

#[test]
fn establish_passes_through_the_states_in_order() {
    let mut platform = FakePlatform::new(&ALL, &[], 0xd15);
    platform.establish(None).unwrap();
    let mut seen = platform.states.clone();
    seen.dedup();
    assert_eq!(
        seen,
        vec![
            State::Start,
            State::MandatoryLoaded,
            State::ThreadsInited,
            State::ErrorHandlerInstalled,
            State::OptionalProbed,
        ]
    );
}

#[test]
fn establish_installs_the_default_handler_when_none_is_given() {
    let mut platform = FakePlatform::new(&ALL, &[], 0xd15);
    platform.establish(None).unwrap();
    let at = platform.position(is_install).unwrap();
    match &platform.asked[at] {
        Call::SetErrorHandler { handler, .. } => assert_eq!(*handler, None),
        _ => unreachable!(),
    }
}

#[test]
fn establish_falls_back_to_the_unversioned_name() {
    let mut platform = FakePlatform::new(
        &["libX11.so", "libXcursor.so", "libXxf86vm.so", "libXi.so", "libGL.so", "libEGL.so"],
        &[],
        0xd15,
    );
    let connection = platform.establish(None).unwrap();
    assert_eq!(connection.xlib().library(), LibraryHandle { addr: 0x1000 });
    assert!(connection.glx().is_some());
    assert!(connection.egl().is_some());
    assert_eq!(
        platform.opened(),
        owned(&[
            "libX11.so.6",
            "libX11.so",
            "libXcursor.so.1",
            "libXcursor.so",
            "libXxf86vm.so.1",
            "libXxf86vm.so",
            "libXi.so.6",
            "libXi.so",
            "libGL.so.1",
            "libGL.so",
            "libEGL.so.1",
            "libEGL.so",
        ])
    );
}

#[test]
fn establish_fails_when_a_mandatory_library_is_absent() {
    let mandatory = [
        ("libX11.so.6", "libX11.so"),
        ("libXcursor.so.1", "libXcursor.so"),
        ("libXxf86vm.so.1", "libXxf86vm.so"),
        ("libXi.so.6", "libXi.so"),
    ];
    for (versioned, unversioned) in mandatory.iter() {
        let present: Vec<&'static str> =
            ALL.iter().filter(|n| *n != versioned).cloned().collect();
        let mut platform = FakePlatform::new(&present, &[], 0xd15);
        let error = platform.establish(None).unwrap_err();
        assert_eq!(
            error,
            XNotSupported::LibraryOpenError(LoaderError::NotFound(owned(&[
                versioned,
                unversioned
            ])))
        );
        assert_eq!(platform.count(is_init), 0);
        assert_eq!(platform.count(is_install), 0);
        assert_eq!(platform.count(is_connect), 0);
        assert!(platform.states.iter().all(|s| *s == State::Start));
    }
}

#[test]
fn establish_fails_when_a_mandatory_symbol_is_missing() {
    let mut platform = FakePlatform::new(&ALL, &["XF86VidModeSwitchToMode"], 0xd15);
    let error = platform.establish(None).unwrap_err();
    assert_eq!(
        error,
        XNotSupported::LibraryOpenError(LoaderError::SymbolNotFound(
            "XF86VidModeSwitchToMode".to_string()
        ))
    );
    assert_eq!(platform.count(is_init), 0);
    assert_eq!(platform.count(is_connect), 0);
    // the extended-input library is never opened
    assert_eq!(platform.opened(), owned(&["libX11.so.6", "libXcursor.so.1", "libXxf86vm.so.1"]));
}

#[test]
fn establish_fails_when_an_entry_point_of_the_core_is_missing() {
    let mut platform = FakePlatform::new(&ALL, &["XOpenDisplay"], 0xd15);
    let error = platform.establish(None).unwrap_err();
    assert_eq!(
        error,
        XNotSupported::LibraryOpenError(LoaderError::SymbolNotFound("XOpenDisplay".to_string()))
    );
    assert_eq!(platform.asked.len(), 4);
}

#[test]
fn establish_succeeds_without_the_optional_libraries() {
    let mut platform = FakePlatform::new(&ALL[..4], &[], 0xd15);
    let connection = platform.establish(None).unwrap();
    assert!(connection.glx().is_none());
    assert!(connection.egl().is_none());
    assert_eq!(connection.display(), 0xd15);
    assert_eq!(connection.xinput2().library(), LibraryHandle { addr: 0x4000 });
    // both names of both libraries were tried
    let opened = platform.opened();
    assert_eq!(&opened[4..], &owned(&["libGL.so.1", "libGL.so", "libEGL.so.1", "libEGL.so"])[..]);
    assert_eq!(platform.count(is_connect), 1);
}

#[test]
fn establish_probes_the_optional_libraries_independently() {
    let mut platform = FakePlatform::new(
        &["libX11.so.6", "libXcursor.so.1", "libXxf86vm.so.1", "libXi.so.6", "libEGL.so.1"],
        &[],
        0xd15,
    );
    let connection = platform.establish(None).unwrap();
    assert!(connection.glx().is_none());
    assert_eq!(connection.egl().unwrap().library(), LibraryHandle { addr: 0x5000 });

    let mut platform = FakePlatform::new(&ALL[..5], &[], 0xd15);
    let connection = platform.establish(None).unwrap();
    assert_eq!(connection.glx().unwrap().library(), LibraryHandle { addr: 0x5000 });
    assert!(connection.egl().is_none());
}

#[test]
fn establish_treats_a_missing_optional_symbol_as_absence() {
    let mut platform = FakePlatform::new(&ALL, &["glXCreateContext"], 0xd15);
    let connection = platform.establish(None).unwrap();
    assert!(connection.glx().is_none());
    assert!(connection.egl().is_some());
}

#[test]
fn establish_fails_when_the_display_does_not_open() {
    let mut platform = FakePlatform::new(&ALL, &[], 0);
    let error = platform.establish(None).unwrap_err();
    assert_eq!(error, XNotSupported::XOpenDisplayFailed);
    assert_eq!(platform.count(is_init), 1);
    assert_eq!(platform.count(is_install), 1);
    assert_eq!(platform.count(is_connect), 1);
    let init = platform.position(is_init).unwrap();
    let install = platform.position(is_install).unwrap();
    let connect = platform.position(is_connect).unwrap();
    assert!(init < install);
    assert!(install < connect);
    assert_eq!(connect, platform.asked.len() - 1);
}

#[test]
fn establish_does_not_look_at_the_answer_of_the_thread_initialisation() {
    // a platform whose thread initialisation answers zero still connects
    let mut setup = XConnection::new(None, tables());
    let mut platform = FakePlatform::new(&ALL, &[], 0xd15);
    let connection = loop {
        let call = setup.call();
        let word = if is_init(&call) { 0 } else { platform.perform(call) };
        match setup.reply(word) {
            Progress::Pending(next) => setup = next,
            Progress::Done(result) => break result,
        }
    };
    assert_eq!(connection.unwrap().display(), 0xd15);
}

#[test]
fn close_closes_the_display_of_the_connection() {
    let mut platform = FakePlatform::new(&ALL, &[], 0xd15);
    let connection = platform.establish(None).unwrap();
    let call = connection.close();
    assert_eq!(
        call,
        Call::CloseDisplay {
            entry: FunctionPointer { addr: FakePlatform::address_of(0x1000, "XCloseDisplay") },
            display: 0xd15,
        }
    );
    platform.perform(call);
    let closes = platform.asked.iter().filter(|c| matches!(c, Call::CloseDisplay { .. })).count();
    assert_eq!(closes, 1);
}

#[test]
fn first_call_opens_the_core_under_its_versioned_name() {
    let setup = XConnection::new(None, tables());
    assert_eq!(setup.state(), State::Start);
    assert_eq!(setup.call(), Call::OpenLibrary { name: "libX11.so.6".to_string() });
    match setup.reply(0) {
        Progress::Pending(next) => {
            assert_eq!(next.call(), Call::OpenLibrary { name: "libX11.so".to_string() });
            let done = next.reply(0);
            assert_eq!(done.state(), State::Failed);
        }
        Progress::Done(_) => panic!("there is a second name to try"),
    }
}

#[test]
fn description_names_what_failed() {
    let library = XNotSupported::LibraryOpenError(LoaderError::NotFound(owned(&["libX11.so"])));
    assert_eq!(library.description(), "Failed to load one of xlib's shared libraries");
    assert_eq!(
        XNotSupported::XOpenDisplayFailed.description(),
        "Failed to open connection to X server"
    );
}

#[test]
fn cause_is_the_loader_error() {
    let inner = LoaderError::SymbolNotFound("XFlush".to_string());
    let library = XNotSupported::LibraryOpenError(inner.clone());
    assert_eq!(library.cause(), Some(&inner));
    assert_eq!(XNotSupported::XOpenDisplayFailed.cause(), None);
}

#[test]
fn loader_error_converts_into_library_open_error() {
    let inner = LoaderError::NotFound(owned(&["libXi.so.6", "libXi.so"]));
    let error: XNotSupported = XNotSupported::from(inner.clone());
    assert_eq!(error, XNotSupported::LibraryOpenError(inner));
}

fn shared_between_threads<T: Send + Sync>(_value: &T) {}

#[test]
fn connection_can_be_read_from_several_threads() {
    let mut platform = FakePlatform::new(&ALL, &[], 0xd15);
    let connection = platform.establish(None).unwrap();
    shared_between_threads(&connection);
    assert_eq!(connection.display(), 0xd15);
}

#[test]
fn setup_ends_whatever_the_platform_answers() {
    // every answer null: the core cannot be opened under either name
    let mut setup = XConnection::new(None, tables());
    let mut calls = 0;
    let result = loop {
        calls += 1;
        match setup.reply(0) {
            Progress::Pending(next) => setup = next,
            Progress::Done(result) => break result,
        }
    };
    assert_eq!(calls, 2);
    assert_eq!(
        result.unwrap_err(),
        XNotSupported::LibraryOpenError(LoaderError::NotFound(owned(&[
            "libX11.so.6",
            "libX11.so"
        ])))
    );
    // every answer the same non-null word: each library opens at once
    let mut setup = XConnection::new(None, tables());
    let mut calls = 0;
    let result = loop {
        calls += 1;
        match setup.reply(7) {
            Progress::Pending(next) => setup = next,
            Progress::Done(result) => break result,
        }
    };
    assert_eq!(calls, 20);
    assert_eq!(result.unwrap().display(), 7);
}
