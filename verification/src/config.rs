//! Start-up: the command line's choices, the configuration files and what is
//! read out of them.

use crate::theme::ThemeColors;
#[allow(unused_imports)]
use vstd::string::*;
use vstd::prelude::*;

verus! {

/// What the command line says, apart from the scale of the UI.
#[derive(Clone, Debug)]
pub struct Config {
    /// Run with mock backends.
    pub mock: bool,
    /// The name of the bottom screen's output, where it is not to be detected.
    pub output: Option<String>,
    /// The socket to receive a DRM lease from; it turns Game Mode on.
    pub lease_socket: Option<String>,
    /// The file that lists the apps.
    pub apps_config: Option<String>,
    /// The file that holds the theme.
    pub theme_config: Option<String>,
}

/// One app that can be launched.
#[derive(Clone, Debug)]
pub struct AppEntry {
    pub name: String,
    pub icon: String,
    pub command: String,
    pub url: Option<String>,
}

// ---------------------------------------------------------------------------
// Game Mode or Desktop Mode
// ---------------------------------------------------------------------------

/// How the panel is shown.
#[derive(Clone, Debug)]
pub enum Mode {
    /// In a window.
    Desktop,
    /// On a leased display; the lease comes through `socket`.
    Game { socket: String },
}

/// Decides the mode. An empty socket path stands for the usual one.
pub fn startup_mode(config: &Config) -> (mode: Mode)
    ensures
        config.lease_socket is None ==> mode is Desktop,
        config.lease_socket matches Some(path) ==> (mode matches Mode::Game { socket } && socket@
            == (if path@.len() == 0 {
            "/tmp/gamescope-lease.sock"@
        } else {
            path@
        })),
{
    match &config.lease_socket {
        None => Mode::Desktop,
        Some(path) => if path.as_str().is_empty() {
            Mode::Game { socket: "/tmp/gamescope-lease.sock".to_owned() }
        } else {
            Mode::Game { socket: path.clone() }
        },
    }
}

/// Whether a part of the program works on the system or is a mock.
#[derive(Clone, Copy, Debug, PartialEq, Eq, Structural)]
pub enum Backend {
    Mock,
    System,
}

/// The backends of Desktop Mode.
#[derive(Clone, Copy, Debug, PartialEq, Eq, Structural)]
pub struct Backends {
    pub stats: Backend,
    pub input: Backend,
    pub windows: Backend,
}

/// Chooses the backends. With `mock` all are mocks; otherwise input and windows
/// fall back to a mock where they could not be set up.
pub fn create_backends(mock: bool, input_ready: bool, windows_ready: bool) -> (backends: Backends)
    ensures
        backends.stats == (if mock {
            Backend::Mock
        } else {
            Backend::System
        }),
        backends.input == (if mock || !input_ready {
            Backend::Mock
        } else {
            Backend::System
        }),
        backends.windows == (if mock || !windows_ready {
            Backend::Mock
        } else {
            Backend::System
        }),
{
    if mock {
        Backends { stats: Backend::Mock, input: Backend::Mock, windows: Backend::Mock }
    } else {
        Backends {
            stats: Backend::System,
            input: if input_ready {
                Backend::System
            } else {
                Backend::Mock
            },
            windows: if windows_ready {
                Backend::System
            } else {
                Backend::Mock
            },
        }
    }
}

// ---------------------------------------------------------------------------
// Where configuration files are looked for
// ---------------------------------------------------------------------------

/// The separator of path components.
pub const SEPARATOR: u8 = 0x2f;

/// The views of a sequence of paths.
pub open spec fn paths(list: Seq<Vec<u8>>) -> Seq<Seq<u8>> {
    list.map_values(|p: Vec<u8>| p@)
}

/// The path of `part`, a relative path, below `base`.
pub open spec fn joined(base: Seq<u8>, part: Seq<u8>) -> Seq<u8> {
    if base.len() == 0 || base.last() == SEPARATOR {
        base + part
    } else {
        base.push(SEPARATOR) + part
    }
}

fn join_path(base: &Vec<u8>, part: &str) -> (path: Vec<u8>)
    requires
        part@.len() > 0,
        part@[0] != '/',
    ensures
        path@ == joined(base@, part.spec_bytes()),
{
    let mut path: Vec<u8> = base.clone();
    assert(path@ == base@);
    if path.len() > 0 && path[path.len() - 1] != SEPARATOR {
        path.push(SEPARATOR);
    }
    let mut tail: Vec<u8> = part.as_bytes_vec();
    path.append(&mut tail);
    path
}

/// The directory of the panel's configuration: below `$XDG_CONFIG_HOME` where
/// it is set, else below `$HOME/.config` where that is.
pub open spec fn config_dir(xdg_config_home: Option<Seq<u8>>, home: Option<Seq<u8>>) -> Option<
    Seq<u8>,
> {
    let app = "flip-companion".spec_bytes();
    match (xdg_config_home, home) {
        (Some(xdg), _) => Some(joined(xdg, app)),
        (None, Some(h)) => Some(joined(joined(h, ".config".spec_bytes()), app)),
        (None, None) => None,
    }
}

/// The view of an optional path.
pub open spec fn path_view(path: Option<Vec<u8>>) -> Option<Seq<u8>> {
    match path {
        Some(p) => Some(p@),
        None => None,
    }
}

/// Finds the directory of the panel's configuration.
pub fn dirs_fallback(xdg_config_home: Option<Vec<u8>>, home: Option<Vec<u8>>) -> (dir: Option<
    Vec<u8>,
>)
    ensures
        path_view(dir) == config_dir(path_view(xdg_config_home), path_view(home)),
{
    proof {
        reveal_strlit("flip-companion");
        reveal_strlit(".config");
    }
    match xdg_config_home {
        Some(xdg) => Some(join_path(&xdg, "flip-companion")),
        None => match home {
            Some(h) => {
                let base = join_path(&h, ".config");
                Some(join_path(&base, "flip-companion"))
            },
            None => None,
        },
    }
}

/// Where file `name` is looked for: at the path that the command line gives,
/// in the working directory, in the configuration directory, in this order.
pub open spec fn search_order(
    given: Option<Seq<char>>,
    name: Seq<char>,
    dir: Option<Seq<u8>>,
) -> Seq<Seq<u8>> {
    let bytes = vstd::utf8::encode_utf8(name);
    let first = match given {
        Some(path) => seq![vstd::utf8::encode_utf8(path)],
        None => seq![],
    };
    let last = match dir {
        Some(d) => seq![joined(d, bytes)],
        None => seq![],
    };
    first + seq![bytes] + last
}

/// The view of an optional text.
pub open spec fn text_view(text: Option<String>) -> Option<Seq<char>> {
    match text {
        Some(t) => Some(t@),
        None => None,
    }
}

fn candidates(given: &Option<String>, name: &str, dir: &Option<Vec<u8>>) -> (list: Vec<Vec<u8>>)
    requires
        name@.len() > 0,
        name@[0] != '/',
    ensures
        paths(list@) == search_order(text_view(*given), name@, path_view(*dir)),
{
    let mut list: Vec<Vec<u8>> = Vec::new();
    if let Some(path) = given {
        list.push(path.as_str().as_bytes_vec());
    }
    list.push(name.as_bytes_vec());
    if let Some(d) = dir {
        list.push(join_path(d, name));
    }
    proof {
        assert(paths(list@) =~= search_order(text_view(*given), name@, path_view(*dir)));
    }
    list
}

/// The paths that the theme is looked for at, in order.
pub fn theme_candidates(config: &Config, dir: &Option<Vec<u8>>) -> (list: Vec<Vec<u8>>)
    ensures
        paths(list@) == search_order(
            text_view(config.theme_config),
            "theme.toml"@,
            path_view(*dir),
        ),
{
    proof {
        reveal_strlit("theme.toml");
    }
    candidates(&config.theme_config, "theme.toml", dir)
}

/// The paths that the list of apps is looked for at, in order.
pub fn apps_candidates(config: &Config, dir: &Option<Vec<u8>>) -> (list: Vec<Vec<u8>>)
    ensures
        paths(list@) == search_order(text_view(config.apps_config), "apps.toml"@, path_view(*dir)),
{
    proof {
        reveal_strlit("apps.toml");
    }
    candidates(&config.apps_config, "apps.toml", dir)
}

// ---------------------------------------------------------------------------
// What is taken from the files found
// ---------------------------------------------------------------------------

/// What came of one path that a file was looked for at.
#[derive(Debug)]
pub enum Attempt<T> {
    /// There is no file that can be read.
    Unreadable,
    /// The file does not parse.
    Malformed,
    /// The file holds this.
    Loaded(T),
}

impl<T> Attempt<T> {
    /// Tells whether the search goes on after this attempt.
    pub fn search_goes_on(&self) -> (goes_on: bool)
        ensures
            goes_on == !(self is Loaded),
    {
        match self {
            Attempt::Loaded(_) => false,
            _ => true,
        }
    }
}

/// The content of the first file that could be loaded, if one could.
pub open spec fn first_loaded<T>(attempts: Seq<Attempt<T>>) -> Option<T>
    decreases attempts.len(),
{
    if attempts.len() == 0 {
        None
    } else {
        match attempts[0] {
            Attempt::Loaded(content) => Some(content),
            _ => first_loaded(attempts.skip(1)),
        }
    }
}

fn take_first_loaded<T>(attempts: Vec<Attempt<T>>) -> (content: Option<T>)
    ensures
        content == first_loaded(attempts@),
{
    let ghost all = attempts@;
    proof {
        assert(all.skip(0) == all);
    }
    for attempt in it: attempts
        invariant
            it.seq() == all,
            first_loaded(all) == first_loaded(all.skip(it.index())),
    {
        proof {
            assert(all.skip(it.index())[0] == all[it.index()]);
            assert(all.skip(it.index()).skip(1) == all.skip(it.index() + 1));
        }
        match attempt {
            Attempt::Loaded(content) => {
                return Some(content);
            },
            _ => {},
        }
    }
    None
}

/// Takes the theme from the first file that could be loaded, else the built-in
/// one.
pub fn load_theme(attempts: Vec<Attempt<ThemeColors>>) -> (theme: ThemeColors)
    ensures
        first_loaded(attempts@) matches Some(content) ==> theme == content,
        first_loaded(attempts@) is None ==> theme@ == crate::theme::default_theme(),
{
    match take_first_loaded(attempts) {
        Some(content) => content,
        None => ThemeColors::default(),
    }
}

/// Takes the apps from the first file that could be loaded, else none.
pub fn load_apps(attempts: Vec<Attempt<Vec<AppEntry>>>) -> (apps: Vec<AppEntry>)
    ensures
        first_loaded(attempts@) matches Some(content) ==> apps == content,
        first_loaded(attempts@) is None ==> apps@.len() == 0,
{
    match take_first_loaded(attempts) {
        Some(content) => content,
        None => Vec::new(),
    }
}

/// A file that could be loaded is used exactly when none before it could be.
pub proof fn earlier_files_win<T>(attempts: Seq<Attempt<T>>, i: int)
    requires
        0 <= i < attempts.len(),
        attempts[i] is Loaded,
        forall|j: int| 0 <= j < i ==> !((#[trigger] attempts[j]) is Loaded),
    ensures
        first_loaded(attempts) == Some(attempts[i]->Loaded_0),
    decreases i,
{
    if i > 0 {
        assert(!(attempts[0] is Loaded));
        assert forall|j: int| 0 <= j < i - 1 implies !((#[trigger] attempts.skip(1)[j]) is Loaded) by {
            assert(attempts.skip(1)[j] == attempts[j + 1]);
        }
        assert(attempts.skip(1)[i - 1] == attempts[i]);
        earlier_files_win(attempts.skip(1), i - 1);
    }
}

/// Nothing is loaded exactly when no file could be.
pub proof fn nothing_is_loaded_without_a_file<T>(attempts: Seq<Attempt<T>>)
    ensures
        first_loaded(attempts) is None <==> forall|j: int|
            0 <= j < attempts.len() ==> !((#[trigger] attempts[j]) is Loaded),
    decreases attempts.len(),
{
    if attempts.len() > 0 {
        nothing_is_loaded_without_a_file(attempts.skip(1));
        let rest = attempts.skip(1);
        if first_loaded(attempts) is None {
            assert forall|j: int| 0 <= j < attempts.len() implies !((
            #[trigger] attempts[j]) is Loaded) by {
                if j > 0 {
                    assert(rest[j - 1] == attempts[j]);
                }
            }
        }
        if forall|j: int| 0 <= j < attempts.len() ==> !((#[trigger] attempts[j]) is Loaded) {
            assert(!(attempts[0] is Loaded));
            assert forall|j: int| 0 <= j < rest.len() implies !((#[trigger] rest[j]) is Loaded) by {
                assert(rest[j] == attempts[j + 1]);
            }
        }
    }
}

/// The attempts after one that loaded do not matter, so that the search can
/// stop there.
pub proof fn search_can_stop_at_the_first_file<T>(attempts: Seq<Attempt<T>>, rest: Seq<Attempt<T>>)
    requires
        first_loaded(attempts) is Some,
    ensures
        first_loaded(attempts + rest) == first_loaded(attempts),
    decreases attempts.len(),
{
    if attempts.len() > 0 {
        assert((attempts + rest)[0] == attempts[0]);
        if !(attempts[0] is Loaded) {
            search_can_stop_at_the_first_file(attempts.skip(1), rest);
            assert((attempts + rest).skip(1) == attempts.skip(1) + rest);
        }
    }
}

// ---------------------------------------------------------------------------
// The app list of the UI
// ---------------------------------------------------------------------------

/// An app as the UI shows it.
#[derive(Clone, Debug)]
pub struct AppEntryData {
    pub name: String,
    pub icon: String,
    pub command: String,
    pub url: String,
}

/// Whether `data` shows `entry`; an app without a URL has an empty one.
pub open spec fn shows(data: AppEntryData, entry: AppEntry) -> bool {
    &&& data.name@ == entry.name@
    &&& data.icon@ == entry.icon@
    &&& data.command@ == entry.command@
    &&& data.url@ == (match entry.url {
        Some(url) => url@,
        None => seq![],
    })
}

/// The apps as the UI shows them, in the order of the file.
pub fn populate_app_store(apps: &Vec<AppEntry>) -> (entries: Vec<AppEntryData>)
    ensures
        entries@.len() == apps@.len(),
        forall|i: int| 0 <= i < apps@.len() ==> shows(#[trigger] entries@[i], apps@[i]),
        forall|i: int|
            0 <= i < apps@.len() ==> {
                &&& (#[trigger] entries@[i]).name@ == apps@[i].name@
                &&& entries@[i].icon@ == apps@[i].icon@
                &&& entries@[i].command@ == apps@[i].command@
                &&& apps@[i].url matches Some(url) ==> entries@[i].url@ == url@
                &&& apps@[i].url is None ==> entries@[i].url@.len() == 0
            },
{
    let mut entries: Vec<AppEntryData> = Vec::new();
    let mut i: usize = 0;
    while i < apps.len()
        invariant
            i <= apps@.len(),
            entries@.len() == i,
            forall|k: int| 0 <= k < i ==> shows(#[trigger] entries@[k], apps@[k]),
        decreases apps@.len() - i,
    {
        let app = &apps[i];
        let url = match &app.url {
            Some(url) => url.clone(),
            None => String::new(),
        };
        entries.push(
            AppEntryData {
                name: app.name.clone(),
                icon: app.icon.clone(),
                command: app.command.clone(),
                url,
            },
        );
        i += 1;
    }
    entries
}

// ---------------------------------------------------------------------------
// Paths, piece by piece
// ---------------------------------------------------------------------------

/// A joined path is the base, one separator (the byte 47) where the base is not
/// empty and does not end with one, and the relative path.
pub proof fn joined_path_has_one_separator(base: Seq<u8>, part: Seq<u8>)
    ensures
        base.len() > 0 && base.last() != 47 ==> joined(base, part) == base + seq![47u8] + part,
        base.len() == 0 || base.last() == 47 ==> joined(base, part) == base + part,
{
    assert(base.push(47u8) == base + seq![47u8]);
}

/// The configuration directory is `flip-companion` below `$XDG_CONFIG_HOME`
/// where that is set, whatever `$HOME` is; else below `.config` in `$HOME` where
/// that is set; else there is none.
pub proof fn config_dir_prefers_the_xdg_variable(xdg: Seq<u8>, home: Seq<u8>, any: Option<Seq<u8>>)
    ensures
        config_dir(Some(xdg), any) == Some(joined(xdg, "flip-companion".spec_bytes())),
        config_dir(None, Some(home)) == Some(
            joined(joined(home, ".config".spec_bytes()), "flip-companion".spec_bytes()),
        ),
        config_dir(None, None) is None,
{
}

/// A file is looked for at the given path first where one is given, then by its
/// name in the working directory, then in the configuration directory where
/// there is one, and nowhere else.
pub proof fn files_are_looked_for_in_order(
    path: Seq<char>,
    name: Seq<char>,
    dir: Seq<u8>,
)
    ensures
        ({
            let own = vstd::utf8::encode_utf8(path);
            let plain = vstd::utf8::encode_utf8(name);
            &&& search_order(Some(path), name, Some(dir)) == seq![own, plain, joined(dir, plain)]
            &&& search_order(Some(path), name, None) == seq![own, plain]
            &&& search_order(None, name, Some(dir)) == seq![plain, joined(dir, plain)]
            &&& search_order(None, name, None) == seq![plain]
        }),
{
    let own = vstd::utf8::encode_utf8(path);
    let plain = vstd::utf8::encode_utf8(name);
    assert(search_order(Some(path), name, Some(dir)) =~= seq![own, plain, joined(dir, plain)]);
    assert(search_order(Some(path), name, None) =~= seq![own, plain]);
    assert(search_order(None, name, Some(dir)) =~= seq![plain, joined(dir, plain)]);
    assert(search_order(None, name, None) =~= seq![plain]);
}

/// The views of paths are those of each, in order, and the view of something
/// that may be missing is missing exactly where it is.
pub proof fn views_are_piece_by_piece(list: Seq<Vec<u8>>, path: Vec<u8>, text: String)
    ensures
        paths(list).len() == list.len(),
        forall|i: int| 0 <= i < list.len() ==> paths(list)[i] == (#[trigger] list[i])@,
        path_view(Some(path)) == Some(path@),
        path_view(None) is None,
        text_view(Some(text)) == Some(text@),
        text_view(None) is None,
{
}

} // verus!
