//! Filesystem locations used by the launcher on Linux (XDG directories
//! with `AOOSTAR_*` overrides).
use vstd::prelude::*;

verus! {

/// The path `Path::new(base).join(name)` yields on the build target.
pub uninterp spec fn path_join(base: Seq<char>, name: Seq<char>) -> Seq<char>;

/// Whether `Path::new(p).is_absolute()` holds on the build target.
pub uninterp spec fn path_is_absolute(p: Seq<char>) -> bool;

/// A single plain path component: not empty, not `.` or `..`, and no `/`,
/// `\\`, `:` or `?` (so it is neither absolute nor rooted nor prefixed on
/// any platform, and no platform rewrites it).
pub open spec fn plain_component(name: Seq<char>) -> bool {
    &&& name.len() > 0
    &&& !(name.len() == 1 && name[0] == '.')
    &&& !(name.len() == 2 && name[0] == '.' && name[1] == '.')
    &&& forall|i: int|
        0 <= i < name.len() ==> #[trigger] name[i] != '/' && name[i] != '\\' && name[i] != ':'
            && name[i] != '?'
}

/// The join of `base` and `name` that keeps both texts: `base`, at most one
/// separator (`/`, or `\\` on Windows), then `name`.
pub open spec fn appended(p: Seq<char>, base: Seq<char>, name: Seq<char>) -> bool {
    ||| p == base + name
    ||| p == base + seq!['/'] + name
    ||| p == base + seq!['\\'] + name
}

/// `Path::new(base).join(name)`, as text. Claimed: the result is a function
/// of the two strings alone (the target's path rules are fixed at build
/// time), named [`path_join`]; joining two UTF-8 strings gives UTF-8, so
/// the conversion back to text loses nothing. When `name` is a plain
/// component and `base` has no `?` (so it is not a Windows verbatim
/// `\\?\` path, the only kind `PathBuf::push` normalizes), `push` keeps
/// `base`, adds a separator unless `base` is empty, ends in a separator or
/// is a bare drive prefix, and then appends `name`.
#[verifier::external_body]
pub(crate) fn join_path(base: &str, name: &str) -> (p: String)
    ensures
        p@ == path_join(base@, name@),
        plain_component(name@) && !base@.contains('?') ==> appended(p@, base@, name@),
{
    std::path::Path::new(base).join(name).to_string_lossy().into_owned()
}

/// `Path::new(p).is_absolute()`. Claimed: a function of the string alone,
/// named [`path_is_absolute`].
#[verifier::external_body]
pub(crate) fn is_absolute_path(p: &str) -> (b: bool)
    ensures
        b == path_is_absolute(p@),
{
    std::path::Path::new(p).is_absolute()
}

/// The environment values the path resolver consults (unset or empty
/// variables are `None`).
pub struct PathEnv {
    /// `HOME`
    pub home: Option<String>,
    /// The current working directory, the fallback for a missing `HOME`.
    pub current_dir: Option<String>,
    /// `AOOSTAR_ASSET_DIR`
    pub asset_dir: Option<String>,
    /// `AOOSTAR_BIN_DIR`
    pub bin_dir: Option<String>,
    /// `AOOSTAR_CONFIG_DIR`
    pub config_dir: Option<String>,
    /// `XDG_CONFIG_HOME`
    pub xdg_config_home: Option<String>,
    /// `AOOSTAR_STATE_DIR`
    pub state_dir: Option<String>,
    /// `XDG_STATE_HOME`
    pub xdg_state_home: Option<String>,
    /// `AOOSTAR_RUNTIME_DIR`
    pub runtime_dir: Option<String>,
    /// `XDG_RUNTIME_DIR`
    pub xdg_runtime_dir: Option<String>,
}

/// All filesystem locations used by the launcher.
#[derive(Clone, Debug, PartialEq, Eq)]
pub struct LauncherPaths {
    pub assets: String,
    pub binaries: String,
    pub config: String,
    pub state: String,
    pub runtime: String,
    pub logs: String,
    pub lock: String,
    pub display_state: String,
    pub stuck_file: String,
    pub sensors: String,
}

/// The text of an optional value, or `fallback`.
pub open spec fn or_text(v: Option<String>, fallback: Seq<char>) -> Seq<char> {
    match v {
        Some(s) => s@,
        None => fallback,
    }
}

/// An application directory: the explicit override, else the XDG base
/// directory joined with `aoostar-rs`, else `fallback`.
pub open spec fn app_dir(direct: Option<String>, xdg: Option<String>, fallback: Seq<char>) -> Seq<char> {
    match direct {
        Some(d) => d@,
        None => match xdg {
            Some(x) => path_join(x@, "aoostar-rs"@),
            None => fallback,
        },
    }
}

/// The home directory: `HOME`, else the current directory, else `/tmp`.
pub open spec fn home_dir(env: PathEnv) -> Seq<char> {
    or_text(env.home, or_text(env.current_dir, "/tmp"@))
}

/// The state directory.
pub open spec fn state_dir(env: PathEnv) -> Seq<char> {
    app_dir(env.state_dir, env.xdg_state_home, path_join(home_dir(env), ".local/state/aoostar-rs"@))
}

/// The runtime directory.
pub open spec fn runtime_dir(env: PathEnv) -> Seq<char> {
    app_dir(env.runtime_dir, env.xdg_runtime_dir, path_join(state_dir(env), "runtime"@))
}

fn text_or(v: &Option<String>, fallback: String) -> (s: String)
    ensures
        s@ == or_text(*v, fallback@),
{
    match v {
        Some(s) => s.clone(),
        None => fallback,
    }
}

fn resolve_app_dir(direct: &Option<String>, xdg: &Option<String>, fallback: String) -> (s: String)
    ensures
        s@ == app_dir(*direct, *xdg, fallback@),
{
    match direct {
        Some(d) => d.clone(),
        None => match xdg {
            Some(x) => join_path(x.as_str(), "aoostar-rs"),
            None => fallback,
        },
    }
}

impl LauncherPaths {
    /// Resolves all paths from environment values: an `AOOSTAR_*` override
    /// wins over the XDG base directory, which wins over the `HOME`-based
    /// default.
    pub fn from_env(env: &PathEnv) -> (p: LauncherPaths)
        ensures
            p.assets@ == or_text(env.asset_dir, "/usr/share/aoostar-rs"@),
            p.binaries@ == or_text(env.bin_dir, "/usr/lib/aoostar-rs"@),
            p.config@ == app_dir(
                env.config_dir,
                env.xdg_config_home,
                path_join(home_dir(*env), ".config/aoostar-rs"@),
            ),
            p.state@ == state_dir(*env),
            p.runtime@ == runtime_dir(*env),
            p.logs@ == path_join(state_dir(*env), "logs"@),
            p.lock@ == path_join(runtime_dir(*env), "launcher.lock"@),
            p.display_state@ == path_join(runtime_dir(*env), "display.state"@),
            p.stuck_file@ == path_join(runtime_dir(*env), "uart.stuck"@),
            p.sensors@ == path_join(runtime_dir(*env), "sensors"@),
    {
        let home = text_or(&env.home, text_or(&env.current_dir, String::from_str("/tmp")));
        let assets = text_or(&env.asset_dir, String::from_str("/usr/share/aoostar-rs"));
        let binaries = text_or(&env.bin_dir, String::from_str("/usr/lib/aoostar-rs"));
        let config = resolve_app_dir(
            &env.config_dir,
            &env.xdg_config_home,
            join_path(home.as_str(), ".config/aoostar-rs"),
        );
        let state = resolve_app_dir(
            &env.state_dir,
            &env.xdg_state_home,
            join_path(home.as_str(), ".local/state/aoostar-rs"),
        );
        let runtime = resolve_app_dir(
            &env.runtime_dir,
            &env.xdg_runtime_dir,
            join_path(state.as_str(), "runtime"),
        );
        LauncherPaths {
            logs: join_path(state.as_str(), "logs"),
            lock: join_path(runtime.as_str(), "launcher.lock"),
            display_state: join_path(runtime.as_str(), "display.state"),
            stuck_file: join_path(runtime.as_str(), "uart.stuck"),
            sensors: join_path(runtime.as_str(), "sensors"),
            assets,
            binaries,
            config,
            state,
            runtime,
        }
    }

    /// The panel configuration directory inside the assets.
    pub fn assets_cfg(&self) -> (p: String)
        ensures
            p@ == path_join(self.assets@, "cfg"@),
    {
        join_path(self.assets.as_str(), "cfg")
    }

    /// The font directory inside the assets.
    pub fn fonts(&self) -> (p: String)
        ensures
            p@ == path_join(self.assets@, "fonts"@),
    {
        join_path(self.assets.as_str(), "fonts")
    }

    /// The launcher's own `launcher.toml`.
    pub fn launcher_config(&self) -> (p: String)
        ensures
            p@ == path_join(self.config@, "launcher.toml"@),
    {
        join_path(self.config.as_str(), "launcher.toml")
    }

    /// The launcher's log file.
    pub fn launcher_log(&self) -> (p: String)
        ensures
            p@ == path_join(self.logs@, "launcher.log"@),
    {
        join_path(self.logs.as_str(), "launcher.log")
    }

    /// The monitor configuration `name`: kept as is when absolute, else
    /// looked up in the assets' configuration directory.
    pub fn monitor_config(&self, name: &str) -> (p: String)
        ensures
            path_is_absolute(name@) ==> p@ == name@,
            !path_is_absolute(name@) ==> p@ == path_join(path_join(self.assets@, "cfg"@), name@),
    {
        if is_absolute_path(name) {
            String::from_str(name)
        } else {
            let cfg = self.assets_cfg();
            join_path(cfg.as_str(), name)
        }
    }
}

} // verus!
