//! Decisions of the desktop shell that manages the core process.
use vstd::prelude::*;

use crate::text::{
    ascii_lower, before_first, chars_of, concat, eq_ignore_case, first_piece, has_prefix,
    lowercase, same_ignore_case, same_str, same_text, starts_with, string_from, trim, trimmed,
};

verus! {

/// An API path with surrounding whitespace removed and a leading `'/'`.
pub open spec fn normalized_path(path: Seq<char>) -> Seq<char> {
    let t = trim(path);
    if t.len() > 0 && t[0] == '/' {
        t
    } else {
        seq!['/'] + t
    }
}

/// The path with surrounding whitespace removed and a leading `'/'`.
pub fn normalize_path(path: &str) -> (r: Vec<char>)
    ensures
        r@ == normalized_path(path@),
{
    let t = trimmed(chars_of(path).as_slice());
    if t.len() > 0 && t[0] == '/' {
        t
    } else {
        let slash = chars_of("/");
        proof {
            reveal_strlit("/");
            assert(slash@ =~= seq!['/']);
        }
        concat(slash.as_slice(), t.as_slice())
    }
}

/// The path addresses the admin-token API: its route (the part before `'?'`), in ASCII
/// lowercase, is `/api/admin-token` or lies below it.
pub open spec fn admin_token_route(path: Seq<char>) -> bool {
    let route = ascii_lower(before_first(normalized_path(path), '?'));
    route == "/api/admin-token"@ || starts_with(route, "/api/admin-token/"@)
}

/// Whether a request path addresses the admin-token API, which the desktop front end
/// may not call.
pub fn is_admin_token_path(path: &str) -> (r: bool)
    ensures
        r == admin_token_route(path@),
{
    let normalized = normalize_path(path);
    let route = first_piece(normalized.as_slice(), '?');
    let lowered = lowercase(route.as_slice());
    let exact = chars_of("/api/admin-token");
    let below = chars_of("/api/admin-token/");
    same_text(lowered.as_slice(), exact.as_slice()) || has_prefix(lowered.as_slice(), below.as_slice())
}

/// The arguments that pass the desktop's secret-store choice on to the core: none without
/// a backend; `--secrets-backend <backend>`; and for the `file` backend (ASCII case
/// ignored) also `--secret-key <key>` when a key is given. Values are trimmed; empty
/// values count as absent.
pub open spec fn secret_backend_args(backend: Option<Seq<char>>, secret_key: Option<Seq<char>>) -> Seq<
    Seq<char>,
> {
    match backend {
        Some(b) => if trim(b).len() == 0 {
            Seq::empty()
        } else {
            let base = seq!["--secrets-backend"@, trim(b)];
            if eq_ignore_case(trim(b), "file"@) {
                match secret_key {
                    Some(k) => if trim(k).len() > 0 {
                        base + seq!["--secret-key"@, trim(k)]
                    } else {
                        base
                    },
                    None => base,
                }
            } else {
                base
            }
        },
        None => Seq::empty(),
    }
}

/// The core arguments for the secret-store choice, from the values of
/// `SUBFORGE_DESKTOP_SECRETS_BACKEND` and `SUBFORGE_DESKTOP_SECRET_KEY`.
pub fn desktop_secret_backend_args(backend: Option<String>, secret_key: Option<String>) -> (r: Vec<
    String,
>)
    ensures
        r.deep_view() == secret_backend_args(backend.deep_view(), secret_key.deep_view()),
{
    let mut args: Vec<String> = Vec::new();
    let ghost want = secret_backend_args(backend.deep_view(), secret_key.deep_view());
    match &backend {
        Some(b) => {
            let tb = trimmed(chars_of(b.as_str()).as_slice());
            if tb.len() > 0 {
                args.push("--secrets-backend".to_owned());
                args.push(string_from(tb.as_slice()));
                let file = chars_of("file");
                if same_ignore_case(tb.as_slice(), file.as_slice()) {
                    match &secret_key {
                        Some(k) => {
                            let tk = trimmed(chars_of(k.as_str()).as_slice());
                            if tk.len() > 0 {
                                args.push("--secret-key".to_owned());
                                args.push(string_from(tk.as_slice()));
                            }
                        },
                        None => {},
                    }
                }
            }
        },
        None => {},
    }
    assert(args.deep_view() =~= want);
    args
}

/// What the desktop shows of the core process.
#[derive(Debug)]
pub struct CoreStatusPayload {
    pub running: bool,
    pub base_url: String,
    pub version: Option<String>,
    pub pid: Option<u32>,
}

/// The status of the core from what the probes found: it runs when the authenticated
/// status call or the health call answered; the version is the first of the
/// authenticated one, the health one and the one remembered from start-up.
pub fn core_status_payload(
    base_url: String,
    pid: Option<u32>,
    remembered_version: Option<String>,
    authenticated_version: Option<String>,
    health_version: Option<String>,
) -> (r: CoreStatusPayload)
    ensures
        r.running == (authenticated_version is Some || health_version is Some),
        r.base_url@ == base_url@,
        r.pid == pid,
        r.version.deep_view() == match authenticated_version {
            Some(v) => Some(v@),
            None => match health_version {
                Some(v) => Some(v@),
                None => remembered_version.deep_view(),
            },
        },
{
    let running = authenticated_version.is_some() || health_version.is_some();
    let version = match authenticated_version {
        Some(v) => Some(v),
        None => match health_version {
            Some(v) => Some(v),
            None => remembered_version,
        },
    };
    CoreStatusPayload { running, base_url, version, pid }
}

/// Whether the admin token persisted on disk may be read into the session: only when the
/// session has none but holds the core child process and its PID. Without them the
/// process on the default port cannot be shown to be the one this shell started, and the
/// token could leak to an impostor.
pub fn may_restore_admin_token(has_token: bool, has_child: bool, has_pid: bool) -> (r: bool)
    ensures
        r == (!has_token && has_child && has_pid),
{
    !has_token && has_child && has_pid
}

/// The admin token read from the token file: its text trimmed, nothing when blank.
pub fn admin_token_from_file(text: &str) -> (r: Option<String>)
    ensures
        r.deep_view() == (if trim(text@).len() > 0 {
            Some(trim(text@))
        } else {
            None
        }),
{
    let t = trimmed(chars_of(text).as_slice());
    if t.len() > 0 {
        Some(string_from(t.as_slice()))
    } else {
        None
    }
}

/// How the core process is started.
#[derive(Debug, Clone, Copy, PartialEq, Eq, Structural)]
pub enum LaunchPlan {
    /// The debug build in the workspace's `target/debug`, with `run`.
    WorkspaceBinary,
    /// `cargo run -p subforge-core -- run` in the workspace.
    CargoRun,
    /// The bundled sidecar binary, with `run`.
    Sidecar,
}

/// How to start the core: in a debug build with a workspace, its built binary or else
/// `cargo run`; otherwise the sidecar when one was found, else `cargo run` in a
/// workspace; with neither there is nothing to start.
pub open spec fn launch_plan_of(
    debug_build: bool,
    has_workspace: bool,
    workspace_binary: bool,
    sidecar: bool,
) -> Option<LaunchPlan> {
    if debug_build && has_workspace {
        if workspace_binary {
            Some(LaunchPlan::WorkspaceBinary)
        } else {
            Some(LaunchPlan::CargoRun)
        }
    } else if sidecar {
        Some(LaunchPlan::Sidecar)
    } else if has_workspace {
        Some(LaunchPlan::CargoRun)
    } else {
        None
    }
}

/// Picks how to start the core (see [`launch_plan_of`]); the error says that neither a
/// sidecar nor a workspace is available.
pub fn choose_launch_plan(debug_build: bool, has_workspace: bool, workspace_binary: bool, sidecar: bool) -> (r:
    Result<LaunchPlan, String>)
    ensures
        match r {
            Ok(p) => launch_plan_of(debug_build, has_workspace, workspace_binary, sidecar) == Some(p),
            Err(e) => launch_plan_of(debug_build, has_workspace, workspace_binary, sidecar) is None
                && e@ == "未找到可用的 subforge-core（既无 sidecar，也无可用 workspace）"@,
        },
{
    if debug_build && has_workspace {
        if workspace_binary {
            Ok(LaunchPlan::WorkspaceBinary)
        } else {
            Ok(LaunchPlan::CargoRun)
        }
    } else if sidecar {
        Ok(LaunchPlan::Sidecar)
    } else if has_workspace {
        Ok(LaunchPlan::CargoRun)
    } else {
        Err("未找到可用的 subforge-core（既无 sidecar，也无可用 workspace）".to_owned())
    }
}

/// The file names a sidecar may have, in the order they are tried: `subforge-core`, then
/// `subforge-core-{target}`, each with `.exe` on Windows.
pub open spec fn sidecar_names(target_triple: Seq<char>, windows: bool) -> Seq<Seq<char>> {
    if windows {
        seq!["subforge-core.exe"@, "subforge-core-"@ + target_triple + ".exe"@]
    } else {
        seq!["subforge-core"@, "subforge-core-"@ + target_triple]
    }
}

/// The file names a sidecar may have (see [`sidecar_names`]).
pub fn sidecar_file_names(target_triple: &str, windows: bool) -> (r: Vec<String>)
    ensures
        r.deep_view() == sidecar_names(target_triple@, windows),
{
    let mut names: Vec<String> = Vec::new();
    let named = concat(chars_of("subforge-core-").as_slice(), chars_of(target_triple).as_slice());
    if windows {
        names.push("subforge-core.exe".to_owned());
        let with_exe = concat(named.as_slice(), chars_of(".exe").as_slice());
        names.push(string_from(with_exe.as_slice()));
    } else {
        names.push("subforge-core".to_owned());
        names.push(string_from(named.as_slice()));
    }
    assert(names.deep_view() =~= sidecar_names(target_triple@, windows));
    names
}

/// The content of the stand-in file that a development checkout ships as sidecar: the
/// ASCII text `subforge-core sidecar placeholder`.
pub open spec fn placeholder_content() -> Seq<u8> {
    seq![115u8, 117u8, 98u8, 102u8, 111u8, 114u8, 103u8, 101u8, 45u8, 99u8, 111u8, 114u8, 101u8, 32u8, 115u8, 105u8, 100u8, 101u8, 99u8, 97u8, 114u8, 32u8, 112u8, 108u8, 97u8, 99u8, 101u8, 104u8, 111u8, 108u8, 100u8, 101u8, 114u8]
}

/// Whether a sidecar file is the development stand-in: only in a debug build, when the
/// file holds exactly the placeholder text.
pub fn is_placeholder_sidecar(content: &[u8], debug_build: bool) -> (r: bool)
    ensures
        r == (debug_build && content@ == placeholder_content()),
{
    if !debug_build {
        return false;
    }
    let expected: Vec<u8> = vec![115u8, 117u8, 98u8, 102u8, 111u8, 114u8, 103u8, 101u8, 45u8, 99u8, 111u8, 114u8, 101u8, 32u8, 115u8, 105u8, 100u8, 101u8, 99u8, 97u8, 114u8, 32u8, 112u8, 108u8, 97u8, 99u8, 101u8, 104u8, 111u8, 108u8, 100u8, 101u8, 114u8];
    assert(expected@ =~= placeholder_content());
    if content.len() != expected.len() {
        return false;
    }
    let mut i: usize = 0;
    while i < content.len()
        invariant
            i <= content.len(),
            content.len() == expected@.len(),
            expected@ == placeholder_content(),
            forall|k: int| 0 <= k < i ==> content@[k] == expected@[k],
        decreases content.len() - i,
    {
        if content[i] != expected[i] {
            assert(content@[i as int] != placeholder_content()[i as int]);
            return false;
        }
        i += 1;
    }
    assert(content@ =~= expected@);
    true
}

/// What a tray menu entry does.
#[derive(Debug, Clone, Copy, PartialEq, Eq, Structural)]
pub enum TrayAction {
    OpenWindow,
    RefreshAll,
    QuitGui,
    QuitGuiAndStopCore,
    Nothing,
}

/// The action of a tray menu entry, by its id.
pub open spec fn tray_action_of(menu_id: Seq<char>) -> TrayAction {
    if menu_id == "open_window"@ {
        TrayAction::OpenWindow
    } else if menu_id == "refresh_all"@ {
        TrayAction::RefreshAll
    } else if menu_id == "quit_gui"@ {
        TrayAction::QuitGui
    } else if menu_id == "quit_gui_and_stop_core"@ {
        TrayAction::QuitGuiAndStopCore
    } else {
        TrayAction::Nothing
    }
}

/// The action of a tray menu entry (see [`tray_action_of`]).
pub fn tray_menu_action(menu_id: &str) -> (r: TrayAction)
    ensures
        r == tray_action_of(menu_id@),
{
    let id = chars_of(menu_id);
    if same_str(id.as_slice(), "open_window") {
        TrayAction::OpenWindow
    } else if same_str(id.as_slice(), "refresh_all") {
        TrayAction::RefreshAll
    } else if same_str(id.as_slice(), "quit_gui") {
        TrayAction::QuitGui
    } else if same_str(id.as_slice(), "quit_gui_and_stop_core") {
        TrayAction::QuitGuiAndStopCore
    } else {
        TrayAction::Nothing
    }
}

} // verus!
