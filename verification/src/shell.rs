//! Shell activation scripts, hook output and the runtime path layout.
use std::collections::hash_map::DefaultHasher;
use std::hash::Hasher;
use vstd::prelude::*;
use vstd::std_specs::hash::DefaultHasherAdditionalSpecFns;
use vstd::string::StringSliceAdditionalSpecFns;

use crate::external::{json_quote, json_string_literal};
use crate::model::EnvKey;
use crate::paths::{join_path, path_join};
use crate::text::{
    chars_of, contains_seq, copy_str, occurs_at, join, join_seq, keep_non_empty, non_empty_pieces, push_char,
    split_chars, split_seq, str_eq, CharClass,
};

verus! {

broadcast use vstd::string::group_string_axioms;

/// Errors returned by shell utilities.
#[derive(Debug, Clone, PartialEq, Eq)]
pub enum ShellError {
    /// An I/O operation failed, with its message.
    Io(String),
    /// The shell name is unsupported.
    UnknownShell(String),
}

/// The human readable message of a shell error.
pub open spec fn shell_error_text(e: ShellError) -> Seq<char> {
    match e {
        ShellError::Io(text) => text@,
        ShellError::UnknownShell(name) => "unknown shell: "@ + name@,
    }
}

impl ShellError {
    /// The human readable message of the error.
    pub fn message(&self) -> (m: String)
        ensures
            m@ == shell_error_text(*self),
    {
        match self {
            ShellError::Io(text) => text.clone(),
            ShellError::UnknownShell(name) => {
                let mut m = copy_str("unknown shell: ");
                m.append(name.as_str());
                m
            },
        }
    }
}

/// Supported interactive shells.
#[derive(Debug, Clone, Copy, PartialEq, Eq, Structural)]
pub enum ShellKind {
    /// POSIX bash shell.
    Bash,
    /// Z shell.
    Zsh,
    /// Fish shell.
    Fish,
    /// Nushell.
    Nushell,
    /// PowerShell.
    Pwsh,
    /// Clink on Windows CMD.
    Clink,
}

/// The shell that a CLI name selects, if any.
pub open spec fn shell_named(input: Seq<char>) -> Option<ShellKind> {
    if input == "bash"@ {
        Some(ShellKind::Bash)
    } else if input == "zsh"@ {
        Some(ShellKind::Zsh)
    } else if input == "fish"@ {
        Some(ShellKind::Fish)
    } else if input == "nushell"@ {
        Some(ShellKind::Nushell)
    } else if input == "pwsh"@ || input == "powershell"@ {
        Some(ShellKind::Pwsh)
    } else if input == "clink"@ {
        Some(ShellKind::Clink)
    } else {
        None
    }
}

impl ShellKind {
    /// Parses a shell kind from a CLI string.
    pub fn parse(input: &str) -> (r: Result<ShellKind, ShellError>)
        ensures
            match shell_named(input@) {
                Some(kind) => r == Ok::<ShellKind, ShellError>(kind),
                None => r is Err && r->Err_0 is UnknownShell && r->Err_0->UnknownShell_0@
                    == input@,
            },
    {
        if str_eq(input, "bash") {
            Ok(ShellKind::Bash)
        } else if str_eq(input, "zsh") {
            Ok(ShellKind::Zsh)
        } else if str_eq(input, "fish") {
            Ok(ShellKind::Fish)
        } else if str_eq(input, "nushell") {
            Ok(ShellKind::Nushell)
        } else if str_eq(input, "pwsh") || str_eq(input, "powershell") {
            Ok(ShellKind::Pwsh)
        } else if str_eq(input, "clink") {
            Ok(ShellKind::Clink)
        } else {
            Err(ShellError::UnknownShell(copy_str(input)))
        }
    }
}

/// The activation script installed for each shell.
pub open spec fn activation_script(shell: ShellKind) -> Seq<char> {
    match shell {
        ShellKind::Bash => r#"export VS_SESSION_ID="${VS_SESSION_ID:-$$}"
export __VS_ORIG_PATH="${__VS_ORIG_PATH:-$PATH}"
vs_activate() {
  eval "$(vs __hook-env bash)"
}
PROMPT_COMMAND="vs_activate${PROMPT_COMMAND:+;$PROMPT_COMMAND}"
trap 'vs __cleanup-session 2>/dev/null' EXIT
"#@,
        ShellKind::Zsh => r#"export VS_SESSION_ID="${VS_SESSION_ID:-$$}"
export __VS_ORIG_PATH="${__VS_ORIG_PATH:-$PATH}"
vs_activate() {
  eval "$(vs __hook-env zsh)"
}
autoload -U add-zsh-hook
add-zsh-hook chpwd vs_activate
precmd_functions+=(vs_activate)
trap 'vs __cleanup-session 2>/dev/null' EXIT
"#@,
        ShellKind::Fish => r#"if not set -q VS_SESSION_ID
    set -gx VS_SESSION_ID $fish_pid
end
if not set -q __VS_ORIG_PATH
    set -gx __VS_ORIG_PATH $PATH
end
function __vs_activate --on-variable PWD
    eval (vs __hook-env fish)
end
function __vs_cleanup --on-event fish_exit
    vs __cleanup-session 2>/dev/null
end
__vs_activate
"#@,
        ShellKind::Nushell => r#"$env.VS_SESSION_ID = ($env.VS_SESSION_ID? | default $"(sys host | get pid)")
$env.__VS_ORIG_PATH = ($env.__VS_ORIG_PATH? | default $env.PATH)
def --env __vs_activate [] {
  vs __hook-env nushell | lines | each {|line| load-env ($line | from json) }
}
__vs_activate
"#@,
        ShellKind::Pwsh => r#"$env:VS_SESSION_ID = if ($env:VS_SESSION_ID) { $env:VS_SESSION_ID } else { $PID.ToString() }
if (-not $env:__VS_ORIG_PATH) { $env:__VS_ORIG_PATH = $env:PATH }
function global:Invoke-VsActivate {
  Invoke-Expression (& vs __hook-env pwsh)
}
Register-EngineEvent PowerShell.Exiting -Action {
  & vs __cleanup-session 2>$null
}
Invoke-VsActivate
"#@,
        ShellKind::Clink => r#"set VS_SESSION_ID=%VS_SESSION_ID%
if "%VS_SESSION_ID%"=="" set VS_SESSION_ID=%RANDOM%
if "%__VS_ORIG_PATH%"=="" set __VS_ORIG_PATH=%PATH%
for /f "delims=" %%i in ('vs __hook-env clink') do %%i
"#@,
    }
}

proof fn lemma_bash_script_registers_hook()
    ensures
        contains_seq(activation_script(ShellKind::Bash), "vs __hook-env bash"@),
        contains_seq(activation_script(ShellKind::Bash), "PROMPT_COMMAND=\"vs_activate"@),
{
    let s = activation_script(ShellKind::Bash);
    reveal_strlit(r#"export VS_SESSION_ID="${VS_SESSION_ID:-$$}"
export __VS_ORIG_PATH="${__VS_ORIG_PATH:-$PATH}"
vs_activate() {
  eval "$(vs __hook-env bash)"
}
PROMPT_COMMAND="vs_activate${PROMPT_COMMAND:+;$PROMPT_COMMAND}"
trap 'vs __cleanup-session 2>/dev/null' EXIT
"#);
    reveal_strlit("vs __hook-env bash");
    assert(s.subrange(119, 137) =~= "vs __hook-env bash"@);
    assert(occurs_at(s, "vs __hook-env bash"@, 119));
    reveal_strlit("PROMPT_COMMAND=\"vs_activate");
    assert(s.subrange(142, 169) =~= "PROMPT_COMMAND=\"vs_activate"@);
    assert(occurs_at(s, "PROMPT_COMMAND=\"vs_activate"@, 142));
}

proof fn lemma_zsh_script_registers_hook()
    ensures
        contains_seq(activation_script(ShellKind::Zsh), "vs __hook-env zsh"@),
        contains_seq(activation_script(ShellKind::Zsh), "precmd_functions+=(vs_activate)"@),
        contains_seq(activation_script(ShellKind::Zsh), "add-zsh-hook chpwd vs_activate"@),
{
    let s = activation_script(ShellKind::Zsh);
    reveal_strlit(r#"export VS_SESSION_ID="${VS_SESSION_ID:-$$}"
export __VS_ORIG_PATH="${__VS_ORIG_PATH:-$PATH}"
vs_activate() {
  eval "$(vs __hook-env zsh)"
}
autoload -U add-zsh-hook
add-zsh-hook chpwd vs_activate
precmd_functions+=(vs_activate)
trap 'vs __cleanup-session 2>/dev/null' EXIT
"#);
    reveal_strlit("vs __hook-env zsh");
    assert(s.subrange(119, 136) =~= "vs __hook-env zsh"@);
    assert(occurs_at(s, "vs __hook-env zsh"@, 119));
    reveal_strlit("precmd_functions+=(vs_activate)");
    assert(s.subrange(197, 228) =~= "precmd_functions+=(vs_activate)"@);
    assert(occurs_at(s, "precmd_functions+=(vs_activate)"@, 197));
    reveal_strlit("add-zsh-hook chpwd vs_activate");
    assert(s.subrange(166, 196) =~= "add-zsh-hook chpwd vs_activate"@);
    assert(occurs_at(s, "add-zsh-hook chpwd vs_activate"@, 166));
}

proof fn lemma_fish_script_registers_hook()
    ensures
        contains_seq(activation_script(ShellKind::Fish), "vs __hook-env fish"@),
        contains_seq(activation_script(ShellKind::Fish), "function __vs_activate --on-variable PWD"@),
        contains_seq(activation_script(ShellKind::Fish), "\n__vs_activate\n"@),
{
    let s = activation_script(ShellKind::Fish);
    reveal_strlit(r#"if not set -q VS_SESSION_ID
    set -gx VS_SESSION_ID $fish_pid
end
if not set -q __VS_ORIG_PATH
    set -gx __VS_ORIG_PATH $PATH
end
function __vs_activate --on-variable PWD
    eval (vs __hook-env fish)
end
function __vs_cleanup --on-event fish_exit
    vs __cleanup-session 2>/dev/null
end
__vs_activate
"#);
    reveal_strlit("vs __hook-env fish");
    assert(s.subrange(185, 203) =~= "vs __hook-env fish"@);
    assert(occurs_at(s, "vs __hook-env fish"@, 185));
    reveal_strlit("function __vs_activate --on-variable PWD");
    assert(s.subrange(134, 174) =~= "function __vs_activate --on-variable PWD"@);
    assert(occurs_at(s, "function __vs_activate --on-variable PWD"@, 134));
    reveal_strlit("\n__vs_activate\n");
    assert(s.subrange(292, 307) =~= "\n__vs_activate\n"@);
    assert(occurs_at(s, "\n__vs_activate\n"@, 292));
}

proof fn lemma_nushell_script_registers_hook()
    ensures
        contains_seq(activation_script(ShellKind::Nushell), "vs __hook-env nushell"@),
        contains_seq(activation_script(ShellKind::Nushell), "\n__vs_activate\n"@),
{
    let s = activation_script(ShellKind::Nushell);
    reveal_strlit(r#"$env.VS_SESSION_ID = ($env.VS_SESSION_ID? | default $"(sys host | get pid)")
$env.__VS_ORIG_PATH = ($env.__VS_ORIG_PATH? | default $env.PATH)
def --env __vs_activate [] {
  vs __hook-env nushell | lines | each {|line| load-env ($line | from json) }
}
__vs_activate
"#);
    reveal_strlit("vs __hook-env nushell");
    assert(s.subrange(173, 194) =~= "vs __hook-env nushell"@);
    assert(occurs_at(s, "vs __hook-env nushell"@, 173));
    reveal_strlit("\n__vs_activate\n");
    assert(s.subrange(250, 265) =~= "\n__vs_activate\n"@);
    assert(occurs_at(s, "\n__vs_activate\n"@, 250));
}

proof fn lemma_pwsh_script_registers_hook()
    ensures
        contains_seq(activation_script(ShellKind::Pwsh), "vs __hook-env pwsh"@),
        contains_seq(activation_script(ShellKind::Pwsh), "\nInvoke-VsActivate\n"@),
{
    let s = activation_script(ShellKind::Pwsh);
    reveal_strlit(r#"$env:VS_SESSION_ID = if ($env:VS_SESSION_ID) { $env:VS_SESSION_ID } else { $PID.ToString() }
if (-not $env:__VS_ORIG_PATH) { $env:__VS_ORIG_PATH = $env:PATH }
function global:Invoke-VsActivate {
  Invoke-Expression (& vs __hook-env pwsh)
}
Register-EngineEvent PowerShell.Exiting -Action {
  & vs __cleanup-session 2>$null
}
Invoke-VsActivate
"#);
    reveal_strlit("vs __hook-env pwsh");
    assert(s.subrange(218, 236) =~= "vs __hook-env pwsh"@);
    assert(occurs_at(s, "vs __hook-env pwsh"@, 218));
    reveal_strlit("\nInvoke-VsActivate\n");
    assert(s.subrange(324, 343) =~= "\nInvoke-VsActivate\n"@);
    assert(occurs_at(s, "\nInvoke-VsActivate\n"@, 324));
}

proof fn lemma_clink_script_registers_hook()
    ensures
        contains_seq(activation_script(ShellKind::Clink), "vs __hook-env clink"@),
        contains_seq(activation_script(ShellKind::Clink), "for /f \"delims=\" %%i in ('vs __hook-env clink') do %%i"@),
{
    let s = activation_script(ShellKind::Clink);
    reveal_strlit(r#"set VS_SESSION_ID=%VS_SESSION_ID%
if "%VS_SESSION_ID%"=="" set VS_SESSION_ID=%RANDOM%
if "%__VS_ORIG_PATH%"=="" set __VS_ORIG_PATH=%PATH%
for /f "delims=" %%i in ('vs __hook-env clink') do %%i
"#);
    reveal_strlit("vs __hook-env clink");
    assert(s.subrange(164, 183) =~= "vs __hook-env clink"@);
    assert(occurs_at(s, "vs __hook-env clink"@, 164));
    reveal_strlit("for /f \"delims=\" %%i in ('vs __hook-env clink') do %%i");
    assert(s.subrange(138, 192) =~= "for /f \"delims=\" %%i in ('vs __hook-env clink') do %%i"@);
    assert(occurs_at(s, "for /f \"delims=\" %%i in ('vs __hook-env clink') do %%i"@, 138));
}

/// Every activation script both defines the hook that evaluates `vs __hook-env` for
/// its shell and makes the shell run it: bash through `PROMPT_COMMAND`, zsh through
/// its `chpwd` hook and `precmd_functions`, fish on every change of directory and
/// once at start, nushell and PowerShell by calling it at start, clink by running
/// the hook's output directly.
pub proof fn law_activation_registers_hook()
    ensures
        contains_seq(activation_script(ShellKind::Bash), "vs __hook-env bash"@),
        contains_seq(activation_script(ShellKind::Bash), "PROMPT_COMMAND=\"vs_activate"@),
        contains_seq(activation_script(ShellKind::Zsh), "vs __hook-env zsh"@),
        contains_seq(activation_script(ShellKind::Zsh), "precmd_functions+=(vs_activate)"@),
        contains_seq(activation_script(ShellKind::Zsh), "add-zsh-hook chpwd vs_activate"@),
        contains_seq(activation_script(ShellKind::Fish), "vs __hook-env fish"@),
        contains_seq(activation_script(ShellKind::Fish), "function __vs_activate --on-variable PWD"@),
        contains_seq(activation_script(ShellKind::Fish), "\n__vs_activate\n"@),
        contains_seq(activation_script(ShellKind::Nushell), "vs __hook-env nushell"@),
        contains_seq(activation_script(ShellKind::Nushell), "\n__vs_activate\n"@),
        contains_seq(activation_script(ShellKind::Pwsh), "vs __hook-env pwsh"@),
        contains_seq(activation_script(ShellKind::Pwsh), "\nInvoke-VsActivate\n"@),
        contains_seq(activation_script(ShellKind::Clink), "vs __hook-env clink"@),
        contains_seq(activation_script(ShellKind::Clink), "for /f \"delims=\" %%i in ('vs __hook-env clink') do %%i"@),
{
    lemma_bash_script_registers_hook();
    lemma_zsh_script_registers_hook();
    lemma_fish_script_registers_hook();
    lemma_nushell_script_registers_hook();
    lemma_pwsh_script_registers_hook();
    lemma_clink_script_registers_hook();
}

/// Renders the activation script for a shell.
pub fn render_activation(shell: ShellKind) -> (script: String)
    ensures
        script@ == activation_script(shell),
{
    match shell {
        ShellKind::Bash => copy_str(r#"export VS_SESSION_ID="${VS_SESSION_ID:-$$}"
export __VS_ORIG_PATH="${__VS_ORIG_PATH:-$PATH}"
vs_activate() {
  eval "$(vs __hook-env bash)"
}
PROMPT_COMMAND="vs_activate${PROMPT_COMMAND:+;$PROMPT_COMMAND}"
trap 'vs __cleanup-session 2>/dev/null' EXIT
"#),
        ShellKind::Zsh => copy_str(r#"export VS_SESSION_ID="${VS_SESSION_ID:-$$}"
export __VS_ORIG_PATH="${__VS_ORIG_PATH:-$PATH}"
vs_activate() {
  eval "$(vs __hook-env zsh)"
}
autoload -U add-zsh-hook
add-zsh-hook chpwd vs_activate
precmd_functions+=(vs_activate)
trap 'vs __cleanup-session 2>/dev/null' EXIT
"#),
        ShellKind::Fish => copy_str(r#"if not set -q VS_SESSION_ID
    set -gx VS_SESSION_ID $fish_pid
end
if not set -q __VS_ORIG_PATH
    set -gx __VS_ORIG_PATH $PATH
end
function __vs_activate --on-variable PWD
    eval (vs __hook-env fish)
end
function __vs_cleanup --on-event fish_exit
    vs __cleanup-session 2>/dev/null
end
__vs_activate
"#),
        ShellKind::Nushell => copy_str(r#"$env.VS_SESSION_ID = ($env.VS_SESSION_ID? | default $"(sys host | get pid)")
$env.__VS_ORIG_PATH = ($env.__VS_ORIG_PATH? | default $env.PATH)
def --env __vs_activate [] {
  vs __hook-env nushell | lines | each {|line| load-env ($line | from json) }
}
__vs_activate
"#),
        ShellKind::Pwsh => copy_str(r#"$env:VS_SESSION_ID = if ($env:VS_SESSION_ID) { $env:VS_SESSION_ID } else { $PID.ToString() }
if (-not $env:__VS_ORIG_PATH) { $env:__VS_ORIG_PATH = $env:PATH }
function global:Invoke-VsActivate {
  Invoke-Expression (& vs __hook-env pwsh)
}
Register-EngineEvent PowerShell.Exiting -Action {
  & vs __cleanup-session 2>$null
}
Invoke-VsActivate
"#),
        ShellKind::Clink => copy_str(r#"set VS_SESSION_ID=%VS_SESSION_ID%
if "%VS_SESSION_ID%"=="" set VS_SESSION_ID=%RANDOM%
if "%__VS_ORIG_PATH%"=="" set __VS_ORIG_PATH=%PATH%
for /f "delims=" %%i in ('vs __hook-env clink') do %%i
"#),
    }
}

// ---------------------------------------------------------------------------
// Environment deltas
// ---------------------------------------------------------------------------

/// Environment changes emitted by `vs`.
#[derive(Debug, Clone)]
pub struct EnvDelta {
    /// Environment variables to export.
    pub vars: Vec<(String, String)>,
    /// Additional PATH entries to prepend.
    pub path_entries: Vec<String>,
}

impl Default for EnvDelta {
    fn default() -> (d: Self)
        ensures
            d.vars@.len() == 0,
            d.path_entries@.len() == 0,
    {
        EnvDelta { vars: Vec::new(), path_entries: Vec::new() }
    }
}

impl EnvDelta {
    /// Adds a variable export to the delta.
    pub fn with_var(self, key: &str, value: &str) -> (d: Self)
        ensures
            d.vars.deep_view() == self.vars.deep_view().push((key@, value@)),
            d.path_entries.deep_view() == self.path_entries.deep_view(),
    {
        let mut d = self;
        d.vars.push((copy_str(key), copy_str(value)));
        d
    }

    /// Adds a PATH entry to the delta.
    pub fn with_path(self, value: &str) -> (d: Self)
        ensures
            d.path_entries.deep_view() == self.path_entries.deep_view().push(value@),
            d.vars.deep_view() == self.vars.deep_view(),
    {
        let mut d = self;
        d.path_entries.push(copy_str(value));
        d
    }
}

/// Folds plugin env keys into a delta: `PATH` values become PATH entries, the
/// others become variable exports, in order.
pub open spec fn apply_env_keys_spec(
    vars: Seq<(Seq<char>, Seq<char>)>,
    paths: Seq<Seq<char>>,
    keys: Seq<(Seq<char>, Seq<char>)>,
) -> (Seq<(Seq<char>, Seq<char>)>, Seq<Seq<char>>)
    decreases keys.len(),
{
    if keys.len() == 0 {
        (vars, paths)
    } else {
        let (v, p) = apply_env_keys_spec(vars, paths, keys.drop_last());
        if keys.last().0 == "PATH"@ {
            (v, p.push(keys.last().1))
        } else {
            (v.push(keys.last()), p)
        }
    }
}

pub open spec fn env_key_pairs(keys: Seq<EnvKey>) -> Seq<(Seq<char>, Seq<char>)> {
    keys.map_values(|k: EnvKey| (k.key@, k.value@))
}

/// Applies plugin env keys to a delta: `PATH` keys prepend a path entry, others
/// export a variable.
pub fn apply_env_keys(delta: &mut EnvDelta, env_keys: Vec<EnvKey>)
    ensures
        (final(delta).vars.deep_view(), final(delta).path_entries.deep_view())
            == apply_env_keys_spec(
            old(delta).vars.deep_view(),
            old(delta).path_entries.deep_view(),
            env_key_pairs(env_keys@),
        ),
{
    let mut i: usize = 0;
    while i < env_keys.len()
        invariant
            i <= env_keys@.len(),
            (delta.vars.deep_view(), delta.path_entries.deep_view()) == apply_env_keys_spec(
                old(delta).vars.deep_view(),
                old(delta).path_entries.deep_view(),
                env_key_pairs(env_keys@).take(i as int),
            ),
        decreases env_keys@.len() - i,
    {
        let ghost pairs = env_key_pairs(env_keys@);
        assert(pairs.take(i + 1).drop_last() =~= pairs.take(i as int));
        assert(pairs.take(i + 1).last() == pairs[i as int]);
        let key = env_keys[i].key.clone();
        let value = env_keys[i].value.clone();
        if str_eq(key.as_str(), "PATH") {
            delta.path_entries.push(value);
        } else {
            delta.vars.push((key, value));
        }
        assert(delta.vars.deep_view() =~= apply_env_keys_spec(
            old(delta).vars.deep_view(),
            old(delta).path_entries.deep_view(),
            pairs.take(i + 1),
        ).0);
        assert(delta.path_entries.deep_view() =~= apply_env_keys_spec(
            old(delta).vars.deep_view(),
            old(delta).path_entries.deep_view(),
            pairs.take(i + 1),
        ).1);
        i += 1;
    }
    assert(env_key_pairs(env_keys@).take(env_keys@.len() as int) =~= env_key_pairs(env_keys@));
}

// ---------------------------------------------------------------------------
// Home layout
// ---------------------------------------------------------------------------

/// Common filesystem paths used by `vs`.
#[derive(Debug, Clone)]
pub struct HomePaths {
    /// Root home directory.
    pub home: String,
    /// Registry state directory.
    pub registry_dir: String,
    /// Installed plugin metadata directory.
    pub plugins_dir: String,
    /// Installed runtime cache directory.
    pub cache_dir: String,
    /// Global shim directory.
    pub shims_dir: String,
    /// Session state directory.
    pub sessions_dir: String,
    /// Global scope state directory.
    pub global_dir: String,
}

/// Returns the canonical home layout.
pub fn home_paths(home: &str) -> (p: HomePaths)
    ensures
        p.home@ == home@,
        p.registry_dir@ == path_join(home@, "registry"@),
        p.plugins_dir@ == path_join(home@, "plugins"@),
        p.cache_dir@ == path_join(home@, "cache"@),
        p.shims_dir@ == path_join(home@, "shims"@),
        p.sessions_dir@ == path_join(home@, "sessions"@),
        p.global_dir@ == path_join(home@, "global"@),
{
    HomePaths {
        home: copy_str(home),
        registry_dir: join_path(home, "registry"),
        plugins_dir: join_path(home, "plugins"),
        cache_dir: join_path(home, "cache"),
        shims_dir: join_path(home, "shims"),
        sessions_dir: join_path(home, "sessions"),
        global_dir: join_path(home, "global"),
    }
}

/// `home/cache/<plugin>/versions/<version>`.
pub open spec fn install_dir_spec(home: Seq<char>, plugin: Seq<char>, version: Seq<char>) -> Seq<
    char,
> {
    path_join(path_join(path_join(path_join(home, "cache"@), plugin), "versions"@), version)
}

/// Returns the directory where a plugin version is installed.
pub fn install_dir(home: &str, plugin: &str, version: &str) -> (p: String)
    ensures
        p@ == install_dir_spec(home@, plugin@, version@),
{
    let a = join_path(home, "cache");
    let b = join_path(a.as_str(), plugin);
    let c = join_path(b.as_str(), "versions");
    join_path(c.as_str(), version)
}

/// Returns the global `current` directory path for a plugin.
pub fn global_current_dir(home: &str, plugin: &str) -> (p: String)
    ensures
        p@ == path_join(path_join(path_join(home@, "cache"@), plugin@), "current"@),
{
    let a = join_path(home, "cache");
    let b = join_path(a.as_str(), plugin);
    join_path(b.as_str(), "current")
}

/// Returns the project-local SDK link directory.
pub fn project_sdk_dir(project_root: &str, plugin: &str) -> (p: String)
    ensures
        p@ == path_join(path_join(path_join(project_root@, ".vs"@), "sdks"@), plugin@),
{
    let a = join_path(project_root, ".vs");
    let b = join_path(a.as_str(), "sdks");
    join_path(b.as_str(), plugin)
}

/// Returns the default binary directory inside an installed runtime.
pub fn bin_dir(install_dir: &str) -> (p: String)
    ensures
        p@ == path_join(install_dir@, "bin"@),
{
    join_path(install_dir, "bin")
}

// ---------------------------------------------------------------------------
// Hook output
// ---------------------------------------------------------------------------

/// Every occurrence of `c` in `s` replaced by `r`.
pub open spec fn replace_char_seq(s: Seq<char>, c: char, r: Seq<char>) -> Seq<char>
    decreases s.len(),
{
    if s.len() == 0 {
        Seq::empty()
    } else {
        replace_char_seq(s.drop_last(), c, r) + (if s.last() == c {
            r
        } else {
            seq![s.last()]
        })
    }
}

/// `str::replace` with a character pattern.
pub fn replace_char(s: &str, c: char, r: &str) -> (out: String)
    ensures
        out@ == replace_char_seq(s@, c, r@),
{
    let v = chars_of(s);
    let mut out = String::new();
    let mut i: usize = 0;
    while i < v.len()
        invariant
            i <= v@.len(),
            v@ == s@,
            out@ == replace_char_seq(v@.take(i as int), c, r@),
        decreases v@.len() - i,
    {
        assert(v@.take(i + 1).drop_last() =~= v@.take(i as int));
        if v[i] == c {
            out.append(r);
        } else {
            push_char(&mut out, v[i]);
        }
        assert(out@ =~= replace_char_seq(v@.take(i + 1), c, r@));
        i += 1;
    }
    assert(v@.take(v@.len() as int) =~= v@);
    out
}

/// How a shell quotes a value between single quotes.
pub open spec fn shell_escape(shell: ShellKind, v: Seq<char>) -> Seq<char> {
    match shell {
        ShellKind::Bash | ShellKind::Zsh => replace_char_seq(v, '\'', "'\"'\"'"@),
        ShellKind::Fish => replace_char_seq(v, '\'', "\\'"@),
        ShellKind::Pwsh => replace_char_seq(v, '\'', "''"@),
        _ => v,
    }
}

/// A one-entry JSON object `{"name":"value"}` as serde_json renders it.
pub open spec fn json_entry(name: Seq<char>, value: Seq<char>) -> Seq<char> {
    "{"@ + json_string_literal(name) + ":"@ + json_string_literal(value) + "}"@
}

/// The line that sets variable `name` to `value` (escaped when `escape`).
pub open spec fn assign_line(shell: ShellKind, name: Seq<char>, value: Seq<char>, escape: bool) -> Seq<
    char,
> {
    let v = if escape {
        shell_escape(shell, value)
    } else {
        value
    };
    match shell {
        ShellKind::Bash | ShellKind::Zsh => "export "@ + name + "='"@ + v + "'"@,
        ShellKind::Fish => "set -gx "@ + name + " '"@ + v + "'"@,
        ShellKind::Nushell => json_entry(name, value),
        ShellKind::Pwsh => "$env:"@ + name + " = '"@ + v + "'"@,
        ShellKind::Clink => "set "@ + name + "="@ + value,
    }
}

/// The line that unsets variable `name`.
pub open spec fn unset_line(shell: ShellKind, name: Seq<char>) -> Seq<char> {
    match shell {
        ShellKind::Bash | ShellKind::Zsh => "unset "@ + name,
        ShellKind::Fish => "set -e "@ + name,
        ShellKind::Nushell => json_entry("__VS_UNSET"@, name),
        ShellKind::Pwsh => "Remove-Item Env:\\"@ + name + " -ErrorAction SilentlyContinue"@,
        ShellKind::Clink => "set "@ + name + "="@,
    }
}

/// The keys of `prev` that `keys` no longer holds, in order.
pub open spec fn stale_keys(prev: Seq<Seq<char>>, keys: Seq<Seq<char>>) -> Seq<Seq<char>>
    decreases prev.len(),
{
    if prev.len() == 0 {
        Seq::empty()
    } else if keys.contains(prev.last()) {
        stale_keys(prev.drop_last(), keys)
    } else {
        stale_keys(prev.drop_last(), keys).push(prev.last())
    }
}

pub open spec fn pair_keys(vars: Seq<(Seq<char>, Seq<char>)>) -> Seq<Seq<char>> {
    vars.map_values(|p: (Seq<char>, Seq<char>)| p.0)
}

/// The lines emitted by the shell hook.
pub open spec fn env_lines(
    shell: ShellKind,
    orig_needs_export: bool,
    orig_path: Seq<char>,
    prev_keys: Seq<Seq<char>>,
    vars: Seq<(Seq<char>, Seq<char>)>,
    path_value: Seq<char>,
    state_hash: Seq<char>,
) -> Seq<Seq<char>> {
    let keys = pair_keys(vars);
    (if orig_needs_export {
        seq![assign_line(shell, "__VS_ORIG_PATH"@, orig_path, true)]
    } else {
        Seq::empty()
    }) + stale_keys(prev_keys, keys).map_values(|k: Seq<char>| unset_line(shell, k))
        + vars.map_values(|p: (Seq<char>, Seq<char>)| assign_line(shell, p.0, p.1, true)) + seq![
        assign_line(shell, "PATH"@, path_value, true),
        assign_line(shell, "__VS_VARS"@, join_seq(keys, ":"@), false),
        assign_line(shell, "__VS_STATE_HASH"@, state_hash, false),
    ]
}

fn json_entry_line(name: &str, value: &str) -> (line: String)
    ensures
        line@ == json_entry(name@, value@),
{
    let mut line = copy_str("{");
    let n = json_quote(name);
    line.append(n.as_str());
    line.append(":");
    let v = json_quote(value);
    line.append(v.as_str());
    line.append("}");
    line
}

fn assign_line_exec(shell: ShellKind, name: &str, value: &str, escape: bool) -> (line: String)
    ensures
        line@ == assign_line(shell, name@, value@, escape),
{
    let quoted = if escape {
        match shell {
            ShellKind::Bash | ShellKind::Zsh => replace_char(value, '\'', "'\"'\"'"),
            ShellKind::Fish => replace_char(value, '\'', "\\'"),
            ShellKind::Pwsh => replace_char(value, '\'', "''"),
            _ => copy_str(value),
        }
    } else {
        copy_str(value)
    };
    match shell {
        ShellKind::Bash | ShellKind::Zsh => {
            let mut line = copy_str("export ");
            line.append(name);
            line.append("='");
            line.append(quoted.as_str());
            line.append("'");
            line
        },
        ShellKind::Fish => {
            let mut line = copy_str("set -gx ");
            line.append(name);
            line.append(" '");
            line.append(quoted.as_str());
            line.append("'");
            line
        },
        ShellKind::Nushell => json_entry_line(name, value),
        ShellKind::Pwsh => {
            let mut line = copy_str("$env:");
            line.append(name);
            line.append(" = '");
            line.append(quoted.as_str());
            line.append("'");
            line
        },
        ShellKind::Clink => {
            let mut line = copy_str("set ");
            line.append(name);
            line.append("=");
            line.append(value);
            line
        },
    }
}

fn unset_line_exec(shell: ShellKind, name: &str) -> (line: String)
    ensures
        line@ == unset_line(shell, name@),
{
    match shell {
        ShellKind::Bash | ShellKind::Zsh => {
            let mut line = copy_str("unset ");
            line.append(name);
            line
        },
        ShellKind::Fish => {
            let mut line = copy_str("set -e ");
            line.append(name);
            line
        },
        ShellKind::Nushell => json_entry_line("__VS_UNSET", name),
        ShellKind::Pwsh => {
            let mut line = copy_str("Remove-Item Env:\\");
            line.append(name);
            line.append(" -ErrorAction SilentlyContinue");
            line
        },
        ShellKind::Clink => {
            let mut line = copy_str("set ");
            line.append(name);
            line.append("=");
            line
        },
    }
}

/// Whether `v` holds a string equal to `s`.
pub fn contains_string(v: &Vec<String>, s: &str) -> (r: bool)
    ensures
        r == v.deep_view().contains(s@),
{
    let mut i: usize = 0;
    while i < v.len()
        invariant
            i <= v@.len(),
            forall|j: int| 0 <= j < i ==> v.deep_view()[j] != s@,
        decreases v@.len() - i,
    {
        if str_eq(v[i].as_str(), s) {
            assert(v.deep_view()[i as int] == s@);
            return true;
        }
        i += 1;
    }
    assert forall|j: int| 0 <= j < v.deep_view().len() implies v.deep_view()[j] != s@ by {}
    false
}

/// Renders the lines that the shell hook evaluates: the original PATH on the first
/// call, unsets for variables exported before but not now, the exports, PATH, the
/// list of exported keys and the state hash.
pub fn render_shell_env_lines(
    shell: ShellKind,
    orig_path_needs_export: bool,
    orig_path_value: &str,
    prev_keys: &Vec<String>,
    delta: &EnvDelta,
    path_value: &str,
    state_hash: &str,
) -> (lines: Vec<String>)
    ensures
        lines.deep_view() == env_lines(
            shell,
            orig_path_needs_export,
            orig_path_value@,
            prev_keys.deep_view(),
            delta.vars.deep_view(),
            path_value@,
            state_hash@,
        ),
{
    let ghost vars = delta.vars.deep_view();
    let ghost keys = pair_keys(vars);
    let mut new_keys: Vec<String> = Vec::new();
    let mut i: usize = 0;
    while i < delta.vars.len()
        invariant
            i <= delta.vars@.len(),
            vars == delta.vars.deep_view(),
            keys == pair_keys(vars),
            new_keys.deep_view() == keys.take(i as int),
        decreases delta.vars@.len() - i,
    {
        let key = delta.vars[i].0.clone();
        assert(key@ == keys[i as int]);
        let ghost before = new_keys.deep_view();
        new_keys.push(key);
        assert(new_keys.deep_view() =~= before.push(key@));
        assert(new_keys.deep_view() =~= keys.take(i + 1));
        i += 1;
    }
    assert(keys.take(keys.len() as int) =~= keys);
    let mut lines: Vec<String> = Vec::new();
    if orig_path_needs_export {
        lines.push(assign_line_exec(shell, "__VS_ORIG_PATH", orig_path_value, true));
    }
    let ghost head = lines.deep_view();
    let mut j: usize = 0;
    while j < prev_keys.len()
        invariant
            j <= prev_keys@.len(),
            new_keys.deep_view() == keys,
            lines.deep_view() == head + stale_keys(prev_keys.deep_view().take(j as int), keys).map_values(
                |k: Seq<char>| unset_line(shell, k),
            ),
        decreases prev_keys@.len() - j,
    {
        let ghost pre = prev_keys.deep_view().take(j as int);
        assert(prev_keys.deep_view().take(j + 1).drop_last() =~= pre);
        assert(prev_keys.deep_view().take(j + 1).last() == prev_keys@[j as int]@);
        let ghost before = lines.deep_view();
        if !contains_string(&new_keys, prev_keys[j].as_str()) {
            let line = unset_line_exec(shell, prev_keys[j].as_str());
            lines.push(line);
            assert(lines.deep_view() =~= before.push(line@));
        } else {
            assert(lines.deep_view() =~= before);
        }
        assert(lines.deep_view() =~= head + stale_keys(
            prev_keys.deep_view().take(j + 1),
            keys,
        ).map_values(|k: Seq<char>| unset_line(shell, k)));
        j += 1;
    }
    assert(prev_keys.deep_view().take(prev_keys@.len() as int) =~= prev_keys.deep_view());
    let ghost head2 = lines.deep_view();
    let mut k: usize = 0;
    while k < delta.vars.len()
        invariant
            k <= delta.vars@.len(),
            vars == delta.vars.deep_view(),
            lines.deep_view() == head2 + vars.take(k as int).map_values(
                |p: (Seq<char>, Seq<char>)| assign_line(shell, p.0, p.1, true),
            ),
        decreases delta.vars@.len() - k,
    {
        let line = assign_line_exec(shell, delta.vars[k].0.as_str(), delta.vars[k].1.as_str(), true);
        assert(line@ == assign_line(shell, vars[k as int].0, vars[k as int].1, true));
        let ghost before = lines.deep_view();
        lines.push(line);
        assert(lines.deep_view() =~= before.push(line@));
        assert(vars.take(k + 1) =~= vars.take(k as int).push(vars[k as int]));
        assert(lines.deep_view() =~= head2 + vars.take(k + 1).map_values(
            |p: (Seq<char>, Seq<char>)| assign_line(shell, p.0, p.1, true),
        ));
        k += 1;
    }
    assert(vars.take(vars.len() as int) =~= vars);
    let joined = join(&new_keys, ":");
    let ghost body = lines.deep_view();
    let l1 = assign_line_exec(shell, "PATH", path_value, true);
    let l2 = assign_line_exec(shell, "__VS_VARS", joined.as_str(), false);
    let l3 = assign_line_exec(shell, "__VS_STATE_HASH", state_hash, false);
    lines.push(l1);
    lines.push(l2);
    lines.push(l3);
    assert(lines.deep_view() =~= body + seq![l1@, l2@, l3@]);
    assert(lines.deep_view() =~= env_lines(
        shell,
        orig_path_needs_export,
        orig_path_value@,
        prev_keys.deep_view(),
        delta.vars.deep_view(),
        path_value@,
        state_hash@,
    ));
    lines
}

// ---------------------------------------------------------------------------
// State hash
// ---------------------------------------------------------------------------

pub open spec fn hex_digit(d: nat) -> char {
    if d < 10 {
        (d + 48) as char
    } else {
        (d + 87) as char
    }
}

/// Lowercase hexadecimal digits of `n` without leading zeros (`format!("{:x}")`).
pub open spec fn hex_lower(n: nat) -> Seq<char>
    decreases n,
{
    if n < 16 {
        seq![hex_digit(n)]
    } else {
        hex_lower(n / 16).push(hex_digit(n % 16))
    }
}

fn push_hex(out: &mut String, n: u64)
    ensures
        final(out)@ == old(out)@ + hex_lower(n as nat),
    decreases n,
{
    if n >= 16 {
        push_hex(out, n / 16);
    }
    let d: u64 = n % 16;
    let c: char = if d < 10 {
        ((d as u8) + 48) as char
    } else {
        ((d as u8) + 87) as char
    };
    assert(c == hex_digit(d as nat));
    push_char(out, c);
    assert(out@ =~= old(out)@ + hex_lower(n as nat));
}

/// `format!("{:x}", n)`.
pub fn format_hex(n: u64) -> (s: String)
    ensures
        s@ == hex_lower(n as nat),
{
    let mut s = String::new();
    push_hex(&mut s, n);
    s
}

/// What hashing a string writes to a hasher: its UTF-8 bytes, then `0xff`.
pub open spec fn str_writes(s: Seq<char>) -> Seq<Seq<u8>> {
    seq![vstd::utf8::encode_utf8(s), seq![0xffu8]]
}

/// The `count` lowest bytes of `n`, least significant first.
pub open spec fn le_bytes(n: nat, count: nat) -> Seq<u8>
    decreases count,
{
    if count == 0 {
        Seq::empty()
    } else {
        seq![(n % 256) as u8] + le_bytes(n / 256, (count - 1) as nat)
    }
}

/// What hashing the pairs of a list writes after its length: each key, then its value.
pub open spec fn pairs_writes(vars: Seq<(Seq<char>, Seq<char>)>) -> Seq<Seq<u8>>
    decreases vars.len(),
{
    if vars.len() == 0 {
        Seq::empty()
    } else {
        pairs_writes(vars.drop_last()) + str_writes(vars.last().0) + str_writes(vars.last().1)
    }
}

/// The running check word of hashing a path, after a component of `len` bytes: the
/// word plus the length (wrapping at 2^64), rotated right by two bits.
pub open spec fn chunk_step(bits: nat, len: nat) -> nat {
    let s = (bits + len) % 0x1_0000_0000_0000_0000;
    s / 4 + (s % 4) * 0x4000_0000_0000_0000
}

/// The state of hashing a path after its first `i` bytes, as std's `Hash` for `Path`
/// scans them on Unix: the components written so far (the bytes between `/`
/// separators, empty ones skipped, a `.` component after a separator skipped too),
/// where the current component starts, and the check word so far.
pub open spec fn path_scan(b: Seq<u8>, i: nat) -> (Seq<Seq<u8>>, int, int)
    decreases i,
{
    if i == 0 {
        (Seq::empty(), 0, 0)
    } else {
        let prev = path_scan(b, (i - 1) as nat);
        let k = i - 1;
        if b[k] == 47u8 {
            let w = if k > prev.1 {
                prev.0.push(b.subrange(prev.1, k))
            } else {
                prev.0
            };
            let n = if k > prev.1 {
                chunk_step(prev.2 as nat, (k - prev.1) as nat) as int
            } else {
                prev.2
            };
            let c = k + 1;
            let skip_dot = (b.len() - c == 1 && b[c] == 46u8) || (b.len() - c >= 2 && b[c] == 46u8
                && b[c + 1] == 47u8);
            (w, if skip_dot {
                c + 1
            } else {
                c
            }, n)
        } else {
            prev
        }
    }
}

/// What hashing a path writes (std's `Hash` for `Path`, Unix rules): its components,
/// the last one too, then the check word (as a `usize`).
pub open spec fn path_writes(b: Seq<u8>) -> Seq<Seq<u8>> {
    let st = path_scan(b, b.len());
    let w = if st.1 < b.len() {
        st.0.push(b.subrange(st.1, b.len() as int))
    } else {
        st.0
    };
    let n = if st.1 < b.len() {
        chunk_step(st.2 as nat, (b.len() - st.1) as nat) as int
    } else {
        st.2
    };
    w.push(le_bytes(n as nat, 8))
}

/// What hashing the paths of a list writes after its length.
pub open spec fn paths_writes(s: Seq<Seq<char>>) -> Seq<Seq<u8>>
    decreases s.len(),
{
    if s.len() == 0 {
        Seq::empty()
    } else {
        paths_writes(s.drop_last()) + path_writes(vstd::utf8::encode_utf8(s.last()))
    }
}

/// The writes that hashing the PATH value, then the list of exported variables, then
/// the list of PATH entries (as paths) makes, as std's `Hash` for `str`, `Vec`, pairs
/// and `Path` makes them: a string is its bytes and `0xff`, a list is its length
/// (eight bytes, least significant first, as on 64-bit little-endian platforms) and
/// then its items, a path as `path_writes` says.
pub open spec fn env_hash_writes(
    path_value: Seq<char>,
    vars: Seq<(Seq<char>, Seq<char>)>,
    paths: Seq<Seq<char>>,
) -> Seq<Seq<u8>> {
    str_writes(path_value) + seq![le_bytes(vars.len(), 8)] + pairs_writes(vars) + seq![
        le_bytes(paths.len(), 8),
    ] + paths_writes(paths)
}

fn write_str(h: &mut DefaultHasher, s: &str)
    ensures
        final(h)@ == old(h)@ + str_writes(s@),
{
    let b = s.as_bytes();
    assert(b@ == s.spec_bytes());
    h.write(b);
    let end: Vec<u8> = vec![0xffu8];
    h.write(end.as_slice());
    assert(end@ =~= seq![0xffu8]);
    assert(s.spec_bytes() == vstd::utf8::encode_utf8(s@));
}

fn write_len(h: &mut DefaultHasher, n: usize)
    ensures
        final(h)@ == old(h)@.push(le_bytes(n as nat, 8)),
{
    write_word(h, n as u64);
}

fn write_word(h: &mut DefaultHasher, n: u64)
    ensures
        final(h)@ == old(h)@.push(le_bytes(n as nat, 8)),
{
    let mut bytes: Vec<u8> = Vec::new();
    let mut v: u64 = n;
    let mut k: u64 = 0;
    while k < 8
        invariant
            k <= 8,
            bytes@ + le_bytes(v as nat, (8 - k) as nat) == le_bytes(n as nat, 8),
        decreases 8 - k,
    {
        let b = (v % 256) as u8;
        proof {
            assert(le_bytes(v as nat, (8 - k) as nat) == seq![b] + le_bytes((v / 256) as nat, (8 - k - 1) as nat));
            assert(bytes@.push(b) + le_bytes((v / 256) as nat, (8 - k - 1) as nat) =~= bytes@ + (seq![b] + le_bytes((v / 256) as nat, (8 - k - 1) as nat)));
        }
        bytes.push(b);
        v = v / 256;
        k += 1;
    }
    assert(le_bytes(v as nat, 0) =~= Seq::<u8>::empty());
    assert(bytes@ =~= le_bytes(n as nat, 8));
    h.write(bytes.as_slice());
}

fn write_range(h: &mut DefaultHasher, b: &[u8], start: usize, end: usize)
    requires
        start <= end <= b@.len(),
    ensures
        final(h)@ == old(h)@.push(b@.subrange(start as int, end as int)),
{
    let mut v: Vec<u8> = Vec::new();
    let mut i: usize = start;
    while i < end
        invariant
            start <= i <= end <= b@.len(),
            v@ == b@.subrange(start as int, i as int),
        decreases end - i,
    {
        v.push(b[i]);
        assert(v@ =~= b@.subrange(start as int, i + 1));
        i += 1;
    }
    h.write(v.as_slice());
}

proof fn lemma_path_scan_bounds(b: Seq<u8>, i: nat)
    requires
        i <= b.len(),
    ensures
        0 <= path_scan(b, i).1 <= b.len(),
        0 <= path_scan(b, i).2 < 0x1_0000_0000_0000_0000,
        path_scan(b, i).1 <= i + 1,
    decreases i,
{
    if i > 0 {
        lemma_path_scan_bounds(b, (i - 1) as nat);
    }
}

fn chunk_word(bits: u64, len: usize) -> (r: u64)
    ensures
        r as nat == chunk_step(bits as nat, len as nat),
{
    let s = ((bits as u128 + len as u128) % 0x1_0000_0000_0000_0000u128) as u64;
    s / 4 + (s % 4) * 0x4000_0000_0000_0000u64
}

/// Feeds a path to a hasher as std's `Hash` for `Path` does on Unix.
fn write_path(h: &mut DefaultHasher, p: &str)
    ensures
        final(h)@ == old(h)@ + path_writes(vstd::utf8::encode_utf8(p@)),
{
    let b = p.as_bytes();
    assert(b@ == p.spec_bytes());
    assert(p.spec_bytes() == vstd::utf8::encode_utf8(p@));
    let ghost bs = b@;
    let n = b.len();
    let ghost base = h@;
    let mut cs: usize = 0;
    let mut hashed: u64 = 0;
    let mut i: usize = 0;
    assert(h@ =~= base + path_scan(bs, 0).0);
    while i < n
        invariant
            i <= n,
            n == bs.len(),
            bs == b@,
            h@ == base + path_scan(bs, i as nat).0,
            cs as int == path_scan(bs, i as nat).1,
            hashed as int == path_scan(bs, i as nat).2,
        decreases n - i,
    {
        proof {
            lemma_path_scan_bounds(bs, i as nat);
        }
        if b[i] == 47u8 {
            if i > cs {
                let ghost w0 = h@;
                write_range(h, b, cs, i);
                hashed = chunk_word(hashed, i - cs);
                assert(h@ =~= base + path_scan(bs, i as nat).0.push(bs.subrange(cs as int, i as int)));
            }
            cs = i + 1;
            if n - cs == 1 && b[cs] == 46u8 {
                cs = cs + 1;
            } else if n - cs >= 2 && b[cs] == 46u8 && b[cs + 1] == 47u8 {
                cs = cs + 1;
            }
        }
        i += 1;
    }
    proof {
        lemma_path_scan_bounds(bs, i as nat);
    }
    if cs < n {
        write_range(h, b, cs, n);
        hashed = chunk_word(hashed, n - cs);
    }
    proof {
        let st = path_scan(bs, bs.len());
        if st.1 < bs.len() {
            assert(h@ =~= base + st.0.push(bs.subrange(st.1, bs.len() as int)));
        }
    }
    write_word(h, hashed);
    assert(h@ =~= base + path_writes(bs));
}

/// The state hash of a hook environment: a hash of PATH, the exported variables and
/// the PATH entries, in lowercase hex.
pub fn compute_env_state_hash(delta: &EnvDelta, path_value: &str) -> (h: String)
    ensures
        h@ == hex_lower(
            DefaultHasher::spec_finish(
                env_hash_writes(path_value@, delta.vars.deep_view(), delta.path_entries.deep_view()),
            ) as nat,
        ),
{
    let ghost vars = delta.vars.deep_view();
    let ghost paths = delta.path_entries.deep_view();
    let mut hasher = DefaultHasher::new();
    write_str(&mut hasher, path_value);
    write_len(&mut hasher, delta.vars.len());
    let ghost head = hasher@;
    assert(head =~= str_writes(path_value@) + seq![le_bytes(vars.len(), 8)]);
    assert(vars.take(0) =~= Seq::<(Seq<char>, Seq<char>)>::empty());
    assert(hasher@ =~= head + pairs_writes(vars.take(0)));
    let mut i: usize = 0;
    while i < delta.vars.len()
        invariant
            i <= delta.vars@.len(),
            vars == delta.vars.deep_view(),
            hasher@ == head + pairs_writes(vars.take(i as int)),
        decreases delta.vars@.len() - i,
    {
        write_str(&mut hasher, delta.vars[i].0.as_str());
        write_str(&mut hasher, delta.vars[i].1.as_str());
        assert(vars[i as int] == (delta.vars@[i as int].0@, delta.vars@[i as int].1@));
        assert(vars.take(i + 1).drop_last() =~= vars.take(i as int));
        assert(vars.take(i + 1).last() == vars[i as int]);
        assert(hasher@ =~= head + pairs_writes(vars.take(i + 1)));
        i += 1;
    }
    assert(vars.take(i as int) =~= vars);
    write_len(&mut hasher, delta.path_entries.len());
    let ghost mid = hasher@;
    assert(paths.take(0) =~= Seq::<Seq<char>>::empty());
    assert(hasher@ =~= mid + paths_writes(paths.take(0)));
    let mut j: usize = 0;
    while j < delta.path_entries.len()
        invariant
            j <= delta.path_entries@.len(),
            paths == delta.path_entries.deep_view(),
            hasher@ == mid + paths_writes(paths.take(j as int)),
        decreases delta.path_entries@.len() - j,
    {
        let ghost before = hasher@;
        write_path(&mut hasher, delta.path_entries[j].as_str());
        assert(paths[j as int] == delta.path_entries@[j as int]@);
        assert(paths.take(j + 1).drop_last() =~= paths.take(j as int));
        assert(paths.take(j + 1).last() == paths[j as int]);
        assert(hasher@ =~= mid + paths_writes(paths.take(j + 1)));
        j += 1;
    }
    assert(paths.take(j as int) =~= paths);
    assert(hasher@ =~= env_hash_writes(path_value@, vars, paths));
    let n = hasher.finish();
    format_hex(n)
}

/// The variable names listed in `__VS_VARS` (`:`-separated, empty pieces dropped).
pub fn parse_prev_keys(vars_value: &str) -> (keys: Vec<String>)
    ensures
        keys.deep_view() == non_empty_pieces(split_seq(vars_value@, CharClass::Exactly(':'))),
{
    let v = chars_of(vars_value);
    let parts = split_chars(&v, CharClass::Exactly(':'));
    keep_non_empty(parts)
}

/// What the shell hook prints: nothing when the state hash equals the previous
/// non-empty one, else the env lines joined with `\n`.
pub open spec fn hook_output(
    shell: ShellKind,
    orig_needs_export: bool,
    orig_path: Seq<char>,
    prev_hash: Seq<char>,
    prev_vars: Seq<char>,
    vars: Seq<(Seq<char>, Seq<char>)>,
    path_value: Seq<char>,
    state_hash: Seq<char>,
) -> Seq<char> {
    if prev_hash.len() != 0 && state_hash == prev_hash {
        Seq::empty()
    } else {
        join_seq(
            env_lines(
                shell,
                orig_needs_export,
                orig_path,
                non_empty_pieces(split_seq(prev_vars, CharClass::Exactly(':'))),
                vars,
                path_value,
                state_hash,
            ),
            "\n"@,
        )
    }
}

/// Renders the shell hook output from the environment the hook runs in: whether
/// `__VS_ORIG_PATH` is unset, the original PATH, the previous `__VS_STATE_HASH`
/// and `__VS_VARS`, the delta and the composed PATH value.
pub fn render_hook_output(
    shell: ShellKind,
    orig_path_needs_export: bool,
    orig_path_value: &str,
    prev_hash: &str,
    prev_vars: &str,
    delta: &EnvDelta,
    path_value: &str,
) -> (out: String)
    ensures
        out@ == hook_output(
            shell,
            orig_path_needs_export,
            orig_path_value@,
            prev_hash@,
            prev_vars@,
            delta.vars.deep_view(),
            path_value@,
            hex_lower(
                DefaultHasher::spec_finish(
                    env_hash_writes(
                        path_value@,
                        delta.vars.deep_view(),
                        delta.path_entries.deep_view(),
                    ),
                ) as nat,
            ),
        ),
{
    let state_hash = compute_env_state_hash(delta, path_value);
    let prev = chars_of(prev_hash);
    if prev.len() != 0 && str_eq(state_hash.as_str(), prev_hash) {
        return String::new();
    }
    let prev_keys = parse_prev_keys(prev_vars);
    let lines = render_shell_env_lines(
        shell,
        orig_path_needs_export,
        orig_path_value,
        &prev_keys,
        delta,
        path_value,
        state_hash.as_str(),
    );
    join(&lines, "\n")
}

// ---------------------------------------------------------------------------
// The recorded keys
// ---------------------------------------------------------------------------

/// Splitting after a separator starts a new piece that holds what follows it.
proof fn lemma_split_after_separator(prefix: Seq<char>, c: char, p: Seq<char>)
    requires
        !p.contains(c),
    ensures
        split_seq(prefix + seq![c] + p, CharClass::Exactly(c)) == split_seq(prefix, CharClass::Exactly(c)).push(p),
    decreases p.len(),
{
    let k = CharClass::Exactly(c);
    if p.len() == 0 {
        assert(p =~= Seq::<char>::empty());
        assert(prefix + seq![c] + p =~= prefix.push(c));
        assert((prefix + seq![c] + p).drop_last() =~= prefix);
        assert((prefix + seq![c] + p).last() == c);
    } else {
        let q = p.drop_last();
        assert(!q.contains(c)) by {
            if q.contains(c) {
                let i = choose|i: int| 0 <= i < q.len() && q[i] == c;
                assert(p[i] == c);
            }
        }
        lemma_split_after_separator(prefix, c, q);
        let whole = prefix + seq![c] + p;
        assert(whole.drop_last() =~= prefix + seq![c] + q);
        assert(whole.last() == p.last());
        assert(p.last() != c) by {
            assert(p[p.len() - 1] == p.last());
        }
        let prev = split_seq(prefix + seq![c] + q, k);
        assert(prev.last() == q);
        assert(prev.update(prev.len() - 1, q.push(p.last())) =~= split_seq(prefix, k).push(p)) by {
            assert(q.push(p.last()) =~= p);
        }
    }
}

/// A piece without separators splits into itself.
proof fn lemma_split_without_separator(p: Seq<char>, c: char)
    requires
        !p.contains(c),
    ensures
        split_seq(p, CharClass::Exactly(c)) == seq![p],
    decreases p.len(),
{
    if p.len() > 0 {
        let q = p.drop_last();
        assert(!q.contains(c)) by {
            if q.contains(c) {
                let i = choose|i: int| 0 <= i < q.len() && q[i] == c;
                assert(p[i] == c);
            }
        }
        lemma_split_without_separator(q, c);
        assert(p.last() != c) by {
            assert(p[p.len() - 1] == p.last());
        }
        assert(q.push(p.last()) =~= p);
        assert(seq![q].update(0, q.push(p.last())) =~= seq![p]);
    } else {
        assert(p =~= Seq::<char>::empty());
    }
}

/// Splitting the join of pieces without separators gives back the pieces.
proof fn lemma_split_undoes_join(parts: Seq<Seq<char>>, c: char)
    requires
        parts.len() > 0,
        forall|i: int| 0 <= i < parts.len() ==> !(#[trigger] parts[i]).contains(c),
    ensures
        split_seq(join_seq(parts, seq![c]), CharClass::Exactly(c)) == parts,
    decreases parts.len(),
{
    if parts.len() == 1 {
        lemma_split_without_separator(parts[0], c);
        assert(seq![parts[0]] =~= parts);
    } else {
        let d = parts.drop_last();
        assert forall|i: int| 0 <= i < d.len() implies !(#[trigger] d[i]).contains(c) by {
            assert(d[i] == parts[i]);
        }
        lemma_split_undoes_join(d, c);
        assert(!parts.last().contains(c)) by {
            assert(parts[parts.len() - 1] == parts.last());
        }
        lemma_split_after_separator(join_seq(d, seq![c]), c, parts.last());
        assert(d.push(parts.last()) =~= parts);
    }
}

proof fn lemma_non_empty_pieces_id(parts: Seq<Seq<char>>)
    requires
        forall|i: int| 0 <= i < parts.len() ==> (#[trigger] parts[i]).len() > 0,
    ensures
        non_empty_pieces(parts) == parts,
    decreases parts.len(),
{
    if parts.len() > 0 {
        let d = parts.drop_last();
        assert forall|i: int| 0 <= i < d.len() implies (#[trigger] d[i]).len() > 0 by {
            assert(d[i] == parts[i]);
        }
        lemma_non_empty_pieces_id(d);
        assert(parts.last().len() > 0) by {
            assert(parts[parts.len() - 1] == parts.last());
        }
        assert(d.push(parts.last()) =~= parts);
    }
}

/// The variables one hook call records in `__VS_VARS` are the ones the next call
/// reads back from it (and so unsets when they are gone), provided no variable name
/// is empty or holds `:`.
pub proof fn law_recorded_keys_read_back(keys: Seq<Seq<char>>)
    requires
        forall|i: int| 0 <= i < keys.len() ==> (#[trigger] keys[i]).len() > 0 && !keys[i].contains(':'),
    ensures
        non_empty_pieces(split_seq(join_seq(keys, ":"@), CharClass::Exactly(':'))) == keys,
{
    lemma_non_empty_pieces_id(keys);
    if keys.len() == 0 {
        assert(join_seq(keys, ":"@) =~= Seq::<char>::empty());
        let e = Seq::<char>::empty();
        assert(non_empty_pieces(seq![e]) == non_empty_pieces(seq![e].drop_last()));
        assert(seq![e].drop_last() =~= Seq::<Seq<char>>::empty());
        assert(keys =~= Seq::<Seq<char>>::empty());
    } else {
        assert(":"@ =~= seq![':']) by {
            reveal_strlit(":");
        }
        assert forall|i: int| 0 <= i < keys.len() implies !(#[trigger] keys[i]).contains(':') by {}
        lemma_split_undoes_join(keys, ':');
    }
}

/// zsh and bash read the same hook output, line for line, and each of their
/// assignments is a POSIX `export NAME='value'` (the value single-quoted, a quote in
/// it written as `'"'"'` when escaped) and each removal an `unset NAME`.
pub proof fn law_zsh_and_bash_share_hook_output(
    orig_needs_export: bool,
    orig_path: Seq<char>,
    prev_keys: Seq<Seq<char>>,
    vars: Seq<(Seq<char>, Seq<char>)>,
    path_value: Seq<char>,
    state_hash: Seq<char>,
)
    ensures
        env_lines(ShellKind::Zsh, orig_needs_export, orig_path, prev_keys, vars, path_value, state_hash)
            == env_lines(ShellKind::Bash, orig_needs_export, orig_path, prev_keys, vars, path_value, state_hash),
        forall|shell: ShellKind, name: Seq<char>, value: Seq<char>|
            (shell == ShellKind::Bash || shell == ShellKind::Zsh) ==> #[trigger] assign_line(shell, name, value, false)
                == "export "@ + name + "='"@ + value + "'"@,
        forall|shell: ShellKind, name: Seq<char>, value: Seq<char>|
            (shell == ShellKind::Bash || shell == ShellKind::Zsh) ==> #[trigger] assign_line(shell, name, value, true)
                == "export "@ + name + "='"@ + replace_char_seq(value, '\'', "'\"'\"'"@) + "'"@,
        forall|shell: ShellKind, name: Seq<char>|
            (shell == ShellKind::Bash || shell == ShellKind::Zsh) ==> #[trigger] unset_line(shell, name) == "unset "@ + name,
{
    let keys = pair_keys(vars);
    let stale = stale_keys(prev_keys, keys);
    assert(stale.map_values(|k: Seq<char>| unset_line(ShellKind::Zsh, k)) =~= stale.map_values(
        |k: Seq<char>| unset_line(ShellKind::Bash, k),
    ));
    assert(vars.map_values(|p: (Seq<char>, Seq<char>)| assign_line(ShellKind::Zsh, p.0, p.1, true))
        =~= vars.map_values(|p: (Seq<char>, Seq<char>)| assign_line(ShellKind::Bash, p.0, p.1, true)));
}

} // verus!
