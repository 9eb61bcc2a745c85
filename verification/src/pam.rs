//! PAM transactions and what a session is launched with.

use crate::assoc::{
    law_merged, law_merged_named_once, lemma_slot_of, lookup, merge_pairs, merged, named_once,
    pair_views,
};
use crate::config::Config;
use crate::ipc_client::Transfer;
use crate::text::{decimal, dec, views};
use vstd::prelude::*;

verus! {

// ---------------------------------------------------------------------------
// Launch directions
// ---------------------------------------------------------------------------

/// What the process of a session is started with.
#[derive(Debug)]
pub struct ExecSpec {
    pub program: String,
    /// PAM's own variables are merged on top once the session is open.
    pub env: Vec<(String, String)>,
    pub current_dir: Option<String>,
    pub uid: u32,
    pub gid: u32,
    pub username: String,
}

/// An entry of the user database.
#[derive(Debug)]
pub struct UserEntry {
    pub name: String,
    pub dir: String,
    pub shell: String,
    pub uid: u32,
    pub gid: u32,
}

/// A variable, unless its value is empty.
pub open spec fn unless_empty(key: Seq<char>, value: Seq<char>) -> Seq<(Seq<char>, Seq<char>)> {
    if value.len() == 0 {
        Seq::empty()
    } else {
        seq![(key, value)]
    }
}

/// The environment of a session before the administrator's variables.
pub open spec fn base_env(cfg: Config, user: UserEntry) -> Seq<(Seq<char>, Seq<char>)> {
    seq![
        ("HOME"@, user.dir@),
        ("USER"@, user.name@),
        ("LOGNAME"@, user.name@),
        ("SHELL"@, user.shell@),
        ("XDG_SESSION_TYPE"@, "wayland"@),
        ("XDG_CURRENT_DESKTOP"@, "focaldesk"@),
        ("XDG_SEAT"@, "seat0"@),
        ("XDG_VTNR"@, dec(cfg.vt as nat)),
        ("XKB_DEFAULT_LAYOUT"@, cfg.keyboard_layout@),
    ] + unless_empty("XKB_DEFAULT_VARIANT"@, cfg.keyboard_variant@) + unless_empty(
        "XKB_DEFAULT_MODEL"@,
        cfg.keyboard_model@,
    ) + unless_empty("XKB_DEFAULT_OPTIONS"@, cfg.keyboard_options@)
}

fn push_var(env: &mut Vec<(String, String)>, key: &str, value: String)
    ensures
        pair_views(final(env)@) == pair_views(old(env)@).push((key@, value@)),
{
    let ghost before = pair_views(env@);
    let ghost v = value@;
    env.push((key.to_owned(), value));
    assert(pair_views(env@) =~= before.push((key@, v)));
}

fn push_unless_empty(env: &mut Vec<(String, String)>, key: &str, value: &String)
    ensures
        pair_views(final(env)@) == pair_views(old(env)@) + unless_empty(key@, value@),
{
    let ghost before = pair_views(env@);
    if !value.as_str().is_empty() {
        push_var(env, key, value.clone());
    }
    assert(pair_views(env@) =~= before + unless_empty(key@, value@));
}

/// What the desktop session of a user is started with: a complete environment
/// of its own, onto which the administrator's variables are merged last.
pub fn session_exec_spec(cfg: &Config, user: &UserEntry) -> (r: ExecSpec)
    ensures
        r.program@ == cfg.session_cmd@,
        pair_views(r.env@) == merged(base_env(*cfg, *user), pair_views(cfg.session_environment@)),
        r.current_dir is Some,
        r.current_dir->Some_0@ == user.dir@,
        r.uid == user.uid,
        r.gid == user.gid,
        r.username@ == user.name@,
{
    let mut env: Vec<(String, String)> = Vec::new();
    push_var(&mut env, "HOME", user.dir.clone());
    push_var(&mut env, "USER", user.name.clone());
    push_var(&mut env, "LOGNAME", user.name.clone());
    push_var(&mut env, "SHELL", user.shell.clone());
    push_var(&mut env, "XDG_SESSION_TYPE", "wayland".to_owned());
    push_var(&mut env, "XDG_CURRENT_DESKTOP", "focaldesk".to_owned());
    push_var(&mut env, "XDG_SEAT", "seat0".to_owned());
    push_var(&mut env, "XDG_VTNR", decimal(cfg.vt as u64));
    push_var(&mut env, "XKB_DEFAULT_LAYOUT", cfg.keyboard_layout.clone());
    let ghost fixed = pair_views(env@);
    push_unless_empty(&mut env, "XKB_DEFAULT_VARIANT", &cfg.keyboard_variant);
    push_unless_empty(&mut env, "XKB_DEFAULT_MODEL", &cfg.keyboard_model);
    push_unless_empty(&mut env, "XKB_DEFAULT_OPTIONS", &cfg.keyboard_options);
    assert(pair_views(env@) =~= base_env(*cfg, *user));
    merge_pairs(&mut env, &cfg.session_environment);
    ExecSpec {
        program: cfg.session_cmd.clone(),
        env,
        current_dir: Some(user.dir.clone()),
        uid: user.uid,
        gid: user.gid,
        username: user.name.clone(),
    }
}

proof fn lemma_one_more(
    env: Seq<(Seq<char>, Seq<char>)>,
    key: Seq<char>,
    value: Seq<char>,
)
    requires
        named_once(env),
        forall|i: int| 0 <= i < env.len() ==> (#[trigger] env[i]).0 != key,
    ensures
        named_once(env + unless_empty(key, value)),
        forall|i: int|
            0 <= i < (env + unless_empty(key, value)).len() ==> (#[trigger] (env + unless_empty(
                key,
                value,
            ))[i]).0 == key || (i < env.len() && (env + unless_empty(key, value))[i] == env[i]),
{
}

proof fn lemma_base_named_once(cfg: Config, user: UserEntry)
    ensures
        named_once(base_env(cfg, user)),
{
    reveal_strlit("HOME");
    reveal_strlit("USER");
    reveal_strlit("LOGNAME");
    reveal_strlit("SHELL");
    reveal_strlit("XDG_SESSION_TYPE");
    reveal_strlit("XDG_CURRENT_DESKTOP");
    reveal_strlit("XDG_SEAT");
    reveal_strlit("XDG_VTNR");
    reveal_strlit("XKB_DEFAULT_LAYOUT");
    reveal_strlit("XKB_DEFAULT_VARIANT");
    reveal_strlit("XKB_DEFAULT_MODEL");
    reveal_strlit("XKB_DEFAULT_OPTIONS");
    assert("HOME"@.len() == 4);
    assert("USER"@.len() == 4);
    assert("LOGNAME"@.len() == 7);
    assert("SHELL"@.len() == 5);
    assert("XDG_SESSION_TYPE"@.len() == 16);
    assert("XDG_CURRENT_DESKTOP"@.len() == 19);
    assert("XDG_SEAT"@.len() == 8);
    assert("XDG_VTNR"@.len() == 8);
    assert("XKB_DEFAULT_LAYOUT"@.len() == 18);
    assert("XKB_DEFAULT_VARIANT"@.len() == 19);
    assert("XKB_DEFAULT_MODEL"@.len() == 17);
    assert("XKB_DEFAULT_OPTIONS"@.len() == 19);
    assert("HOME"@[0] != "USER"@[0]);
    assert("XDG_SEAT"@[4] != "XDG_VTNR"@[4]);
    assert("XDG_CURRENT_DESKTOP"@[1] != "XKB_DEFAULT_VARIANT"@[1]);
    assert("XDG_CURRENT_DESKTOP"@[1] != "XKB_DEFAULT_OPTIONS"@[1]);
    assert("XKB_DEFAULT_VARIANT"@[12] != "XKB_DEFAULT_OPTIONS"@[12]);
    let fixed = seq![
        ("HOME"@, user.dir@),
        ("USER"@, user.name@),
        ("LOGNAME"@, user.name@),
        ("SHELL"@, user.shell@),
        ("XDG_SESSION_TYPE"@, "wayland"@),
        ("XDG_CURRENT_DESKTOP"@, "focaldesk"@),
        ("XDG_SEAT"@, "seat0"@),
        ("XDG_VTNR"@, dec(cfg.vt as nat)),
        ("XKB_DEFAULT_LAYOUT"@, cfg.keyboard_layout@),
    ];
    assert forall|i: int, j: int| 0 <= i < j < fixed.len() implies (#[trigger] fixed[i]).0 != (
    #[trigger] fixed[j]).0 by {
        assert(i == 0 || i == 1 || i == 2 || i == 3 || i == 4 || i == 5 || i == 6 || i == 7);
        assert(j == 1 || j == 2 || j == 3 || j == 4 || j == 5 || j == 6 || j == 7 || j == 8);
    }
    assert forall|i: int| 0 <= i < fixed.len() implies (#[trigger] fixed[i]).0
        != "XKB_DEFAULT_VARIANT"@ && fixed[i].0 != "XKB_DEFAULT_MODEL"@ && fixed[i].0
        != "XKB_DEFAULT_OPTIONS"@ by {
        assert(i == 0 || i == 1 || i == 2 || i == 3 || i == 4 || i == 5 || i == 6 || i == 7 || i
            == 8);
    }
    let variant = fixed + unless_empty("XKB_DEFAULT_VARIANT"@, cfg.keyboard_variant@);
    lemma_one_more(fixed, "XKB_DEFAULT_VARIANT"@, cfg.keyboard_variant@);
    let model = variant + unless_empty("XKB_DEFAULT_MODEL"@, cfg.keyboard_model@);
    lemma_one_more(variant, "XKB_DEFAULT_MODEL"@, cfg.keyboard_model@);
    lemma_one_more(model, "XKB_DEFAULT_OPTIONS"@, cfg.keyboard_options@);
}

/// The environment of a session names each variable once, whatever the
/// administrator adds, and the administrator's value of a variable is the one
/// that it has.
pub proof fn law_session_environment(
    cfg: Config,
    user: UserEntry,
    more: Seq<(Seq<char>, Seq<char>)>,
    key: Seq<char>,
)
    ensures
        named_once(merged(base_env(cfg, user), more)),
        forall|i: int|
            0 <= i < more.len() && (#[trigger] more[i]).0 == key && (forall|j: int|
                i < j < more.len() ==> (#[trigger] more[j]).0 != key) ==> lookup(
                merged(base_env(cfg, user), more),
                key,
            ) == Some(more[i].1),
        (forall|i: int| 0 <= i < more.len() ==> (#[trigger] more[i]).0 != key) ==> lookup(
            merged(base_env(cfg, user), more),
            key,
        ) == lookup(base_env(cfg, user), key),
{
    lemma_base_named_once(cfg, user);
    law_merged_named_once(base_env(cfg, user), more);
    law_merged(base_env(cfg, user), more, key);
}

/// What the greeter is started with.
pub fn greeter_exec_spec(cfg: &Config, user: &UserEntry) -> (r: ExecSpec)
    ensures
        r.program@ == cfg.greeter_cmd@,
        pair_views(r.env@) == seq![
            ("FOCALDM_SOCKET"@, cfg.socket_path@),
            ("XDG_RUNTIME_DIR"@, "/run/user/"@ + dec(user.uid as nat)),
            ("FOCALDM_VT"@, dec(cfg.vt as nat)),
            ("XDG_VTNR"@, dec(cfg.vt as nat)),
        ],
        r.current_dir is None,
        r.uid == user.uid,
        r.gid == user.gid,
        r.username@ == user.name@,
{
    let mut env: Vec<(String, String)> = Vec::new();
    let uid = decimal(user.uid as u64);
    push_var(&mut env, "FOCALDM_SOCKET", cfg.socket_path.clone());
    push_var(&mut env, "XDG_RUNTIME_DIR", "/run/user/".to_owned().concat(uid.as_str()));
    push_var(&mut env, "FOCALDM_VT", decimal(cfg.vt as u64));
    push_var(&mut env, "XDG_VTNR", decimal(cfg.vt as u64));
    assert(pair_views(env@) =~= seq![
        ("FOCALDM_SOCKET"@, cfg.socket_path@),
        ("XDG_RUNTIME_DIR"@, "/run/user/"@ + dec(user.uid as nat)),
        ("FOCALDM_VT"@, dec(cfg.vt as nat)),
        ("XDG_VTNR"@, dec(cfg.vt as nat)),
    ]);
    ExecSpec {
        program: cfg.greeter_cmd.clone(),
        env,
        current_dir: None,
        uid: user.uid,
        gid: user.gid,
        username: user.name.clone(),
    }
}

// ---------------------------------------------------------------------------
// Starting the program
// ---------------------------------------------------------------------------

/// Whether a C string can hold the text.
pub fn c_string_safe(text: &str) -> (r: bool)
    ensures
        r == !text@.contains('\0'),
{
    for c in it: text.chars()
        invariant
            it.seq() == text@,
            forall|k: int| 0 <= k < it.index() ==> text@[k] != '\0',
    {
        if c == '\0' {
            assert(text@[it.index() as int] == '\0');
            return false;
        }
    }
    true
}

/// `key=value`.
pub open spec fn assignment(var: (Seq<char>, Seq<char>)) -> Seq<char> {
    var.0 + seq!['='] + var.1
}

/// The assignments of an environment, without those that no C string can hold.
pub open spec fn assignments(env: Seq<(Seq<char>, Seq<char>)>) -> Seq<Seq<char>>
    decreases env.len(),
{
    if env.len() == 0 {
        Seq::empty()
    } else {
        let before = assignments(env.drop_last());
        let last = assignment(env.last());
        if last.contains('\0') {
            before
        } else {
            before.push(last)
        }
    }
}

/// The environment as it is handed to a program.
pub fn env_strings(env: &Vec<(String, String)>) -> (r: Vec<String>)
    ensures
        views(r@) == assignments(pair_views(env@)),
{
    let ghost all = pair_views(env@);
    let mut out: Vec<String> = Vec::new();
    let mut i: usize = 0;
    assert(views(out@) =~= assignments(all.take(0)));
    while i < env.len()
        invariant
            i <= env.len(),
            all == pair_views(env@),
            views(out@) == assignments(all.take(i as int)),
        decreases env.len() - i,
    {
        let mut line = env[i].0.clone();
        line.push('=');
        line.append(env[i].1.as_str());
        proof {
            assert(all.take(i + 1).drop_last() =~= all.take(i as int));
            assert(all.take(i + 1).last() == all[i as int]);
            assert(line@ =~= assignment(all[i as int]));
            crate::text::lemma_views_push(out@, line);
        }
        if c_string_safe(line.as_str()) {
            out.push(line);
        }
        i += 1;
    }
    assert(all.take(i as int) =~= all);
    out
}

/// The steps from a fork to the program of a session.
#[derive(Debug, Clone, Copy, PartialEq, Eq, Structural)]
pub enum ExecStep {
    /// Take the standard input from `/dev/null`.
    NullInput,
    /// Change to the working directory.
    ChangeDir,
    /// The user name must fit a C string.
    CheckUser,
    SetGroup,
    InitGroups,
    /// Last of the three: afterwards the privilege for the others is gone.
    SetUser,
    /// The path of the program must fit a C string.
    CheckProgram,
    Exec,
    /// End with a status.
    Exit(i32),
}

/// The step that follows. Failures of the first two steps do not matter.
pub open spec fn exec_after(step: ExecStep, ok: bool) -> ExecStep {
    match step {
        ExecStep::NullInput => ExecStep::ChangeDir,
        ExecStep::ChangeDir => ExecStep::CheckUser,
        ExecStep::Exec => ExecStep::Exit(127),
        ExecStep::Exit(status) => ExecStep::Exit(status),
        _ => if !ok {
            ExecStep::Exit(1)
        } else {
            match step {
                ExecStep::CheckUser => ExecStep::SetGroup,
                ExecStep::SetGroup => ExecStep::InitGroups,
                ExecStep::InitGroups => ExecStep::SetUser,
                ExecStep::SetUser => ExecStep::CheckProgram,
                _ => ExecStep::Exec,
            }
        },
    }
}

/// The step that follows.
pub fn next_exec_step(step: ExecStep, ok: bool) -> (r: ExecStep)
    ensures
        r == exec_after(step, ok),
{
    match step {
        ExecStep::NullInput => ExecStep::ChangeDir,
        ExecStep::ChangeDir => ExecStep::CheckUser,
        ExecStep::CheckUser => if ok {
            ExecStep::SetGroup
        } else {
            ExecStep::Exit(1)
        },
        ExecStep::SetGroup => if ok {
            ExecStep::InitGroups
        } else {
            ExecStep::Exit(1)
        },
        ExecStep::InitGroups => if ok {
            ExecStep::SetUser
        } else {
            ExecStep::Exit(1)
        },
        ExecStep::SetUser => if ok {
            ExecStep::CheckProgram
        } else {
            ExecStep::Exit(1)
        },
        ExecStep::CheckProgram => if ok {
            ExecStep::Exec
        } else {
            ExecStep::Exit(1)
        },
        ExecStep::Exec => ExecStep::Exit(127),
        ExecStep::Exit(status) => ExecStep::Exit(status),
    }
}

/// The step after a list of results.
pub open spec fn exec_step_of(results: Seq<bool>) -> ExecStep
    decreases results.len(),
{
    if results.len() == 0 {
        ExecStep::NullInput
    } else {
        exec_after(exec_step_of(results.drop_last()), results.last())
    }
}

/// The program is started only with dropped privileges: all steps before it
/// ran, in order, and every one of them but the first two succeeded.
pub proof fn law_exec_drops_privileges(results: Seq<bool>)
    requires
        exec_step_of(results) is Exec,
    ensures
        results.len() == 7,
        forall|i: int| 2 <= i < 7 ==> results[i],
        exec_step_of(results.take(3)) is SetGroup,
        exec_step_of(results.take(4)) is InitGroups,
        exec_step_of(results.take(5)) is SetUser,
{
    let a = results.drop_last();
    let b = a.drop_last();
    let c = b.drop_last();
    let d = c.drop_last();
    let e = d.drop_last();
    let f = e.drop_last();
    assert(exec_step_of(a) is CheckProgram);
    assert(exec_step_of(b) is SetUser);
    assert(exec_step_of(c) is InitGroups);
    assert(exec_step_of(d) is SetGroup);
    assert(exec_step_of(e) is CheckUser);
    assert(exec_step_of(f) is ChangeDir);
    assert(exec_step_of(f.drop_last()) is NullInput);
    assert(f.drop_last().len() == 0);
    assert(results.take(3) =~= d);
    assert(results.take(4) =~= c);
    assert(results.take(5) =~= b);
}

// ---------------------------------------------------------------------------
// Pipes
// ---------------------------------------------------------------------------

/// How a pipe is read or written until a number of bytes went through.
#[derive(Debug, Clone, Copy, PartialEq, Eq, Structural)]
pub enum PipeStep {
    /// Go on with the byte at this position.
    More(usize),
    /// All bytes went through.
    Complete,
    /// The other side closed before.
    Ended,
    /// The call failed.
    Failed,
}

/// What follows a call that moved bytes from position `filled` on, of `len`.
pub open spec fn pipe_after(filled: int, len: int, outcome: Transfer) -> PipeStep {
    match outcome {
        Transfer::Moved(n) => if n == 0 {
            PipeStep::Ended
        } else if filled + n >= len {
            PipeStep::Complete
        } else {
            PipeStep::More((filled + n) as usize)
        },
        Transfer::Interrupted => PipeStep::More(filled as usize),
        _ => PipeStep::Failed,
    }
}

/// What follows a call that read into `buf[filled..]`, or wrote from there.
pub fn pipe_step(filled: usize, len: usize, outcome: Transfer) -> (r: PipeStep)
    requires
        filled < len,
        outcome is Moved ==> outcome->Moved_0 <= len - filled,
    ensures
        r == pipe_after(filled as int, len as int, outcome),
{
    match outcome {
        Transfer::Moved(n) => if n == 0 {
            PipeStep::Ended
        } else if n >= len - filled {
            PipeStep::Complete
        } else {
            PipeStep::More(filled + n)
        },
        Transfer::Interrupted => PipeStep::More(filled),
        Transfer::WouldBlock => PipeStep::Failed,
        Transfer::Failed => PipeStep::Failed,
    }
}

// ---------------------------------------------------------------------------
// A transaction
// ---------------------------------------------------------------------------

/// The stages of a PAM transaction.
#[derive(Debug, Clone, Copy, PartialEq, Eq, Structural)]
pub enum Stage {
    /// Create the context.
    Context,
    SetTty,
    /// Drives the conversation with the user.
    Authenticate,
    /// Expired passwords, restrictions.
    AccountCheck,
    /// Look the user up, whom PAM may have renamed.
    LookUpUser,
    /// Tell the supervisor that the user is authenticated.
    ReportSuccess,
    /// Wait until the console is free.
    AwaitGo,
    /// Open the session.
    Open,
    /// Report how that went.
    ReportResult,
    /// Tell the supervisor that authentication failed.
    ReportFailure,
    Ended,
}

/// The stage that follows.
pub open spec fn stage_after(stage: Stage, ok: bool) -> Stage {
    match stage {
        Stage::Context => if ok {
            Stage::SetTty
        } else {
            Stage::ReportFailure
        },
        Stage::SetTty => if ok {
            Stage::Authenticate
        } else {
            Stage::ReportFailure
        },
        Stage::Authenticate => if ok {
            Stage::AccountCheck
        } else {
            Stage::ReportFailure
        },
        Stage::AccountCheck => if ok {
            Stage::LookUpUser
        } else {
            Stage::ReportFailure
        },
        Stage::LookUpUser => if ok {
            Stage::ReportSuccess
        } else {
            Stage::Ended
        },
        Stage::ReportSuccess => if ok {
            Stage::AwaitGo
        } else {
            Stage::Ended
        },
        Stage::AwaitGo => if ok {
            Stage::Open
        } else {
            Stage::Ended
        },
        Stage::Open => Stage::ReportResult,
        Stage::ReportResult => Stage::Ended,
        Stage::ReportFailure => Stage::Ended,
        Stage::Ended => Stage::Ended,
    }
}

/// The stage that follows.
pub fn next_stage(stage: Stage, ok: bool) -> (r: Stage)
    ensures
        r == stage_after(stage, ok),
{
    let next = match stage {
        Stage::Context => Stage::SetTty,
        Stage::SetTty => Stage::Authenticate,
        Stage::Authenticate => Stage::AccountCheck,
        Stage::AccountCheck => Stage::LookUpUser,
        Stage::LookUpUser => Stage::ReportSuccess,
        Stage::ReportSuccess => Stage::AwaitGo,
        Stage::AwaitGo => Stage::Open,
        Stage::Open => return Stage::ReportResult,
        Stage::ReportResult => Stage::Ended,
        Stage::ReportFailure => Stage::Ended,
        Stage::Ended => Stage::Ended,
    };
    if ok {
        return next;
    }
    match stage {
        Stage::Context | Stage::SetTty | Stage::Authenticate | Stage::AccountCheck => {
            Stage::ReportFailure
        },
        _ => Stage::Ended,
    }
}

/// What a failed stage is called in the message to the user.
pub open spec fn stage_label(stage: Stage) -> Seq<char> {
    match stage {
        Stage::Context => "pam ctx"@,
        Stage::SetTty => "set tty"@,
        Stage::Authenticate => "authentication failed"@,
        Stage::AccountCheck => "account check failed"@,
        _ => ""@,
    }
}

/// The message of a failure: the stage, a colon and the cause.
pub fn failure_message(stage: Stage, cause: &str) -> (r: String)
    ensures
        r@ == stage_label(stage) + ": "@ + cause@,
{
    let label = match stage {
        Stage::Context => "pam ctx",
        Stage::SetTty => "set tty",
        Stage::Authenticate => "authentication failed",
        Stage::AccountCheck => "account check failed",
        _ => "",
    };
    label.to_owned().concat(": ").concat(cause)
}

/// The stage after a list of results.
pub open spec fn stage_of(results: Seq<bool>) -> Stage
    decreases results.len(),
{
    if results.len() == 0 {
        Stage::Context
    } else {
        stage_after(stage_of(results.drop_last()), results.last())
    }
}

/// A session is opened only for a user who was authenticated and passed the
/// account checks, and only once the supervisor said that the console is free.
pub proof fn law_open_needs_authentication(results: Seq<bool>)
    requires
        stage_of(results) is Open,
    ensures
        results.len() == 7,
        forall|i: int| 0 <= i < 7 ==> results[i],
        stage_of(results.take(2)) is Authenticate,
        stage_of(results.take(3)) is AccountCheck,
        stage_of(results.take(6)) is AwaitGo,
{
    let a = results.drop_last();
    let b = a.drop_last();
    let c = b.drop_last();
    let d = c.drop_last();
    let e = d.drop_last();
    let f = e.drop_last();
    assert(stage_of(a) is AwaitGo);
    assert(stage_of(b) is ReportSuccess);
    assert(stage_of(c) is LookUpUser);
    assert(stage_of(d) is AccountCheck);
    assert(stage_of(e) is Authenticate);
    assert(stage_of(f) is SetTty);
    assert(stage_of(f.drop_last()) is Context);
    assert(f.drop_last().len() == 0);
    assert(results.take(2) =~= e);
    assert(results.take(3) =~= d);
    assert(results.take(6) =~= a);
}

/// A supervised process and its exit status, once it is known.
#[derive(Debug, Clone, Copy, PartialEq, Eq, Structural)]
pub struct SessionProcess {
    pub pid: i32,
    pub exit_status: Option<i32>,
}

impl SessionProcess {
    /// A process that runs.
    pub fn new(pid: i32) -> (r: SessionProcess)
        ensures
            r == (SessionProcess { pid, exit_status: None }),
    {
        SessionProcess { pid, exit_status: None }
    }

    /// The status of a finished wait: the first one is kept and given back by
    /// every later wait.
    pub fn wait(&mut self, status: i32) -> (r: i32)
        ensures
            r == match old(self).exit_status {
                Some(first) => first,
                None => status,
            },
            *final(self) == (SessionProcess { pid: old(self).pid, exit_status: Some(r) }),
    {
        match self.exit_status {
            Some(first) => first,
            None => {
                self.exit_status = Some(status);
                status
            },
        }
    }
}

/// A session knows its user: it finds their home, their name and their shell
/// under the names that programs look for, and the console it runs on; and it has
/// the keyboard of the configuration, with what that leaves empty left out.
pub proof fn law_session_knows_its_user(cfg: Config, user: UserEntry)
    ensures
        ({
            let env = base_env(cfg, user);
            &&& lookup(env, "HOME"@) == Some(user.dir@)
            &&& lookup(env, "USER"@) == Some(user.name@)
            &&& lookup(env, "LOGNAME"@) == Some(user.name@)
            &&& lookup(env, "SHELL"@) == Some(user.shell@)
            &&& lookup(env, "XDG_SESSION_TYPE"@) == Some("wayland"@)
            &&& lookup(env, "XDG_CURRENT_DESKTOP"@) == Some("focaldesk"@)
            &&& lookup(env, "XDG_SEAT"@) == Some("seat0"@)
            &&& lookup(env, "XDG_VTNR"@) == Some(dec(cfg.vt as nat))
            &&& lookup(env, "XKB_DEFAULT_LAYOUT"@) == Some(cfg.keyboard_layout@)
            &&& lookup(env, "XKB_DEFAULT_VARIANT"@) == if cfg.keyboard_variant@.len() > 0 {
                Some(cfg.keyboard_variant@)
            } else {
                None
            }
            &&& lookup(env, "XKB_DEFAULT_MODEL"@) == if cfg.keyboard_model@.len() > 0 {
                Some(cfg.keyboard_model@)
            } else {
                None
            }
            &&& lookup(env, "XKB_DEFAULT_OPTIONS"@) == if cfg.keyboard_options@.len() > 0 {
                Some(cfg.keyboard_options@)
            } else {
                None
            }
        }),
{
    let env = base_env(cfg, user);
    lemma_base_named_once(cfg, user);
    lemma_base_names(cfg, user);
    let v = if cfg.keyboard_variant@.len() > 0 {
        1int
    } else {
        0
    };
    let m = if cfg.keyboard_model@.len() > 0 {
        1int
    } else {
        0
    };
    lemma_named_lookup(env, "HOME"@, 0);
    lemma_named_lookup(env, "USER"@, 1);
    lemma_named_lookup(env, "LOGNAME"@, 2);
    lemma_named_lookup(env, "SHELL"@, 3);
    lemma_named_lookup(env, "XDG_SESSION_TYPE"@, 4);
    lemma_named_lookup(env, "XDG_CURRENT_DESKTOP"@, 5);
    lemma_named_lookup(env, "XDG_SEAT"@, 6);
    lemma_named_lookup(env, "XDG_VTNR"@, 7);
    lemma_named_lookup(env, "XKB_DEFAULT_LAYOUT"@, 8);
    if v == 1 {
        lemma_named_lookup(env, "XKB_DEFAULT_VARIANT"@, 9);
    } else {
        lemma_unnamed_lookup(env, "XKB_DEFAULT_VARIANT"@);
    }
    if m == 1 {
        lemma_named_lookup(env, "XKB_DEFAULT_MODEL"@, 9 + v);
    } else {
        lemma_unnamed_lookup(env, "XKB_DEFAULT_MODEL"@);
    }
    if cfg.keyboard_options@.len() > 0 {
        lemma_named_lookup(env, "XKB_DEFAULT_OPTIONS"@, 9 + v + m);
    } else {
        lemma_unnamed_lookup(env, "XKB_DEFAULT_OPTIONS"@);
    }
}

proof fn lemma_named_lookup(env: Seq<(Seq<char>, Seq<char>)>, key: Seq<char>, n: int)
    requires
        named_once(env),
        0 <= n < env.len(),
        env[n].0 == key,
    ensures
        lookup(env, key) == Some(env[n].1),
{
    assert forall|i: int| 0 <= i < n implies (#[trigger] env[i]).0 != key by {
        assert(env[i].0 != env[n].0);
    }
    lemma_slot_of(env, key, n);
}

proof fn lemma_unnamed_lookup(env: Seq<(Seq<char>, Seq<char>)>, key: Seq<char>)
    requires
        forall|i: int| 0 <= i < env.len() ==> (#[trigger] env[i]).0 != key,
    ensures
        lookup(env, key) is None,
{
    lemma_slot_of(env, key, env.len() as int);
}

proof fn lemma_base_names(cfg: Config, user: UserEntry)
    ensures
        ({
            let env = base_env(cfg, user);
            &&& cfg.keyboard_variant@.len() == 0 ==> forall|i: int|
                0 <= i < env.len() ==> (#[trigger] env[i]).0 != "XKB_DEFAULT_VARIANT"@
            &&& cfg.keyboard_model@.len() == 0 ==> forall|i: int|
                0 <= i < env.len() ==> (#[trigger] env[i]).0 != "XKB_DEFAULT_MODEL"@
            &&& cfg.keyboard_options@.len() == 0 ==> forall|i: int|
                0 <= i < env.len() ==> (#[trigger] env[i]).0 != "XKB_DEFAULT_OPTIONS"@
        }),
{
    reveal_strlit("HOME");
    reveal_strlit("USER");
    reveal_strlit("LOGNAME");
    reveal_strlit("SHELL");
    reveal_strlit("XDG_SESSION_TYPE");
    reveal_strlit("XDG_CURRENT_DESKTOP");
    reveal_strlit("XDG_SEAT");
    reveal_strlit("XDG_VTNR");
    reveal_strlit("XKB_DEFAULT_LAYOUT");
    reveal_strlit("XKB_DEFAULT_VARIANT");
    reveal_strlit("XKB_DEFAULT_MODEL");
    reveal_strlit("XKB_DEFAULT_OPTIONS");
    assert("HOME"@.len() == 4 && "USER"@.len() == 4 && "LOGNAME"@.len() == 7 && "SHELL"@.len()
        == 5);
    assert("XDG_SESSION_TYPE"@.len() == 16 && "XDG_CURRENT_DESKTOP"@.len() == 19 && "XDG_SEAT"@.len()
        == 8 && "XDG_VTNR"@.len() == 8);
    assert("XKB_DEFAULT_LAYOUT"@.len() == 18 && "XKB_DEFAULT_VARIANT"@.len() == 19
        && "XKB_DEFAULT_MODEL"@.len() == 17 && "XKB_DEFAULT_OPTIONS"@.len() == 19);
    assert("XDG_CURRENT_DESKTOP"@[1] != "XKB_DEFAULT_VARIANT"@[1]);
    assert("XDG_CURRENT_DESKTOP"@[1] != "XKB_DEFAULT_OPTIONS"@[1]);
    assert("XKB_DEFAULT_VARIANT"@[12] != "XKB_DEFAULT_OPTIONS"@[12]);
}

/// Every variable that a C string can hold is handed to the program, in its
/// order, its name and its value with an equals sign between them; none of the
/// others is.
pub proof fn law_assignments(
    env: Seq<(Seq<char>, Seq<char>)>,
    more: Seq<(Seq<char>, Seq<char>)>,
    key: Seq<char>,
    value: Seq<char>,
)
    ensures
        assignments(env + more) == assignments(env) + assignments(more),
        !key.contains('\0') && !value.contains('\0') ==> assignments(seq![(key, value)]) == seq![
            key.push('=') + value,
        ],
        key.contains('\0') || value.contains('\0') ==> assignments(seq![(key, value)]).len() == 0,
    decreases more.len(),
{
    reveal_with_fuel(assignments, 2);
    let one = seq![(key, value)];
    assert(one.drop_last() =~= Seq::<(Seq<char>, Seq<char>)>::empty());
    let text = assignment((key, value));
    assert(text =~= key.push('=') + value);
    if key.contains('\0') {
        let i = choose|i: int| 0 <= i < key.len() && key[i] == '\0';
        assert(text[i] == '\0');
    }
    if value.contains('\0') {
        let i = choose|i: int| 0 <= i < value.len() && value[i] == '\0';
        assert(text[key.len() + 1 + i] == '\0');
    }
    if text.contains('\0') {
        let i = choose|i: int| 0 <= i < text.len() && text[i] == '\0';
        if i < key.len() {
            assert(key[i] == '\0');
        } else if i > key.len() {
            assert(value[i - key.len() - 1] == '\0');
        }
    }
    assert(assignments(one) =~= if text.contains('\0') {
        Seq::<Seq<char>>::empty()
    } else {
        seq![text]
    });
    if more.len() == 0 {
        assert(env + more =~= env);
        assert(assignments(env) + assignments(more) =~= assignments(env));
    } else {
        law_assignments(env, more.drop_last(), key, value);
        assert((env + more).drop_last() =~= env + more.drop_last());
        assert((env + more).last() == more.last());
        assert(assignments(env + more) =~= assignments(env) + assignments(more));
    }
}

/// Where every step succeeds the program is run; where dropping a privilege
/// fails, it never is, and the process ends with a failure. The working
/// directory and the standard input do not decide.
pub proof fn law_exec_or_exit(results: Seq<bool>)
    ensures
        results.len() == 7 && (forall|i: int| 2 <= i < 7 ==> results[i]) ==> exec_step_of(
            results,
        ) is Exec,
        results.len() >= 7 && (exists|i: int| 2 <= i < 7 && !results[i]) ==> exec_step_of(results)
            == ExecStep::Exit(1),
        results.len() >= 8 && (forall|i: int| 2 <= i < 7 ==> results[i]) ==> exec_step_of(results)
            == ExecStep::Exit(127),
    decreases results.len(),
{
    if results.len() > 0 {
        let front = results.drop_last();
        law_exec_or_exit(front);
        if results.len() > 7 {
            if exists|i: int| 2 <= i < 7 && !results[i] {
                let i = choose|i: int| 2 <= i < 7 && !results[i];
                assert(!front[i]);
            } else {
                assert forall|i: int| 2 <= i < 7 implies front[i] by {
                    assert(results[i]);
                }
            }
        } else if results.len() == 7 {
            lemma_exec_steps(results);
        }
    }
}

proof fn lemma_exec_steps(results: Seq<bool>)
    requires
        results.len() == 7,
    ensures
        exec_step_of(results) == if results[2] && results[3] && results[4] && results[5]
            && results[6] {
            ExecStep::Exec
        } else {
            ExecStep::Exit(1)
        },
{
    reveal_with_fuel(exec_step_of, 8);
}

/// A pipe is done when all its bytes went through, whatever the pieces; an
/// interruption loses none, and a side that closes early is noticed.
pub proof fn law_pipe(filled: int, len: int, n: usize)
    requires
        0 <= filled < len <= usize::MAX,
        n <= len - filled,
    ensures
        pipe_after(filled, len, Transfer::Moved(n)) == PipeStep::Complete <==> n == len - filled,
        0 < n < len - filled ==> pipe_after(filled, len, Transfer::Moved(n)) == PipeStep::More(
            (filled + n) as usize,
        ),
        pipe_after(filled, len, Transfer::Moved(0)) == PipeStep::Ended,
        pipe_after(filled, len, Transfer::Interrupted) == PipeStep::More(filled as usize),
        pipe_after(filled, len, Transfer::WouldBlock) == PipeStep::Failed,
        pipe_after(filled, len, Transfer::Failed) == PipeStep::Failed,
{
}

/// A transaction that succeeds throughout opens the session and reports how that
/// went. One that fails before the user is authenticated is reported as failed;
/// a success is reported only after the account was checked, and a session is not
/// opened for a greeter that is gone.
pub proof fn law_transaction_outcomes(results: Seq<bool>)
    ensures
        results.len() == 7 && (forall|i: int| 0 <= i < 7 ==> results[i]) ==> stage_of(results)
            is Open,
        results.len() == 8 && (forall|i: int| 0 <= i < 7 ==> results[i]) ==> stage_of(results)
            is ReportResult,
        results.len() > 0 && stage_of(results) is ReportFailure ==> results.len() <= 4
            && !results.last() && forall|i: int| 0 <= i < results.len() - 1 ==> results[i],
        0 < results.len() <= 4 && !results.last() && (forall|i: int|
            0 <= i < results.len() - 1 ==> results[i]) ==> stage_of(results) is ReportFailure,
        stage_of(results) is ReportSuccess ==> results.len() == 5 && forall|i: int|
            0 <= i < 5 ==> results[i],
        results.len() > 8 ==> stage_of(results) is Ended,
    decreases results.len(),
{
    lemma_stage_count(results);
    if results.len() <= 8 {
        reveal_with_fuel(stage_of, 9);
    } else {
        law_transaction_outcomes(results.drop_last());
        lemma_stage_count(results.drop_last());
    }
}

/// Which stage it is tells how many steps lie behind it.
proof fn lemma_stage_count(results: Seq<bool>)
    ensures
        stage_of(results) is Context ==> results.len() == 0,
        stage_of(results) is SetTty ==> results.len() == 1,
        stage_of(results) is Authenticate ==> results.len() == 2,
        stage_of(results) is AccountCheck ==> results.len() == 3,
        stage_of(results) is LookUpUser ==> results.len() == 4,
        stage_of(results) is ReportSuccess ==> results.len() == 5,
        stage_of(results) is AwaitGo ==> results.len() == 6,
        stage_of(results) is Open ==> results.len() == 7,
        stage_of(results) is ReportResult ==> results.len() == 8,
        stage_of(results) is ReportFailure ==> 1 <= results.len() <= 4,
        results.len() > 8 ==> stage_of(results) is Ended,
    decreases results.len(),
{
    if results.len() > 0 {
        lemma_stage_count(results.drop_last());
    }
}

} // verus!
