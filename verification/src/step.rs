//! The dispatch rules, as one mathematical step function.
//!
//! [`spec_step`] says, for every session, token sequence, inventory and
//! directory list, what the router must do: the next state, the settings
//! after the command, the gateway actions in order, the reply, and whether
//! the session ends. The executable router is proved to implement it.
//!
//! Verbs and structural keywords are matched on the normalized (lower-cased)
//! tokens; user-supplied identifiers on the raw tokens, case-sensitively.
//!
//! Transition policy: `delete repo` moves the state to `Home` optimistically,
//! before and regardless of the gateway outcome, as the step function
//! decides every state change before any action runs.

use vstd::prelude::*;
use crate::actions::{ActionView, ErrView, ReplyView};
use crate::inventory::{
    count_matches, spec_join, seg_match, DirView, RepoView,
};
use crate::state::{SessionView, SettingsView, StateView};
use crate::tokens::{has_tok, lower_chars, norm_is, norm_of, some_norm_is};

verus! {

broadcast use vstd::string::group_string_axioms;

/// The commit message used when none is given.
pub open spec fn spec_default_message() -> Seq<char> {
    "commited by Git-Manager"@
}

/// Whether the inventory holds a repository named exactly `name`.
pub open spec fn inv_contains(inv: Seq<RepoView>, name: Seq<char>) -> bool {
    exists|i: int| 0 <= i < inv.len() && (#[trigger] inv[i]).name == name
}

/// The inventory records named exactly `name`, among the first `i`, in order.
pub open spec fn repos_named_upto(inv: Seq<RepoView>, name: Seq<char>, i: int) -> Seq<RepoView>
    decreases i,
{
    if i <= 0 {
        Seq::empty()
    } else if inv[i - 1].name == name {
        repos_named_upto(inv, name, i - 1).push(inv[i - 1])
    } else {
        repos_named_upto(inv, name, i - 1)
    }
}

/// The inventory records named exactly `name`, in inventory order.
pub open spec fn repos_named(inv: Seq<RepoView>, name: Seq<char>) -> Seq<RepoView> {
    repos_named_upto(inv, name, inv.len() as int)
}

/// The index of the first directory whose final segment is `name`, at or
/// after `i`; the list's length when there is none.
pub open spec fn first_match_from(dirs: Seq<DirView>, name: Seq<char>, i: int) -> int
    decreases dirs.len() - i,
{
    if i < 0 || i >= dirs.len() {
        dirs.len() as int
    } else if seg_match(dirs[i], name) {
        i
    } else {
        first_match_from(dirs, name, i + 1)
    }
}

/// The index of the first directory whose final segment is `name`.
pub open spec fn first_match(dirs: Seq<DirView>, name: Seq<char>) -> int {
    first_match_from(dirs, name, 0)
}

/// `first_match_from` finds the first match at or after `i`, and nothing
/// before it matches.
pub proof fn lemma_first_match_props(dirs: Seq<DirView>, name: Seq<char>, i: int)
    requires
        0 <= i <= dirs.len(),
    ensures
        i <= first_match_from(dirs, name, i) <= dirs.len(),
        first_match_from(dirs, name, i) < dirs.len() ==> seg_match(
            dirs[first_match_from(dirs, name, i)],
            name,
        ),
        forall|k: int|
            i <= k < first_match_from(dirs, name, i) ==> !seg_match(#[trigger] dirs[k], name),
    decreases dirs.len() - i,
{
    if i < dirs.len() && !seg_match(dirs[i], name) {
        lemma_first_match_props(dirs, name, i + 1);
    }
}

/// With at most one match in the list, a matching index is the first match.
pub proof fn lemma_unique_match(dirs: Seq<DirView>, name: Seq<char>, j: int)
    requires
        0 <= j < dirs.len(),
        seg_match(dirs[j], name),
        count_matches(dirs, name) <= 1,
    ensures
        first_match(dirs, name) == j,
{
    lemma_first_match_props(dirs, name, 0);
    let f = first_match(dirs, name);
    if f < j {
        crate::inventory::lemma_two_matches(dirs, name, f, j);
    }
    if j < f {
        crate::inventory::lemma_two_matches(dirs, name, j, f);
    }
}

/// What one step decides: the session after the command, the gateway
/// actions in order, the reply, and the exit and persist flags.
pub struct StepView {
    pub state: StateView,
    pub settings: SettingsView,
    pub actions: Seq<ActionView>,
    pub reply: ReplyView,
    pub exit: bool,
    pub persist: bool,
}

/// A step that changes nothing and stays quiet.
pub open spec fn step_quiet(s: SessionView) -> StepView {
    StepView {
        state: s.state,
        settings: s.settings,
        actions: Seq::empty(),
        reply: ReplyView::Nothing,
        exit: false,
        persist: false,
    }
}

/// A step that only reports one error; state and settings are unchanged.
pub open spec fn step_err(s: SessionView, e: ErrView) -> StepView {
    StepView { reply: ReplyView::Failed(e), ..step_quiet(s) }
}

/// A step that only presents something.
pub open spec fn step_reply(s: SessionView, r: ReplyView) -> StepView {
    StepView { reply: r, ..step_quiet(s) }
}

/// A step that only performs gateway actions.
pub open spec fn step_acts(s: SessionView, a: Seq<ActionView>) -> StepView {
    StepView { actions: a, ..step_quiet(s) }
}

/// `open <name>` / `open config`: the state transitions, from `Home` only.
pub open spec fn spec_open(s: SessionView, t: Seq<Seq<char>>, inv: Seq<RepoView>) -> StepView {
    if !(s.state is Home) {
        step_err(s, ErrView::WrongState { verb: "open"@ })
    } else if !has_tok(t, 1) {
        step_err(s, ErrView::MissingArgument { what: "name"@ })
    } else if norm_is(t, 1, "config"@) {
        StepView { state: StateView::Config, ..step_quiet(s) }
    } else if inv_contains(inv, t[1]) {
        StepView { state: StateView::Repo(t[1]), reply: ReplyView::Help, ..step_quiet(s) }
    } else {
        step_err(s, ErrView::NotFound { name: t[1] })
    }
}

/// The optional commit message of an upload form whose first message token
/// would sit at `i`: that raw token, unless absent or the force flag.
pub open spec fn spec_message_at(t: Seq<Seq<char>>, i: int) -> Seq<char> {
    if has_tok(t, i) && norm_of(t, i) != "--force"@ {
        t[i]
    } else {
        spec_default_message()
    }
}

/// One upload per inventory record, in inventory order.
pub open spec fn spec_upload_all(inv: Seq<RepoView>, force: bool) -> Seq<ActionView> {
    Seq::new(
        inv.len(),
        |i: int| ActionView::Upload {
            target: inv[i].path,
            message: spec_default_message(),
            force: force,
        },
    )
}

/// `upload` / `upload all` / `upload <name> [msg] [--force]`.
///
/// Inside a repository the verb acts on the open repository and the first
/// argument, when given, is the commit message.
pub open spec fn spec_upload(s: SessionView, t: Seq<Seq<char>>, inv: Seq<RepoView>) -> StepView {
    let force = some_norm_is(t, "--force"@);
    if norm_is(t, 1, "all"@) {
        step_acts(s, spec_upload_all(inv, force))
    } else if s.state is Repo {
        let n = s.state->Repo_0;
        step_acts(
            s,
            seq![
                ActionView::Upload { target: n, message: spec_message_at(t, 1), force: force }
            ],
        )
    } else if !has_tok(t, 1) {
        step_err(s, ErrView::MissingArgument { what: "repository name"@ })
    } else if repos_named(inv, t[1]).len() == 0 {
        step_err(s, ErrView::NotFound { name: t[1] })
    } else {
        step_acts(
            s,
            repos_named(inv, t[1]).map_values(
                |r: RepoView| ActionView::Upload {
                    target: r.path,
                    message: spec_message_at(t, 2),
                    force: force,
                },
            ),
        )
    }
}

/// The API key travels with a download exactly when the remote user is the
/// configured user: fetching one's own account is private-capable,
/// everything else is unauthenticated.
pub open spec fn spec_auth(st: SettingsView, user: Seq<char>) -> Option<Seq<char>> {
    if user == st.username {
        Some(st.api_key)
    } else {
        None
    }
}

/// `download <name> from <user>` / `download all from <user>`, from `Home`
/// only.
pub open spec fn spec_download(s: SessionView, t: Seq<Seq<char>>) -> StepView {
    if !(s.state is Home) {
        step_err(s, ErrView::WrongState { verb: "download"@ })
    } else if !has_tok(t, 1) {
        step_err(s, ErrView::MissingArgument { what: "repository name"@ })
    } else if !norm_is(t, 2, "from"@) {
        step_err(s, ErrView::MissingKeyword { keyword: "from"@ })
    } else if !has_tok(t, 3) {
        step_err(s, ErrView::MissingArgument { what: "username"@ })
    } else if norm_is(t, 1, "all"@) {
        step_acts(
            s,
            seq![
                ActionView::DownloadAll {
                    user: t[3],
                    auth: spec_auth(s.settings, t[3]),
                    dest: s.settings.project_path,
                }
            ],
        )
    } else {
        step_acts(
            s,
            seq![
                ActionView::Download {
                    repo: t[1],
                    user: t[3],
                    auth: spec_auth(s.settings, t[3]),
                    dest: s.settings.project_path,
                }
            ],
        )
    }
}

/// One update per inventory record, in inventory order.
pub open spec fn spec_update_all(inv: Seq<RepoView>, force: bool) -> Seq<ActionView> {
    Seq::new(inv.len(), |i: int| ActionView::Update { target: inv[i].path, force: force })
}

/// `update` / `update all [--force]` / `update <name> [--force]`.
///
/// Inside a repository the verb acts on the open repository.
pub open spec fn spec_update(s: SessionView, t: Seq<Seq<char>>, inv: Seq<RepoView>) -> StepView {
    let force = some_norm_is(t, "--force"@);
    if norm_is(t, 1, "all"@) {
        step_acts(s, spec_update_all(inv, force))
    } else if s.state is Repo {
        step_acts(s, seq![ActionView::Update { target: s.state->Repo_0, force: force }])
    } else if !has_tok(t, 1) {
        step_err(s, ErrView::MissingArgument { what: "repository name"@ })
    } else if repos_named(inv, t[1]).len() == 0 {
        step_err(s, ErrView::NotFound { name: t[1] })
    } else {
        step_acts(
            s,
            repos_named(inv, t[1]).map_values(
                |r: RepoView| ActionView::Update { target: r.path, force: force },
            ),
        )
    }
}

/// `delete repo` / `delete branch <name> [from <repo>]` /
/// `delete folder <name>`.
///
/// `delete repo` inside a repository also performs the `Home` transition,
/// optimistically (see the module note). Explicit identifiers are rejected
/// while inside a repository.
pub open spec fn spec_delete(
    s: SessionView,
    t: Seq<Seq<char>>,
    inv: Seq<RepoView>,
    dirs: Seq<DirView>,
) -> StepView {
    if !has_tok(t, 1) {
        step_err(s, ErrView::MissingArgument { what: "argument"@ })
    } else if norm_is(t, 1, "folder"@) {
        if !has_tok(t, 2) {
            step_err(s, ErrView::MissingArgument { what: "folder name"@ })
        } else if count_matches(dirs, t[2]) == 0 {
            step_err(s, ErrView::NotFoundInRoot { name: t[2], root: s.settings.project_path })
        } else if count_matches(dirs, t[2]) >= 2 {
            step_err(s, ErrView::MultipleFound { name: t[2] })
        } else {
            step_acts(
                s,
                seq![
                    ActionView::DeleteDir {
                        path: spec_join(dirs[first_match(dirs, t[2])].path),
                    }
                ],
            )
        }
    } else if norm_is(t, 1, "repo"@) {
        if s.state is Repo {
            if has_tok(t, 2) {
                step_err(s, ErrView::ExplicitInRepo { what: t[2] })
            } else {
                StepView {
                    state: StateView::Home,
                    actions: seq![ActionView::DeleteRepo { name: s.state->Repo_0 }],
                    ..step_quiet(s)
                }
            }
        } else if !has_tok(t, 2) {
            step_err(s, ErrView::MissingArgument { what: "repository name"@ })
        } else if inv_contains(inv, t[2]) {
            step_acts(s, seq![ActionView::DeleteRepo { name: t[2] }])
        } else {
            step_err(s, ErrView::NotFound { name: t[2] })
        }
    } else if norm_is(t, 1, "branch"@) {
        if !has_tok(t, 2) {
            step_err(s, ErrView::MissingArgument { what: "branch name"@ })
        } else if s.state is Repo {
            if has_tok(t, 3) {
                step_err(s, ErrView::ExplicitInRepo { what: t[3] })
            } else {
                step_acts(
                    s,
                    seq![
                        ActionView::DeleteBranch { repo: s.state->Repo_0, branch: t[2] }
                    ],
                )
            }
        } else if !norm_is(t, 3, "from"@) {
            step_err(s, ErrView::MissingKeyword { keyword: "from"@ })
        } else if !has_tok(t, 4) {
            step_err(s, ErrView::MissingArgument { what: "repository name"@ })
        } else {
            step_acts(s, seq![ActionView::DeleteBranch { repo: t[4], branch: t[2] }])
        }
    } else {
        step_err(s, ErrView::InvalidArgument { what: t[1] })
    }
}

/// `create branch <name> [in <repo>]` / `create repo <name> <public|private>`.
///
/// Explicit repository clauses are rejected while inside a repository.
pub open spec fn spec_create(s: SessionView, t: Seq<Seq<char>>) -> StepView {
    if !has_tok(t, 1) {
        step_err(s, ErrView::MissingArgument { what: "argument"@ })
    } else if norm_is(t, 1, "branch"@) {
        if !has_tok(t, 2) {
            step_err(s, ErrView::MissingArgument { what: "branch name"@ })
        } else if s.state is Repo {
            if has_tok(t, 3) {
                step_err(s, ErrView::ExplicitInRepo { what: t[3] })
            } else {
                step_acts(
                    s,
                    seq![
                        ActionView::CreateBranch { repo: s.state->Repo_0, branch: t[2] }
                    ],
                )
            }
        } else if !norm_is(t, 3, "in"@) {
            step_err(s, ErrView::MissingKeyword { keyword: "in"@ })
        } else if !has_tok(t, 4) {
            step_err(s, ErrView::MissingArgument { what: "repository name"@ })
        } else {
            step_acts(s, seq![ActionView::CreateBranch { repo: t[4], branch: t[2] }])
        }
    } else if norm_is(t, 1, "repo"@) {
        if !has_tok(t, 2) {
            step_err(s, ErrView::MissingArgument { what: "repository name"@ })
        } else if norm_is(t, 3, "public"@) {
            step_acts(s, seq![ActionView::CreateRepo { name: t[2], public: true }])
        } else if norm_is(t, 3, "private"@) {
            step_acts(s, seq![ActionView::CreateRepo { name: t[2], public: false }])
        } else if !has_tok(t, 3) {
            step_err(s, ErrView::MissingArgument { what: "visibility"@ })
        } else {
            step_err(s, ErrView::InvalidArgument { what: t[3] })
        }
    } else {
        step_err(s, ErrView::InvalidArgument { what: t[1] })
    }
}

/// `migrate <project> <public|private>`: resolves the project against the
/// directory list (not the inventory), rejects known repositories and
/// ambiguous names, never resolving ambiguity by picking a match.
pub open spec fn spec_migrate(
    s: SessionView,
    t: Seq<Seq<char>>,
    inv: Seq<RepoView>,
    dirs: Seq<DirView>,
) -> StepView {
    if !has_tok(t, 1) {
        step_err(s, ErrView::MissingArgument { what: "project name"@ })
    } else if count_matches(dirs, t[1]) == 0 {
        step_err(s, ErrView::NotFoundInRoot { name: t[1], root: s.settings.project_path })
    } else if count_matches(dirs, t[1]) >= 2 {
        step_err(s, ErrView::MultipleFound { name: t[1] })
    } else if inv_contains(inv, t[1]) {
        step_err(s, ErrView::AlreadyRepository { name: t[1] })
    } else if !has_tok(t, 2) {
        step_err(s, ErrView::MissingArgument { what: "visibility"@ })
    } else if norm_is(t, 2, "public"@) {
        step_acts(
            s,
            seq![
                ActionView::Migrate {
                    path: spec_join(dirs[first_match(dirs, t[1])].path),
                    name: t[1],
                    public: true,
                }
            ],
        )
    } else if norm_is(t, 2, "private"@) {
        step_acts(
            s,
            seq![
                ActionView::Migrate {
                    path: spec_join(dirs[first_match(dirs, t[1])].path),
                    name: t[1],
                    public: false,
                }
            ],
        )
    } else {
        step_err(s, ErrView::InvalidArgument { what: t[2] })
    }
}

/// `set <field> <value>`, in the configuration context only. The value is
/// the raw token: it round-trips exactly.
pub open spec fn spec_set(s: SessionView, t: Seq<Seq<char>>) -> StepView {
    if !(s.state is Config) {
        step_err(s, ErrView::WrongState { verb: "set"@ })
    } else if !has_tok(t, 1) {
        step_err(s, ErrView::MissingArgument { what: "field"@ })
    } else if !has_tok(t, 2) {
        step_err(s, ErrView::MissingArgument { what: "value"@ })
    } else if norm_is(t, 1, "username"@) {
        StepView {
            settings: SettingsView { username: t[2], ..s.settings },
            persist: true,
            ..step_quiet(s)
        }
    } else if norm_is(t, 1, "key"@) {
        StepView {
            settings: SettingsView { api_key: t[2], ..s.settings },
            persist: true,
            ..step_quiet(s)
        }
    } else if norm_is(t, 1, "path"@) {
        StepView {
            settings: SettingsView { project_path: t[2], ..s.settings },
            persist: true,
            ..step_quiet(s)
        }
    } else {
        step_err(s, ErrView::InvalidArgument { what: t[1] })
    }
}

/// `show`, in the configuration context only.
pub open spec fn spec_show(s: SessionView) -> StepView {
    if s.state is Config {
        step_reply(s, ReplyView::ShowSettings)
    } else {
        step_err(s, ErrView::WrongState { verb: "show"@ })
    }
}

/// `list`: presents the inventory; an empty inventory is reported as an
/// error.
pub open spec fn spec_list(s: SessionView, inv: Seq<RepoView>) -> StepView {
    if inv.len() == 0 {
        step_err(s, ErrView::EmptyInventory)
    } else {
        step_reply(s, ReplyView::ListInventory)
    }
}

/// The complete dispatch: what routing one tokenized line does, for every
/// session, inventory and directory list.
pub open spec fn spec_step(
    s: SessionView,
    t: Seq<Seq<char>>,
    inv: Seq<RepoView>,
    dirs: Seq<DirView>,
) -> StepView {
    if t.len() == 0 {
        step_quiet(s)
    } else {
        let v = norm_of(t, 0);
        if v == "open"@ {
            spec_open(s, t, inv)
        } else if v == "help"@ {
            step_reply(s, ReplyView::Help)
        } else if v == "upload"@ {
            spec_upload(s, t, inv)
        } else if v == "download"@ {
            spec_download(s, t)
        } else if v == "update"@ {
            spec_update(s, t, inv)
        } else if v == "delete"@ {
            spec_delete(s, t, inv, dirs)
        } else if v == "create"@ {
            spec_create(s, t)
        } else if v == "migrate"@ {
            spec_migrate(s, t, inv, dirs)
        } else if v == "list"@ {
            spec_list(s, inv)
        } else if v == "set"@ {
            spec_set(s, t)
        } else if v == "show"@ {
            spec_show(s)
        } else if v == "close"@ || v == "back"@ {
            StepView { state: StateView::Home, ..step_quiet(s) }
        } else if v == "exit"@ || v == "q"@ || v == "quit"@ || v == "esc"@ {
            StepView { exit: true, ..step_quiet(s) }
        } else if v == "clear"@ {
            step_reply(s, ReplyView::Clear)
        } else {
            step_err(s, ErrView::UnknownCommand { verb: v })
        }
    }
}

/// Verb and keyword matching is case-insensitive: two lines whose tokens
/// differ only in letter case at position 0 (the verb) route identically.
pub proof fn lemma_verb_case_insensitive(
    s: SessionView,
    t1: Seq<Seq<char>>,
    t2: Seq<Seq<char>>,
    inv: Seq<RepoView>,
    dirs: Seq<DirView>,
)
    requires
        t1.len() == t2.len(),
        t1.len() > 0,
        lower_chars(t1[0]) == lower_chars(t2[0]),
        forall|i: int| 1 <= i < t1.len() ==> t1[i] == t2[i],
    ensures
        spec_step(s, t1, inv, dirs).state == spec_step(s, t2, inv, dirs).state,
        spec_step(s, t1, inv, dirs).settings == spec_step(s, t2, inv, dirs).settings,
        spec_step(s, t1, inv, dirs).actions =~= spec_step(s, t2, inv, dirs).actions,
        spec_step(s, t1, inv, dirs).reply == spec_step(s, t2, inv, dirs).reply,
        spec_step(s, t1, inv, dirs).exit == spec_step(s, t2, inv, dirs).exit,
        spec_step(s, t1, inv, dirs).persist == spec_step(s, t2, inv, dirs).persist,
{
    assert(forall|i: int|
        0 <= i < t1.len() ==> lower_chars(#[trigger] t1[i]) == lower_chars(t2[i]));
    assert(some_norm_is(t1, "--force"@) == some_norm_is(t2, "--force"@)) by {
        if some_norm_is(t1, "--force"@) {
            let i = choose|i: int| norm_is(t1, i, "--force"@);
            assert(norm_is(t2, i, "--force"@));
        }
        if some_norm_is(t2, "--force"@) {
            let i = choose|i: int| norm_is(t2, i, "--force"@);
            assert(norm_is(t1, i, "--force"@));
        }
    }
    let v = norm_of(t1, 0);
    if v == "upload"@ {
        assert(spec_upload(s, t1, inv).actions =~= spec_upload(s, t2, inv).actions);
    } else if v == "update"@ {
        assert(spec_update(s, t1, inv).actions =~= spec_update(s, t2, inv).actions);
    }
}

/// `open <name>` never mutates the state when `<name>` is absent from the
/// inventory. (`open config` is the other form of the verb: it transitions
/// unconditionally and is excluded here.)
pub proof fn lemma_open_absent_keeps_state(
    s: SessionView,
    t: Seq<Seq<char>>,
    inv: Seq<RepoView>,
    dirs: Seq<DirView>,
)
    requires
        t.len() > 0,
        norm_of(t, 0) == "open"@,
        has_tok(t, 1),
        norm_of(t, 1) != "config"@,
        !inv_contains(inv, t[1]),
    ensures
        spec_step(s, t, inv, dirs).state == s.state,
        spec_step(s, t, inv, dirs).settings == s.settings,
        spec_step(s, t, inv, dirs).actions =~= Seq::<ActionView>::empty(),
{
}

/// `delete repo` while inside a repository always results in `Home`. The
/// transition is optimistic: the step decides it before any gateway call
/// runs, so it holds regardless of the gateway outcome.
pub proof fn lemma_delete_repo_goes_home(
    s: SessionView,
    t: Seq<Seq<char>>,
    inv: Seq<RepoView>,
    dirs: Seq<DirView>,
)
    requires
        s.state is Repo,
        t.len() > 0,
        norm_of(t, 0) == "delete"@,
        norm_is(t, 1, "repo"@),
        !has_tok(t, 2),
    ensures
        spec_step(s, t, inv, dirs).state == StateView::Home,
        spec_step(s, t, inv, dirs).actions =~= seq![
            ActionView::DeleteRepo { name: s.state->Repo_0 }
        ],
{
    reveal_strlit("open");
    reveal_strlit("help");
    reveal_strlit("upload");
    reveal_strlit("download");
    reveal_strlit("update");
    reveal_strlit("delete");
    reveal_strlit("folder");
    reveal_strlit("repo");
    assert("delete"@.len() == 6 && "open"@.len() == 4 && "help"@.len() == 4 && "upload"@.len()
        == 6 && "download"@.len() == 8 && "update"@.len() == 6 && "folder"@.len() == 6
        && "repo"@.len() == 4);
    assert("delete"@[0] == 'd' && "upload"@[0] == 'u' && "update"@[0] == 'u');
    assert("delete"@ != "open"@);
    assert("delete"@ != "help"@);
    assert("delete"@ != "upload"@);
    assert("delete"@ != "download"@);
    assert("delete"@ != "update"@);
    assert("repo"@ != "folder"@);
}

} // verus!
