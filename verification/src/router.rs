//! The command router.
//!
//! Given the current session, one tokenized command, the inventory and the
//! directory list, [`route`] selects exactly one handler, or reports a
//! single user-facing error, and is proved to implement the step function of
//! [`crate::step`] exactly.

use vstd::prelude::*;
use crate::actions::{action_views, Action, ActionView, CmdError, Directive, Reply};
use crate::inventory::{dir_views, find_file_in_path, Dir, Repository, SearchError, repo_views};
use crate::state::{Session, Settings, State};
use crate::step::{
    inv_contains, lemma_unique_match, repos_named, repos_named_upto, spec_auth, spec_create,
    spec_default_message, spec_delete, spec_download, spec_message_at, spec_migrate, spec_open,
    spec_set, spec_step, spec_update, spec_update_all, spec_upload, spec_upload_all,
};
use crate::tokens::{str_eq, Command};

verus! {

/// A directive that performs nothing and stays quiet.
fn quiet_directive() -> (d: Directive)
    ensures
        d@.actions == Seq::<ActionView>::empty(),
        d@.reply == crate::actions::ReplyView::Nothing,
        d@.exit == false,
        d@.persist == false,
{
    let d = Directive { actions: Vec::new(), reply: Reply::Nothing, exit: false, persist: false };
    proof {
        assert(d@.actions =~= Seq::<ActionView>::empty());
    }
    d
}

/// A directive that only reports one error.
fn fail(e: CmdError) -> (d: Directive)
    ensures
        d@.actions == Seq::<ActionView>::empty(),
        d@.reply == crate::actions::ReplyView::Failed(e@),
        d@.exit == false,
        d@.persist == false,
{
    let d = Directive {
        actions: Vec::new(),
        reply: Reply::Failed(e),
        exit: false,
        persist: false,
    };
    proof {
        assert(d@.actions =~= Seq::<ActionView>::empty());
    }
    d
}

/// A directive that only presents something.
fn present(r: Reply) -> (d: Directive)
    ensures
        d@.actions == Seq::<ActionView>::empty(),
        d@.reply == r@,
        d@.exit == false,
        d@.persist == false,
{
    let d = Directive { actions: Vec::new(), reply: r, exit: false, persist: false };
    proof {
        assert(d@.actions =~= Seq::<ActionView>::empty());
    }
    d
}

/// A directive that performs one gateway action.
fn act1(a: Action) -> (d: Directive)
    ensures
        d@.actions == seq![a@],
        d@.reply == crate::actions::ReplyView::Nothing,
        d@.exit == false,
        d@.persist == false,
{
    let ghost av = a@;
    let mut actions: Vec<Action> = Vec::new();
    actions.push(a);
    let d = Directive { actions, reply: Reply::Nothing, exit: false, persist: false };
    proof {
        assert(d@.actions =~= seq![av]);
    }
    d
}

/// A directive that performs the given gateway actions, in order.
fn act_list(actions: Vec<Action>) -> (d: Directive)
    ensures
        d@.actions == action_views(actions@),
        d@.reply == crate::actions::ReplyView::Nothing,
        d@.exit == false,
        d@.persist == false,
{
    Directive { actions, reply: Reply::Nothing, exit: false, persist: false }
}

/// The commit message used when none is given.
fn default_message() -> (m: String)
    ensures
        m@ == spec_default_message(),
{
    "commited by Git-Manager".to_owned()
}

/// Whether the inventory holds a repository named exactly `name`.
fn inventory_contains(inventory: &Vec<Repository>, name: &str) -> (r: bool)
    ensures
        r == inv_contains(repo_views(inventory@), name@),
{
    let ghost iv = repo_views(inventory@);
    let mut i: usize = 0;
    while i < inventory.len()
        invariant
            i <= inventory@.len(),
            iv == repo_views(inventory@),
            forall|j: int| 0 <= j < i ==> (#[trigger] iv[j]).name != name@,
        decreases inventory@.len() - i,
    {
        if str_eq(inventory[i].name.as_str(), name) {
            proof {
                assert((#[trigger] iv[i as int]).name == name@);
            }
            return true;
        }
        i += 1;
    }
    false
}

/// The paths of every inventory record, in inventory order.
fn inventory_paths(inventory: &Vec<Repository>) -> (v: Vec<String>)
    ensures
        v.deep_view() == repo_views(inventory@).map_values(|r: crate::inventory::RepoView| r.path),
{
    let ghost target = repo_views(inventory@).map_values(
        |r: crate::inventory::RepoView| r.path,
    );
    let mut v: Vec<String> = Vec::new();
    let mut i: usize = 0;
    while i < inventory.len()
        invariant
            i <= inventory@.len(),
            target == repo_views(inventory@).map_values(
                |r: crate::inventory::RepoView| r.path,
            ),
            v.deep_view() =~= target.take(i as int),
        decreases inventory@.len() - i,
    {
        let ghost pre = v.deep_view();
        v.push(inventory[i].path.clone());
        proof {
            assert(v.deep_view() =~= pre.push(inventory@[i as int].path@));
            assert(target.take(i + 1) =~= target.take(i as int).push(target[i as int]));
        }
        i += 1;
    }
    proof {
        assert(target.take(inventory@.len() as int) =~= target);
    }
    v
}

/// The paths of the inventory records named exactly `name`, in order.
fn named_paths(inventory: &Vec<Repository>, name: &str) -> (v: Vec<String>)
    ensures
        v.deep_view() == repos_named(repo_views(inventory@), name@).map_values(
            |r: crate::inventory::RepoView| r.path,
        ),
{
    let ghost iv = repo_views(inventory@);
    let mut v: Vec<String> = Vec::new();
    let mut i: usize = 0;
    while i < inventory.len()
        invariant
            i <= inventory@.len(),
            iv == repo_views(inventory@),
            v.deep_view() =~= repos_named_upto(iv, name@, i as int).map_values(
                |r: crate::inventory::RepoView| r.path,
            ),
        decreases inventory@.len() - i,
    {
        let ghost pre = v.deep_view();
        if str_eq(inventory[i].name.as_str(), name) {
            v.push(inventory[i].path.clone());
            proof {
                assert(v.deep_view() =~= pre.push(iv[i as int].path));
            }
        }
        proof {
            let f = |r: crate::inventory::RepoView| r.path;
            if iv[i as int].name == name@ {
                assert(repos_named_upto(iv, name@, i + 1).map_values(f) =~= repos_named_upto(
                    iv,
                    name@,
                    i as int,
                ).map_values(f).push(iv[i as int].path));
            } else {
                assert(repos_named_upto(iv, name@, i + 1) == repos_named_upto(
                    iv,
                    name@,
                    i as int,
                ));
            }
        }
        i += 1;
    }
    proof {
        assert(repos_named(iv, name@) == repos_named_upto(iv, name@, iv.len() as int));
    }
    v
}

/// One upload action per path, in order, all with the same message and
/// force flag.
fn upload_actions(paths: Vec<String>, message: &String, force: bool) -> (acts: Vec<Action>)
    ensures
        action_views(acts@) == paths.deep_view().map_values(
            |p: Seq<char>| ActionView::Upload { target: p, message: message@, force: force },
        ),
{
    let ghost f = |p: Seq<char>| ActionView::Upload {
        target: p,
        message: message@,
        force: force,
    };
    let mut acts: Vec<Action> = Vec::new();
    let mut i: usize = 0;
    while i < paths.len()
        invariant
            i <= paths@.len(),
            action_views(acts@) =~= paths.deep_view().take(i as int).map_values(f),
            f == (|p: Seq<char>| ActionView::Upload {
                target: p,
                message: message@,
                force: force,
            }),
        decreases paths@.len() - i,
    {
        let ghost pre = action_views(acts@);
        acts.push(
            Action::Upload { target: paths[i].clone(), message: message.clone(), force },
        );
        proof {
            assert(action_views(acts@) =~= pre.push(f(paths.deep_view()[i as int])));
            assert(paths.deep_view().take(i + 1).map_values(f) =~= paths.deep_view().take(
                i as int,
            ).map_values(f).push(f(paths.deep_view()[i as int])));
        }
        i += 1;
    }
    proof {
        assert(paths.deep_view().take(paths@.len() as int) =~= paths.deep_view());
    }
    acts
}

/// One update action per path, in order, with the same force flag.
fn update_actions(paths: Vec<String>, force: bool) -> (acts: Vec<Action>)
    ensures
        action_views(acts@) == paths.deep_view().map_values(
            |p: Seq<char>| ActionView::Update { target: p, force: force },
        ),
{
    let ghost f = |p: Seq<char>| ActionView::Update { target: p, force: force };
    let mut acts: Vec<Action> = Vec::new();
    let mut i: usize = 0;
    while i < paths.len()
        invariant
            i <= paths@.len(),
            action_views(acts@) =~= paths.deep_view().take(i as int).map_values(f),
            f == (|p: Seq<char>| ActionView::Update { target: p, force: force }),
        decreases paths@.len() - i,
    {
        let ghost pre = action_views(acts@);
        acts.push(Action::Update { target: paths[i].clone(), force });
        proof {
            assert(action_views(acts@) =~= pre.push(f(paths.deep_view()[i as int])));
            assert(paths.deep_view().take(i + 1).map_values(f) =~= paths.deep_view().take(
                i as int,
            ).map_values(f).push(f(paths.deep_view()[i as int])));
        }
        i += 1;
    }
    proof {
        assert(paths.deep_view().take(paths@.len() as int) =~= paths.deep_view());
    }
    acts
}

/// The commit message of an upload form whose first message token would sit
/// at `i`.
fn message_at(cmd: &Command, i: usize) -> (m: String)
    ensures
        m@ == spec_message_at(cmd@, i as int),
{
    match cmd.raw_at(i) {
        Some(tok) => {
            if cmd.norm_is(i, "--force") {
                default_message()
            } else {
                tok.clone()
            }
        },
        None => default_message(),
    }
}

/// The authentication that travels with a download toward `user`.
fn auth_for(settings: &Settings, user: &String) -> (a: Option<String>)
    ensures
        match a {
            Some(k) => spec_auth(settings@, user@) == Some(k@),
            None => spec_auth(settings@, user@) is None,
        },
{
    if str_eq(user.as_str(), settings.username.as_str()) {
        Some(settings.api_key.clone())
    } else {
        None
    }
}

/// `open <name>` / `open config`.
fn handle_open(session: &mut Session, cmd: &Command, inventory: &Vec<Repository>) -> (d: Directive)
    ensures
        ({
            let step = spec_open(old(session)@, cmd@, repo_views(inventory@));
            &&& final(session)@.state == step.state
            &&& final(session)@.settings == step.settings
            &&& d@.actions == step.actions
            &&& d@.reply == step.reply
            &&& d@.exit == step.exit
            &&& d@.persist == step.persist
        }),
{
    if !matches!(&session.state, State::Home) {
        return fail(CmdError::WrongState { verb: "open".to_owned() });
    }
    match cmd.raw_at(1) {
        None => fail(CmdError::MissingArgument { what: "name".to_owned() }),
        Some(name) => {
            if cmd.norm_is(1, "config") {
                session.state = State::Config;
                quiet_directive()
            } else if inventory_contains(inventory, name.as_str()) {
                let n = name.clone();
                session.state = State::Repo(n);
                present(Reply::Help)
            } else {
                fail(CmdError::NotFound { name: name.clone() })
            }
        },
    }
}

/// `upload` / `upload all` / `upload <name> [msg] [--force]`.
fn handle_upload(session: &Session, cmd: &Command, inventory: &Vec<Repository>) -> (d: Directive)
    ensures
        ({
            let step = spec_upload(session@, cmd@, repo_views(inventory@));
            &&& d@.actions == step.actions
            &&& d@.reply == step.reply
            &&& d@.exit == step.exit
            &&& d@.persist == step.persist
        }),
{
    let force = cmd.has_norm("--force");
    if cmd.norm_is(1, "all") {
        let paths = inventory_paths(inventory);
        let msg = default_message();
        let acts = upload_actions(paths, &msg, force);
        proof {
            assert(action_views(acts@) =~= spec_upload_all(repo_views(inventory@), force));
        }
        act_list(acts)
    } else {
        match &session.state {
            State::Repo(n) => {
                let msg = message_at(cmd, 1);
                let a = Action::Upload { target: n.clone(), message: msg, force };
                proof {
                    assert(a@ == (ActionView::Upload {
                        target: session@.state->Repo_0,
                        message: spec_message_at(cmd@, 1),
                        force: force,
                    }));
                    assert(seq![a@] =~= spec_upload(
                        session@,
                        cmd@,
                        repo_views(inventory@),
                    ).actions);
                }
                act1(a)
            },
            _ => {
                match cmd.raw_at(1) {
                    None => fail(
                        CmdError::MissingArgument { what: "repository name".to_owned() },
                    ),
                    Some(name) => {
                        let paths = named_paths(inventory, name.as_str());
                        proof {
                            assert(paths.deep_view().len() == repos_named(
                                repo_views(inventory@),
                                name@,
                            ).len());
                        }
                        if paths.len() == 0 {
                            fail(CmdError::NotFound { name: name.clone() })
                        } else {
                            let msg = message_at(cmd, 2);
                            let acts = upload_actions(paths, &msg, force);
                            proof {
                                assert(action_views(acts@) =~= spec_upload(
                                    session@,
                                    cmd@,
                                    repo_views(inventory@),
                                ).actions);
                            }
                            act_list(acts)
                        }
                    },
                }
            },
        }
    }
}

/// `download <name> from <user>` / `download all from <user>`.
fn handle_download(session: &Session, cmd: &Command) -> (d: Directive)
    ensures
        ({
            let step = spec_download(session@, cmd@);
            &&& d@.actions == step.actions
            &&& d@.reply == step.reply
            &&& d@.exit == step.exit
            &&& d@.persist == step.persist
        }),
{
    if !matches!(&session.state, State::Home) {
        return fail(CmdError::WrongState { verb: "download".to_owned() });
    }
    match cmd.raw_at(1) {
        None => fail(CmdError::MissingArgument { what: "repository name".to_owned() }),
        Some(name) => {
            if !cmd.norm_is(2, "from") {
                fail(CmdError::MissingKeyword { keyword: "from".to_owned() })
            } else {
                match cmd.raw_at(3) {
                    None => fail(CmdError::MissingArgument { what: "username".to_owned() }),
                    Some(user) => {
                        let auth = auth_for(&session.settings, user);
                        let dest = session.settings.project_path.clone();
                        if cmd.norm_is(1, "all") {
                            act1(Action::DownloadAll { user: user.clone(), auth, dest })
                        } else {
                            act1(
                                Action::Download {
                                    repo: name.clone(),
                                    user: user.clone(),
                                    auth,
                                    dest,
                                },
                            )
                        }
                    },
                }
            }
        },
    }
}

/// `update` / `update all [--force]` / `update <name> [--force]`.
fn handle_update(session: &Session, cmd: &Command, inventory: &Vec<Repository>) -> (d: Directive)
    ensures
        ({
            let step = spec_update(session@, cmd@, repo_views(inventory@));
            &&& d@.actions == step.actions
            &&& d@.reply == step.reply
            &&& d@.exit == step.exit
            &&& d@.persist == step.persist
        }),
{
    let force = cmd.has_norm("--force");
    if cmd.norm_is(1, "all") {
        let paths = inventory_paths(inventory);
        let acts = update_actions(paths, force);
        proof {
            assert(action_views(acts@) =~= spec_update_all(repo_views(inventory@), force));
            assert(action_views(acts@) =~= spec_update(
                session@,
                cmd@,
                repo_views(inventory@),
            ).actions);
        }
        act_list(acts)
    } else {
        match &session.state {
            State::Repo(n) => {
                let a = Action::Update { target: n.clone(), force };
                proof {
                    assert(a@ == (ActionView::Update {
                        target: session@.state->Repo_0,
                        force: force,
                    }));
                    assert(seq![a@] =~= spec_update(
                        session@,
                        cmd@,
                        repo_views(inventory@),
                    ).actions);
                }
                act1(a)
            },
            _ => {
                match cmd.raw_at(1) {
                    None => fail(
                        CmdError::MissingArgument { what: "repository name".to_owned() },
                    ),
                    Some(name) => {
                        let paths = named_paths(inventory, name.as_str());
                        proof {
                            assert(paths.deep_view().len() == repos_named(
                                repo_views(inventory@),
                                name@,
                            ).len());
                        }
                        if paths.len() == 0 {
                            fail(CmdError::NotFound { name: name.clone() })
                        } else {
                            let acts = update_actions(paths, force);
                            proof {
                                assert(action_views(acts@) =~= spec_update(
                                    session@,
                                    cmd@,
                                    repo_views(inventory@),
                                ).actions);
                            }
                            act_list(acts)
                        }
                    },
                }
            },
        }
    }
}

/// `delete repo` / `delete branch <name> [from <repo>]` /
/// `delete folder <name>`.
fn handle_delete(
    session: &mut Session,
    cmd: &Command,
    inventory: &Vec<Repository>,
    dirs: &Vec<Dir>,
) -> (d: Directive)
    ensures
        ({
            let step = spec_delete(
                old(session)@,
                cmd@,
                repo_views(inventory@),
                dir_views(dirs@),
            );
            &&& final(session)@.state == step.state
            &&& final(session)@.settings == step.settings
            &&& d@.actions == step.actions
            &&& d@.reply == step.reply
            &&& d@.exit == step.exit
            &&& d@.persist == step.persist
        }),
{
    let sub = match cmd.raw_at(1) {
        None => {
            return fail(CmdError::MissingArgument { what: "argument".to_owned() });
        },
        Some(sub) => sub,
    };
    if cmd.norm_is(1, "folder") {
        match cmd.raw_at(2) {
            None => fail(CmdError::MissingArgument { what: "folder name".to_owned() }),
            Some(name) => {
                match find_file_in_path(dirs, name.as_str()) {
                    Ok(p) => {
                        proof {
                            let dv = dir_views(dirs@);
                            let j = choose|j: int|
                                0 <= j < dirs@.len() && crate::inventory::seg_match(
                                    #[trigger] dir_views(dirs@)[j],
                                    name@,
                                ) && p@ == crate::inventory::spec_join(dir_views(dirs@)[j].path);
                            lemma_unique_match(dv, name@, j);
                        }
                        act1(Action::DeleteDir { path: p })
                    },
                    Err(SearchError::NotFound) => fail(
                        CmdError::NotFoundInRoot {
                            name: name.clone(),
                            root: session.settings.project_path.clone(),
                        },
                    ),
                    Err(SearchError::MultipleFound) => fail(
                        CmdError::MultipleFound { name: name.clone() },
                    ),
                }
            },
        }
    } else if cmd.norm_is(1, "repo") {
        let ctx: Option<String> = match &session.state {
            State::Repo(n) => Some(n.clone()),
            _ => None,
        };
        match ctx {
            Some(n) => {
                match cmd.raw_at(2) {
                    Some(extra) => fail(CmdError::ExplicitInRepo { what: extra.clone() }),
                    None => {
                        session.state = State::Home;
                        act1(Action::DeleteRepo { name: n })
                    },
                }
            },
            None => {
                match cmd.raw_at(2) {
                    None => fail(
                        CmdError::MissingArgument { what: "repository name".to_owned() },
                    ),
                    Some(name) => {
                        if inventory_contains(inventory, name.as_str()) {
                            act1(Action::DeleteRepo { name: name.clone() })
                        } else {
                            fail(CmdError::NotFound { name: name.clone() })
                        }
                    },
                }
            },
        }
    } else if cmd.norm_is(1, "branch") {
        match cmd.raw_at(2) {
            None => fail(CmdError::MissingArgument { what: "branch name".to_owned() }),
            Some(branch) => {
                match &session.state {
                    State::Repo(n) => {
                        match cmd.raw_at(3) {
                            Some(extra) => fail(
                                CmdError::ExplicitInRepo { what: extra.clone() },
                            ),
                            None => act1(
                                Action::DeleteBranch { repo: n.clone(), branch: branch.clone() },
                            ),
                        }
                    },
                    _ => {
                        if !cmd.norm_is(3, "from") {
                            fail(CmdError::MissingKeyword { keyword: "from".to_owned() })
                        } else {
                            match cmd.raw_at(4) {
                                None => fail(
                                    CmdError::MissingArgument {
                                        what: "repository name".to_owned(),
                                    },
                                ),
                                Some(repo) => act1(
                                    Action::DeleteBranch {
                                        repo: repo.clone(),
                                        branch: branch.clone(),
                                    },
                                ),
                            }
                        }
                    },
                }
            },
        }
    } else {
        fail(CmdError::InvalidArgument { what: sub.clone() })
    }
}

/// `create branch <name> [in <repo>]` / `create repo <name> <public|private>`.
fn handle_create(session: &Session, cmd: &Command) -> (d: Directive)
    ensures
        ({
            let step = spec_create(session@, cmd@);
            &&& d@.actions == step.actions
            &&& d@.reply == step.reply
            &&& d@.exit == step.exit
            &&& d@.persist == step.persist
        }),
{
    let sub = match cmd.raw_at(1) {
        None => {
            return fail(CmdError::MissingArgument { what: "argument".to_owned() });
        },
        Some(sub) => sub,
    };
    if cmd.norm_is(1, "branch") {
        match cmd.raw_at(2) {
            None => fail(CmdError::MissingArgument { what: "branch name".to_owned() }),
            Some(branch) => {
                match &session.state {
                    State::Repo(n) => {
                        match cmd.raw_at(3) {
                            Some(extra) => fail(
                                CmdError::ExplicitInRepo { what: extra.clone() },
                            ),
                            None => act1(
                                Action::CreateBranch { repo: n.clone(), branch: branch.clone() },
                            ),
                        }
                    },
                    _ => {
                        if !cmd.norm_is(3, "in") {
                            fail(CmdError::MissingKeyword { keyword: "in".to_owned() })
                        } else {
                            match cmd.raw_at(4) {
                                None => fail(
                                    CmdError::MissingArgument {
                                        what: "repository name".to_owned(),
                                    },
                                ),
                                Some(repo) => act1(
                                    Action::CreateBranch {
                                        repo: repo.clone(),
                                        branch: branch.clone(),
                                    },
                                ),
                            }
                        }
                    },
                }
            },
        }
    } else if cmd.norm_is(1, "repo") {
        match cmd.raw_at(2) {
            None => fail(CmdError::MissingArgument { what: "repository name".to_owned() }),
            Some(name) => {
                if cmd.norm_is(3, "public") {
                    act1(Action::CreateRepo { name: name.clone(), public: true })
                } else if cmd.norm_is(3, "private") {
                    act1(Action::CreateRepo { name: name.clone(), public: false })
                } else {
                    match cmd.raw_at(3) {
                        None => fail(
                            CmdError::MissingArgument { what: "visibility".to_owned() },
                        ),
                        Some(vis) => fail(CmdError::InvalidArgument { what: vis.clone() }),
                    }
                }
            },
        }
    } else {
        fail(CmdError::InvalidArgument { what: sub.clone() })
    }
}

/// `migrate <project> <public|private>`.
fn handle_migrate(
    session: &Session,
    cmd: &Command,
    inventory: &Vec<Repository>,
    dirs: &Vec<Dir>,
) -> (d: Directive)
    ensures
        ({
            let step = spec_migrate(session@, cmd@, repo_views(inventory@), dir_views(dirs@));
            &&& d@.actions == step.actions
            &&& d@.reply == step.reply
            &&& d@.exit == step.exit
            &&& d@.persist == step.persist
        }),
{
    match cmd.raw_at(1) {
        None => fail(CmdError::MissingArgument { what: "project name".to_owned() }),
        Some(name) => {
            match find_file_in_path(dirs, name.as_str()) {
                Err(SearchError::NotFound) => fail(
                    CmdError::NotFoundInRoot {
                        name: name.clone(),
                        root: session.settings.project_path.clone(),
                    },
                ),
                Err(SearchError::MultipleFound) => fail(
                    CmdError::MultipleFound { name: name.clone() },
                ),
                Ok(p) => {
                    proof {
                        let dv = dir_views(dirs@);
                        let j = choose|j: int|
                            0 <= j < dirs@.len() && crate::inventory::seg_match(
                                #[trigger] dir_views(dirs@)[j],
                                name@,
                            ) && p@ == crate::inventory::spec_join(dir_views(dirs@)[j].path);
                        lemma_unique_match(dv, name@, j);
                    }
                    if inventory_contains(inventory, name.as_str()) {
                        fail(CmdError::AlreadyRepository { name: name.clone() })
                    } else {
                        match cmd.raw_at(2) {
                            None => fail(
                                CmdError::MissingArgument { what: "visibility".to_owned() },
                            ),
                            Some(vis) => {
                                if cmd.norm_is(2, "public") {
                                    act1(
                                        Action::Migrate {
                                            path: p,
                                            name: name.clone(),
                                            public: true,
                                        },
                                    )
                                } else if cmd.norm_is(2, "private") {
                                    act1(
                                        Action::Migrate {
                                            path: p,
                                            name: name.clone(),
                                            public: false,
                                        },
                                    )
                                } else {
                                    fail(CmdError::InvalidArgument { what: vis.clone() })
                                }
                            },
                        }
                    }
                },
            }
        },
    }
}

/// A directive whose only effect is that the settings must be persisted.
fn persist_directive() -> (d: Directive)
    ensures
        d@.actions == Seq::<ActionView>::empty(),
        d@.reply == crate::actions::ReplyView::Nothing,
        d@.exit == false,
        d@.persist == true,
{
    let d = Directive { actions: Vec::new(), reply: Reply::Nothing, exit: false, persist: true };
    proof {
        assert(d@.actions =~= Seq::<ActionView>::empty());
    }
    d
}

/// A directive that ends the session.
fn exit_directive() -> (d: Directive)
    ensures
        d@.actions == Seq::<ActionView>::empty(),
        d@.reply == crate::actions::ReplyView::Nothing,
        d@.exit == true,
        d@.persist == false,
{
    let d = Directive { actions: Vec::new(), reply: Reply::Nothing, exit: true, persist: false };
    proof {
        assert(d@.actions =~= Seq::<ActionView>::empty());
    }
    d
}

/// `set <field> <value>`, in the configuration context only.
fn handle_set(session: &mut Session, cmd: &Command) -> (d: Directive)
    ensures
        ({
            let step = spec_set(old(session)@, cmd@);
            &&& final(session)@.state == step.state
            &&& final(session)@.settings == step.settings
            &&& d@.actions == step.actions
            &&& d@.reply == step.reply
            &&& d@.exit == step.exit
            &&& d@.persist == step.persist
        }),
{
    if !matches!(&session.state, State::Config) {
        return fail(CmdError::WrongState { verb: "set".to_owned() });
    }
    let field = match cmd.raw_at(1) {
        None => {
            return fail(CmdError::MissingArgument { what: "field".to_owned() });
        },
        Some(f) => f,
    };
    let value = match cmd.raw_at(2) {
        None => {
            return fail(CmdError::MissingArgument { what: "value".to_owned() });
        },
        Some(v) => v,
    };
    if cmd.norm_is(1, "username") {
        session.settings.username = value.clone();
        persist_directive()
    } else if cmd.norm_is(1, "key") {
        session.settings.api_key = value.clone();
        persist_directive()
    } else if cmd.norm_is(1, "path") {
        session.settings.project_path = value.clone();
        persist_directive()
    } else {
        fail(CmdError::InvalidArgument { what: field.clone() })
    }
}

/// Routes one tokenized command: selects exactly one handler, or reports a
/// single user-facing error, and returns what the loop must do. Implements
/// [`spec_step`] exactly.
pub fn route(
    session: &mut Session,
    cmd: &Command,
    inventory: &Vec<Repository>,
    dirs: &Vec<Dir>,
) -> (d: Directive)
    ensures
        ({
            let step = spec_step(
                old(session)@,
                cmd@,
                repo_views(inventory@),
                dir_views(dirs@),
            );
            &&& final(session)@.state == step.state
            &&& final(session)@.settings == step.settings
            &&& d@.actions == step.actions
            &&& d@.reply == step.reply
            &&& d@.exit == step.exit
            &&& d@.persist == step.persist
        }),
{
    let verb = match cmd.norm_at(0) {
        None => {
            return quiet_directive();
        },
        Some(v) => v,
    };
    let v = verb.as_str();
    if str_eq(v, "open") {
        handle_open(session, cmd, inventory)
    } else if str_eq(v, "help") {
        present(Reply::Help)
    } else if str_eq(v, "upload") {
        handle_upload(session, cmd, inventory)
    } else if str_eq(v, "download") {
        handle_download(session, cmd)
    } else if str_eq(v, "update") {
        handle_update(session, cmd, inventory)
    } else if str_eq(v, "delete") {
        handle_delete(session, cmd, inventory, dirs)
    } else if str_eq(v, "create") {
        handle_create(session, cmd)
    } else if str_eq(v, "migrate") {
        handle_migrate(session, cmd, inventory, dirs)
    } else if str_eq(v, "list") {
        if inventory.len() == 0 {
            fail(CmdError::EmptyInventory)
        } else {
            present(Reply::ListInventory)
        }
    } else if str_eq(v, "set") {
        handle_set(session, cmd)
    } else if str_eq(v, "show") {
        if matches!(&session.state, State::Config) {
            present(Reply::ShowSettings)
        } else {
            fail(CmdError::WrongState { verb: "show".to_owned() })
        }
    } else if str_eq(v, "close") || str_eq(v, "back") {
        session.state = State::Home;
        quiet_directive()
    } else if str_eq(v, "exit") || str_eq(v, "q") || str_eq(v, "quit") || str_eq(v, "esc") {
        exit_directive()
    } else if str_eq(v, "clear") {
        present(Reply::Clear)
    } else {
        fail(CmdError::UnknownCommand { verb: verb.clone() })
    }
}

} // verus!
