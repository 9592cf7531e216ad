use git_manager::actions::{Action, CmdError, Reply};
use git_manager::inventory::{Dir, Repository};
use git_manager::router::route;
use git_manager::state::{Session, Settings, State};
use git_manager::tokens::Command;

fn settings() -> Settings {
    Settings {
        api_key: "secret-key".to_string(),
        username: "bob".to_string(),
        project_path: "home".to_string(),
    }
}

fn home_session() -> Session {
    Session { state: State::Home, settings: settings() }
}

fn repo(name: &str) -> Repository {
    Repository {
        name: name.to_string(),
        path: format!("home/{}", name),
        clone_url: format!("https://github.com/bob/{}.git", name),
    }
}

fn inventory() -> Vec<Repository> {
    vec![repo("alpha"), repo("beta")]
}

fn dir(segs: &[&str], has_marker: bool) -> Dir {
    Dir { path: segs.iter().map(|s| s.to_string()).collect(), has_marker }
}

fn dirs() -> Vec<Dir> {
    vec![
        dir(&["home", "alpha"], true),
        dir(&["home", "beta"], true),
        dir(&["home", "plain"], false),
    ]
}

fn run(session: &mut Session, line: &str) -> git_manager::actions::Directive {
    let cmd = Command::tokenize(line);
    let inv = inventory();
    let ds = dirs();
    route(session, &cmd, &inv, &ds)
}

#[test]
fn open_known_repo_enters_it_and_a_following_upload_targets_it_alone() {
    let mut s = home_session();
    let d = run(&mut s, "open alpha");
    assert!(matches!(&s.state, State::Repo(n) if n == "alpha"));
    assert!(d.actions.is_empty());
    let d = run(&mut s, "upload");
    assert_eq!(d.actions.len(), 1);
    match &d.actions[0] {
        Action::Upload { target, message, force } => {
            assert_eq!(target, "alpha");
            assert_eq!(message, "commited by Git-Manager");
            assert!(!force);
        },
        other => panic!("unexpected action {:?}", other),
    }
}

#[test]
fn open_unknown_name_keeps_the_state_and_reports_not_found() {
    let mut s = home_session();
    let d = run(&mut s, "open gamma");
    assert!(matches!(&s.state, State::Home));
    assert!(d.actions.is_empty());
    assert!(matches!(&d.reply, Reply::Failed(CmdError::NotFound { name }) if name == "gamma"));
}

#[test]
fn verbs_match_case_insensitively() {
    for line in ["open alpha", "Open alpha", "OPEN alpha"] {
        let mut s = home_session();
        run(&mut s, line);
        assert!(matches!(&s.state, State::Repo(n) if n == "alpha"));
    }
}

#[test]
fn identifiers_match_case_sensitively() {
    let mut s = home_session();
    let d = run(&mut s, "open Alpha");
    assert!(matches!(&s.state, State::Home));
    assert!(matches!(&d.reply, Reply::Failed(CmdError::NotFound { name }) if name == "Alpha"));
}

#[test]
fn open_config_enters_the_settings_context() {
    let mut s = home_session();
    run(&mut s, "open CONFIG");
    assert!(matches!(&s.state, State::Config));
}

#[test]
fn download_from_another_user_carries_no_auth_token() {
    let mut s = home_session();
    let d = run(&mut s, "download repo1 from alice");
    assert_eq!(d.actions.len(), 1);
    match &d.actions[0] {
        Action::Download { repo, user, auth, dest } => {
            assert_eq!(repo, "repo1");
            assert_eq!(user, "alice");
            assert!(auth.is_none());
            assert_eq!(dest, "home");
        },
        other => panic!("unexpected action {:?}", other),
    }
}

#[test]
fn download_from_the_own_account_carries_the_api_key() {
    let mut s = home_session();
    let d = run(&mut s, "download all from bob");
    assert_eq!(d.actions.len(), 1);
    match &d.actions[0] {
        Action::DownloadAll { user, auth, dest } => {
            assert_eq!(user, "bob");
            assert_eq!(auth.as_deref(), Some("secret-key"));
            assert_eq!(dest, "home");
        },
        other => panic!("unexpected action {:?}", other),
    }
}

#[test]
fn download_without_the_from_keyword_is_a_keyword_error() {
    let mut s = home_session();
    let d = run(&mut s, "download repo1 alice");
    assert!(d.actions.is_empty());
    assert!(matches!(&d.reply, Reply::Failed(CmdError::MissingKeyword { keyword }) if keyword == "from"));
}

#[test]
fn download_outside_home_is_a_state_error() {
    let mut s = home_session();
    run(&mut s, "open alpha");
    let d = run(&mut s, "download repo1 from alice");
    assert!(d.actions.is_empty());
    assert!(matches!(&d.reply, Reply::Failed(CmdError::WrongState { verb }) if verb == "download"));
}

#[test]
fn create_branch_at_home_without_the_in_clause_names_the_missing_keyword() {
    let mut s = home_session();
    let d = run(&mut s, "create branch feature");
    assert!(d.actions.is_empty());
    assert!(matches!(&d.reply, Reply::Failed(CmdError::MissingKeyword { keyword }) if keyword == "in"));
}

#[test]
fn create_branch_with_the_in_clause_calls_the_gateway() {
    let mut s = home_session();
    let d = run(&mut s, "create branch feature in alpha");
    assert_eq!(d.actions.len(), 1);
    match &d.actions[0] {
        Action::CreateBranch { repo, branch } => {
            assert_eq!(repo, "alpha");
            assert_eq!(branch, "feature");
        },
        other => panic!("unexpected action {:?}", other),
    }
}

#[test]
fn create_branch_inside_a_repo_uses_the_context() {
    let mut s = home_session();
    run(&mut s, "open beta");
    let d = run(&mut s, "create branch feature");
    match &d.actions[0] {
        Action::CreateBranch { repo, branch } => {
            assert_eq!(repo, "beta");
            assert_eq!(branch, "feature");
        },
        other => panic!("unexpected action {:?}", other),
    }
}

#[test]
fn create_branch_inside_a_repo_rejects_an_explicit_clause() {
    let mut s = home_session();
    run(&mut s, "open beta");
    let d = run(&mut s, "create branch feature in alpha");
    assert!(d.actions.is_empty());
    assert!(matches!(&d.reply, Reply::Failed(CmdError::ExplicitInRepo { .. })));
}

#[test]
fn create_repo_validates_the_visibility_argument() {
    let mut s = home_session();
    let d = run(&mut s, "create repo thing public");
    assert!(matches!(
        &d.actions[0],
        Action::CreateRepo { name, public: true } if name == "thing"
    ));
    let d = run(&mut s, "create repo thing private");
    assert!(matches!(
        &d.actions[0],
        Action::CreateRepo { name, public: false } if name == "thing"
    ));
    let d = run(&mut s, "create repo thing open");
    assert!(d.actions.is_empty());
    assert!(matches!(&d.reply, Reply::Failed(CmdError::InvalidArgument { what }) if what == "open"));
    let d = run(&mut s, "create repo thing");
    assert!(matches!(&d.reply, Reply::Failed(CmdError::MissingArgument { what }) if what == "visibility"));
}

#[test]
fn migrate_an_ambiguous_name_reports_multiple_matches_and_calls_no_gateway() {
    let mut s = home_session();
    let cmd = Command::tokenize("migrate proj public");
    let inv = inventory();
    let two = vec![
        dir(&["home", "a", "proj"], false),
        dir(&["home", "b", "proj"], false),
    ];
    let d = route(&mut s, &cmd, &inv, &two);
    assert!(d.actions.is_empty());
    assert!(matches!(&d.reply, Reply::Failed(CmdError::MultipleFound { name }) if name == "proj"));
}

#[test]
fn migrate_an_unambiguous_project_calls_the_gateway() {
    let mut s = home_session();
    let d = run(&mut s, "migrate plain private");
    assert_eq!(d.actions.len(), 1);
    match &d.actions[0] {
        Action::Migrate { path, name, public } => {
            assert_eq!(path, "home/plain");
            assert_eq!(name, "plain");
            assert!(!public);
        },
        other => panic!("unexpected action {:?}", other),
    }
}

#[test]
fn migrate_a_known_repository_is_rejected() {
    let mut s = home_session();
    let d = run(&mut s, "migrate alpha public");
    assert!(d.actions.is_empty());
    assert!(matches!(&d.reply, Reply::Failed(CmdError::AlreadyRepository { name }) if name == "alpha"));
}

#[test]
fn migrate_an_absent_project_shows_the_searched_root() {
    let mut s = home_session();
    let d = run(&mut s, "migrate nowhere public");
    assert!(matches!(
        &d.reply,
        Reply::Failed(CmdError::NotFoundInRoot { name, root }) if name == "nowhere" && root == "home"
    ));
}

#[test]
fn delete_repo_inside_a_repo_always_returns_home() {
    let mut s = home_session();
    run(&mut s, "open alpha");
    let d = run(&mut s, "delete repo");
    assert!(matches!(&s.state, State::Home));
    assert_eq!(d.actions.len(), 1);
    assert!(matches!(&d.actions[0], Action::DeleteRepo { name } if name == "alpha"));
}

#[test]
fn delete_repo_by_name_needs_the_name_in_the_inventory() {
    let mut s = home_session();
    let d = run(&mut s, "delete repo beta");
    assert!(matches!(&d.actions[0], Action::DeleteRepo { name } if name == "beta"));
    let d = run(&mut s, "delete repo gamma");
    assert!(d.actions.is_empty());
    assert!(matches!(&d.reply, Reply::Failed(CmdError::NotFound { name }) if name == "gamma"));
}

#[test]
fn delete_branch_forms() {
    let mut s = home_session();
    let d = run(&mut s, "delete branch feature from beta");
    assert!(matches!(
        &d.actions[0],
        Action::DeleteBranch { repo, branch } if repo == "beta" && branch == "feature"
    ));
    let d = run(&mut s, "delete branch feature beta");
    assert!(matches!(&d.reply, Reply::Failed(CmdError::MissingKeyword { keyword }) if keyword == "from"));
    run(&mut s, "open alpha");
    let d = run(&mut s, "delete branch feature");
    assert!(matches!(
        &d.actions[0],
        Action::DeleteBranch { repo, branch } if repo == "alpha" && branch == "feature"
    ));
}

#[test]
fn delete_folder_resolves_against_the_filesystem() {
    let mut s = home_session();
    let d = run(&mut s, "delete folder plain");
    assert!(matches!(&d.actions[0], Action::DeleteDir { path } if path == "home/plain"));
    let d = run(&mut s, "delete folder nowhere");
    assert!(matches!(&d.reply, Reply::Failed(CmdError::NotFoundInRoot { .. })));
}

#[test]
fn upload_all_uploads_every_repository_in_order() {
    let mut s = home_session();
    let d = run(&mut s, "upload all");
    assert_eq!(d.actions.len(), 2);
    assert!(matches!(&d.actions[0], Action::Upload { target, .. } if target == "home/alpha"));
    assert!(matches!(&d.actions[1], Action::Upload { target, .. } if target == "home/beta"));
}

#[test]
fn upload_by_name_targets_the_repository_path() {
    let mut s = home_session();
    let d = run(&mut s, "upload beta fixes --force");
    assert_eq!(d.actions.len(), 1);
    match &d.actions[0] {
        Action::Upload { target, message, force } => {
            assert_eq!(target, "home/beta");
            assert_eq!(message, "fixes");
            assert!(force);
        },
        other => panic!("unexpected action {:?}", other),
    }
    let d = run(&mut s, "upload gamma");
    assert!(matches!(&d.reply, Reply::Failed(CmdError::NotFound { name }) if name == "gamma"));
}

#[test]
fn update_forms() {
    let mut s = home_session();
    let d = run(&mut s, "update all --force");
    assert_eq!(d.actions.len(), 2);
    assert!(matches!(&d.actions[0], Action::Update { target, force: true } if target == "home/alpha"));
    let d = run(&mut s, "update beta");
    assert!(matches!(&d.actions[0], Action::Update { target, force: false } if target == "home/beta"));
    run(&mut s, "open alpha");
    let d = run(&mut s, "update");
    assert!(matches!(&d.actions[0], Action::Update { target, force: false } if target == "alpha"));
}

#[test]
fn set_and_show_work_only_in_the_settings_context() {
    let mut s = home_session();
    let d = run(&mut s, "set username carol");
    assert!(matches!(&d.reply, Reply::Failed(CmdError::WrongState { verb }) if verb == "set"));
    let d = run(&mut s, "show");
    assert!(matches!(&d.reply, Reply::Failed(CmdError::WrongState { verb }) if verb == "show"));
    run(&mut s, "open config");
    let d = run(&mut s, "set username Carol");
    assert!(d.persist);
    assert_eq!(s.settings.username, "Carol");
    let d = run(&mut s, "set key abc123");
    assert!(d.persist);
    assert_eq!(s.settings.api_key, "abc123");
    let d = run(&mut s, "set path /tmp/projects");
    assert!(d.persist);
    assert_eq!(s.settings.project_path, "/tmp/projects");
    let d = run(&mut s, "set color blue");
    assert!(!d.persist);
    assert!(matches!(&d.reply, Reply::Failed(CmdError::InvalidArgument { what }) if what == "color"));
    let d = run(&mut s, "show");
    assert!(matches!(&d.reply, Reply::ShowSettings));
}

#[test]
fn set_value_keeps_its_case() {
    let mut s = home_session();
    run(&mut s, "open config");
    run(&mut s, "set username CamelCase");
    assert_eq!(s.settings.username, "CamelCase");
}

#[test]
fn list_reports_an_empty_inventory_as_an_error() {
    let mut s = home_session();
    let cmd = Command::tokenize("list");
    let inv: Vec<Repository> = vec![];
    let ds = dirs();
    let d = route(&mut s, &cmd, &inv, &ds);
    assert!(matches!(&d.reply, Reply::Failed(CmdError::EmptyInventory)));
    let d = run(&mut s, "list");
    assert!(matches!(&d.reply, Reply::ListInventory));
}

#[test]
fn close_and_back_return_home() {
    for verb in ["close", "back"] {
        let mut s = home_session();
        run(&mut s, "open alpha");
        run(&mut s, verb);
        assert!(matches!(&s.state, State::Home));
    }
}

#[test]
fn every_exit_word_ends_the_session() {
    for verb in ["exit", "q", "quit", "esc"] {
        let mut s = home_session();
        let d = run(&mut s, verb);
        assert!(d.exit);
        assert!(d.actions.is_empty());
    }
}

#[test]
fn unknown_verbs_and_empty_lines() {
    let mut s = home_session();
    let d = run(&mut s, "frobnicate now");
    assert!(matches!(&d.reply, Reply::Failed(CmdError::UnknownCommand { verb }) if verb == "frobnicate"));
    let d = run(&mut s, "   ");
    assert!(matches!(&d.reply, Reply::Nothing));
    assert!(!d.exit);
    assert!(d.actions.is_empty());
}

#[test]
fn help_and_clear_have_no_state_effect() {
    let mut s = home_session();
    run(&mut s, "open alpha");
    let d = run(&mut s, "help");
    assert!(matches!(&d.reply, Reply::Help));
    let d = run(&mut s, "clear");
    assert!(matches!(&d.reply, Reply::Clear));
    assert!(matches!(&s.state, State::Repo(n) if n == "alpha"));
}

#[test]
fn upload_inside_a_repo_takes_an_optional_message_and_flag() {
    let mut s = home_session();
    run(&mut s, "open alpha");
    let d = run(&mut s, "upload polishing --force");
    assert_eq!(d.actions.len(), 1);
    match &d.actions[0] {
        Action::Upload { target, message, force } => {
            assert_eq!(target, "alpha");
            assert_eq!(message, "polishing");
            assert!(force);
        },
        other => panic!("unexpected action {:?}", other),
    }
    let d = run(&mut s, "upload --force");
    match &d.actions[0] {
        Action::Upload { message, force, .. } => {
            assert_eq!(message, "commited by Git-Manager");
            assert!(force);
        },
        other => panic!("unexpected action {:?}", other),
    }
}

#[test]
fn upload_all_works_inside_a_repo_too() {
    let mut s = home_session();
    run(&mut s, "open alpha");
    let d = run(&mut s, "upload all");
    assert_eq!(d.actions.len(), 2);
}

#[test]
fn delete_repo_inside_a_repo_rejects_an_explicit_name() {
    let mut s = home_session();
    run(&mut s, "open alpha");
    let d = run(&mut s, "delete repo beta");
    assert!(d.actions.is_empty());
    assert!(matches!(&s.state, State::Repo(n) if n == "alpha"));
    assert!(matches!(&d.reply, Reply::Failed(CmdError::ExplicitInRepo { what }) if what == "beta"));
}

#[test]
fn missing_identifiers_name_the_missing_argument() {
    let mut s = home_session();
    let d = run(&mut s, "open");
    assert!(matches!(&d.reply, Reply::Failed(CmdError::MissingArgument { what }) if what == "name"));
    let d = run(&mut s, "delete");
    assert!(matches!(&d.reply, Reply::Failed(CmdError::MissingArgument { .. })));
    let d = run(&mut s, "delete branch");
    assert!(matches!(&d.reply, Reply::Failed(CmdError::MissingArgument { what }) if what == "branch name"));
    let d = run(&mut s, "download all from");
    assert!(matches!(&d.reply, Reply::Failed(CmdError::MissingArgument { what }) if what == "username"));
    run(&mut s, "open config");
    let d = run(&mut s, "set username");
    assert!(matches!(&d.reply, Reply::Failed(CmdError::MissingArgument { what }) if what == "value"));
}

#[test]
fn delete_with_an_unknown_sub_form_is_invalid() {
    let mut s = home_session();
    let d = run(&mut s, "delete everything now");
    assert!(matches!(&d.reply, Reply::Failed(CmdError::InvalidArgument { what }) if what == "everything"));
}

#[test]
fn prompts_reflect_the_context() {
    let mut s = home_session();
    assert_eq!(s.state.prompt(), "<Git> ");
    run(&mut s, "open alpha");
    assert_eq!(s.state.prompt(), "<alpha> ");
    run(&mut s, "close");
    run(&mut s, "open config");
    assert_eq!(s.state.prompt(), "<config> ");
}
