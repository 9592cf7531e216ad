//! What one routed command asks the surrounding program to do.
//!
//! The router never performs a side effect itself: it returns a
//! [`Directive`] holding the gateway actions to perform, in order, the reply
//! to present, and whether the session ends or the settings must be
//! persisted. Each gateway action either completes or fails atomically per
//! call; failures are reported per item and do not abort the remainder.

use vstd::prelude::*;

verus! {

/// One call into the action gateway.
#[derive(Debug)]
pub enum Action {
    /// Create a remote repository.
    CreateRepo { name: String, public: bool },
    /// Create a branch in a repository.
    CreateBranch { repo: String, branch: String },
    /// Commit and push one repository.
    Upload { target: String, message: String, force: bool },
    /// Pull the newest version of one repository.
    Update { target: String, force: bool },
    /// Clone one repository of a remote user into `dest`. `auth` carries
    /// the API key exactly when the target is the configured user's own
    /// account, enabling a private-capable fetch.
    Download { repo: String, user: String, auth: Option<String>, dest: String },
    /// Clone every repository of a remote user into `dest`; `auth` as for
    /// `Download`.
    DownloadAll { user: String, auth: Option<String>, dest: String },
    /// Delete a remote repository.
    DeleteRepo { name: String },
    /// Delete a branch of a repository.
    DeleteBranch { repo: String, branch: String },
    /// Delete a directory from the local system.
    DeleteDir { path: String },
    /// Turn the project at `path` into a repository named `name`.
    Migrate { path: String, name: String, public: bool },
}

/// The mathematical value of an [`Action`].
pub enum ActionView {
    CreateRepo { name: Seq<char>, public: bool },
    CreateBranch { repo: Seq<char>, branch: Seq<char> },
    Upload { target: Seq<char>, message: Seq<char>, force: bool },
    Update { target: Seq<char>, force: bool },
    Download { repo: Seq<char>, user: Seq<char>, auth: Option<Seq<char>>, dest: Seq<char> },
    DownloadAll { user: Seq<char>, auth: Option<Seq<char>>, dest: Seq<char> },
    DeleteRepo { name: Seq<char> },
    DeleteBranch { repo: Seq<char>, branch: Seq<char> },
    DeleteDir { path: Seq<char> },
    Migrate { path: Seq<char>, name: Seq<char>, public: bool },
}

impl View for Action {
    type V = ActionView;

    open spec fn view(&self) -> ActionView {
        match self {
            Action::CreateRepo { name, public } => ActionView::CreateRepo {
                name: name@,
                public: *public,
            },
            Action::CreateBranch { repo, branch } => ActionView::CreateBranch {
                repo: repo@,
                branch: branch@,
            },
            Action::Upload { target, message, force } => ActionView::Upload {
                target: target@,
                message: message@,
                force: *force,
            },
            Action::Update { target, force } => ActionView::Update {
                target: target@,
                force: *force,
            },
            Action::Download { repo, user, auth, dest } => ActionView::Download {
                repo: repo@,
                user: user@,
                auth: match auth {
                    Some(k) => Some(k@),
                    None => None,
                },
                dest: dest@,
            },
            Action::DownloadAll { user, auth, dest } => ActionView::DownloadAll {
                user: user@,
                auth: match auth {
                    Some(k) => Some(k@),
                    None => None,
                },
                dest: dest@,
            },
            Action::DeleteRepo { name } => ActionView::DeleteRepo { name: name@ },
            Action::DeleteBranch { repo, branch } => ActionView::DeleteBranch {
                repo: repo@,
                branch: branch@,
            },
            Action::DeleteDir { path } => ActionView::DeleteDir { path: path@ },
            Action::Migrate { path, name, public } => ActionView::Migrate {
                path: path@,
                name: name@,
                public: *public,
            },
        }
    }
}

/// The views of an action list.
pub open spec fn action_views(acts: Seq<Action>) -> Seq<ActionView> {
    acts.map_values(|a: Action| a@)
}

/// A single user-facing error: the command was not executed (beyond any
/// state transition its rules prescribe) and the loop continues.
#[derive(Debug)]
pub enum CmdError {
    /// The verb is not a known command.
    UnknownCommand { verb: String },
    /// A required identifier argument is absent or empty; `what` names it.
    MissingArgument { what: String },
    /// A required structural keyword is absent or misplaced.
    MissingKeyword { keyword: String },
    /// The verb is not valid in the current context.
    WrongState { verb: String },
    /// An explicit identifier was given while inside a repository, where
    /// the contextual form applies; `what` is the meaningless token.
    ExplicitInRepo { what: String },
    /// The name is not in the current inventory.
    NotFound { name: String },
    /// The name search found no directory of that name below the root.
    NotFoundInRoot { name: String, root: String },
    /// The name search found several directories of that name.
    MultipleFound { name: String },
    /// The project is already a known repository.
    AlreadyRepository { name: String },
    /// An argument value is not among the accepted ones.
    InvalidArgument { what: String },
    /// The inventory holds no repository.
    EmptyInventory,
}

/// The mathematical value of a [`CmdError`].
pub enum ErrView {
    UnknownCommand { verb: Seq<char> },
    MissingArgument { what: Seq<char> },
    MissingKeyword { keyword: Seq<char> },
    WrongState { verb: Seq<char> },
    ExplicitInRepo { what: Seq<char> },
    NotFound { name: Seq<char> },
    NotFoundInRoot { name: Seq<char>, root: Seq<char> },
    MultipleFound { name: Seq<char> },
    AlreadyRepository { name: Seq<char> },
    InvalidArgument { what: Seq<char> },
    EmptyInventory,
}

impl View for CmdError {
    type V = ErrView;

    open spec fn view(&self) -> ErrView {
        match self {
            CmdError::UnknownCommand { verb } => ErrView::UnknownCommand { verb: verb@ },
            CmdError::MissingArgument { what } => ErrView::MissingArgument { what: what@ },
            CmdError::MissingKeyword { keyword } => ErrView::MissingKeyword { keyword: keyword@ },
            CmdError::WrongState { verb } => ErrView::WrongState { verb: verb@ },
            CmdError::ExplicitInRepo { what } => ErrView::ExplicitInRepo { what: what@ },
            CmdError::NotFound { name } => ErrView::NotFound { name: name@ },
            CmdError::NotFoundInRoot { name, root } => ErrView::NotFoundInRoot {
                name: name@,
                root: root@,
            },
            CmdError::MultipleFound { name } => ErrView::MultipleFound { name: name@ },
            CmdError::AlreadyRepository { name } => ErrView::AlreadyRepository { name: name@ },
            CmdError::InvalidArgument { what } => ErrView::InvalidArgument { what: what@ },
            CmdError::EmptyInventory => ErrView::EmptyInventory,
        }
    }
}

/// What the loop should present after one command.
#[derive(Debug)]
pub enum Reply {
    /// Nothing beyond the gateway's own per-call confirmations.
    Nothing,
    /// The context-specific command list.
    Help,
    /// The current settings.
    ShowSettings,
    /// The current inventory.
    ListInventory,
    /// Clear the terminal.
    Clear,
    /// The single user-facing error of this command.
    Failed(CmdError),
}

/// The mathematical value of a [`Reply`].
pub enum ReplyView {
    Nothing,
    Help,
    ShowSettings,
    ListInventory,
    Clear,
    Failed(ErrView),
}

impl View for Reply {
    type V = ReplyView;

    open spec fn view(&self) -> ReplyView {
        match self {
            Reply::Nothing => ReplyView::Nothing,
            Reply::Help => ReplyView::Help,
            Reply::ShowSettings => ReplyView::ShowSettings,
            Reply::ListInventory => ReplyView::ListInventory,
            Reply::Clear => ReplyView::Clear,
            Reply::Failed(e) => ReplyView::Failed(e@),
        }
    }
}

/// Everything one routed command asks the loop to do.
#[derive(Debug)]
pub struct Directive {
    /// The gateway calls to perform, in order.
    pub actions: Vec<Action>,
    /// What to present.
    pub reply: Reply,
    /// Whether the session ends.
    pub exit: bool,
    /// Whether the settings changed and must be persisted in full.
    pub persist: bool,
}

/// The mathematical value of a [`Directive`].
pub struct DirectiveView {
    pub actions: Seq<ActionView>,
    pub reply: ReplyView,
    pub exit: bool,
    pub persist: bool,
}

impl View for Directive {
    type V = DirectiveView;

    open spec fn view(&self) -> DirectiveView {
        DirectiveView {
            actions: action_views(self.actions@),
            reply: self.reply@,
            exit: self.exit,
            persist: self.persist,
        }
    }
}

} // verus!
