//! Choosing between the real and the in-memory Git backend.
//!
//! The choice is made once, from explicit configuration, and the chosen
//! backend is then used through [`GitOperations`] like any other.

use vstd::prelude::*;
use vstd::string::*;

use crate::error::SyncError;
use crate::ops::git_operations::{GitAnswer, GitCall, GitOperations};
use crate::ops::mock_git::{MockGitOperations, RepoModel};
use crate::ops::process::CommandRunner;
use crate::ops::real_git::RealGitOperations;
use crate::text::{lowercase, text_eq, to_lowercase};

verus! {

/// Which Git backend to use.
#[derive(Debug, Clone, Copy, PartialEq, Eq, Structural)]
pub enum ProviderType {
    /// The `git` executable.
    Real,
    /// The in-memory model.
    Mock,
}

/// A Git backend, chosen at run time.
pub enum GitProvider<R: CommandRunner> {
    /// Git driven through the `git` executable.
    Real(RealGitOperations<R>),
    /// Git modelled in memory.
    Mock(MockGitOperations),
}

/// The backend that a lowercase name selects.
pub open spec fn provider_named(lower: Seq<char>) -> Option<ProviderType> {
    if lower == "real"@ {
        Some(ProviderType::Real)
    } else if lower == "mock"@ {
        Some(ProviderType::Mock)
    } else {
        None
    }
}

/// The backend that a setting selects: the named one, or the real one when
/// the setting is absent or names nothing known.
pub open spec fn provider_for_setting(setting: Option<Seq<char>>) -> ProviderType {
    match setting {
        Some(name) => match provider_named(lowercase(name)) {
            Some(kind) => kind,
            None => ProviderType::Real,
        },
        None => ProviderType::Real,
    }
}

/// The message for a name that selects no backend.
pub open spec fn unknown_provider_text(name: Seq<char>) -> Seq<char> {
    "无效的Git提供者类型: "@ + name + "。支持的类型: real, mock"@
}

/// The backend that `lower` names, where `lower` is already in lowercase.
pub fn provider_type_named(lower: &str) -> (r: Option<ProviderType>)
    ensures
        r == provider_named(lower@),
{
    if text_eq(lower, "real") {
        Some(ProviderType::Real)
    } else if text_eq(lower, "mock") {
        Some(ProviderType::Mock)
    } else {
        None
    }
}

impl<R: CommandRunner> GitProvider<R> {
    /// The backend of the given kind. The runner is used by the real backend only.
    pub fn new(provider_type: ProviderType, runner: R) -> (r: Self)
        ensures
            provider_type == ProviderType::Real ==> (r matches GitProvider::Real(ops)
                && ops.tools() == runner),
            provider_type == ProviderType::Mock ==> (r matches GitProvider::Mock(m) && m@
                == Seq::<RepoModel>::empty()),
    {
        match provider_type {
            ProviderType::Real => GitProvider::Real(RealGitOperations::new(runner)),
            ProviderType::Mock => GitProvider::Mock(MockGitOperations::new()),
        }
    }

    /// The backend for productive use: the real one.
    pub fn auto(runner: R) -> (r: Self)
        ensures
            r matches GitProvider::Real(ops) && ops.tools() == runner,
    {
        GitProvider::new(ProviderType::Real, runner)
    }

    /// Which kind of backend this is.
    pub fn provider_type(&self) -> (r: ProviderType)
        ensures
            r == if self is Real {
                ProviderType::Real
            } else {
                ProviderType::Mock
            },
    {
        match self {
            GitProvider::Real(_) => ProviderType::Real,
            GitProvider::Mock(_) => ProviderType::Mock,
        }
    }
}

impl<R: CommandRunner> GitOperations for GitProvider<R> {
    /// A provider answers as the backend it holds answers, and keeps holding
    /// a backend of the same kind.
    open spec fn answered(before: Self, call: GitCall, after: Self, answer: GitAnswer) -> bool {
        match before {
            GitProvider::Real(from) => after matches GitProvider::Real(to) && RealGitOperations::<
                R,
            >::answered(from, call, to, answer),
            GitProvider::Mock(from) => after matches GitProvider::Mock(to)
                && MockGitOperations::answered(from, call, to, answer),
        }
    }

    fn init(&mut self, path: &str) -> (r: Result<(), SyncError>) {
        match self {
            GitProvider::Real(ops) => ops.init(path),
            GitProvider::Mock(ops) => ops.init(path),
        }
    }

    fn config_user(&mut self, path: &str, name: &str, email: &str) -> (r: Result<(), SyncError>) {
        match self {
            GitProvider::Real(ops) => ops.config_user(path, name, email),
            GitProvider::Mock(ops) => ops.config_user(path, name, email),
        }
    }

    fn add_all(&mut self, path: &str) -> (r: Result<(), SyncError>) {
        match self {
            GitProvider::Real(ops) => ops.add_all(path),
            GitProvider::Mock(ops) => ops.add_all(path),
        }
    }

    fn commit(&mut self, path: &str, message: &str) -> (r: Result<(), SyncError>) {
        match self {
            GitProvider::Real(ops) => ops.commit(path, message),
            GitProvider::Mock(ops) => ops.commit(path, message),
        }
    }

    fn status(&mut self, path: &str) -> (r: Result<String, SyncError>) {
        match self {
            GitProvider::Real(ops) => ops.status(path),
            GitProvider::Mock(ops) => ops.status(path),
        }
    }

    fn log(&mut self, path: &str, count: Option<usize>) -> (r: Result<String, SyncError>) {
        match self {
            GitProvider::Real(ops) => ops.log(path, count),
            GitProvider::Mock(ops) => ops.log(path, count),
        }
    }

    fn is_clean(&mut self, path: &str) -> (r: Result<bool, SyncError>) {
        match self {
            GitProvider::Real(ops) => ops.is_clean(path),
            GitProvider::Mock(ops) => ops.is_clean(path),
        }
    }
}

/// Creates Git backends from a kind, a name or a setting.
pub struct GitOperationsFactory;

impl GitOperationsFactory {
    /// The backend of the given kind.
    pub fn create<R: CommandRunner>(provider_type: ProviderType, runner: R) -> (r: GitProvider<R>)
        ensures
            provider_type == ProviderType::Real ==> (r matches GitProvider::Real(ops)
                && ops.tools() == runner),
            provider_type == ProviderType::Mock ==> (r matches GitProvider::Mock(m) && m@
                == Seq::<RepoModel>::empty()),
    {
        GitProvider::new(provider_type, runner)
    }

    /// The kind of backend that `type_str` names, in any letter case.
    pub fn provider_type_from_string(type_str: &str) -> (r: Result<ProviderType, String>)
        ensures
            match provider_named(lowercase(type_str@)) {
                Some(kind) => r == Ok::<ProviderType, String>(kind),
                None => r matches Err(m) && m@ == unknown_provider_text(type_str@),
            },
    {
        let lower = to_lowercase(type_str);
        match provider_type_named(lower.as_str()) {
            Some(kind) => Ok(kind),
            None => {
                let mut m = String::from_str("无效的Git提供者类型: ");
                m.append(type_str);
                m.append("。支持的类型: real, mock");
                Err(m)
            },
        }
    }

    /// The backend that `type_str` names: `real` or `mock`, in any letter case.
    pub fn create_from_string<R: CommandRunner>(type_str: &str, runner: R) -> (r: Result<
        GitProvider<R>,
        String,
    >)
        ensures
            match provider_named(lowercase(type_str@)) {
                Some(kind) => {
                    &&& r matches Ok(provider)
                    &&& kind == ProviderType::Real ==> (provider matches GitProvider::Real(ops)
                        && ops.tools() == runner)
                    &&& kind == ProviderType::Mock ==> (provider matches GitProvider::Mock(m)
                        && m@ == Seq::<RepoModel>::empty())
                },
                None => r matches Err(m) && m@ == unknown_provider_text(type_str@),
            },
    {
        match GitOperationsFactory::provider_type_from_string(type_str) {
            Ok(kind) => Ok(GitProvider::new(kind, runner)),
            Err(m) => Err(m),
        }
    }

    /// The kind of backend that a setting selects. The setting is the value
    /// of `SVN2GIT_GIT_PROVIDER` where the caller reads it from the
    /// environment; an absent or unknown value selects the real backend.
    pub fn provider_type_from_setting(setting: Option<&str>) -> (r: ProviderType)
        ensures
            r == provider_for_setting(
                match setting {
                    Some(s) => Some(s@),
                    None => None,
                },
            ),
    {
        match setting {
            Some(name) => {
                let lower = to_lowercase(name);
                match provider_type_named(lower.as_str()) {
                    Some(kind) => kind,
                    None => ProviderType::Real,
                }
            },
            None => ProviderType::Real,
        }
    }
}

} // verus!
