//! Small fixtures: paths, messages and file contents for tests.

use vstd::prelude::*;
use vstd::string::*;

use crate::ops::git_provider::{GitProvider, ProviderType};
use crate::ops::mock_git::RepoModel;
use crate::ops::process::CommandRunner;
use crate::text::{decimal, decimal_string};

verus! {

/// The texts of a sequence of string slices.
pub open spec fn slice_texts(items: Seq<&str>) -> Seq<Seq<char>> {
    items.map_values(|s: &str| s@)
}

/// `/test` followed by the components, each led by a slash.
pub open spec fn test_path_text(components: Seq<Seq<char>>) -> Seq<char>
    decreases components.len(),
{
    if components.len() == 0 {
        "/test"@
    } else {
        test_path_text(components.drop_last()) + "/"@ + components.last()
    }
}

/// The path below `/test` that the components name.
pub fn join_test_path(components: &[&str]) -> (r: String)
    ensures
        r@ == test_path_text(slice_texts(components@)),
{
    let ghost parts = slice_texts(components@);
    let mut path = String::from_str("/test");
    let mut i: usize = 0;
    assert(parts.take(0) =~= Seq::<Seq<char>>::empty());
    while i < components.len()
        invariant
            i <= components.len(),
            parts == slice_texts(components@),
            path@ == test_path_text(parts.take(i as int)),
        decreases components.len() - i,
    {
        assert(parts.take(i + 1).drop_last() =~= parts.take(i as int));
        assert(parts.take(i + 1).last() == components@[i as int]@);
        path.append("/");
        path.append(components[i]);
        i = i + 1;
    }
    assert(parts.take(components.len() as int) =~= parts);
    path
}

/// Fixtures for tests.
pub struct TestHelpers;

impl TestHelpers {
    /// The path below `/test` that the components name.
    pub fn test_path(components: &[&str]) -> (r: String)
        ensures
            r@ == test_path_text(slice_texts(components@)),
    {
        join_test_path(components)
    }

    /// The message of the test commit with the given number.
    pub fn test_commit_message(index: usize) -> (r: String)
        ensures
            r@ == "测试提交 #"@ + decimal(index as nat),
    {
        let mut s = String::from_str("测试提交 #");
        let number = decimal_string(index);
        s.append(number.as_str());
        s
    }

    /// The content of the test file with the given name.
    pub fn test_file_content(filename: &str) -> (r: String)
        ensures
            r@ == "这是测试文件 "@ + filename@ + " 的内容\n测试时间: 2024-07-27"@,
    {
        let mut s = String::from_str("这是测试文件 ");
        s.append(filename);
        s.append(" 的内容\n测试时间: 2024-07-27");
        s
    }

    /// The in-memory Git backend, empty.
    pub fn create_mock_git_provider<R: CommandRunner>(runner: R) -> (r: GitProvider<R>)
        ensures
            r matches GitProvider::Mock(m) && m@ == Seq::<RepoModel>::empty(),
    {
        GitProvider::new(ProviderType::Mock, runner)
    }

    /// The Git backend that drives the `git` executable, with `runner` to start it.
    pub fn create_real_git_provider<R: CommandRunner>(runner: R) -> (r: GitProvider<R>)
        ensures
            r matches GitProvider::Real(ops) && ops.tools() == runner,
    {
        GitProvider::new(ProviderType::Real, runner)
    }
}

} // verus!
