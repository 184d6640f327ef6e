//! Doubles and fixtures for exercising the synchronisation without SVN or Git.

pub mod helpers;
pub mod mock_svn;
pub mod scripted_runner;
pub mod test_factories;
