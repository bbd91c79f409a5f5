use vstd::prelude::*;

verus! {

/// The unit in which a staleness cutoff is counted.
#[derive(PartialEq, Eq, Structural, Debug, Clone, Copy)]
pub enum PeriodArgs {
    Days,
    Months,
}

impl Default for PeriodArgs {
    /// Months.
    fn default() -> (r: Self)
        ensures
            r == PeriodArgs::Months,
    {
        PeriodArgs::Months
    }
}

/// The staleness subcommand: branches whose last commit is older than
/// `number` periods are stale.
#[derive(PartialEq, Eq, Structural, Debug, Clone, Copy)]
pub enum StalenessDate {
    Steleness { number: u64, period: PeriodArgs },
}

/// The arguments of the branch-tidying command line.
#[derive(Debug)]
pub struct GitGardenerArgs {
    /// The principal branch, never reported.
    pub main_branch: String,
    /// Only report what would be deleted.
    pub dry_run: bool,
    /// Path of the repository.
    pub git_repository: String,
    pub command: Option<StalenessDate>,
}

/// The staleness cutoff that branches are held against.
#[derive(PartialEq, Eq, Structural, Debug, Clone, Copy)]
pub struct Branch {
    pub number: u64,
    pub period: PeriodArgs,
}

impl Branch {
    /// The cutoff that the staleness subcommand gives, if it was given.
    pub fn load_from_args(args: &Option<StalenessDate>) -> (r: Option<Self>)
        ensures
            match *args {
                None => r is None,
                Some(StalenessDate::Steleness { number, period }) => r == Some(
                    Branch { number, period },
                ),
            },
    {
        match args {
            None => None,
            Some(StalenessDate::Steleness { number, period }) => Some(
                Branch { number: *number, period: *period },
            ),
        }
    }
}

} // verus!
