use vstd::prelude::*;

use crate::event::ApiVersion;
use crate::session::SessionError;

verus! {

/// Why the event stream server was not started.
#[derive(Clone, Copy, Debug, PartialEq, Eq, Structural)]
pub enum StartError {
    /// A session reported a failure instead of a version.
    Source(SessionError),
    /// The sessions reported versions that differ.
    VersionMismatch,
    /// No session reported a version.
    NoSources,
}

/// The first failure among the reports, in the order they arrived.
pub open spec fn first_failure(reports: Seq<Result<ApiVersion, SessionError>>) -> Option<
    SessionError,
>
    decreases reports.len(),
{
    if reports.len() == 0 {
        None
    } else {
        match first_failure(reports.drop_last()) {
            Some(e) => Some(e),
            None => match reports.last() {
                Err(e) => Some(e),
                Ok(_) => None,
            },
        }
    }
}

/// All reports are the same.
pub open spec fn all_agree(reports: Seq<Result<ApiVersion, SessionError>>) -> bool {
    forall|i: int, j: int|
        0 <= i < reports.len() && 0 <= j < reports.len() ==> #[trigger] reports[i]
            == #[trigger] reports[j]
}

/// The version the server starts with, or why it does not start: the first
/// failure reported, else a mismatch if two versions differ, else a missing
/// report if there is none.
pub open spec fn agreed_version(reports: Seq<Result<ApiVersion, SessionError>>) -> Result<
    ApiVersion,
    StartError,
> {
    match first_failure(reports) {
        Some(e) => Err(StartError::Source(e)),
        None => if !all_agree(reports) {
            Err(StartError::VersionMismatch)
        } else if reports.len() == 0 {
            Err(StartError::NoSources)
        } else {
            Ok(reports[0]->Ok_0)
        },
    }
}

proof fn lemma_no_failure(reports: Seq<Result<ApiVersion, SessionError>>, i: int)
    requires
        first_failure(reports) is None,
        0 <= i < reports.len(),
    ensures
        reports[i] is Ok,
    decreases reports.len(),
{
    if i < reports.len() - 1 {
        lemma_no_failure(reports.drop_last(), i);
        assert(reports.drop_last()[i] == reports[i]);
    }
}

/// Decides, from the API-version reports of all sessions, the version the
/// event stream server starts with.
pub fn agree_api_versions(reports: &Vec<Result<ApiVersion, SessionError>>) -> (r: Result<
    ApiVersion,
    StartError,
>)
    ensures
        r == agreed_version(reports@),
{
    let ghost all = reports@;
    let mut i: usize = 0;
    proof {
        assert(all.take(0) =~= Seq::<Result<ApiVersion, SessionError>>::empty());
    }
    while i < reports.len()
        invariant
            0 <= i <= reports.len(),
            all == reports@,
            first_failure(all.take(i as int)) is None,
        decreases reports.len() - i,
    {
        proof {
            assert(all.take(i + 1).drop_last() =~= all.take(i as int));
        }
        match &reports[i] {
            Err(e) => {
                proof {
                    assert(all.take(i + 1).last() == all[i as int]);
                    lemma_first_failure_prefix(all, i + 1);
                }
                return Err(StartError::Source(*e));
            },
            Ok(_) => {},
        }
        i += 1;
    }
    proof {
        assert(all.take(i as int) =~= all);
    }
    if reports.len() == 0 {
        return Err(StartError::NoSources);
    }
    let first = match &reports[0] {
        Ok(v) => *v,
        Err(_) => {
            proof {
                lemma_no_failure(all, 0);
            }
            return Err(StartError::NoSources);
        },
    };
    proof {
        lemma_no_failure(all, 0);
    }
    let mut j: usize = 1;
    while j < reports.len()
        invariant
            1 <= j <= reports.len(),
            all == reports@,
            first_failure(all) is None,
            all[0] == Ok::<ApiVersion, SessionError>(first),
            forall|k: int| 0 <= k < j ==> #[trigger] all[k] == all[0],
        decreases reports.len() - j,
    {
        proof {
            lemma_no_failure(all, j as int);
        }
        let same = match &reports[j] {
            Ok(v) => *v == first,
            Err(_) => false,
        };
        if !same {
            proof {
                assert(all[j as int] != all[0]);
            }
            return Err(StartError::VersionMismatch);
        }
        j += 1;
    }
    Ok(first)
}

/// A failure reported within the first `n` reports is the first failure of
/// all the reports.
proof fn lemma_first_failure_prefix(reports: Seq<Result<ApiVersion, SessionError>>, n: int)
    requires
        0 <= n <= reports.len(),
        first_failure(reports.take(n)) is Some,
    ensures
        first_failure(reports) == first_failure(reports.take(n)),
    decreases reports.len(),
{
    if n < reports.len() {
        assert(reports.drop_last().take(n) =~= reports.take(n));
        lemma_first_failure_prefix(reports.drop_last(), n);
    } else {
        assert(reports.take(n) =~= reports);
    }
}

/// Version agreement: when two sessions report versions that differ, no
/// version is agreed, so the event stream server is never started and
/// accepts no subscriber.
pub proof fn law_version_agreement(
    reports: Seq<Result<ApiVersion, SessionError>>,
    i: int,
    j: int,
)
    requires
        0 <= i < reports.len(),
        0 <= j < reports.len(),
        reports[i] is Ok,
        reports[j] is Ok,
        reports[i]->Ok_0 != reports[j]->Ok_0,
    ensures
        agreed_version(reports) is Err,
{
    if first_failure(reports) is None {
        assert(!all_agree(reports));
    }
}

} // verus!
