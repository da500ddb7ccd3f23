//! The bounded retry rule for uploading an archive.
use vstd::prelude::*;

verus! {

/// Number of upload attempts made for one archive before giving up.
pub const MAX_UPLOAD_ATTEMPTS: u8 = 10;

/// What follows an upload attempt.
pub enum UploadDecision {
    /// The archive is stored.
    Uploaded,
    /// The attempt failed; make the next one.
    Retry,
    /// The last allowed attempt failed.
    GiveUp,
}

/// The decision after attempt number `attempt` ended with `succeeded`.
pub open spec fn spec_after_attempt(attempt: int, succeeded: bool) -> UploadDecision {
    if succeeded {
        UploadDecision::Uploaded
    } else if attempt < MAX_UPLOAD_ATTEMPTS {
        UploadDecision::Retry
    } else {
        UploadDecision::GiveUp
    }
}

/// Decides what follows attempt number `attempt` (counted from one).
pub fn after_attempt(attempt: u8, succeeded: bool) -> (r: UploadDecision)
    requires
        1 <= attempt <= MAX_UPLOAD_ATTEMPTS,
    ensures
        r == spec_after_attempt(attempt as int, succeeded),
{
    if succeeded {
        UploadDecision::Uploaded
    } else if attempt < MAX_UPLOAD_ATTEMPTS {
        UploadDecision::Retry
    } else {
        UploadDecision::GiveUp
    }
}

/// Runs the retry rule against an uploader that answers `outcomes` in turn,
/// the first of them to attempt number `attempt`: the number of the last
/// attempt made and whether the archive got stored, or `None` while the
/// answers run out first.
pub open spec fn replay_uploads(outcomes: Seq<bool>, attempt: int) -> Option<(int, bool)>
    decreases outcomes.len(),
{
    if outcomes.len() == 0 {
        None
    } else {
        match spec_after_attempt(attempt, outcomes[0]) {
            UploadDecision::Uploaded => Some((attempt, true)),
            UploadDecision::GiveUp => Some((attempt, false)),
            UploadDecision::Retry => replay_uploads(outcomes.drop_first(), attempt + 1),
        }
    }
}

/// An uploader that always fails is tried exactly `MAX_UPLOAD_ATTEMPTS`
/// times, and the archive is then reported as not stored.
pub proof fn lemma_failing_uploader_gives_up(outcomes: Seq<bool>)
    requires
        outcomes.len() >= MAX_UPLOAD_ATTEMPTS,
        forall|i: int| 0 <= i < outcomes.len() ==> !(#[trigger] outcomes[i]),
    ensures
        replay_uploads(outcomes, 1) == Some((MAX_UPLOAD_ATTEMPTS as int, false)),
{
    lemma_failures_from(outcomes, 1);
}

proof fn lemma_failures_from(outcomes: Seq<bool>, attempt: int)
    requires
        1 <= attempt <= MAX_UPLOAD_ATTEMPTS,
        outcomes.len() >= MAX_UPLOAD_ATTEMPTS - attempt + 1,
        forall|i: int| 0 <= i < outcomes.len() ==> !(#[trigger] outcomes[i]),
    ensures
        replay_uploads(outcomes, attempt) == Some((MAX_UPLOAD_ATTEMPTS as int, false)),
    decreases outcomes.len(),
{
    assert(!outcomes[0]);
    if attempt < MAX_UPLOAD_ATTEMPTS {
        let rest = outcomes.drop_first();
        assert forall|i: int| 0 <= i < rest.len() implies !(#[trigger] rest[i]) by {
            assert(rest[i] == outcomes[i + 1]);
        }
        lemma_failures_from(rest, attempt + 1);
    }
}

/// An uploader that fails `n` times, fewer than `MAX_UPLOAD_ATTEMPTS`, and
/// then succeeds, stores the archive on attempt `n + 1`.
pub proof fn lemma_upload_succeeds_after_failures(outcomes: Seq<bool>, n: int)
    requires
        0 <= n < MAX_UPLOAD_ATTEMPTS,
        n < outcomes.len(),
        forall|i: int| 0 <= i < n ==> !(#[trigger] outcomes[i]),
        outcomes[n],
    ensures
        replay_uploads(outcomes, 1) == Some((n + 1, true)),
{
    lemma_success_from(outcomes, n, 1);
}

proof fn lemma_success_from(outcomes: Seq<bool>, n: int, attempt: int)
    requires
        1 <= attempt,
        0 <= n,
        attempt + n <= MAX_UPLOAD_ATTEMPTS,
        n < outcomes.len(),
        forall|i: int| 0 <= i < n ==> !(#[trigger] outcomes[i]),
        outcomes[n],
    ensures
        replay_uploads(outcomes, attempt) == Some((attempt + n, true)),
    decreases n,
{
    if n > 0 {
        assert(!outcomes[0]);
        let rest = outcomes.drop_first();
        assert forall|i: int| 0 <= i < n - 1 implies !(#[trigger] rest[i]) by {
            assert(rest[i] == outcomes[i + 1]);
        }
        assert(rest[n - 1] == outcomes[n]);
        lemma_success_from(rest, n - 1, attempt + 1);
    }
}

} // verus!
