//! The data model of the remote repository-hosting API: shard repositories
//! and their naming scheme, workflow runs, and the request payloads the
//! glue code sends.  The network calls themselves live outside the library.

use vstd::prelude::*;

use base64::Engine;

use crate::text::{ascii_of, starts_with};

verus! {

/// Whether every byte of `s` is an ASCII decimal digit.
pub open spec fn is_digits(s: Seq<u8>) -> bool {
    s.len() > 0 && forall|i: int| 0 <= i < s.len() ==> 48 <= #[trigger] s[i] <= 57
}

/// The number the decimal digits `s` denote, most significant first.
pub open spec fn digits_value(s: Seq<u8>) -> nat
    decreases s.len(),
{
    if s.len() == 0 {
        0
    } else {
        digits_value(s.drop_last()) * 10 + ((s.last() - 48) as nat)
    }
}

/// A digit string denotes at least as much as any of its prefixes.
proof fn lemma_digits_value_prefix(s: Seq<u8>, i: int)
    requires
        0 <= i <= s.len(),
        forall|k: int| 0 <= k < s.len() ==> 48 <= #[trigger] s[k] <= 57,
    ensures
        digits_value(s.take(i)) <= digits_value(s),
    decreases s.len() - i,
{
    if i < s.len() {
        lemma_digits_value_prefix(s, i + 1);
        assert(s.take(i + 1).drop_last() =~= s.take(i));
        assert(digits_value(s.take(i + 1)) == digits_value(s.take(i)) * 10 + (s.take(i + 1).last()
            - 48));
        assert(s.take(s.len() as int) =~= s);
    } else {
        assert(s.take(i) =~= s);
    }
}

/// One shard repository of the hosting account: its name and its reported
/// disk usage.
pub struct DataRepo {
    pub name: Vec<u8>,
    pub size: i64,
}

impl DataRepo {
    /// The shard number encoded in a repository name of the form
    /// `pypi-mirror-<digits>`.  Only such names denote shards, which is
    /// what the preconditions say; they also keep the number within the
    /// machine's range.
    pub fn repo_index_integer(&self) -> (r: usize)
        requires
            starts_with(self.name@, ascii_of("pypi-mirror-")),
            is_digits(self.name@.skip(ascii_of("pypi-mirror-").len() as int)),
            digits_value(self.name@.skip(ascii_of("pypi-mirror-").len() as int)) <= usize::MAX,
        ensures
            r == digits_value(self.name@.skip(ascii_of("pypi-mirror-").len() as int)),
    {
        proof {
            reveal_strlit("pypi-mirror-");
        }
        let start: usize = 12;
        let ghost digits = self.name@.skip(12);
        let mut value: usize = 0;
        let mut i: usize = start;
        proof {
            assert(digits.take(0) =~= Seq::<u8>::empty());
        }
        while i < self.name.len()
            invariant
                start <= i <= self.name@.len(),
                start == 12,
                digits == self.name@.skip(12),
                is_digits(digits),
                digits_value(digits) <= usize::MAX,
                value == digits_value(digits.take(i - 12)),
            decreases self.name@.len() - i,
        {
            let d = self.name[i];
            proof {
                assert(digits[i - 12] == self.name@[i as int]);
                assert(digits.take(i - 12 + 1).drop_last() =~= digits.take(i - 12));
                assert(digits.take(i - 12 + 1).last() == digits[i - 12]);
                lemma_digits_value_prefix(digits, i - 12 + 1);
            }
            value = value * 10 + ((d - 48) as usize);
            i += 1;
        }
        proof {
            assert(digits.take(self.name@.len() - 12) =~= digits);
        }
        value
    }
}

/// The identifiers of the template repository a new shard is cloned from.
pub struct TemplateData {
    pub repo_id: Vec<u8>,
    pub owner_id: Vec<u8>,
}

/// The payload that registers a deploy key on a shard repository.
pub struct CreateDeployKey {
    pub title: Vec<u8>,
    pub key: Vec<u8>,
    pub read_only: bool,
}

/// A repository's public key for sealing action secrets.
pub struct RepoPublicKey {
    pub key: Vec<u8>,
    pub key_id: Vec<u8>,
}

/// The payload that stores a sealed action secret.
pub struct CreateSecret {
    pub encrypted_value: Vec<u8>,
    pub key_id: Vec<u8>,
}

/// The payload that uploads a shard's index file: a commit message, the
/// file content encoded in base64, and the replaced blob's id when the
/// file already exists.
pub struct PutFile {
    pub message: Vec<u8>,
    pub content: Vec<u8>,
    pub sha: Option<Vec<u8>>,
}

/// The blob id of an existing file.
pub struct GetFile {
    pub sha: Vec<u8>,
}

/// The inputs of a dispatched trigger workflow.
pub struct TriggerWorkflowInputs {
    pub limit: Vec<u8>,
}

/// The payload that dispatches the trigger workflow on a shard.
pub struct TriggerWorkflow {
    pub workflow_ref: Vec<u8>,
    pub inputs: TriggerWorkflowInputs,
}

/// The state the hosting service reports for a workflow run.
#[derive(Copy, Clone, Debug, PartialEq, Eq, Structural)]
pub enum Status {
    Completed,
    ActionRequired,
    Cancelled,
    Failure,
    Neutral,
    Skipped,
    Stale,
    Success,
    TimedOut,
    InProgress,
    Queued,
    Requested,
    Waiting,
    Pending,
    StartupFailure,
}

/// One workflow run of a shard repository.
pub struct WorkflowRun {
    pub html_url: Vec<u8>,
    pub status: Status,
    pub conclusion: Option<Status>,
}

/// The workflow runs reported for one shard repository.
pub struct WorkflowRuns {
    pub workflow_runs: Vec<WorkflowRun>,
}

/// The standard base64 encoding (with padding) of a byte string, as the
/// `base64` crate computes it.
pub uninterp spec fn base64_of(data: Seq<u8>) -> Seq<u8>;

/// Relies on `base64::engine::general_purpose::STANDARD.encode`: the
/// standard base64 text of the bytes, a pure function of them.
#[verifier::external_body]
fn base64_encode(data: &Vec<u8>) -> (r: Vec<u8>)
    ensures
        r@ == base64_of(data@),
{
    base64::engine::general_purpose::STANDARD.encode(data.as_slice()).into_bytes()
}

/// The payload that replaces a shard's index file: the fixed commit
/// message, the content in base64, and the existing blob's id if any.
pub fn build_put_file(contents: &Vec<u8>, sha: Option<Vec<u8>>) -> (r: PutFile)
    ensures
        r.message@ == ascii_of("Adding index"),
        r.content@ == base64_of(contents@),
        r.sha == sha,
{
    proof {
        reveal_strlit("Adding index");
    }
    PutFile {
        message: crate::text::ascii_bytes("Adding index"),
        content: base64_encode(contents),
        sha,
    }
}

} // verus!
