//! The decisions of proof dispatch: which receipts may go to a remote
//! service, how its status reports drive the polling loop, and how a returned
//! receipt is checked before it is handed to a caller.
//!
//! The work itself (launching a process, talking to the service, running the
//! verifier) is done by the caller, which hands the results back here.

use vstd::prelude::*;

use crate::image::Digest;
use crate::session::Assumption;

verus! {

/// Seconds to wait between two status requests to a remote service.
pub const POLL_INTERVAL_SECS: u64 = 5;

/// Why a proof could not be obtained or trusted.
#[derive(Debug)]
pub enum ProveError {
    /// An assumption is not proven yet, so it cannot be sent to a remote
    /// service.
    UnprovenAssumption,
    /// The remote workflow ended in a state other than success; the state's
    /// name is kept.
    WorkflowExited(String),
    /// The remote service reported success without a receipt location.
    MissingReceiptUrl,
    /// The receipt proves a run of another image; both ids are in hex.
    UnexpectedImageId { expected: String, found: String },
    /// The receipt did not pass the verifier's check.
    VerificationFailed,
}

/// A prover that sends its work to a remote proving service.
pub struct BonsaiProver {
    name: String,
}

impl BonsaiProver {
    /// The prover's name.
    pub closed spec fn spec_name(&self) -> Seq<char> {
        self.name@
    }

    /// A remote prover with the given name.
    pub fn new(name: &str) -> (r: BonsaiProver)
        ensures
            r.spec_name() == name@,
    {
        BonsaiProver { name: name.to_owned() }
    }

    /// The prover's name.
    pub fn get_name(&self) -> (r: String)
        ensures
            r@ == self.spec_name(),
    {
        self.name.clone()
    }
}

/// A prover that runs its work in a separate zkVM process.
pub struct ExternalProver {
    name: String,
    r0vm_path: String,
}

impl ExternalProver {
    /// The prover's name.
    pub closed spec fn spec_name(&self) -> Seq<char> {
        self.name@
    }

    /// The path of the zkVM executable.
    pub closed spec fn spec_r0vm_path(&self) -> Seq<char> {
        self.r0vm_path@
    }

    /// A prover with the given name that launches the executable at
    /// `r0vm_path`.
    pub fn new(name: &str, r0vm_path: &str) -> (r: ExternalProver)
        ensures
            r.spec_name() == name@,
            r.spec_r0vm_path() == r0vm_path@,
    {
        ExternalProver { name: name.to_owned(), r0vm_path: r0vm_path.to_owned() }
    }

    /// The prover's name.
    pub fn get_name(&self) -> (r: String)
        ensures
            r@ == self.spec_name(),
    {
        self.name.clone()
    }

    /// The path of the zkVM executable.
    pub fn r0vm_path(&self) -> (r: &str)
        ensures
            r@ == self.spec_r0vm_path(),
    {
        self.r0vm_path.as_str()
    }
}

/// Every assumption is proven.
pub open spec fn all_proven(s: Seq<Assumption>) -> bool {
    forall|i: int| 0 <= i < s.len() ==> #[trigger] s[i] is Proven
}

/// The receipts of a list of proven assumptions, in order.
pub open spec fn proven_receipts(s: Seq<Assumption>) -> Seq<Seq<u8>> {
    s.map_values(|a: Assumption| a->Proven_0@)
}

/// The receipts to upload for the given assumptions, in order; fails, before
/// anything is uploaded, where one of them is not proven yet.
pub fn receipts_to_upload(assumptions: &Vec<Assumption>) -> (r: Result<Vec<Vec<u8>>, ProveError>)
    ensures
        r is Ok <==> all_proven(assumptions@),
        r matches Ok(v) ==> v@.map_values(|b: Vec<u8>| b@) == proven_receipts(assumptions@),
        r matches Err(e) ==> e is UnprovenAssumption,
{
    let mut out: Vec<Vec<u8>> = Vec::new();
    let mut i: usize = 0;
    while i < assumptions.len()
        invariant
            i <= assumptions@.len(),
            out@.len() == i,
            forall|j: int| 0 <= j < i ==> #[trigger] assumptions@[j] is Proven,
            forall|j: int| 0 <= j < i ==> (#[trigger] out@[j])@ == assumptions@[j]->Proven_0@,
        decreases assumptions@.len() - i,
    {
        match &assumptions[i] {
            Assumption::Proven(receipt) => {
                out.push(crate::image::copy_bytes(receipt));
            },
            Assumption::Unresolved(_) => {
                return Err(ProveError::UnprovenAssumption);
            },
        }
        i = i + 1;
    }
    assert(out@.map_values(|b: Vec<u8>| b@) =~= proven_receipts(assumptions@));
    Ok(out)
}

/// What a remote session must be created with: the image's id in hex, under
/// which the image is uploaded, and the receipts of the proven assumptions.
pub struct UploadPlan {
    pub image_id_hex: String,
    pub receipts: Vec<Vec<u8>>,
}

/// Plans the uploads for a remote proof of the image with `image_id`. All
/// checks are made here, before any upload: where an assumption is not yet
/// proven, nothing is to be uploaded at all.
pub fn plan_uploads(image_id: &Digest, assumptions: &Vec<Assumption>) -> (r: Result<UploadPlan, ProveError>)
    ensures
        r is Ok <==> all_proven(assumptions@),
        r matches Err(e) ==> e is UnprovenAssumption,
        r matches Ok(p) ==> p.image_id_hex@ == hex_of(image_id@) && p.receipts@.map_values(
            |b: Vec<u8>| b@,
        ) == proven_receipts(assumptions@),
{
    let receipts = match receipts_to_upload(assumptions) {
        Ok(v) => v,
        Err(e) => return Err(e),
    };
    Ok(UploadPlan { image_id_hex: encode_hex(&image_id.bytes), receipts })
}

/// The lowercase hexadecimal digit of a value below sixteen.
pub open spec fn hex_digit(n: u8) -> char {
    if n < 10 {
        (('0' as u8) + n) as char
    } else {
        (('a' as u8) + (n - 10)) as char
    }
}

/// Two lowercase hexadecimal digits per byte, high digit first.
pub open spec fn hex_of(b: Seq<u8>) -> Seq<char>
    decreases b.len(),
{
    if b.len() == 0 {
        Seq::empty()
    } else {
        hex_of(b.drop_last()).push(hex_digit(b.last() / 16)).push(hex_digit(b.last() % 16))
    }
}

/// Relies on hex::encode: two lowercase hexadecimal digits for each byte,
/// high digit first, in order.
#[verifier::external_body]
fn encode_hex(b: &Vec<u8>) -> (r: String)
    ensures
        r@ == hex_of(b@),
{
    hex::encode(b)
}

/// The status a remote session reports while it is still proving.
pub open spec fn status_running() -> Seq<char> {
    seq!['R', 'U', 'N', 'N', 'I', 'N', 'G']
}

/// The status a remote session reports once its receipt is ready.
pub open spec fn status_succeeded() -> Seq<char> {
    seq!['S', 'U', 'C', 'C', 'E', 'E', 'D', 'E', 'D']
}

/// What the polling loop does after one status report.
#[derive(Debug)]
pub enum PollAction {
    /// Wait [POLL_INTERVAL_SECS] seconds, then ask again.
    Sleep,
    /// Download the receipt from this location.
    Download(String),
    /// Stop with this error; nothing is retried.
    Fail(ProveError),
}

/// The action that follows a status report, over plain values.
pub open spec fn poll_step(status: Seq<char>, receipt_url: Option<Seq<char>>) -> PollStep {
    if status == status_running() {
        PollStep::Sleep
    } else if status == status_succeeded() {
        match receipt_url {
            Some(u) => PollStep::Download(u),
            None => PollStep::MissingReceiptUrl,
        }
    } else {
        PollStep::Exited(status)
    }
}

/// The mathematical value of a [PollAction].
pub ghost enum PollStep {
    Sleep,
    Download(Seq<char>),
    MissingReceiptUrl,
    Exited(Seq<char>),
    /// An action that no status report leads to.
    Other,
}

/// The value of an action.
pub open spec fn poll_action_view(a: PollAction) -> PollStep {
    match a {
        PollAction::Sleep => PollStep::Sleep,
        PollAction::Download(u) => PollStep::Download(u@),
        PollAction::Fail(ProveError::MissingReceiptUrl) => PollStep::MissingReceiptUrl,
        PollAction::Fail(ProveError::WorkflowExited(s)) => PollStep::Exited(s@),
        PollAction::Fail(_) => PollStep::Other,
    }
}

/// The view of an optional string.
pub open spec fn opt_string_view(o: Option<String>) -> Option<Seq<char>> {
    match o {
        Some(s) => Some(s@),
        None => None,
    }
}

/// Decides what the polling loop does after the remote session reported
/// `status`, with `receipt_url` where it gave one. Only a running session is
/// polled again; success leads to the download, any other state is a
/// failure that names it.
pub fn next_poll_action(status: &String, receipt_url: Option<String>) -> (r: PollAction)
    ensures
        poll_action_view(r) == poll_step(status@, opt_string_view(receipt_url)),
{
    let running = "RUNNING".to_owned();
    let succeeded = "SUCCEEDED".to_owned();
    proof {
        reveal_strlit("RUNNING");
        reveal_strlit("SUCCEEDED");
        assert(running@ =~= status_running());
        assert(succeeded@ =~= status_succeeded());
    }
    if *status == running {
        PollAction::Sleep
    } else if *status == succeeded {
        match receipt_url {
            Some(u) => PollAction::Download(u),
            None => PollAction::Fail(ProveError::MissingReceiptUrl),
        }
    } else {
        PollAction::Fail(ProveError::WorkflowExited(status.clone()))
    }
}

/// The number of reports at the start of a list that say the session is
/// still running.
pub open spec fn leading_running(s: Seq<Seq<char>>) -> nat
    decreases s.len(),
{
    if s.len() == 0 {
        0
    } else if s[0] == status_running() {
        1 + leading_running(s.drop_first())
    } else {
        0
    }
}

/// What a run of the polling loop over a list of status reports comes to.
pub struct PollReport {
    /// How many times the loop slept.
    pub sleeps: usize,
    /// The action that ended the loop, or `None` where the reports ran out
    /// while the session was still running.
    pub outcome: Option<PollAction>,
}

/// The statuses of a list of reports.
pub open spec fn statuses_of(reports: Seq<(String, Option<String>)>) -> Seq<Seq<char>> {
    reports.map_values(|p: (String, Option<String>)| p.0@)
}

/// Runs the polling loop over a given list of status reports, the way it
/// runs over the reports of a remote service: it sleeps after each report of
/// a running session, and stops at the first other report.
pub fn replay_polling(reports: &Vec<(String, Option<String>)>) -> (r: PollReport)
    ensures
        r.sleeps == leading_running(statuses_of(reports@)),
        r.sleeps < reports@.len() ==> (r.outcome matches Some(a) && poll_action_view(a) == poll_step(
            reports@[r.sleeps as int].0@,
            opt_string_view(reports@[r.sleeps as int].1),
        )),
        r.sleeps == reports@.len() ==> r.outcome is None,
{
    let ghost all = reports@;
    let mut sleeps: usize = 0;
    while sleeps < reports.len()
        invariant
            sleeps <= all.len(),
            all == reports@,
            forall|j: int| 0 <= j < sleeps ==> #[trigger] statuses_of(all)[j] == status_running(),
        decreases all.len() - sleeps,
    {
        let url = match &reports[sleeps].1 {
            Some(u) => Some(u.clone()),
            None => None,
        };
        let action = next_poll_action(&reports[sleeps].0, url);
        match action {
            PollAction::Sleep => {
                assert(statuses_of(all)[sleeps as int] == status_running());
                sleeps = sleeps + 1;
            },
            _ => {
                proof {
                    lemma_leading_running_stops(statuses_of(all), sleeps as nat);
                }
                return PollReport { sleeps, outcome: Some(action) };
            },
        }
    }
    proof {
        lemma_leading_running_all(statuses_of(all));
    }
    PollReport { sleeps, outcome: None }
}

proof fn lemma_leading_running_stops(s: Seq<Seq<char>>, k: nat)
    requires
        k < s.len(),
        forall|j: int| 0 <= j < k ==> #[trigger] s[j] == status_running(),
        s[k as int] != status_running(),
    ensures
        leading_running(s) == k,
    decreases k,
{
    if k > 0 {
        lemma_leading_running_stops(s.drop_first(), (k - 1) as nat);
    }
}

proof fn lemma_leading_running_all(s: Seq<Seq<char>>)
    requires
        forall|j: int| 0 <= j < s.len() ==> #[trigger] s[j] == status_running(),
    ensures
        leading_running(s) == s.len(),
    decreases s.len(),
{
    if s.len() > 0 {
        lemma_leading_running_all(s.drop_first());
    }
}

/// How a receipt is checked before it is returned.
#[derive(Clone, Copy, Debug, PartialEq, Eq, Structural)]
pub enum VerifyMode {
    /// The guest may have failed: check the receipt's integrity alone, then
    /// that its claim starts from the expected image.
    IntegrityThenImageId,
    /// Check the receipt against the verifier context and the image id
    /// together.
    WithImageId,
}

/// The check a receipt gets: integrity and an explicit image id comparison
/// where guest errors are to be proven, the combined check otherwise.
pub fn verify_mode(prove_guest_errors: bool) -> (r: VerifyMode)
    ensures
        prove_guest_errors ==> r == VerifyMode::IntegrityThenImageId,
        !prove_guest_errors ==> r == VerifyMode::WithImageId,
{
    if prove_guest_errors {
        VerifyMode::IntegrityThenImageId
    } else {
        VerifyMode::WithImageId
    }
}

/// Accepts a receipt whose claim starts from the image with `found` as its
/// id only where that is the expected id; the error names both in hex.
pub fn check_image_id(expected: &Digest, found: &Digest) -> (r: Result<(), ProveError>)
    ensures
        r is Ok <==> expected@ == found@,
        r matches Err(e) ==> (e matches ProveError::UnexpectedImageId { expected: x, found: y } && x@
            == hex_of(expected@) && y@ == hex_of(found@)),
{
    if expected.same_as(found) {
        Ok(())
    } else {
        Err(
            ProveError::UnexpectedImageId {
                expected: encode_hex(&expected.bytes),
                found: encode_hex(&found.bytes),
            },
        )
    }
}

/// Decides whether a receipt may be returned, given the mode it was checked
/// in, whether the verifier's check (integrity alone, or combined with the
/// image id) passed, and, for a check of integrity alone, the image id the
/// receipt's claim starts from. A receipt is returned only where every check
/// of its mode passed.
pub fn accept_receipt(mode: VerifyMode, check_passed: bool, expected: &Digest, claim_pre: &Digest) -> (r: Result<(), ProveError>)
    ensures
        r is Ok <==> check_passed && (mode == VerifyMode::IntegrityThenImageId ==> expected@ == claim_pre@),
        !check_passed ==> (r matches Err(e) && e is VerificationFailed),
        check_passed && mode == VerifyMode::IntegrityThenImageId && expected@ != claim_pre@ ==> (
            r matches Err(e) && e matches ProveError::UnexpectedImageId { expected: x, found: y } && x@
                == hex_of(expected@) && y@ == hex_of(claim_pre@)),
{
    if !check_passed {
        return Err(ProveError::VerificationFailed);
    }
    match mode {
        VerifyMode::IntegrityThenImageId => check_image_id(expected, claim_pre),
        VerifyMode::WithImageId => Ok(()),
    }
}

} // verus!
