//! Downloading one image: when to save, when to ask again and when to give up.

use crate::text::{decimal, parse_unsigned, unsigned_value};
use vstd::prelude::*;

verus! {

/// The text that `StatusCode` of the `reqwest` crate displays for a status code.
pub uninterp spec fn http_status_text(status: u16) -> Seq<char>;

/// Calls `reqwest::StatusCode::from_u16` and the status code's `to_string`. The text begins
/// with the code in decimal and a space; the reason phrase behind it is left to the name.
#[verifier::external_body]
fn status_text(status: u16) -> (out: String)
    requires
        100 <= status < 1000,
    ensures
        out@ == http_status_text(status),
        (decimal(status as nat) + " "@).is_prefix_of(out@),
{
    reqwest::StatusCode::from_u16(status).map(|code| code.to_string()).unwrap_or_default()
}

/// The waits, in milliseconds, before the second and each further request, where the server
/// asks for none.
pub open spec fn retry_waits() -> Seq<u64> {
    seq![30_000u64, 60_000u64, 120_000u64, 300_000u64, 600_000u64]
}

fn retry_wait(retries: usize) -> (wait: u64)
    requires
        retries < 5,
    ensures
        wait == retry_waits()[retries as int],
{
    if retries == 0 {
        30_000
    } else if retries == 1 {
        60_000
    } else if retries == 2 {
        120_000
    } else if retries == 3 {
        300_000
    } else {
        600_000
    }
}

/// Whether the status says that the image came.
pub open spec fn is_success(status: u16) -> bool {
    200 <= status < 300
}

/// Whether the status says that asking again may help: too many requests, or a server error.
pub open spec fn is_retryable(status: u16) -> bool {
    status == 429 || 500 <= status < 600
}

/// The wait, in milliseconds, that the server asks for on too many requests, exactly; none
/// where its header is no number of seconds.
pub open spec fn server_wait(status: u16, retry_after: Option<Seq<char>>) -> Option<nat> {
    match retry_after {
        Some(header) => match unsigned_value(header) {
            Some(secs) => if status == 429 && secs <= u64::MAX {
                Some(secs * 1000)
            } else {
                None
            },
            None => None,
        },
        None => None,
    }
}

/// The wait, in milliseconds, before a request is sent again: what the server asks for, or
/// else the step of the ladder.
pub open spec fn wait_before(
    retries: nat,
    status: u16,
    retry_after: Option<Seq<char>>,
) -> nat {
    match server_wait(status, retry_after) {
        Some(wait) => wait,
        None => retry_waits()[retries as int] as nat,
    }
}

/// What is said of a download that was given up on an answer with this status.
pub open spec fn failure(status: u16) -> Seq<char> {
    failure_with(http_status_text(status))
}

/// What is said of a download that was given up, given the text for its last status.
pub open spec fn failure_with(status_text: Seq<char>) -> Seq<char> {
    "HTTP status "@ + status_text + " (after retries)"@
}

/// What is said of a download that was given up, given the text for its last status.
pub fn failure_message(status_text: &str) -> (out: String)
    ensures
        out@ == failure_with(status_text@),
{
    let mut out = "HTTP status ".to_owned();
    out.append(status_text);
    out.append(" (after retries)");
    out
}

/// A download with a request on its way.
#[derive(Debug)]
pub struct Download {
    retries: usize,
}

/// What to do about an answer.
#[derive(Debug)]
pub enum DownloadStep {
    /// Save what came.
    Save,
    /// Wait, and send the request again.
    Retry { next: Download, wait_ms: u128 },
    /// Report the failure.
    GiveUp { message: String },
}

/// A [`DownloadStep`], as text and numbers.
pub enum StepView {
    Save,
    Retry { retries: nat, wait: nat },
    GiveUp { message: Seq<char> },
}

impl View for DownloadStep {
    type V = StepView;

    open spec fn view(&self) -> StepView {
        match self {
            DownloadStep::Save => StepView::Save,
            DownloadStep::Retry { next, wait_ms } => StepView::Retry {
                retries: next@,
                wait: *wait_ms as nat,
            },
            DownloadStep::GiveUp { message } => StepView::GiveUp { message: message@ },
        }
    }
}

impl View for Download {
    type V = nat;

    /// How often the request was sent again.
    closed spec fn view(&self) -> nat {
        self.retries as nat
    }
}

/// What to do about an answer to a request that was sent again `retries` times. An image is
/// saved. A retryable answer is retried as long as there is a wait for it. Anything else is
/// the end.
pub open spec fn decision(
    retries: nat,
    status: u16,
    retry_after: Option<Seq<char>>,
) -> StepView {
    if is_success(status) {
        StepView::Save
    } else if is_retryable(status) && retries < retry_waits().len() {
        StepView::Retry { retries: retries + 1, wait: wait_before(retries, status, retry_after) }
    } else {
        StepView::GiveUp { message: failure(status) }
    }
}

/// The text of an optional header.
pub open spec fn header_text(header: Option<&str>) -> Option<Seq<char>> {
    match header {
        Some(header) => Some(header@),
        None => None,
    }
}

fn server_wait_ms(status: u16, retry_after: Option<&str>) -> (wait: Option<u128>)
    ensures
        wait is Some <==> server_wait(status, header_text(retry_after)) is Some,
        wait matches Some(ms) ==> server_wait(status, header_text(retry_after)) == Some(ms as nat),
{
    if status != 429 {
        return None;
    }
    match retry_after {
        Some(header) => match parse_unsigned(header, u64::MAX) {
            Some(secs) => Some(secs as u128 * 1000),
            None => None,
        },
        None => None,
    }
}

impl Download {
    #[verifier::type_invariant]
    spec fn in_bounds(self) -> bool {
        self.retries <= 5
    }

    /// A download whose first request is on its way.
    pub fn start() -> (out: Download)
        ensures
            out@ == 0,
    {
        Download { retries: 0 }
    }

    /// Decides about an answer, by its status and the text of its `Retry-After` header.
    pub fn on_response(self, status: u16, retry_after: Option<&str>) -> (step: DownloadStep)
        requires
            100 <= status < 1000,
        ensures
            step@ == decision(self@, status, header_text(retry_after)),
            step matches DownloadStep::GiveUp { message } ==> ("HTTP status "@ + decimal(
                status as nat,
            ) + " "@).is_prefix_of(message@),
    {
        proof {
            use_type_invariant(&self);
        }
        if 200 <= status && status < 300 {
            return DownloadStep::Save;
        }
        let retryable: bool = status == 429 || (500 <= status && status < 600);
        if retryable && self.retries < 5 {
            let wait_ms: u128 = match server_wait_ms(status, retry_after) {
                Some(wait) => wait,
                None => retry_wait(self.retries) as u128,
            };
            DownloadStep::Retry { next: Download { retries: self.retries + 1 }, wait_ms }
        } else {
            let text = status_text(status);
            let message = failure_message(&text);
            proof {
                let head = decimal(status as nat) + " "@;
                let start = "HTTP status "@ + decimal(status as nat) + " "@;
                let rest = text@.skip(head.len() as int) + " (after retries)"@;
                assert(start =~= "HTTP status "@ + head);
                assert(text@ =~= head + text@.skip(head.len() as int));
                assert(message@ =~= start + rest);
                assert((start + rest).subrange(0, start.len() as int) =~= start);
            }
            DownloadStep::GiveUp { message }
        }
    }
}

/// How a download ends, given the answers to its requests from the `retries`-th repetition
/// on: saved, or given up with a message; `None` where it is not over yet.
pub open spec fn ending(
    retries: nat,
    answers: Seq<(u16, Option<Seq<char>>)>,
) -> Option<Result<(), Seq<char>>>
    decreases answers.len(),
{
    if answers.len() == 0 {
        None
    } else {
        match decision(retries, answers[0].0, answers[0].1) {
            StepView::Save => Some(Ok(())),
            StepView::Retry { retries, .. } => ending(retries, answers.drop_first()),
            StepView::GiveUp { message } => Some(Err(message)),
        }
    }
}

/// A download is over after six answers at the latest.
pub proof fn download_ends(answers: Seq<(u16, Option<Seq<char>>)>)
    requires
        answers.len() >= 6,
    ensures
        ending(0, answers) is Some,
{
    ends_in_time(0, answers);
}

proof fn ends_in_time(retries: nat, answers: Seq<(u16, Option<Seq<char>>)>)
    requires
        retries <= 5,
        answers.len() >= 6 - retries,
    ensures
        ending(retries, answers) is Some,
    decreases answers.len(),
{
    if retries < 5 && is_retryable(answers[0].0) && !is_success(answers[0].0) {
        ends_in_time(retries + 1, answers.drop_first());
    }
}

/// A download is decided by its first answer that is not retryable, if that is among the
/// first six: the image is saved on a success, and anything else is reported with that
/// answer's own status.
pub proof fn first_final_answer_decides(answers: Seq<(u16, Option<Seq<char>>)>, at: int)
    requires
        0 <= at < answers.len(),
        at <= 5,
        forall|i: int| 0 <= i < at ==> is_retryable(#[trigger] answers[i].0),
        !is_retryable(answers[at].0),
    ensures
        ending(0, answers) == Some(
            if is_success(answers[at].0) {
                Ok(())
            } else {
                Err(failure(answers[at].0))
            },
        ),
{
    decided_by(0, answers, at);
}

proof fn decided_by(retries: nat, answers: Seq<(u16, Option<Seq<char>>)>, at: int)
    requires
        0 <= at < answers.len(),
        retries + at <= 5,
        forall|i: int| 0 <= i < at ==> is_retryable(#[trigger] answers[i].0),
        !is_retryable(answers[at].0),
    ensures
        ending(retries, answers) == Some(
            if is_success(answers[at].0) {
                Ok(())
            } else {
                Err(failure(answers[at].0))
            },
        ),
    decreases at,
{
    if at > 0 {
        assert(is_retryable(answers[0].0));
        let rest = answers.drop_first();
        assert forall|i: int| 0 <= i < at - 1 implies is_retryable(#[trigger] rest[i].0) by {
            assert(is_retryable(answers[i + 1].0));
        }
        decided_by(retries + 1, rest, at - 1);
    }
}

/// A download that gets six retryable answers is given up with the status of the sixth.
pub proof fn retries_run_out(answers: Seq<(u16, Option<Seq<char>>)>)
    requires
        answers.len() >= 6,
        forall|i: int| 0 <= i < 6 ==> is_retryable(#[trigger] answers[i].0),
    ensures
        ending(0, answers) == Some(Err::<(), Seq<char>>(failure(answers[5].0))),
{
    run_out(0, answers);
}

proof fn run_out(retries: nat, answers: Seq<(u16, Option<Seq<char>>)>)
    requires
        retries <= 5,
        answers.len() >= 6 - retries,
        forall|i: int| 0 <= i < 6 - retries ==> is_retryable(#[trigger] answers[i].0),
    ensures
        ending(retries, answers) == Some(
            Err::<(), Seq<char>>(failure(answers[5 - retries].0)),
        ),
    decreases 6 - retries,
{
    assert(is_retryable(answers[0].0));
    if retries < 5 {
        let rest = answers.drop_first();
        assert forall|i: int| 0 <= i < 6 - (retries + 1) implies is_retryable(
            #[trigger] rest[i].0,
        ) by {
            assert(is_retryable(answers[i + 1].0));
        }
        run_out(retries + 1, rest);
    }
}

/// As long as a download is not given up, a number of seconds that the server asks for on too
/// many requests is waited exactly, whatever the step of the ladder; on any other retryable
/// answer the step of the ladder is.
pub proof fn server_wait_replaces_ladder(
    retries: nat,
    status: u16,
    retry_after: Option<Seq<char>>,
    secs: nat,
)
    requires
        retries < retry_waits().len(),
        is_retryable(status),
        secs <= u64::MAX,
    ensures
        status == 429 && retry_after is Some && unsigned_value(retry_after->0) == Some(secs)
            ==> decision(retries, status, retry_after) == (StepView::Retry {
            retries: retries + 1,
            wait: secs * 1000,
        }),
        status != 429 || retry_after is None || unsigned_value(retry_after->0) is None
            ==> decision(retries, status, retry_after) == (StepView::Retry {
            retries: retries + 1,
            wait: retry_waits()[retries as int] as nat,
        }),
{
}

/// What an answer calls for, by the number of its status. Any status from 200 to 299 is
/// saved. Of the others, 429 and every status from 500 to 599 is followed by another request
/// as long as the request was sent again fewer than five times; all else is the end, and the
/// failure names the status.
pub proof fn answers_by_number(retries: nat, status: u16, retry_after: Option<Seq<char>>)
    ensures
        200 <= status <= 299 <==> decision(retries, status, retry_after) is Save,
        retries < 5 && (status == 429 || 500 <= status <= 599) <==> decision(
            retries,
            status,
            retry_after,
        ) is Retry,
        decision(retries, status, retry_after) matches StepView::Retry { retries: r, .. } ==> r
            == retries + 1,
        decision(retries, status, retry_after) matches StepView::GiveUp { message } ==> message
            == "HTTP status "@ + http_status_text(status) + " (after retries)"@,
{
}

/// How long to wait before each request is sent again, in milliseconds: on a 429 whose header
/// is a number of seconds, a thousand times that number; else half a minute, one, two, five
/// and ten minutes, in turn.
pub proof fn waits_by_number(retries: nat, status: u16, retry_after: Option<Seq<char>>)
    requires
        retries < 5,
        status == 429 || 500 <= status <= 599,
    ensures
        ({
            let asked = status == 429 && retry_after is Some && unsigned_value(
                retry_after->0,
            ) is Some && unsigned_value(retry_after->0)->0 <= 0xffff_ffff_ffff_ffff;
            &&& decision(retries, status, retry_after) matches StepView::Retry { wait, .. }
            &&& asked ==> wait == unsigned_value(retry_after->0)->0 * 1000
            &&& !asked && retries == 0 ==> wait == 30_000
            &&& !asked && retries == 1 ==> wait == 60_000
            &&& !asked && retries == 2 ==> wait == 120_000
            &&& !asked && retries == 3 ==> wait == 300_000
            &&& !asked && retries == 4 ==> wait == 600_000
        }),
{
}

/// A step says the same as text and numbers as it holds.
pub proof fn steps_show_what_they_hold(next: Download, wait_ms: u128, message: String)
    ensures
        DownloadStep::Save@ == StepView::Save,
        (DownloadStep::Retry { next, wait_ms })@ == (StepView::Retry {
            retries: next@,
            wait: wait_ms as nat,
        }),
        (DownloadStep::GiveUp { message })@ == (StepView::GiveUp { message: message@ }),
        header_text(None) is None,
        forall|header: &str| #[trigger] header_text(Some(header)) == Some(header@),
{
}

} // verus!
