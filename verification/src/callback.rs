//! What the outcome of a C exporter callback means.

use vstd::prelude::*;

use crate::abi::OtelStatus;
use crate::error::{result_view, OTelSdkError, OTelSdkResult, SdkErrorView};
use crate::text::{append_decimal, decimal};
use crate::time::Duration;

verus! {

/// How a signal treats statuses that do not describe a failed export.
#[derive(Clone, Copy, Debug, PartialEq, Eq, Structural)]
pub enum StatusPolicy {
    /// Only the failure statuses are valid failures; others get a diagnostic of their own.
    Strict,
    /// Every other status is a failure.
    Lenient,
}

/// The subject of a callback diagnostic.
pub open spec fn callback_subject(signal: Seq<char>, operation: Seq<char>) -> Seq<char> {
    "custom "@ + signal + " exporter "@ + operation + " callback "@
}

/// The lifecycle result for a callback that returned `outcome`, or panicked where there is none.
pub open spec fn callback_meaning(
    signal: Seq<char>,
    operation: Seq<char>,
    timeout: Duration,
    outcome: Option<OtelStatus>,
    policy: StatusPolicy,
) -> Result<(), SdkErrorView> {
    let subject = callback_subject(signal, operation);
    match outcome {
        None => Err(SdkErrorView::InternalFailure(subject + "panicked"@)),
        Some(OtelStatus::Success) => Ok(()),
        Some(OtelStatus::AlreadyShutdown) => Err(SdkErrorView::AlreadyShutdown),
        Some(OtelStatus::Timeout) => Err(SdkErrorView::Timeout(timeout)),
        Some(status) => if policy == StatusPolicy::Lenient || status == OtelStatus::ExportFailed
            || status == OtelStatus::InternalError {
            Err(
                SdkErrorView::InternalFailure(
                    subject + "failed with status "@ + decimal(status.spec_code() as nat),
                ),
            )
        } else {
            Err(
                SdkErrorView::InternalFailure(
                    subject + "returned status "@ + decimal(status.spec_code() as nat)
                        + ", which is not a valid result for this callback"@,
                ),
            )
        },
    }
}

fn subject_text(signal: &str, operation: &str) -> (r: String)
    ensures
        r@ == callback_subject(signal@, operation@),
{
    let mut out = "custom ".to_owned();
    out.append(signal);
    out.append(" exporter ");
    out.append(operation);
    out.append(" callback ");
    out
}

/// Maps the outcome of a callback to a lifecycle result.
pub fn callback_outcome(
    signal: &str,
    operation: &str,
    timeout: Duration,
    outcome: Option<OtelStatus>,
    policy: StatusPolicy,
) -> (r: OTelSdkResult)
    ensures
        result_view(r) == callback_meaning(signal@, operation@, timeout, outcome, policy),
{
    let status = match outcome {
        None => {
            let mut message = subject_text(signal, operation);
            message.append("panicked");
            return Err(OTelSdkError::InternalFailure(message));
        },
        Some(status) => status,
    };
    match status {
        OtelStatus::Success => Ok(()),
        OtelStatus::AlreadyShutdown => Err(OTelSdkError::AlreadyShutdown),
        OtelStatus::Timeout => Err(OTelSdkError::Timeout(timeout)),
        _ => {
            let mut message = subject_text(signal, operation);
            if policy == StatusPolicy::Lenient || status == OtelStatus::ExportFailed || status
                == OtelStatus::InternalError {
                message.append("failed with status ");
                append_decimal(&mut message, status.code() as u64);
            } else {
                message.append("returned status ");
                append_decimal(&mut message, status.code() as u64);
                message.append(", which is not a valid result for this callback");
            }
            Err(OTelSdkError::InternalFailure(message))
        },
    }
}

/// What an exporter does next: it is done, or a callback that takes the state is to be invoked.
#[derive(Debug)]
pub enum CallbackStep {
    Done(OTelSdkResult),
    Invoke { callback: usize, user_data: usize },
}

/// What an exporter does next on shutdown: it is done, or a callback that takes the state and a
/// budget in milliseconds is to be invoked.
#[derive(Debug)]
pub enum ShutdownStep {
    Done(OTelSdkResult),
    Invoke { callback: usize, user_data: usize, timeout_millis: u64 },
}

/// What releasing an exporter does: the shutdown step, and then the callback that releases the
/// state, if there is one.
#[derive(Debug)]
pub struct ReleasePlan {
    pub shutdown: ShutdownStep,
    pub destroy: Option<usize>,
    pub user_data: usize,
}

/// What releasing an exporter does: a shutdown with a budget of five seconds, and then the callback
/// that releases the state.
pub open spec fn release_plan(
    plan: ReleasePlan,
    was_shut_down: bool,
    shutdown: Option<usize>,
    state_destroy: Option<usize>,
    user_data: usize,
) -> bool {
    &&& shutdown_step(
        plan.shutdown,
        was_shut_down,
        shutdown,
        user_data,
        Duration { secs: 5, nanos: 0 },
    )
    &&& plan.destroy == state_destroy
    &&& plan.user_data == user_data
}

/// The budget of a shutdown in milliseconds, capped at the greatest `u64`.
pub open spec fn millis_budget(timeout: Duration) -> int {
    if timeout.spec_millis() <= u64::MAX {
        timeout.spec_millis()
    } else {
        u64::MAX as int
    }
}

/// The first shutdown invokes the callback where there is one; every later one is refused.
pub open spec fn shutdown_step(
    step: ShutdownStep,
    was_shut_down: bool,
    callback: Option<usize>,
    user_data: usize,
    timeout: Duration,
) -> bool {
    if was_shut_down {
        step matches ShutdownStep::Done(r) && result_view(r) == Err::<(), SdkErrorView>(
            SdkErrorView::AlreadyShutdown,
        )
    } else {
        match callback {
            Some(callback) => step matches ShutdownStep::Invoke {
                callback: c,
                user_data: u,
                timeout_millis: m,
            } && c == callback && u == user_data && m == millis_budget(timeout),
            None => step matches ShutdownStep::Done(r) && result_view(r) == Ok::<(), SdkErrorView>(
                (),
            ),
        }
    }
}

/// Shuts an exporter's state down at most once.
pub fn begin_shutdown(
    shut_down: &mut bool,
    callback: Option<usize>,
    user_data: usize,
    timeout: Duration,
) -> (r: ShutdownStep)
    requires
        timeout.wf(),
    ensures
        *final(shut_down),
        shutdown_step(r, *old(shut_down), callback, user_data, timeout),
{
    if *shut_down {
        return ShutdownStep::Done(Err(OTelSdkError::AlreadyShutdown));
    }
    *shut_down = true;
    match callback {
        Some(callback) => ShutdownStep::Invoke {
            callback,
            user_data,
            timeout_millis: timeout.millis_saturating(),
        },
        None => ShutdownStep::Done(Ok(())),
    }
}

/// Plans the release of an exporter.
pub fn begin_release(
    was_shut_down: bool,
    shutdown: Option<usize>,
    state_destroy: Option<usize>,
    user_data: usize,
) -> (r: ReleasePlan)
    ensures
        release_plan(r, was_shut_down, shutdown, state_destroy, user_data),
{
    let mut shut_down: bool = was_shut_down;
    let step = begin_shutdown(&mut shut_down, shutdown, user_data, Duration::from_secs(5));
    ReleasePlan { shutdown: step, destroy: state_destroy, user_data }
}

/// A flush invokes the callback where there is one, unless the exporter is shut down.
pub open spec fn flush_step(
    step: CallbackStep,
    shut_down: bool,
    callback: Option<usize>,
    user_data: usize,
) -> bool {
    if shut_down {
        step matches CallbackStep::Done(r) && result_view(r) == Err::<(), SdkErrorView>(
            SdkErrorView::AlreadyShutdown,
        )
    } else {
        match callback {
            Some(callback) => step matches CallbackStep::Invoke { callback: c, user_data: u } && c
                == callback && u == user_data,
            None => step matches CallbackStep::Done(r) && result_view(r) == Ok::<(), SdkErrorView>(
                (),
            ),
        }
    }
}

/// Decides what a flush does.
pub fn begin_flush(shut_down: bool, callback: Option<usize>, user_data: usize) -> (r: CallbackStep)
    ensures
        flush_step(r, shut_down, callback, user_data),
{
    if shut_down {
        return CallbackStep::Done(Err(OTelSdkError::AlreadyShutdown));
    }
    match callback {
        Some(callback) => CallbackStep::Invoke { callback, user_data },
        None => CallbackStep::Done(Ok(())),
    }
}

/// Why an export does not reach its callback, if it does not: the exporter is shut down, or it
/// lost the callback, which is reported in the words `lost`.
pub open spec fn export_refusal(
    shut_down: bool,
    callback: Option<usize>,
    lost: Seq<char>,
) -> Option<SdkErrorView> {
    if shut_down {
        Some(SdkErrorView::AlreadyShutdown)
    } else if callback is None {
        Some(SdkErrorView::InternalFailure(lost))
    } else {
        None
    }
}

/// An operation on an exporter that is backed by callbacks.
#[derive(Clone, Copy, Debug, PartialEq, Eq, Structural)]
pub enum ExporterOperation {
    Export,
    Flush,
    Shutdown,
}

/// Whether an exporter that starts live is shut down before operation `n` of a history. Only a
/// shutdown changes that.
pub open spec fn shut_down_before(history: Seq<ExporterOperation>, n: int) -> bool {
    exists|i: int| 0 <= i < n && #[trigger] history[i] == ExporterOperation::Shutdown
}

/// Over a history of operations, the step of each shutdown is the one that the exporter decides
/// on with what happened before.
pub open spec fn shutdown_steps(
    history: Seq<ExporterOperation>,
    steps: Seq<ShutdownStep>,
    callback: Option<usize>,
    user_data: usize,
    timeouts: Seq<Duration>,
) -> bool {
    forall|j: int|
        0 <= j < history.len() && #[trigger] history[j] == ExporterOperation::Shutdown
            ==> shutdown_step(
            steps[j],
            shut_down_before(history, j),
            callback,
            user_data,
            timeouts[j],
        )
}

/// Whether operation `j` of a history invokes the shutdown callback.
pub open spec fn invokes_shutdown(
    history: Seq<ExporterOperation>,
    steps: Seq<ShutdownStep>,
    j: int,
) -> bool {
    history[j] == ExporterOperation::Shutdown && steps[j] is Invoke
}

/// Whatever is done with an exporter, its shutdown callback runs at most once before it is
/// released. With the release it has run exactly once where there is one, and the release hands
/// out the callback that releases the state.
pub proof fn shutdown_callback_runs_once(
    history: Seq<ExporterOperation>,
    steps: Seq<ShutdownStep>,
    callback: Option<usize>,
    state_destroy: Option<usize>,
    user_data: usize,
    timeouts: Seq<Duration>,
    release: ReleasePlan,
)
    requires
        shutdown_steps(history, steps, callback, user_data, timeouts),
        release_plan(
            release,
            shut_down_before(history, history.len() as int),
            callback,
            state_destroy,
            user_data,
        ),
    ensures
        forall|i: int, j: int|
            0 <= i < history.len() && 0 <= j < history.len() && #[trigger] invokes_shutdown(
                history,
                steps,
                i,
            ) && #[trigger] invokes_shutdown(history, steps, j) ==> i == j,
        release.shutdown is Invoke ==> forall|i: int|
            0 <= i < history.len() ==> !#[trigger] invokes_shutdown(history, steps, i),
        callback is Some && !(release.shutdown is Invoke) ==> exists|i: int|
            0 <= i < history.len() && #[trigger] invokes_shutdown(history, steps, i),
        release.destroy == state_destroy,
        release.user_data == user_data,
{
    assert forall|i: int, j: int|
        0 <= i < history.len() && 0 <= j < history.len() && #[trigger] invokes_shutdown(
            history,
            steps,
            i,
        ) && #[trigger] invokes_shutdown(history, steps, j) implies i == j by {
        if i < j {
            assert(history[i] == ExporterOperation::Shutdown);
            assert(shut_down_before(history, j));
        } else if j < i {
            assert(history[j] == ExporterOperation::Shutdown);
            assert(shut_down_before(history, i));
        }
    }
    if release.shutdown is Invoke {
        assert forall|i: int| 0 <= i < history.len() implies !#[trigger] invokes_shutdown(
            history,
            steps,
            i,
        ) by {
            if history[i] == ExporterOperation::Shutdown {
                assert(shut_down_before(history, history.len() as int));
            }
        }
    } else if callback is Some {
        let first = lemma_first_shutdown(history, history.len() as int);
        assert(invokes_shutdown(history, steps, first));
    }
}

proof fn lemma_first_shutdown(history: Seq<ExporterOperation>, n: int) -> (first: int)
    requires
        0 <= n <= history.len(),
        shut_down_before(history, n),
    ensures
        0 <= first < n,
        history[first] == ExporterOperation::Shutdown,
        !shut_down_before(history, first),
    decreases n,
{
    let i = choose|i: int| 0 <= i < n && #[trigger] history[i] == ExporterOperation::Shutdown;
    if shut_down_before(history, i) {
        lemma_first_shutdown(history, i)
    } else {
        i
    }
}

/// Once an exporter is shut down, an export, a flush and another shutdown are refused without
/// reaching a callback.
pub proof fn nothing_runs_after_shutdown(
    history: Seq<ExporterOperation>,
    shutdown: int,
    later: int,
    export_callback: Option<usize>,
    lost: Seq<char>,
    flush: CallbackStep,
    flush_callback: Option<usize>,
    again: ShutdownStep,
    shutdown_callback: Option<usize>,
    user_data: usize,
    timeout: Duration,
)
    requires
        0 <= shutdown < later <= history.len(),
        history[shutdown] == ExporterOperation::Shutdown,
        flush_step(flush, shut_down_before(history, later), flush_callback, user_data),
        shutdown_step(
            again,
            shut_down_before(history, later),
            shutdown_callback,
            user_data,
            timeout,
        ),
    ensures
        export_refusal(shut_down_before(history, later), export_callback, lost) == Some(
            SdkErrorView::AlreadyShutdown,
        ),
        flush matches CallbackStep::Done(r) && result_view(r) == Err::<(), SdkErrorView>(
            SdkErrorView::AlreadyShutdown,
        ),
        again matches ShutdownStep::Done(r) && result_view(r) == Err::<(), SdkErrorView>(
            SdkErrorView::AlreadyShutdown,
        ),
{
    assert(shut_down_before(history, later));
}

} // verus!
