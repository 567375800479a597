//! Running a task and planning the messages of its lifecycle.
use vstd::prelude::*;
use vstd::string::*;

use crate::config::runtime::{ReturnTargets, ReturnTargetsView};
use crate::device::Device;
use crate::func::output::{task_error_text, TaskError, TaskOutput, TaskOutputView, CODE_ERROR};
use crate::func::tarits::FunctionWorker;
use crate::message::{
    finished_msgs, lemma_output_goes_where_returned, message_views, routed_msgs, started_msgs, uart_line_of,
    MessageRouter, SinkMessage, SinkMessageView,
};

verus! {

/// Holds the router that the results of executed tasks go through.
#[derive(Debug)]
pub struct TaskExecutor {
    pub router: MessageRouter,
}

impl TaskExecutor {
    /// An executor that routes through `router`.
    pub fn new(router: MessageRouter) -> (r: TaskExecutor)
        ensures
            r.router == router,
    {
        TaskExecutor { router }
    }

    /// A copy of the router.
    pub fn get_router(&self) -> (r: MessageRouter)
        ensures
            r == self.router,
    {
        self.router
    }
}

/// Runs the worker's function on `device`; on success the output comes with the
/// channels it goes to.
pub fn execute_sync<R: Fn(u8, &Device) -> Result<TaskOutput, TaskError>>(
    device: Device,
    func_worker: FunctionWorker<R>,
    runtime_param: u8,
) -> (r: Result<(TaskOutput, ReturnTargets), TaskError>)
    requires
        call_requires(func_worker.runner, (runtime_param, &device)),
    ensures
        match r {
            Ok((out, targets)) => targets@ == func_worker.returns@
                && call_ensures(func_worker.runner, (runtime_param, &device), Ok::<TaskOutput, TaskError>(out)),
            Err(e) => call_ensures(func_worker.runner, (runtime_param, &device), Err::<TaskOutput, TaskError>(e)),
        },
{
    let targets = func_worker.returns.duplicate();
    let result = func_worker.run(runtime_param, &device)?;
    Ok((result, targets))
}

/// The text of a failed task's output.
pub open spec fn failure_text(func_id: Seq<char>, e: TaskError) -> Seq<char> {
    func_id + " failed: "@ + task_error_text(e)
}

/// All messages of one task, in order: the start signal, the routed output (the
/// function's output, or an error output naming the function), the end signal.
pub open spec fn task_msgs(
    router: MessageRouter,
    targets: ReturnTargetsView,
    func_id: Seq<char>,
    outcome: Result<(TaskOutputView, ReturnTargetsView), TaskError>,
) -> Seq<SinkMessageView> {
    started_msgs(router, targets) + match outcome {
        Ok((o, t)) => routed_msgs(router, t, o),
        Err(e) => routed_msgs(
            router,
            targets,
            TaskOutputView { code: CODE_ERROR, text: failure_text(func_id, e), value: None, image: None },
        ),
    } + finished_msgs(router, targets)
}

pub open spec fn outcome_view(o: Result<(TaskOutput, ReturnTargets), TaskError>) -> Result<
    (TaskOutputView, ReturnTargetsView),
    TaskError,
> {
    match o {
        Ok((out, t)) => Ok((out@, t@)),
        Err(e) => Err(e),
    }
}

/// The messages of a task whose function `func_id`, returning to `targets`,
/// ended with `outcome`.
pub fn task_messages(
    router: &MessageRouter,
    targets: &ReturnTargets,
    func_id: &str,
    outcome: &Result<(TaskOutput, ReturnTargets), TaskError>,
) -> (r: Vec<SinkMessage>)
    ensures
        message_views(r@) == task_msgs(*router, targets@, func_id@, outcome_view(*outcome)),
{
    let mut out = router.task_started(targets);
    let mut routed = match outcome {
        Ok((output, routed_targets)) => router.route(routed_targets, output),
        Err(e) => {
            let mut text = String::from_str(func_id);
            text.append(" failed: ");
            let m = e.message();
            text.append(m.as_str());
            router.route(targets, &TaskOutput::error(text))
        },
    };
    let mut finished = router.task_finished(targets);
    let ghost a = out@;
    let ghost b = routed@;
    let ghost c = finished@;
    out.append(&mut routed);
    out.append(&mut finished);
    assert(out@ == a + b + c);
    assert(message_views(out@) =~= message_views(a) + message_views(b) + message_views(c));
    out
}

/// The messages sent once a task's function has ended: the routed output (the
/// function's output, or an error output naming the function), then the end
/// signal; the start signal was sent before the function ran.
pub fn finish_messages(
    router: &MessageRouter,
    targets: &ReturnTargets,
    func_id: &str,
    outcome: &Result<(TaskOutput, ReturnTargets), TaskError>,
) -> (r: Vec<SinkMessage>)
    ensures
        started_msgs(*router, targets@) + message_views(r@) == task_msgs(*router, targets@, func_id@, outcome_view(*outcome)),
{
    let mut routed = match outcome {
        Ok((output, routed_targets)) => router.route(routed_targets, output),
        Err(e) => {
            let mut text = String::from_str(func_id);
            text.append(" failed: ");
            let m = e.message();
            text.append(m.as_str());
            router.route(targets, &TaskOutput::error(text))
        },
    };
    let mut finished = router.task_finished(targets);
    let ghost b = routed@;
    let ghost c = finished@;
    routed.append(&mut finished);
    assert(routed@ == b + c);
    assert(message_views(routed@) =~= message_views(b) + message_views(c));
    assert(started_msgs(*router, targets@) + (message_views(b) + message_views(c)) =~= started_msgs(*router, targets@)
        + message_views(b) + message_views(c));
    routed
}

/// The GPIO lifecycle is closed whatever the outcome: when the function returns
/// to a GPIO signal and GPIO is connected, a task's messages start with the
/// "started" signal and end with the "finished" signal of that signal.
pub proof fn lemma_gpio_lifecycle_closed(
    router: MessageRouter,
    targets: ReturnTargetsView,
    func_id: Seq<char>,
    outcome: Result<(TaskOutputView, ReturnTargetsView), TaskError>,
)
    requires
        router.gpio,
        targets.gpio is Some,
    ensures
        task_msgs(router, targets, func_id, outcome).len() >= 2,
        task_msgs(router, targets, func_id, outcome)[0] == SinkMessageView::GpioStarted(targets.gpio->0),
        task_msgs(router, targets, func_id, outcome).last() == SinkMessageView::GpioFinished(targets.gpio->0),
{
    let mid = match outcome {
        Ok((o, t)) => routed_msgs(router, t, o),
        Err(e) => routed_msgs(
            router,
            targets,
            TaskOutputView { code: CODE_ERROR, text: failure_text(func_id, e), value: None, image: None },
        ),
    };
    let s = task_msgs(router, targets, func_id, outcome);
    assert(s == started_msgs(router, targets) + mid + finished_msgs(router, targets));
    assert(s[0] == started_msgs(router, targets)[0]);
}

/// A task whose function failed is reported as a failure, on the channels the
/// function returns to: the web gets an error output whose text is
/// `<function> failed: <error>`, the UART line gets that text and a newline,
/// and no other output is sent for it.
pub proof fn lemma_failed_task_reported(
    router: MessageRouter,
    targets: ReturnTargetsView,
    func_id: Seq<char>,
    e: TaskError,
)
    ensures
        (router.web && targets.web) ==> task_msgs(router, targets, func_id, Err(e)).contains(
            SinkMessageView::Web(TaskOutputView {
                code: CODE_ERROR,
                text: func_id + " failed: "@ + task_error_text(e),
                value: None,
                image: None,
            }),
        ),
        (router.uart && targets.uart) ==> task_msgs(router, targets, func_id, Err(e)).contains(
            SinkMessageView::Uart((func_id + " failed: "@ + task_error_text(e)).push('\n')),
        ),
        forall|k: int| 0 <= k < task_msgs(router, targets, func_id, Err(e)).len() ==> match #[trigger] task_msgs(
            router,
            targets,
            func_id,
            Err(e),
        )[k] {
            SinkMessageView::Web(w) => w.code == CODE_ERROR && w.text == func_id + " failed: "@ + task_error_text(e),
            SinkMessageView::Uart(line) => line == (func_id + " failed: "@ + task_error_text(e)).push('\n'),
            _ => true,
        },
{
    let o = TaskOutputView { code: CODE_ERROR, text: failure_text(func_id, e), value: None, image: None };
    let st = started_msgs(router, targets);
    let mid = routed_msgs(router, targets, o);
    let fin = finished_msgs(router, targets);
    let m = task_msgs(router, targets, func_id, Err(e));
    assert(m == st + mid + fin);
    lemma_output_goes_where_returned(router, targets, o);
    assert(uart_line_of(o) =~= (func_id + " failed: "@ + task_error_text(e)).push('\n'));
    if router.web && targets.web {
        assert(mid[0] == SinkMessageView::Web(o));
        assert(m[st.len() as int] == SinkMessageView::Web(o));
    }
    if router.uart && targets.uart {
        let k = if targets.web && router.web { 1int } else { 0 };
        assert(mid[k] == SinkMessageView::Uart(uart_line_of(o)));
        assert(m[st.len() + k] == SinkMessageView::Uart(uart_line_of(o)));
    }
    assert forall|k: int| 0 <= k < m.len() implies match #[trigger] m[k] {
        SinkMessageView::Web(w) => w.code == CODE_ERROR && w.text == func_id + " failed: "@ + task_error_text(e),
        SinkMessageView::Uart(line) => line == (func_id + " failed: "@ + task_error_text(e)).push('\n'),
        _ => true,
    } by {
        if k >= st.len() && k < st.len() + mid.len() {
            assert(m[k] == mid[k - st.len()]);
        } else if k < st.len() {
            assert(m[k] == st[k]);
        } else {
            assert(m[k] == fin[k - st.len() - mid.len()]);
        }
    }
}

} // verus!
