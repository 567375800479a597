//! Routing of task results to the output channels (web, UART, GPIO).
use vstd::prelude::*;
use vstd::string::*;

use crate::config::runtime::{ReturnTargets, ReturnTargetsView};
use crate::func::output::{opt_text, TaskOutput, TaskOutputView, CODE_ERROR};
use crate::text::push_char;

verus! {

/// A GPIO lifecycle signal for a named output.
#[derive(Debug, Clone)]
pub enum GpioOutput {
    TaskStarted(String),
    TaskFinished(String),
}

/// A message for one output channel.
#[derive(Debug, Clone)]
pub enum SinkMessage {
    Web(TaskOutput),
    Uart(String),
    Gpio(GpioOutput),
}

/// A channel message as text.
pub enum SinkMessageView {
    Web(TaskOutputView),
    Uart(Seq<char>),
    GpioStarted(Seq<char>),
    GpioFinished(Seq<char>),
}

impl View for SinkMessage {
    type V = SinkMessageView;

    open spec fn view(&self) -> SinkMessageView {
        match self {
            SinkMessage::Web(o) => SinkMessageView::Web(o@),
            SinkMessage::Uart(l) => SinkMessageView::Uart(l@),
            SinkMessage::Gpio(GpioOutput::TaskStarted(s)) => SinkMessageView::GpioStarted(s@),
            SinkMessage::Gpio(GpioOutput::TaskFinished(s)) => SinkMessageView::GpioFinished(s@),
        }
    }
}

pub open spec fn message_views(v: Seq<SinkMessage>) -> Seq<SinkMessageView> {
    v.map_values(|m: SinkMessage| m@)
}

/// Which output channels are connected.
#[derive(Debug, Clone, Copy, PartialEq, Eq)]
pub struct MessageRouter {
    pub web: bool,
    pub uart: bool,
    pub gpio: bool,
}

/// The UART line of an output: its value, or its text when it has no value,
/// followed by a newline.
pub open spec fn uart_line_of(o: TaskOutputView) -> Seq<char> {
    match o.value {
        Some(v) => v,
        None => o.text,
    }.push('\n')
}

/// The messages sent when a task starts.
pub open spec fn started_msgs(router: MessageRouter, t: ReturnTargetsView) -> Seq<SinkMessageView> {
    match t.gpio {
        Some(s) => if router.gpio { seq![SinkMessageView::GpioStarted(s)] } else { seq![] },
        None => seq![],
    }
}

/// The messages sent when a task ends.
pub open spec fn finished_msgs(router: MessageRouter, t: ReturnTargetsView) -> Seq<SinkMessageView> {
    match t.gpio {
        Some(s) => if router.gpio { seq![SinkMessageView::GpioFinished(s)] } else { seq![] },
        None => seq![],
    }
}

/// The messages carrying a task's output: to the web console and the UART line
/// when the function returns there and the channel is connected.
pub open spec fn routed_msgs(router: MessageRouter, t: ReturnTargetsView, o: TaskOutputView) -> Seq<SinkMessageView> {
    (if t.web && router.web { seq![SinkMessageView::Web(o)] } else { seq![] })
        + (if t.uart && router.uart { seq![SinkMessageView::Uart(uart_line_of(o))] } else { seq![] })
}

/// The UART line of an output.
pub fn uart_line(output: &TaskOutput) -> (r: String)
    ensures
        r@ == uart_line_of(output@),
{
    let mut line = match &output.value {
        Some(v) => v.clone(),
        None => output.text.clone(),
    };
    push_char(&mut line, '\n');
    line
}

fn gpio_signal(targets: &ReturnTargets) -> (r: Option<String>)
    ensures
        opt_text(r) == targets@.gpio,
{
    match &targets.gpio {
        Some(s) => Some(s.clone()),
        None => None,
    }
}

impl MessageRouter {
    /// A router over the connected channels.
    pub fn new(web: bool, uart: bool, gpio: bool) -> (r: Self)
        ensures
            r == (MessageRouter { web, uart, gpio }),
    {
        MessageRouter { web, uart, gpio }
    }

    /// The GPIO "task started" signal of a function that returns to GPIO.
    pub fn task_started(&self, targets: &ReturnTargets) -> (r: Vec<SinkMessage>)
        ensures
            message_views(r@) == started_msgs(*self, targets@),
    {
        let mut out: Vec<SinkMessage> = Vec::new();
        if self.gpio {
            match gpio_signal(targets) {
                Some(s) => out.push(SinkMessage::Gpio(GpioOutput::TaskStarted(s))),
                None => {},
            }
        }
        assert(message_views(out@) =~= started_msgs(*self, targets@));
        out
    }

    /// The GPIO "task finished" signal of a function that returns to GPIO.
    pub fn task_finished(&self, targets: &ReturnTargets) -> (r: Vec<SinkMessage>)
        ensures
            message_views(r@) == finished_msgs(*self, targets@),
    {
        let mut out: Vec<SinkMessage> = Vec::new();
        if self.gpio {
            match gpio_signal(targets) {
                Some(s) => out.push(SinkMessage::Gpio(GpioOutput::TaskFinished(s))),
                None => {},
            }
        }
        assert(message_views(out@) =~= finished_msgs(*self, targets@));
        out
    }

    /// The messages that carry `output` to the function's channels.
    pub fn route(&self, targets: &ReturnTargets, output: &TaskOutput) -> (r: Vec<SinkMessage>)
        ensures
            message_views(r@) == routed_msgs(*self, targets@, output@),
    {
        let mut out: Vec<SinkMessage> = Vec::new();
        if targets.web && self.web {
            out.push(SinkMessage::Web(output.duplicate()));
        }
        if targets.uart && self.uart {
            out.push(SinkMessage::Uart(uart_line(output)));
        }
        assert(message_views(out@) =~= routed_msgs(*self, targets@, output@));
        out
    }

    /// The message that reports a failure that happened before any function ran:
    /// an error output on the web console, when it is connected.
    pub fn report_error(&self, message: String) -> (r: Vec<SinkMessage>)
        ensures
            message_views(r@) == (if self.web {
                seq![SinkMessageView::Web(TaskOutputView { code: CODE_ERROR, text: message@, value: None, image: None })]
            } else {
                seq![]
            }),
    {
        let mut out: Vec<SinkMessage> = Vec::new();
        let ghost m = message@;
        if self.web {
            out.push(SinkMessage::Web(TaskOutput::error(message)));
        }
        assert(message_views(out@) =~= (if self.web {
            seq![SinkMessageView::Web(TaskOutputView { code: CODE_ERROR, text: m, value: None, image: None })]
        } else {
            seq![]
        }));
        out
    }
}

/// A task's output goes exactly where the function returns and a channel is
/// connected: a web message (the output itself) only when the function
/// returns to the web and the web channel is connected, and then always; a
/// UART message (the output's value, or its text without a value, ended by a
/// newline) only when the function returns to UART and the UART channel is
/// connected, and then always; the web message first; no GPIO message.
pub proof fn lemma_output_goes_where_returned(router: MessageRouter, t: ReturnTargetsView, o: TaskOutputView)
    ensures
        forall|k: int| 0 <= k < routed_msgs(router, t, o).len() ==> match #[trigger] routed_msgs(router, t, o)[k] {
            SinkMessageView::Web(w) => t.web && router.web && w == o && k == 0,
            SinkMessageView::Uart(line) => t.uart && router.uart && line == (if o.value is Some {
                o.value->0
            } else {
                o.text
            }) + seq!['\n'],
            _ => false,
        },
        (t.web && router.web) <==> routed_msgs(router, t, o).contains(SinkMessageView::Web(o)),
        (t.uart && router.uart) ==> exists|k: int| 0 <= k < routed_msgs(router, t, o).len()
            && #[trigger] routed_msgs(router, t, o)[k] is Uart,
        routed_msgs(router, t, o).len() == (if t.web && router.web { 1int } else { 0 }) + (if t.uart && router.uart {
            1int
        } else {
            0
        }),
{
    let m = routed_msgs(router, t, o);
    let line = (if o.value is Some { o.value->0 } else { o.text }) + seq!['\n'];
    assert(uart_line_of(o) =~= line);
    if t.web && router.web {
        assert(m[0] == SinkMessageView::Web(o));
    }
    if t.uart && router.uart {
        let k = if t.web && router.web { 1int } else { 0 };
        assert(m[k] is Uart);
    }
    if m.contains(SinkMessageView::Web(o)) {
        let k = choose|k: int| 0 <= k < m.len() && m[k] == SinkMessageView::Web(o);
        assert(t.web && router.web);
    }
}

/// The GPIO lifecycle signals: a task's start and end each send the signal of
/// the function's GPIO output exactly when it has one and the GPIO channel is
/// connected, and nothing else; the start and end name the same output.
pub proof fn lemma_gpio_signals_frame_the_task(router: MessageRouter, t: ReturnTargetsView)
    ensures
        started_msgs(router, t).len() <= 1,
        finished_msgs(router, t).len() <= 1,
        started_msgs(router, t).len() == 1 <==> (router.gpio && t.gpio is Some),
        finished_msgs(router, t).len() == 1 <==> (router.gpio && t.gpio is Some),
        started_msgs(router, t).len() == 1 ==> started_msgs(router, t)[0] == SinkMessageView::GpioStarted(t.gpio->0)
            && finished_msgs(router, t)[0] == SinkMessageView::GpioFinished(t.gpio->0),
{
}

} // verus!
