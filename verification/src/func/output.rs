//! What a task produces: its output, or the reason it failed.
use vstd::prelude::*;
use vstd::string::*;

verus! {

/// The code of a successful output.
pub const CODE_OK: u16 = 200;

/// The code of a failed task's output.
pub const CODE_ERROR: u16 = 500;

/// The result of a function: a status code, a human-readable text, the value
/// sent over UART, and an optional image (a data URL).
#[derive(Debug, Clone)]
pub struct TaskOutput {
    pub code: u16,
    pub text: String,
    pub value: Option<String>,
    pub image: Option<String>,
}

/// A task output as text.
pub struct TaskOutputView {
    pub code: u16,
    pub text: Seq<char>,
    pub value: Option<Seq<char>>,
    pub image: Option<Seq<char>>,
}

pub open spec fn opt_text(o: Option<String>) -> Option<Seq<char>> {
    match o {
        Some(s) => Some(s@),
        None => None,
    }
}

impl View for TaskOutput {
    type V = TaskOutputView;

    open spec fn view(&self) -> TaskOutputView {
        TaskOutputView { code: self.code, text: self.text@, value: opt_text(self.value), image: opt_text(self.image) }
    }
}

fn copy_opt(o: &Option<String>) -> (r: Option<String>)
    ensures
        opt_text(r) == opt_text(*o),
{
    match o {
        Some(s) => Some(s.clone()),
        None => None,
    }
}

impl TaskOutput {
    /// A successful output with a text only.
    pub fn ok(text: String) -> (r: Self)
        ensures
            r@ == (TaskOutputView { code: CODE_OK, text: text@, value: None, image: None }),
    {
        TaskOutput { code: CODE_OK, text, value: None, image: None }
    }

    /// A successful output with a text and a value.
    pub fn value(text: String, value: String) -> (r: Self)
        ensures
            r@ == (TaskOutputView { code: CODE_OK, text: text@, value: Some(value@), image: None }),
    {
        TaskOutput { code: CODE_OK, text, value: Some(value), image: None }
    }

    /// A successful output with a text, a value and an image.
    pub fn value_with_image(text: String, value: String, image: String) -> (r: Self)
        ensures
            r@ == (TaskOutputView { code: CODE_OK, text: text@, value: Some(value@), image: Some(image@) }),
    {
        TaskOutput { code: CODE_OK, text, value: Some(value), image: Some(image) }
    }

    /// The output of a failed task.
    pub fn error(text: String) -> (r: Self)
        ensures
            r@ == (TaskOutputView { code: CODE_ERROR, text: text@, value: None, image: None }),
    {
        TaskOutput { code: CODE_ERROR, text, value: None, image: None }
    }

    /// A copy of the output.
    pub fn duplicate(&self) -> (r: Self)
        ensures
            r@ == self@,
    {
        TaskOutput {
            code: self.code,
            text: self.text.clone(),
            value: copy_opt(&self.value),
            image: copy_opt(&self.image),
        }
    }
}

/// What an event was being resolved to when it could not be handled.
#[derive(Debug, Clone, Copy, PartialEq, Eq)]
pub enum Resolving {
    Device,
    Function,
}

/// Why a task could not run, or how it failed.
#[derive(Debug, Clone)]
pub enum TaskError {
    /// No function is registered under this id.
    UnknownFunction { function_id: String },
    /// No device is registered under this id.
    UnknownDevice { device_id: String },
    /// The function needs a camera but the task has no device.
    CameraRequired,
    /// The function takes no device but the task has one.
    DeviceNotAccepted,
    /// The event kind cannot be turned into a task.
    UnsupportedEvent { message: String, resolving: Resolving },
    /// The function itself failed.
    Failed { message: String },
}

/// The text of a task error.
pub open spec fn task_error_text(e: TaskError) -> Seq<char> {
    match e {
        TaskError::UnknownFunction { function_id } => "unknown function_id `"@ + function_id@ + "`"@,
        TaskError::UnknownDevice { device_id } => "unknown device_id `"@ + device_id@ + "`"@,
        TaskError::CameraRequired => "function requires a camera device"@,
        TaskError::DeviceNotAccepted => "function does not accept a device"@,
        TaskError::UnsupportedEvent { message, resolving } => "unsupported event `"@ + message@
            + match resolving {
            Resolving::Device => "` while resolving device"@,
            Resolving::Function => "` while resolving function"@,
        },
        TaskError::Failed { message } => message@,
    }
}

impl TaskError {
    /// The error as text.
    pub fn message(&self) -> (r: String)
        ensures
            r@ == task_error_text(*self),
    {
        match self {
            TaskError::UnknownFunction { function_id } => {
                let mut s = String::from_str("unknown function_id `");
                s.append(function_id.as_str());
                s.append("`");
                s
            },
            TaskError::UnknownDevice { device_id } => {
                let mut s = String::from_str("unknown device_id `");
                s.append(device_id.as_str());
                s.append("`");
                s
            },
            TaskError::CameraRequired => String::from_str("function requires a camera device"),
            TaskError::DeviceNotAccepted => String::from_str("function does not accept a device"),
            TaskError::UnsupportedEvent { message, resolving } => {
                let mut s = String::from_str("unsupported event `");
                s.append(message.as_str());
                match resolving {
                    Resolving::Device => s.append("` while resolving device"),
                    Resolving::Function => s.append("` while resolving function"),
                }
                s
            },
            TaskError::Failed { message } => message.clone(),
        }
    }
}

} // verus!
