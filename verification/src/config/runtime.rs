//! The runtime configuration and the checks made on it when it is loaded.
use vstd::prelude::*;
use vstd::string::*;

use crate::config::binding::{
    debug_task, loop_task, task_views, timer_task, uart_task, BindingsConfig, TaskBindingRef, TaskBindingView,
};
use crate::config::unique::{
    distinct, first_duplicate_key, first_duplicate_text, first_repeat, first_repeat_index,
    lemma_first_repeat_index, lemma_no_repeat_iff_distinct, lemma_repeat_found,
};
use crate::config::legacy::ParamValue;
use crate::text::{decimal_string, int_decimal};

verus! {

/// Application identity.
#[derive(Debug, Clone)]
pub struct AppConfig {
    pub name: String,
    pub profile: String,
    pub log_level: String,
}

impl Default for AppConfig {
    /// The defaults used for missing `app` entries.
    fn default() -> (r: Self)
        ensures
            r.name@ == "rubovision"@,
            r.profile@ == "dev"@,
            r.log_level@ == "info"@,
    {
        AppConfig {
            name: String::from_str("rubovision"),
            profile: String::from_str("dev"),
            log_level: String::from_str("info"),
        }
    }
}

/// The web console.
#[derive(Debug, Clone)]
pub struct WebConfig {
    pub on: bool,
    pub host: String,
    pub port: u16,
}

impl Default for WebConfig {
    /// The defaults used for missing `web` entries.
    fn default() -> (r: Self)
        ensures
            r.on,
            r.host@ == "127.0.0.1"@,
            r.port == 3000,
    {
        WebConfig { on: true, host: String::from_str("127.0.0.1"), port: 3000 }
    }
}

/// The serial line used for UART input and output.
#[derive(Debug, Clone)]
pub struct UartConfig {
    pub on: bool,
    pub serial: String,
    pub baud: u32,
    pub data_bit: u8,
    pub stop_bit: u8,
    pub parity_bit: bool,
}

/// A named GPIO output signal and its pin.
#[derive(Debug, Clone)]
pub struct GpioSignal {
    pub name: String,
    pub pin: u8,
}

/// GPIO outputs: the run pin and the named signal pins. Signal names are
/// keys: `RuntimeConfig::validate` refuses a name given twice.
#[derive(Debug, Clone)]
pub struct GpioConfig {
    pub on: bool,
    pub active_low: bool,
    pub run_pin: u8,
    pub signals: Vec<GpioSignal>,
}

/// The three output channels.
#[derive(Debug, Clone)]
pub struct MessageConfig {
    pub web: WebConfig,
    pub uart: UartConfig,
    pub gpio: GpioConfig,
}

/// The kinds of device that can be configured.
#[derive(Debug, Clone, Copy, PartialEq, Eq)]
pub enum DeviceKind {
    Camera,
}

/// One configured device.
#[derive(Debug, Clone)]
pub struct DeviceParam {
    pub device_id: String,
    pub kind: DeviceKind,
    pub path: String,
}

/// All configured devices.
#[derive(Debug, Clone)]
pub struct DevicesConfig {
    pub list: Vec<DeviceParam>,
}

/// The channels a function's result is sent to.
#[derive(Debug, Clone)]
pub struct ReturnTargets {
    pub web: bool,
    pub uart: bool,
    pub gpio: Option<String>,
}

/// Return channels as text.
pub struct ReturnTargetsView {
    pub web: bool,
    pub uart: bool,
    pub gpio: Option<Seq<char>>,
}

impl View for ReturnTargets {
    type V = ReturnTargetsView;

    open spec fn view(&self) -> ReturnTargetsView {
        ReturnTargetsView {
            web: self.web,
            uart: self.uart,
            gpio: match self.gpio {
                Some(g) => Some(g@),
                None => None,
            },
        }
    }
}

impl Default for ReturnTargets {
    /// No channel.
    fn default() -> (r: Self)
        ensures
            !r.web,
            !r.uart,
            r.gpio is None,
    {
        ReturnTargets { web: false, uart: false, gpio: None }
    }
}

impl ReturnTargets {
    /// A copy of the targets.
    pub fn duplicate(&self) -> (r: Self)
        ensures
            r@ == self@,
    {
        ReturnTargets {
            web: self.web,
            uart: self.uart,
            gpio: match &self.gpio {
                Some(g) => Some(g.clone()),
                None => None,
            },
        }
    }
}

/// One configured function: its id, where its result goes, and its parameters
/// (a table).
#[derive(Debug)]
pub struct FunctionEntryConfig {
    pub function_id: String,
    pub returns: ReturnTargets,
    pub params: ParamValue,
}

/// All configured functions.
#[derive(Debug)]
pub struct FunctionsConfig {
    pub entries: Vec<FunctionEntryConfig>,
}

/// The whole runtime configuration.
#[derive(Debug)]
pub struct RuntimeConfig {
    pub app: AppConfig,
    pub message: MessageConfig,
    pub bindings: BindingsConfig,
    pub devices: DevicesConfig,
    pub functions: FunctionsConfig,
}

/// Which kind of key was repeated.
#[derive(Debug, Clone, Copy, PartialEq, Eq)]
pub enum KeyKind {
    DeviceId,
    FunctionId,
    UartSourceKey,
    DebugSourceKey,
    GpioSignal,
}

/// Why a configuration was refused.
#[derive(Debug, Clone)]
pub enum ConfigError {
    /// A key occurs twice (`key` is the repeated key as text).
    Duplicate { kind: KeyKind, key: String },
    /// A binding names a device that is not configured.
    UnknownDevice { binding: String, device: String },
    /// A binding names a function that is not configured.
    UnknownFunction { binding: String, function: String },
    /// A function returns to a GPIO signal that is not configured.
    UnknownGpioSignal { function: String, signal: String },
}

/// A refusal, as text.
pub enum ConfigErrorView {
    Duplicate { kind: KeyKind, key: Seq<char> },
    UnknownDevice { binding: Seq<char>, device: Seq<char> },
    UnknownFunction { binding: Seq<char>, function: Seq<char> },
    UnknownGpioSignal { function: Seq<char>, signal: Seq<char> },
}

impl View for ConfigError {
    type V = ConfigErrorView;

    open spec fn view(&self) -> ConfigErrorView {
        match self {
            ConfigError::Duplicate { kind, key } => ConfigErrorView::Duplicate { kind: *kind, key: key@ },
            ConfigError::UnknownDevice { binding, device } => ConfigErrorView::UnknownDevice {
                binding: binding@,
                device: device@,
            },
            ConfigError::UnknownFunction { binding, function } => ConfigErrorView::UnknownFunction {
                binding: binding@,
                function: function@,
            },
            ConfigError::UnknownGpioSignal { function, signal } => ConfigErrorView::UnknownGpioSignal {
                function: function@,
                signal: signal@,
            },
        }
    }
}

/// The label of a kind of key, as the refusal names it.
pub open spec fn key_label(k: KeyKind) -> Seq<char> {
    match k {
        KeyKind::DeviceId => "device id"@,
        KeyKind::FunctionId => "function id"@,
        KeyKind::UartSourceKey => "UART source key"@,
        KeyKind::DebugSourceKey => "debug source key"@,
        KeyKind::GpioSignal => "GPIO signal"@,
    }
}

/// A refusal as the message shown to the user.
pub open spec fn config_error_text(e: ConfigErrorView) -> Seq<char> {
    match e {
        ConfigErrorView::Duplicate { kind, key } => "duplicate "@ + key_label(kind) + " `"@ + key + "`"@,
        ConfigErrorView::UnknownDevice { binding, device } => "binding `"@ + binding + "` references unknown device `"@
            + device + "`"@,
        ConfigErrorView::UnknownFunction { binding, function } => "binding `"@ + binding
            + "` references unknown function `"@ + function + "`"@,
        ConfigErrorView::UnknownGpioSignal { function, signal } => "function `"@ + function
            + "` references unknown GPIO signal `"@ + signal + "`"@,
    }
}

impl ConfigError {
    /// The refusal as text.
    pub fn message(&self) -> (r: String)
        ensures
            r@ == config_error_text(self@),
    {
        match self {
            ConfigError::Duplicate { kind, key } => {
                let mut s = String::from_str("duplicate ");
                match kind {
                    KeyKind::DeviceId => s.append("device id"),
                    KeyKind::FunctionId => s.append("function id"),
                    KeyKind::UartSourceKey => s.append("UART source key"),
                    KeyKind::DebugSourceKey => s.append("debug source key"),
                    KeyKind::GpioSignal => s.append("GPIO signal"),
                }
                s.append(" `");
                s.append(key.as_str());
                s.append("`");
                s
            },
            ConfigError::UnknownDevice { binding, device } => {
                let mut s = String::from_str("binding `");
                s.append(binding.as_str());
                s.append("` references unknown device `");
                s.append(device.as_str());
                s.append("`");
                s
            },
            ConfigError::UnknownFunction { binding, function } => {
                let mut s = String::from_str("binding `");
                s.append(binding.as_str());
                s.append("` references unknown function `");
                s.append(function.as_str());
                s.append("`");
                s
            },
            ConfigError::UnknownGpioSignal { function, signal } => {
                let mut s = String::from_str("function `");
                s.append(function.as_str());
                s.append("` references unknown GPIO signal `");
                s.append(signal.as_str());
                s.append("`");
                s
            },
        }
    }
}

/// The device id that stands for "no device".
pub open spec fn no_device_id() -> Seq<char> {
    "none"@
}

pub open spec fn device_ids(c: RuntimeConfig) -> Seq<Seq<char>> {
    c.devices.list@.map_values(|d: DeviceParam| d.device_id@)
}

pub open spec fn function_ids(c: RuntimeConfig) -> Seq<Seq<char>> {
    c.functions.entries@.map_values(|f: FunctionEntryConfig| f.function_id@)
}

pub open spec fn uart_keys(c: RuntimeConfig) -> Seq<u8> {
    c.bindings.uart_source@.map_values(|b: crate::config::binding::UartBinding| b.source_key)
}

pub open spec fn debug_keys(c: RuntimeConfig) -> Seq<Seq<char>> {
    c.bindings.debug_source@.map_values(|b: crate::config::binding::DebugBinding| b.source_key@)
}

pub open spec fn signal_names(c: RuntimeConfig) -> Seq<Seq<char>> {
    c.message.gpio.signals@.map_values(|s: GpioSignal| s.name@)
}

/// The refusal a binding causes, if any: an unknown device (other than "none")
/// is reported before an unknown function.
pub open spec fn binding_error(
    b: TaskBindingView,
    devices: Seq<Seq<char>>,
    functions: Seq<Seq<char>>,
) -> Option<ConfigErrorView> {
    if b.device_id != no_device_id() && !devices.contains(b.device_id) {
        Some(ConfigErrorView::UnknownDevice { binding: b.task_id, device: b.device_id })
    } else if !functions.contains(b.function_id) {
        Some(ConfigErrorView::UnknownFunction { binding: b.task_id, function: b.function_id })
    } else {
        None
    }
}

/// The refusal a function entry causes, if any.
pub open spec fn signal_error(f: FunctionEntryConfig, signals: Seq<Seq<char>>) -> Option<ConfigErrorView> {
    match f.returns.gpio {
        Some(s) => if signals.contains(s@) {
            None
        } else {
            Some(ConfigErrorView::UnknownGpioSignal { function: f.function_id@, signal: s@ })
        },
        None => None,
    }
}

/// The first refusal of a list, scanning from position `i`.
pub open spec fn first_error_from(errs: Seq<Option<ConfigErrorView>>, i: int) -> Option<ConfigErrorView>
    decreases errs.len() - i,
{
    if i < 0 || i >= errs.len() {
        None
    } else if errs[i] is Some {
        errs[i]
    } else {
        first_error_from(errs, i + 1)
    }
}

pub open spec fn binding_errors(c: RuntimeConfig) -> Seq<Option<ConfigErrorView>> {
    c.bindings.task_bindings().map_values(
        |b: TaskBindingView| binding_error(b, device_ids(c), function_ids(c)),
    )
}

pub open spec fn signal_errors(c: RuntimeConfig) -> Seq<Option<ConfigErrorView>> {
    c.functions.entries@.map_values(|f: FunctionEntryConfig| signal_error(f, signal_names(c)))
}

/// The refusal of a configuration, checked in this order: repeated device ids,
/// repeated function ids, repeated UART keys, repeated debug keys, repeated GPIO
/// signal names (each time the first repeated one), then the bindings in order, then the functions' GPIO signals.
pub open spec fn validation_error(c: RuntimeConfig) -> Option<ConfigErrorView> {
    if let Some(j) = first_repeat_index(device_ids(c)) {
        Some(ConfigErrorView::Duplicate { kind: KeyKind::DeviceId, key: device_ids(c)[j] })
    } else if let Some(j) = first_repeat_index(function_ids(c)) {
        Some(ConfigErrorView::Duplicate { kind: KeyKind::FunctionId, key: function_ids(c)[j] })
    } else if let Some(j) = first_repeat_index(uart_keys(c)) {
        Some(ConfigErrorView::Duplicate { kind: KeyKind::UartSourceKey, key: int_decimal(uart_keys(c)[j] as int) })
    } else if let Some(j) = first_repeat_index(debug_keys(c)) {
        Some(ConfigErrorView::Duplicate { kind: KeyKind::DebugSourceKey, key: debug_keys(c)[j] })
    } else if let Some(j) = first_repeat_index(signal_names(c)) {
        Some(ConfigErrorView::Duplicate { kind: KeyKind::GpioSignal, key: signal_names(c)[j] })
    } else if first_error_from(binding_errors(c), 0) is Some {
        first_error_from(binding_errors(c), 0)
    } else {
        first_error_from(signal_errors(c), 0)
    }
}

proof fn lemma_first_error_skip(errs: Seq<Option<ConfigErrorView>>, i: int)
    requires
        0 <= i < errs.len(),
        errs[i] is None,
    ensures
        first_error_from(errs, i) == first_error_from(errs, i + 1),
{
}

/// Whether `t` is one of the texts of `v`.
pub fn contains_text(v: &Vec<String>, t: &String) -> (r: bool)
    ensures
        r == v@.map_values(|x: String| x@).contains(t@),
{
    let ghost w = v@.map_values(|x: String| x@);
    let mut i: usize = 0;
    while i < v.len()
        invariant
            i <= v.len(),
            w == v@.map_values(|x: String| x@),
            forall|k: int| 0 <= k < i ==> w[k] != t@,
        decreases v.len() - i,
    {
        if v[i] == *t {
            assert(w[i as int] == t@);
            return true;
        }
        i += 1;
    }
    false
}

fn collect_device_ids(list: &Vec<DeviceParam>) -> (r: Vec<String>)
    ensures
        r@.map_values(|x: String| x@) == list@.map_values(|d: DeviceParam| d.device_id@),
{
    let ghost w = list@.map_values(|d: DeviceParam| d.device_id@);
    let mut out: Vec<String> = Vec::new();
    let mut i: usize = 0;
    while i < list.len()
        invariant
            i <= list.len(),
            w == list@.map_values(|d: DeviceParam| d.device_id@),
            out@.len() == i,
            out@.map_values(|x: String| x@) =~= w.take(i as int),
        decreases list.len() - i,
    {
        out.push(list[i].device_id.clone());
        assert(out@.map_values(|x: String| x@) =~= w.take(i as int + 1));
        i += 1;
    }
    assert(w.take(i as int) =~= w);
    out
}

fn collect_function_ids(list: &Vec<FunctionEntryConfig>) -> (r: Vec<String>)
    ensures
        r@.map_values(|x: String| x@) == list@.map_values(|f: FunctionEntryConfig| f.function_id@),
{
    let ghost w = list@.map_values(|f: FunctionEntryConfig| f.function_id@);
    let mut out: Vec<String> = Vec::new();
    let mut i: usize = 0;
    while i < list.len()
        invariant
            i <= list.len(),
            w == list@.map_values(|f: FunctionEntryConfig| f.function_id@),
            out@.len() == i,
            out@.map_values(|x: String| x@) =~= w.take(i as int),
        decreases list.len() - i,
    {
        out.push(list[i].function_id.clone());
        assert(out@.map_values(|x: String| x@) =~= w.take(i as int + 1));
        i += 1;
    }
    assert(w.take(i as int) =~= w);
    out
}

fn collect_debug_keys(list: &Vec<crate::config::binding::DebugBinding>) -> (r: Vec<String>)
    ensures
        r@.map_values(|x: String| x@) == list@.map_values(
            |b: crate::config::binding::DebugBinding| b.source_key@,
        ),
{
    let ghost w = list@.map_values(|b: crate::config::binding::DebugBinding| b.source_key@);
    let mut out: Vec<String> = Vec::new();
    let mut i: usize = 0;
    while i < list.len()
        invariant
            i <= list.len(),
            w == list@.map_values(|b: crate::config::binding::DebugBinding| b.source_key@),
            out@.len() == i,
            out@.map_values(|x: String| x@) =~= w.take(i as int),
        decreases list.len() - i,
    {
        out.push(list[i].source_key.clone());
        assert(out@.map_values(|x: String| x@) =~= w.take(i as int + 1));
        i += 1;
    }
    assert(w.take(i as int) =~= w);
    out
}

fn collect_uart_keys(list: &Vec<crate::config::binding::UartBinding>) -> (r: Vec<u8>)
    ensures
        r@ == list@.map_values(|b: crate::config::binding::UartBinding| b.source_key),
{
    let ghost w = list@.map_values(|b: crate::config::binding::UartBinding| b.source_key);
    let mut out: Vec<u8> = Vec::new();
    let mut i: usize = 0;
    while i < list.len()
        invariant
            i <= list.len(),
            w == list@.map_values(|b: crate::config::binding::UartBinding| b.source_key),
            out@ =~= w.take(i as int),
        decreases list.len() - i,
    {
        out.push(list[i].source_key);
        assert(out@ =~= w.take(i as int + 1));
        i += 1;
    }
    assert(w.take(i as int) =~= w);
    out
}

fn collect_signal_names(list: &Vec<GpioSignal>) -> (r: Vec<String>)
    ensures
        r@.map_values(|x: String| x@) == list@.map_values(|s: GpioSignal| s.name@),
{
    let ghost w = list@.map_values(|s: GpioSignal| s.name@);
    let mut out: Vec<String> = Vec::new();
    let mut i: usize = 0;
    while i < list.len()
        invariant
            i <= list.len(),
            w == list@.map_values(|s: GpioSignal| s.name@),
            out@.len() == i,
            out@.map_values(|x: String| x@) =~= w.take(i as int),
        decreases list.len() - i,
    {
        out.push(list[i].name.clone());
        assert(out@.map_values(|x: String| x@) =~= w.take(i as int + 1));
        i += 1;
    }
    assert(w.take(i as int) =~= w);
    out
}

/// Checks that every text of `items` is distinct; the error names the first
/// repeated one.
pub fn validate_unique(items: &Vec<String>, kind: KeyKind) -> (r: Result<(), ConfigError>)
    ensures
        match first_repeat_index(items@.map_values(|x: String| x@)) {
            None => r is Ok,
            Some(j) => r matches Err(e) && e@ == (ConfigErrorView::Duplicate {
                kind,
                key: items@.map_values(|x: String| x@)[j],
            }),
        },
{
    match first_duplicate_text(items) {
        None => Ok(()),
        Some(j) => {
            proof {
                lemma_first_repeat_index(items@.map_values(|x: String| x@), j as int);
            }
            Err(ConfigError::Duplicate { kind, key: items[j].clone() })
        },
    }
}

impl RuntimeConfig {
    /// Checks a loaded configuration: ids and keys are unique, every binding
    /// names a configured device (or "none") and function, and every GPIO
    /// return names a configured signal. The error is the first failed check.
    pub fn validate(&self) -> (r: Result<(), ConfigError>)
        ensures
            match validation_error(*self) {
                None => r is Ok,
                Some(e) => r matches Err(x) && x@ == e,
            },
    {
        let devices = collect_device_ids(&self.devices.list);
        validate_unique(&devices, KeyKind::DeviceId)?;
        let functions = collect_function_ids(&self.functions.entries);
        validate_unique(&functions, KeyKind::FunctionId)?;
        let keys = collect_uart_keys(&self.bindings.uart_source);
        match first_duplicate_key(&keys) {
            Some(j) => {
                proof {
                    lemma_first_repeat_index(keys@, j as int);
                }
                return Err(ConfigError::Duplicate { kind: KeyKind::UartSourceKey, key: decimal_string(keys[j] as i64) });
            },
            None => {},
        }
        let debug = collect_debug_keys(&self.bindings.debug_source);
        validate_unique(&debug, KeyKind::DebugSourceKey)?;
        let signals = collect_signal_names(&self.message.gpio.signals);
        validate_unique(&signals, KeyKind::GpioSignal)?;

        let ghost c = *self;
        let bindings = self.bindings.iter_task_bindings();
        let ghost errs = binding_errors(c);
        let none = String::from_str("none");
        let mut i: usize = 0;
        while i < bindings.len()
            invariant
                i <= bindings.len(),
                c == *self,
                task_views(bindings@) == c.bindings.task_bindings(),
                errs == binding_errors(c),
                devices@.map_values(|x: String| x@) == device_ids(c),
                functions@.map_values(|x: String| x@) == function_ids(c),
                none@ == no_device_id(),
                first_error_from(errs, 0) == first_error_from(errs, i as int),
                validation_error(c) == (if first_error_from(errs, 0) is Some {
                    first_error_from(errs, 0)
                } else {
                    first_error_from(signal_errors(c), 0)
                }),
            decreases bindings.len() - i,
        {
            let b = &bindings[i];
            assert(task_views(bindings@)[i as int] == b@);
            assert(errs[i as int] == binding_error(b@, device_ids(c), function_ids(c)));
            if b.device_id != none && !contains_text(&devices, &b.device_id) {
                return Err(ConfigError::UnknownDevice { binding: b.task_id.clone(), device: b.device_id.clone() });
            }
            if !contains_text(&functions, &b.function_id) {
                return Err(ConfigError::UnknownFunction { binding: b.task_id.clone(), function: b.function_id.clone() });
            }
            proof {
                lemma_first_error_skip(errs, i as int);
            }
            i += 1;
        }

        let ghost serrs = signal_errors(c);
        let mut k: usize = 0;
        while k < self.functions.entries.len()
            invariant
                k <= self.functions.entries.len(),
                c == *self,
                serrs == signal_errors(c),
                signals@.map_values(|x: String| x@) == signal_names(c),
                first_error_from(serrs, 0) == first_error_from(serrs, k as int),
                validation_error(c) == first_error_from(serrs, 0),
            decreases self.functions.entries.len() - k,
        {
            let f = &self.functions.entries[k];
            assert(serrs[k as int] == signal_error(*f, signal_names(c)));
            match &f.returns.gpio {
                Some(signal) => {
                    if !contains_text(&signals, signal) {
                        return Err(ConfigError::UnknownGpioSignal { function: f.function_id.clone(), signal: signal.clone() });
                    }
                },
                None => {},
            }
            proof {
                lemma_first_error_skip(serrs, k as int);
            }
            k += 1;
        }
        Ok(())
    }
}

/// A task of a binding refers to what the configuration holds: a configured
/// function, and a configured device or the "none" device.
pub open spec fn task_resolves(c: RuntimeConfig, device_id: Seq<char>, function_id: Seq<char>) -> bool {
    &&& exists|k: int| 0 <= k < c.functions.entries@.len() && c.functions.entries@[k].function_id@ == function_id
    &&& (device_id == "none"@ || exists|k: int|
        0 <= k < c.devices.list@.len() && c.devices.list@[k].device_id@ == device_id)
}

proof fn lemma_no_first_error(errs: Seq<Option<ConfigErrorView>>, i: int)
    requires
        0 <= i,
        first_error_from(errs, i) is None,
    ensures
        forall|k: int| i <= k < errs.len() ==> errs[k] is None,
    decreases errs.len() - i,
{
    if i < errs.len() {
        lemma_no_first_error(errs, i + 1);
    }
}

proof fn lemma_binding_resolves(c: RuntimeConfig, b: TaskBindingView)
    requires
        binding_error(b, device_ids(c), function_ids(c)) is None,
    ensures
        task_resolves(c, b.device_id, b.function_id),
{
    let f = choose|k: int| 0 <= k < function_ids(c).len() && function_ids(c)[k] == b.function_id;
    assert(c.functions.entries@[f].function_id@ == b.function_id);
    if b.device_id != no_device_id() {
        let d = choose|k: int| 0 <= k < device_ids(c).len() && device_ids(c)[k] == b.device_id;
        assert(c.devices.list@[d].device_id@ == b.device_id);
    }
}

/// A configuration that validation accepts repeats no key and refers to
/// nothing it lacks: device ids, function ids, UART keys, debug keys and GPIO
/// signal names are each pairwise distinct; every binding's task names a
/// configured function and a configured device (or "none"); every GPIO signal
/// a function reports on is configured.
pub proof fn lemma_accepted_configuration(c: RuntimeConfig)
    requires
        validation_error(c) is None,
    ensures
        forall|i: int, j: int| 0 <= i < j < c.devices.list@.len()
            ==> c.devices.list@[i].device_id@ != c.devices.list@[j].device_id@,
        forall|i: int, j: int| 0 <= i < j < c.functions.entries@.len()
            ==> c.functions.entries@[i].function_id@ != c.functions.entries@[j].function_id@,
        forall|i: int, j: int| 0 <= i < j < c.bindings.uart_source@.len()
            ==> c.bindings.uart_source@[i].source_key != c.bindings.uart_source@[j].source_key,
        forall|i: int, j: int| 0 <= i < j < c.bindings.debug_source@.len()
            ==> c.bindings.debug_source@[i].source_key@ != c.bindings.debug_source@[j].source_key@,
        forall|i: int, j: int| 0 <= i < j < c.message.gpio.signals@.len()
            ==> c.message.gpio.signals@[i].name@ != c.message.gpio.signals@[j].name@,
        forall|i: int| 0 <= i < c.bindings.uart_source@.len() ==> task_resolves(
            c,
            c.bindings.uart_source@[i].device_id@,
            c.bindings.uart_source@[i].function_id@,
        ),
        forall|i: int| 0 <= i < c.bindings.timer_source@.len() ==> task_resolves(
            c,
            c.bindings.timer_source@[i].device_id@,
            c.bindings.timer_source@[i].function_id@,
        ),
        forall|i: int| 0 <= i < c.bindings.loop_source@.len() ==> task_resolves(
            c,
            c.bindings.loop_source@[i].device_id@,
            c.bindings.loop_source@[i].function_id@,
        ),
        forall|i: int| 0 <= i < c.bindings.debug_source@.len() ==> task_resolves(
            c,
            c.bindings.debug_source@[i].device_id@,
            c.bindings.debug_source@[i].function_id@,
        ),
        forall|i: int| 0 <= i < c.functions.entries@.len() ==> (#[trigger] c.functions.entries@[i].returns.gpio matches Some(s)
            ==> exists|k: int| 0 <= k < c.message.gpio.signals@.len() && c.message.gpio.signals@[k].name@ == s@),
{
    lemma_no_repeat_iff_distinct(device_ids(c));
    lemma_no_repeat_iff_distinct(function_ids(c));
    lemma_no_repeat_iff_distinct(uart_keys(c));
    lemma_no_repeat_iff_distinct(debug_keys(c));
    lemma_no_repeat_iff_distinct(signal_names(c));
    assert forall|i: int, j: int| 0 <= i < j < c.devices.list@.len()
        implies c.devices.list@[i].device_id@ != c.devices.list@[j].device_id@ by {
        assert(device_ids(c)[i] != device_ids(c)[j]);
    }
    assert forall|i: int, j: int| 0 <= i < j < c.functions.entries@.len()
        implies c.functions.entries@[i].function_id@ != c.functions.entries@[j].function_id@ by {
        assert(function_ids(c)[i] != function_ids(c)[j]);
    }
    assert forall|i: int, j: int| 0 <= i < j < c.bindings.uart_source@.len()
        implies c.bindings.uart_source@[i].source_key != c.bindings.uart_source@[j].source_key by {
        assert(uart_keys(c)[i] != uart_keys(c)[j]);
    }
    assert forall|i: int, j: int| 0 <= i < j < c.bindings.debug_source@.len()
        implies c.bindings.debug_source@[i].source_key@ != c.bindings.debug_source@[j].source_key@ by {
        assert(debug_keys(c)[i] != debug_keys(c)[j]);
    }
    assert forall|i: int, j: int| 0 <= i < j < c.message.gpio.signals@.len()
        implies c.message.gpio.signals@[i].name@ != c.message.gpio.signals@[j].name@ by {
        assert(signal_names(c)[i] != signal_names(c)[j]);
    }
    let errs = binding_errors(c);
    lemma_no_first_error(errs, 0);
    lemma_no_first_error(signal_errors(c), 0);
    let b = c.bindings;
    let nu = b.uart_source@.len() as int;
    let nt = b.timer_source@.len() as int;
    let nl = b.loop_source@.len() as int;
    assert forall|i: int| 0 <= i < nu implies task_resolves(c, b.uart_source@[i].device_id@, b.uart_source@[i].function_id@) by {
        assert(b.task_bindings()[i] == uart_task(b.uart_source@[i]));
        assert(errs[i] is None);
        lemma_binding_resolves(c, b.task_bindings()[i]);
    }
    assert forall|i: int| 0 <= i < nt implies task_resolves(c, b.timer_source@[i].device_id@, b.timer_source@[i].function_id@) by {
        assert(b.task_bindings()[nu + i] == timer_task(b.timer_source@[i]));
        assert(errs[nu + i] is None);
        lemma_binding_resolves(c, b.task_bindings()[nu + i]);
    }
    assert forall|i: int| 0 <= i < nl implies task_resolves(c, b.loop_source@[i].device_id@, b.loop_source@[i].function_id@) by {
        assert(b.task_bindings()[nu + nt + i] == loop_task(b.loop_source@[i]));
        assert(errs[nu + nt + i] is None);
        lemma_binding_resolves(c, b.task_bindings()[nu + nt + i]);
    }
    assert forall|i: int| 0 <= i < b.debug_source@.len() implies task_resolves(c, b.debug_source@[i].device_id@, b.debug_source@[i].function_id@) by {
        assert(b.task_bindings()[nu + nt + nl + i] == debug_task(b.debug_source@[i]));
        assert(errs[nu + nt + nl + i] is None);
        lemma_binding_resolves(c, b.task_bindings()[nu + nt + nl + i]);
    }
    assert forall|i: int| 0 <= i < c.functions.entries@.len() implies (#[trigger] c.functions.entries@[i].returns.gpio matches Some(s)
        ==> exists|k: int| 0 <= k < c.message.gpio.signals@.len() && c.message.gpio.signals@[k].name@ == s@) by {
        assert(signal_errors(c)[i] is None);
        if let Some(s) = c.functions.entries@[i].returns.gpio {
            let k = choose|k: int| 0 <= k < signal_names(c).len() && signal_names(c)[k] == s@;
            assert(c.message.gpio.signals@[k].name@ == s@);
        }
    }
}

/// A repeated function id is refused: when two function entries carry the
/// same id, validation fails; when the device ids are distinct (checked
/// first), it fails with a duplicate function id, naming an id that two
/// entries carry.
pub proof fn lemma_repeated_function_id_refused(c: RuntimeConfig, a: int, b: int)
    requires
        0 <= a < b < c.functions.entries@.len(),
        c.functions.entries@[a].function_id@ == c.functions.entries@[b].function_id@,
    ensures
        validation_error(c) is Some,
        (forall|i: int, j: int| 0 <= i < j < c.devices.list@.len()
            ==> c.devices.list@[i].device_id@ != c.devices.list@[j].device_id@) ==> (validation_error(c) matches Some(
            ConfigErrorView::Duplicate { kind, key },
        ) && kind == KeyKind::FunctionId && exists|i: int, j: int|
            0 <= i < j < c.functions.entries@.len() && c.functions.entries@[i].function_id@ == key
                && c.functions.entries@[j].function_id@ == key),
{
    let ids = function_ids(c);
    assert(ids[a] == ids[b]);
    lemma_repeat_found(ids, a, b);
    lemma_no_repeat_iff_distinct(device_ids(c));
    if forall|i: int, j: int| 0 <= i < j < c.devices.list@.len()
        ==> c.devices.list@[i].device_id@ != c.devices.list@[j].device_id@ {
        assert forall|i: int, j: int| 0 <= i < j < device_ids(c).len() implies device_ids(c)[i] != device_ids(c)[j] by {
            assert(c.devices.list@[i].device_id@ != c.devices.list@[j].device_id@);
        }
        let j = first_repeat_index(ids)->0;
        let i = choose|i: int| 0 <= i < j && ids[i] == ids[j];
        assert(c.functions.entries@[i].function_id@ == ids[j]);
        assert(c.functions.entries@[j].function_id@ == ids[j]);
    }
}

} // verus!
