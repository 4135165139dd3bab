//! Starting the inference server that runs on this machine: what it is
//! started with, where it is then reached, and what is said when it does
//! not come up.

use vstd::prelude::*;
use vstd::string::*;
use crate::text::{contains, contains_text, decimal, decimal_text};

verus! {

/// The view of a `LaunchPlan`.
pub struct LaunchPlanView {
    pub args: Seq<Seq<char>>,
    pub settle_millis: u64,
    pub warmup_millis: u64,
    pub health_url: Seq<char>,
    pub health_timeout_secs: u64,
    pub api_base: Seq<char>,
}

/// How the server is started and checked.
#[derive(Debug, PartialEq, Eq)]
pub struct LaunchPlan {
    /// The arguments of the server's command line.
    pub args: Vec<String>,
    /// How long to wait, after a server that ran before was stopped, for
    /// its port to be free.
    pub settle_millis: u64,
    /// How long to wait before asking whether the process has stayed up.
    pub warmup_millis: u64,
    /// Where the server says that it is well.
    pub health_url: String,
    /// How long to wait for that answer.
    pub health_timeout_secs: u64,
    /// Where the server's API is reached once it is up.
    pub api_base: String,
}

impl View for LaunchPlan {
    type V = LaunchPlanView;

    open spec fn view(&self) -> LaunchPlanView {
        LaunchPlanView {
            args: self.args@.map_values(|a: String| a@),
            settle_millis: self.settle_millis,
            warmup_millis: self.warmup_millis,
            health_url: self.health_url@,
            health_timeout_secs: self.health_timeout_secs,
            api_base: self.api_base@,
        }
    }
}

/// The command line of the server: the model, the port, the number of
/// layers handed to the GPU, a context of 4096 tokens, and the local host
/// as the only address served.
pub open spec fn server_args(model_path: Seq<char>, port: u16, gpu_layers: nat) -> Seq<
    Seq<char>,
> {
    seq![
        "-m"@,
        model_path,
        "--port"@,
        decimal(port as nat),
        "-ngl"@,
        decimal(gpu_layers),
        "-c"@,
        "4096"@,
        "--host"@,
        "127.0.0.1"@,
    ]
}

/// The address at which a server on `port` says that it is well.
pub open spec fn health_url_of(port: u16) -> Seq<char> {
    "http://127.0.0.1:"@ + decimal(port as nat) + "/health"@
}

/// The address at which the API of a server on `port` is reached.
pub open spec fn api_base_of(port: u16) -> Seq<char> {
    "http://127.0.0.1:"@ + decimal(port as nat) + "/v1"@
}

/// The plan for a server with these settings.
pub open spec fn plan_of(model_path: Seq<char>, port: u16, gpu_layers: nat) -> LaunchPlanView {
    LaunchPlanView {
        args: server_args(model_path, port, gpu_layers),
        settle_millis: 500,
        warmup_millis: 2000,
        health_url: health_url_of(port),
        health_timeout_secs: 5,
        api_base: api_base_of(port),
    }
}

/// The view of a `LaunchFailure`.
pub enum LaunchFailureView {
    NoGpuLayers,
    ResourcePath(Seq<char>),
    MissingExecutable(Seq<char>),
    MissingModel(Seq<char>),
    SpawnFailed(Seq<char>),
    ExitedEarly(Seq<char>),
    StatusUnknown(Seq<char>),
    Unhealthy,
}

/// Why the server did not come up.
#[derive(Debug, PartialEq, Eq)]
pub enum LaunchFailure {
    /// No layer was to be handed to the GPU.
    NoGpuLayers,
    /// The directory of the server's files could not be resolved.
    ResourcePath(String),
    /// The server's executable is not where it should be.
    MissingExecutable(String),
    /// The model is not where it was said to be.
    MissingModel(String),
    /// The process could not be started.
    SpawnFailed(String),
    /// The process ended right after its start, with this status.
    ExitedEarly(String),
    /// Whether the process is up could not be found out.
    StatusUnknown(String),
    /// The server did not say that it is well.
    Unhealthy,
}

impl View for LaunchFailure {
    type V = LaunchFailureView;

    open spec fn view(&self) -> LaunchFailureView {
        match self {
            LaunchFailure::NoGpuLayers => LaunchFailureView::NoGpuLayers,
            LaunchFailure::ResourcePath(d) => LaunchFailureView::ResourcePath(d@),
            LaunchFailure::MissingExecutable(d) => LaunchFailureView::MissingExecutable(d@),
            LaunchFailure::MissingModel(d) => LaunchFailureView::MissingModel(d@),
            LaunchFailure::SpawnFailed(d) => LaunchFailureView::SpawnFailed(d@),
            LaunchFailure::ExitedEarly(d) => LaunchFailureView::ExitedEarly(d@),
            LaunchFailure::StatusUnknown(d) => LaunchFailureView::StatusUnknown(d@),
            LaunchFailure::Unhealthy => LaunchFailureView::Unhealthy,
        }
    }
}

/// The text by which a failure is reported.
pub open spec fn failure_message(f: LaunchFailureView) -> Seq<char> {
    match f {
        LaunchFailureView::NoGpuLayers => "GPU 层数必须大于 0，建议设置为 99 或 999"@,
        LaunchFailureView::ResourcePath(d) => "无法解析资源路径: "@ + d,
        LaunchFailureView::MissingExecutable(d) => "找不到执行文件: "@ + d,
        LaunchFailureView::MissingModel(d) => "模型文件不存在: "@ + d,
        LaunchFailureView::SpawnFailed(d) => "启动失败: "@ + d,
        LaunchFailureView::ExitedEarly(d) => "进程启动后立即退出，退出码: "@ + d,
        LaunchFailureView::StatusUnknown(d) => "无法检查进程状态: "@ + d,
        LaunchFailureView::Unhealthy => "服务未响应健康检查，可能启动失败"@,
    }
}

fn prefixed(prefix: &str, detail: &String) -> (r: String)
    ensures
        r@ == prefix@ + detail@,
{
    let mut out = String::from_str(prefix);
    out.append(detail.as_str());
    out
}

impl LaunchFailure {
    /// The text by which the failure is reported.
    pub fn message(&self) -> (r: String)
        ensures
            r@ == failure_message(self@),
    {
        match self {
            LaunchFailure::NoGpuLayers => String::from_str(
                "GPU 层数必须大于 0，建议设置为 99 或 999",
            ),
            LaunchFailure::ResourcePath(d) => prefixed("无法解析资源路径: ", d),
            LaunchFailure::MissingExecutable(d) => prefixed("找不到执行文件: ", d),
            LaunchFailure::MissingModel(d) => prefixed("模型文件不存在: ", d),
            LaunchFailure::SpawnFailed(d) => prefixed("启动失败: ", d),
            LaunchFailure::ExitedEarly(d) => prefixed("进程启动后立即退出，退出码: ", d),
            LaunchFailure::StatusUnknown(d) => prefixed("无法检查进程状态: ", d),
            LaunchFailure::Unhealthy => String::from_str("服务未响应健康检查，可能启动失败"),
        }
    }
}

/// The address at which a server on `port` says that it is well.
pub fn health_url(port: u16) -> (r: String)
    ensures
        r@ == health_url_of(port),
{
    let mut out = String::from_str("http://127.0.0.1:");
    out.append(decimal_text(port as u32).as_str());
    out.append("/health");
    out
}

/// The address at which the API of a server on `port` is reached.
pub fn api_base(port: u16) -> (r: String)
    ensures
        r@ == api_base_of(port),
{
    let mut out = String::from_str("http://127.0.0.1:");
    out.append(decimal_text(port as u32).as_str());
    out.append("/v1");
    out
}

/// Plans the start of the server. A server without a layer on the GPU is
/// not started: `gpu_layers` must be greater than 0.
pub fn plan_launch(model_path: &str, port: u16, gpu_layers: i32) -> (r: Result<
    LaunchPlan,
    LaunchFailure,
>)
    ensures
        gpu_layers <= 0 ==> r == Err::<LaunchPlan, LaunchFailure>(LaunchFailure::NoGpuLayers),
        gpu_layers > 0 ==> r is Ok && r->Ok_0@ == plan_of(model_path@, port, gpu_layers as nat),
{
    if gpu_layers <= 0 {
        return Err(LaunchFailure::NoGpuLayers);
    }
    let mut args: Vec<String> = Vec::new();
    args.push(String::from_str("-m"));
    args.push(String::from_str(model_path));
    args.push(String::from_str("--port"));
    args.push(decimal_text(port as u32));
    args.push(String::from_str("-ngl"));
    args.push(decimal_text(gpu_layers as u32));
    args.push(String::from_str("-c"));
    args.push(String::from_str("4096"));
    args.push(String::from_str("--host"));
    args.push(String::from_str("127.0.0.1"));
    let plan = LaunchPlan {
        args,
        settle_millis: 500,
        warmup_millis: 2000,
        health_url: health_url(port),
        health_timeout_secs: 5,
        api_base: api_base(port),
    };
    proof {
        assert(plan@.args =~= server_args(model_path@, port, gpu_layers as nat));
    }
    Ok(plan)
}

/// What a line of the server's log tells.
#[derive(Clone, Copy, Debug, PartialEq, Eq, Structural)]
pub struct LogMarks {
    /// The line speaks of layers handed to the GPU.
    pub offload: bool,
    /// The line speaks of CUDA.
    pub cuda: bool,
    /// The line speaks of an error.
    pub error: bool,
}

/// What a line of the server's log tells: of the GPU where it holds
/// `offloaded`, of CUDA where it holds `CUDA`, of an error where it holds
/// `error`, `Error` or `failed`.
pub fn log_marks(line: &str) -> (r: LogMarks)
    ensures
        r.offload == contains_text(line@, "offloaded"@),
        r.cuda == contains_text(line@, "CUDA"@),
        r.error == (contains_text(line@, "error"@) || contains_text(line@, "Error"@)
            || contains_text(line@, "failed"@)),
{
    LogMarks {
        offload: contains(line, "offloaded"),
        cuda: contains(line, "CUDA"),
        error: contains(line, "error") || contains(line, "Error") || contains(line, "failed"),
    }
}

} // verus!
