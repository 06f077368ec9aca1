//! The lines that a request leaves in the log of the gateway: which
//! outcomes are written down, at what level, and in what words.

use vstd::prelude::*;
use vstd::string::*;
use crate::image::json::{answer_shown, request_model_shown, shown_answer, shown_model};
use crate::image::text::{decimal, decimal_text, joined, preview_of, prompt_preview};

verus! {

/// One line for the log.
#[derive(Debug, PartialEq, Eq)]
pub struct LogLine {
    /// `debug`, `info` or `error`.
    pub level: String,
    pub message: String,
}

/// The view of a [`LogLine`].
pub struct LogLineView {
    pub level: Seq<char>,
    pub message: Seq<char>,
}

impl View for LogLine {
    type V = LogLineView;

    open spec fn view(&self) -> LogLineView {
        LogLineView { level: self.level@, message: self.message@ }
    }
}

/// The views of a list of lines.
pub open spec fn line_views(lines: Seq<LogLine>) -> Seq<LogLineView> {
    Seq::new(lines.len(), |i: int| lines[i]@)
}

/// The line that says a request has arrived: its model, the start of its
/// prompt, how many images it asks for, and in what form.
pub open spec fn received_line_of(
    prompt: Seq<char>,
    model: Seq<char>,
    n: u32,
    response_format: Seq<char>,
) -> LogLineView {
    LogLineView {
        level: "info"@,
        message: "[IMAGE] 收到图像生成请求: model="@ + model + ", prompt="@ + preview_of(prompt)
            + ", n="@ + decimal_text(n as nat) + ", response_format="@ + response_format,
    }
}

/// The line that says no credential may be used.
pub open spec fn exhausted_line_of() -> LogLineView {
    LogLineView { level: "error"@, message: "[IMAGE] 没有可用的 Antigravity 凭证"@ }
}

/// The line that says the selected credential holds no OAuth token.
pub open spec fn wrong_kind_line_of() -> LogLineView {
    LogLineView { level: "error"@, message: "[IMAGE] 选中的凭证不是 Antigravity 类型"@ }
}

/// The line that shows the model of the request that goes upstream.
pub open spec fn request_line_of(request: serde_json::Value) -> LogLineView {
    LogLineView {
        level: "debug"@,
        message: "[IMAGE] Antigravity 请求: model="@ + shown_model(request),
    }
}

/// The line that shows the answer of the upstream as it came.
pub open spec fn answer_line_of(answer: serde_json::Value) -> LogLineView {
    LogLineView {
        level: "debug"@,
        message: "[IMAGE] Antigravity 原始响应: "@ + shown_answer(answer),
    }
}

/// The line that says how many images were generated.
pub open spec fn delivered_line_of(images: usize) -> LogLineView {
    LogLineView {
        level: "info"@,
        message: "[IMAGE] 图像生成成功: "@ + decimal_text(images as nat) + " 张图片"@,
    }
}

/// The line that says the answer could not be read.
pub open spec fn unreadable_line_of(error: Seq<char>) -> LogLineView {
    LogLineView { level: "error"@, message: "[IMAGE] 响应转换失败: "@ + error }
}

/// The line that says the upstream call failed.
pub open spec fn call_failed_line_of(error: Seq<char>) -> LogLineView {
    LogLineView { level: "error"@, message: "[IMAGE] Antigravity API 调用失败: "@ + error }
}

/// A line with the given level and message.
fn line(level: &str, message: String) -> (r: LogLine)
    ensures
        r@ == (LogLineView { level: level@, message: message@ }),
{
    LogLine { level: level.to_owned(), message }
}

/// Computes [`received_line_of`].
pub fn received_line(prompt: &str, model: &str, n: u32, response_format: &str) -> (r: LogLine)
    ensures
        r@ == received_line_of(prompt@, model@, n, response_format@),
{
    let mut message: String = joined("[IMAGE] 收到图像生成请求: model=", model);
    message.append(", prompt=");
    message.append(prompt_preview(prompt).as_str());
    message.append(", n=");
    message.append(decimal(n as u64).as_str());
    message.append(", response_format=");
    message.append(response_format);
    line("info", message)
}

/// Computes [`exhausted_line_of`].
pub fn exhausted_line() -> (r: LogLine)
    ensures
        r@ == exhausted_line_of(),
{
    line("error", "[IMAGE] 没有可用的 Antigravity 凭证".to_owned())
}

/// Computes [`wrong_kind_line_of`].
pub fn wrong_kind_line() -> (r: LogLine)
    ensures
        r@ == wrong_kind_line_of(),
{
    line("error", "[IMAGE] 选中的凭证不是 Antigravity 类型".to_owned())
}

/// Computes [`request_line_of`]: the line to write before the upstream
/// call is made.
pub fn request_line(request: &serde_json::Value) -> (r: LogLine)
    ensures
        r@ == request_line_of(*request),
{
    line(
        "debug",
        joined("[IMAGE] Antigravity 请求: model=", request_model_shown(request).as_str()),
    )
}

/// Computes [`answer_line_of`].
pub fn answer_line(answer: &serde_json::Value) -> (r: LogLine)
    ensures
        r@ == answer_line_of(*answer),
{
    line("debug", joined("[IMAGE] Antigravity 原始响应: ", answer_shown(answer).as_str()))
}

/// Computes [`delivered_line_of`].
pub fn delivered_line(images: usize) -> (r: LogLine)
    ensures
        r@ == delivered_line_of(images),
{
    let mut message: String = joined("[IMAGE] 图像生成成功: ", decimal(images as u64).as_str());
    message.append(" 张图片");
    line("info", message)
}

/// Computes [`unreadable_line_of`].
pub fn unreadable_line(error: &str) -> (r: LogLine)
    ensures
        r@ == unreadable_line_of(error@),
{
    line("error", joined("[IMAGE] 响应转换失败: ", error))
}

/// Computes [`call_failed_line_of`].
pub fn call_failed_line(error: &str) -> (r: LogLine)
    ensures
        r@ == call_failed_line_of(error@),
{
    line("error", joined("[IMAGE] Antigravity API 调用失败: ", error))
}

} // verus!
