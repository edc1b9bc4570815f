use crate::text::{decimal, decimal_string, opt_text, repeat_char, repeated};
use vstd::prelude::*;
use vstd::string::StringExecFns;

verus! {

/// What can go wrong in the compiler.
#[derive(Debug, Clone, PartialEq, Eq)]
pub enum Error {
    /// Reading or writing failed; the text says how.
    IoError(String),
    ParseError(String),
    TypeError(String),
    CompileError(String),
    UnknownFileType(String),
    UnsupportedSyntax(String),
    ConfigError(String),
    PluginError(String),
    /// So many files of a batch did not compile.
    BatchCompilationFailed(usize),
    DistributedError(String),
    GpuError(String),
    InternalError(String),
}

/// The text of an error.
pub open spec fn error_message(e: Error) -> Seq<char> {
    match e {
        Error::IoError(m) => "IO错误: "@ + m@,
        Error::ParseError(m) => "解析错误: "@ + m@,
        Error::TypeError(m) => "类型错误: "@ + m@,
        Error::CompileError(m) => "编译错误: "@ + m@,
        Error::UnknownFileType(m) => "未知文件类型: "@ + m@,
        Error::UnsupportedSyntax(m) => "不支持的语法: "@ + m@,
        Error::ConfigError(m) => "配置错误: "@ + m@,
        Error::PluginError(m) => "插件错误: "@ + m@,
        Error::BatchCompilationFailed(n) => "批量编译失败: "@ + decimal(n as nat) + " 个文件出错"@,
        Error::DistributedError(m) => "分布式执行错误: "@ + m@,
        Error::GpuError(m) => "GPU加速错误: "@ + m@,
        Error::InternalError(m) => "内部错误: "@ + m@,
    }
}

impl Error {
    /// The error as a line of text.
    pub fn message(&self) -> (text: String)
        ensures
            text@ == error_message(*self),
    {
        match self {
            Error::IoError(m) => "IO错误: ".to_owned().concat(m.as_str()),
            Error::ParseError(m) => "解析错误: ".to_owned().concat(m.as_str()),
            Error::TypeError(m) => "类型错误: ".to_owned().concat(m.as_str()),
            Error::CompileError(m) => "编译错误: ".to_owned().concat(m.as_str()),
            Error::UnknownFileType(m) => "未知文件类型: ".to_owned().concat(m.as_str()),
            Error::UnsupportedSyntax(m) => "不支持的语法: ".to_owned().concat(m.as_str()),
            Error::ConfigError(m) => "配置错误: ".to_owned().concat(m.as_str()),
            Error::PluginError(m) => "插件错误: ".to_owned().concat(m.as_str()),
            Error::BatchCompilationFailed(n) => "批量编译失败: ".to_owned().concat(
                decimal_string(*n).as_str(),
            ).concat(" 个文件出错"),
            Error::DistributedError(m) => "分布式执行错误: ".to_owned().concat(m.as_str()),
            Error::GpuError(m) => "GPU加速错误: ".to_owned().concat(m.as_str()),
            Error::InternalError(m) => "内部错误: ".to_owned().concat(m.as_str()),
        }
    }
}

/// What is known of one compile error: where it is, what it says, and
/// the piece of source that it is about.
#[derive(Debug, Clone)]
pub struct CompileErrorInfo {
    pub file: Option<String>,
    pub line: Option<usize>,
    pub column: Option<usize>,
    pub code: Option<String>,
    pub message: String,
    pub snippet: Option<String>,
    /// Where the part to point at begins in the snippet.
    pub highlight_start: Option<usize>,
    /// Where the part to point at ends in the snippet.
    pub highlight_end: Option<usize>,
}

/// The place of an error as `file:line:column`.
pub open spec fn position_text(file: Seq<char>, line: usize, column: usize) -> Seq<char> {
    file + ":"@ + decimal(line as nat) + ":"@ + decimal(column as nat)
}

impl CompileErrorInfo {
    /// An error of which only the message is known.
    pub fn new(message: &str) -> (info: Self)
        ensures
            info.message@ == message@,
            info.file is None,
            info.line is None,
            info.column is None,
            info.code is None,
            info.snippet is None,
            info.highlight_start is None,
            info.highlight_end is None,
    {
        CompileErrorInfo {
            file: None,
            line: None,
            column: None,
            code: None,
            message: message.to_owned(),
            snippet: None,
            highlight_start: None,
            highlight_end: None,
        }
    }

    pub fn with_file(self, file: &str) -> (info: Self)
        ensures
            opt_text(info.file) == Some(file@),
            info.line == self.line,
            info.column == self.column,
            info.code == self.code,
            info.message == self.message,
            info.snippet == self.snippet,
            info.highlight_start == self.highlight_start,
            info.highlight_end == self.highlight_end,
    {
        let mut info = self;
        info.file = Some(file.to_owned());
        info
    }

    pub fn with_position(self, line: usize, column: usize) -> (info: Self)
        ensures
            info.line == Some(line),
            info.column == Some(column),
            info.file == self.file,
            info.code == self.code,
            info.message == self.message,
            info.snippet == self.snippet,
            info.highlight_start == self.highlight_start,
            info.highlight_end == self.highlight_end,
    {
        let mut info = self;
        info.line = Some(line);
        info.column = Some(column);
        info
    }

    pub fn with_code(self, code: &str) -> (info: Self)
        ensures
            opt_text(info.code) == Some(code@),
            info.file == self.file,
            info.line == self.line,
            info.column == self.column,
            info.message == self.message,
            info.snippet == self.snippet,
            info.highlight_start == self.highlight_start,
            info.highlight_end == self.highlight_end,
    {
        let mut info = self;
        info.code = Some(code.to_owned());
        info
    }

    pub fn with_snippet(self, snippet: &str) -> (info: Self)
        ensures
            opt_text(info.snippet) == Some(snippet@),
            info.file == self.file,
            info.line == self.line,
            info.column == self.column,
            info.code == self.code,
            info.message == self.message,
            info.highlight_start == self.highlight_start,
            info.highlight_end == self.highlight_end,
    {
        let mut info = self;
        info.snippet = Some(snippet.to_owned());
        info
    }

    pub fn with_highlight(self, start: usize, end: usize) -> (info: Self)
        ensures
            info.highlight_start == Some(start),
            info.highlight_end == Some(end),
            info.file == self.file,
            info.line == self.line,
            info.column == self.column,
            info.code == self.code,
            info.message == self.message,
            info.snippet == self.snippet,
    {
        let mut info = self;
        info.highlight_start = Some(start);
        info.highlight_end = Some(end);
        info
    }

    /// The message that the error is raised with: the bare message, or,
    /// where file, line and column are all known, the message after them.
    pub open spec fn error_text(&self) -> Seq<char> {
        if self.file is Some && self.line is Some && self.column is Some {
            position_text(self.file->Some_0@, self.line->Some_0, self.column->Some_0) + " - "@
                + self.message@
        } else {
            self.message@
        }
    }

    fn position(file: &str, line: usize, column: usize) -> (text: String)
        ensures
            text@ == position_text(file@, line, column),
    {
        file.to_owned().concat(":").concat(decimal_string(line).as_str()).concat(":").concat(
            decimal_string(column).as_str(),
        )
    }

    /// Turns what is known into a compile error.
    pub fn into_error(self) -> (e: Error)
        ensures
            e matches Error::CompileError(m) && m@ == self.error_text(),
    {
        let message = match (&self.file, self.line, self.column) {
            (Some(file), Some(line), Some(column)) => Self::position(
                file.as_str(),
                line,
                column,
            ).concat(" - ").concat(self.message.as_str()),
            _ => self.message,
        };
        Error::CompileError(message)
    }

    /// Whether the part to point at ends no earlier than it begins. It
    /// is asked only where the report shows it: where there is a snippet
    /// and both ends are given.
    pub open spec fn highlight_is_ordered(&self) -> bool {
        self.snippet is Some && self.highlight_start is Some && self.highlight_end is Some
            ==> self.highlight_start->Some_0 <= self.highlight_end->Some_0
    }

    /// The first line of the report: where the error is.
    pub open spec fn heading(&self) -> Seq<char> {
        if self.file is Some && self.line is Some && self.column is Some {
            "错误: "@ + position_text(self.file->Some_0@, self.line->Some_0, self.column->Some_0)
                + "\n"@
        } else if self.file is Some {
            "错误: "@ + self.file->Some_0@ + "\n"@
        } else {
            "错误:\n"@
        }
    }

    /// The second line of the report: what the error says.
    pub open spec fn summary(&self) -> Seq<char> {
        if self.code is Some {
            "["@ + self.code->Some_0@ + "] "@ + self.message@ + "\n"@
        } else {
            self.message@ + "\n"@
        }
    }

    /// The end of the report: the snippet after an empty line, and under
    /// it, where a part is to be pointed at, a line of carets below that part.
    pub open spec fn excerpt(&self) -> Seq<char> {
        if self.snippet is Some {
            "\n"@ + self.snippet->Some_0@ + "\n"@ + if self.highlight_start is Some
                && self.highlight_end is Some {
                repeated(' ', self.highlight_start->Some_0 as nat) + repeated(
                    '^',
                    (self.highlight_end->Some_0 - self.highlight_start->Some_0) as nat,
                ) + "\n"@
            } else {
                Seq::empty()
            }
        } else {
            Seq::empty()
        }
    }

    /// The report of the error for a reader, in lines.
    pub fn to_text(&self) -> (text: String)
        requires
            self.highlight_is_ordered(),
        ensures
            text@ == self.heading() + self.summary() + self.excerpt(),
    {
        let heading = match (&self.file, self.line, self.column) {
            (Some(file), Some(line), Some(column)) => "错误: ".to_owned().concat(
                Self::position(file.as_str(), line, column).as_str(),
            ).concat("\n"),
            (Some(file), _, _) => "错误: ".to_owned().concat(file.as_str()).concat("\n"),
            _ => "错误:\n".to_owned(),
        };
        let summary = match &self.code {
            Some(code) => "[".to_owned().concat(code.as_str()).concat("] ").concat(
                self.message.as_str(),
            ).concat("\n"),
            None => self.message.clone().concat("\n"),
        };
        let mut text = heading.concat(summary.as_str());
        match &self.snippet {
            Some(snippet) => {
                text = text.concat("\n").concat(snippet.as_str()).concat("\n");
                match (self.highlight_start, self.highlight_end) {
                    (Some(start), Some(end)) => {
                        proof {
                            reveal_strlit(" ");
                            reveal_strlit("^");
                        }
                        let spaces = repeat_char(" ", start);
                        let markers = repeat_char("^", end - start);
                        text = text.concat(spaces.as_str()).concat(markers.as_str()).concat("\n");
                        assert(text@ =~= self.heading() + self.summary() + self.excerpt());
                    },
                    _ => {
                        assert(text@ =~= self.heading() + self.summary() + self.excerpt());
                    },
                }
            },
            None => {
                assert(text@ =~= self.heading() + self.summary() + self.excerpt());
            },
        }
        text
    }
}

} // verus!
