use vstd::prelude::*;

use crate::span::Span;

verus! {

/// Every diagnostic the front end can raise. Its position in this list is
/// the number shown to the user and the basis of the process status.
#[derive(Debug, Clone, Copy, PartialEq, Eq, Structural)]
pub enum ErrorCode {
    // Error
    ModuleNotFoundError,
    NoMainError,
    // Warn
    WarnTest,
    // Info
    InfoTest,
    // Error
    SyntaxError,
    MalformedTreeError,
    ModuleCycleError,
}

/// How serious a diagnostic is: only `Error` aborts the operation.
#[derive(Debug, Clone, Copy, PartialEq, Eq, Structural)]
pub enum ErrorKind {
    Info,
    Warn,
    Error,
}

pub open spec fn kind_of(c: ErrorCode) -> ErrorKind {
    match c {
        ErrorCode::WarnTest => ErrorKind::Warn,
        ErrorCode::InfoTest => ErrorKind::Info,
        _ => ErrorKind::Error,
    }
}

pub open spec fn code_number(c: ErrorCode) -> int {
    match c {
        ErrorCode::ModuleNotFoundError => 0,
        ErrorCode::NoMainError => 1,
        ErrorCode::WarnTest => 2,
        ErrorCode::InfoTest => 3,
        ErrorCode::SyntaxError => 4,
        ErrorCode::MalformedTreeError => 5,
        ErrorCode::ModuleCycleError => 6,
    }
}

pub open spec fn kind_word(k: ErrorKind) -> Seq<char> {
    match k {
        ErrorKind::Error => seq!['e', 'r', 'r', 'o', 'r'],
        ErrorKind::Warn => seq!['w', 'a', 'r', 'n', 'i', 'n', 'g'],
        ErrorKind::Info => seq!['i', 'n', 'f', 'o'],
    }
}

/// The decimal digit of a number below ten.
pub open spec fn digit_char(n: int) -> char {
    ((n + '0' as int) as u8) as char
}

/// `error[0]`, `warning[2]`, ...: the kind and the number of a code.
pub open spec fn label_of(c: ErrorCode) -> Seq<char> {
    kind_word(kind_of(c)) + seq!['['] + seq![digit_char(code_number(c))] + seq![']']
}

/// `label: message`, the line a diagnostic is shown as.
pub open spec fn line_of(c: ErrorCode, message: Seq<char>) -> Seq<char> {
    label_of(c) + seq![':', ' '] + message
}

impl ErrorCode {
    pub fn get_kind(&self) -> (r: ErrorKind)
        ensures
            r == kind_of(*self),
    {
        match self {
            ErrorCode::ModuleNotFoundError => ErrorKind::Error,
            ErrorCode::NoMainError => ErrorKind::Error,
            ErrorCode::WarnTest => ErrorKind::Warn,
            ErrorCode::InfoTest => ErrorKind::Info,
            ErrorCode::SyntaxError => ErrorKind::Error,
            ErrorCode::MalformedTreeError => ErrorKind::Error,
            ErrorCode::ModuleCycleError => ErrorKind::Error,
        }
    }

    pub fn number(&self) -> (r: i32)
        ensures
            r == code_number(*self),
    {
        match self {
            ErrorCode::ModuleNotFoundError => 0,
            ErrorCode::NoMainError => 1,
            ErrorCode::WarnTest => 2,
            ErrorCode::InfoTest => 3,
            ErrorCode::SyntaxError => 4,
            ErrorCode::MalformedTreeError => 5,
            ErrorCode::ModuleCycleError => 6,
        }
    }

    /// The label the code is shown with, such as `error[0]`.
    pub fn label(&self) -> (r: String)
        ensures
            r@ == label_of(*self),
    {
        let word = match self.get_kind() {
            ErrorKind::Error => "error",
            ErrorKind::Warn => "warning",
            ErrorKind::Info => "info",
        };
        let digit = match self {
            ErrorCode::ModuleNotFoundError => "0",
            ErrorCode::NoMainError => "1",
            ErrorCode::WarnTest => "2",
            ErrorCode::InfoTest => "3",
            ErrorCode::SyntaxError => "4",
            ErrorCode::MalformedTreeError => "5",
            ErrorCode::ModuleCycleError => "6",
        };
        proof {
            reveal_strlit("error");
            reveal_strlit("warning");
            reveal_strlit("info");
            reveal_strlit("0");
            reveal_strlit("1");
            reveal_strlit("2");
            reveal_strlit("3");
            reveal_strlit("4");
            reveal_strlit("5");
            reveal_strlit("6");
            reveal_strlit("[");
            reveal_strlit("]");
        }
        let r = String::from_str(word).concat("[").concat(digit).concat("]");
        assert(r@ =~= label_of(*self));
        r
    }
}

/// The line `label: message`.
fn message_line(code: ErrorCode, message: &String) -> (r: String)
    ensures
        r@ == line_of(code, message@),
{
    proof {
        reveal_strlit(": ");
    }
    let r = code.label().concat(": ").concat(message.as_str());
    assert(r@ =~= line_of(code, message@));
    r
}

/// A diagnostic located in a source file.
#[derive(Debug)]
pub struct Error {
    pub code: ErrorCode,
    pub span: Span<()>,
    pub message: String,
}

impl Error {
    pub fn new(code: ErrorCode, span: Span<()>, message: String) -> (r: Error)
        ensures
            r.code == code,
            r.span == span,
            r.message == message,
    {
        Error { code, span, message }
    }

    /// The line the diagnostic is shown as.
    pub fn display_line(&self) -> (r: String)
        ensures
            r@ == line_of(self.code, self.message@),
    {
        message_line(self.code, &self.message)
    }

    /// Whether the diagnostic aborts the operation that raised it.
    pub fn is_fatal(&self) -> (r: bool)
        ensures
            r == (kind_of(self.code) == ErrorKind::Error),
    {
        self.code.get_kind() == ErrorKind::Error
    }

    /// After the diagnostic has been shown: `Err` when it is fatal, `Ok`
    /// when the operation goes on.
    pub fn conclude(self) -> (r: Result<(), Error>)
        ensures
            kind_of(self.code) == ErrorKind::Error ==> r == Err::<(), Error>(self),
            kind_of(self.code) != ErrorKind::Error ==> r is Ok,
    {
        if self.is_fatal() {
            Err(self)
        } else {
            Ok(())
        }
    }

    pub fn get_return_code(&self) -> (r: i32)
        ensures
            r == code_number(self.code),
    {
        self.code.number()
    }
}

/// A diagnostic that belongs to no place in the sources.
#[derive(Debug)]
pub struct NonLocatedError {
    pub code: ErrorCode,
    pub message: String,
}

impl NonLocatedError {
    pub fn new(code: ErrorCode, message: String) -> (r: NonLocatedError)
        ensures
            r.code == code,
            r.message == message,
    {
        NonLocatedError { code, message }
    }

    /// The line the diagnostic is shown as.
    pub fn display_line(&self) -> (r: String)
        ensures
            r@ == line_of(self.code, self.message@),
    {
        message_line(self.code, &self.message)
    }

    /// Whether the diagnostic aborts the operation that raised it.
    pub fn is_fatal(&self) -> (r: bool)
        ensures
            r == (kind_of(self.code) == ErrorKind::Error),
    {
        self.code.get_kind() == ErrorKind::Error
    }

    /// After the diagnostic has been shown: `Err` when it is fatal, `Ok`
    /// when the operation goes on.
    pub fn conclude(self) -> (r: Result<(), NonLocatedError>)
        ensures
            kind_of(self.code) == ErrorKind::Error ==> r == Err::<(), NonLocatedError>(self),
            kind_of(self.code) != ErrorKind::Error ==> r is Ok,
    {
        if self.is_fatal() {
            Err(self)
        } else {
            Ok(())
        }
    }

    pub fn get_return_code(&self) -> (r: i32)
        ensures
            r == code_number(self.code),
    {
        self.code.number()
    }
}

/// The status a failed operation hands to the process.
#[derive(Debug, Clone, Copy, PartialEq, Eq, Structural)]
pub struct ReturnValue {
    pub value: i32,
}

impl From<Error> for ReturnValue {
    fn from(e: Error) -> (r: ReturnValue) {
        ReturnValue { value: e.get_return_code() }
    }
}

impl vstd::std_specs::convert::FromSpecImpl<Error> for ReturnValue {
    open spec fn obeys_from_spec() -> bool {
        true
    }

    open spec fn from_spec(e: Error) -> ReturnValue {
        ReturnValue { value: code_number(e.code) as i32 }
    }
}

impl From<NonLocatedError> for ReturnValue {
    fn from(e: NonLocatedError) -> (r: ReturnValue) {
        ReturnValue { value: e.get_return_code() }
    }
}

impl vstd::std_specs::convert::FromSpecImpl<NonLocatedError> for ReturnValue {
    open spec fn obeys_from_spec() -> bool {
        true
    }

    open spec fn from_spec(e: NonLocatedError) -> ReturnValue {
        ReturnValue { value: code_number(e.code) as i32 }
    }
}

} // verus!
