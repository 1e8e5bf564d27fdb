//! The errors of scanning, parsing, resolving and running, and the exit codes of the tool.
use vstd::prelude::*;
use crate::text::{decimal, spec_decimal, string_of};
use crate::value::{Object, ObjectView};

verus! {

/// Exit code of a run that succeeded.
pub const EXIT_SUCCESS: i32 = 0;

/// Exit code of a source that did not scan.
pub const EXIT_SCAN_ERROR: i32 = 65;

/// Exit code of a source that did not parse.
pub const EXIT_PARSE_ERROR: i32 = 65;

/// Exit code of a program that the resolver refused.
pub const EXIT_RESOLVE_ERROR: i32 = 65;

/// Exit code of a program that failed while running.
pub const EXIT_RUNTIME_ERROR: i32 = 70;

/// The `[line N] Error: ` prefix of a message.
pub open spec fn line_prefix(line: nat) -> Seq<char> {
    "[line "@ + spec_decimal(line) + "] Error: "@
}

fn line_prefix_string(line: usize) -> (s: String)
    ensures
        s@ == line_prefix(line as nat),
{
    let mut s = String::from_str("[line ");
    let d = decimal(line);
    s.append(d.as_str());
    s.append("] Error: ");
    s
}

/// An error found while scanning.
#[derive(Debug)]
pub enum ScanError {
    UnexpectedCharacter { line: usize, ch: char },
    UnterminatedString { line: usize },
    InvalidNumber { line: usize, lexeme: String },
}

/// The abstract value of a scan error.
pub enum ScanErrorView {
    UnexpectedCharacter { line: nat, ch: char },
    UnterminatedString { line: nat },
    InvalidNumber { line: nat, lexeme: Seq<char> },
}

impl View for ScanError {
    type V = ScanErrorView;

    open spec fn view(&self) -> ScanErrorView {
        match self {
            ScanError::UnexpectedCharacter { line, ch } => ScanErrorView::UnexpectedCharacter {
                line: *line as nat,
                ch: *ch,
            },
            ScanError::UnterminatedString { line } => ScanErrorView::UnterminatedString {
                line: *line as nat,
            },
            ScanError::InvalidNumber { line, lexeme } => ScanErrorView::InvalidNumber {
                line: *line as nat,
                lexeme: lexeme@,
            },
        }
    }
}

/// The message that reports a scan error.
pub open spec fn scan_error_message(e: ScanErrorView) -> Seq<char> {
    match e {
        ScanErrorView::UnexpectedCharacter { line, ch } => line_prefix(line)
            + "Unexpected character: "@ + seq![ch],
        ScanErrorView::UnterminatedString { line } => line_prefix(line) + "Unterminated string."@,
        ScanErrorView::InvalidNumber { line, lexeme } => line_prefix(line) + "Invalid number: "@
            + lexeme,
    }
}

impl ScanError {
    /// The message that reports this error.
    pub fn message(&self) -> (s: String)
        ensures
            s@ == scan_error_message(self@),
    {
        match self {
            ScanError::UnexpectedCharacter { line, ch } => {
                let mut s = line_prefix_string(*line);
                s.append("Unexpected character: ");
                let c = string_of(&[*ch]);
                s.append(c.as_str());
                s
            },
            ScanError::UnterminatedString { line } => {
                let mut s = line_prefix_string(*line);
                s.append("Unterminated string.");
                s
            },
            ScanError::InvalidNumber { line, lexeme } => {
                let mut s = line_prefix_string(*line);
                s.append("Invalid number: ");
                s.append(lexeme.as_str());
                s
            },
        }
    }
}

/// An error found while parsing.
#[derive(Debug)]
pub enum ParseError {
    ExpectedExpression { line: usize, got: String },
    ExpectedToken { line: usize, expected: String, found: String },
    InvalidAssignment { line: usize },
    FunctionArgsLimitExceeded { line: usize },
}

/// The abstract value of a parse error.
pub enum ParseErrorView {
    ExpectedExpression { line: nat, got: Seq<char> },
    ExpectedToken { line: nat, expected: Seq<char>, found: Seq<char> },
    InvalidAssignment { line: nat },
    FunctionArgsLimitExceeded { line: nat },
}

impl View for ParseError {
    type V = ParseErrorView;

    open spec fn view(&self) -> ParseErrorView {
        match self {
            ParseError::ExpectedExpression { line, got } => ParseErrorView::ExpectedExpression {
                line: *line as nat,
                got: got@,
            },
            ParseError::ExpectedToken { line, expected, found } => ParseErrorView::ExpectedToken {
                line: *line as nat,
                expected: expected@,
                found: found@,
            },
            ParseError::InvalidAssignment { line } => ParseErrorView::InvalidAssignment {
                line: *line as nat,
            },
            ParseError::FunctionArgsLimitExceeded { line } => ParseErrorView::FunctionArgsLimitExceeded {
                line: *line as nat,
            },
        }
    }
}

/// The message that reports a parse error.
pub open spec fn parse_error_message(e: ParseErrorView) -> Seq<char> {
    match e {
        ParseErrorView::ExpectedExpression { line, got } => line_prefix(line)
            + "Expected expression, got "@ + got,
        ParseErrorView::ExpectedToken { line, expected, found } => line_prefix(line) + "Expected "@
            + expected + " but found "@ + found,
        ParseErrorView::InvalidAssignment { line } => line_prefix(line)
            + "Invalid assignment target"@,
        ParseErrorView::FunctionArgsLimitExceeded { line } => line_prefix(line)
            + "Can't have more than 255 arguments."@,
    }
}

impl ParseError {
    /// The message that reports this error.
    pub fn message(&self) -> (s: String)
        ensures
            s@ == parse_error_message(self@),
    {
        match self {
            ParseError::ExpectedExpression { line, got } => {
                let mut s = line_prefix_string(*line);
                s.append("Expected expression, got ");
                s.append(got.as_str());
                s
            },
            ParseError::ExpectedToken { line, expected, found } => {
                let mut s = line_prefix_string(*line);
                s.append("Expected ");
                s.append(expected.as_str());
                s.append(" but found ");
                s.append(found.as_str());
                s
            },
            ParseError::InvalidAssignment { line } => {
                let mut s = line_prefix_string(*line);
                s.append("Invalid assignment target");
                s
            },
            ParseError::FunctionArgsLimitExceeded { line } => {
                let mut s = line_prefix_string(*line);
                s.append("Can't have more than 255 arguments.");
                s
            },
        }
    }
}

/// An error found while resolving or running a program. A `return` travels as
/// `ReturnValue` up to the call that it leaves.
#[derive(Debug)]
pub enum RuntimeError {
    PlusTypeMismatch,
    NonNumericOperands,
    DivisionByZero,
    UnaryTypeMismatch { operator: String, operand: String },
    UndefinedVariable { name: String },
    Error { line: usize, msg: String },
    ReturnValue { value: Object },
    FunctionCallArgsError { required: usize, passed: usize },
    FunctionCallError,
}

/// The abstract value of a runtime error.
pub enum RuntimeErrorView {
    PlusTypeMismatch,
    NonNumericOperands,
    DivisionByZero,
    UnaryTypeMismatch { operator: Seq<char>, operand: Seq<char> },
    UndefinedVariable { name: Seq<char> },
    Error { line: nat, msg: Seq<char> },
    ReturnValue { value: ObjectView },
    FunctionCallArgsError { required: nat, passed: nat },
    FunctionCallError,
}

impl View for RuntimeError {
    type V = RuntimeErrorView;

    open spec fn view(&self) -> RuntimeErrorView {
        match self {
            RuntimeError::PlusTypeMismatch => RuntimeErrorView::PlusTypeMismatch,
            RuntimeError::NonNumericOperands => RuntimeErrorView::NonNumericOperands,
            RuntimeError::DivisionByZero => RuntimeErrorView::DivisionByZero,
            RuntimeError::UnaryTypeMismatch { operator, operand } => RuntimeErrorView::UnaryTypeMismatch {
                operator: operator@,
                operand: operand@,
            },
            RuntimeError::UndefinedVariable { name } => RuntimeErrorView::UndefinedVariable { name: name@ },
            RuntimeError::Error { line, msg } => RuntimeErrorView::Error { line: *line as nat, msg: msg@ },
            RuntimeError::ReturnValue { value } => RuntimeErrorView::ReturnValue { value: value@ },
            RuntimeError::FunctionCallArgsError { required, passed } => RuntimeErrorView::FunctionCallArgsError {
                required: *required as nat,
                passed: *passed as nat,
            },
            RuntimeError::FunctionCallError => RuntimeErrorView::FunctionCallError,
        }
    }
}

/// The message that reports a runtime error.
pub open spec fn runtime_error_message(e: RuntimeErrorView) -> Seq<char> {
    match e {
        RuntimeErrorView::PlusTypeMismatch => "Operands must be two numbers or two strings"@,
        RuntimeErrorView::NonNumericOperands => "Operands must be numbers"@,
        RuntimeErrorView::DivisionByZero => "Division by zero"@,
        RuntimeErrorView::UnaryTypeMismatch { operator, operand } => "Unary not implemented for "@
            + operator + " and "@ + operand,
        RuntimeErrorView::UndefinedVariable { name } => "Undefined variable '"@ + name + "'."@,
        RuntimeErrorView::Error { line, msg } => line_prefix(line) + msg,
        RuntimeErrorView::ReturnValue { .. } => "Can't return from top-level code."@,
        RuntimeErrorView::FunctionCallArgsError { required, passed } => "Expected "@ + spec_decimal(
            required,
        ) + " arguments but got "@ + spec_decimal(passed) + "."@,
        RuntimeErrorView::FunctionCallError => "Can only call functions and classes."@,
    }
}

impl RuntimeError {
    /// The message that reports this error.
    pub fn message(&self) -> (s: String)
        ensures
            s@ == runtime_error_message(self@),
    {
        match self {
            RuntimeError::PlusTypeMismatch => String::from_str("Operands must be two numbers or two strings"),
            RuntimeError::NonNumericOperands => String::from_str("Operands must be numbers"),
            RuntimeError::DivisionByZero => String::from_str("Division by zero"),
            RuntimeError::UnaryTypeMismatch { operator, operand } => {
                let mut s = String::from_str("Unary not implemented for ");
                s.append(operator.as_str());
                s.append(" and ");
                s.append(operand.as_str());
                s
            },
            RuntimeError::UndefinedVariable { name } => {
                let mut s = String::from_str("Undefined variable '");
                s.append(name.as_str());
                s.append("'.");
                s
            },
            RuntimeError::Error { line, msg } => {
                let mut s = line_prefix_string(*line);
                s.append(msg.as_str());
                s
            },
            RuntimeError::ReturnValue { .. } => String::from_str("Can't return from top-level code."),
            RuntimeError::FunctionCallArgsError { required, passed } => {
                let mut s = String::from_str("Expected ");
                let r = decimal(*required);
                s.append(r.as_str());
                s.append(" arguments but got ");
                let p = decimal(*passed);
                s.append(p.as_str());
                s.append(".");
                s
            },
            RuntimeError::FunctionCallError => String::from_str("Can only call functions and classes."),
        }
    }
}

} // verus!
