//! Errors of the bytecode machine and their messages.

use vstd::prelude::*;
use crate::stdlib::text::{decimal, hex_digit_char, owned, push_decimal, push_hex_byte, push_str};

verus! {

broadcast use vstd::string::group_string_axioms;

/// VM error type.
#[derive(Debug, Clone)]
pub enum VMError {
    StackUnderflow,
    InvalidOpcode(u8),
    TypeError(String),
    DivisionByZero,
    IndexOutOfBounds,
    UndefinedVariable(String),
    NotCallable,
    WrongArgCount { expected: u8, got: u8 },
}

impl VMError {
    /// The message describing the error.
    pub open spec fn message(&self) -> Seq<char> {
        match self {
            VMError::StackUnderflow => "Stack underflow"@,
            VMError::InvalidOpcode(op) => "Invalid opcode: 0x"@ + seq![
                hex_digit_char(*op as nat / 16),
                hex_digit_char(*op as nat % 16),
            ],
            VMError::TypeError(msg) => "Type error: "@ + msg@,
            VMError::DivisionByZero => "Division by zero"@,
            VMError::IndexOutOfBounds => "Index out of bounds"@,
            VMError::UndefinedVariable(name) => "Undefined variable: "@ + name@,
            VMError::NotCallable => "Value is not callable"@,
            VMError::WrongArgCount { expected, got } => "Wrong number of arguments: expected "@
                + decimal(*expected as nat) + ", got "@ + decimal(*got as nat),
        }
    }

    /// The message describing the error (the opcode in two uppercase hex digits).
    pub fn to_string(&self) -> (r: String)
        ensures
            r@ == self.message(),
    {
        match self {
            VMError::StackUnderflow => owned("Stack underflow"),
            VMError::InvalidOpcode(op) => {
                let mut r = owned("Invalid opcode: 0x");
                push_hex_byte(&mut r, *op);
                r
            },
            VMError::TypeError(msg) => {
                let mut r = owned("Type error: ");
                push_str(&mut r, msg.as_str());
                r
            },
            VMError::DivisionByZero => owned("Division by zero"),
            VMError::IndexOutOfBounds => owned("Index out of bounds"),
            VMError::UndefinedVariable(name) => {
                let mut r = owned("Undefined variable: ");
                push_str(&mut r, name.as_str());
                r
            },
            VMError::NotCallable => owned("Value is not callable"),
            VMError::WrongArgCount { expected, got } => {
                let mut r = owned("Wrong number of arguments: expected ");
                push_decimal(&mut r, *expected as u64);
                push_str(&mut r, ", got ");
                push_decimal(&mut r, *got as u64);
                r
            },
        }
    }
}

} // verus!
