use vstd::prelude::*;
use vstd::string::StringExecFns;

verus! {

/// Whether `m` occurs as a contiguous run inside `t`.
pub open spec fn is_infix(m: Seq<char>, t: Seq<char>) -> bool {
    exists|i: int| 0 <= i && i + m.len() <= t.len() && #[trigger] t.subrange(i, i + m.len()) == m
}

/// The character of one decimal digit.
pub open spec fn digit_char(d: nat) -> char {
    seq!['0', '1', '2', '3', '4', '5', '6', '7', '8', '9'][d as int]
}

/// The decimal digits of a natural number, most significant first.
pub open spec fn digits_of(n: nat) -> Seq<char>
    decreases n,
{
    if n < 10 {
        seq![digit_char(n)]
    } else {
        digits_of(n / 10).push(digit_char(n % 10))
    }
}

/// An integer written in decimal, with a leading `-` when negative.
pub open spec fn decimal_text(n: int) -> Seq<char> {
    if n < 0 {
        seq!['-'] + digits_of((-n) as nat)
    } else {
        digits_of(n as nat)
    }
}

/// Relies on `ToString` for `i32`, which writes it through its `Display`:
/// plain decimal digits, with `-` before a negative value.
#[verifier::external_body]
pub(crate) fn decimal(n: i32) -> (r: String)
    ensures
        r@ == decimal_text(n as int),
{
    n.to_string()
}

/// A failed read or write, as the stages report it.
#[derive(Debug, PartialEq, Eq)]
pub enum IoFailure {
    /// An error of the operating system or of an in-process stream, with its message.
    Os(String),
    /// The operation was interrupted before it did anything; it may be retried.
    Interrupted,
    /// A sink accepted no bytes of a non-empty buffer.
    WriteZero,
    /// A background thread ended abnormally instead of returning a result.
    Panicked,
}

/// The message of a failure.
pub open spec fn failure_text(f: IoFailure) -> Seq<char> {
    match f {
        IoFailure::Os(m) => m@,
        IoFailure::Interrupted => "operation interrupted"@,
        IoFailure::WriteZero => "failed to write whole buffer"@,
        IoFailure::Panicked => "copy thread panicked"@,
    }
}

impl IoFailure {
    /// The message of this failure.
    pub fn text(&self) -> (r: String)
        ensures
            r@ == failure_text(*self),
    {
        match self {
            IoFailure::Os(m) => m.clone(),
            IoFailure::Interrupted => String::from_str("operation interrupted"),
            IoFailure::WriteZero => String::from_str("failed to write whole buffer"),
            IoFailure::Panicked => String::from_str("copy thread panicked"),
        }
    }
}

/// Marker for a background copy thread that ended abnormally.
pub struct ThreadPanicked;

impl ThreadPanicked {
    /// The failure reported in place of the result of a thread that did not complete.
    pub fn ioerr() -> (r: IoFailure)
        ensures
            r == IoFailure::Panicked,
    {
        IoFailure::Panicked
    }

    /// The message of this failure.
    pub fn text(&self) -> (r: String)
        ensures
            r@ == failure_text(IoFailure::Panicked),
    {
        String::from_str("copy thread panicked")
    }
}

/// The result of a background thread once joined: `None` when it ended abnormally.
pub open spec fn settled<T>(joined: Option<Result<T, IoFailure>>) -> Result<T, IoFailure> {
    match joined {
        Some(r) => r,
        None => Err(IoFailure::Panicked),
    }
}

/// Maps the outcome of joining a background thread to its result, so that a
/// thread that did not complete is reported as a distinct failure.
pub fn settle<T>(joined: Option<Result<T, IoFailure>>) -> (r: Result<T, IoFailure>)
    ensures
        r == settled(joined),
{
    match joined {
        Some(r) => r,
        None => Err(ThreadPanicked::ioerr()),
    }
}

} // verus!
