//! The ways in which an operation fails, and the texts of the failures that
//! this layer reports itself.

use vstd::prelude::*;
use vstd::string::StringExecFns;
use crate::reference::Handle;
use crate::scalar::Primitive;

verus! {

/// Why an operation did not produce its value.
#[derive(Debug, PartialEq, Eq)]
pub enum Error {
    /// The foreign side raised an exception. It has been cleared there, and
    /// this is the thrown object.
    Thrown(Handle),
    /// A native slice of this length has more elements than a foreign array
    /// can have.
    SliceTooLong(usize),
    /// A native index that the foreign index type cannot represent, so that
    /// it lies beyond the end of every foreign array.
    IndexTooLarge(usize),
    /// A null reference stood where an object was needed.
    NullDeref,
    /// The foreign runtime did what its own rules exclude.
    JvmInternal(String),
    /// The foreign side raised an exception that none of the declared
    /// catches took: the thrown object, which has been cleared there, and
    /// its message.
    Uncaught { thrown: Handle, message: Option<String> },
}

/// An [`Error`] as a mathematical value.
pub enum ErrorView {
    Thrown(Handle),
    SliceTooLong(usize),
    IndexTooLarge(usize),
    NullDeref,
    JvmInternal(Seq<char>),
    Uncaught { thrown: Handle, message: Option<Seq<char>> },
}

impl View for Error {
    type V = ErrorView;

    open spec fn view(&self) -> ErrorView {
        match *self {
            Error::Thrown(h) => ErrorView::Thrown(h),
            Error::SliceTooLong(n) => ErrorView::SliceTooLong(n),
            Error::IndexTooLarge(n) => ErrorView::IndexTooLarge(n),
            Error::NullDeref => ErrorView::NullDeref,
            Error::JvmInternal(text) => ErrorView::JvmInternal(text@),
            Error::Uncaught { thrown, message } => ErrorView::Uncaught {
                thrown,
                message: match message {
                    Some(text) => Some(text@),
                    None => None,
                },
            },
        }
    }
}

/// The character of a decimal digit.
pub open spec fn digit(d: nat) -> char {
    if d == 0 {
        '0'
    } else if d == 1 {
        '1'
    } else if d == 2 {
        '2'
    } else if d == 3 {
        '3'
    } else if d == 4 {
        '4'
    } else if d == 5 {
        '5'
    } else if d == 6 {
        '6'
    } else if d == 7 {
        '7'
    } else if d == 8 {
        '8'
    } else {
        '9'
    }
}

/// The decimal numeral of a natural number, without leading zeros.
pub open spec fn decimal(n: nat) -> Seq<char>
    decreases n,
{
    if n < 10 {
        seq![digit(n)]
    } else {
        decimal(n / 10).push(digit(n % 10))
    }
}

/// The text of the failure to allocate a foreign array of `len` elements of
/// `kind`.
pub open spec fn allocation_failure_text(kind: Primitive, len: nat) -> Seq<char> {
    "failed to allocate `"@ + kind.name() + seq!['['] + decimal(len) + "]`"@
}

/// The text of the failure that a reply does not answer the call that was
/// made.
pub open spec fn unexpected_reply_text() -> Seq<char> {
    "the foreign side did not answer the call that was made"@
}

/// The text of the failure that the table of local references is full.
pub open spec fn local_exhausted_text() -> Seq<char> {
    "the table of local references is exhausted"@
}

/// The text of the failure that no global reference could be made.
pub open spec fn global_failed_text() -> Seq<char> {
    "failed to create a global reference"@
}

/// The text of the failure that the class with the descriptor `name` was
/// not found, though nothing was raised.
pub open spec fn class_not_found_text(name: Seq<char>) -> Seq<char> {
    "failed to find class `"@ + name + seq!['`']
}

fn digit_text(d: usize) -> (r: &'static str)
    requires
        d < 10,
    ensures
        r@ == seq![digit(d as nat)],
{
    proof {
        reveal_strlit("0");
        reveal_strlit("1");
        reveal_strlit("2");
        reveal_strlit("3");
        reveal_strlit("4");
        reveal_strlit("5");
        reveal_strlit("6");
        reveal_strlit("7");
        reveal_strlit("8");
        reveal_strlit("9");
    }
    let r = if d == 0 {
        "0"
    } else if d == 1 {
        "1"
    } else if d == 2 {
        "2"
    } else if d == 3 {
        "3"
    } else if d == 4 {
        "4"
    } else if d == 5 {
        "5"
    } else if d == 6 {
        "6"
    } else if d == 7 {
        "7"
    } else if d == 8 {
        "8"
    } else {
        "9"
    };
    assert(r@ =~= seq![digit(d as nat)]);
    r
}

/// Appends the decimal numeral of `n` to `text`.
pub fn push_decimal(text: &mut String, n: usize)
    ensures
        final(text)@ == old(text)@ + decimal(n as nat),
    decreases n,
{
    if n >= 10 {
        push_decimal(text, n / 10);
    }
    text.append(digit_text(n % 10));
    proof {
        if n >= 10 {
            assert(text@ =~= old(text)@ + decimal((n / 10) as nat).push(digit((n % 10) as nat)));
        } else {
            assert(text@ =~= old(text)@ + seq![digit(n as nat)]);
        }
    }
}

impl Error {
    /// The failure to allocate a foreign array of `len` elements of `kind`.
    pub fn allocation_failure(kind: Primitive, len: usize) -> (e: Error)
        ensures
            e@ == ErrorView::JvmInternal(allocation_failure_text(kind, len as nat)),
    {
        proof {
            reveal_strlit("[");
        }
        let mut text = String::from_str("failed to allocate `");
        text.append(kind.java_name());
        text.append("[");
        push_decimal(&mut text, len);
        text.append("]`");
        assert(text@ =~= allocation_failure_text(kind, len as nat));
        Error::JvmInternal(text)
    }

    /// The failure that the table of local references is full.
    pub fn local_exhausted() -> (e: Error)
        ensures
            e@ == ErrorView::JvmInternal(local_exhausted_text()),
    {
        Error::JvmInternal(String::from_str("the table of local references is exhausted"))
    }

    /// The failure that no global reference could be made.
    pub fn global_failed() -> (e: Error)
        ensures
            e@ == ErrorView::JvmInternal(global_failed_text()),
    {
        Error::JvmInternal(String::from_str("failed to create a global reference"))
    }

    /// The failure that the class with the descriptor `name` was not found,
    /// though nothing was raised.
    pub fn class_not_found(name: &str) -> (e: Error)
        ensures
            e@ == ErrorView::JvmInternal(class_not_found_text(name@)),
    {
        proof {
            reveal_strlit("`");
        }
        let mut text = String::from_str("failed to find class `");
        text.append(name);
        text.append("`");
        assert(text@ =~= class_not_found_text(name@));
        Error::JvmInternal(text)
    }

    /// The failure that a reply does not answer the call that was made.
    pub fn unexpected_reply() -> (e: Error)
        ensures
            e@ == ErrorView::JvmInternal(unexpected_reply_text()),
    {
        Error::JvmInternal(String::from_str("the foreign side did not answer the call that was made"))
    }
}

} // verus!
