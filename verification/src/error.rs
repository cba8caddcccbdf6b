//! Shared error type.
//!
//! Two kinds of failure travel through the program: a plain message, and a RAS
//! failure whose code the dial state machine reacts to.

use vstd::prelude::*;

use crate::ras::RasFailure;
use crate::text;

verus! {

/// Error returned by every fallible function of this crate.
#[derive(Debug)]
pub enum Error {
    /// A plain message.
    Message(String),
    /// A RAS call that returned an error code.
    Ras(RasFailure),
}

impl Error {
    /// The text a log record or a console line shows for this error.
    pub open spec fn said(self) -> Seq<char> {
        match self {
            Error::Message(text) => text@,
            Error::Ras(failure) => failure.said(),
        }
    }

    /// The text of this error.
    pub fn message(&self) -> (text: String)
        ensures
            text@ == self.said(),
    {
        match self {
            Error::Message(text) => text.clone(),
            Error::Ras(failure) => failure.message(),
        }
    }
}

/// Builds an error from a plain message.
pub fn err(text: &str) -> (e: Error)
    ensures
        e is Message,
        e.said() == text@,
{
    Error::Message(text.to_owned())
}

/// Text of an error that carries a Win32 or RAS error code.
pub open spec fn os_text(context: Seq<char>, code: u32) -> Seq<char> {
    context + " failed with error code "@ + text::decimal(code as nat)
}

/// Builds an error that carries a Win32 or RAS error code.
pub fn os_err(context: &str, code: u32) -> (e: Error)
    ensures
        e is Message,
        e.said() == os_text(context@, code),
{
    let mut text = context.to_owned();
    text.append(" failed with error code ");
    text.append(text::number(code as u64).as_str());
    Error::Message(text)
}

/// `Ok` when a call of the system returned no error code, otherwise the error
/// that carries it.
pub fn checked(context: &str, rc: u32) -> (out: Result<(), Error>)
    ensures
        if rc == 0 {
            out is Ok
        } else {
            out matches Err(e) && e is Message && e.said() == os_text(context@, rc)
        },
{
    if rc != 0 {
        Err(os_err(context, rc))
    } else {
        Ok(())
    }
}

/// The error of a system call tells which call it was and the code that came back; there is
/// one exactly where the code is not zero.
pub proof fn an_error_tells_the_call_and_its_code(context: &str, rc: u32, out: Result<(), Error>)
    requires
        call_ensures(checked, (context, rc), out),
    ensures
        out is Ok <==> rc == 0,
        out matches Err(e) ==> e is Message && text::begins_with(e.said(), context@)
            && text::has_text(e.said(), text::decimal(rc as nat)),
{
    if rc != 0 {
        let said = os_text(context@, rc);
        let head = context@ + " failed with error code "@;
        let none = Seq::<char>::empty();
        assert(said == head + text::decimal(rc as nat) + none);
        text::lemma_stands_between(head, text::decimal(rc as nat), none);
        assert(said.subrange(0, context@.len() as int) == context@);
    }
}

/// A plain message is told as it is, and a RAS failure by its call and its code.
pub proof fn a_message_is_told_as_it_is(e: &Error, told: String, text: &str, plain: Error)
    requires
        call_ensures(Error::message, (e,), told),
        call_ensures(err, (text,), plain),
    ensures
        *e matches Error::Message(message) ==> told@ == message@,
        *e matches Error::Ras(failure) ==> text::begins_with(told@, failure.context@)
            && text::has_text(told@, text::decimal(failure.code as nat)),
        plain matches Error::Message(message) && message@ == text@,
{
    if let Error::Ras(failure) = *e {
        let head = failure.context@ + " returned error code "@;
        let none = Seq::<char>::empty();
        assert(told@ == head + text::decimal(failure.code as nat) + none);
        text::lemma_stands_between(head, text::decimal(failure.code as nat), none);
        assert(told@.subrange(0, failure.context@.len() as int) == failure.context@);
    }
}

} // verus!
