//! What can go wrong in a store operation, and how it is reported.
use vstd::prelude::*;
use crate::ctext::NulError;

verus! {

/// Why an operation returned no value.
#[derive(Debug)]
pub enum Error {
    /// An argument holds a NUL byte and cannot be handed to C.
    Nul(NulError),
    /// The C API reported this message.
    Nix(String),
    /// The store library could not be initialised; its message.
    InitFailed(String),
    /// A thread panicked while it held the lock on the store cache.
    CacheLock,
    /// Parsing a derivation gave a null pointer and no message.
    NullDerivation,
    /// Adding a derivation gave a null pointer and no message.
    NullDerivationPath,
}

/// The decimal digit for a number below ten.
pub open spec fn digit_char(n: nat) -> char {
    (('0' as nat) + n) as char
}

/// `n` in decimal notation, without leading zeros.
pub open spec fn decimal(n: nat) -> Seq<char>
    decreases n,
{
    if n < 10 {
        seq![digit_char(n)]
    } else {
        decimal(n / 10).push(digit_char(n % 10))
    }
}

impl Error {
    /// The text under which the error is reported.
    pub open spec fn text(self) -> Seq<char> {
        match self {
            Error::Nul(e) => "nul byte found in provided data at position: "@ + decimal(
                e.position as nat,
            ),
            Error::Nix(m) => m@,
            Error::InitFailed(m) => "nix_libstore_init error: "@ + m@,
            Error::CacheLock => "Failed to lock store cache. This should never happen."@,
            Error::NullDerivation => "derivation_from_json returned null"@,
            Error::NullDerivationPath => "add_derivation returned null"@,
        }
    }

    /// The text under which the error is reported.
    pub fn message(&self) -> (r: String)
        ensures
            r@ == self.text(),
    {
        match self {
            Error::Nul(e) => {
                let mut m = "nul byte found in provided data at position: ".to_owned();
                append_decimal(&mut m, e.position);
                m
            },
            Error::Nix(m) => m.clone(),
            Error::InitFailed(m) => {
                let mut r = "nix_libstore_init error: ".to_owned();
                r.append(m.as_str());
                r
            },
            Error::CacheLock => {
                "Failed to lock store cache. This should never happen.".to_owned()
            },
            Error::NullDerivation => "derivation_from_json returned null".to_owned(),
            Error::NullDerivationPath => "add_derivation returned null".to_owned(),
        }
    }
}

/// Puts `n` in decimal notation at the end of `text`.
fn append_decimal(text: &mut String, n: usize)
    ensures
        final(text)@ == old(text)@ + decimal(n as nat),
    decreases n,
{
    if n >= 10 {
        append_decimal(text, n / 10);
    }
    let digit = digit_str(n % 10);
    text.append(digit);
}

/// The decimal digit for a number below ten.
fn digit_str(n: usize) -> (r: &'static str)
    requires
        n < 10,
    ensures
        r@ == seq![digit_char(n as nat)],
{
    proof {
        reveal_strlit("0");
        reveal_strlit("1");
        reveal_strlit("2");
        reveal_strlit("3");
        reveal_strlit("4");
        reveal_strlit("5");
        reveal_strlit("6");
        reveal_strlit("7");
        reveal_strlit("8");
        reveal_strlit("9");
    }
    match n {
        0 => "0",
        1 => "1",
        2 => "2",
        3 => "3",
        4 => "4",
        5 => "5",
        6 => "6",
        7 => "7",
        8 => "8",
        _ => "9",
    }
}

/// Each error is reported under its own text, with the position or the message that it carries.
pub proof fn law_message(error: Error, r: String)
    requires
        call_ensures(Error::message, (&error,), r),
    ensures
        error matches Error::Nul(e) ==> r@ == "nul byte found in provided data at position: "@
            + decimal(e.position as nat),
        error matches Error::Nix(m) ==> r@ == m@,
        error matches Error::InitFailed(m) ==> r@ == "nix_libstore_init error: "@ + m@,
        error is CacheLock ==> r@ == "Failed to lock store cache. This should never happen."@,
        error is NullDerivation ==> r@ == "derivation_from_json returned null"@,
        error is NullDerivationPath ==> r@ == "add_derivation returned null"@,
{
}

/// Decimal notation: the last digit is the remainder by ten, the digits before it are the notation
/// of the quotient, and a number below ten has one digit.
pub proof fn law_decimal(n: nat)
    ensures
        decimal(n).len() > 0,
        decimal(n).last() as nat == 48 + n % 10,
        n < 10 ==> decimal(n).len() == 1,
        n >= 10 ==> decimal(n).drop_last() == decimal(n / 10),
{
}

} // verus!
