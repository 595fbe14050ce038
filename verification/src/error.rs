//! The error kinds that the library reports, and their texts.

use vstd::prelude::*;
use vstd::string::StringExecFns;

verus! {

/// Why an operation of the library failed.
#[derive(Debug, Clone, Copy, PartialEq, Eq, Structural)]
pub enum ErrorKind {
    /// A byte string ended early or a field of it could not be decoded.
    MalformedInput,
    /// A script does not follow the pay-to-public-key-hash template.
    MalformedScript,
    /// The spendable outputs do not cover the amount and the fee.
    InsufficientFunds { have: u64, need: u64 },
    /// The key-value backend reported a failure.
    StorageError,
    /// No nonce of the search space meets the target.
    MiningFailed,
    /// The keystore holds no key pair for the address.
    AddressNotFound,
    /// The bytes are not a secret key of the curve.
    InvalidSecretKey,
    /// The message is of a kind that is not read.
    UnsupportedMessage,
    /// The chain has no tip yet: no first block was stored.
    NotInitialized,
    /// A peer sent a message that the handshake does not allow.
    UnexpectedMessage,
}

/// The character of a decimal digit.
pub open spec fn digit_char(d: int) -> char {
    if d == 0 {
        '0'
    } else if d == 1 {
        '1'
    } else if d == 2 {
        '2'
    } else if d == 3 {
        '3'
    } else if d == 4 {
        '4'
    } else if d == 5 {
        '5'
    } else if d == 6 {
        '6'
    } else if d == 7 {
        '7'
    } else if d == 8 {
        '8'
    } else {
        '9'
    }
}

/// The decimal digits of a number, without leading zeros.
pub open spec fn spec_decimal(n: nat) -> Seq<char>
    decreases n,
{
    if n < 10 {
        seq![digit_char(n as int)]
    } else {
        spec_decimal(n / 10).push(digit_char((n % 10) as int))
    }
}

/// The text of one decimal digit.
fn digit_str(d: u64) -> (text: &'static str)
    requires
        d < 10,
    ensures
        text@ == seq![digit_char(d as int)],
{
    proof {
        reveal_strlit("0");
        reveal_strlit("1");
        reveal_strlit("2");
        reveal_strlit("3");
        reveal_strlit("4");
        reveal_strlit("5");
        reveal_strlit("6");
        reveal_strlit("7");
        reveal_strlit("8");
        reveal_strlit("9");
    }
    let text = if d == 0 {
        "0"
    } else if d == 1 {
        "1"
    } else if d == 2 {
        "2"
    } else if d == 3 {
        "3"
    } else if d == 4 {
        "4"
    } else if d == 5 {
        "5"
    } else if d == 6 {
        "6"
    } else if d == 7 {
        "7"
    } else if d == 8 {
        "8"
    } else {
        "9"
    };
    assert(text@ =~= seq![digit_char(d as int)]);
    text
}

/// The decimal digits of a number.
pub fn decimal(n: u64) -> (text: String)
    ensures
        text@ == spec_decimal(n as nat),
    decreases n,
{
    if n < 10 {
        String::from_str(digit_str(n))
    } else {
        let mut text = decimal(n / 10);
        text.append(digit_str(n % 10));
        assert(text@ =~= spec_decimal(n as nat));
        text
    }
}

impl ErrorKind {
    /// The text of the error.
    pub open spec fn spec_message(self) -> Seq<char> {
        match self {
            ErrorKind::MalformedInput => "Malformed input"@,
            ErrorKind::MalformedScript => "Malformed script"@,
            ErrorKind::InsufficientFunds { have, need } => "Insufficient funds: have "@
                + spec_decimal(have as nat) + ", need "@ + spec_decimal(need as nat),
            ErrorKind::StorageError => "Storage error"@,
            ErrorKind::MiningFailed => "Mining failed: no nonce meets the target"@,
            ErrorKind::AddressNotFound => "Address not found in keystore"@,
            ErrorKind::InvalidSecretKey => "Invalid secret key"@,
            ErrorKind::UnsupportedMessage => "Unsupported message type"@,
            ErrorKind::NotInitialized => "Blockchain not initialized"@,
            ErrorKind::UnexpectedMessage => "Unexpected message during handshake"@,
        }
    }

    /// The text of the error, for display.
    pub fn message(&self) -> (text: String)
        ensures
            text@ == self.spec_message(),
    {
        match self {
            ErrorKind::MalformedInput => String::from_str("Malformed input"),
            ErrorKind::MalformedScript => String::from_str("Malformed script"),
            ErrorKind::InsufficientFunds { have, need } => {
                let mut text = String::from_str("Insufficient funds: have ");
                let have_text = decimal(*have);
                text.append(have_text.as_str());
                text.append(", need ");
                let need_text = decimal(*need);
                text.append(need_text.as_str());
                text
            },
            ErrorKind::StorageError => String::from_str("Storage error"),
            ErrorKind::MiningFailed => String::from_str("Mining failed: no nonce meets the target"),
            ErrorKind::AddressNotFound => String::from_str("Address not found in keystore"),
            ErrorKind::InvalidSecretKey => String::from_str("Invalid secret key"),
            ErrorKind::UnsupportedMessage => String::from_str("Unsupported message type"),
            ErrorKind::NotInitialized => String::from_str("Blockchain not initialized"),
            ErrorKind::UnexpectedMessage => String::from_str("Unexpected message during handshake"),
        }
    }
}

} // verus!
