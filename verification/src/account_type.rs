//! The closed set of account kinds and their stored text form.

use vstd::prelude::*;
use crate::error::StoreError;

verus! {

/// The kind of an account.
#[allow(non_camel_case_types)]
#[derive(Clone, Copy, Debug, PartialEq, Eq, Structural)]
pub enum AccountType {
    CHEQUING,
    SAVINGS,
}

/// The text under which an account kind is stored.
pub open spec fn encode(kind: AccountType) -> Seq<char> {
    match kind {
        AccountType::CHEQUING => "CHEQUING"@,
        AccountType::SAVINGS => "SAVINGS"@,
    }
}

/// The account kind that a stored text stands for, if any.
pub open spec fn decode(text: Seq<char>) -> Option<AccountType> {
    if text == "CHEQUING"@ {
        Some(AccountType::CHEQUING)
    } else if text == "SAVINGS"@ {
        Some(AccountType::SAVINGS)
    } else {
        None
    }
}

/// Each kind has a text of its own: decoding what was encoded gives the kind
/// back, and a text decodes to a kind only if it is that kind's encoding.
pub proof fn lemma_encode_decode(kind: AccountType)
    ensures
        decode(encode(kind)) == Some(kind),
        forall|text: Seq<char>| decode(text) == Some(kind) <==> text == encode(kind),
{
    reveal_strlit("CHEQUING");
    reveal_strlit("SAVINGS");
    assert("CHEQUING"@.len() != "SAVINGS"@.len());
}

impl AccountType {
    /// The literal under which this kind is stored.
    pub fn to_sql(&self) -> (text: &'static str)
        ensures
            text@ == encode(*self),
            decode(text@) == Some(*self),
    {
        proof {
            lemma_encode_decode(*self);
        }
        match self {
            AccountType::CHEQUING => "CHEQUING",
            AccountType::SAVINGS => "SAVINGS",
        }
    }

    /// Reads a stored literal back. Any text but the two literals is refused,
    /// and the refusal carries the text.
    pub fn from_string(str: String) -> (r: Result<AccountType, StoreError>)
        ensures
            match r {
                Ok(kind) => decode(str@) == Some(kind),
                Err(StoreError::InvalidAccountType(text)) => decode(str@).is_none() && text@ == str@,
                Err(_) => false,
            },
    {
        if str == "CHEQUING".to_owned() {
            Ok(AccountType::CHEQUING)
        } else if str == "SAVINGS".to_owned() {
            Ok(AccountType::SAVINGS)
        } else {
            Err(StoreError::InvalidAccountType(str))
        }
    }
}

} // verus!
