use vstd::prelude::*;

verus! {

/// The least number of characters a nickname holds.
pub const MIN_NICKNAME_LEN: usize = 1;

/// The most characters a nickname may hold.
pub const MAX_NICKNAME_LEN: usize = 12;

#[derive(Debug, Clone, Copy, PartialEq, Eq)]
pub enum NicknameError {
    NicknameTooShort,
    NicknameTooLong,
}

impl NicknameError {
    /// The message that describes this error to a person.
    pub fn to_string(&self) -> String {
        match self {
            NicknameError::NicknameTooShort => "Nicknames must have at least one character".to_string(),
            NicknameError::NicknameTooLong => "Nicknames must not have more than 12 characters".to_string(),
        }
    }
}

/// A display name of one to twelve characters, kept exactly as given.
#[derive(Debug, Clone, PartialEq)]
pub struct Nickname {
    value: String,
}

impl View for Nickname {
    type V = Seq<char>;

    closed spec fn view(&self) -> Seq<char> {
        self.value@
    }
}

/// A character sequence that makes a valid nickname.
pub open spec fn valid_nickname(s: Seq<char>) -> bool {
    MIN_NICKNAME_LEN <= s.len() <= MAX_NICKNAME_LEN
}

impl Nickname {

    /// Validates `value` and wraps it; no trimming and no case folding.
    pub fn new(value: &str) -> (r: Result<Nickname, NicknameError>)
        ensures
            value@.len() == 0 <==> r == Err::<Nickname, NicknameError>(NicknameError::NicknameTooShort),
            value@.len() > MAX_NICKNAME_LEN <==> r == Err::<Nickname, NicknameError>(NicknameError::NicknameTooLong),
            r is Ok <==> valid_nickname(value@),
            r matches Ok(n) ==> n@ == value@,
    {
        let len = value.unicode_len();
        if len < MIN_NICKNAME_LEN {
            Err(NicknameError::NicknameTooShort)
        } else if len > MAX_NICKNAME_LEN {
            Err(NicknameError::NicknameTooLong)
        } else {
            Ok(Nickname { value: value.to_owned() })
        }
    }

    /// A copy of this nickname, equal to it in every field.
    pub fn duplicate(&self) -> (r: Nickname)
        ensures
            r == *self,
    {
        Nickname { value: self.value.clone() }
    }

    /// The characters of the nickname.
    pub fn to_string(&self) -> (r: String)
        ensures
            r@ == self@,
    {
        self.value.clone()
    }
}

} // verus!
