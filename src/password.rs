use vstd::prelude::*;

verus! {

/// New passwords must have at least this many characters.
pub const MIN_PASSWORD_CHARS: u64 = 12;

/// New passwords must be shorter than this many characters.
pub const MAX_PASSWORD_CHARS: u64 = 128;

/// The change-password form.
#[derive(Debug)]
pub struct FormData {
    pub current_password: String,
    pub new_password: String,
    pub new_password_check: String,
}

#[derive(Debug, PartialEq, Eq, Structural)]
pub enum PasswordError {
    TooShort,
    TooLong,
}

impl PasswordError {
    pub fn message(&self) -> (r: String)
        ensures
            r@ == match self {
                PasswordError::TooShort => "The new password must be at least 12 characters."@,
                PasswordError::TooLong => "The new password must be shorter than 128 characters."@,
            },
    {
        match self {
            PasswordError::TooShort => String::from_str(
                "The new password must be at least 12 characters.",
            ),
            PasswordError::TooLong => String::from_str(
                "The new password must be shorter than 128 characters.",
            ),
        }
    }
}

/// Relies on `validator::HasLen::length` for `String`, which counts the
/// characters.
#[verifier::external_body]
fn char_length(s: &String) -> (r: u64)
    ensures
        r as nat == s@.len(),
{
    validator::HasLen::length(s)
}

/// Checks the length of a new password, in characters.
pub fn validate_password(password: &String) -> (r: Result<(), PasswordError>)
    ensures
        r == Err::<(), _>(PasswordError::TooShort) <==> password@.len() < MIN_PASSWORD_CHARS,
        r == Err::<(), _>(PasswordError::TooLong) <==> password@.len() >= MAX_PASSWORD_CHARS,
        r is Ok <==> MIN_PASSWORD_CHARS <= password@.len() < MAX_PASSWORD_CHARS,
{
    let n = char_length(password);
    if n < MIN_PASSWORD_CHARS {
        return Err(PasswordError::TooShort);
    }
    if n >= MAX_PASSWORD_CHARS {
        return Err(PasswordError::TooLong);
    }
    Ok(())
}

#[derive(Debug, PartialEq, Eq, Structural)]
pub enum PasswordChangeError {
    /// The two new passwords differ.
    Mismatch,
    /// The current password did not authenticate.
    IncorrectCurrentPassword,
    /// The new password has a bad length.
    Invalid(PasswordError),
}

impl PasswordChangeError {
    pub fn message(&self) -> (r: String)
        ensures
            self is Mismatch ==> r@
                == "You entered two different new passwords - the field values must match."@,
            self is IncorrectCurrentPassword ==> r@ == "The current password is incorrect."@,
            self matches PasswordChangeError::Invalid(e) ==> r@ == match e {
                PasswordError::TooShort => "The new password must be at least 12 characters."@,
                PasswordError::TooLong => "The new password must be shorter than 128 characters."@,
            },
    {
        match self {
            PasswordChangeError::Mismatch => String::from_str(
                "You entered two different new passwords - the field values must match.",
            ),
            PasswordChangeError::IncorrectCurrentPassword => String::from_str(
                "The current password is incorrect.",
            ),
            PasswordChangeError::Invalid(e) => e.message(),
        }
    }
}

/// Whether a password change may go ahead, given whether the current
/// password authenticated: the new passwords must match, then the current
/// one must be right, then the new one must have a valid length.
pub fn decide_password_change(form: &FormData, current_password_valid: bool) -> (r: Result<
    (),
    PasswordChangeError,
>)
    ensures
        form.new_password@ != form.new_password_check@ ==> r == Err::<(), _>(
            PasswordChangeError::Mismatch,
        ),
        form.new_password@ == form.new_password_check@ && !current_password_valid ==> r == Err::<
            (),
            _,
        >(PasswordChangeError::IncorrectCurrentPassword),
        form.new_password@ == form.new_password_check@ && current_password_valid ==> (r is Ok
            <==> MIN_PASSWORD_CHARS <= form.new_password@.len() < MAX_PASSWORD_CHARS),
        form.new_password@ == form.new_password_check@ && current_password_valid
            && form.new_password@.len() < MIN_PASSWORD_CHARS ==> r == Err::<(), _>(
            PasswordChangeError::Invalid(PasswordError::TooShort),
        ),
        form.new_password@ == form.new_password_check@ && current_password_valid
            && form.new_password@.len() >= MAX_PASSWORD_CHARS ==> r == Err::<(), _>(
            PasswordChangeError::Invalid(PasswordError::TooLong),
        ),
{
    if !form.new_password.eq(&form.new_password_check) {
        return Err(PasswordChangeError::Mismatch);
    }
    if !current_password_valid {
        return Err(PasswordChangeError::IncorrectCurrentPassword);
    }
    match validate_password(&form.new_password) {
        Ok(()) => Ok(()),
        Err(e) => Err(PasswordChangeError::Invalid(e)),
    }
}

} // verus!
