//! The user-registration use case and its error type: the error enum whose
//! variants carry the generated-style `error_code` metadata, the decision
//! logic of registration, and the uniform error response each failure maps
//! to.  The error texts a variant carries stand in for the underlying
//! error's formatted description.

use vstd::prelude::*;
use vstd::string::{StrSliceExecFns, StringExecFns};

use crate::body::{spec_body_json, ErrorResponseBody, SpecErrorResponseBody};
use crate::status::is_recognized_status;
use crate::text::str_eq;

verus! {

/// A user to register.
pub struct RegistrationUser {
    /// The requested user name.
    pub user_name: String,
    /// The requested password.
    pub password: String,
}

/// A login request body.
pub struct LoginRequestBody {
    /// The user name.
    pub user_name: String,
    /// The password.
    pub password: String,
}

/// A user-registration request body.
pub struct RegistrationUserRequestBody {
    /// The user name.
    pub user_name: String,
    /// The password.
    pub password: String,
}

/// A user-registration request body.
pub struct RegisterUserRequestBody {
    /// The user name.
    pub user_name: String,
    /// The password.
    pub password: String,
}

/// What can go wrong when registering a user.  Each variant declares
/// `error_code` metadata the same way the use-case-error generator reads
/// it; a data-carrying variant holds the formatted description of its
/// cause.
pub enum RegisterUserError {
    /// An unexpected error, with its description.
    Unexpected(String),
    /// A repository (database) error, with its description.
    Repository(String),
    /// The password is too weak.
    WeakPassword,
    /// The user name is already registered; carries the name.
    UserAlreadyExists(String),
}

/// Mathematical image of a [`RegisterUserError`].
pub ghost enum SpecRegisterUserError {
    Unexpected(Seq<char>),
    Repository(Seq<char>),
    WeakPassword,
    UserAlreadyExists(Seq<char>),
}

impl View for RegisterUserError {
    type V = SpecRegisterUserError;

    open spec fn view(&self) -> SpecRegisterUserError {
        match self {
            RegisterUserError::Unexpected(s) => SpecRegisterUserError::Unexpected(s@),
            RegisterUserError::Repository(s) => SpecRegisterUserError::Repository(s@),
            RegisterUserError::WeakPassword => SpecRegisterUserError::WeakPassword,
            RegisterUserError::UserAlreadyExists(s) => SpecRegisterUserError::UserAlreadyExists(s@),
        }
    }
}

impl RegisterUserError {
    /// The application error code declared for each variant.
    pub open spec fn spec_error_code(&self) -> u32 {
        match self {
            RegisterUserError::Unexpected(_) => 1000,
            RegisterUserError::Repository(_) => 1001,
            RegisterUserError::WeakPassword => 2000,
            RegisterUserError::UserAlreadyExists(_) => 2001,
        }
    }

    /// The HTTP status each variant maps to: internal errors are server
    /// errors, the two user-caused failures are bad requests.
    pub open spec fn spec_status_code(&self) -> u16 {
        match self {
            RegisterUserError::Unexpected(_) => 500,
            RegisterUserError::Repository(_) => 500,
            RegisterUserError::WeakPassword => 400,
            RegisterUserError::UserAlreadyExists(_) => 400,
        }
    }

    /// The formatted message of each variant.
    pub open spec fn spec_message(&self) -> Seq<char> {
        match self {
            RegisterUserError::Unexpected(s) => "Unexpected error: "@ + s@,
            RegisterUserError::Repository(s) => "Repository error: "@ + s@,
            RegisterUserError::WeakPassword => "Password is weak"@,
            RegisterUserError::UserAlreadyExists(s) => "User already exists: "@ + s@,
        }
    }

    /// The application error code of this error.
    pub fn error_code(&self) -> (r: u32)
        ensures
            r == self.spec_error_code(),
    {
        match self {
            RegisterUserError::Unexpected(_) => 1000,
            RegisterUserError::Repository(_) => 1001,
            RegisterUserError::WeakPassword => 2000,
            RegisterUserError::UserAlreadyExists(_) => 2001,
        }
    }

    /// The HTTP status code of this error; always a recognized status.
    pub fn status_code(&self) -> (r: u16)
        ensures
            r == self.spec_status_code(),
            is_recognized_status(r),
    {
        match self {
            RegisterUserError::Unexpected(_) => 500,
            RegisterUserError::Repository(_) => 500,
            RegisterUserError::WeakPassword => 400,
            RegisterUserError::UserAlreadyExists(_) => 400,
        }
    }

    /// The formatted message of this error.
    pub fn message(&self) -> (r: String)
        ensures
            r@ == self.spec_message(),
    {
        match self {
            RegisterUserError::Unexpected(s) => {
                let mut m = String::from_str("Unexpected error: ");
                m.append(s.as_str());
                m
            },
            RegisterUserError::Repository(s) => {
                let mut m = String::from_str("Repository error: ");
                m.append(s.as_str());
                m
            },
            RegisterUserError::WeakPassword => String::from_str("Password is weak"),
            RegisterUserError::UserAlreadyExists(s) => {
                let mut m = String::from_str("User already exists: ");
                m.append(s.as_str());
                m
            },
        }
    }

    /// The uniform error-response body this error maps to: its status, its
    /// error code, and its formatted message.
    pub fn error_response_body(&self) -> (r: ErrorResponseBody)
        ensures
            r@ == (SpecErrorResponseBody {
                status_code: self.spec_status_code(),
                error_code: Some(self.spec_error_code()),
                message: self.spec_message(),
            }),
    {
        let message = self.message();
        ErrorResponseBody::new(self.status_code(), Some(self.error_code()), message)
    }

    /// The serialized JSON body of the error response.
    pub fn error_response_json(&self) -> (r: String)
        ensures
            r@ == spec_body_json(
                SpecErrorResponseBody {
                    status_code: self.spec_status_code(),
                    error_code: Some(self.spec_error_code()),
                    message: self.spec_message(),
                },
            ),
    {
        let body = self.error_response_body();
        body.to_json()
    }
}

/// What registering a given user yields: a fixed set of user names drives
/// each failure, and every other name succeeds.
pub open spec fn spec_register_user(name: Seq<char>) -> Result<(), SpecRegisterUserError> {
    if name == "foo"@ {
        Err(
            SpecRegisterUserError::Unexpected(
                "an error was raised when validating the use name"@,
            ),
        )
    } else if name == "bar"@ {
        Err(
            SpecRegisterUserError::Repository(
                "an error was raised when registering the user to the database"@,
            ),
        )
    } else if name == "baz"@ {
        Err(SpecRegisterUserError::WeakPassword)
    } else if name == "qux"@ {
        Err(SpecRegisterUserError::UserAlreadyExists(name))
    } else {
        Ok(())
    }
}

/// Registers a user: the decision logic of the use case, free of I/O.
pub fn register_user(user: RegistrationUser) -> (r: Result<(), RegisterUserError>)
    ensures
        match r {
            Ok(_) => spec_register_user(user.user_name@) is Ok,
            Err(e) => spec_register_user(user.user_name@) == Err::<(), _>(e@),
        },
{
    if str_eq(user.user_name.as_str(), "foo") {
        Err(
            RegisterUserError::Unexpected(
                String::from_str("an error was raised when validating the use name"),
            ),
        )
    } else if str_eq(user.user_name.as_str(), "bar") {
        Err(
            RegisterUserError::Repository(
                String::from_str("an error was raised when registering the user to the database"),
            ),
        )
    } else if str_eq(user.user_name.as_str(), "baz") {
        Err(RegisterUserError::WeakPassword)
    } else if str_eq(user.user_name.as_str(), "qux") {
        Err(RegisterUserError::UserAlreadyExists(user.user_name))
    } else {
        Ok(())
    }
}

} // verus!
