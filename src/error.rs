//! Errors raised while building a hull from its measurements.
use vstd::prelude::*;
use vstd::string::*;

verus! {

/// What went wrong, with an optional chain of context messages around it.
#[derive(Debug)]
pub enum LapstrakeError {
    General(String),
    Load,
    Spline,
    Draw,
    Context { message: String, cause: Box<LapstrakeError> },
}

/// The text that describes an error: each context message, then what caused it.
pub open spec fn describe_text(e: LapstrakeError) -> Seq<char>
    decreases e,
{
    match e {
        LapstrakeError::General(message) => message@,
        LapstrakeError::Load => "Failed to load ship specification"@,
        LapstrakeError::Spline => "Spline error"@,
        LapstrakeError::Draw => "Failed to make 2d drawing"@,
        LapstrakeError::Context { message, cause } => message@ + "\n  caused by: "@
            + describe_text(*cause),
    }
}

impl LapstrakeError {
    /// The error at the bottom of the chain of context messages.
    pub open spec fn root(&self) -> LapstrakeError
        decreases self,
    {
        match self {
            LapstrakeError::Context { cause, .. } => cause.root(),
            _ => *self,
        }
    }

    /// Whether the bottom of the chain is a load error.
    pub open spec fn is_load(&self) -> bool {
        self.root() is Load
    }

    /// Wrap the error with a message providing more context about what went wrong.
    pub fn context(self, message: &str) -> (r: Self)
        ensures
            r matches LapstrakeError::Context { message: m, cause: c } && m@ == message@ && *c
                == self,
            r.root() == self.root(),
    {
        LapstrakeError::Context { message: message.to_owned(), cause: Box::new(self) }
    }

    /// Like `context()`, but the message is only built when asked for.
    pub fn with_context<T>(self, message_creator: T) -> (r: Self) where T: Fn() -> String
        requires
            message_creator.requires(()),
        ensures
            r matches LapstrakeError::Context { message: m, cause: c } && *c == self
                && message_creator.ensures((), m),
            r.root() == self.root(),
    {
        let message = message_creator();
        LapstrakeError::Context { message, cause: Box::new(self) }
    }

    /// A human-readable description of the error and its chain of causes.
    pub fn describe(&self) -> (r: String)
        ensures
            r@ == describe_text(*self),
        decreases self,
    {
        match self {
            LapstrakeError::General(message) => message.clone(),
            LapstrakeError::Load => String::from_str("Failed to load ship specification"),
            LapstrakeError::Spline => String::from_str("Spline error"),
            LapstrakeError::Draw => String::from_str("Failed to make 2d drawing"),
            LapstrakeError::Context { message, cause } => {
                let mut text = message.clone();
                text.append("\n  caused by: ");
                let inner = cause.describe();
                text.append(inner.as_str());
                text
            },
        }
    }
}

/// Adding context to the error of a `Result`.
pub trait ResultExt<T>: Sized {
    /// Wrap the error, if any, with a context message.
    fn context(self, message: &str) -> Result<T, LapstrakeError>;
}

impl<T> ResultExt<T> for Result<T, LapstrakeError> {
    fn context(self, message: &str) -> (r: Result<T, LapstrakeError>)
        ensures
            self is Ok ==> r == self,
            self is Err ==> (r matches Err(e) && e matches LapstrakeError::Context {
                message: m,
                cause: c,
            } && m@ == message@ && *c == self->Err_0),
    {
        match self {
            Ok(v) => Ok(v),
            Err(e) => Err(e.context(message)),
        }
    }
}

} // verus!
