use vstd::prelude::*;

verus! {

/// A failure raised while extracting data from a profile page, split by which
/// kind of record was being extracted. The message is the diagnostic payload.
#[derive(Debug)]
pub enum ScScrapingError {
    Citizen { message: String },
    Organization { message: String },
}

impl ScScrapingError {
    /// The message text carried by the error, whichever category it has.
    pub open spec fn msg(&self) -> Seq<char> {
        match self {
            ScScrapingError::Citizen { message } => message@,
            ScScrapingError::Organization { message } => message@,
        }
    }

    /// Builds a citizen-scoped error carrying the given message.
    pub fn citizen(message: &str) -> (r: Self)
        ensures
            r is Citizen,
            r.msg() == message@,
    {
        ScScrapingError::Citizen { message: message.to_owned() }
    }

    /// Builds an organization-scoped error carrying the given message.
    pub fn organization(message: &str) -> (r: Self)
        ensures
            r is Organization,
            r.msg() == message@,
    {
        ScScrapingError::Organization { message: message.to_owned() }
    }

    /// Hands out the message text, for logging by a caller.
    pub fn message_text(&self) -> (r: String)
        ensures
            r@ == self.msg(),
    {
        match self {
            ScScrapingError::Citizen { message } => message.clone(),
            ScScrapingError::Organization { message } => message.clone(),
        }
    }
}

} // verus!
