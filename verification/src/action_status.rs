use vstd::prelude::*;

verus! {

/// The last error that a user action or a background task reported.
pub struct ActionStatus {
    error: Option<String>,
}

impl View for ActionStatus {
    type V = Option<Seq<char>>;

    closed spec fn view(&self) -> Option<Seq<char>> {
        match self.error {
            Some(e) => Some(e@),
            None => None,
        }
    }
}

impl ActionStatus {
    pub fn new(error: Option<String>) -> (r: Self)
        ensures
            r@ == (match error {
                Some(e) => Some(e@),
                None => None,
            }),
    {
        ActionStatus { error }
    }

    /// A user action replaces the error: its own error, or none when it succeeded.
    pub fn record_action(&mut self, result: Result<(), String>)
        ensures
            final(self)@ == (match result {
                Ok(_) => None,
                Err(e) => Some(e@),
            }),
    {
        self.error = match result {
            Ok(()) => None,
            Err(e) => Some(e),
        };
    }

    /// A background task only ever adds an error; success keeps the last one.
    pub fn record_background(&mut self, result: Result<(), String>)
        ensures
            final(self)@ == (match result {
                Ok(_) => old(self)@,
                Err(e) => Some(e@),
            }),
    {
        if let Err(error) = result {
            self.error = Some(error);
        }
    }

    /// The error, or `fallback` when there is none.
    pub fn message_or<'a>(&'a self, fallback: &'a str) -> (r: &'a str)
        ensures
            r@ == (match self@ {
                Some(e) => e,
                None => fallback@,
            }),
    {
        match &self.error {
            Some(e) => e.as_str(),
            None => fallback,
        }
    }

    pub fn error(&self) -> (r: Option<&str>)
        ensures
            match r {
                Some(e) => self@ == Some(e@),
                None => self@ is None,
            },
    {
        match &self.error {
            Some(e) => Some(e.as_str()),
            None => None,
        }
    }
}

} // verus!
