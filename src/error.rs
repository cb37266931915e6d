//! Errors of bot registration, each tied to the bot it concerns.
use vstd::prelude::*;

verus! {

/// An error attributed to one bot.
pub struct BotError<E> {
    bot_id: String,
    inner: E,
}

impl<E> BotError<E> {
    /// The identity of the bot the error concerns.
    pub closed spec fn bot_id_view(&self) -> Seq<char> {
        self.bot_id@
    }

    /// The underlying error.
    pub closed spec fn inner_view(&self) -> E {
        self.inner
    }

    pub fn new(bot_id: String, error: E) -> (r: Self)
        ensures
            r.bot_id_view() == bot_id@,
            r.inner_view() == error,
    {
        BotError { bot_id, inner: error }
    }

    pub fn bot_id(&self) -> (r: &String)
        ensures
            r@ == self.bot_id_view(),
    {
        &self.bot_id
    }

    pub fn inner(&self) -> (r: &E)
        ensures
            *r == self.inner_view(),
    {
        &self.inner
    }

    /// Splits the error into the bot identity and the underlying error.
    pub fn into_parts(self) -> (r: (String, E))
        ensures
            r.0@ == self.bot_id_view(),
            r.1 == self.inner_view(),
    {
        (self.bot_id, self.inner)
    }
}

/// Why one bot could not be registered.
pub enum AddBotError {
    /// The token has no `:`-delimited identity prefix; holds the token.
    IdParse(String),
    /// The callback address built for the bot is not a URL.
    UrlParse(BotError<url::ParseError>),
    /// The webhook listener could not be set up.
    Listener(BotError<teloxide::RequestError>),
}

impl AddBotError {
    /// The bot identity the error concerns, or the raw token where none could be derived.
    pub fn subject(&self) -> (r: &String)
        ensures
            match self {
                AddBotError::IdParse(t) => r@ == t@,
                AddBotError::UrlParse(e) => r@ == e.bot_id_view(),
                AddBotError::Listener(e) => r@ == e.bot_id_view(),
            },
    {
        match self {
            AddBotError::IdParse(t) => t,
            AddBotError::UrlParse(e) => e.bot_id(),
            AddBotError::Listener(e) => e.bot_id(),
        }
    }
}

} // verus!
