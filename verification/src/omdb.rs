//! Titles of the movie database.

use crate::error::Error;
use crate::irc_string::{safe, IrcString};
use crate::links::same_text;
use vstd::prelude::*;

verus! {

/// A title as the database describes it.
pub struct RawMovie {
    pub title: String,
    pub plot: String,
    pub rated: String,
    pub released: String,
    pub runtime: String,
    pub genre: String,
    pub director: String,
    pub imdb_rating: String,
    pub imdb_votes: String,
    pub imdb_id: String,
    pub metascore: String,
}

/// A title, each text of it safe to send.
#[derive(Clone, Debug, PartialEq)]
pub struct Movie {
    pub title: IrcString,
    pub plot: IrcString,
    pub rated: IrcString,
    pub released: IrcString,
    pub runtime: IrcString,
    pub genre: IrcString,
    pub director: IrcString,
    pub imdb_rating: IrcString,
    pub imdb_votes: IrcString,
    pub imdb_id: IrcString,
    pub metascore: IrcString,
}

/// The kind of title that a search is limited to.
#[derive(Clone, Copy, Debug, PartialEq, Eq, Structural)]
pub enum Kind {
    Movie,
    Series,
}

impl Movie {
    /// The title with each text sanitized.
    pub fn from(movie: &RawMovie) -> (r: Movie)
        ensures
            r.title@ == safe(movie.title@),
            r.plot@ == safe(movie.plot@),
            r.rated@ == safe(movie.rated@),
            r.released@ == safe(movie.released@),
            r.runtime@ == safe(movie.runtime@),
            r.genre@ == safe(movie.genre@),
            r.director@ == safe(movie.director@),
            r.imdb_rating@ == safe(movie.imdb_rating@),
            r.imdb_votes@ == safe(movie.imdb_votes@),
            r.imdb_id@ == safe(movie.imdb_id@),
            r.metascore@ == safe(movie.metascore@),
    {
        Movie {
            title: IrcString::from(movie.title.as_str()),
            plot: IrcString::from(movie.plot.as_str()),
            rated: IrcString::from(movie.rated.as_str()),
            released: IrcString::from(movie.released.as_str()),
            runtime: IrcString::from(movie.runtime.as_str()),
            genre: IrcString::from(movie.genre.as_str()),
            director: IrcString::from(movie.director.as_str()),
            imdb_rating: IrcString::from(movie.imdb_rating.as_str()),
            imdb_votes: IrcString::from(movie.imdb_votes.as_str()),
            imdb_id: IrcString::from(movie.imdb_id.as_str()),
            metascore: IrcString::from(movie.metascore.as_str()),
        }
    }
}

/// The kind that a search for `kind` is limited to: `movie` and `series` are
/// known, any other text is an error.
pub fn search_kind(kind: &str) -> (r: Result<Kind, Error>)
    ensures
        kind@ == "movie"@ ==> r == Ok::<Kind, Error>(Kind::Movie),
        kind@ != "movie"@ && kind@ == "series"@ ==> r == Ok::<Kind, Error>(Kind::Series),
        kind@ != "movie"@ && kind@ != "series"@ ==> r == Err::<Kind, Error>(Error::UnknownType),
{
    if same_text(kind, "movie") {
        Ok(Kind::Movie)
    } else if same_text(kind, "series") {
        Ok(Kind::Series)
    } else {
        Err(Error::UnknownType)
    }
}

} // verus!
