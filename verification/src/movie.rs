//! The movie record parser: one line of the movie source becomes a `Movie`.
//!
//! The shape of a line is a regular expression, matched by the `regex` crate.
//! What the match yields is turned into a record by verified code.

use crate::text::{int_of_text, parse_int};
use vstd::prelude::*;

verus! {

/// `regex::Regex`, a compiled pattern. Nothing of its inside is known here.
#[verifier::external_type_specification]
#[verifier::external_body]
pub struct ExRegex(regex::Regex);

/// `regex::Error`, why a pattern did not compile. Nothing of its inside is
/// known here.
#[verifier::external_type_specification]
#[verifier::external_body]
pub struct ExRegexError(regex::Error);

/// The pattern text that a compiled `regex::Regex` was built from: what its
/// `as_str` returns.
pub uninterp spec fn pattern_of(re: regex::Regex) -> Seq<char>;

/// The regex was made by `regex::Regex::new`: with the settings that
/// `regex::RegexBuilder` starts from and none of its options changed.
pub uninterp spec fn built_plain(re: regex::Regex) -> bool;

/// Whether `regex::Regex::new` returns a regex for the pattern where
/// pointers are `word_bits` wide. The width counts because the compiler
/// refuses a pattern over a size limit, and it counts that size in the
/// size of its own states, which holds pointers.
pub uninterp spec fn pattern_compiles(pattern: Seq<char>, word_bits: u32) -> bool;

/// What `regex::Regex::captures` yields for a text, asked of a regex that
/// `regex::Regex::new` made of the pattern: `None` where the pattern matches
/// nowhere in the text, else the capture groups of the leftmost match, group
/// 0 (the whole match) first, each group the text it matched or `None` where
/// it took no part in the match.
pub uninterp spec fn regex_captures(pattern: Seq<char>, text: Seq<char>) -> Option<
    Seq<Option<Seq<char>>>,
>;

/// `regex::Regex::new`: compiles a pattern. Whether a regex comes back goes
/// by the pattern and the machine's pointer width alone. One that comes
/// back was built plainly from the pattern given, so that its `as_str` is
/// that pattern.
#[verifier::external_body]
fn compile(pattern: &str) -> (out: Result<regex::Regex, regex::Error>)
    ensures
        out is Ok <==> pattern_compiles(pattern@, usize::BITS),
        out matches Ok(re) ==> pattern_of(re) == pattern@ && built_plain(re),
{
    regex::Regex::new(pattern)
}

/// The message of a `regex::Error`, as its `Display` writes it. Nothing is
/// claimed about the text.
#[verifier::external_body]
fn describe(error: &regex::Error) -> String {
    error.to_string()
}

/// `regex::Regex::captures` on `text`, with `regex::Captures::iter` and
/// `regex::Match::as_str` to copy each group out as an owned string. Of a
/// regex that `regex::Regex::new` made, the result is what the regex's
/// pattern captures in the text; of one built with other options nothing
/// is claimed.
#[verifier::external_body]
fn captures(re: &regex::Regex, text: &str) -> (out: Option<Vec<Option<String>>>)
    requires
        built_plain(*re),
    ensures
        out.deep_view() == regex_captures(pattern_of(*re), text@),
{
    re.captures(text).map(|caps| caps.iter().map(|m| m.map(|g| g.as_str().to_string())).collect())
}

/// The shape of a movie line: `id,title,year,rank`, where the title may end
/// in ` (qualifier)`, or a ` (qualifier)` may stand directly before the year.
/// The title is free text that ends in a non-blank character and may hold
/// commas; the rank is whatever follows the year's comma.
pub const MOVIE_PATTERN: &'static str =
    r"^(\d+),(?:(.*\S) \((.*?)\),|(.*\S),(?: \((.*?)\))?)(\d+),(.*?)$";

/// Number of capture groups of `MOVIE_PATTERN`, the whole match included.
pub const MOVIE_GROUPS: usize = 8;

/// Why a movie line yields no record.
#[derive(Clone, Copy, Debug, PartialEq, Eq, Structural)]
pub enum MovieLineError {
    /// The line does not have the shape of a movie record.
    Format,
    /// The id or the year is no 32-bit decimal integer.
    Number,
}

/// One movie as its line gives it.
#[derive(Debug)]
pub struct Movie {
    pub id: i32,
    pub title: String,
    pub year: i32,
    /// The rank field as written. It is a number only if it reads as one.
    pub rank: String,
    pub qualifier: Option<String>,
}

/// A movie as plain values.
pub struct MovieView {
    pub id: i32,
    pub title: Seq<char>,
    pub year: i32,
    pub rank: Seq<char>,
    pub qualifier: Option<Seq<char>>,
}

impl View for Movie {
    type V = MovieView;

    open spec fn view(&self) -> MovieView {
        MovieView {
            id: self.id,
            title: self.title@,
            year: self.year,
            rank: self.rank@,
            qualifier: match self.qualifier {
                Some(q) => Some(q@),
                None => None,
            },
        }
    }
}

/// The capture groups have the layout that `MOVIE_PATTERN` gives a match:
/// id, then title and qualifier in one of the two places, year and rank.
pub open spec fn groups_complete(g: Seq<Option<Seq<char>>>) -> bool {
    &&& g.len() == MOVIE_GROUPS
    &&& g[1] is Some
    &&& g[2] is Some || g[4] is Some
    &&& g[6] is Some
    &&& g[7] is Some
}

/// The movie that the capture groups of a matched line describe.
pub open spec fn movie_of_groups(groups: Option<Seq<Option<Seq<char>>>>) -> Result<
    MovieView,
    MovieLineError,
> {
    match groups {
        None => Err(MovieLineError::Format),
        Some(g) => if !groups_complete(g) {
            Err(MovieLineError::Format)
        } else {
            match (int_of_text(g[1]->0), int_of_text(g[6]->0)) {
                (Some(id), Some(year)) => Ok(
                    MovieView {
                        id,
                        title: if g[2] is Some {
                            g[2]->0
                        } else {
                            g[4]->0
                        },
                        year,
                        rank: g[7]->0,
                        qualifier: if g[2] is Some {
                            g[3]
                        } else {
                            g[5]
                        },
                    },
                ),
                _ => Err(MovieLineError::Number),
            }
        },
    }
}

/// The rank field never rejects a line: where the capture groups make a
/// movie, they make the same movie with any other text in the rank's place,
/// and that text is the movie's rank as written.
pub proof fn lemma_rank_never_rejects(groups: Seq<Option<Seq<char>>>, rank: Seq<char>)
    requires
        movie_of_groups(Some(groups)) is Ok,
    ensures
        movie_of_groups(Some(groups.update(7, Some(rank)))) == Ok::<MovieView, MovieLineError>(
            MovieView { rank, ..movie_of_groups(Some(groups))->Ok_0 },
        ),
{
}

/// The movie that a line of the movie source describes.
pub open spec fn movie_of_line(line: Seq<char>) -> Result<MovieView, MovieLineError> {
    movie_of_groups(regex_captures(MOVIE_PATTERN@, line))
}

/// The result of a parse is the one that the model gives: the same movie,
/// or the same error.
pub open spec fn same_movie(out: Result<Movie, MovieLineError>, model: Result<
    MovieView,
    MovieLineError,
>) -> bool {
    match out {
        Ok(m) => model == Ok::<MovieView, MovieLineError>(m@),
        Err(e) => model == Err::<MovieView, MovieLineError>(e),
    }
}

fn copy_text(text: &Option<String>) -> (out: Option<String>)
    ensures
        out.deep_view() == text.deep_view(),
{
    match text {
        Some(s) => Some(s.clone()),
        None => None,
    }
}

/// Builds the movie from the capture groups of a line matched against
/// `MOVIE_PATTERN`. The rank is taken as written, whatever it holds.
pub fn movie_from_captures(groups: &Option<Vec<Option<String>>>) -> (out: Result<
    Movie,
    MovieLineError,
>)
    ensures
        same_movie(out, movie_of_groups(groups.deep_view())),
{
    let g = match groups {
        None => { return Err(MovieLineError::Format); },
        Some(g) => g,
    };
    let ghost gv = g.deep_view();
    assert(groups.deep_view() == Some(gv));
    assert(gv.len() == g.len());
    if g.len() != MOVIE_GROUPS {
        return Err(MovieLineError::Format);
    }
    assert(forall|i: int| 0 <= i < 8 ==> gv[i] == (#[trigger] g[i]).deep_view());
    let in_title = g[2].is_some();
    let (id_text, year_text, rank) = match (&g[1], &g[6], &g[7]) {
        (Some(a), Some(b), Some(c)) => (a, b, c),
        _ => { return Err(MovieLineError::Format); },
    };
    let title = match (&g[2], &g[4]) {
        (Some(t), _) => t,
        (None, Some(t)) => t,
        (None, None) => { return Err(MovieLineError::Format); },
    };
    assert(groups_complete(gv));
    let id = parse_int(id_text.as_str());
    let year = parse_int(year_text.as_str());
    match (id, year) {
        (Some(id), Some(year)) => {
            let qualifier = if in_title {
                copy_text(&g[3])
            } else {
                copy_text(&g[5])
            };
            Ok(Movie { id, title: title.clone(), year, rank: rank.clone(), qualifier })
        },
        _ => Err(MovieLineError::Number),
    }
}

/// Why the grammar could not be built: the regex compiler's message.
#[derive(Debug)]
pub struct PatternError {
    pub message: String,
}

/// The compiled grammar of the movie source.
pub struct MovieGrammar {
    re: regex::Regex,
}

impl MovieGrammar {
    #[verifier::type_invariant]
    spec fn holds_movie_pattern(&self) -> bool {
        pattern_of(self.re) == MOVIE_PATTERN@ && built_plain(self.re)
    }

    /// The pattern that this grammar matches lines against.
    pub closed spec fn pattern(&self) -> Seq<char> {
        pattern_of(self.re)
    }

    /// Compiles `MOVIE_PATTERN`. There is a grammar exactly where the regex
    /// compiler takes the pattern; else there is the compiler's message.
    pub fn new() -> (out: Result<MovieGrammar, PatternError>)
        ensures
            out is Ok <==> pattern_compiles(MOVIE_PATTERN@, usize::BITS),
            out matches Ok(grammar) ==> grammar.pattern() == MOVIE_PATTERN@,
    {
        MovieGrammar::from_compiled(compile(MOVIE_PATTERN))
    }

    /// Parses one line of the movie source.
    pub fn parse(&self, line: &str) -> (out: Result<Movie, MovieLineError>)
        ensures
            same_movie(out, movie_of_line(line@)),
    {
        proof {
            use_type_invariant(self);
        }
        let groups = captures(&self.re, line);
        movie_from_captures(&groups)
    }

    /// Makes the grammar of what `regex::Regex::new` returned. There is a
    /// grammar exactly where it returned a regex and that regex was built
    /// from `MOVIE_PATTERN`; else there is the compiler's message, or the
    /// word that the regex is of another pattern. A regex built with options
    /// of `regex::RegexBuilder` is not to be handed in.
    pub fn from_compiled(compiled: Result<regex::Regex, regex::Error>) -> (out: Result<
        MovieGrammar,
        PatternError,
    >)
        requires
            compiled matches Ok(re) ==> built_plain(re),
        ensures
            out is Ok <==> (compiled matches Ok(re) && pattern_of(re) == MOVIE_PATTERN@),
            out matches Ok(grammar) ==> grammar.pattern() == MOVIE_PATTERN@,
    {
        match compiled {
            Ok(re) => {
                let built = re.as_str().to_owned();
                let wanted = MOVIE_PATTERN.to_owned();
                if built == wanted {
                    Ok(MovieGrammar { re })
                } else {
                    Err(PatternError { message: "the regex is of another pattern".to_owned() })
                }
            },
            Err(cause) => Err(PatternError { message: describe(&cause) }),
        }
    }
}

/// `regex::Regex::as_str` returns the pattern text that the regex was built
/// from.
pub assume_specification<'a>[ regex::Regex::as_str ](re: &'a regex::Regex) -> (out: &'a str)
    ensures
        out@ == pattern_of(*re),
;

} // verus!
