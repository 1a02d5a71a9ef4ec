//! The schema projector: a resolved movie becomes the row that the store
//! takes, with each cast entry reduced to an unordered pair of texts.

use crate::resolve::{CastEntryView, ResolvedMovie, ResolvedMovieView};
use vstd::prelude::*;

verus! {

/// Two texts of which the store keeps no order: a cast member's name and
/// their role. Where both are the same text the pair holds one.
#[derive(Debug)]
pub struct UnorderedPair {
    one: String,
    other: String,
}

impl View for UnorderedPair {
    type V = Set<Seq<char>>;

    closed spec fn view(&self) -> Set<Seq<char>> {
        set![self.one@, self.other@]
    }
}

impl UnorderedPair {
    /// The pair of `one` and `other`.
    pub fn new(one: String, other: String) -> (out: UnorderedPair)
        ensures
            out@ == set![one@, other@],
    {
        UnorderedPair { one, other }
    }

    /// The two texts of the pair, in no order that means anything.
    pub fn members(&self) -> (out: (&String, &String))
        ensures
            self@ == set![out.0@, out.1@],
    {
        (&self.one, &self.other)
    }

    /// Whether `text` is one of the two.
    pub fn contains(&self, text: &str) -> (out: bool)
        ensures
            out == self@.contains(text@),
    {
        same_text(&self.one, text) || same_text(&self.other, text)
    }
}

/// One row of the store: a movie with its director's name and its cast.
#[derive(Debug)]
pub struct WriteRow {
    pub name: String,
    pub mid: i32,
    pub year: i32,
    /// The rank as the movie source writes it.
    pub rank: String,
    pub director: String,
    pub cast: Vec<UnorderedPair>,
}

/// A row as plain values.
pub struct WriteRowView {
    pub name: Seq<char>,
    pub mid: i32,
    pub year: i32,
    pub rank: Seq<char>,
    pub director: Seq<char>,
    pub cast: Seq<Set<Seq<char>>>,
}

/// The pairs of a row's cast as plain values.
pub open spec fn pairs_view(pairs: Seq<UnorderedPair>) -> Seq<Set<Seq<char>>> {
    Seq::new(pairs.len(), |i: int| pairs[i]@)
}

impl View for WriteRow {
    type V = WriteRowView;

    open spec fn view(&self) -> WriteRowView {
        WriteRowView {
            name: self.name@,
            mid: self.mid,
            year: self.year,
            rank: self.rank@,
            director: self.director@,
            cast: pairs_view(self.cast@),
        }
    }
}

/// The pair that stands for a cast entry: the person's name and the role.
pub open spec fn pair_of(entry: CastEntryView) -> Set<Seq<char>> {
    set![entry.person.name, entry.role]
}

/// `pair_of` as a function value.
pub open spec fn pair_maker() -> spec_fn(CastEntryView) -> Set<Seq<char>> {
    |entry: CastEntryView| pair_of(entry)
}

/// The row of a resolved movie. A movie without a director has none: it is
/// not written.
pub open spec fn row_of(resolved: ResolvedMovieView) -> Option<WriteRowView> {
    match resolved.director {
        Some(director) => Some(
            WriteRowView {
                name: resolved.movie.title,
                mid: resolved.movie.id,
                year: resolved.movie.year,
                rank: resolved.movie.rank,
                director,
                cast: resolved.cast.map_values(pair_maker()),
            },
        ),
        None => None,
    }
}

/// The row of a projection is the one that the model gives, or there is
/// none in either.
pub open spec fn same_row(out: Option<WriteRow>, model: Option<WriteRowView>) -> bool {
    match out {
        Some(row) => model == Some(row@),
        None => model is None,
    }
}

fn same_text(a: &String, b: &str) -> (out: bool)
    ensures
        out == (a@ == b@),
{
    let b = b.to_owned();
    *a == b
}

/// Projects a resolved movie to its row.
pub fn project(resolved: ResolvedMovie) -> (out: Option<WriteRow>)
    ensures
        same_row(out, row_of(resolved@)),
{
    let ResolvedMovie { movie, director, cast } = resolved;
    let director = match director {
        Some(director) => director,
        None => { return None; },
    };
    let mut pairs: Vec<UnorderedPair> = Vec::new();
    let mut i: usize = 0;
    while i < cast.len()
        invariant
            i <= cast.len(),
            pairs.len() == i,
            forall|k: int| 0 <= k < i ==> (#[trigger] pairs[k])@ == pair_of(cast[k]@),
        decreases cast.len() - i,
    {
        let entry = &cast[i];
        pairs.push(UnorderedPair::new(entry.person.name.clone(), entry.role.clone()));
        i = i + 1;
    }
    let row = WriteRow {
        name: movie.title,
        mid: movie.id,
        year: movie.year,
        rank: movie.rank,
        director,
        cast: pairs,
    };
    assert(row@.cast =~= resolved@.cast.map_values(pair_maker()));
    Some(row)
}

} // verus!
