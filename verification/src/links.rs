//! Links between movies and the people behind them: who directed a movie,
//! and who played in it. Both are sequences in source order, indexed by
//! movie id as they are built so that a lookup does not scan them.

use crate::text::{chars_of, int_of_text, parse_int_in};
use std::collections::HashMap;
use vstd::prelude::*;

verus! {

broadcast use vstd::std_specs::hash::group_hash_axioms;

/// A link from a movie to its director: movie id, then director id.
pub type DirectorLink = (i32, i32);

/// The director id of the first link for `movie`, if any link names that
/// movie. Later links for the same movie do not count.
pub open spec fn first_director(links: Seq<DirectorLink>, movie: i32) -> Option<i32>
    decreases links.len(),
{
    if links.len() == 0 {
        None
    } else {
        match first_director(links.drop_last(), movie) {
            Some(director) => Some(director),
            None => if links.last().0 == movie {
                Some(links.last().1)
            } else {
                None
            },
        }
    }
}

/// `first_director` is the director of the earliest link that names the
/// movie, and there is none exactly when no link names it.
pub proof fn lemma_first_director(links: Seq<DirectorLink>, movie: i32)
    ensures
        match first_director(links, movie) {
            Some(director) => exists|i: int|
                0 <= i < links.len() && #[trigger] links[i] == (movie, director) && forall|j: int|
                    0 <= j < i ==> (#[trigger] links[j]).0 != movie,
            None => forall|j: int| 0 <= j < links.len() ==> (#[trigger] links[j]).0 != movie,
        },
    decreases links.len(),
{
    if links.len() > 0 {
        let before = links.drop_last();
        lemma_first_director(before, movie);
        match first_director(before, movie) {
            Some(director) => {
                let i = choose|i: int|
                    0 <= i < before.len() && #[trigger] before[i] == (movie, director) && forall|
                        j: int,
                    |
                        0 <= j < i ==> (#[trigger] before[j]).0 != movie;
                assert(links[i] == (movie, director));
                assert forall|j: int| 0 <= j < i implies (#[trigger] links[j]).0 != movie by {
                    assert(links[j] == before[j]);
                }
            },
            None => {
                assert forall|j: int| 0 <= j < before.len() implies (#[trigger] links[j]).0
                    != movie by {
                    assert(links[j] == before[j]);
                }
                if links.last().0 == movie {
                    assert(links[links.len() - 1] == (movie, links.last().1));
                }
            },
        }
    }
}

/// The movie-director links in source order, with the first director of
/// each movie at hand.
pub struct DirectorLinks {
    first: HashMap<i32, i32>,
    links: Ghost<Seq<DirectorLink>>,
}

impl View for DirectorLinks {
    type V = Seq<DirectorLink>;

    closed spec fn view(&self) -> Seq<DirectorLink> {
        self.links@
    }
}

impl DirectorLinks {
    #[verifier::type_invariant]
    spec fn indexed(&self) -> bool {
        forall|movie: i32| #[trigger] self.first@.get(movie) == first_director(self.links@, movie)
    }

    /// No links.
    pub fn new() -> (out: DirectorLinks)
        ensures
            out@ == Seq::<DirectorLink>::empty(),
    {
        DirectorLinks { first: HashMap::new(), links: Ghost(Seq::empty()) }
    }

    /// Appends a link.
    pub fn push(&mut self, movie: i32, director: i32)
        ensures
            final(self)@ == old(self)@.push((movie, director)),
    {
        let mut taken = DirectorLinks::new();
        std::mem::swap(self, &mut taken);
        proof {
            use_type_invariant(&taken);
        }
        let DirectorLinks { mut first, links } = taken;
        let ghost after = links@.push((movie, director));
        assert(after.drop_last() =~= links@);
        let ghost old_first = first@;
        if !first.contains_key(&movie) {
            first.insert(movie, director);
        }
        assert forall|m: i32| #[trigger] first@.get(m) == first_director(after, m) by {
            assert(old_first.get(m) == first_director(links@, m));
        }
        *self = DirectorLinks { first, links: Ghost(after) };
    }

    /// The director id of the first link for `movie`.
    pub fn director_of(&self, movie: i32) -> (out: Option<i32>)
        ensures
            out == first_director(self@, movie),
    {
        proof {
            use_type_invariant(self);
            assert(self.first@.get(movie) == first_director(self.links@, movie));
        }
        match self.first.get(&movie) {
            Some(director) => Some(*director),
            None => None,
        }
    }

    /// Builds the links from the lines of the movie-director source. The
    /// first line is the header.
    pub fn from_lines(lines: &Vec<String>) -> (out: DirectorLinks)
        ensures
            out@ == director_links_of(lines.deep_view()),
    {
        let mut links = DirectorLinks::new();
        if lines.len() == 0 {
            return links;
        }
        let ghost body = lines.deep_view().drop_first();
        assert(body.take(0).filter_map(director_link_parser()) =~= Seq::<DirectorLink>::empty());
        let mut i: usize = 1;
        while i < lines.len()
            invariant
                1 <= i <= lines.len(),
                body == lines.deep_view().drop_first(),
                links@ == body.take(i - 1).filter_map(director_link_parser()),
            decreases lines.len() - i,
        {
            proof {
                body.lemma_filter_map_take_succ(director_link_parser(), i - 1);
                assert(body[i - 1] == lines[i as int]@);
            }
            match parse_director_link(lines[i].as_str()) {
                Some((movie, director)) => {
                    links.push(movie, director);
                },
                None => {},
            }
            i = i + 1;
        }
        assert(body.take(lines.len() - 1) =~= body);
        links
    }
}

/// The number of characters of `s` that stand before its first comma, or
/// the length of `s` if it holds no comma.
pub open spec fn field_len(s: Seq<char>) -> nat
    decreases s.len(),
{
    if s.len() == 0 || s[0] == ',' {
        0
    } else {
        1 + field_len(s.drop_first())
    }
}

/// `field_len(s)` is the place of the first comma.
pub proof fn lemma_field_len(s: Seq<char>, n: int)
    requires
        0 <= n <= s.len(),
        forall|j: int| 0 <= j < n ==> s[j] != ',',
        n == s.len() || s[n] == ',',
    ensures
        field_len(s) == n,
    decreases n,
{
    if n > 0 {
        let rest = s.drop_first();
        assert forall|j: int| 0 <= j < n - 1 implies rest[j] != ',' by {
            assert(rest[j] == s[j + 1]);
        }
        lemma_field_len(rest, n - 1);
    }
}

/// The link that a line of the movie-director source holds: the director id
/// in its first comma-separated field and the movie id in its second.
/// `None` where the line has no second field or one of the two is no
/// integer.
pub open spec fn director_link_of_line(line: Seq<char>) -> Option<DirectorLink> {
    let n = field_len(line) as int;
    if n >= line.len() {
        None
    } else {
        let rest = line.skip(n + 1);
        match (int_of_text(line.take(n)), int_of_text(rest.take(field_len(rest) as int))) {
            (Some(director), Some(movie)) => Some((movie, director)),
            _ => None,
        }
    }
}

/// `director_link_of_line` as a function value.
pub open spec fn director_link_parser() -> spec_fn(Seq<char>) -> Option<DirectorLink> {
    |line: Seq<char>| director_link_of_line(line)
}

/// The links that the lines of the movie-director source hold, in order.
/// The first line is the header and holds none; a line that holds no link
/// is passed over.
pub open spec fn director_links_of(lines: Seq<Seq<char>>) -> Seq<DirectorLink> {
    if lines.len() == 0 {
        Seq::empty()
    } else {
        lines.drop_first().filter_map(director_link_parser())
    }
}

/// The end of the comma-separated field that starts at `from`.
fn field_end(chars: &Vec<char>, from: usize) -> (end: usize)
    requires
        from <= chars.len(),
    ensures
        from <= end <= chars.len(),
        end - from == field_len(chars@.skip(from as int)),
{
    let mut i: usize = from;
    while i < chars.len() && chars[i] != ','
        invariant
            from <= i <= chars.len(),
            forall|j: int| from <= j < i ==> chars[j] != ',',
        decreases chars.len() - i,
    {
        i = i + 1;
    }
    proof {
        lemma_field_len(chars@.skip(from as int), i - from);
    }
    i
}

/// Reads the link that a line of the movie-director source holds.
pub fn parse_director_link(line: &str) -> (out: Option<DirectorLink>)
    ensures
        out == director_link_of_line(line@),
{
    let chars = chars_of(line);
    assert(chars@.skip(0) =~= line@);
    let n = field_end(&chars, 0);
    if n >= chars.len() {
        return None;
    }
    let m = field_end(&chars, n + 1);
    let ghost rest = line@.skip(n + 1);
    assert(chars@.subrange(0, n as int) =~= line@.take(n as int));
    assert(chars@.subrange(n + 1, m as int) =~= rest.take(field_len(rest) as int));
    let director = parse_int_in(&chars, 0, n);
    let movie = parse_int_in(&chars, n + 1, m);
    match (director, movie) {
        (Some(director), Some(movie)) => Some((movie, director)),
        _ => None,
    }
}

} // verus!
