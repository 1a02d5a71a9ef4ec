//! The relationship resolver: for one movie, the name of its director and
//! the list of its cast, looked up through the links and the indices.

use crate::cast::{for_movie, members_as_links, CastLinkView, CastLinks, CastMember};
use crate::index::{unknown_person, DirectorIndex, Person, PersonIndex, PersonView};
use crate::links::{first_director, lemma_first_director, DirectorLink, DirectorLinks};
use crate::movie::{Movie, MovieView};
use vstd::prelude::*;

verus! {

/// One resolved member of a cast.
#[derive(Debug)]
pub struct CastEntry {
    pub person: Person,
    pub role: String,
}

/// A resolved cast member as plain values.
pub struct CastEntryView {
    pub person: PersonView,
    pub role: Seq<char>,
}

impl View for CastEntry {
    type V = CastEntryView;

    open spec fn view(&self) -> CastEntryView {
        CastEntryView { person: self.person@, role: self.role@ }
    }
}

/// The entries of a cast as plain values.
pub open spec fn cast_view(cast: Seq<CastEntry>) -> Seq<CastEntryView> {
    Seq::new(cast.len(), |i: int| cast[i]@)
}

/// A movie with its director's name and its cast.
#[derive(Debug)]
pub struct ResolvedMovie {
    pub movie: Movie,
    pub director: Option<String>,
    pub cast: Vec<CastEntry>,
}

/// A resolved movie as plain values.
pub struct ResolvedMovieView {
    pub movie: MovieView,
    pub director: Option<Seq<char>>,
    pub cast: Seq<CastEntryView>,
}

impl View for ResolvedMovie {
    type V = ResolvedMovieView;

    open spec fn view(&self) -> ResolvedMovieView {
        ResolvedMovieView {
            movie: self.movie@,
            director: self.director.deep_view(),
            cast: cast_view(self.cast@),
        }
    }
}

/// The name of a movie's director: the first link for the movie gives the
/// director id, the index gives the name. `None` where no link names the
/// movie or the index does not hold the director.
pub open spec fn director_name_of(
    links: Seq<DirectorLink>,
    directors: Map<i32, Seq<char>>,
    movie: i32,
) -> Option<Seq<char>> {
    match first_director(links, movie) {
        Some(director) => directors.get(director),
        None => None,
    }
}

/// What a cast link resolves to: the indexed person, or the unknown person
/// where the index holds none for the link's person id, with the link's
/// role.
pub open spec fn cast_entry_of(people: Map<i32, PersonView>, link: CastLinkView) -> CastEntryView {
    CastEntryView {
        person: if people.contains_key(link.person) {
            people[link.person]
        } else {
            unknown_person()
        },
        role: link.role,
    }
}

/// `cast_entry_of` for a fixed index, as a function value.
pub open spec fn cast_resolver(people: Map<i32, PersonView>) -> spec_fn(
    CastLinkView,
) -> CastEntryView {
    |link: CastLinkView| cast_entry_of(people, link)
}

/// The cast of a movie: every link for the movie, in source order, each
/// resolved through the person index.
pub open spec fn cast_of(
    links: Seq<CastLinkView>,
    people: Map<i32, PersonView>,
    movie: i32,
) -> Seq<CastEntryView> {
    links.filter(for_movie(movie)).map_values(cast_resolver(people))
}

/// A movie with what resolves for it.
pub open spec fn resolved_of(
    movie: MovieView,
    directors: Map<i32, Seq<char>>,
    people: Map<i32, PersonView>,
    director_links: Seq<DirectorLink>,
    cast_links: Seq<CastLinkView>,
) -> ResolvedMovieView {
    ResolvedMovieView {
        movie,
        director: director_name_of(director_links, directors, movie.id),
        cast: cast_of(cast_links, people, movie.id),
    }
}

/// Where the earliest link for a movie names a director that the index
/// holds, the movie resolves to that director's indexed name.
pub proof fn lemma_linked_director_resolves(
    links: Seq<DirectorLink>,
    directors: Map<i32, Seq<char>>,
    movie: i32,
    at: int,
)
    requires
        0 <= at < links.len(),
        links[at].0 == movie,
        forall|j: int| 0 <= j < at ==> (#[trigger] links[j]).0 != movie,
        directors.contains_key(links[at].1),
    ensures
        director_name_of(links, directors, movie) == Some(directors[links[at].1]),
{
    lemma_first_director(links, movie);
}

/// A movie that no link names resolves to no director.
pub proof fn lemma_unlinked_movie_has_no_director(
    links: Seq<DirectorLink>,
    directors: Map<i32, Seq<char>>,
    movie: i32,
)
    requires
        forall|j: int| 0 <= j < links.len() ==> (#[trigger] links[j]).0 != movie,
    ensures
        director_name_of(links, directors, movie) is None,
{
    lemma_first_director(links, movie);
}

/// A movie's cast has one entry for each link of the movie, in the links'
/// order. Each entry keeps its link's role; its person is the indexed one,
/// or the unknown person where the index holds none for the link's id.
pub proof fn lemma_cast_complete(
    links: Seq<CastLinkView>,
    people: Map<i32, PersonView>,
    movie: i32,
)
    ensures
        cast_of(links, people, movie).len() == links.filter(for_movie(movie)).len(),
        forall|i: int|
            0 <= i < links.filter(for_movie(movie)).len() ==> {
                let link = links.filter(for_movie(movie))[i];
                let entry = #[trigger] cast_of(links, people, movie)[i];
                &&& link.movie == movie
                &&& entry.role == link.role
                &&& people.contains_key(link.person) ==> entry.person == people[link.person]
                &&& !people.contains_key(link.person) ==> entry.person == unknown_person()
            },
{
    let mine = links.filter(for_movie(movie));
    assert forall|i: int| 0 <= i < mine.len() implies (#[trigger] mine[i]).movie == movie by {
        links.lemma_filter_pred(for_movie(movie), i);
    }
}

/// Resolves the director of `movie`.
pub fn resolve_director(movie: i32, links: &DirectorLinks, directors: &DirectorIndex) -> (out:
    Option<String>)
    ensures
        out.deep_view() == director_name_of(links@, directors@, movie),
{
    match links.director_of(movie) {
        Some(director) => match directors.get(director) {
            Some(name) => Some(name.clone()),
            None => None,
        },
        None => None,
    }
}

/// Resolves one cast member through the person index: the indexed person,
/// or the unknown person where the index holds none for the member's id.
pub fn resolve_member(member: &CastMember, people: &PersonIndex) -> (out: CastEntry)
    ensures
        out@ == (CastEntryView {
            person: if people@.contains_key(member.person) {
                people@[member.person]
            } else {
                unknown_person()
            },
            role: member.role@,
        }),
{
    let person = match people.get(member.person) {
        Some(person) => person.duplicate(),
        None => Person::unknown(),
    };
    CastEntry { person, role: member.role.clone() }
}

/// Resolves the cast of `movie`.
pub fn resolve_cast(movie: i32, links: &CastLinks, people: &PersonIndex) -> (out: Vec<CastEntry>)
    ensures
        cast_view(out@) == cast_of(links@, people@, movie),
{
    let mut cast: Vec<CastEntry> = Vec::new();
    let ghost mine = links@.filter(for_movie(movie));
    match links.members_of(movie) {
        Some(members) => {
            let mut i: usize = 0;
            while i < members.len()
                invariant
                    i <= members.len(),
                    members_as_links(members@, movie) == mine,
                    cast.len() == i,
                    forall|k: int|
                        0 <= k < i ==> (#[trigger] cast[k])@ == cast_entry_of(people@, mine[k]),
                decreases members.len() - i,
            {
                assert(mine[i as int] == CastLinkView {
                    movie,
                    person: members[i as int].person,
                    role: members[i as int].role@,
                });
                let entry = resolve_member(&members[i], people);
                cast.push(entry);
                i = i + 1;
            }
            assert(mine.len() == members.len());
        },
        None => {},
    }
    assert(cast_view(cast@) =~= mine.map_values(cast_resolver(people@)));
    cast
}

/// Resolves director and cast of a parsed movie.
pub fn resolve(
    movie: Movie,
    directors: &DirectorIndex,
    people: &PersonIndex,
    director_links: &DirectorLinks,
    cast_links: &CastLinks,
) -> (out: ResolvedMovie)
    ensures
        out@ == resolved_of(movie@, directors@, people@, director_links@, cast_links@),
{
    let director = resolve_director(movie.id, director_links, directors);
    let cast = resolve_cast(movie.id, cast_links, people);
    ResolvedMovie { movie, director, cast }
}

} // verus!
