//! Links between movies and their cast: one link per cast member, in source
//! order, indexed by movie id as they are built.

use crate::records::{Record, RecordView};
use crate::text::{int_of_text, parse_int};
use std::collections::HashMap;
use vstd::prelude::*;

verus! {

broadcast use vstd::std_specs::hash::group_hash_axioms;

/// One member of a movie's cast: who, and in which role.
#[derive(Debug)]
pub struct CastMember {
    pub person: i32,
    pub role: String,
}

/// A link from a movie to one member of its cast, as plain values.
pub struct CastLinkView {
    pub movie: i32,
    pub person: i32,
    pub role: Seq<char>,
}

/// The links that are about `movie`.
pub open spec fn for_movie(movie: i32) -> spec_fn(CastLinkView) -> bool {
    |link: CastLinkView| link.movie == movie
}

/// The members of one movie's cast as links of that movie.
pub open spec fn members_as_links(members: Seq<CastMember>, movie: i32) -> Seq<CastLinkView> {
    Seq::new(
        members.len(),
        |i: int| CastLinkView { movie, person: members[i].person, role: members[i].role@ },
    )
}

/// The link that a record of the movie-cast source holds: the person id in
/// its first field, the movie id in its second, the role in its third.
/// `None` for a record that is malformed, has fewer than three fields, or
/// in which one of the ids is no integer.
pub open spec fn cast_link_of_record(record: RecordView) -> Option<CastLinkView> {
    match record {
        Some(fields) => if fields.len() >= 3 {
            match (int_of_text(fields[0]), int_of_text(fields[1])) {
                (Some(person), Some(movie)) => Some(
                    CastLinkView { movie, person, role: fields[2] },
                ),
                _ => None,
            }
        } else {
            None
        },
        None => None,
    }
}

/// `cast_link_of_record` as a function value.
pub open spec fn cast_link_parser() -> spec_fn(RecordView) -> Option<CastLinkView> {
    |record: RecordView| cast_link_of_record(record)
}

/// The links that the records of the movie-cast source hold, in order. A
/// record that holds no link is passed over.
pub open spec fn cast_links_of(records: Seq<RecordView>) -> Seq<CastLinkView> {
    records.filter_map(cast_link_parser())
}

/// A movie id and a cast member as the link between them.
pub open spec fn link_view(link: Option<(i32, CastMember)>) -> Option<CastLinkView> {
    match link {
        Some((movie, member)) => Some(
            CastLinkView { movie, person: member.person, role: member.role@ },
        ),
        None => None,
    }
}

/// Reads the link that a record of the movie-cast source holds: the movie
/// id and the cast member.
pub fn read_cast_link(record: &Record) -> (out: Option<(i32, CastMember)>)
    ensures
        link_view(out) == cast_link_of_record(record.deep_view()),
{
    match record {
        Some(fields) => {
            if fields.len() >= 3 {
                assert(fields.deep_view()[0] == fields[0]@);
                assert(fields.deep_view()[1] == fields[1]@);
                assert(fields.deep_view()[2] == fields[2]@);
                let person = parse_int(fields[0].as_str());
                let movie = parse_int(fields[1].as_str());
                match (person, movie) {
                    (Some(person), Some(movie)) => Some(
                        (movie, CastMember { person, role: fields[2].clone() }),
                    ),
                    _ => None,
                }
            } else {
                None
            }
        },
        None => None,
    }
}

/// What the index holds for `movie`, as links.
pub open spec fn indexed_links(index: Map<i32, Vec<CastMember>>, movie: i32) -> Seq<CastLinkView> {
    if index.contains_key(movie) {
        members_as_links(index[movie]@, movie)
    } else {
        Seq::empty()
    }
}

/// The movie-cast links in source order, grouped by movie.
pub struct CastLinks {
    by_movie: HashMap<i32, Vec<CastMember>>,
    links: Ghost<Seq<CastLinkView>>,
}

impl View for CastLinks {
    type V = Seq<CastLinkView>;

    closed spec fn view(&self) -> Seq<CastLinkView> {
        self.links@
    }
}

impl CastLinks {
    #[verifier::type_invariant]
    spec fn grouped(&self) -> bool {
        forall|movie: i32| #[trigger]
            indexed_links(self.by_movie@, movie) == self.links@.filter(for_movie(movie))
    }

    /// No links.
    pub fn new() -> (out: CastLinks)
        ensures
            out@ == Seq::<CastLinkView>::empty(),
    {
        let ghost none = Seq::<CastLinkView>::empty();
        assert forall|movie: i32| none.filter(for_movie(movie)) == none by {
            reveal(Seq::filter);
        }
        CastLinks { by_movie: HashMap::new(), links: Ghost(none) }
    }

    /// Appends a link.
    pub fn push(&mut self, movie: i32, person: i32, role: String)
        ensures
            final(self)@ == old(self)@.push(CastLinkView { movie, person, role: role@ }),
    {
        let mut taken = CastLinks::new();
        std::mem::swap(self, &mut taken);
        proof {
            use_type_invariant(&taken);
        }
        let CastLinks { mut by_movie, links } = taken;
        let ghost link = CastLinkView { movie, person, role: role@ };
        let ghost after = links@.push(link);
        let ghost old_index = by_movie@;
        let mut members = match by_movie.remove(&movie) {
            Some(members) => members,
            None => Vec::new(),
        };
        assert(members_as_links(members@, movie) == indexed_links(old_index, movie));
        members.push(CastMember { person, role });
        by_movie.insert(movie, members);
        assert forall|m: i32| #[trigger]
            indexed_links(by_movie@, m) == after.filter(for_movie(m)) by {
            links@.lemma_filter_push(link, for_movie(m));
            assert(indexed_links(old_index, m) == links@.filter(for_movie(m)));
            if m == movie {
                assert(indexed_links(by_movie@, m) =~= indexed_links(old_index, m).push(link));
            }
        }
        *self = CastLinks { by_movie, links: Ghost(after) };
    }

    /// The cast of `movie` in source order; `None` where no link is about
    /// that movie.
    pub fn members_of(&self, movie: i32) -> (out: Option<&Vec<CastMember>>)
        ensures
            match out {
                Some(members) => members_as_links(members@, movie) == self@.filter(
                    for_movie(movie),
                ),
                None => self@.filter(for_movie(movie)) == Seq::<CastLinkView>::empty(),
            },
    {
        proof {
            use_type_invariant(self);
            assert(indexed_links(self.by_movie@, movie) == self.links@.filter(for_movie(movie)));
        }
        self.by_movie.get(&movie)
    }

    /// Builds the links from the records of the movie-cast source.
    pub fn from_records(records: &Vec<Record>) -> (out: CastLinks)
        ensures
            out@ == cast_links_of(records.deep_view()),
    {
        let mut links = CastLinks::new();
        let ghost all = records.deep_view();
        assert(all.take(0).filter_map(cast_link_parser()) =~= Seq::<CastLinkView>::empty());
        let mut i: usize = 0;
        while i < records.len()
            invariant
                i <= records.len(),
                all == records.deep_view(),
                links@ == all.take(i as int).filter_map(cast_link_parser()),
            decreases records.len() - i,
        {
            proof {
                all.lemma_filter_map_take_succ(cast_link_parser(), i as int);
                assert(all[i as int] == records[i as int].deep_view());
            }
            match read_cast_link(&records[i]) {
                Some((movie, member)) => {
                    links.push(movie, member.person, member.role);
                },
                None => {},
            }
            i = i + 1;
        }
        assert(all.take(records.len() as int) =~= all);
        links
    }
}

} // verus!
