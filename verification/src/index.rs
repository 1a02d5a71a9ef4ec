//! The reference index builder: director and person records become lookup
//! maps from id to name.

use crate::records::{Record, RecordView};
use crate::text::{int_of_text, parse_int};
use std::collections::HashMap;
use vstd::prelude::*;
use vstd::string::*;

verus! {

broadcast use vstd::std_specs::hash::group_hash_axioms;

/// A first and a last name joined by one space.
pub open spec fn full_name_of(first: Seq<char>, last: Seq<char>) -> Seq<char> {
    first + seq![' '] + last
}

/// Joins a first and a last name with one space.
pub fn full_name(first: &str, last: &str) -> (out: String)
    ensures
        out@ == full_name_of(first@, last@),
{
    let mut name = first.to_owned();
    name.append(" ");
    name.append(last);
    proof {
        reveal_strlit(" ");
        assert(" "@ =~= seq![' ']);
    }
    name
}

/// What a director record contributes to the index: the id in its first
/// field and the name made of its second and third. `None` for a record
/// that is malformed, has fewer than three fields, or whose id is no
/// integer.
pub open spec fn director_entry(record: RecordView) -> Option<(i32, Seq<char>)> {
    match record {
        Some(fields) => if fields.len() >= 3 {
            match int_of_text(fields[0]) {
                Some(id) => Some((id, full_name_of(fields[1], fields[2]))),
                None => None,
            }
        } else {
            None
        },
        None => None,
    }
}

/// The director index of a sequence of records: each well-formed record
/// maps its id to its name, a later record replacing an earlier one with the
/// same id.
pub open spec fn director_index_of(records: Seq<RecordView>) -> Map<i32, Seq<char>>
    decreases records.len(),
{
    if records.len() == 0 {
        Map::empty()
    } else {
        let before = director_index_of(records.drop_last());
        match director_entry(records.last()) {
            Some((id, name)) => before.insert(id, name),
            None => before,
        }
    }
}

/// Reads what a director record contributes to the index.
pub fn read_director(record: &Record) -> (out: Option<(i32, String)>)
    ensures
        out.deep_view() == director_entry(record.deep_view()),
{
    match record {
        Some(fields) => {
            if fields.len() >= 3 {
                assert(fields.deep_view()[0] == fields[0]@);
                assert(fields.deep_view()[1] == fields[1]@);
                assert(fields.deep_view()[2] == fields[2]@);
                match parse_int(fields[0].as_str()) {
                    Some(id) => Some((id, full_name(fields[1].as_str(), fields[2].as_str()))),
                    None => None,
                }
            } else {
                None
            }
        },
        None => None,
    }
}

/// Director names by director id.
pub struct DirectorIndex {
    names: HashMap<i32, String>,
}

impl View for DirectorIndex {
    type V = Map<i32, Seq<char>>;

    closed spec fn view(&self) -> Map<i32, Seq<char>> {
        self.names@.map_values(|name: String| name@)
    }
}

impl DirectorIndex {
    /// An index without entries.
    pub fn new() -> (out: DirectorIndex)
        ensures
            out@ == Map::<i32, Seq<char>>::empty(),
    {
        let out = DirectorIndex { names: HashMap::new() };
        assert(out@ =~= Map::<i32, Seq<char>>::empty());
        out
    }

    /// Enters a director, replacing any entry with the same id.
    pub fn insert(&mut self, id: i32, name: String)
        ensures
            final(self)@ == old(self)@.insert(id, name@),
    {
        self.names.insert(id, name);
        assert(self@ =~= old(self)@.insert(id, name@));
    }

    /// The name entered for `id`, if there is one.
    pub fn get(&self, id: i32) -> (out: Option<&String>)
        ensures
            match out {
                Some(name) => self@.contains_key(id) && self@[id] == name@,
                None => !self@.contains_key(id),
            },
    {
        self.names.get(&id)
    }

    /// Builds the index from the records of the director source.
    pub fn from_records(records: &Vec<Record>) -> (out: DirectorIndex)
        ensures
            out@ == director_index_of(records.deep_view()),
    {
        let mut index = DirectorIndex::new();
        let ghost all = records.deep_view();
        let mut i: usize = 0;
        while i < records.len()
            invariant
                i <= records.len(),
                all == records.deep_view(),
                index@ == director_index_of(all.take(i as int)),
            decreases records.len() - i,
        {
            let ghost upto = all.take(i + 1);
            assert(upto.drop_last() =~= all.take(i as int));
            assert(upto.last() == records[i as int].deep_view());
            match read_director(&records[i]) {
                Some((id, name)) => {
                    index.insert(id, name);
                },
                None => {},
            }
            i = i + 1;
        }
        assert(all.take(records.len() as int) =~= all);
        index
    }
}

/// A person as the cast of a movie shows them.
#[derive(Debug)]
pub struct Person {
    pub name: String,
    /// The gender field as the person source writes it.
    pub gender: String,
}

/// A person as plain values.
pub struct PersonView {
    pub name: Seq<char>,
    pub gender: Seq<char>,
}

impl View for Person {
    type V = PersonView;

    open spec fn view(&self) -> PersonView {
        PersonView { name: self.name@, gender: self.gender@ }
    }
}

/// The word that stands for a name or a gender that is not known.
pub open spec fn unknown_text() -> Seq<char> {
    seq!['u', 'n', 'k', 'n', 'o', 'w', 'n']
}

/// The person that stands in for a cast member whose id is in no index.
pub open spec fn unknown_person() -> PersonView {
    PersonView { name: unknown_text(), gender: unknown_text() }
}

impl Person {
    /// The placeholder for a person who cannot be resolved.
    pub fn unknown() -> (out: Person)
        ensures
            out@ == unknown_person(),
    {
        proof {
            reveal_strlit("unknown");
            assert("unknown"@ =~= unknown_text());
        }
        Person { name: "unknown".to_owned(), gender: "unknown".to_owned() }
    }

    /// A copy of this person.
    pub fn duplicate(&self) -> (out: Person)
        ensures
            out@ == self@,
    {
        Person { name: self.name.clone(), gender: self.gender.clone() }
    }
}

/// What a person record contributes to the index: the id in its first
/// field, the name made of its second and third, and the gender in its
/// fourth. `None` for a record that is malformed, has fewer than four
/// fields, or whose id is no integer.
pub open spec fn person_entry(record: RecordView) -> Option<(i32, PersonView)> {
    match record {
        Some(fields) => if fields.len() >= 4 {
            match int_of_text(fields[0]) {
                Some(id) => Some(
                    (id, PersonView { name: full_name_of(fields[1], fields[2]), gender: fields[3] }),
                ),
                None => None,
            }
        } else {
            None
        },
        None => None,
    }
}

/// The person index of a sequence of records: each well-formed record maps
/// its id to its person, a later record replacing an earlier one with the
/// same id.
pub open spec fn person_index_of(records: Seq<RecordView>) -> Map<i32, PersonView>
    decreases records.len(),
{
    if records.len() == 0 {
        Map::empty()
    } else {
        let before = person_index_of(records.drop_last());
        match person_entry(records.last()) {
            Some((id, person)) => before.insert(id, person),
            None => before,
        }
    }
}

/// A person entry as plain values.
pub open spec fn person_entry_view(entry: Option<(i32, Person)>) -> Option<(i32, PersonView)> {
    match entry {
        Some((id, person)) => Some((id, person@)),
        None => None,
    }
}

/// Reads what a person record contributes to the index.
pub fn read_person(record: &Record) -> (out: Option<(i32, Person)>)
    ensures
        person_entry_view(out) == person_entry(record.deep_view()),
{
    match record {
        Some(fields) => {
            if fields.len() >= 4 {
                assert(fields.deep_view()[0] == fields[0]@);
                assert(fields.deep_view()[1] == fields[1]@);
                assert(fields.deep_view()[2] == fields[2]@);
                assert(fields.deep_view()[3] == fields[3]@);
                match parse_int(fields[0].as_str()) {
                    Some(id) => {
                        let name = full_name(fields[1].as_str(), fields[2].as_str());
                        Some((id, Person { name, gender: fields[3].clone() }))
                    },
                    None => None,
                }
            } else {
                None
            }
        },
        None => None,
    }
}

/// Persons by person id.
pub struct PersonIndex {
    people: HashMap<i32, Person>,
}

impl View for PersonIndex {
    type V = Map<i32, PersonView>;

    closed spec fn view(&self) -> Map<i32, PersonView> {
        self.people@.map_values(|person: Person| person@)
    }
}

impl PersonIndex {
    /// An index without entries.
    pub fn new() -> (out: PersonIndex)
        ensures
            out@ == Map::<i32, PersonView>::empty(),
    {
        let out = PersonIndex { people: HashMap::new() };
        assert(out@ =~= Map::<i32, PersonView>::empty());
        out
    }

    /// Enters a person, replacing any entry with the same id.
    pub fn insert(&mut self, id: i32, person: Person)
        ensures
            final(self)@ == old(self)@.insert(id, person@),
    {
        self.people.insert(id, person);
        assert(self@ =~= old(self)@.insert(id, person@));
    }

    /// The person entered for `id`, if there is one.
    pub fn get(&self, id: i32) -> (out: Option<&Person>)
        ensures
            match out {
                Some(person) => self@.contains_key(id) && self@[id] == person@,
                None => !self@.contains_key(id),
            },
    {
        self.people.get(&id)
    }

    /// Builds the index from the records of the person source.
    pub fn from_records(records: &Vec<Record>) -> (out: PersonIndex)
        ensures
            out@ == person_index_of(records.deep_view()),
    {
        let mut index = PersonIndex::new();
        let ghost all = records.deep_view();
        let mut i: usize = 0;
        while i < records.len()
            invariant
                i <= records.len(),
                all == records.deep_view(),
                index@ == person_index_of(all.take(i as int)),
            decreases records.len() - i,
        {
            let ghost upto = all.take(i + 1);
            assert(upto.drop_last() =~= all.take(i as int));
            assert(upto.last() == records[i as int].deep_view());
            match read_person(&records[i]) {
                Some((id, person)) => {
                    index.insert(id, person);
                },
                None => {},
            }
            i = i + 1;
        }
        assert(all.take(records.len() as int) =~= all);
        index
    }
}

} // verus!
