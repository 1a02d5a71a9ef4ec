//! The loader: builds the reference data once, then takes the movie source
//! line by line and says for each line what is to be written.

use crate::cast::{cast_links_of, for_movie, CastLinkView, CastLinks};
use crate::index::{
    director_index_of, person_index_of, unknown_text, DirectorIndex, PersonIndex, PersonView,
};
use crate::links::{director_links_of, DirectorLink, DirectorLinks};
use crate::movie::{
    movie_of_line, pattern_compiles, MovieGrammar, MovieLineError, PatternError, MOVIE_PATTERN,
};
use crate::project::{project, row_of, WriteRow, WriteRowView};
use crate::records::{encoded_records, read_encoded_records, Record, RecordView};
use crate::resolve::{
    lemma_cast_complete, lemma_linked_director_resolves, lemma_unlinked_movie_has_no_director,
    resolve, resolved_of,
};
use std::collections::HashMap;
use vstd::prelude::*;

verus! {

broadcast use vstd::std_specs::hash::group_hash_axioms;

/// The field delimiter of the record sources: a comma.
pub const FIELD_DELIMITER: u8 = 0x2c;

/// The reference data that movies are resolved against.
pub struct References {
    pub directors: DirectorIndex,
    pub people: PersonIndex,
    pub director_links: DirectorLinks,
    pub cast_links: CastLinks,
}

/// The reference data as plain values.
pub struct ReferencesView {
    pub directors: Map<i32, Seq<char>>,
    pub people: Map<i32, PersonView>,
    pub director_links: Seq<DirectorLink>,
    pub cast_links: Seq<CastLinkView>,
}

impl View for References {
    type V = ReferencesView;

    open spec fn view(&self) -> ReferencesView {
        ReferencesView {
            directors: self.directors@,
            people: self.people@,
            director_links: self.director_links@,
            cast_links: self.cast_links@,
        }
    }
}

/// The reference data that the records and lines of the four sources give.
pub open spec fn references_of(
    directors: Seq<RecordView>,
    people: Seq<RecordView>,
    link_lines: Seq<Seq<char>>,
    cast: Seq<RecordView>,
) -> ReferencesView {
    ReferencesView {
        directors: director_index_of(directors),
        people: person_index_of(people),
        director_links: director_links_of(link_lines),
        cast_links: cast_links_of(cast),
    }
}

/// A source in the legacy encoding that could not be read as text.
#[derive(Clone, Copy, Debug, PartialEq, Eq, Structural)]
pub enum SourceError {
    Directors,
    People,
    Cast,
}

/// The reference data that the three encoded sources and the lines of the
/// movie-director source give, or the first encoded source, in the order
/// directors, people, cast, that yields no text.
pub open spec fn references_of_sources(
    directors: Seq<u8>,
    people: Seq<u8>,
    link_lines: Seq<Seq<char>>,
    cast: Seq<u8>,
) -> Result<ReferencesView, SourceError> {
    match encoded_records(directors, FIELD_DELIMITER) {
        None => Err(SourceError::Directors),
        Some(director_records) => match encoded_records(people, FIELD_DELIMITER) {
            None => Err(SourceError::People),
            Some(person_records) => match encoded_records(cast, FIELD_DELIMITER) {
                None => Err(SourceError::Cast),
                Some(cast_records) => Ok(
                    references_of(director_records, person_records, link_lines, cast_records),
                ),
            },
        },
    }
}

impl References {
    /// Builds the reference data from records and lines already read.
    pub fn build(
        directors: &Vec<Record>,
        people: &Vec<Record>,
        link_lines: &Vec<String>,
        cast: &Vec<Record>,
    ) -> (out: References)
        ensures
            out@ == references_of(
                directors.deep_view(),
                people.deep_view(),
                link_lines.deep_view(),
                cast.deep_view(),
            ),
    {
        References {
            directors: DirectorIndex::from_records(directors),
            people: PersonIndex::from_records(people),
            director_links: DirectorLinks::from_lines(link_lines),
            cast_links: CastLinks::from_records(cast),
        }
    }

    /// Builds the reference data from the bytes of the three sources in
    /// the legacy encoding and the lines of the movie-director source.
    pub fn from_sources(
        directors: &[u8],
        people: &[u8],
        link_lines: &Vec<String>,
        cast: &[u8],
    ) -> (out: Result<References, SourceError>)
        ensures
            match out {
                Ok(refs) => references_of_sources(
                    directors@,
                    people@,
                    link_lines.deep_view(),
                    cast@,
                ) == Ok::<ReferencesView, SourceError>(refs@),
                Err(e) => references_of_sources(
                    directors@,
                    people@,
                    link_lines.deep_view(),
                    cast@,
                ) == Err::<ReferencesView, SourceError>(e),
            },
    {
        let director_records = match read_encoded_records(directors, FIELD_DELIMITER) {
            Some(records) => records,
            None => { return Err(SourceError::Directors); },
        };
        let person_records = match read_encoded_records(people, FIELD_DELIMITER) {
            Some(records) => records,
            None => { return Err(SourceError::People); },
        };
        let cast_records = match read_encoded_records(cast, FIELD_DELIMITER) {
            Some(records) => records,
            None => { return Err(SourceError::Cast); },
        };
        Ok(References::build(&director_records, &person_records, link_lines, &cast_records))
    }
}

/// What the loader does with one line of the movie source.
#[derive(Debug)]
pub enum Step {
    /// The line is the header: nothing is written.
    Header,
    /// The line is a movie with a director: this row is written.
    Write(WriteRow),
    /// The line is a movie for which no director resolves: nothing is
    /// written.
    NoDirector,
    /// The line is no movie record.
    Reject(MovieLineError),
}

/// A step as plain values.
pub enum StepView {
    Header,
    Write(WriteRowView),
    NoDirector,
    Reject(MovieLineError),
}

impl View for Step {
    type V = StepView;

    open spec fn view(&self) -> StepView {
        match self {
            Step::Header => StepView::Header,
            Step::Write(row) => StepView::Write(row@),
            Step::NoDirector => StepView::NoDirector,
            Step::Reject(e) => StepView::Reject(*e),
        }
    }
}

/// The row that a line of the movie source leads to: the line parsed,
/// resolved against the reference data and projected. `None` where the
/// line is no movie record or no director resolves.
pub open spec fn row_of_line(refs: ReferencesView, line: Seq<char>) -> Option<WriteRowView> {
    match movie_of_line(line) {
        Ok(movie) => row_of(
            resolved_of(movie, refs.directors, refs.people, refs.director_links, refs.cast_links),
        ),
        Err(_) => None,
    }
}

/// What is done with a line: the first line that a loader sees is the
/// header; every later one is rejected, written, or passed over for want of
/// a director.
pub open spec fn step_of(refs: ReferencesView, started: bool, line: Seq<char>) -> StepView {
    if !started {
        StepView::Header
    } else {
        match movie_of_line(line) {
            Err(e) => StepView::Reject(e),
            Ok(_) => match row_of_line(refs, line) {
                Some(row) => StepView::Write(row),
                None => StepView::NoDirector,
            },
        }
    }
}

/// The titles by movie id after a line: a line that parses as a movie
/// enters its title under its id, every other line changes nothing.
pub open spec fn titles_after(titles: Map<i32, Seq<char>>, started: bool, line: Seq<char>) -> Map<
    i32,
    Seq<char>,
> {
    if !started {
        titles
    } else {
        match movie_of_line(line) {
            Ok(movie) => titles.insert(movie.id, movie.title),
            Err(_) => titles,
        }
    }
}

/// The loader's state between two lines of the movie source.
pub struct Loader {
    grammar: MovieGrammar,
    refs: References,
    titles: HashMap<i32, String>,
    started: bool,
}

impl Loader {
    /// The reference data that this loader resolves against.
    pub closed spec fn references(&self) -> ReferencesView {
        self.refs@
    }

    /// The titles of the movies parsed so far, by movie id.
    pub closed spec fn titles(&self) -> Map<i32, Seq<char>> {
        self.titles@.map_values(|title: String| title@)
    }

    /// Whether the header line has been seen.
    pub closed spec fn started(&self) -> bool {
        self.started
    }

    /// A loader over the given reference data that has seen no line yet.
    /// There is one exactly where the regex compiler takes `MOVIE_PATTERN`.
    pub fn new(refs: References) -> (out: Result<Loader, PatternError>)
        ensures
            out is Ok <==> pattern_compiles(MOVIE_PATTERN@, usize::BITS),
            out matches Ok(loader) ==> {
                &&& loader.references() == refs@
                &&& loader.titles() == Map::<i32, Seq<char>>::empty()
                &&& !loader.started()
            },
    {
        match MovieGrammar::new() {
            Ok(grammar) => Ok(Loader::with_grammar(refs, grammar)),
            Err(e) => Err(e),
        }
    }

    /// A loader over the given reference data, with the movie grammar
    /// already compiled, that has seen no line yet.
    pub fn with_grammar(refs: References, grammar: MovieGrammar) -> (out: Loader)
        ensures
            out.references() == refs@,
            out.titles() == Map::<i32, Seq<char>>::empty(),
            !out.started(),
    {
        let loader = Loader { grammar, refs, titles: HashMap::new(), started: false };
        assert(loader.titles() =~= Map::<i32, Seq<char>>::empty());
        loader
    }

    /// The title of the movie parsed under `id`, if any.
    pub fn title_of(&self, id: i32) -> (out: Option<&String>)
        ensures
            out.deep_view() == self.titles().get(id),
    {
        self.titles.get(&id)
    }

    /// Takes the next line of the movie source and says what is to be done
    /// with it.
    pub fn step(&mut self, line: &str) -> (out: Step)
        ensures
            out@ == step_of(old(self).references(), old(self).started(), line@),
            final(self).titles() == titles_after(old(self).titles(), old(self).started(), line@),
            final(self).references() == old(self).references(),
            final(self).started(),
    {
        if !self.started {
            self.started = true;
            return Step::Header;
        }
        let movie = match self.grammar.parse(line) {
            Ok(movie) => movie,
            Err(e) => { return Step::Reject(e); },
        };
        self.titles.insert(movie.id, movie.title.clone());
        assert(self.titles() =~= old(self).titles().insert(movie.id, movie.title@));
        let resolved = resolve(
            movie,
            &self.refs.directors,
            &self.refs.people,
            &self.refs.director_links,
            &self.refs.cast_links,
        );
        match project(resolved) {
            Some(row) => Step::Write(row),
            None => Step::NoDirector,
        }
    }

    /// Takes the lines of the movie source in order and gathers the rows to
    /// write. At a line that is no movie record the load stops or goes on,
    /// as `policy` says; either way the line is reported.
    pub fn load(&mut self, lines: &Vec<String>, policy: OnReject) -> (out: Outcome)
        ensures
            rows_view(out.rows@) == rows_of(
                old(self).references(),
                lines_taken(policy, movie_lines(old(self).started(), lines.deep_view())),
            ),
            out.rejected@ == rejections_of(
                lines_taken(policy, movie_lines(old(self).started(), lines.deep_view())),
                header_lines(old(self).started(), lines.deep_view()),
            ),
            final(self).titles() == titles_after_lines(
                old(self).titles(),
                lines_taken(policy, movie_lines(old(self).started(), lines.deep_view())),
            ),
            final(self).references() == old(self).references(),
            final(self).started() == (old(self).started() || lines.len() > 0),
    {
        let ghost refs = self.references();
        let ghost titles = self.titles();
        let ghost body = movie_lines(self.started, lines.deep_view());
        let mut rows: Vec<WriteRow> = Vec::new();
        let mut rejected: Vec<Rejection> = Vec::new();
        let mut i: usize = 0;
        if !self.started && lines.len() > 0 {
            let _ = self.step(lines[0].as_str());
            i = 1;
        }
        let offset: usize = i;
        assert(body =~= lines.deep_view().skip(offset as int));
        assert(body.take(0).filter_map(row_maker(refs)) =~= Seq::<WriteRowView>::empty());
        while i < lines.len()
            invariant
                offset <= i <= lines.len(),
                offset == header_lines(old(self).started(), lines.deep_view()),
                body == lines.deep_view().skip(offset as int),
                body == movie_lines(old(self).started(), lines.deep_view()),
                refs == old(self).references(),
                titles == old(self).titles(),
                self.references() == refs,
                self.started() == (old(self).started() || lines.len() > 0),
                policy == OnReject::Abort ==> forall|j: int|
                    0 <= j < i - offset ==> movie_of_line(#[trigger] body[j]) is Ok,
                rows_view(rows@) == rows_of(refs, body.take(i - offset)),
                rejected@ == rejections_of(body.take(i - offset), offset as int),
                self.titles() == titles_after_lines(titles, body.take(i - offset)),
            decreases lines.len() - i,
        {
            let ghost n = i - offset;
            proof {
                body.lemma_filter_map_take_succ(row_maker(refs), n);
                assert(body[n] == lines[i as int]@);
                assert(body.take(n + 1).drop_last() =~= body.take(n));
            }
            match self.step(lines[i].as_str()) {
                Step::Write(row) => {
                    assert(rows_view(rows@.push(row)) =~= rows_view(rows@).push(row@));
                    rows.push(row);
                },
                Step::Reject(error) => {
                    rejected.push(Rejection { line: i, error });
                    match policy {
                        OnReject::Abort => {
                            proof {
                                lemma_parsed_prefix(body, n);
                            }
                            return Outcome { rows, rejected };
                        },
                        OnReject::Skip => {},
                    }
                },
                _ => {},
            }
            i = i + 1;
        }
        proof {
            assert(body.take(body.len() as int) =~= body);
            if policy == OnReject::Abort {
                lemma_parsed_prefix(body, body.len() as int);
            }
        }
        Outcome { rows, rejected }
    }
}

/// What a load does at a line that is no movie record.
#[derive(Clone, Copy, Debug, PartialEq, Eq, Structural)]
pub enum OnReject {
    /// The load ends at that line.
    Abort,
    /// The line is passed over and the load goes on.
    Skip,
}

/// A line that is no movie record: its place, counted from the first line
/// given to the load, and what is wrong with it.
#[derive(Clone, Copy, Debug, PartialEq, Eq, Structural)]
pub struct Rejection {
    pub line: usize,
    pub error: MovieLineError,
}

/// What a load leaves to do: the rows to write, in source order, and the
/// lines it took that are no movie records.
#[derive(Debug)]
pub struct Outcome {
    pub rows: Vec<WriteRow>,
    pub rejected: Vec<Rejection>,
}

/// Rows as plain values.
pub open spec fn rows_view(rows: Seq<WriteRow>) -> Seq<WriteRowView> {
    Seq::new(rows.len(), |i: int| rows[i]@)
}

/// The number of lines that a loader takes for the header: one for a loader
/// that has seen none yet, if there is a line at all.
pub open spec fn header_lines(started: bool, lines: Seq<Seq<char>>) -> int {
    if started || lines.len() == 0 {
        0
    } else {
        1
    }
}

/// The lines that hold movies: all lines but the header.
pub open spec fn movie_lines(started: bool, lines: Seq<Seq<char>>) -> Seq<Seq<char>> {
    lines.skip(header_lines(started, lines))
}

/// The number of lines, from the first on, that are movie records: the
/// place of the first line that is none.
pub open spec fn parsed_prefix_len(lines: Seq<Seq<char>>) -> nat
    decreases lines.len(),
{
    if lines.len() == 0 || movie_of_line(lines[0]) is Err {
        0
    } else {
        1 + parsed_prefix_len(lines.drop_first())
    }
}

/// The movie lines that a load takes: all of them where it passes over what
/// is no movie record, else those up to and including the first that is
/// none.
pub open spec fn lines_taken(policy: OnReject, lines: Seq<Seq<char>>) -> Seq<Seq<char>> {
    match policy {
        OnReject::Skip => lines,
        OnReject::Abort => if parsed_prefix_len(lines) < lines.len() {
            lines.take(parsed_prefix_len(lines) as int + 1)
        } else {
            lines
        },
    }
}

/// `row_of_line` for fixed reference data, as a function value.
pub open spec fn row_maker(refs: ReferencesView) -> spec_fn(Seq<char>) -> Option<WriteRowView> {
    |line: Seq<char>| row_of_line(refs, line)
}

/// The rows that the movie lines lead to: one for each line that is a movie
/// with a director, in the lines' order.
pub open spec fn rows_of(refs: ReferencesView, lines: Seq<Seq<char>>) -> Seq<WriteRowView> {
    lines.filter_map(row_maker(refs))
}

/// The movie lines that are no movie records, in order, each with its place
/// where the first of the lines has the place `first`.
pub open spec fn rejections_of(lines: Seq<Seq<char>>, first: int) -> Seq<Rejection>
    decreases lines.len(),
{
    if lines.len() == 0 {
        Seq::empty()
    } else {
        let before = rejections_of(lines.drop_last(), first);
        match movie_of_line(lines.last()) {
            Err(error) => before.push(
                Rejection { line: (first + lines.len() - 1) as usize, error },
            ),
            Ok(_) => before,
        }
    }
}

/// The titles by movie id after a run of movie lines.
pub open spec fn titles_after_lines(titles: Map<i32, Seq<char>>, lines: Seq<Seq<char>>) -> Map<
    i32,
    Seq<char>,
>
    decreases lines.len(),
{
    if lines.len() == 0 {
        titles
    } else {
        titles_after(titles_after_lines(titles, lines.drop_last()), true, lines.last())
    }
}

/// `parsed_prefix_len` is the place of the first line that is no movie
/// record.
pub proof fn lemma_parsed_prefix(lines: Seq<Seq<char>>, n: int)
    requires
        0 <= n <= lines.len(),
        forall|j: int| 0 <= j < n ==> movie_of_line(#[trigger] lines[j]) is Ok,
        n == lines.len() || movie_of_line(lines[n]) is Err,
    ensures
        parsed_prefix_len(lines) == n,
    decreases n,
{
    if n > 0 {
        let rest = lines.drop_first();
        assert forall|j: int| 0 <= j < n - 1 implies movie_of_line(#[trigger] rest[j]) is Ok by {
            assert(rest[j] == lines[j + 1]);
        }
        lemma_parsed_prefix(rest, n - 1);
    }
}

/// A movie line whose movie has a link, the earliest of which names an
/// indexed director, is written, under that director's indexed name.
pub proof fn lemma_linked_movie_is_written(refs: ReferencesView, line: Seq<char>, at: int)
    requires
        movie_of_line(line) is Ok,
        0 <= at < refs.director_links.len(),
        refs.director_links[at].0 == movie_of_line(line)->Ok_0.id,
        forall|j: int|
            0 <= j < at ==> (#[trigger] refs.director_links[j]).0 != movie_of_line(line)->Ok_0.id,
        refs.directors.contains_key(refs.director_links[at].1),
    ensures
        step_of(refs, true, line) == StepView::Write(row_of_line(refs, line)->0),
        row_of_line(refs, line) matches Some(row) && row.director
            == refs.directors[refs.director_links[at].1],
{
    let movie = movie_of_line(line)->Ok_0;
    lemma_linked_director_resolves(refs.director_links, refs.directors, movie.id, at);
}

/// A movie line whose movie no link names is not written.
pub proof fn lemma_unlinked_movie_is_not_written(refs: ReferencesView, line: Seq<char>)
    requires
        movie_of_line(line) is Ok,
        forall|j: int|
            0 <= j < refs.director_links.len() ==> (#[trigger] refs.director_links[j]).0
                != movie_of_line(line)->Ok_0.id,
    ensures
        step_of(refs, true, line) == StepView::NoDirector,
        row_of_line(refs, line) is None,
{
    let movie = movie_of_line(line)->Ok_0;
    lemma_unlinked_movie_has_no_director(refs.director_links, refs.directors, movie.id);
}

/// The cast of a written row has one pair for each cast link of its movie,
/// in the links' order: the role with the indexed name of the link's person,
/// or with the unknown name where the index holds no such person.
pub proof fn lemma_written_cast_is_complete(refs: ReferencesView, line: Seq<char>)
    requires
        row_of_line(refs, line) is Some,
    ensures
        ({
            let row = row_of_line(refs, line)->0;
            let links = refs.cast_links.filter(for_movie(row.mid));
            &&& row.cast.len() == links.len()
            &&& forall|i: int|
                0 <= i < links.len() ==> #[trigger] row.cast[i] == set![
                    if refs.people.contains_key(links[i].person) {
                        refs.people[links[i].person].name
                    } else {
                        unknown_text()
                    },
                    links[i].role,
                ]
        }),
{
    let movie = movie_of_line(line)->Ok_0;
    lemma_cast_complete(refs.cast_links, refs.people, movie.id);
}

} // verus!
