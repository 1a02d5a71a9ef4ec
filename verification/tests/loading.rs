use moviedb_loader::loader::{
    Loader, OnReject, References, Rejection, SourceError, Step, FIELD_DELIMITER,
};
use moviedb_loader::movie::{MovieGrammar, MovieLineError};
use moviedb_loader::project::WriteRow;
use moviedb_loader::records::Record;
use std::collections::BTreeMap;

fn fields(values: &[&str]) -> Record {
    Some(values.iter().map(|v| v.to_string()).collect())
}

fn lines(values: &[&str]) -> Vec<String> {
    values.iter().map(|v| v.to_string()).collect()
}

fn references() -> References {
    References::build(
        &vec![fields(&["12", "Jane", "Doe"]), fields(&["13", "John", "Roe"])],
        &vec![fields(&["77", "Leo", "Caprio", "M"])],
        &lines(&["did,mid", "12,500", "13,501", "99,503"]),
        &vec![
            fields(&["77", "500", "Cobb"]),
            fields(&["78", "500", "Ariadne"]),
            fields(&["77", "501", "Himself"]),
        ],
    )
}

fn loader() -> Loader {
    Loader::new(references()).unwrap()
}

fn cast_of(row: &WriteRow) -> Vec<Vec<String>> {
    row.cast
        .iter()
        .map(|pair| {
            let (a, b) = pair.members();
            let mut both = vec![a.clone(), b.clone()];
            both.sort();
            both.dedup();
            both
        })
        .collect()
}

fn pair(a: &str, b: &str) -> Vec<String> {
    let mut both = vec![a.to_string(), b.to_string()];
    both.sort();
    both.dedup();
    both
}

fn store(table: &mut BTreeMap<(String, i32), (i32, String, String, Vec<Vec<String>>)>, rows: &[WriteRow]) {
    for row in rows {
        table.insert(
            (row.name.clone(), row.mid),
            (row.year, row.rank.clone(), row.director.clone(), cast_of(row)),
        );
    }
}

#[test]
fn the_delimiter_is_a_comma() {
    assert_eq!(FIELD_DELIMITER, b',');
}

#[test]
fn movie_with_director_and_no_cast_is_written_with_empty_cast() {
    let refs = References::from_sources(
        b"id,first,last\n12,Jane,Doe\n",
        b"id,first,last,gender\n",
        &lines(&["did,mid", "12,500"]),
        b"pid,mid,role\n",
    )
    .unwrap();
    let mut loader = Loader::new(refs).unwrap();
    let outcome = loader.load(&lines(&["id,name,year,rank", "500,Inception,2010,8.8"]), OnReject::Abort);
    assert_eq!(outcome.rejected, vec![]);
    assert_eq!(outcome.rows.len(), 1);
    let row = &outcome.rows[0];
    assert_eq!(row.name, "Inception");
    assert_eq!(row.mid, 500);
    assert_eq!(row.year, 2010);
    assert_eq!(row.rank, "8.8");
    assert_eq!(row.rank.parse::<f32>().unwrap_or(0.0), 8.8);
    assert_eq!(row.director, "Jane Doe");
    assert_eq!(row.cast.len(), 0);
}

#[test]
fn movie_without_link_produces_no_row() {
    let refs = References::from_sources(
        b"id,first,last\n12,Jane,Doe\n",
        b"id,first,last,gender\n",
        &lines(&["did,mid", "12,499"]),
        b"pid,mid,role\n",
    )
    .unwrap();
    let mut loader = Loader::new(refs).unwrap();
    let outcome = loader.load(&lines(&["id,name,year,rank", "500,Inception,2010,8.8"]), OnReject::Abort);
    assert_eq!(outcome.rejected, vec![]);
    assert_eq!(outcome.rows.len(), 0);
    assert_eq!(loader.title_of(500), Some(&"Inception".to_string()));
}

#[test]
fn cast_member_absent_from_the_person_index_is_unknown() {
    let refs = References::from_sources(
        b"id,first,last\n12,Jane,Doe\n",
        b"id,first,last,gender\n1,Some,Body,F\n",
        &lines(&["did,mid", "12,500"]),
        b"pid,mid,role\n77,500,Protagonist\n",
    )
    .unwrap();
    let mut loader = Loader::new(refs).unwrap();
    let outcome = loader.load(&lines(&["id,name,year,rank", "500,Inception,2010,8.8"]), OnReject::Abort);
    assert_eq!(outcome.rows.len(), 1);
    assert_eq!(cast_of(&outcome.rows[0]), vec![pair("unknown", "Protagonist")]);
}

#[test]
fn non_numeric_rank_is_written_and_reads_as_zero() {
    let mut loader = loader();
    let outcome = loader.load(&lines(&["header", "500,Inception,2010,unrated"]), OnReject::Abort);
    assert_eq!(outcome.rejected, vec![]);
    assert_eq!(outcome.rows.len(), 1);
    assert_eq!(outcome.rows[0].rank, "unrated");
    assert_eq!(outcome.rows[0].rank.parse::<f32>().unwrap_or(0.0), 0.0);
}

#[test]
fn qualifier_does_not_reach_the_row() {
    let mut loader = loader();
    let outcome = loader.load(&lines(&["header", "501,Amélie (2001 release),2001,7.8"]), OnReject::Abort);
    assert_eq!(outcome.rows.len(), 1);
    assert_eq!(outcome.rows[0].name, "Amélie");
    assert_eq!(outcome.rows[0].year, 2001);
    assert_eq!(outcome.rows[0].director, "John Roe");
    assert_eq!(cast_of(&outcome.rows[0]), vec![pair("Leo Caprio", "Himself")]);
}

#[test]
fn first_line_is_the_header() {
    let mut loader = loader();
    assert!(matches!(loader.step("500,Inception,2010,8.8"), Step::Header));
    assert_eq!(loader.title_of(500), None);
    assert!(matches!(loader.step("500,Inception,2010,8.8"), Step::Write(_)));
    assert_eq!(loader.title_of(500), Some(&"Inception".to_string()));
}

#[test]
fn each_line_gets_its_step() {
    let mut loader = loader();
    assert!(matches!(loader.step("id,name,year,rank"), Step::Header));
    match loader.step("500,Inception,2010,8.8") {
        Step::Write(row) => {
            assert_eq!(row.mid, 500);
            assert_eq!(row.director, "Jane Doe");
            assert_eq!(cast_of(&row), vec![pair("Leo Caprio", "Cobb"), pair("unknown", "Ariadne")]);
        }
        other => panic!("expected a write, got {:?}", other),
    }
    assert!(matches!(loader.step("502,No Link,2011,5.0"), Step::NoDirector));
    assert!(matches!(loader.step("503,No Such Director,2011,5.0"), Step::NoDirector));
    assert!(matches!(loader.step("not a movie"), Step::Reject(MovieLineError::Format)));
    assert!(matches!(
        loader.step("99999999999,Too Big,2011,5.0"),
        Step::Reject(MovieLineError::Number)
    ));
    assert_eq!(loader.title_of(502), Some(&"No Link".to_string()));
    assert_eq!(loader.title_of(503), Some(&"No Such Director".to_string()));
    assert_eq!(loader.title_of(504), None);
}

#[test]
fn load_stops_at_the_first_line_that_is_no_movie() {
    let mut loader = loader();
    let outcome = loader.load(&lines(&[
        "id,name,year,rank",
        "500,Inception,2010,8.8",
        "502,No Link,2011,5.0",
        "garbage",
        "501,Amélie,2001,7.8",
    ]), OnReject::Abort);
    assert_eq!(outcome.rejected, vec![Rejection { line: 3, error: MovieLineError::Format }]);
    assert_eq!(outcome.rows.len(), 1);
    assert_eq!(outcome.rows[0].mid, 500);
    assert_eq!(loader.title_of(502), Some(&"No Link".to_string()));
    assert_eq!(loader.title_of(501), None);
}

#[test]
fn load_may_pass_over_lines_that_are_no_movies() {
    let mut loader = loader();
    let outcome = loader.load(
        &lines(&[
            "id,name,year,rank",
            "500,Inception,2010,8.8",
            "garbage",
            "502,No Link,2011,5.0",
            "99999999999,Too Big,2011,5.0",
            "501,Amélie,2001,7.8",
        ]),
        OnReject::Skip,
    );
    assert_eq!(
        outcome.rejected,
        vec![
            Rejection { line: 2, error: MovieLineError::Format },
            Rejection { line: 4, error: MovieLineError::Number },
        ]
    );
    let ids: Vec<i32> = outcome.rows.iter().map(|r| r.mid).collect();
    assert_eq!(ids, vec![500, 501]);
    assert_eq!(loader.title_of(502), Some(&"No Link".to_string()));
    assert_eq!(loader.title_of(501), Some(&"Amélie".to_string()));
}

#[test]
fn both_policies_agree_where_every_line_is_a_movie() {
    let source = lines(&["header", "500,Inception,2010,8.8", "501,Amélie,2001,7.8"]);
    let strict = loader().load(&source, OnReject::Abort);
    let lenient = loader().load(&source, OnReject::Skip);
    assert_eq!(strict.rejected, vec![]);
    assert_eq!(lenient.rejected, vec![]);
    let ids = |rows: &[WriteRow]| rows.iter().map(|r| r.mid).collect::<Vec<i32>>();
    assert_eq!(ids(&strict.rows), vec![500, 501]);
    assert_eq!(ids(&lenient.rows), vec![500, 501]);
}

#[test]
fn load_writes_one_row_per_movie_with_director_in_order() {
    let mut loader = loader();
    let outcome = loader.load(&lines(&[
        "id,name,year,rank",
        "501,Amélie,2001,7.8",
        "502,No Link,2011,5.0",
        "500,Inception,2010,8.8",
        "500,Inception,2010,8.9",
    ]), OnReject::Abort);
    assert_eq!(outcome.rejected, vec![]);
    let ids: Vec<(i32, String)> = outcome.rows.iter().map(|r| (r.mid, r.rank.clone())).collect();
    assert_eq!(
        ids,
        vec![(501, "7.8".to_string()), (500, "8.8".to_string()), (500, "8.9".to_string())]
    );
}

#[test]
fn load_of_nothing_writes_nothing() {
    let mut loader = loader();
    let outcome = loader.load(&lines(&[]), OnReject::Abort);
    assert_eq!(outcome.rows.len(), 0);
    assert_eq!(outcome.rejected, vec![]);
    let outcome = loader.load(&lines(&["header only"]), OnReject::Abort);
    assert_eq!(outcome.rows.len(), 0);
    assert_eq!(outcome.rejected, vec![]);
    let outcome = loader.load(&lines(&["500,Inception,2010,8.8"]), OnReject::Abort);
    assert_eq!(outcome.rows.len(), 1);
}

#[test]
fn a_started_loader_takes_every_line_as_a_movie() {
    let mut loader = loader();
    loader.load(&lines(&["header"]), OnReject::Abort);
    let outcome = loader.load(&lines(&["bad line", "500,Inception,2010,8.8"]), OnReject::Abort);
    assert_eq!(outcome.rejected, vec![Rejection { line: 0, error: MovieLineError::Format }]);
    assert_eq!(outcome.rows.len(), 0);
}

#[test]
fn loading_twice_leaves_the_same_table() {
    let source = lines(&[
        "id,name,year,rank",
        "500,Inception,2010,8.8",
        "501,Amélie (2001 release),2001,7.8",
        "502,No Link,2011,5.0",
        "500,Inception,2010,9.0",
    ]);
    let first = loader().load(&source, OnReject::Abort);
    let second = loader().load(&source, OnReject::Abort);
    assert_eq!(first.rows.len(), second.rows.len());
    let mut table = BTreeMap::new();
    store(&mut table, &first.rows);
    let once = table.clone();
    store(&mut table, &second.rows);
    assert_eq!(table, once);
    assert_eq!(table.len(), 2);
    assert_eq!(table[&("Inception".to_string(), 500)].1, "9.0");
}

#[test]
fn header_rows_of_the_sources_are_skipped() {
    let refs = References::from_sources(
        b"12,Jane,Doe\n13,John,Roe\n",
        b"77,Leo,Caprio,M\n78,Ellen,Page,F\n",
        &lines(&["12,500", "13,500"]),
        b"77,500,Cobb\n78,500,Ariadne\n",
    )
    .unwrap();
    assert_eq!(refs.directors.get(12), None);
    assert_eq!(refs.directors.get(13), Some(&"John Roe".to_string()));
    assert!(refs.people.get(77).is_none());
    assert!(refs.people.get(78).is_some());
    assert_eq!(refs.director_links.director_of(500), Some(13));
    assert_eq!(refs.cast_links.members_of(500).unwrap().len(), 1);
}

#[test]
fn sources_in_the_legacy_encoding_are_transcoded() {
    let refs = References::from_sources(
        b"id,first,last\n12,J\xF8rgen,Leth\n",
        b"id,first,last,gender\n77,Bj\xF6rk,Gu\xF0mundsd\xF3ttir,F\n",
        &lines(&["did,mid", "12,500"]),
        b"pid,mid,role\n77,500,Selma Je\xBCkov\xE1\n",
    )
    .unwrap();
    let mut loader = Loader::new(refs).unwrap();
    let outcome = loader.load(&lines(&["header", "500,Dancer in the Dark,2000,8.0"]), OnReject::Abort);
    assert_eq!(outcome.rows.len(), 1);
    assert_eq!(outcome.rows[0].director, "Jørgen Leth");
    assert_eq!(cast_of(&outcome.rows[0]), vec![pair("Björk Guðmundsdóttir", "Selma Ježková")]);
}

#[test]
fn source_errors_name_the_source() {
    assert_ne!(SourceError::Directors, SourceError::People);
    assert_ne!(SourceError::People, SourceError::Cast);
}

#[test]
fn a_loader_with_a_given_grammar_starts_fresh() {
    let grammar = MovieGrammar::new().unwrap();
    let mut loader = Loader::with_grammar(references(), grammar);
    assert_eq!(loader.title_of(500), None);
    assert!(matches!(loader.step("id,name,year,rank"), Step::Header));
    match loader.step("500,Inception,2010,8.8") {
        Step::Write(row) => {
            assert_eq!(row.mid, 500);
            assert_eq!(row.director, "Jane Doe");
        }
        other => panic!("expected a write, got {:?}", other),
    }
    assert_eq!(loader.title_of(500), Some(&"Inception".to_string()));
}
