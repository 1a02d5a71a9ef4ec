use moviedb_loader::cast::{CastLinks, CastMember};
use moviedb_loader::index::{DirectorIndex, Person, PersonIndex};
use moviedb_loader::links::DirectorLinks;
use moviedb_loader::movie::Movie;
use moviedb_loader::project::{project, UnorderedPair};
use moviedb_loader::resolve::{
    resolve, resolve_cast, resolve_director, resolve_member, CastEntry, ResolvedMovie,
};

fn movie(id: i32, title: &str) -> Movie {
    Movie { id, title: title.to_string(), year: 2010, rank: "8.8".to_string(), qualifier: None }
}

fn people() -> PersonIndex {
    let mut index = PersonIndex::new();
    index.insert(77, Person { name: "Leo Caprio".to_string(), gender: "M".to_string() });
    index.insert(78, Person { name: "Ellen Page".to_string(), gender: "F".to_string() });
    index
}

fn summary(cast: &[CastEntry]) -> Vec<(String, String, String)> {
    cast.iter().map(|e| (e.person.name.clone(), e.person.gender.clone(), e.role.clone())).collect()
}

fn triple(a: &str, b: &str, c: &str) -> (String, String, String) {
    (a.to_string(), b.to_string(), c.to_string())
}

#[test]
fn linked_and_indexed_director_resolves_to_the_indexed_name() {
    let mut directors = DirectorIndex::new();
    directors.insert(12, "Jane Doe".to_string());
    let mut links = DirectorLinks::new();
    links.push(500, 12);
    assert_eq!(resolve_director(500, &links, &directors), Some("Jane Doe".to_string()));
}

#[test]
fn movie_without_link_has_no_director() {
    let mut directors = DirectorIndex::new();
    directors.insert(12, "Jane Doe".to_string());
    let mut links = DirectorLinks::new();
    links.push(501, 12);
    assert_eq!(resolve_director(500, &links, &directors), None);
    assert_eq!(resolve_director(500, &DirectorLinks::new(), &directors), None);
}

#[test]
fn director_missing_from_the_index_is_no_director() {
    let mut links = DirectorLinks::new();
    links.push(500, 12);
    assert_eq!(resolve_director(500, &links, &DirectorIndex::new()), None);
}

#[test]
fn only_the_first_link_is_looked_up() {
    let mut directors = DirectorIndex::new();
    directors.insert(13, "John Roe".to_string());
    let mut links = DirectorLinks::new();
    links.push(500, 12);
    links.push(500, 13);
    assert_eq!(resolve_director(500, &links, &directors), None);
    directors.insert(12, "Jane Doe".to_string());
    assert_eq!(resolve_director(500, &links, &directors), Some("Jane Doe".to_string()));
}

#[test]
fn cast_has_one_entry_per_link_in_order() {
    let mut links = CastLinks::new();
    links.push(500, 77, "Cobb".to_string());
    links.push(501, 78, "Juno".to_string());
    links.push(500, 78, "Ariadne".to_string());
    links.push(500, 99, "Extra".to_string());
    links.push(500, 77, "Cobb's shade".to_string());
    let cast = resolve_cast(500, &links, &people());
    assert_eq!(
        summary(&cast),
        vec![
            triple("Leo Caprio", "M", "Cobb"),
            triple("Ellen Page", "F", "Ariadne"),
            triple("unknown", "unknown", "Extra"),
            triple("Leo Caprio", "M", "Cobb's shade"),
        ]
    );
    assert_eq!(summary(&resolve_cast(501, &links, &people())), vec![triple("Ellen Page", "F", "Juno")]);
    assert_eq!(resolve_cast(502, &links, &people()).len(), 0);
}

#[test]
fn absent_person_becomes_unknown_with_the_role_kept() {
    let mut links = CastLinks::new();
    links.push(500, 77, "Protagonist".to_string());
    let cast = resolve_cast(500, &links, &PersonIndex::new());
    assert_eq!(summary(&cast), vec![triple("unknown", "unknown", "Protagonist")]);
    let entry = resolve_member(
        &CastMember { person: 1, role: "Lead".to_string() },
        &PersonIndex::new(),
    );
    assert_eq!(entry.person.name, "unknown");
    assert_eq!(entry.person.gender, "unknown");
    assert_eq!(entry.role, "Lead");
}

#[test]
fn resolve_joins_director_and_cast() {
    let mut directors = DirectorIndex::new();
    directors.insert(12, "Jane Doe".to_string());
    let mut director_links = DirectorLinks::new();
    director_links.push(500, 12);
    let mut cast_links = CastLinks::new();
    cast_links.push(500, 77, "Cobb".to_string());
    let resolved =
        resolve(movie(500, "Inception"), &directors, &people(), &director_links, &cast_links);
    assert_eq!(resolved.movie.id, 500);
    assert_eq!(resolved.movie.title, "Inception");
    assert_eq!(resolved.director, Some("Jane Doe".to_string()));
    assert_eq!(summary(&resolved.cast), vec![triple("Leo Caprio", "M", "Cobb")]);
    let unresolved =
        resolve(movie(501, "Other"), &directors, &people(), &director_links, &cast_links);
    assert_eq!(unresolved.director, None);
    assert_eq!(unresolved.cast.len(), 0);
}

#[test]
fn projection_keeps_the_columns() {
    let resolved = ResolvedMovie {
        movie: Movie {
            id: 500,
            title: "Inception".to_string(),
            year: 2010,
            rank: "8.8".to_string(),
            qualifier: Some("dropped".to_string()),
        },
        director: Some("Jane Doe".to_string()),
        cast: vec![
            CastEntry {
                person: Person { name: "Leo Caprio".to_string(), gender: "M".to_string() },
                role: "Cobb".to_string(),
            },
            CastEntry { person: Person::unknown(), role: "Protagonist".to_string() },
        ],
    };
    let row = project(resolved).unwrap();
    assert_eq!(row.name, "Inception");
    assert_eq!(row.mid, 500);
    assert_eq!(row.year, 2010);
    assert_eq!(row.rank, "8.8");
    assert_eq!(row.director, "Jane Doe");
    assert_eq!(row.cast.len(), 2);
    assert!(row.cast[0].contains("Leo Caprio"));
    assert!(row.cast[0].contains("Cobb"));
    assert!(!row.cast[0].contains("M"));
    assert!(row.cast[1].contains("unknown"));
    assert!(row.cast[1].contains("Protagonist"));
    assert!(!row.cast[1].contains("Cobb"));
}

#[test]
fn movie_without_director_has_no_row() {
    let resolved = ResolvedMovie { movie: movie(500, "Inception"), director: None, cast: vec![] };
    assert!(project(resolved).is_none());
}

#[test]
fn a_pair_holds_its_two_texts() {
    let pair = UnorderedPair::new("Leo Caprio".to_string(), "Cobb".to_string());
    assert!(pair.contains("Leo Caprio"));
    assert!(pair.contains("Cobb"));
    assert!(!pair.contains("Leo"));
    assert!(!pair.contains(""));
    let (a, b) = pair.members();
    let mut both = vec![a.clone(), b.clone()];
    both.sort();
    assert_eq!(both, vec!["Cobb".to_string(), "Leo Caprio".to_string()]);
    let same = UnorderedPair::new("Self".to_string(), "Self".to_string());
    assert!(same.contains("Self"));
}
