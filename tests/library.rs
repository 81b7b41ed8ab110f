use tech_collector::collector::{check_status, merge_unique, search_results, CollectError, GitHubApiResponse, GitHubCollector};
use tech_collector::handlers::{default_page, default_per_page, health_check, list_repositories, list_response, ApiError, ListParams};
use tech_collector::models::{CollectedRepository, GitHubApiRepository};
use tech_collector::store::{page_offset, RepositoryDb, StoreError};

fn repo(id: i64, name: &str, stars: i32) -> CollectedRepository {
    CollectedRepository {
        github_id: id,
        name: name.to_string(),
        full_name: format!("owner/{}", name),
        description: Some(format!("about {}", name)),
        url: format!("https://github.com/owner/{}", name),
        stars,
        language: Some("Python".to_string()),
        topics: vec!["llm".to_string(), "ml".to_string()],
    }
}

fn api_item(id: i64, name: &str, stars: i32) -> GitHubApiRepository {
    GitHubApiRepository {
        id,
        name: name.to_string(),
        full_name: format!("owner/{}", name),
        description: None,
        html_url: format!("https://github.com/owner/{}", name),
        stargazers_count: stars,
        language: Some("Rust".to_string()),
        topics: vec!["transformer".to_string()],
        created_at: "2023-01-01T00:00:00Z".to_string(),
        updated_at: "2024-01-01T00:00:00Z".to_string(),
    }
}

#[test]
fn upsert_twice_keeps_one_row_and_created_at() {
    let mut table = RepositoryDb::new();
    let r = repo(7, "seven", 70);
    let first = table.upsert_repository(&r, 100).unwrap();
    let second = table.upsert_repository(&r, 200).unwrap();
    assert_eq!(first.id, second.id);
    assert_eq!(first.created_at, 100);
    assert_eq!(second.created_at, 100);
    assert_eq!(second.updated_at, 200);
    assert_eq!(second.collected_at, 200);
    assert!(second.updated_at > first.updated_at);
    let (rows, total) = table.list(1, 20).unwrap();
    assert_eq!(total, 1);
    assert_eq!(rows.len(), 1);
    assert_eq!(rows[0].name, "seven");
    assert_eq!(rows[0].created_at, 100);
}

#[test]
fn same_source_keeps_second_stars() {
    let mut table = RepositoryDb::new();
    table.upsert_repository(&repo(5, "five", 10), 1).unwrap();
    table.upsert_repository(&repo(5, "five", 99), 2).unwrap();
    let (rows, total) = table.list(1, 20).unwrap();
    assert_eq!(total, 1);
    assert_eq!(rows.len(), 1);
    assert_eq!(rows[0].stars, 99);
    assert_eq!(rows[0].github_id, 5);
}

#[test]
fn duplicate_id_across_queries_appears_once() {
    let collector = GitHubCollector::new("secret".to_string());
    let pages = vec![
        GitHubApiResponse { items: vec![api_item(42, "answer", 1), api_item(1, "one", 5)], total_count: 2 },
        GitHubApiResponse { items: vec![api_item(2, "two", 3), api_item(42, "answer-later", 9)], total_count: 2 },
    ];
    let merged = collector.search_ml_repositories(&pages);
    assert_eq!(merged.len(), 3);
    let found: Vec<&CollectedRepository> = merged.iter().filter(|r| r.github_id == 42).collect();
    assert_eq!(found.len(), 1);
    assert_eq!(found[0].name, "answer-later");
    assert_eq!(found[0].stars, 9);
}

#[test]
fn merge_keeps_last_values() {
    let merged = merge_unique(&vec![repo(3, "a", 1), repo(4, "b", 2), repo(3, "c", 3)]);
    assert_eq!(merged.len(), 2);
    let three = merged.iter().find(|r| r.github_id == 3).unwrap();
    assert_eq!(three.name, "c");
    assert_eq!(three.stars, 3);
    let four = merged.iter().find(|r| r.github_id == 4).unwrap();
    assert_eq!(four.name, "b");
}

#[test]
fn merge_of_nothing_is_empty() {
    assert!(merge_unique(&Vec::new()).is_empty());
}

#[test]
fn second_page_holds_remaining_five() {
    let mut table = RepositoryDb::new();
    for i in 0..25i64 {
        table.upsert_repository(&repo(i + 1, &format!("r{}", i), 10), 1000 + i).unwrap();
    }
    let (rows, total) = table.list(2, 20).unwrap();
    assert_eq!(total, 25);
    assert_eq!(rows.len(), 5);
    // newest first: the last five pages hold the five oldest
    let ids: Vec<i64> = rows.iter().map(|r| r.github_id).collect();
    assert_eq!(ids, vec![5, 4, 3, 2, 1]);
    let (third, total3) = table.list(3, 20).unwrap();
    assert!(third.is_empty());
    assert_eq!(total3, 25);
}

#[test]
fn equal_collection_time_ordered_by_stars() {
    let mut table = RepositoryDb::new();
    table.upsert_repository(&repo(1, "few", 3), 50).unwrap();
    table.upsert_repository(&repo(2, "many", 300), 50).unwrap();
    table.upsert_repository(&repo(3, "mid", 30), 50).unwrap();
    table.upsert_repository(&repo(4, "newest", 1), 60).unwrap();
    let (rows, _) = table.list(1, 20).unwrap();
    let names: Vec<&str> = rows.iter().map(|r| r.name.as_str()).collect();
    assert_eq!(names, vec!["newest", "many", "mid", "few"]);
}

#[test]
fn renamed_repository_listed_once() {
    let mut table = RepositoryDb::new();
    table.upsert_repositories(&vec![repo(1, "a", 10)], 10);
    table.upsert_repositories(&vec![repo(1, "a-renamed", 15)], 20);
    let (rows, total) = table.list(1, 20).unwrap();
    assert_eq!(total, 1);
    assert_eq!(rows.len(), 1);
    assert_eq!(rows[0].name, "a-renamed");
    assert_eq!(rows[0].stars, 15);
}

#[test]
fn batch_skips_the_failing_record() {
    let mut table = RepositoryDb::new();
    let batch = vec![repo(1, "first", 1), repo(2, "broken", -1), repo(3, "third", 3)];
    let saved = table.upsert_repositories(&batch, 5);
    assert_eq!(saved.len(), 2);
    assert_eq!(saved[0].name, "first");
    assert_eq!(saved[1].name, "third");
    let (_, total) = table.list(1, 20).unwrap();
    assert_eq!(total, 2);
}

#[test]
fn negative_stars_break_the_check() {
    let mut table = RepositoryDb::new();
    assert_eq!(table.upsert_repository(&repo(9, "bad", -5), 1).unwrap_err(), StoreError::Constraint);
    assert_eq!(table.list(1, 20).unwrap().1, 0);
}

#[test]
fn new_rows_get_distinct_ids() {
    let mut table = RepositoryDb::new();
    let a = table.upsert_repository(&repo(10, "a", 1), 1).unwrap();
    let b = table.upsert_repository(&repo(20, "b", 1), 1).unwrap();
    assert_ne!(a.id, b.id);
}

#[test]
fn negative_window_is_refused() {
    let table = RepositoryDb::new();
    assert_eq!(table.list(1, -1).unwrap_err(), StoreError::InvalidWindow);
    assert_eq!(table.list(0, 20).unwrap_err(), StoreError::InvalidWindow);
    assert!(table.list(1, 0).unwrap().0.is_empty());
}

#[test]
fn page_offsets() {
    assert_eq!(page_offset(1, 20), 0);
    assert_eq!(page_offset(2, 20), 20);
    assert_eq!(page_offset(0, 20), -20);
    assert_eq!(page_offset(i32::MIN, i32::MIN), 4611686020574871552);
}

#[test]
fn list_defaults() {
    assert_eq!(default_page(), 1);
    assert_eq!(default_per_page(), 20);
    let p = ListParams::default();
    assert_eq!(p, ListParams { page: 1, per_page: 20 });
}

#[test]
fn listing_endpoint_over_table() {
    let mut table = RepositoryDb::new();
    table.upsert_repository(&repo(1, "x", 1), 1).unwrap();
    table.upsert_repository(&repo(2, "y", 2), 2).unwrap();
    let resp = list_repositories(&table, &ListParams { page: 1, per_page: 1 }).unwrap();
    assert_eq!(resp.total, 2);
    assert_eq!(resp.page, 1);
    assert_eq!(resp.per_page, 1);
    assert_eq!(resp.repositories.len(), 1);
    assert_eq!(resp.repositories[0].name, "y");
    let err = list_repositories(&table, &ListParams { page: -1, per_page: 20 }).unwrap_err();
    assert_eq!(err, ApiError::InternalServerError);
    assert_eq!(err.status(), 500);
}

#[test]
fn missing_count_reads_zero() {
    let resp = list_response(Vec::new(), None, &ListParams { page: 3, per_page: 7 });
    assert_eq!(resp.total, 0);
    assert_eq!(resp.page, 3);
    assert_eq!(resp.per_page, 7);
    assert_eq!(list_response(Vec::new(), Some(12), &ListParams { page: 1, per_page: 1 }).total, 12);
}

#[test]
fn status_rule() {
    assert_eq!(check_status(200), Ok(()));
    assert_eq!(check_status(299), Ok(()));
    assert_eq!(check_status(403), Err(CollectError::Status(403)));
    assert_eq!(check_status(500), Err(CollectError::Status(500)));
    assert_eq!(check_status(199), Err(CollectError::Status(199)));
}

#[test]
fn search_request_shape() {
    let collector = GitHubCollector::new("abc".to_string());
    let req = collector.search_request("topic:llm stars:>1000");
    assert_eq!(req.url, "https://api.github.com/search/repositories");
    assert_eq!(req.authorization, "token abc");
    assert_eq!(req.accept, "application/vnd.github.v3+json");
    assert_eq!(req.user_agent, "tech_collector/0.1.0");
    let pairs: Vec<(&str, &str)> = req.query.iter().map(|(k, v)| (k.as_str(), v.as_str())).collect();
    assert_eq!(pairs, vec![("q", "topic:llm stars:>1000"), ("sort", "stars"), ("order", "desc"), ("per_page", "30")]);
    assert_eq!(collector.queries().len(), 3);
    assert_eq!(collector.queries()[1], "topic:llm stars:>1000");
}

#[test]
fn api_item_maps_to_collected() {
    let c = CollectedRepository::from(api_item(77, "mapped", 12));
    assert_eq!(c.github_id, 77);
    assert_eq!(c.name, "mapped");
    assert_eq!(c.full_name, "owner/mapped");
    assert_eq!(c.url, "https://github.com/owner/mapped");
    assert_eq!(c.stars, 12);
    assert_eq!(c.description, None);
    assert_eq!(c.language, Some("Rust".to_string()));
    assert_eq!(c.topics, vec!["transformer".to_string()]);
    let listed = search_results(&GitHubApiResponse { items: vec![api_item(1, "p", 1), api_item(2, "q", 2)], total_count: 2 });
    assert_eq!(listed.len(), 2);
    assert_eq!(listed[1].url, "https://github.com/owner/q");
}

#[test]
fn health_is_healthy() {
    let h = health_check(1234);
    assert_eq!(h.status, "healthy");
    assert_eq!(h.timestamp, 1234);
}
