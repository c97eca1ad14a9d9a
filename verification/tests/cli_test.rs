use mockingbird::cassette::{Interaction, RecordedRequest, RecordedResponse};
use mockingbird::cli::{check_serve_target, delete_plan, parse_duration, prune_candidates, retain_recent, split_deleted};
use mockingbird::error::Error;
use mockingbird::mode::Mode;

const SEC: i128 = 1_000_000_000;

#[test]
fn duration_units() {
    assert_eq!(parse_duration("30d").unwrap(), 30 * 86_400 * SEC);
    assert_eq!(parse_duration("1w").unwrap(), 604_800 * SEC);
    assert_eq!(parse_duration("24h").unwrap(), 24 * 3_600 * SEC);
    assert_eq!(parse_duration("2m").unwrap(), 60 * 86_400 * SEC);
    assert_eq!(parse_duration("7").unwrap(), 7 * 86_400 * SEC);
    assert_eq!(parse_duration("  3 Days ").unwrap(), 3 * 86_400 * SEC);
    assert_eq!(parse_duration("2 WEEKS").unwrap(), 2 * 604_800 * SEC);
    assert_eq!(parse_duration("1hour").unwrap(), 3_600 * SEC);
    assert_eq!(parse_duration("1 months").unwrap(), 30 * 86_400 * SEC);
}

#[test]
fn duration_errors() {
    match parse_duration("   ") {
        Err(Error::Config(m)) => assert_eq!(m, "Empty duration string"),
        other => panic!("unexpected: {:?}", other),
    }
    match parse_duration("d") {
        Err(Error::Config(m)) => assert_eq!(m, "Invalid duration number: "),
        other => panic!("unexpected: {:?}", other),
    }
    match parse_duration("99999999999999999999d") {
        Err(Error::Config(m)) => assert_eq!(m, "Invalid duration number: 99999999999999999999"),
        other => panic!("unexpected: {:?}", other),
    }
    match parse_duration("5 Years") {
        Err(Error::Config(m)) => {
            assert_eq!(m, "Unknown duration unit 'years'. Use d (days), w (weeks), h (hours), or m (months)")
        }
        other => panic!("unexpected: {:?}", other),
    }
}

fn at(url: &str, t: i128) -> Interaction {
    Interaction::new_at(RecordedRequest::new("GET", url), RecordedResponse::new(200), t)
}

#[test]
fn prune_old_interactions() {
    let items = vec![at("/a", 5), at("/b", 20), at("/c", 9), at("/d", 10)];
    assert_eq!(prune_candidates(&items, 10), vec![0usize, 2]);
    let kept = retain_recent(items, 10);
    let urls: Vec<&str> = kept.iter().map(|i| i.request.url.as_str()).collect();
    assert_eq!(urls, vec!["/b", "/d"]);
}

#[test]
fn delete_indices() {
    assert_eq!(delete_plan(&vec![2, 1, 2, 3], 3), Ok(vec![3usize, 2, 1]));
    assert_eq!(delete_plan(&vec![1, 0, 9], 3), Err(0));
    assert_eq!(delete_plan(&vec![4, 9], 3), Err(4));
    let items = vec![at("/a", 1), at("/b", 2), at("/c", 3), at("/d", 4)];
    let plan = delete_plan(&vec![3, 1], 4).unwrap();
    let (kept, removed) = split_deleted(&items, &plan);
    let kept_urls: Vec<&str> = kept.iter().map(|i| i.request.url.as_str()).collect();
    let removed_urls: Vec<&str> = removed.iter().map(|i| i.request.url.as_str()).collect();
    assert_eq!(kept_urls, vec!["/b", "/d"]);
    assert_eq!(removed_urls, vec!["/c", "/a"]);
}

#[test]
fn serve_needs_target() {
    assert!(check_serve_target(Mode::Replay, &None).is_ok());
    assert!(check_serve_target(Mode::Record, &Some("http://t".to_string())).is_ok());
    match check_serve_target(Mode::Auto, &None) {
        Err(Error::Config(m)) => assert_eq!(m, "Target URL required for record/auto modes. Use --target <URL>"),
        other => panic!("unexpected: {:?}", other),
    }
}

#[test]
fn cli_show_position() {
    assert_eq!(mockingbird::cli::show_position(1, 3), Some(0));
    assert_eq!(mockingbird::cli::show_position(3, 3), Some(2));
    assert_eq!(mockingbird::cli::show_position(0, 3), None);
    assert_eq!(mockingbird::cli::show_position(4, 3), None);
}

#[test]
fn cli_refresh_keeps_old_on_error() {
    let old = Interaction::new_at(RecordedRequest::new("GET", "/a"), RecordedResponse::new(200).body("old"), 5);
    let kept = mockingbird::cli::refreshed(&old, None);
    assert_eq!(kept.recorded_at, 5);
    assert_eq!(kept.response.as_ref().unwrap().body, Some("old".to_string()));
    let fresh = mockingbird::cli::refreshed(&old, Some(RecordedResponse::new(201).body("new")));
    assert_eq!(fresh.request.url, "/a");
    assert_eq!(fresh.response.as_ref().unwrap().status, 201);
    assert!(fresh.error.is_none());
}
