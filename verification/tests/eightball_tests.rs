use meshbbs::eightball::{
    ask, check_loaded_responses, check_responses_for_save, get_all_responses, get_by_category, initialize,
    is_available, responses_path, EightballData, EightballResponse, EightballStatus, EightballStore,
};

fn resp(text: &str, category: &str) -> EightballResponse {
    EightballResponse { text: text.to_string(), category: category.to_string() }
}

#[test]
fn test_category_structure() {
    let response = EightballResponse { text: "Test response".to_string(), category: "positive".to_string() };
    assert_eq!(response.text, "Test response");
    assert_eq!(response.category, "positive");
}

#[test]
fn test_get_by_category_empty() {
    let store = EightballStore::new();
    let results = get_by_category(&store, "positive");
    assert!(results.is_empty() || !results.is_empty());
}

#[test]
fn test_ask_returns_none_when_unavailable() {
    let store = EightballStore::new();
    let result = ask(&store);
    assert!(result.is_none());
}

#[test]
fn test_load_valid_responses() {
    let data = EightballData { responses: vec![resp("Yes", "positive"), resp("No", "negative")] };
    let result = check_loaded_responses(data);
    assert!(result.is_ok());
    let responses = result.unwrap();
    assert_eq!(responses.len(), 2);
    assert_eq!(responses[0].text, "Yes");
    assert_eq!(responses[0].category, "positive");
}

#[test]
fn test_load_empty_responses() {
    let result = check_loaded_responses(EightballData { responses: vec![] });
    assert!(result.is_err());
    assert!(result.unwrap_err().contains("No responses found"));
}

#[test]
fn initialize_reports_each_outcome() {
    let mut store = EightballStore::new();
    let st = initialize(&mut store, "/d/8ball_responses.json", Err("Failed to read /d/x: No such file or directory".to_string()));
    assert_eq!(st, EightballStatus::FileNotFound("/d/8ball_responses.json".to_string()));
    let st = initialize(&mut store, "/d/8ball_responses.json", Err("Failed to parse JSON: x".to_string()));
    assert_eq!(st, EightballStatus::ParseError("Failed to parse JSON: x".to_string()));
    let st = initialize(&mut store, "p", Err("No responses found in data file".to_string()));
    assert_eq!(st, EightballStatus::ValidationError("No responses found in data file".to_string()));
    assert!(!is_available(&store));
    let st = initialize(&mut store, "p", Ok(vec![resp("Yes", "positive")]));
    assert_eq!(st, EightballStatus::Available(1));
    assert!(is_available(&store));
    let st = initialize(&mut store, "p", Ok(vec![resp("No", "negative")]));
    assert_eq!(st, EightballStatus::ValidationError("Already initialized".to_string()));
    assert_eq!(get_all_responses(&store).unwrap()[0].text, "Yes");
}

#[test]
fn ask_and_filter_loaded_answers() {
    let mut store = EightballStore::new();
    initialize(&mut store, "p", Ok(vec![resp("Yes", "positive"), resp("Maybe", "neutral"), resp("Sure", "positive")]));
    let a = ask(&store).unwrap();
    assert!(["Yes", "Maybe", "Sure"].contains(&a));
    let pos = get_by_category(&store, "positive");
    assert_eq!(pos.len(), 2);
    assert_eq!(pos[0].text, "Yes");
    assert_eq!(pos[1].text, "Sure");
    assert!(get_by_category(&store, "negative").is_empty());
}

#[test]
fn saving_checks_categories() {
    assert_eq!(check_responses_for_save(&vec![]).unwrap_err(), "Cannot save empty response list");
    assert!(check_responses_for_save(&vec![resp("a", "positive"), resp("b", "neutral")]).is_ok());
    assert_eq!(
        check_responses_for_save(&vec![resp("a", "positive"), resp("b", "happy")]).unwrap_err(),
        "Invalid category 'happy' at index 1. Must be 'positive', 'neutral', or 'negative'"
    );
}

#[test]
fn responses_path_joins_directory() {
    assert_eq!(responses_path("/var/bbs"), "/var/bbs/8ball_responses.json");
    assert_eq!(responses_path("/var/bbs/"), "/var/bbs/8ball_responses.json");
    assert_eq!(responses_path(""), "8ball_responses.json");
}
