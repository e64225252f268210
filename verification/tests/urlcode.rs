use open_comm::cursor::{decimal, next_page_url};
use open_comm::listing::TileQuery;
use open_comm::urlcode::{split_commas, CSVec};

#[test]
fn into_inner_gives_the_list() {
    assert_eq!(CSVec(vec![1, 2, 3]).into_inner(), vec![1, 2, 3]);
    assert_eq!(CSVec(Vec::<String>::new()).into_inner(), Vec::<String>::new());
}

#[test]
fn commas_split_a_value() {
    assert_eq!(split_commas("food,favorite"), vec!["food", "favorite"]);
    assert_eq!(split_commas("food"), vec!["food"]);
    assert_eq!(split_commas(""), vec![""]);
    assert_eq!(split_commas(","), vec!["", ""]);
    assert_eq!(split_commas("a,,b,"), vec!["a", "", "b", ""]);
    assert_eq!(split_commas("caf\u{e9},th\u{e9}"), vec!["caf\u{e9}", "th\u{e9}"]);
    let expected: Vec<&str> = "x,y,,z".split(",").collect();
    assert_eq!(split_commas("x,y,,z"), expected);
}

#[test]
fn form_values_are_decoded_then_split() {
    let list = CSVec::from_form_value("food,not+favorite").unwrap().into_inner();
    assert_eq!(list, vec!["food", "not favorite"]);
    let list = CSVec::from_form_value("a%2Cb,c%20d").unwrap().into_inner();
    assert_eq!(list, vec!["a", "b", "c d"]);
    let list = CSVec::from_form_value("caf%C3%A9").unwrap().into_inner();
    assert_eq!(list, vec!["caf\u{e9}"]);
    let list = CSVec::from_form_value("").unwrap().into_inner();
    assert_eq!(list, vec![""]);
}

#[test]
fn a_value_that_does_not_decode_is_handed_back() {
    assert_eq!(CSVec::from_form_value("a,%FF").unwrap_err(), "a,%FF");
    assert_eq!(CSVec::from_form_value("%C3").unwrap_err(), "%C3");
}

#[test]
fn numerals_are_decimal() {
    assert_eq!(decimal(0), "0");
    assert_eq!(decimal(7), "7");
    assert_eq!(decimal(10), "10");
    assert_eq!(decimal(100), "100");
    assert_eq!(decimal(1234567890), "1234567890");
    assert_eq!(decimal(usize::MAX), usize::MAX.to_string());
}

#[test]
fn cursor_renders_as_a_query_string() {
    let q = TileQuery {
        phrase: Some("pizza".to_string()),
        category: Some("favorite".to_string()),
        offset: Some(100),
    };
    assert_eq!(q.to_query_string(), "phrase=pizza&category=favorite&offset=100");
    let q = TileQuery { phrase: None, category: None, offset: Some(200) };
    assert_eq!(q.to_query_string(), "offset=200");
    let q = TileQuery { phrase: None, category: Some("food".to_string()), offset: None };
    assert_eq!(q.to_query_string(), "category=food");
    let q = TileQuery { phrase: None, category: None, offset: None };
    assert_eq!(q.to_query_string(), "");
}

#[test]
fn filters_are_percent_encoded() {
    let q = TileQuery {
        phrase: Some("a b&c=d".to_string()),
        category: Some("not favorite".to_string()),
        offset: Some(0),
    };
    assert_eq!(q.to_query_string(), "phrase=a%20b%26c%3Dd&category=not%20favorite&offset=0");
    let q = TileQuery { phrase: Some("caf\u{e9}+1/2%".to_string()), category: None, offset: None };
    assert_eq!(q.to_query_string(), "phrase=caf%C3%A9%2B1%2F2%25");
}

#[test]
fn next_page_url_is_path_and_query() {
    let q = TileQuery { phrase: Some("pizza".to_string()), category: None, offset: Some(100) };
    assert_eq!(
        next_page_url("/api/user/foo/tiles", &q),
        "/api/user/foo/tiles?phrase=pizza&offset=100"
    );
}
