use bloombot::pagination::{terms_per_page, PageRow, Pagination};
use bloombot::records::{QuoteData, Term};

fn quote(q: &str, author: Option<&str>) -> QuoteData {
    QuoteData { quote: q.to_string(), author: author.map(|a| a.to_string()) }
}

#[test]
fn empty_list_has_one_empty_page() {
    let p: Pagination<QuoteData> = Pagination::new("Quotes".to_string(), vec![]);
    assert_eq!(p.get_page_count(), 1);
    assert_eq!(p.get_last_page_number(), 0);
    let page = p.get_page(0).unwrap();
    assert!(page.is_empty());
    assert_eq!(page.page_number(), 0);
    assert_eq!(page.page_count(), 1);
    assert!(p.get_page(1).is_none());
}

#[test]
fn pages_of_ten() {
    let qs: Vec<QuoteData> = (0..23).map(|i| quote(&format!("q{i}"), None)).collect();
    let refs: Vec<&QuoteData> = qs.iter().collect();
    let p = Pagination::new("Quotes".to_string(), refs);
    assert_eq!(p.get_page_count(), 3);
    assert_eq!(p.get_last_page_number(), 2);
    assert_eq!(p.get_page(0).unwrap().entries().len(), 10);
    assert_eq!(p.get_page(2).unwrap().entries().len(), 3);
    assert_eq!(p.get_page(2).unwrap().entries()[0].title(), "q20");
    assert_eq!(p.get_page(1).unwrap().page_number(), 1);
    assert_eq!(p.get_page(1).unwrap().page_count(), 3);
    assert!(p.get_page(3).is_none());
    assert_eq!(p.title(), "Quotes");
}

#[test]
fn exact_multiple_of_page_size() {
    let qs: Vec<QuoteData> = (0..20).map(|i| quote(&format!("q{i}"), None)).collect();
    let p = Pagination::new("Quotes".to_string(), qs.iter().collect());
    assert_eq!(p.get_page_count(), 2);
    assert_eq!(p.get_page(1).unwrap().entries().len(), 10);
}

#[test]
fn glossary_has_one_term_a_page() {
    let terms: Vec<Term> = (0..3)
        .map(|i| Term {
            id: format!("{i}"),
            term_name: format!("term{i}"),
            meaning: format!("meaning{i}"),
            usage: None,
            links: None,
            category: None,
        })
        .collect();
    let p = Pagination::new("Glossary".to_string(), terms.iter().collect());
    assert_eq!(p.get_page_count(), 3);
    assert_eq!(p.get_page(1).unwrap().entries()[0].title(), "term1");
    assert_eq!(p.get_page(1).unwrap().entries()[0].body(), "meaning1");
    assert_eq!(terms_per_page(&"Glossary".to_string()), 1);
    assert_eq!(terms_per_page(&"glossary".to_string()), 10);
}

#[test]
fn page_navigation_wraps() {
    let qs: Vec<QuoteData> = (0..25).map(|i| quote(&format!("q{i}"), None)).collect();
    let p = Pagination::new("Quotes".to_string(), qs.iter().collect());
    assert_eq!(p.update_page_number(0, -1), 2);
    assert_eq!(p.update_page_number(2, 1), 0);
    assert_eq!(p.update_page_number(1, 1), 2);
    assert_eq!(p.update_page_number(1, -1), 0);
    assert_eq!(p.update_page_number(0, isize::MIN), 2);
    assert_eq!(p.update_page_number(usize::MAX, 1), 0);
}

#[test]
fn quote_rows() {
    let a = quote("Breathe.", Some("Someone"));
    let b = quote("Sit.", None);
    assert_eq!(a.title(), "Breathe.");
    assert_eq!(a.body(), "Someone");
    assert_eq!(b.body(), "Anonymous");
}
