use gatekeeper::{activities_to_items, Pager, Paginated};

fn page(values: Vec<u32>, next: Option<&str>) -> Paginated<u32> {
    Paginated {
        values,
        next: next.map(|url| url.to_string()),
    }
}

fn fetch(url: &str) -> Paginated<u32> {
    match url {
        "first" => page(vec![1, 2], Some("u")),
        "u" => page(vec![3], None),
        "a" => page(vec![], Some("b")),
        "b" => page(vec![9, 8], Some("c")),
        "c" => page(vec![7], Some("d")),
        "d" => page(vec![], None),
        other => panic!("no page at {}", other),
    }
}

fn walk(start: &str) -> (Vec<u32>, Vec<String>) {
    let mut asked = Vec::new();
    let mut pager: Pager<u32> = Pager::start(start);
    while let Some(url) = pager.next_url() {
        let url = url.clone();
        pager.accept(fetch(&url));
        asked.push(url);
    }
    assert!(pager.is_done());
    (pager.into_values(), asked)
}

#[test]
fn pager_walk() {
    let (values, asked) = walk("first");
    assert_eq!(vec![1, 2, 3], values);
    assert_eq!(vec!["first", "u"], asked);
}

#[test]
fn pager_walk_from_a_first_page_at_hand() {
    let mut pager = Pager::new(page(vec![1, 2], Some("u")));
    assert!(!pager.is_done());
    assert_eq!(Some(&"u".to_string()), pager.next_url());
    pager.accept(fetch("u"));
    assert_eq!(None, pager.next_url());
    assert_eq!(vec![1, 2, 3], pager.into_values());
}

#[test]
fn pager_asks_each_link_once_and_keeps_the_order() {
    let (values, asked) = walk("a");
    assert_eq!(vec![9, 8, 7], values);
    assert_eq!(vec!["a", "b", "c", "d"], asked);
}

#[test]
fn pager_single_page() {
    let pager = Pager::new(page(vec![5], None));
    assert!(pager.is_done());
    assert_eq!(vec![5], pager.into_values());
    let pager: Pager<u32> = Pager::start("x");
    assert_eq!(Some(&"x".to_string()), pager.next_url());
    assert_eq!(Vec::<u32>::new(), pager.into_values());
}

#[test]
fn pager_gathers_what_the_pages_hold() {
    let pages = || vec![fetch("a"), fetch("b"), fetch("c"), fetch("d")];
    let (values, _) = walk("a");
    assert_eq!(activities_to_items(pages()), values);
    assert_eq!(vec![9, 8, 7], activities_to_items(pages()));
}
