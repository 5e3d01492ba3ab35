use ord::inscriptions::{Filter, InscriptionEntry, InscriptionsHtml, Rarity, Sort};

fn html(sort: Sort, filter: Filter, prev: Option<u32>, next: Option<u32>) -> InscriptionsHtml {
    InscriptionsHtml { prev, next, sort, filter, index_sats: false }
}

fn link(page: u32, html: &InscriptionsHtml) -> String {
    format!("/inscriptions/{}{}", page, html.pagination_query())
}

#[test]
fn without_prev_and_next() {
    let page = html(Sort::Newest, Filter::default(), None, None);
    assert!(page.prev.is_none());
    assert!(page.next.is_none());
    assert_eq!(page.pagination_query(), "");
    assert_eq!(page.title(), "Inscriptions");
}

#[test]
fn with_prev_and_next() {
    let page = html(Sort::Newest, Filter::default(), Some(1), Some(2));
    assert_eq!(link(page.prev.unwrap(), &page), "/inscriptions/1");
    assert_eq!(link(page.next.unwrap(), &page), "/inscriptions/2");
}

#[test]
fn oldest_sort_preserved_in_pagination_links() {
    let page = html(Sort::Oldest, Filter::default(), Some(0), Some(2));
    assert_eq!(link(page.prev.unwrap(), &page), "/inscriptions/0?sort=oldest");
    assert_eq!(link(page.next.unwrap(), &page), "/inscriptions/2?sort=oldest");
}

#[test]
fn filters_preserved_in_pagination_links() {
    let filter = Filter { cursed: true, from: Some(100), to: Some(200), rarity: Rarity::Uncommon };
    let page = html(Sort::Newest, filter, Some(1), Some(2));
    assert_eq!(link(page.prev.unwrap(), &page), "/inscriptions/1?cursed=1&from=100&to=200&rarity=uncommon");
}

#[test]
fn pagination_query_keeps_sort_before_filters_and_negative_numbers() {
    let filter = Filter { cursed: false, from: Some(-2147483648), to: Some(-7), rarity: Rarity::Mythic };
    let page = html(Sort::Oldest, filter, None, None);
    assert_eq!(page.pagination_query(), "?sort=oldest&from=-2147483648&to=-7&rarity=mythic");
    assert_eq!(page.from_value(), "-2147483648");
    assert_eq!(page.to_value(), "-7");
    let plain = html(Sort::Newest, Filter::default(), None, None);
    assert_eq!(plain.from_value(), "");
    assert_eq!(plain.to_value(), "");
}

#[test]
fn sort_and_rarity_names() {
    assert_eq!(Sort::Newest.label(), "Recently Inscribed");
    assert_eq!(Sort::Oldest.label(), "Earliest Inscribed");
    assert_eq!(Sort::Oldest.to_string(), "oldest");
    assert_eq!(Sort::default(), Sort::Newest);
    assert_eq!(Rarity::default(), Rarity::Any);
    let names: Vec<String> = [Rarity::Any, Rarity::Uncommon, Rarity::Rare, Rarity::Epic, Rarity::Legendary, Rarity::Mythic]
        .iter()
        .map(|r| r.to_string())
        .collect();
    assert_eq!(names, vec!["any", "uncommon", "rare", "epic", "legendary", "mythic"]);
}

#[test]
fn rarity_charms() {
    assert_eq!(Rarity::Any.charm(), None);
    assert_eq!(Rarity::Uncommon.charm(), Some(ordinals::Charm::Uncommon));
    assert_eq!(Rarity::Mythic.charm(), Some(ordinals::Charm::Mythic));
}

#[test]
fn default_filter_is_unfiltered_and_lets_everything_through() {
    let filter = Filter::default();
    assert!(filter.is_unfiltered());
    for (number, charms) in [(-5, 0u16), (0, 0), (123, u16::MAX)] {
        assert!(filter.matches(&InscriptionEntry { charms, inscription_number: number }));
    }
    assert!(!Filter { cursed: true, ..Filter::default() }.is_unfiltered());
    assert!(!Filter { rarity: Rarity::Rare, ..Filter::default() }.is_unfiltered());
}

#[test]
fn filter_matches_number_bounds_and_cursed() {
    let filter = Filter { cursed: false, from: Some(10), to: Some(20), rarity: Rarity::Any };
    let entry = |n: i32| InscriptionEntry { charms: 0, inscription_number: n };
    assert!(!filter.matches(&entry(9)));
    assert!(filter.matches(&entry(10)));
    assert!(filter.matches(&entry(20)));
    assert!(!filter.matches(&entry(21)));
    let cursed = Filter { cursed: true, ..Filter::default() };
    assert!(cursed.matches(&entry(-1)));
    assert!(!cursed.matches(&entry(0)));
}

#[test]
fn filter_matches_rarity_charm_bit() {
    let uncommon = Filter { rarity: Rarity::Uncommon, ..Filter::default() };
    let entry = |charms: u16| InscriptionEntry { charms, inscription_number: 1 };
    assert!(uncommon.matches(&entry(1 << 9)));
    assert!(!uncommon.matches(&entry(1 << 6)));
    let rare = Filter { rarity: Rarity::Rare, ..Filter::default() };
    assert!(rare.matches(&entry(1 << 6)));
    assert!(!rare.matches(&entry(0)));
}

#[test]
fn selection_markers() {
    let page = html(Sort::Oldest, Filter { cursed: true, rarity: Rarity::Epic, ..Filter::default() }, None, None);
    assert_eq!(page.selected_sort_if(Sort::Oldest), " selected");
    assert_eq!(page.selected_sort_if(Sort::Newest), "");
    assert_eq!(page.selected_rarity_if(Rarity::Epic), " selected");
    assert_eq!(page.selected_rarity_if(Rarity::Any), "");
    assert_eq!(page.cursed_class(), "active");
    assert_eq!(page.cursed_checked(), " checked");
    let plain = html(Sort::Newest, Filter::default(), None, None);
    assert_eq!(plain.cursed_class(), "");
    assert_eq!(plain.cursed_checked(), "");
}

fn read_back(query: &str) -> (Sort, Filter) {
    let mut sort = Sort::Newest;
    let mut filter = Filter::default();
    let fields = query.strip_prefix('?').unwrap_or("");
    for field in fields.split('&').filter(|f| !f.is_empty()) {
        let (key, value) = field.split_once('=').unwrap();
        match key {
            "sort" => sort = if value == "oldest" { Sort::Oldest } else { Sort::Newest },
            "cursed" => filter.cursed = value == "1",
            "from" => filter.from = Some(value.parse().unwrap()),
            "to" => filter.to = Some(value.parse().unwrap()),
            "rarity" => {
                filter.rarity = [Rarity::Uncommon, Rarity::Rare, Rarity::Epic, Rarity::Legendary, Rarity::Mythic]
                    .into_iter()
                    .find(|r| r.to_string() == value)
                    .unwrap()
            },
            other => panic!("unexpected field {other}"),
        }
    }
    (sort, filter)
}

#[test]
fn pagination_query_reads_back_as_sort_and_filter() {
    let filters = [
        Filter::default(),
        Filter { cursed: true, from: Some(-5), to: Some(100), rarity: Rarity::Epic },
        Filter { cursed: false, from: None, to: Some(i32::MIN), rarity: Rarity::Any },
        Filter { cursed: true, from: Some(0), to: None, rarity: Rarity::Legendary },
    ];
    for sort in [Sort::Newest, Sort::Oldest] {
        for filter in filters {
            let (read_sort, read_filter) = read_back(&html(sort, filter, None, None).pagination_query());
            assert_eq!(read_sort, sort);
            assert_eq!(read_filter.cursed, filter.cursed);
            assert_eq!(read_filter.from, filter.from);
            assert_eq!(read_filter.to, filter.to);
            assert_eq!(read_filter.rarity, filter.rarity);
        }
    }
}
