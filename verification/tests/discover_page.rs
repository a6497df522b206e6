use pinepods_pages::discover::{
    category_is_active, category_order, group_by_reason, host_sections_shown, host_shows_line, person_path,
    podcast_hosts_line, stats_summary,
};

fn strings(v: &[&str]) -> Vec<String> {
    v.iter().map(|s| s.to_string()).collect()
}

#[test]
fn recommendations_grouped_by_reason_in_first_appearance_order() {
    let reasons = strings(&["Because you like A", "Trending", "Because you like A", "New", "Trending"]);
    let groups = group_by_reason(&reasons);
    assert_eq!(groups.len(), 3);
    assert_eq!(groups[0].reason, "Because you like A");
    assert_eq!(groups[0].members, vec![0, 2]);
    assert_eq!(groups[1].reason, "Trending");
    assert_eq!(groups[1].members, vec![1, 4]);
    assert_eq!(groups[2].reason, "New");
    assert_eq!(groups[2].members, vec![3]);
    assert!(group_by_reason(&Vec::new()).is_empty());
}

#[test]
fn categories_ordered_case_insensitively_and_stably() {
    let names = strings(&["news", "Comedy", "arts", "News", "comedy"]);
    let p = category_order(&names);
    let shown: Vec<&str> = p.iter().map(|&i| names[i].as_str()).collect();
    assert_eq!(shown, vec!["arts", "Comedy", "comedy", "news", "News"]);
}

#[test]
fn active_category_chip() {
    assert!(category_is_active(&Some("Tech".to_string()), "Tech"));
    assert!(!category_is_active(&Some("Tech".to_string()), "tech"));
    assert!(!category_is_active(&None, "Tech"));
}

#[test]
fn host_card_lines() {
    assert_eq!(host_shows_line("{count} shows", 3), Some("3 shows".to_string()));
    assert_eq!(host_shows_line("{count} shows", 0), None);
    assert_eq!(host_shows_line("{count} shows", -1), None);
    assert_eq!(podcast_hosts_line("{count} hosts", 2), "2 hosts");
    assert_eq!(podcast_hosts_line("hosts", 2), "hosts");
    assert_eq!(stats_summary("{hosts} hosts across {podcasts} podcasts", 12, 340), "12 hosts across 340 podcasts");
    assert_eq!(person_path("Jane Doe"), "/person/Jane Doe");
}

#[test]
fn host_sections_need_some_entries() {
    assert!(!host_sections_shown(0, 0, 0));
    assert!(host_sections_shown(0, 0, 1));
    assert!(host_sections_shown(2, 0, 0));
}
