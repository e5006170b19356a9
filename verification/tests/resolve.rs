use mementer::edge::edge_outranks;
use mementer::edge::Edge;
use mementer::entries::EntryTypes;
use mementer::entries::LinkTypes;
use mementer::entries::Mementer;
use mementer::entries::MementerEntry;
use mementer::entries::MementerSettings;
use mementer::error::MementerError;
use mementer::resolve::get_latest_mementer_settings;
use mementer::resolve::get_mementer;
use mementer::resolve::get_mementers;
use mementer::resolve::is_candidate;
use mementer::resolve::is_listed;
use mementer::resolve::latest_revision;
use mementer::resolve::mementer_from_details;
use mementer::resolve::mementer_ids;
use mementer::resolve::next_lookup;
use mementer::resolve::resolve_current;
use mementer::resolve::settings_of;
use mementer::store::ActionInfo;
use mementer::store::Details;
use mementer::store::EntryDetails;
use mementer::store::ObjectStore;
use mementer::store::RecordDetails;

fn raw(kind: u8, fill: u8) -> Vec<u8> {
    let mut bytes = vec![0x84, kind, 0x24];
    bytes.resize(39, fill);
    bytes
}

fn entry_hash(n: u8) -> Vec<u8> {
    raw(0x21, n)
}

fn action_hash(n: u8) -> Vec<u8> {
    raw(0x29, n)
}

fn settings(title: &str) -> MementerSettings {
    MementerSettings {
        title: title.to_string(),
        start_date: "2020-01-01".to_string(),
        end_date: "2030-01-01".to_string(),
        large_slices: 4,
        medium_slices: 12,
        small_slices: 52,
    }
}

fn revision(id: &[u8], target: &[u8], timestamp: i64, action: &[u8]) -> Edge {
    Edge {
        base: id.to_vec(),
        target: target.to_vec(),
        link_type: LinkTypes::MementerSettings,
        action: ActionInfo { action_hash: action.to_vec(), author: raw(0x20, 1), timestamp },
        is_create_link: true,
    }
}

fn member(anchor: &[u8], id: &[u8], timestamp: i64, action: &[u8]) -> Edge {
    Edge {
        base: anchor.to_vec(),
        target: id.to_vec(),
        link_type: LinkTypes::MementerEntry,
        action: ActionInfo { action_hash: action.to_vec(), author: raw(0x20, 1), timestamp },
        is_create_link: true,
    }
}

fn record(title: &str) -> Details {
    Details::Record(RecordDetails { entry: Some(EntryTypes::MementerSettings(settings(title))) })
}

fn store_of(items: Vec<(Vec<u8>, Details)>) -> ObjectStore {
    let mut store = ObjectStore::new();
    for (hash, details) in items {
        store.put(hash, details);
    }
    store
}

fn title_of(found: Option<Mementer>) -> Option<String> {
    found.map(|mementer| mementer.settings.title)
}

#[test]
fn create_then_older_then_newer_revision() {
    let a = entry_hash(1);
    let store = store_of(vec![
        (action_hash(1), record("T1")),
        (action_hash(2), record("T2")),
        (action_hash(3), record("T3")),
    ]);
    let mut edges = vec![revision(&a, &action_hash(1), 100, b"l1")];
    assert_eq!(
        resolve_current(&a, &edges, &store),
        Some(Mementer { entry_hash: a.clone(), settings: settings("T1") })
    );
    edges.push(revision(&a, &action_hash(2), 50, b"l2"));
    assert_eq!(
        resolve_current(&a, &edges, &store),
        Some(Mementer { entry_hash: a.clone(), settings: settings("T1") })
    );
    edges.push(revision(&a, &action_hash(3), 200, b"l3"));
    assert_eq!(
        resolve_current(&a, &edges, &store),
        Some(Mementer { entry_hash: a.clone(), settings: settings("T3") })
    );
    assert_eq!(latest_revision(&a, &edges, &store), Some(2));
}

#[test]
fn concurrent_revisions_resolve_to_greater_action_hash() {
    let a = entry_hash(1);
    let store = store_of(vec![(action_hash(1), record("of aaa")), (action_hash(2), record("of bbb"))]);
    let edges = vec![
        revision(&a, &action_hash(1), 100, b"aaa"),
        revision(&a, &action_hash(2), 100, b"bbb"),
    ];
    assert_eq!(title_of(resolve_current(&a, &edges, &store)), Some("of bbb".to_string()));
    let swapped = vec![
        revision(&a, &action_hash(2), 100, b"bbb"),
        revision(&a, &action_hash(1), 100, b"aaa"),
    ];
    assert_eq!(title_of(resolve_current(&a, &swapped, &store)), Some("of bbb".to_string()));
    for _ in 0..5 {
        assert_eq!(title_of(resolve_current(&a, &edges, &store)), Some("of bbb".to_string()));
    }
}

#[test]
fn every_order_of_the_same_links_resolves_alike() {
    let a = entry_hash(1);
    let store = store_of(vec![
        (action_hash(1), record("one")),
        (action_hash(2), record("two")),
        (action_hash(3), record("three")),
    ]);
    let orders: [[usize; 3]; 6] =
        [[0, 1, 2], [0, 2, 1], [1, 0, 2], [1, 2, 0], [2, 0, 1], [2, 1, 0]];
    let make = |k: usize| match k {
        0 => revision(&a, &action_hash(1), 10, b"x"),
        1 => revision(&a, &action_hash(2), 30, b"a"),
        _ => revision(&a, &action_hash(3), 30, b"b"),
    };
    for order in orders {
        let edges: Vec<Edge> = order.iter().map(|k| make(*k)).collect();
        assert_eq!(title_of(resolve_current(&a, &edges, &store)), Some("three".to_string()));
    }
}

#[test]
fn timestamp_decides_before_action_hash() {
    let a = entry_hash(1);
    let store = store_of(vec![(action_hash(1), record("late")), (action_hash(2), record("early"))]);
    let edges = vec![
        revision(&a, &action_hash(2), 99, b"zzz"),
        revision(&a, &action_hash(1), 100, b"aaa"),
    ];
    assert_eq!(title_of(resolve_current(&a, &edges, &store)), Some("late".to_string()));
}

#[test]
fn negative_timestamps_are_ordered_as_numbers() {
    let a = entry_hash(1);
    let store = store_of(vec![(action_hash(1), record("before")), (action_hash(2), record("after"))]);
    let edges = vec![
        revision(&a, &action_hash(1), -200, b"a"),
        revision(&a, &action_hash(2), -100, b"b"),
        revision(&a, &action_hash(1), i64::MIN, b"c"),
    ];
    assert_eq!(title_of(resolve_current(&a, &edges, &store)), Some("after".to_string()));
}

#[test]
fn links_of_equal_age_and_action_are_told_apart_by_target() {
    let a = entry_hash(1);
    let store = store_of(vec![(action_hash(1), record("low")), (action_hash(2), record("high"))]);
    let one = vec![
        revision(&a, &action_hash(1), 5, b"same"),
        revision(&a, &action_hash(2), 5, b"same"),
    ];
    let other = vec![
        revision(&a, &action_hash(2), 5, b"same"),
        revision(&a, &action_hash(1), 5, b"same"),
    ];
    assert_eq!(title_of(resolve_current(&a, &one, &store)), Some("high".to_string()));
    assert_eq!(title_of(resolve_current(&a, &other, &store)), Some("high".to_string()));
}

#[test]
fn repeated_link_resolves_to_its_first_occurrence() {
    let a = entry_hash(1);
    let store = store_of(vec![(action_hash(1), record("only"))]);
    let edges = vec![
        revision(&a, &action_hash(1), 5, b"same"),
        revision(&a, &action_hash(1), 5, b"same"),
    ];
    assert_eq!(latest_revision(&a, &edges, &store), Some(0));
    assert_eq!(title_of(resolve_current(&a, &edges, &store)), Some("only".to_string()));
}

#[test]
fn missing_winner_falls_back_to_runner_up() {
    let a = entry_hash(1);
    let full = store_of(vec![
        (action_hash(1), record("oldest")),
        (action_hash(2), record("second")),
        (action_hash(3), record("newest")),
    ]);
    let partial = store_of(vec![(action_hash(1), record("oldest")), (action_hash(2), record("second"))]);
    let edges = vec![
        revision(&a, &action_hash(1), 10, b"a"),
        revision(&a, &action_hash(3), 30, b"c"),
        revision(&a, &action_hash(2), 20, b"b"),
    ];
    assert_eq!(title_of(resolve_current(&a, &edges, &full)), Some("newest".to_string()));
    assert_eq!(title_of(resolve_current(&a, &edges, &partial)), Some("second".to_string()));
    assert_eq!(latest_revision(&a, &edges, &partial), Some(2));
}

#[test]
fn nothing_resolves_without_a_resolvable_target() {
    let a = entry_hash(1);
    let edges = vec![revision(&a, &action_hash(1), 10, b"a"), revision(&a, &action_hash(2), 20, b"b")];
    assert_eq!(resolve_current(&a, &edges, &ObjectStore::new()), None);
    assert_eq!(latest_revision(&a, &edges, &ObjectStore::new()), None);
}

#[test]
fn no_links_resolve_to_nothing() {
    let store = store_of(vec![(action_hash(1), record("unlinked"))]);
    assert_eq!(resolve_current(&entry_hash(1), &Vec::new(), &store), None);
}

#[test]
fn undecodable_target_is_passed_over() {
    let a = entry_hash(1);
    let store = store_of(vec![
        (action_hash(1), record("good")),
        (action_hash(2), Details::Record(RecordDetails { entry: None })),
        (
            action_hash(3),
            Details::Record(RecordDetails {
                entry: Some(EntryTypes::MementerEntry(MementerEntry { id: action_hash(9) })),
            }),
        ),
        (
            action_hash(4),
            Details::Entry(EntryDetails {
                entry: Some(EntryTypes::MementerSettings(settings("as entry"))),
                entry_hash: entry_hash(4),
                actions: Vec::new(),
            }),
        ),
    ]);
    let edges = vec![
        revision(&a, &action_hash(1), 10, b"a"),
        revision(&a, &action_hash(2), 20, b"b"),
        revision(&a, &action_hash(3), 30, b"c"),
        revision(&a, &action_hash(4), 40, b"d"),
    ];
    assert_eq!(title_of(resolve_current(&a, &edges, &store)), Some("good".to_string()));
    assert!(is_candidate(&a, &edges, &store, 0));
    assert!(!is_candidate(&a, &edges, &store, 1));
    assert!(!is_candidate(&a, &edges, &store, 2));
    assert!(!is_candidate(&a, &edges, &store, 3));
    assert!(!is_candidate(&a, &edges, &store, 4));
    assert!(!is_candidate(&a, &edges, &store, usize::MAX));
}

#[test]
fn links_of_foreign_shape_are_ignored() {
    let a = entry_hash(1);
    let store = store_of(vec![
        (action_hash(1), record("good")),
        (action_hash(2), record("not a link creation")),
        (action_hash(3), record("wrong type")),
        (entry_hash(4), record("entry target")),
        (raw(0x2f, 5), record("external target")),
    ]);
    let mut foreign = revision(&a, &action_hash(2), 90, b"b");
    foreign.is_create_link = false;
    let mut wrong_type = revision(&a, &action_hash(3), 91, b"c");
    wrong_type.link_type = LinkTypes::Bead;
    let edges = vec![
        revision(&a, &action_hash(1), 10, b"a"),
        foreign,
        wrong_type,
        revision(&a, &entry_hash(4), 92, b"d"),
        revision(&a, &raw(0x2f, 5), 93, b"e"),
        revision(&a, &vec![1, 2, 3], 94, b"f"),
    ];
    assert_eq!(title_of(resolve_current(&a, &edges, &store)), Some("good".to_string()));
    assert_eq!(latest_revision(&a, &edges, &store), Some(0));
}

#[test]
fn identity_must_be_an_entry_hash() {
    let store = store_of(vec![(action_hash(1), record("good"))]);
    let as_action = action_hash(7);
    let edges = vec![revision(&as_action, &action_hash(1), 10, b"a")];
    assert_eq!(resolve_current(&as_action, &edges, &store), None);
    let short = vec![0x84, 0x21, 0x24];
    let edges = vec![revision(&short, &action_hash(1), 10, b"a")];
    assert_eq!(resolve_current(&short, &edges, &store), None);
}

#[test]
fn links_of_other_mementers_do_not_interfere() {
    let a = entry_hash(1);
    let b = entry_hash(2);
    let store = store_of(vec![(action_hash(1), record("of a")), (action_hash(2), record("of b"))]);
    let alone = vec![revision(&a, &action_hash(1), 10, b"a")];
    let mixed = vec![revision(&a, &action_hash(1), 10, b"a"), revision(&b, &action_hash(2), 999, b"z")];
    assert_eq!(resolve_current(&a, &alone, &store), resolve_current(&a, &mixed, &store));
    assert_eq!(title_of(resolve_current(&a, &mixed, &store)), Some("of a".to_string()));
    assert_eq!(title_of(resolve_current(&b, &mixed, &store)), Some("of b".to_string()));
}

#[test]
fn newer_revision_takes_over_and_older_changes_nothing() {
    let a = entry_hash(1);
    let store = store_of(vec![
        (action_hash(1), record("current")),
        (action_hash(2), record("newer")),
        (action_hash(3), record("older")),
    ]);
    let mut edges = vec![revision(&a, &action_hash(1), 100, b"m")];
    edges.push(revision(&a, &action_hash(3), 99, b"zzz"));
    assert_eq!(title_of(resolve_current(&a, &edges, &store)), Some("current".to_string()));
    edges.push(revision(&a, &action_hash(2), 101, b"a"));
    assert_eq!(title_of(resolve_current(&a, &edges, &store)), Some("newer".to_string()));
}

#[test]
fn batch_is_each_mementer_resolved_alone() {
    let a = entry_hash(1);
    let b = entry_hash(2);
    let c = entry_hash(3);
    let store = store_of(vec![
        (action_hash(1), record("a1")),
        (action_hash(2), record("a2")),
        (action_hash(3), record("b1")),
    ]);
    let edges = vec![
        revision(&a, &action_hash(1), 10, b"a"),
        revision(&b, &action_hash(3), 500, b"b"),
        revision(&a, &action_hash(2), 20, b"c"),
        revision(&c, &action_hash(9), 30, b"d"),
    ];
    let inputs = vec![b.clone(), c.clone(), a.clone(), b.clone()];
    let all = get_latest_mementer_settings(&inputs, &edges, &store);
    let each: Vec<Mementer> =
        inputs.iter().filter_map(|id| resolve_current(id, &edges, &store)).collect();
    assert_eq!(all, each);
    assert_eq!(
        all,
        vec![
            Mementer { entry_hash: b.clone(), settings: settings("b1") },
            Mementer { entry_hash: a.clone(), settings: settings("a2") },
            Mementer { entry_hash: b.clone(), settings: settings("b1") },
        ]
    );
    assert_eq!(get_latest_mementer_settings(&Vec::new(), &edges, &store), Vec::new());
}

#[test]
fn anchor_lists_mementers_in_link_order() {
    let anchor = entry_hash(100);
    let a = entry_hash(1);
    let b = entry_hash(2);
    let mut foreign = member(&anchor, &entry_hash(3), 3, b"m3");
    foreign.is_create_link = false;
    let edges = vec![
        member(&anchor, &b, 2, b"m2"),
        revision(&a, &action_hash(1), 10, b"a"),
        member(&entry_hash(101), &entry_hash(4), 4, b"m4"),
        foreign,
        member(&anchor, &a, 1, b"m1"),
    ];
    assert_eq!(mementer_ids(&anchor, &edges), vec![b.clone(), a.clone()]);
    assert_eq!(mementer_ids(&entry_hash(101), &edges), vec![entry_hash(4)]);
    assert_eq!(mementer_ids(&entry_hash(102), &edges), Vec::<Vec<u8>>::new());
}

#[test]
fn get_mementers_resolves_what_the_anchor_lists() {
    let anchor = entry_hash(100);
    let a = entry_hash(1);
    let b = entry_hash(2);
    let half_made = entry_hash(3);
    let store = store_of(vec![
        (action_hash(1), record("a old")),
        (action_hash(2), record("a new")),
        (action_hash(3), record("b")),
    ]);
    let edges = vec![
        member(&anchor, &a, 1, b"m1"),
        member(&anchor, &half_made, 2, b"m2"),
        member(&anchor, &b, 3, b"m3"),
        revision(&a, &action_hash(1), 10, b"r1"),
        revision(&a, &action_hash(2), 20, b"r2"),
        revision(&b, &action_hash(3), 5, b"r3"),
    ];
    assert_eq!(
        get_mementers(&anchor, &edges, &store),
        vec![
            Mementer { entry_hash: a.clone(), settings: settings("a new") },
            Mementer { entry_hash: b.clone(), settings: settings("b") },
        ]
    );
    assert_eq!(get_mementers(&entry_hash(9), &edges, &store), Vec::new());
}

#[test]
fn get_mementer_finds_or_reports_not_found() {
    let a = entry_hash(1);
    let store = store_of(vec![(action_hash(1), record("found"))]);
    let edges = vec![revision(&a, &action_hash(1), 10, b"a")];
    assert_eq!(
        get_mementer(&a, &edges, &store),
        Ok(Mementer { entry_hash: a.clone(), settings: settings("found") })
    );
    let missing = get_mementer(&entry_hash(2), &edges, &store);
    assert_eq!(missing, Err(MementerError::Wasm("Mementer not found".to_string())));
    assert_eq!(missing.unwrap_err().message(), "Mementer not found");
    assert!(get_mementer(&a, &edges, &ObjectStore::new()).is_err());
}

#[test]
fn mementer_from_details_reads_settings_records_only() {
    let id = entry_hash(1);
    assert_eq!(
        mementer_from_details(&record("T"), &id),
        Some(Mementer { entry_hash: id.clone(), settings: settings("T") })
    );
    assert_eq!(mementer_from_details(&Details::Record(RecordDetails { entry: None }), &id), None);
    let as_entry = Details::Entry(EntryDetails {
        entry: Some(EntryTypes::MementerSettings(settings("T"))),
        entry_hash: entry_hash(2),
        actions: Vec::new(),
    });
    assert_eq!(mementer_from_details(&as_entry, &id), None);
    assert_eq!(settings_of(&record("T")), Some(&settings("T")));
    assert_eq!(settings_of(&as_entry), None);
}

#[test]
fn recency_is_a_strict_total_order_on_samples() {
    let a = entry_hash(1);
    let samples = vec![
        revision(&a, &action_hash(1), 10, b"a"),
        revision(&a, &action_hash(1), 10, b"b"),
        revision(&a, &action_hash(2), 10, b"b"),
        revision(&a, &action_hash(1), 11, b""),
        revision(&a, &action_hash(1), -1, b"zz"),
    ];
    for (i, x) in samples.iter().enumerate() {
        for (j, y) in samples.iter().enumerate() {
            if i == j {
                assert!(!edge_outranks(x, y));
            } else {
                assert!(edge_outranks(x, y) != edge_outranks(y, x));
            }
            for z in &samples {
                if edge_outranks(x, y) && edge_outranks(y, z) {
                    assert!(edge_outranks(x, z));
                }
            }
        }
    }
    assert!(edge_outranks(&samples[3], &samples[2]));
    assert!(edge_outranks(&samples[2], &samples[1]));
    assert!(edge_outranks(&samples[1], &samples[0]));
    assert!(edge_outranks(&samples[0], &samples[4]));
}

#[test]
fn next_lookup_asks_for_the_most_recent_link_first() {
    let a = entry_hash(1);
    let edges = vec![
        revision(&a, &action_hash(1), 10, b"a"),
        revision(&a, &action_hash(3), 30, b"c"),
        revision(&a, &action_hash(2), 20, b"b"),
    ];
    assert_eq!(next_lookup(&a, &edges, &ObjectStore::new(), &Vec::new()), Some(1));
}

#[test]
fn next_lookup_stops_once_the_most_recent_link_resolves() {
    let a = entry_hash(1);
    let edges = vec![
        revision(&a, &action_hash(1), 10, b"a"),
        revision(&a, &action_hash(3), 30, b"c"),
        revision(&a, &action_hash(2), 20, b"b"),
    ];
    let store = store_of(vec![(action_hash(3), record("newest"))]);
    assert_eq!(next_lookup(&a, &edges, &store, &Vec::new()), None);
    assert_eq!(title_of(resolve_current(&a, &edges, &store)), Some("newest".to_string()));
}

#[test]
fn next_lookup_moves_on_past_missing_and_unreadable_targets() {
    let a = entry_hash(1);
    let edges = vec![
        revision(&a, &action_hash(1), 10, b"a"),
        revision(&a, &action_hash(3), 30, b"c"),
        revision(&a, &action_hash(2), 20, b"b"),
    ];
    let missing = vec![action_hash(3)];
    assert_eq!(next_lookup(&a, &edges, &ObjectStore::new(), &missing), Some(2));
    let unreadable = store_of(vec![(action_hash(2), Details::Record(RecordDetails { entry: None }))]);
    assert_eq!(next_lookup(&a, &edges, &unreadable, &missing), Some(0));
    let all_missing = vec![action_hash(3), action_hash(1)];
    assert_eq!(next_lookup(&a, &edges, &unreadable, &all_missing), None);
    assert_eq!(resolve_current(&a, &edges, &unreadable), None);
}

#[test]
fn next_lookup_still_asks_for_links_newer_than_the_winner() {
    let a = entry_hash(1);
    let edges = vec![
        revision(&a, &action_hash(1), 10, b"a"),
        revision(&a, &action_hash(3), 30, b"c"),
        revision(&a, &action_hash(2), 20, b"b"),
    ];
    let store = store_of(vec![(action_hash(2), record("second"))]);
    assert_eq!(next_lookup(&a, &edges, &store, &Vec::new()), Some(1));
    assert_eq!(next_lookup(&a, &edges, &store, &vec![action_hash(3)]), None);
}

#[test]
fn next_lookup_ignores_foreign_links_and_other_mementers() {
    let a = entry_hash(1);
    let b = entry_hash(2);
    let mut foreign = revision(&a, &action_hash(4), 99, b"f");
    foreign.is_create_link = false;
    let edges = vec![
        revision(&b, &action_hash(5), 100, b"z"),
        foreign,
        revision(&a, &entry_hash(6), 98, b"e"),
        revision(&a, &action_hash(1), 10, b"a"),
    ];
    assert_eq!(next_lookup(&a, &edges, &ObjectStore::new(), &Vec::new()), Some(3));
    assert_eq!(next_lookup(&b, &edges, &ObjectStore::new(), &Vec::new()), Some(0));
    assert_eq!(next_lookup(&entry_hash(3), &edges, &ObjectStore::new(), &Vec::new()), None);
    assert_eq!(next_lookup(&a, &Vec::new(), &ObjectStore::new(), &Vec::new()), None);
}

#[test]
fn fetching_on_demand_resolves_as_a_full_snapshot_does() {
    let a = entry_hash(1);
    let edges = vec![
        revision(&a, &action_hash(1), 10, b"a"),
        revision(&a, &action_hash(2), 20, b"b"),
        revision(&a, &action_hash(3), 30, b"c"),
        revision(&a, &action_hash(4), 40, b"d"),
    ];
    let held: Vec<(Vec<u8>, Details)> =
        vec![(action_hash(1), record("one")), (action_hash(2), record("two"))];
    let full = store_of(vec![(action_hash(1), record("one")), (action_hash(2), record("two"))]);
    let mut store = ObjectStore::new();
    let mut missing: Vec<Vec<u8>> = Vec::new();
    let mut fetched = 0;
    while let Some(i) = next_lookup(&a, &edges, &store, &missing) {
        fetched += 1;
        let target = edges[i].target.clone();
        match held.iter().find(|(hash, _)| *hash == target) {
            Some((_, Details::Record(found))) => {
                store.put(target, Details::Record(RecordDetails { entry: found.entry.clone() }))
            }
            _ => missing.push(target),
        }
    }
    assert_eq!(fetched, 3);
    assert_eq!(missing, vec![action_hash(4), action_hash(3)]);
    assert_eq!(resolve_current(&a, &edges, &store), resolve_current(&a, &edges, &full));
    assert_eq!(title_of(resolve_current(&a, &edges, &store)), Some("two".to_string()));
}

#[test]
fn is_listed_compares_contents() {
    let list = vec![action_hash(1), vec![1, 2, 3], Vec::new()];
    assert!(is_listed(&list, &action_hash(1)));
    assert!(is_listed(&list, &vec![1, 2, 3]));
    assert!(is_listed(&list, &Vec::new()));
    assert!(!is_listed(&list, &action_hash(2)));
    assert!(!is_listed(&list, &vec![1, 2]));
    assert!(!is_listed(&Vec::new(), &action_hash(1)));
}

#[test]
fn one_more_link_wins_or_changes_nothing() {
    let a = entry_hash(1);
    let store = store_of(vec![
        (action_hash(1), record("one")),
        (action_hash(2), record("two")),
        (action_hash(3), record("three")),
    ]);
    let base = vec![revision(&a, &action_hash(1), 10, b"a"), revision(&a, &action_hash(2), 20, b"b")];
    let before = latest_revision(&a, &base, &store);
    for (target, timestamp) in [(1u8, 5i64), (3, 15), (3, 20), (3, 25), (9, 99)] {
        let mut more = Vec::new();
        more.push(revision(&a, &action_hash(1), 10, b"a"));
        more.push(revision(&a, &action_hash(2), 20, b"b"));
        more.push(revision(&a, &action_hash(target), timestamp, b"n"));
        let after = latest_revision(&a, &more, &store);
        assert!(after == before || after == Some(2));
    }
}
