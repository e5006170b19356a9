use mementer::edge::Edge;
use mementer::entries::Bead;
use mementer::entries::EntryTypes;
use mementer::entries::LinkTypes;
use mementer::entries::MementerSettings;
use mementer::store::ActionInfo;
use mementer::store::Details;
use mementer::store::EntryDetails;
use mementer::store::ObjectStore;
use mementer::store::RecordDetails;
use mementer::timeline::bead_from_details;
use mementer::timeline::get_beads;
use mementer::timeline::get_beads_inner;
use mementer::timeline::BeadOutput;
use mementer::timeline::CreateBeadOutput;

fn hash_of(kind: u8, fill: u8) -> Vec<u8> {
    let mut bytes = vec![0x84, kind, 0x24];
    bytes.resize(39, fill);
    bytes
}

fn bead(text: &str) -> Bead {
    Bead {
        text: text.to_string(),
        time_stamp: "2024-05-01".to_string(),
        created_at: "2024-06-01".to_string(),
    }
}

fn creation(n: u8, timestamp: i64) -> ActionInfo {
    ActionInfo { action_hash: hash_of(0x29, n), author: hash_of(0x20, n), timestamp }
}

fn stored_bead(text: &str, n: u8) -> Details {
    Details::Entry(EntryDetails {
        entry: Some(EntryTypes::Bead(bead(text))),
        entry_hash: hash_of(0x21, n),
        actions: vec![creation(n, 1000 + n as i64), creation(n + 100, 5)],
    })
}

fn bead_link(base: &[u8], target: &[u8], timestamp: i64) -> Edge {
    Edge {
        base: base.to_vec(),
        target: target.to_vec(),
        link_type: LinkTypes::Bead,
        action: ActionInfo { action_hash: hash_of(0x29, 200), author: hash_of(0x20, 1), timestamp },
        is_create_link: true,
    }
}

fn snapshot(items: Vec<(Vec<u8>, Details)>) -> ObjectStore {
    let mut store = ObjectStore::new();
    for (hash, details) in items {
        store.put(hash, details);
    }
    store
}

#[test]
fn bead_is_read_with_its_first_creating_action() {
    assert_eq!(
        bead_from_details(&stored_bead("hello", 7)),
        Some(CreateBeadOutput {
            action_hash: hash_of(0x29, 7),
            entry_hash: hash_of(0x21, 7),
            agent_key: hash_of(0x20, 7),
            bead: bead("hello"),
            timestamp: 1007,
        })
    );
}

#[test]
fn record_details_hold_no_bead() {
    let details = Details::Record(RecordDetails { entry: Some(EntryTypes::Bead(bead("x"))) });
    assert_eq!(bead_from_details(&details), None);
}

#[test]
fn entry_of_another_type_holds_no_bead() {
    let settings = MementerSettings {
        title: "T".to_string(),
        start_date: "a".to_string(),
        end_date: "b".to_string(),
        large_slices: 1,
        medium_slices: 2,
        small_slices: 3,
    };
    let details = Details::Entry(EntryDetails {
        entry: Some(EntryTypes::MementerSettings(settings)),
        entry_hash: hash_of(0x21, 1),
        actions: vec![creation(1, 1)],
    });
    assert_eq!(bead_from_details(&details), None);
    let undecoded = Details::Entry(EntryDetails {
        entry: None,
        entry_hash: hash_of(0x21, 1),
        actions: vec![creation(1, 1)],
    });
    assert_eq!(bead_from_details(&undecoded), None);
}

#[test]
fn bead_without_creating_action_is_dropped() {
    let details = Details::Entry(EntryDetails {
        entry: Some(EntryTypes::Bead(bead("orphan"))),
        entry_hash: hash_of(0x21, 1),
        actions: Vec::new(),
    });
    assert_eq!(bead_from_details(&details), None);
}

#[test]
fn timeline_lists_beads_in_link_order() {
    let m = hash_of(0x21, 50);
    let store = snapshot(vec![
        (hash_of(0x21, 1), stored_bead("first", 1)),
        (hash_of(0x21, 2), stored_bead("second", 2)),
        (hash_of(0x21, 3), stored_bead("third", 3)),
    ]);
    let edges = vec![
        bead_link(&m, &hash_of(0x21, 2), 30),
        bead_link(&m, &hash_of(0x21, 3), 10),
        bead_link(&m, &hash_of(0x21, 1), 20),
    ];
    assert_eq!(
        get_beads(&m, &edges, &store),
        vec![
            BeadOutput { entry_hash: hash_of(0x21, 2), bead: bead("second") },
            BeadOutput { entry_hash: hash_of(0x21, 3), bead: bead("third") },
            BeadOutput { entry_hash: hash_of(0x21, 1), bead: bead("first") },
        ]
    );
}

#[test]
fn absent_and_undecodable_targets_are_left_out() {
    let m = hash_of(0x21, 50);
    let store = snapshot(vec![
        (hash_of(0x21, 1), stored_bead("kept", 1)),
        (
            hash_of(0x21, 2),
            Details::Entry(EntryDetails {
                entry: None,
                entry_hash: hash_of(0x21, 2),
                actions: vec![creation(2, 2)],
            }),
        ),
        (hash_of(0x29, 3), Details::Record(RecordDetails { entry: Some(EntryTypes::Bead(bead("record"))) })),
        (hash_of(0x21, 5), stored_bead("also kept", 5)),
    ]);
    let edges = vec![
        bead_link(&m, &hash_of(0x21, 4), 1),
        bead_link(&m, &hash_of(0x21, 2), 2),
        bead_link(&m, &hash_of(0x21, 1), 3),
        bead_link(&m, &hash_of(0x29, 3), 4),
        bead_link(&m, &hash_of(0x21, 5), 5),
    ];
    assert_eq!(
        get_beads(&m, &edges, &store),
        vec![
            BeadOutput { entry_hash: hash_of(0x21, 1), bead: bead("kept") },
            BeadOutput { entry_hash: hash_of(0x21, 5), bead: bead("also kept") },
        ]
    );
}

#[test]
fn listing_with_nothing_readable_is_empty_not_an_error() {
    let m = hash_of(0x21, 50);
    let edges = vec![bead_link(&m, &hash_of(0x21, 1), 1), bead_link(&m, &hash_of(0x21, 2), 2)];
    assert_eq!(get_beads(&m, &edges, &ObjectStore::new()), Vec::new());
    assert_eq!(get_beads(&m, &Vec::new(), &ObjectStore::new()), Vec::new());
}

#[test]
fn external_and_malformed_targets_are_left_out() {
    let m = hash_of(0x21, 50);
    let store = snapshot(vec![
        (hash_of(0x2f, 1), stored_bead("external", 1)),
        (vec![1, 2, 3], stored_bead("short", 2)),
        (hash_of(0x21, 3), stored_bead("kept", 3)),
    ]);
    let edges = vec![
        bead_link(&m, &hash_of(0x2f, 1), 1),
        bead_link(&m, &vec![1, 2, 3], 2),
        bead_link(&m, &hash_of(0x21, 3), 3),
    ];
    assert_eq!(
        get_beads(&m, &edges, &store),
        vec![BeadOutput { entry_hash: hash_of(0x21, 3), bead: bead("kept") }]
    );
}

#[test]
fn links_of_other_types_and_bases_are_left_out() {
    let m = hash_of(0x21, 50);
    let other = hash_of(0x21, 51);
    let store = snapshot(vec![
        (hash_of(0x21, 1), stored_bead("mine", 1)),
        (hash_of(0x21, 2), stored_bead("theirs", 2)),
        (hash_of(0x21, 3), stored_bead("settings link", 3)),
        (hash_of(0x21, 4), stored_bead("foreign", 4)),
    ]);
    let mut settings_link = bead_link(&m, &hash_of(0x21, 3), 3);
    settings_link.link_type = LinkTypes::MementerSettings;
    let mut foreign = bead_link(&m, &hash_of(0x21, 4), 4);
    foreign.is_create_link = false;
    let edges = vec![
        bead_link(&other, &hash_of(0x21, 2), 2),
        settings_link,
        foreign,
        bead_link(&m, &hash_of(0x21, 1), 1),
    ];
    assert_eq!(
        get_beads(&m, &edges, &store),
        vec![BeadOutput { entry_hash: hash_of(0x21, 1), bead: bead("mine") }]
    );
    assert_eq!(
        get_beads(&other, &edges, &store),
        vec![BeadOutput { entry_hash: hash_of(0x21, 2), bead: bead("theirs") }]
    );
}

#[test]
fn bead_linked_twice_is_listed_twice() {
    let m = hash_of(0x21, 50);
    let store = snapshot(vec![(hash_of(0x21, 1), stored_bead("twice", 1))]);
    let edges = vec![bead_link(&m, &hash_of(0x21, 1), 1), bead_link(&m, &hash_of(0x21, 1), 2)];
    assert_eq!(get_beads(&m, &edges, &store).len(), 2);
}

#[test]
fn get_beads_is_get_beads_inner() {
    let m = hash_of(0x21, 50);
    let store = snapshot(vec![(hash_of(0x21, 1), stored_bead("one", 1))]);
    let edges = vec![bead_link(&m, &hash_of(0x21, 1), 1), bead_link(&m, &hash_of(0x21, 9), 2)];
    assert_eq!(get_beads(&m, &edges, &store), get_beads_inner(&m, &edges, &store));
}
