use multistorageclient::listing::{
    drop_repeats, passes_filter, select_objects, ListAction, ListRequest, RecursiveLister,
};
use multistorageclient::metadata::{DirectoryListing, ListResult, ObjectKind, ObjectMetadata};
use multistorageclient::time::Timestamp;
use std::collections::VecDeque;

fn object(key: &str) -> ObjectMetadata {
    ObjectMetadata::file(
        key.to_string(),
        key.len() as u64,
        Timestamp { secs: 1_700_000_000, nanos: 5 },
        Some(format!("etag-{}", key)),
    )
}

fn keys(entries: &[ObjectMetadata]) -> Vec<String> {
    entries.iter().map(|m| m.key.clone()).collect()
}

/// A store with `fanout` subdirectories per directory down to `levels`
/// levels, and `files` objects in every directory.
fn list_tree(prefix: &str, levels: usize, fanout: usize, files: usize) -> DirectoryListing {
    let depth = if prefix.is_empty() { 0 } else { prefix.split('/').count() };
    let join = |name: String| {
        if prefix.is_empty() {
            name
        } else {
            format!("{}/{}", prefix, name)
        }
    };
    let objects = (0..files).map(|i| object(&join(format!("f{:02}.txt", i)))).collect();
    let common_prefixes = if depth < levels {
        (0..fanout).map(|i| join(format!("d{}", i))).collect()
    } else {
        Vec::new()
    };
    DirectoryListing { objects, common_prefixes }
}

/// Drives a walk to its end. Returns the result, the prefixes listed in the
/// order in which the listings were started, and the largest number of
/// listings in flight.
fn walk(
    mut lister: RecursiveLister,
    store: &dyn Fn(&str) -> DirectoryListing,
) -> (ListResult, Vec<ListRequest>, usize) {
    let mut in_flight: VecDeque<ListRequest> = VecDeque::new();
    let mut started = Vec::new();
    let mut widest = 0usize;
    loop {
        match lister.next_action() {
            ListAction::List(request) => {
                started.push(ListRequest {
                    prefix: request.prefix.clone(),
                    depth: request.depth,
                    remaining_limit: request.remaining_limit,
                });
                in_flight.push_back(request);
                widest = widest.max(in_flight.len());
                assert_eq!(lister.outstanding(), in_flight.len());
            }
            ListAction::Wait => {
                let request = in_flight.pop_front().unwrap();
                let listing = store(&request.prefix);
                lister.complete(&request, listing);
            }
            ListAction::Finished => break,
        }
    }
    (lister.finish(), started, widest)
}

#[test]
fn seeds_are_put_in_canonical_form() {
    let mut lister =
        RecursiveLister::new(vec!["/data//raw/".to_string()], None, None, None, 4);
    match lister.next_action() {
        ListAction::List(request) => {
            assert_eq!(request.prefix, "data/raw");
            assert_eq!(request.depth, 0);
            assert_eq!(request.remaining_limit, None);
        }
        _ => panic!("expected a listing"),
    }
}

#[test]
fn an_empty_walk_is_finished_at_once() {
    let mut lister = RecursiveLister::new(Vec::new(), None, None, None, 4);
    assert!(matches!(lister.next_action(), ListAction::Finished));
    let result = lister.finish();
    assert!(result.objects.is_empty());
    assert!(result.directories.is_empty());
}

#[test]
fn max_depth_zero_lists_only_the_seeds() {
    let lister = RecursiveLister::new(
        vec!["a".to_string(), "b".to_string()],
        None,
        None,
        Some(0),
        4,
    );
    let (result, started, _) = walk(lister, &|p| list_tree(p, 3, 2, 2));
    let listed: Vec<String> = started.iter().map(|r| r.prefix.clone()).collect();
    assert_eq!(listed, vec!["a", "b"]);
    assert_eq!(
        keys(&result.objects),
        vec!["a/f00.txt", "a/f01.txt", "b/f00.txt", "b/f01.txt"]
    );
    // The subdirectories are reported, and none of them is expanded.
    assert_eq!(keys(&result.directories), vec!["a/d0", "a/d1", "b/d0", "b/d1"]);
}

#[test]
fn max_depth_one_goes_one_level_down() {
    let lister = RecursiveLister::new(vec!["a".to_string()], None, None, Some(1), 4);
    let (result, started, _) = walk(lister, &|p| list_tree(p, 3, 2, 1));
    let mut depths: Vec<(String, usize)> =
        started.iter().map(|r| (r.prefix.clone(), r.depth)).collect();
    depths.sort();
    assert_eq!(
        depths,
        vec![
            ("a".to_string(), 0),
            ("a/d0".to_string(), 1),
            ("a/d1".to_string(), 1)
        ]
    );
    assert_eq!(
        keys(&result.objects),
        vec!["a/d0/f00.txt", "a/d1/f00.txt", "a/f00.txt"]
    );
    assert_eq!(
        keys(&result.directories),
        vec!["a/d0", "a/d0/d0", "a/d0/d1", "a/d1", "a/d1/d0", "a/d1/d1"]
    );
}

#[test]
fn without_a_depth_bound_the_whole_tree_is_walked() {
    let lister = RecursiveLister::new(vec!["a".to_string()], None, None, None, 3);
    let (result, started, widest) = walk(lister, &|p| list_tree(p, 3, 2, 1));
    // Levels 1 to 3 below the root of the store: 1 + 2 + 4 directories.
    assert_eq!(started.len(), 7);
    assert_eq!(result.objects.len(), 7);
    assert_eq!(result.directories.len(), 6);
    assert!(widest <= 3);
    let sorted = {
        let mut k = keys(&result.objects);
        k.sort();
        k
    };
    assert_eq!(keys(&result.objects), sorted);
}

#[test]
fn limit_five_of_a_hundred_objects() {
    // Ten directories of ten objects each, below one seed.
    let store = |p: &str| {
        if p == "root" {
            DirectoryListing {
                objects: Vec::new(),
                common_prefixes: (0..10).map(|i| format!("root/d{}", i)).collect(),
            }
        } else {
            DirectoryListing {
                objects: (0..10).map(|i| object(&format!("{}/f{}", p, 9 - i))).collect(),
                common_prefixes: Vec::new(),
            }
        }
    };
    let lister = RecursiveLister::new(vec!["root".to_string()], Some(5), None, None, 1);
    let (result, started, _) = walk(lister, &store);
    assert_eq!(
        keys(&result.objects),
        vec![
            "root/d0/f5",
            "root/d0/f6",
            "root/d0/f7",
            "root/d0/f8",
            "root/d0/f9"
        ]
    );
    // The seed and one directory were enough.
    assert_eq!(started.len(), 2);
    assert_eq!(started[0].remaining_limit, Some(5));
    assert_eq!(started[1].remaining_limit, Some(5));
}

#[test]
fn the_remaining_limit_shrinks_as_objects_come_in() {
    let store = |p: &str| DirectoryListing {
        objects: (0..3).map(|i| object(&format!("{}/f{}", p, i))).collect(),
        common_prefixes: if p == "r" { vec!["r/x".to_string()] } else { Vec::new() },
    };
    let lister = RecursiveLister::new(vec!["r".to_string()], Some(4), None, None, 1);
    let (result, started, _) = walk(lister, &store);
    assert_eq!(started.len(), 2);
    assert_eq!(started[0].remaining_limit, Some(4));
    assert_eq!(started[1].remaining_limit, Some(1));
    assert_eq!(keys(&result.objects), vec!["r/f0", "r/f1", "r/f2", "r/x/f0"]);
}

#[test]
fn a_limit_of_zero_keeps_no_object() {
    let lister = RecursiveLister::new(vec!["a".to_string()], Some(0), None, None, 2);
    let (result, started, _) = walk(lister, &|p| list_tree(p, 2, 2, 2));
    assert_eq!(started.len(), 1);
    assert!(result.objects.is_empty());
    assert_eq!(keys(&result.directories), vec!["a/d0", "a/d1"]);
}

#[test]
fn the_suffix_filter_applies_to_objects_only() {
    let store = |p: &str| DirectoryListing {
        objects: vec![
            object(&format!("{}/a.txt", p)),
            object(&format!("{}/b.bin", p)),
            object(&format!("{}/c.txt", p)),
        ],
        common_prefixes: if p == "r" { vec!["r/sub.bin".to_string()] } else { Vec::new() },
    };
    let lister =
        RecursiveLister::new(vec!["r".to_string()], None, Some(".txt".to_string()), None, 2);
    let (result, _, _) = walk(lister, &store);
    assert_eq!(
        keys(&result.objects),
        vec!["r/a.txt", "r/c.txt", "r/sub.bin/a.txt", "r/sub.bin/c.txt"]
    );
    assert_eq!(keys(&result.directories), vec!["r/sub.bin"]);
}

#[test]
fn directories_stand_with_the_epoch_and_no_size() {
    let lister = RecursiveLister::new(vec!["a".to_string()], None, None, Some(0), 1);
    let (result, _, _) = walk(lister, &|p| list_tree(p, 2, 1, 1));
    assert_eq!(result.directories.len(), 1);
    let dir = &result.directories[0];
    assert_eq!(dir.key, "a/d0");
    assert_eq!(dir.size, 0);
    assert_eq!(dir.last_modified, Timestamp { secs: 0, nanos: 0 });
    assert_eq!(dir.kind, ObjectKind::Directory);
    assert_eq!(dir.etag, None);
    let file = &result.objects[0];
    assert_eq!(file.kind, ObjectKind::File);
    assert_eq!(file.last_modified, Timestamp { secs: 1_700_000_000, nanos: 5 });
    assert_eq!(file.etag, Some("etag-a/f00.txt".to_string()));
}

#[test]
fn equal_keys_keep_their_order_of_arrival() {
    let store = |p: &str| DirectoryListing {
        objects: vec![
            ObjectMetadata::file("same".to_string(), if p == "a" { 1 } else { 2 }, Timestamp::epoch(), None),
            ObjectMetadata::file("z".to_string(), 0, Timestamp::epoch(), None),
            ObjectMetadata::file("Z".to_string(), 0, Timestamp::epoch(), None),
        ],
        common_prefixes: Vec::new(),
    };
    let lister =
        RecursiveLister::new(vec!["a".to_string(), "b".to_string()], None, None, None, 1);
    let (result, _, _) = walk(lister, &store);
    // Each key comes out once, with the entry that was reported first.
    assert_eq!(keys(&result.objects), vec!["Z", "same", "z"]);
    assert_eq!(result.objects[1].size, 1);
}

#[test]
fn a_seed_given_twice_gives_each_key_once() {
    let lister = RecursiveLister::new(
        vec!["a".to_string(), "a".to_string(), "a/".to_string()],
        None,
        None,
        None,
        2,
    );
    let (result, started, _) = walk(lister, &|p| list_tree(p, 2, 2, 2));
    assert_eq!(started.len(), 9);
    assert_eq!(
        keys(&result.objects),
        vec![
            "a/d0/f00.txt",
            "a/d0/f01.txt",
            "a/d1/f00.txt",
            "a/d1/f01.txt",
            "a/f00.txt",
            "a/f01.txt"
        ]
    );
    assert_eq!(keys(&result.directories), vec!["a/d0", "a/d1"]);
}

#[test]
fn nested_seeds_give_each_key_once() {
    let lister =
        RecursiveLister::new(vec!["a".to_string(), "a/d0".to_string()], None, None, None, 4);
    let (result, _, _) = walk(lister, &|p| list_tree(p, 2, 2, 1));
    assert_eq!(
        keys(&result.objects),
        vec!["a/d0/f00.txt", "a/d1/f00.txt", "a/f00.txt"]
    );
    assert_eq!(keys(&result.directories), vec!["a/d0", "a/d1"]);
    let limited =
        RecursiveLister::new(vec!["a".to_string(), "a".to_string()], Some(2), None, Some(0), 1);
    let (result, _, _) = walk(limited, &|p| list_tree(p, 2, 2, 3));
    assert_eq!(keys(&result.objects), vec!["a/f00.txt", "a/f01.txt"]);
}

#[test]
fn drop_repeats_keeps_the_first_of_each_run() {
    let entries = vec![object("a"), object("a"), object("b"), object("a"), object("a")];
    assert_eq!(keys(&drop_repeats(entries)), vec!["a", "b", "a"]);
    assert_eq!(keys(&drop_repeats(Vec::new())).len(), 0);
}

#[test]
fn the_window_bounds_the_listings_in_flight() {
    let seeds: Vec<String> = (0..7).map(|i| format!("s{}", i)).collect();
    let mut lister = RecursiveLister::new(seeds, None, None, Some(0), 3);
    assert_eq!(lister.pending(), 7);
    for _ in 0..3 {
        assert!(matches!(lister.next_action(), ListAction::List(_)));
    }
    assert_eq!(lister.outstanding(), 3);
    assert_eq!(lister.pending(), 4);
    assert!(matches!(lister.next_action(), ListAction::Wait));
    assert_eq!(lister.outstanding(), 3);
    assert_eq!(lister.pending(), 4);
    assert_eq!(lister.objects_found(), 0);
    assert!(!lister.limit_reached());
}

#[test]
fn select_objects_filters_then_caps() {
    let entries = || {
        vec![object("a.txt"), object("b.bin"), object("c.txt"), object("d.txt")]
    };
    let txt = Some(".txt".to_string());
    assert_eq!(
        keys(&select_objects(entries(), None, &txt)),
        vec!["a.txt", "c.txt", "d.txt"]
    );
    assert_eq!(keys(&select_objects(entries(), Some(2), &txt)), vec!["a.txt", "c.txt"]);
    assert_eq!(keys(&select_objects(entries(), Some(9), &txt)).len(), 3);
    assert_eq!(keys(&select_objects(entries(), Some(0), &None)).len(), 0);
    assert_eq!(keys(&select_objects(entries(), Some(3), &None)), vec!["a.txt", "b.bin", "c.txt"]);
    assert!(passes_filter(&"x/y.txt".to_string(), &txt));
    assert!(!passes_filter(&"x/y.txt.bak".to_string(), &txt));
    assert!(!passes_filter(&"txt".to_string(), &txt));
    assert!(passes_filter(&"anything".to_string(), &None));
}
