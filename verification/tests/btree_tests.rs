use sop::{
    Btree, BtreeOptions, Context, Database, DatabaseOptions, DatabaseType, Engine, FieldValue,
    IndexFieldSpecification, IndexSpecification, Item, Key, KeyField, L2CacheType, Transaction,
};

fn fresh() -> (Engine, Context) {
    let mut eng = Engine::new();
    let ctx = Context::new(&mut eng);
    (eng, ctx)
}

fn standalone(eng: &mut Engine, ctx: &Context) -> Database {
    let opts = DatabaseOptions {
        stores_folders: None,
        keyspace: None,
        cache_type: L2CacheType::InMemory,
        db_type: DatabaseType::Standalone,
    };
    Database::new(eng, ctx, opts).unwrap()
}

fn text_key(s: &str) -> Key {
    Key::Primitive(FieldValue::Text(s.to_string()))
}

fn complex_key(region: &str, id: i64) -> Key {
    Key::Composite(vec![
        KeyField { field_name: "Region".to_string(), value: FieldValue::Text(region.to_string()) },
        KeyField { field_name: "Id".to_string(), value: FieldValue::Int(id) },
    ])
}

#[test]
fn test_complex_key() {
    let (mut eng, ctx) = fresh();
    let db = standalone(&mut eng, &ctx);

    let index_spec = IndexSpecification {
        index_fields: vec![
            IndexFieldSpecification {
                field_name: "Region".to_string(),
                ascending_sort_order: true,
            },
            IndexFieldSpecification { field_name: "Id".to_string(), ascending_sort_order: true },
        ],
    };

    {
        let trans = db.begin_transaction(&mut eng, &ctx).unwrap();
        let mut opts = BtreeOptions::default();
        opts.set_index_specification(index_spec);
        opts.is_primitive_key = false;

        let btree = Btree::create(&mut eng, &ctx, "complex", &trans, Some(opts)).unwrap();

        btree.add(&mut eng, &ctx, complex_key("US", 1), "Val1".to_string()).unwrap();
        btree.add(&mut eng, &ctx, complex_key("EU", 2), "Val2".to_string()).unwrap();

        trans.commit(&mut eng, &ctx).unwrap();
    }

    {
        let trans = db.begin_transaction(&mut eng, &ctx).unwrap();
        let mut opts = BtreeOptions::default();
        opts.is_primitive_key = false;
        let btree = db.open_btree(&mut eng, &ctx, "complex", &trans, Some(opts)).unwrap();

        let found1 = btree.find(&mut eng, &ctx, complex_key("US", 1)).unwrap();
        assert!(found1);

        let found2 = btree.find(&mut eng, &ctx, complex_key("US", 2)).unwrap();
        assert!(!found2);
    }
}

#[test]
fn test_user_btree_cud_batch() {
    let (mut eng, ctx) = fresh();
    let db = standalone(&mut eng, &ctx);

    // 1. Create (Insert)
    {
        let trans = db.begin_transaction(&mut eng, &ctx).unwrap();
        let btree = db.new_btree(&mut eng, &ctx, "users", &trans, None).unwrap();

        let mut items = Vec::new();
        for i in 0..100 {
            items.push(Item::new(
                text_key(&format!("user_{}", i)),
                format!("User Name {}", i),
            ));
        }
        btree.add_batch(&mut eng, &ctx, items).unwrap();
        trans.commit(&mut eng, &ctx).unwrap();
    }

    // Verify Insert
    {
        let trans = db.begin_transaction(&mut eng, &ctx).unwrap();
        let btree = db.open_btree(&mut eng, &ctx, "users", &trans, None).unwrap();

        assert_eq!(100, btree.count(&eng).unwrap());

        assert!(btree.find(&mut eng, &ctx, text_key("user_50")).unwrap());
        let item = btree.get_value(&eng, &ctx, text_key("user_50")).unwrap();
        assert!(item.is_some());
        assert_eq!(Some("User Name 50".to_string()), item.unwrap().value);
    }

    // 2. Update
    {
        let trans = db.begin_transaction(&mut eng, &ctx).unwrap();
        let btree = db.open_btree(&mut eng, &ctx, "users", &trans, None).unwrap();

        let mut items = Vec::new();
        for i in 0..100 {
            items.push(Item::new(
                text_key(&format!("user_{}", i)),
                format!("Updated User {}", i),
            ));
        }
        btree.update_batch(&mut eng, &ctx, items).unwrap();
        trans.commit(&mut eng, &ctx).unwrap();
    }

    // Verify Update
    {
        let trans = db.begin_transaction(&mut eng, &ctx).unwrap();
        let btree = db.open_btree(&mut eng, &ctx, "users", &trans, None).unwrap();

        let item = btree.get_value(&eng, &ctx, text_key("user_50")).unwrap();
        assert!(item.is_some());
        assert_eq!(Some("Updated User 50".to_string()), item.unwrap().value);
    }

    // 3. Delete
    {
        let trans = db.begin_transaction(&mut eng, &ctx).unwrap();
        let btree = db.open_btree(&mut eng, &ctx, "users", &trans, None).unwrap();

        let mut keys = Vec::new();
        for i in 0..100 {
            keys.push(text_key(&format!("user_{}", i)));
        }
        btree.remove_batch(&mut eng, &ctx, keys).unwrap();
        trans.commit(&mut eng, &ctx).unwrap();
    }

    // Verify Delete
    {
        let trans = db.begin_transaction(&mut eng, &ctx).unwrap();
        let btree = db.open_btree(&mut eng, &ctx, "users", &trans, None).unwrap();

        assert_eq!(0, btree.count(&eng).unwrap());
        assert!(!btree.find(&mut eng, &ctx, text_key("user_50")).unwrap());
    }
}

#[test]
fn test_cursor_walk_visits_all_keys_ascending() {
    let (mut eng, ctx) = fresh();
    let db = standalone(&mut eng, &ctx);
    let trans = db.begin_transaction(&mut eng, &ctx).unwrap();
    let btree = db.new_btree(&mut eng, &ctx, "walk", &trans, None).unwrap();

    // Inserted out of order; the store keeps them ascending.
    for name in ["delta", "alpha", "charlie", "bravo"] {
        btree.add(&mut eng, &ctx, text_key(name), name.to_uppercase()).unwrap();
    }

    let mut visited = Vec::new();
    assert!(btree.first(&mut eng, &ctx).unwrap());
    loop {
        let item = btree.current_key(&eng, &ctx).unwrap().unwrap();
        match item.key {
            Key::Primitive(FieldValue::Text(s)) => visited.push(s),
            other => panic!("unexpected key shape: {:?}", other),
        }
        if !btree.next(&mut eng, &ctx).unwrap() {
            break;
        }
    }
    assert_eq!(visited, vec!["alpha", "bravo", "charlie", "delta"]);
    // The walk is over: the cursor sits past the end and another next
    // still answers false.
    assert!(!btree.next(&mut eng, &ctx).unwrap());

    // Walking back from the last key visits them descending.
    assert!(btree.last(&mut eng, &ctx).unwrap());
    let last = btree.current_value(&eng, &ctx).unwrap().unwrap();
    assert_eq!(last, "DELTA");
    assert!(btree.previous(&mut eng, &ctx).unwrap());
    let prev = btree.current_value(&eng, &ctx).unwrap().unwrap();
    assert_eq!(prev, "CHARLIE");
}

#[test]
fn test_upsert_batch_is_idempotent() {
    let (mut eng, ctx) = fresh();
    let db = standalone(&mut eng, &ctx);
    let trans = db.begin_transaction(&mut eng, &ctx).unwrap();
    let btree = db.new_btree(&mut eng, &ctx, "idem", &trans, None).unwrap();

    btree.add(&mut eng, &ctx, text_key("keep"), "original".to_string()).unwrap();

    let batch = || {
        vec![
            Item::new(text_key("a"), "1".to_string()),
            Item::new(text_key("keep"), "replaced".to_string()),
            Item::new(text_key("b"), "2".to_string()),
        ]
    };
    btree.upsert_batch(&mut eng, &ctx, batch()).unwrap();
    let once: Vec<(String, Option<String>)> = btree
        .get_items(&eng, &ctx)
        .unwrap()
        .into_iter()
        .map(|it| match it.key {
            Key::Primitive(FieldValue::Text(s)) => (s, it.value),
            other => panic!("unexpected key shape: {:?}", other),
        })
        .collect();

    btree.upsert_batch(&mut eng, &ctx, batch()).unwrap();
    let twice: Vec<(String, Option<String>)> = btree
        .get_items(&eng, &ctx)
        .unwrap()
        .into_iter()
        .map(|it| match it.key {
            Key::Primitive(FieldValue::Text(s)) => (s, it.value),
            other => panic!("unexpected key shape: {:?}", other),
        })
        .collect();

    assert_eq!(once, twice);
    assert_eq!(3, btree.count(&eng).unwrap());
    let kept = btree.get_value(&eng, &ctx, text_key("keep")).unwrap().unwrap();
    assert_eq!(Some("replaced".to_string()), kept.value);
}

#[test]
fn test_concurrent_style_disjoint_upserts() {
    let (mut eng, ctx) = fresh();
    let db = standalone(&mut eng, &ctx);

    // Pre-seed the store with 10 items.
    {
        let trans = db.begin_transaction(&mut eng, &ctx).unwrap();
        let btree = db.new_btree(&mut eng, &ctx, "load", &trans, None).unwrap();
        let mut items = Vec::new();
        for i in 0..10 {
            items.push(Item::new(text_key(&format!("seed_{:03}", i)), "seed".to_string()));
        }
        btree.add_batch(&mut eng, &ctx, items).unwrap();
        trans.commit(&mut eng, &ctx).unwrap();
    }

    // 10 independent transactions each upsert 100 disjoint keys.
    for t in 0..10 {
        let trans = db.begin_transaction(&mut eng, &ctx).unwrap();
        let btree = db.open_btree(&mut eng, &ctx, "load", &trans, None).unwrap();
        let mut items = Vec::new();
        for i in 0..100 {
            items.push(Item::new(
                text_key(&format!("worker_{}_{:03}", t, i)),
                format!("w{}", t),
            ));
        }
        btree.upsert_batch(&mut eng, &ctx, items).unwrap();
        trans.commit(&mut eng, &ctx).unwrap();
    }

    // After all commit: the count is seeded + 1000, and every key is
    // found.
    let trans = db.begin_transaction(&mut eng, &ctx).unwrap();
    let btree = db.open_btree(&mut eng, &ctx, "load", &trans, None).unwrap();
    assert_eq!(1010, btree.count(&eng).unwrap());
    for i in 0..10 {
        assert!(btree.find(&mut eng, &ctx, text_key(&format!("seed_{:03}", i))).unwrap());
    }
    for t in 0..10 {
        for i in 0..100 {
            assert!(btree
                .find(&mut eng, &ctx, text_key(&format!("worker_{}_{:03}", t, i)))
                .unwrap());
        }
    }
}

#[test]
fn test_ride_along_fields_do_not_discriminate() {
    let (mut eng, ctx) = fresh();
    let db = standalone(&mut eng, &ctx);
    let trans = db.begin_transaction(&mut eng, &ctx).unwrap();

    // An index specification over 2 of the 4 key fields.
    let index_spec = IndexSpecification {
        index_fields: vec![
            IndexFieldSpecification {
                field_name: "Region".to_string(),
                ascending_sort_order: true,
            },
            IndexFieldSpecification { field_name: "Id".to_string(), ascending_sort_order: true },
        ],
    };
    let mut opts = BtreeOptions::default();
    opts.set_index_specification(index_spec);
    opts.is_primitive_key = false;
    opts.is_unique = true;
    let btree = Btree::create(&mut eng, &ctx, "tagged", &trans, Some(opts)).unwrap();

    let wide_key = |region: &str, id: i64, owner: &str, note: &str| {
        Key::Composite(vec![
            KeyField {
                field_name: "Region".to_string(),
                value: FieldValue::Text(region.to_string()),
            },
            KeyField { field_name: "Id".to_string(), value: FieldValue::Int(id) },
            KeyField {
                field_name: "Owner".to_string(),
                value: FieldValue::Text(owner.to_string()),
            },
            KeyField { field_name: "Note".to_string(), value: FieldValue::Text(note.to_string()) },
        ])
    };

    btree
        .add(&mut eng, &ctx, wide_key("US", 7, "ada", "first"), "payload".to_string())
        .unwrap();

    // A key differing only in the two non-indexed fields is a
    // duplicate: the unique store refuses it, and a find of it
    // succeeds.
    let twin = wide_key("US", 7, "grace", "second");
    let refused = btree.add(&mut eng, &ctx, twin, "other".to_string());
    assert!(refused.is_err());
    assert!(btree.find(&mut eng, &ctx, wide_key("US", 7, "x", "y")).unwrap());
    assert!(!btree.find(&mut eng, &ctx, wide_key("US", 8, "ada", "first")).unwrap());
    assert_eq!(1, btree.count(&eng).unwrap());

    // update_current_key rewrites the ride-along fields and never
    // touches the value.
    btree.find(&mut eng, &ctx, wide_key("US", 7, "_", "_")).unwrap();
    let relabeled = Item {
        key: wide_key("US", 7, "grace", "relabeled"),
        value: None,
        id: None,
    };
    btree.update_current_key(&mut eng, &ctx, relabeled).unwrap();

    let read = btree.get_value(&eng, &ctx, wide_key("US", 7, "_", "_")).unwrap().unwrap();
    assert_eq!(Some("payload".to_string()), read.value);
    match &read.key {
        Key::Composite(fields) => {
            let owner = fields.iter().find(|f| f.field_name == "Owner").unwrap();
            match &owner.value {
                FieldValue::Text(s) => assert_eq!("grace", s),
                other => panic!("unexpected owner value: {:?}", other),
            }
        },
        other => panic!("unexpected key shape: {:?}", other),
    }
}

#[test]
fn test_remove_batch_then_commit_makes_keys_absent() {
    let (mut eng, ctx) = fresh();
    let db = standalone(&mut eng, &ctx);
    {
        let trans = db.begin_transaction(&mut eng, &ctx).unwrap();
        let btree = db.new_btree(&mut eng, &ctx, "gone", &trans, None).unwrap();
        for name in ["one", "two", "three"] {
            btree.add(&mut eng, &ctx, text_key(name), name.to_string()).unwrap();
        }
        trans.commit(&mut eng, &ctx).unwrap();
    }
    {
        let trans = db.begin_transaction(&mut eng, &ctx).unwrap();
        let btree = db.open_btree(&mut eng, &ctx, "gone", &trans, None).unwrap();
        btree
            .remove_batch(&mut eng, &ctx, vec![text_key("one"), text_key("three")])
            .unwrap();
        trans.commit(&mut eng, &ctx).unwrap();
    }
    {
        let trans = db.begin_transaction(&mut eng, &ctx).unwrap();
        let btree = db.open_btree(&mut eng, &ctx, "gone", &trans, None).unwrap();
        assert!(!btree.find(&mut eng, &ctx, text_key("one")).unwrap());
        assert!(btree.find(&mut eng, &ctx, text_key("two")).unwrap());
        assert!(!btree.find(&mut eng, &ctx, text_key("three")).unwrap());
        assert_eq!(1, btree.count(&eng).unwrap());
    }
}

#[test]
fn test_rollback_discards_and_transaction_is_single_use() {
    let (mut eng, ctx) = fresh();
    let db = standalone(&mut eng, &ctx);
    {
        let trans = db.begin_transaction(&mut eng, &ctx).unwrap();
        let btree = db.new_btree(&mut eng, &ctx, "fickle", &trans, None).unwrap();
        btree.add(&mut eng, &ctx, text_key("kept"), "yes".to_string()).unwrap();
        trans.commit(&mut eng, &ctx).unwrap();
        // A transaction ends in exactly one terminal call.
        let again = trans.commit(&mut eng, &ctx);
        assert_eq!(Err("transaction is not active".to_string()), again);
    }
    {
        let trans = db.begin_transaction(&mut eng, &ctx).unwrap();
        let btree = db.open_btree(&mut eng, &ctx, "fickle", &trans, None).unwrap();
        btree.add(&mut eng, &ctx, text_key("dropped"), "no".to_string()).unwrap();
        trans.rollback(&mut eng, &ctx).unwrap();
        let again = trans.rollback(&mut eng, &ctx);
        assert_eq!(Err("transaction is not active".to_string()), again);
    }
    {
        let trans = db.begin_transaction(&mut eng, &ctx).unwrap();
        let btree = db.open_btree(&mut eng, &ctx, "fickle", &trans, None).unwrap();
        assert!(btree.find(&mut eng, &ctx, text_key("kept")).unwrap());
        assert!(!btree.find(&mut eng, &ctx, text_key("dropped")).unwrap());
    }
}

#[test]
fn test_get_keys_paging_windows() {
    let (mut eng, ctx) = fresh();
    let db = standalone(&mut eng, &ctx);
    let trans = db.begin_transaction(&mut eng, &ctx).unwrap();
    let btree = db.new_btree(&mut eng, &ctx, "pages", &trans, None).unwrap();
    for i in 0..9 {
        btree
            .add(&mut eng, &ctx, text_key(&format!("k{}", i)), format!("v{}", i))
            .unwrap();
    }

    let as_text = |keys: Vec<Key>| -> Vec<String> {
        keys.into_iter()
            .map(|k| match k {
                Key::Primitive(FieldValue::Text(s)) => s,
                other => panic!("unexpected key shape: {:?}", other),
            })
            .collect()
    };

    // No paging window: every key, ascending.
    let all = as_text(btree.get_keys(&eng, &ctx, None).unwrap());
    assert_eq!(9, all.len());
    assert_eq!("k0", all[0]);
    assert_eq!("k8", all[8]);

    // Page 1 of size 4 from an unpositioned cursor starts after one
    // whole page.
    let page = as_text(
        btree
            .get_keys(&eng, &ctx, Some(sop::PagingInfo { page_size: 4, page_offset: 1 }))
            .unwrap(),
    );
    assert_eq!(vec!["k4", "k5", "k6", "k7"], page);

    // Pages start from the cursor position once one is set.
    assert!(btree.find(&mut eng, &ctx, text_key("k2")).unwrap());
    let from_cursor = as_text(
        btree
            .get_keys(&eng, &ctx, Some(sop::PagingInfo { page_size: 3, page_offset: 0 }))
            .unwrap(),
    );
    assert_eq!(vec!["k2", "k3", "k4"], from_cursor);
}

#[test]
fn test_add_if_not_exist_skips_present_keys() {
    let (mut eng, ctx) = fresh();
    let db = standalone(&mut eng, &ctx);
    let trans = db.begin_transaction(&mut eng, &ctx).unwrap();
    let btree = db.new_btree(&mut eng, &ctx, "careful", &trans, None).unwrap();

    btree.add(&mut eng, &ctx, text_key("here"), "old".to_string()).unwrap();
    btree
        .add_if_not_exist(&mut eng, &ctx, text_key("here"), "new".to_string())
        .unwrap();
    btree
        .add_if_not_exist(&mut eng, &ctx, text_key("fresh"), "new".to_string())
        .unwrap();

    let kept = btree.get_value(&eng, &ctx, text_key("here")).unwrap().unwrap();
    assert_eq!(Some("old".to_string()), kept.value);
    let added = btree.get_value(&eng, &ctx, text_key("fresh")).unwrap().unwrap();
    assert_eq!(Some("new".to_string()), added.value);
    assert_eq!(2, btree.count(&eng).unwrap());
}

#[test]
fn test_update_key_rewrites_ride_along_and_keeps_value() {
    let (mut eng, ctx) = fresh();
    let db = standalone(&mut eng, &ctx);
    let trans = db.begin_transaction(&mut eng, &ctx).unwrap();

    let index_spec = IndexSpecification {
        index_fields: vec![IndexFieldSpecification {
            field_name: "Id".to_string(),
            ascending_sort_order: true,
        }],
    };
    let mut opts = BtreeOptions::default();
    opts.set_index_specification(index_spec);
    opts.is_primitive_key = false;
    let btree = Btree::create(&mut eng, &ctx, "meta", &trans, Some(opts)).unwrap();

    let tagged = |id: i64, tag: &str| {
        Key::Composite(vec![
            KeyField { field_name: "Id".to_string(), value: FieldValue::Int(id) },
            KeyField { field_name: "Tag".to_string(), value: FieldValue::Text(tag.to_string()) },
        ])
    };

    btree.add(&mut eng, &ctx, tagged(5, "old"), "big value".to_string()).unwrap();
    btree
        .update_key(&mut eng, &ctx, Item { key: tagged(5, "new"), value: None, id: None })
        .unwrap();

    let read = btree.get_value(&eng, &ctx, tagged(5, "anything")).unwrap().unwrap();
    assert_eq!(Some("big value".to_string()), read.value);
    match &read.key {
        Key::Composite(fields) => {
            let tag = fields.iter().find(|f| f.field_name == "Tag").unwrap();
            match &tag.value {
                FieldValue::Text(s) => assert_eq!("new", s),
                other => panic!("unexpected tag value: {:?}", other),
            }
        },
        other => panic!("unexpected key shape: {:?}", other),
    }
}

#[test]
fn test_upsert_batch_idempotent_with_conflicting_duplicates() {
    let (mut eng, ctx) = fresh();
    let db = standalone(&mut eng, &ctx);
    let trans = db.begin_transaction(&mut eng, &ctx).unwrap();
    let btree = db.new_btree(&mut eng, &ctx, "clash", &trans, None).unwrap();

    // The batch names the same key twice with different values: the
    // last occurrence wins, both times.
    let batch = || {
        vec![
            Item::new(text_key("k"), "first".to_string()),
            Item::new(text_key("other"), "x".to_string()),
            Item::new(text_key("k"), "second".to_string()),
        ]
    };
    btree.upsert_batch(&mut eng, &ctx, batch()).unwrap();
    let after_once = btree.get_value(&eng, &ctx, text_key("k")).unwrap().unwrap();
    assert_eq!(Some("second".to_string()), after_once.value);
    assert_eq!(2, btree.count(&eng).unwrap());

    btree.upsert_batch(&mut eng, &ctx, batch()).unwrap();
    let after_twice = btree.get_value(&eng, &ctx, text_key("k")).unwrap().unwrap();
    assert_eq!(Some("second".to_string()), after_twice.value);
    assert_eq!(2, btree.count(&eng).unwrap());
}
