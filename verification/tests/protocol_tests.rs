use sop::btree::{BtreeMeta, Item, ItemBatch, PagingInfo};
use sop::codec::{encode_batch, encode_index_specification, encode_meta};
use sop::envelope::{decode_handle, decode_sentinel};
use sop::{
    CassandraAuthenticator, CassandraConfig, Context, Database, DatabaseOptions, DatabaseType,
    Engine, FieldValue, IndexFieldSpecification, IndexSpecification, Key, KeyField, L2CacheType,
    LogLevel, Outcome, close_cassandra_connection, close_redis_connection, manage_logging,
    open_cassandra_connection, open_redis_connection,
};

fn fresh() -> (Engine, Context) {
    let mut eng = Engine::new();
    let ctx = Context::new(&mut eng);
    (eng, ctx)
}

fn standalone(eng: &mut Engine, ctx: &Context) -> Database {
    Database::new(eng, ctx, DatabaseOptions::default()).unwrap()
}

#[test]
fn test_sentinel_decoding_three_ways() {
    assert_eq!(Outcome::Accepted, decode_sentinel("true".to_string()));
    assert_eq!(Outcome::Refused, decode_sentinel("false".to_string()));
    assert_eq!(
        Outcome::Failed("page torn".to_string()),
        decode_sentinel("page torn".to_string())
    );
    // Near-sentinels are errors, not booleans.
    assert_eq!(Outcome::Failed("True".to_string()), decode_sentinel("True".to_string()));
    assert_eq!(Outcome::Failed("".to_string()), decode_sentinel("".to_string()));
}

#[test]
fn test_handle_decoding_validates_identifiers() {
    // A well-formed handle comes back as the handle.
    let ok = decode_handle(Some("00000000000000000000000000000001".to_string()));
    assert_eq!(Ok(Some("00000000000000000000000000000001".to_string())), ok);
    let hyphenated = decode_handle(Some("550e8400-e29b-41d4-a716-446655440000".to_string()));
    assert_eq!(Ok(Some("550e8400-e29b-41d4-a716-446655440000".to_string())), hyphenated);
    // Anything else is itself the error message.
    let err = decode_handle(Some("no btree of that name".to_string()));
    assert_eq!(Err("no btree of that name".to_string()), err);
    // A null buffer carries no handle.
    assert_eq!(Ok(None), decode_handle(None));
}

#[test]
fn test_minted_handles_are_distinct_simple_ids() {
    let (mut eng, ctx) = fresh();
    let a = standalone(&mut eng, &ctx);
    let b = standalone(&mut eng, &ctx);
    assert_ne!(a.id, b.id);
    for id in [&a.id, &b.id] {
        assert_eq!(32, id.len());
        assert!(id.chars().all(|c| c.is_ascii_hexdigit()));
        assert!(uuid::Uuid::parse_str(id).is_ok());
    }
}

#[test]
fn test_context_error_reports_deferred_failures() {
    let (mut eng, ctx) = fresh();
    assert!(ctx.error(&eng).is_none());

    // A call against a handle that names nothing answers null and
    // leaves the failure in the deferred error slot.
    let ghost_tree = sop::Btree {
        id: "00000000000000000000000000000099".to_string(),
        transaction_id: "none".to_string(),
    };
    let r = ghost_tree.add(&mut eng, &ctx, Key::Primitive(FieldValue::Int(1)), "v".to_string());
    assert_eq!(Err("unknown btree".to_string()), r);
    assert_eq!(Some("unknown btree".to_string()), ctx.error(&eng));
}

#[test]
fn test_backend_singletons_gate_database_creation() {
    let (mut eng, ctx) = fresh();

    // A database wanting the distributed cache needs the connection
    // first.
    let wants_cache = DatabaseOptions {
        stores_folders: None,
        keyspace: None,
        cache_type: L2CacheType::Redis,
        db_type: DatabaseType::Standalone,
    };
    let refused = Database::new(&mut eng, &ctx, wants_cache.clone());
    assert_eq!(Some("cache connection is not open".to_string()), refused.err());

    open_redis_connection(&mut eng, "redis://localhost:6379").unwrap();
    assert!(Database::new(&mut eng, &ctx, wants_cache).is_ok());
    // The connection is a singleton.
    assert_eq!(
        Err("connection already open".to_string()),
        open_redis_connection(&mut eng, "redis://localhost:6379")
    );
    close_redis_connection(&mut eng).unwrap();
    assert_eq!(Err("connection is not open".to_string()), close_redis_connection(&mut eng));

    // Likewise for the cluster store.
    let clustered = DatabaseOptions {
        stores_folders: None,
        keyspace: Some("ks".to_string()),
        cache_type: L2CacheType::NoCache,
        db_type: DatabaseType::Clustered,
    };
    let refused = Database::new(&mut eng, &ctx, clustered.clone());
    assert_eq!(Some("cluster connection is not open".to_string()), refused.err());
    let config = CassandraConfig {
        cluster_hosts: vec!["localhost".to_string()],
        consistency: 1,
        connection_timeout: 3000,
        replication_clause: "SimpleStrategy".to_string(),
        authenticator: CassandraAuthenticator {
            username: "cassandra".to_string(),
            password: "example".to_string(),
        },
    };
    open_cassandra_connection(&mut eng, config).unwrap();
    assert!(Database::new(&mut eng, &ctx, clustered).is_ok());
    close_cassandra_connection(&mut eng).unwrap();
}

#[test]
fn test_logging_configuration() {
    let (mut eng, _ctx) = fresh();
    manage_logging(&mut eng, LogLevel::Warn, "/tmp/sop.log").unwrap();
    manage_logging(&mut eng, LogLevel::Debug, "/tmp/sop-debug.log").unwrap();
}

#[test]
fn test_model_store_save_load_delete() {
    let (mut eng, ctx) = fresh();
    let db = standalone(&mut eng, &ctx);
    let trans = db.begin_transaction(&mut eng, &ctx).unwrap();
    let store = db.open_model_store(&mut eng, &ctx, "models", &trans).unwrap();

    let category = "classifiers".to_string();
    let name = "tiny".to_string();
    store
        .save(&mut eng, &ctx, &category, &name, vec![1, 2, 3, 255])
        .unwrap();
    assert_eq!(vec![1, 2, 3, 255], store.load(&eng, &ctx, &category, &name).unwrap());

    // Saving again replaces the blob.
    store.save(&mut eng, &ctx, &category, &name, vec![9]).unwrap();
    assert_eq!(vec![9], store.load(&eng, &ctx, &category, &name).unwrap());

    store.delete(&mut eng, &ctx, &category, &name).unwrap();
    assert_eq!(
        Err("model not found".to_string()),
        store.load(&eng, &ctx, &category, &name)
    );
}

#[test]
fn test_search_add_indexes_documents() {
    let (mut eng, ctx) = fresh();
    let db = standalone(&mut eng, &ctx);
    let trans = db.begin_transaction(&mut eng, &ctx).unwrap();
    let index = db.open_search(&mut eng, &ctx, "docs", &trans).unwrap();
    index.add(&mut eng, &ctx, "doc-1", "an ordered key value store").unwrap();
    index.add(&mut eng, &ctx, "doc-1", "an ordered, transactional store").unwrap();
    index.add(&mut eng, &ctx, "doc-2", "cursors walk keys in order").unwrap();
}

#[test]
fn test_vector_store_handle_opens() {
    let (mut eng, ctx) = fresh();
    let db = standalone(&mut eng, &ctx);
    let trans = db.begin_transaction(&mut eng, &ctx).unwrap();
    let store = db.open_vector_store(&mut eng, &ctx, "vectors", &trans).unwrap();
    assert_eq!(32, store.id.len());
    assert_eq!(trans.id, store.transaction_id);
}

#[test]
fn test_meta_envelope_encodes_expected_fields() {
    let meta = BtreeMeta {
        btree_id: "btree-7".to_string(),
        transaction_id: "txn-9".to_string(),
    };
    let bytes = encode_meta(&meta);
    let v: serde_json::Value = serde_json::from_slice(&bytes).unwrap();
    assert_eq!("btree-7", v.get("btree_id").unwrap().as_str().unwrap());
    assert_eq!("txn-9", v.get("transaction_id").unwrap().as_str().unwrap());
}

#[test]
fn test_batch_envelope_encodes_items_and_paging() {
    let batch = ItemBatch {
        items: vec![
            Item::new(
                Key::Primitive(FieldValue::Text("user_1".to_string())),
                "Anna".to_string(),
            ),
            Item {
                key: Key::Composite(vec![
                    KeyField {
                        field_name: "Region".to_string(),
                        value: FieldValue::Text("EU".to_string()),
                    },
                    KeyField { field_name: "Id".to_string(), value: FieldValue::Int(-42) },
                ]),
                value: None,
                id: Some("ab12".to_string()),
            },
        ],
        paging_info: Some(PagingInfo { page_size: 25, page_offset: 3 }),
    };
    let bytes = encode_batch(&batch);
    let v: serde_json::Value = serde_json::from_slice(&bytes).unwrap();

    let items = v.get("items").unwrap().as_array().unwrap();
    assert_eq!(2, items.len());
    assert_eq!("user_1", items[0].get("key").unwrap().as_str().unwrap());
    assert_eq!("Anna", items[0].get("value").unwrap().as_str().unwrap());
    assert!(items[0].get("id").is_none());
    let composite = items[1].get("key").unwrap();
    assert_eq!("EU", composite.get("Region").unwrap().as_str().unwrap());
    assert_eq!(-42, composite.get("Id").unwrap().as_i64().unwrap());
    assert!(items[1].get("value").is_none());
    assert_eq!("ab12", items[1].get("id").unwrap().as_str().unwrap());

    let paging = v.get("paging_info").unwrap();
    assert_eq!(25, paging.get("page_size").unwrap().as_i64().unwrap());
    assert_eq!(3, paging.get("page_offset").unwrap().as_i64().unwrap());
}

#[test]
fn test_string_escaping_round_trips() {
    let tricky = "a \"quoted\" back\\slash\nnewline\ttab \u{1F600} unicode";
    let batch = ItemBatch {
        items: vec![Item::new(
            Key::Primitive(FieldValue::Text(tricky.to_string())),
            tricky.to_string(),
        )],
        paging_info: None,
    };
    let bytes = encode_batch(&batch);
    let v: serde_json::Value = serde_json::from_slice(&bytes).unwrap();
    let items = v.get("items").unwrap().as_array().unwrap();
    assert_eq!(tricky, items[0].get("key").unwrap().as_str().unwrap());
    assert_eq!(tricky, items[0].get("value").unwrap().as_str().unwrap());
}

#[test]
fn test_index_specification_encodes_fields_in_order() {
    let spec = IndexSpecification {
        index_fields: vec![
            IndexFieldSpecification {
                field_name: "Region".to_string(),
                ascending_sort_order: true,
            },
            IndexFieldSpecification {
                field_name: "Score".to_string(),
                ascending_sort_order: false,
            },
        ],
    };
    let bytes = encode_index_specification(&spec);
    let v: serde_json::Value = serde_json::from_slice(&bytes).unwrap();
    let fields = v.get("index_fields").unwrap().as_array().unwrap();
    assert_eq!(2, fields.len());
    assert_eq!("Region", fields[0].get("field_name").unwrap().as_str().unwrap());
    assert_eq!(true, fields[0].get("ascending_sort_order").unwrap().as_bool().unwrap());
    assert_eq!("Score", fields[1].get("field_name").unwrap().as_str().unwrap());
    assert_eq!(false, fields[1].get("ascending_sort_order").unwrap().as_bool().unwrap());
}

#[test]
fn test_context_dispose_releases_the_slot() {
    let mut eng = Engine::new();
    let ctx = Context::new(&mut eng);
    let other = Context::new(&mut eng);
    assert_ne!(ctx.id, other.id);
    ctx.dispose(&mut eng);
    // The other context still works.
    assert!(other.error(&eng).is_none());
}

#[test]
fn test_null_answer_without_context_is_unknown_error() {
    let mut eng = Engine::new();
    // A context id the engine has never handed out: the deferred error
    // has nowhere to land, and the client reports the generic failure.
    let stray = Context { id: 7777 };
    let ghost_tree = sop::Btree {
        id: "00000000000000000000000000000042".to_string(),
        transaction_id: "none".to_string(),
    };
    let r = ghost_tree.add(
        &mut eng,
        &stray,
        Key::Primitive(FieldValue::Int(1)),
        "v".to_string(),
    );
    assert_eq!(Err("Unknown error".to_string()), r);
}
