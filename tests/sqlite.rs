use kube_context::selector::Selector;
use kube_context::store::{ApiResource, Query, Table};
use sqlx::sqlite::{SqlitePool, SqlitePoolOptions};
use sqlx::Row;

fn runtime() -> tokio::runtime::Runtime {
    tokio::runtime::Builder::new_current_thread()
        .enable_all()
        .build()
        .unwrap()
}

fn pods() -> Table {
    Table::new(ApiResource {
        group: String::new(),
        version: "v1".to_string(),
        api_version: "v1".to_string(),
        kind: "Pod".to_string(),
        plural: "pods".to_string(),
    })
}

async fn pool_with(table: &Table) -> SqlitePool {
    let pool = SqlitePoolOptions::new()
        .max_connections(1)
        .connect("sqlite::memory:")
        .await
        .unwrap();
    sqlx::query(&table.create_table_statement())
        .execute(&pool)
        .await
        .unwrap();
    pool
}

fn object(name: &str, namespace: &str, labels: &[(&str, &str)]) -> serde_json::Value {
    let mut meta = serde_json::Map::new();
    meta.insert("name".to_string(), serde_json::Value::from(name));
    if !namespace.is_empty() {
        meta.insert("namespace".to_string(), serde_json::Value::from(namespace));
    }
    if !labels.is_empty() {
        let mut l = serde_json::Map::new();
        for (k, v) in labels {
            l.insert(k.to_string(), serde_json::Value::from(*v));
        }
        meta.insert("labels".to_string(), serde_json::Value::Object(l));
    }
    let mut obj = serde_json::Map::new();
    obj.insert("metadata".to_string(), serde_json::Value::Object(meta));
    serde_json::Value::Object(obj)
}

fn namespace_of(obj: &serde_json::Value) -> Option<String> {
    obj["metadata"]["namespace"].as_str().map(|s| s.to_string())
}

async fn upsert(pool: &SqlitePool, table: &Table, obj: &serde_json::Value) {
    let mut tx = pool.begin().await.unwrap();
    sqlx::query(&table.delete_statement())
        .bind(obj["metadata"]["name"].as_str().unwrap().to_string())
        .bind(namespace_of(obj))
        .execute(&mut *tx)
        .await
        .unwrap();
    sqlx::query(&table.insert_statement())
        .bind(obj["metadata"]["name"].as_str().unwrap().to_string())
        .bind(namespace_of(obj))
        .bind(obj.to_string())
        .execute(&mut *tx)
        .await
        .unwrap();
    tx.commit().await.unwrap();
}

async fn delete(pool: &SqlitePool, table: &Table, obj: &serde_json::Value) {
    sqlx::query(&table.delete_statement())
        .bind(obj["metadata"]["name"].as_str().unwrap().to_string())
        .bind(namespace_of(obj))
        .execute(pool)
        .await
        .unwrap();
}

async fn names(pool: &SqlitePool, q: Query) -> Vec<String> {
    let mut query = sqlx::query(&q.sql);
    for b in q.binds {
        query = query.bind(b);
    }
    let rows = query.fetch_all(pool).await.unwrap();
    let mut out: Vec<String> = rows
        .iter()
        .map(|row| {
            let text: String = row.get("object");
            let v: serde_json::Value = serde_json::from_str(&text).unwrap();
            v["metadata"]["name"].as_str().unwrap().to_string()
        })
        .collect();
    out.sort();
    out
}

async fn replace_all(
    pool: &SqlitePool,
    table: &Table,
    objs: &[serde_json::Value],
) -> Result<(), sqlx::Error> {
    let mut tx = pool.begin().await?;
    sqlx::query(&table.clear_statement())
        .execute(&mut *tx)
        .await?;
    for obj in objs {
        sqlx::query(&table.insert_statement())
            .bind(obj["metadata"]["name"].as_str().unwrap().to_string())
            .bind(namespace_of(obj))
            .bind(obj.to_string())
            .execute(&mut *tx)
            .await?;
    }
    tx.commit().await
}

#[test]
fn filter_semantics_on_labels_and_namespace() {
    runtime().block_on(async {
        let t = pods();
        let pool = pool_with(&t).await;
        upsert(&pool, &t, &object("test", "default", &[("key", "value")])).await;
        let key = Selector::from_string("key=value").unwrap();
        let missing = Selector::from_string("missing=value").unwrap();
        let not_missing = Selector::from_string("missing!=value").unwrap();
        assert_eq!(names(&pool, t.list_query(None, None, None)).await, vec!["test"]);
        assert_eq!(names(&pool, t.list_query(None, Some(&key), None)).await, vec!["test"]);
        assert_eq!(
            names(&pool, t.list_query(Some("default"), None, None)).await,
            vec!["test"]
        );
        assert!(names(&pool, t.list_query(Some("other"), None, None)).await.is_empty());
        assert!(names(&pool, t.list_query(None, Some(&missing), None)).await.is_empty());
        assert!(names(&pool, t.list_query(None, Some(&not_missing), None)).await.is_empty());
    });
}

#[test]
fn upsert_twice_keeps_one_row_with_latest_object() {
    runtime().block_on(async {
        let t = pods();
        let pool = pool_with(&t).await;
        upsert(&pool, &t, &object("p", "ns", &[("v", "1")])).await;
        upsert(&pool, &t, &object("p", "ns", &[("v", "2")])).await;
        let all = t.list_query(None, None, None);
        assert_eq!(names(&pool, all).await, vec!["p"]);
        let latest = Selector::from_string("v=2").unwrap();
        assert_eq!(names(&pool, t.list_query(None, Some(&latest), None)).await, vec!["p"]);
        let first = Selector::from_string("v=1").unwrap();
        assert!(names(&pool, t.list_query(None, Some(&first), None)).await.is_empty());
    });
}

#[test]
fn failed_replace_all_leaves_table_unchanged() {
    runtime().block_on(async {
        let t = pods();
        let pool = pool_with(&t).await;
        upsert(&pool, &t, &object("a", "ns", &[])).await;
        upsert(&pool, &t, &object("b", "ns", &[])).await;
        let clash = [object("c", "ns", &[]), object("c", "ns", &[])];
        assert!(replace_all(&pool, &t, &clash).await.is_err());
        assert_eq!(names(&pool, t.list_query(None, None, None)).await, vec!["a", "b"]);
    });
}

#[test]
fn restart_replaces_the_world() {
    runtime().block_on(async {
        let t = pods();
        let pool = pool_with(&t).await;
        upsert(&pool, &t, &object("A", "ns", &[])).await;
        upsert(&pool, &t, &object("B", "ns", &[])).await;
        replace_all(&pool, &t, &[object("C", "ns", &[])]).await.unwrap();
        assert_eq!(names(&pool, t.list_query(None, None, None)).await, vec!["C"]);
    });
}

#[test]
fn list_pods_in_namespace() {
    runtime().block_on(async {
        let t = pods();
        let pool = pool_with(&t).await;
        let p = object("p", "ns", &[("app", "x")]);
        upsert(&pool, &t, &p).await;
        let q = t.list_query(Some("ns"), None, None);
        let mut query = sqlx::query(&q.sql);
        for b in q.binds {
            query = query.bind(b);
        }
        let rows = query.fetch_all(&pool).await.unwrap();
        assert_eq!(rows.len(), 1);
        let text: String = rows[0].get("object");
        let v: serde_json::Value = serde_json::from_str(&text).unwrap();
        assert_eq!(v, p);
        assert_eq!(t.list_kind(), "PodList");
        assert_eq!(t.api_resource().api_version, "v1");
    });
}

#[test]
fn label_selector_picks_matching_pod() {
    runtime().block_on(async {
        let t = pods();
        let pool = pool_with(&t).await;
        upsert(&pool, &t, &object("A", "ns", &[("t", "a")])).await;
        upsert(&pool, &t, &object("B", "ns", &[("t", "b")])).await;
        upsert(&pool, &t, &object("C", "ns", &[])).await;
        let sel = Selector::from_string("t=a").unwrap();
        assert_eq!(names(&pool, t.list_query(None, Some(&sel), None)).await, vec!["A"]);
    });
}

#[test]
fn field_selector_on_name() {
    runtime().block_on(async {
        let t = pods();
        let pool = pool_with(&t).await;
        upsert(&pool, &t, &object("A", "ns", &[])).await;
        upsert(&pool, &t, &object("B", "ns", &[])).await;
        let sel = Selector::from_string(".metadata.name=A").unwrap();
        assert_eq!(names(&pool, t.list_query(None, None, Some(&sel))).await, vec!["A"]);
    });
}

#[test]
fn get_object_by_name_and_namespace() {
    runtime().block_on(async {
        let t = pods();
        let pool = pool_with(&t).await;
        upsert(&pool, &t, &object("A", "ns", &[])).await;
        assert_eq!(names(&pool, t.get_query("A", Some("ns"))).await, vec!["A"]);
        assert!(names(&pool, t.get_query("A", Some("other"))).await.is_empty());
        assert_eq!(names(&pool, t.get_query("A", None)).await, vec!["A"]);
        assert!(names(&pool, t.get_query("Z", None)).await.is_empty());
    });
}

#[test]
fn cluster_scoped_upsert_and_delete() {
    runtime().block_on(async {
        let t = Table::new(ApiResource {
            group: "rbac.authorization.k8s.io".to_string(),
            version: "v1".to_string(),
            api_version: "rbac.authorization.k8s.io/v1".to_string(),
            kind: "ClusterRole".to_string(),
            plural: "clusterroles".to_string(),
        });
        let pool = pool_with(&t).await;
        upsert(&pool, &t, &object("admin", "", &[("v", "1")])).await;
        upsert(&pool, &t, &object("admin", "", &[("v", "2")])).await;
        assert_eq!(names(&pool, t.list_query(None, None, None)).await, vec!["admin"]);
        let latest = Selector::from_string("v=2").unwrap();
        assert_eq!(names(&pool, t.list_query(None, Some(&latest), None)).await, vec!["admin"]);
        delete(&pool, &t, &object("admin", "", &[])).await;
        assert!(names(&pool, t.list_query(None, None, None)).await.is_empty());
    });
}

#[test]
fn delete_removes_only_the_keyed_row() {
    runtime().block_on(async {
        let t = pods();
        let pool = pool_with(&t).await;
        upsert(&pool, &t, &object("A", "ns", &[])).await;
        upsert(&pool, &t, &object("A", "other", &[])).await;
        delete(&pool, &t, &object("A", "ns", &[])).await;
        assert!(names(&pool, t.list_query(Some("ns"), None, None)).await.is_empty());
        assert_eq!(
            names(&pool, t.list_query(Some("other"), None, None)).await,
            vec!["A"]
        );
    });
}
