use kube_context::selector::Selector;
use kube_context::store::{table_name, ApiResource, Condition, Table};
use kube_context::selector::Operator;
use kube_context::store::{build_filter_conditions, render_conditions};

fn resource(api_version: &str, kind: &str, plural: &str) -> ApiResource {
    ApiResource {
        group: String::new(),
        version: String::new(),
        api_version: api_version.to_string(),
        kind: kind.to_string(),
        plural: plural.to_string(),
    }
}

#[test]
fn table_identifier_of_deployments() {
    let r = resource("apps/v1", "Deployment", "deployments");
    assert_eq!(table_name(&r), "apps_v1_deployments");
}

#[test]
fn table_identifier_of_core_pods() {
    let r = resource("v1", "Pod", "pods");
    assert_eq!(Table::new(r).table(), "v1_pods");
}

#[test]
fn table_identifier_replaces_dots() {
    let r = resource("rbac.authorization.k8s.io/v1", "ClusterRole", "clusterroles");
    assert_eq!(
        table_name(&r),
        "rbac_authorization_k8s_io_v1_clusterroles"
    );
}

#[test]
fn statements_name_the_table() {
    let t = Table::new(resource("v1", "Pod", "pods"));
    assert_eq!(
        t.create_table_statement(),
        "CREATE TABLE IF NOT EXISTS v1_pods (name VARCHAR(250) NOT NULL, namespace VARCHAR(250), object JSON NOT NULL, PRIMARY KEY(name, namespace))"
    );
    assert_eq!(
        t.insert_statement(),
        "INSERT INTO v1_pods (name, namespace, object) VALUES (?, ?, ?)"
    );
    assert_eq!(
        t.delete_statement(),
        "DELETE FROM v1_pods WHERE name = ? AND namespace IS ?"
    );
    assert_eq!(t.clear_statement(), "DELETE FROM v1_pods");
    assert_eq!(t.list_kind(), "PodList");
}

#[test]
fn list_query_without_filters() {
    let t = Table::new(resource("v1", "Pod", "pods"));
    let q = t.list_query(None, None, None);
    assert_eq!(q.sql, "SELECT object FROM v1_pods");
    assert!(q.binds.is_empty());
}

#[test]
fn list_query_namespace_then_labels_then_fields() {
    let t = Table::new(resource("v1", "Pod", "pods"));
    let labels = Selector::from_string("app=x,tier!=db").unwrap();
    let fields = Selector::from_string(".metadata.name==A").unwrap();
    let q = t.list_query(Some("ns"), Some(&labels), Some(&fields));
    assert_eq!(
        q.sql,
        "SELECT object FROM v1_pods WHERE namespace = ? AND json_extract(object, ?) = ? AND json_extract(object, ?) != ? AND json_extract(object, ?) = ?"
    );
    assert_eq!(
        q.binds,
        vec![
            "ns",
            "$.metadata.labels.app",
            "x",
            "$.metadata.labels.tier",
            "db",
            "$.metadata.name",
            "A"
        ]
    );
}

#[test]
fn list_query_first_clause_may_be_a_field() {
    let t = Table::new(resource("v1", "Pod", "pods"));
    let fields = Selector::from_string(".metadata.name=A").unwrap();
    let q = t.list_query(None, None, Some(&fields));
    assert_eq!(
        q.sql,
        "SELECT object FROM v1_pods WHERE json_extract(object, ?) = ?"
    );
    assert_eq!(q.binds, vec!["$.metadata.name", "A"]);
}

#[test]
fn filter_conditions_in_order() {
    let labels = Selector::from_string("key=value").unwrap();
    let cs = build_filter_conditions(Some("default"), Some(&labels), None);
    assert_eq!(
        cs,
        vec![
            Condition::Namespace("default".to_string()),
            Condition::Json(
                "$.metadata.labels.key".to_string(),
                Operator::Equals,
                "value".to_string()
            ),
        ]
    );
    let q = render_conditions("X".to_string(), &cs);
    assert_eq!(
        q.sql,
        "X WHERE namespace = ? AND json_extract(object, ?) = ?"
    );
}

#[test]
fn get_query_with_and_without_namespace() {
    let t = Table::new(resource("v1", "Service", "services"));
    let q = t.get_query("kube-dns", Some("kube-system"));
    assert_eq!(
        q.sql,
        "SELECT object FROM v1_services WHERE name = ? AND namespace = ?"
    );
    assert_eq!(q.binds, vec!["kube-dns", "kube-system"]);
    let q = t.get_query("admin", None);
    assert_eq!(q.sql, "SELECT object FROM v1_services WHERE name = ?");
    assert_eq!(q.binds, vec!["admin"]);
}
