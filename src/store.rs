//! The relational side of a store: one table per watched resource kind, the
//! statements that create and change it, and the filtered queries that read
//! it. Statements use `?` placeholders; the values to bind come alongside.
use crate::registry::RegistryKey;
use crate::selector::{Operator, RequirementModel, Selector, models};
use vstd::prelude::*;

verus! {

/// Structural metadata of a resource type.
#[derive(Debug, Clone, PartialEq, Eq, Hash)]
pub struct ApiResource {
    pub group: String,
    pub version: String,
    pub api_version: String,
    pub kind: String,
    pub plural: String,
}

/// The mathematical value of an `ApiResource`.
pub struct ApiResourceView {
    pub group: Seq<char>,
    pub version: Seq<char>,
    pub api_version: Seq<char>,
    pub kind: Seq<char>,
    pub plural: Seq<char>,
}

impl View for ApiResource {
    type V = ApiResourceView;

    open spec fn view(&self) -> ApiResourceView {
        ApiResourceView {
            group: self.group@,
            version: self.version@,
            api_version: self.api_version@,
            kind: self.kind@,
            plural: self.plural@,
        }
    }
}

impl RegistryKey for ApiResource {
    fn same_key(&self, other: &Self) -> (r: bool) {
        self.group == other.group && self.version == other.version && self.api_version
            == other.api_version && self.kind == other.kind && self.plural == other.plural
    }
}

impl ApiResource {
    /// A copy equal to `self`.
    pub fn duplicate(&self) -> (r: ApiResource)
        ensures
            r == *self,
    {
        ApiResource {
            group: self.group.clone(),
            version: self.version.clone(),
            api_version: self.api_version.clone(),
            kind: self.kind.clone(),
            plural: self.plural.clone(),
        }
    }
}

/// `s` with every `/` and `.` turned into `_`.
pub open spec fn sanitize(s: Seq<char>) -> Seq<char> {
    s.map_values(|c: char| if c == '/' || c == '.' { '_' } else { c })
}

/// The table that mirrors resources of `api_version` with wire name `plural`.
pub open spec fn table_id(api_version: Seq<char>, plural: Seq<char>) -> Seq<char> {
    sanitize(api_version) + seq!['_'] + plural
}

/// One filter clause of a listing.
#[derive(Debug, Clone, PartialEq, Eq)]
pub enum Condition {
    /// `namespace = ?`
    Namespace(String),
    /// `json_extract(object, path) <op> value`
    Json(String, Operator, String),
}

pub enum ConditionModel {
    Namespace(Seq<char>),
    Json(Seq<char>, Operator, Seq<char>),
}

impl View for Condition {
    type V = ConditionModel;

    open spec fn view(&self) -> ConditionModel {
        match self {
            Condition::Namespace(n) => ConditionModel::Namespace(n@),
            Condition::Json(p, op, v) => ConditionModel::Json(p@, *op, v@),
        }
    }
}

pub open spec fn condition_models(v: Seq<Condition>) -> Seq<ConditionModel> {
    v.map_values(|c: Condition| c@)
}

pub open spec fn string_views(v: Seq<String>) -> Seq<Seq<char>> {
    v.map_values(|s: String| s@)
}

/// The JSON path of a label key.
pub open spec fn label_path(key: Seq<char>) -> Seq<char> {
    "$.metadata.labels."@ + key
}

/// The JSON path of a field key; the key is expected to start with `.`.
pub open spec fn field_path(key: Seq<char>) -> Seq<char> {
    "$"@ + key
}

pub open spec fn label_condition(r: RequirementModel) -> ConditionModel {
    ConditionModel::Json(label_path(r.0), r.2, r.1)
}

pub open spec fn field_condition(r: RequirementModel) -> ConditionModel {
    ConditionModel::Json(field_path(r.0), r.2, r.1)
}

/// The clauses of a listing: the namespace first, then each label
/// requirement, then each field requirement, in order.
pub open spec fn filter_conditions(
    namespace: Option<Seq<char>>,
    labels: Option<Seq<RequirementModel>>,
    fields: Option<Seq<RequirementModel>>,
) -> Seq<ConditionModel> {
    let ns = match namespace {
        Some(n) => seq![ConditionModel::Namespace(n)],
        None => Seq::empty(),
    };
    let ls = match labels {
        Some(l) => l.map_values(|r: RequirementModel| label_condition(r)),
        None => Seq::empty(),
    };
    let fs = match fields {
        Some(f) => f.map_values(|r: RequirementModel| field_condition(r)),
        None => Seq::empty(),
    };
    ns + ls + fs
}

pub open spec fn condition_sql(c: ConditionModel) -> Seq<char> {
    match c {
        ConditionModel::Namespace(_) => "namespace = ?"@,
        ConditionModel::Json(_, Operator::Equals, _) => "json_extract(object, ?) = ?"@,
        ConditionModel::Json(_, Operator::NotEquals, _) => "json_extract(object, ?) != ?"@,
    }
}

pub open spec fn condition_binds(c: ConditionModel) -> Seq<Seq<char>> {
    match c {
        ConditionModel::Namespace(n) => seq![n],
        ConditionModel::Json(p, _, v) => seq![p, v],
    }
}

/// The first clause opens with `WHERE`, every later one with `AND`.
pub open spec fn where_sql(cs: Seq<ConditionModel>) -> Seq<char>
    decreases cs.len(),
{
    if cs.len() == 0 {
        Seq::empty()
    } else {
        let joint = if cs.len() == 1 {
            " WHERE "@
        } else {
            " AND "@
        };
        where_sql(cs.drop_last()) + joint + condition_sql(cs.last())
    }
}

/// The values bound to the placeholders of `where_sql(cs)`, in order.
pub open spec fn where_binds(cs: Seq<ConditionModel>) -> Seq<Seq<char>>
    decreases cs.len(),
{
    if cs.len() == 0 {
        Seq::empty()
    } else {
        where_binds(cs.drop_last()) + condition_binds(cs.last())
    }
}

/// A statement with `?` placeholders and the values bound to them.
#[derive(Debug, Clone, PartialEq, Eq)]
pub struct Query {
    pub sql: String,
    pub binds: Vec<String>,
}

fn push_requirement_conditions(
    out: &mut Vec<Condition>,
    sel: &Selector,
    prefix: &str,
    is_label: bool,
)
    requires
        prefix@ == (if is_label {
            "$.metadata.labels."@
        } else {
            "$"@
        }),
    ensures
        condition_models(final(out)@) == condition_models(old(out)@) + (if is_label {
            sel@.map_values(|r: RequirementModel| label_condition(r))
        } else {
            sel@.map_values(|r: RequirementModel| field_condition(r))
        }),
{
    let reqs = sel.requirements();
    let ghost start = condition_models(out@);
    let ghost target = if is_label {
        sel@.map_values(|r: RequirementModel| label_condition(r))
    } else {
        sel@.map_values(|r: RequirementModel| field_condition(r))
    };
    let mut i: usize = 0;
    while i < reqs.len()
        invariant
            i <= reqs@.len(),
            models(reqs@) == sel@,
            prefix@ == (if is_label {
                "$.metadata.labels."@
            } else {
                "$"@
            }),
            target == (if is_label {
                sel@.map_values(|r: RequirementModel| label_condition(r))
            } else {
                sel@.map_values(|r: RequirementModel| field_condition(r))
            }),
            condition_models(out@) == start + target.take(i as int),
        decreases reqs.len() - i,
    {
        let req = &reqs[i];
        let path = String::from_str(prefix).concat(req.0.as_str());
        let c = Condition::Json(path, req.2, req.1.clone());
        let ghost before = condition_models(out@);
        out.push(c);
        proof {
            assert(models(reqs@)[i as int] == (req.0@, req.1@, req.2));
            assert(condition_models(out@) =~= before.push(c@));
            assert(target.take(i + 1) =~= target.take(i as int).push(c@));
        }
        i = i + 1;
    }
    proof {
        assert(target.take(i as int) =~= target);
    }
}

/// The clauses of a listing, as `filter_conditions` gives them.
pub fn build_filter_conditions(
    namespace: Option<&str>,
    label_selector: Option<&Selector>,
    field_selector: Option<&Selector>,
) -> (r: Vec<Condition>)
    ensures
        condition_models(r@) == filter_conditions(
            match namespace {
                Some(n) => Some(n@),
                None => None,
            },
            match label_selector {
                Some(s) => Some(s@),
                None => None,
            },
            match field_selector {
                Some(s) => Some(s@),
                None => None,
            },
        ),
{
    let mut out: Vec<Condition> = Vec::new();
    if let Some(n) = namespace {
        out.push(Condition::Namespace(n.to_owned()));
    }
    assert(condition_models(out@) =~= match namespace {
        Some(n) => seq![ConditionModel::Namespace(n@)],
        None => Seq::<ConditionModel>::empty(),
    });
    if let Some(ls) = label_selector {
        push_requirement_conditions(&mut out, ls, "$.metadata.labels.", true);
    } else {
        assert(condition_models(out@) =~= condition_models(out@) + Seq::<ConditionModel>::empty());
    }
    if let Some(fs) = field_selector {
        push_requirement_conditions(&mut out, fs, "$", false);
    } else {
        assert(condition_models(out@) =~= condition_models(out@) + Seq::<ConditionModel>::empty());
    }
    out
}

/// Renders clauses as `where_sql` and `where_binds` give them, after `head`.
pub fn render_conditions(head: String, conditions: &Vec<Condition>) -> (r: Query)
    ensures
        r.sql@ == head@ + where_sql(condition_models(conditions@)),
        string_views(r.binds@) == where_binds(condition_models(conditions@)),
{
    let mut sql = head;
    let mut binds: Vec<String> = Vec::new();
    let ghost cs = condition_models(conditions@);
    let mut i: usize = 0;
    assert(cs.take(0) =~= Seq::<ConditionModel>::empty());
    while i < conditions.len()
        invariant
            i <= conditions@.len(),
            cs == condition_models(conditions@),
            sql@ == head@ + where_sql(cs.take(i as int)),
            string_views(binds@) == where_binds(cs.take(i as int)),
        decreases conditions.len() - i,
    {
        let ghost sql_before = sql@;
        let ghost binds_before = string_views(binds@);
        if i == 0 {
            sql.append(" WHERE ");
        } else {
            sql.append(" AND ");
        }
        match &conditions[i] {
            Condition::Namespace(n) => {
                sql.append("namespace = ?");
                binds.push(n.clone());
            },
            Condition::Json(p, op, v) => {
                match op {
                    Operator::Equals => sql.append("json_extract(object, ?) = ?"),
                    Operator::NotEquals => sql.append("json_extract(object, ?) != ?"),
                }
                binds.push(p.clone());
                binds.push(v.clone());
            },
        }
        proof {
            let t = cs.take(i + 1);
            assert(t.drop_last() =~= cs.take(i as int));
            assert(t.last() == conditions@[i as int]@);
            assert(sql@ =~= head@ + where_sql(t));
            assert(string_views(binds@) =~= where_binds(t));
        }
        i = i + 1;
    }
    proof {
        assert(cs.take(i as int) =~= cs);
    }
    Query { sql, binds }
}

/// The statement that creates `table` when it does not exist yet.
pub open spec fn create_table_sql(table: Seq<char>) -> Seq<char> {
    "CREATE TABLE IF NOT EXISTS "@ + table
        + " (name VARCHAR(250) NOT NULL, namespace VARCHAR(250), object JSON NOT NULL, PRIMARY KEY(name, namespace))"@
}

/// The insertion of one row; binds name, namespace, object.
pub open spec fn insert_sql(table: Seq<char>) -> Seq<char> {
    "INSERT INTO "@ + table + " (name, namespace, object) VALUES (?, ?, ?)"@
}

/// The removal of the row with a given key; binds name, namespace. `IS`
/// makes an absent namespace match an absent namespace.
pub open spec fn delete_sql(table: Seq<char>) -> Seq<char> {
    "DELETE FROM "@ + table + " WHERE name = ? AND namespace IS ?"@
}

/// The removal of every row.
pub open spec fn clear_sql(table: Seq<char>) -> Seq<char> {
    "DELETE FROM "@ + table
}

/// The start of every read.
pub open spec fn select_sql(table: Seq<char>) -> Seq<char> {
    "SELECT object FROM "@ + table
}

/// One table bound to one resource type.
#[derive(Debug, Clone)]
pub struct Table {
    resource: ApiResource,
    name: String,
}

impl Table {
    pub closed spec fn resource(&self) -> ApiResource {
        self.resource
    }

    pub closed spec fn name_view(&self) -> Seq<char> {
        self.name@
    }

    pub open spec fn wf(&self) -> bool {
        self.name_view() == table_id(self.resource().api_version@, self.resource().plural@)
    }

    /// The table of `resource`.
    pub fn new(resource: ApiResource) -> (r: Table)
        ensures
            r.wf(),
            r.resource() == resource,
    {
        let name = table_name(&resource);
        Table { resource, name }
    }

    pub fn api_resource(&self) -> (r: &ApiResource)
        ensures
            *r == self.resource(),
    {
        &self.resource
    }

    /// The table's identifier.
    pub fn table(&self) -> (r: String)
        ensures
            r@ == self.name_view(),
    {
        self.name.clone()
    }

    pub fn create_table_statement(&self) -> (r: String)
        ensures
            r@ == create_table_sql(self.name_view()),
    {
        let mut s = String::from_str("CREATE TABLE IF NOT EXISTS ");
        s.append(self.name.as_str());
        s.append(
            " (name VARCHAR(250) NOT NULL, namespace VARCHAR(250), object JSON NOT NULL, PRIMARY KEY(name, namespace))",
        );
        s
    }

    pub fn insert_statement(&self) -> (r: String)
        ensures
            r@ == insert_sql(self.name_view()),
    {
        let mut s = String::from_str("INSERT INTO ");
        s.append(self.name.as_str());
        s.append(" (name, namespace, object) VALUES (?, ?, ?)");
        s
    }

    pub fn delete_statement(&self) -> (r: String)
        ensures
            r@ == delete_sql(self.name_view()),
    {
        let mut s = String::from_str("DELETE FROM ");
        s.append(self.name.as_str());
        s.append(" WHERE name = ? AND namespace IS ?");
        s
    }

    pub fn clear_statement(&self) -> (r: String)
        ensures
            r@ == clear_sql(self.name_view()),
    {
        let mut s = String::from_str("DELETE FROM ");
        s.append(self.name.as_str());
        s
    }

    /// The read behind a filtered listing.
    pub fn list_query(
        &self,
        namespace: Option<&str>,
        label_selector: Option<&Selector>,
        field_selector: Option<&Selector>,
    ) -> (r: Query)
        ensures
            ({
                let cs = filter_conditions(
                    match namespace {
                        Some(n) => Some(n@),
                        None => None,
                    },
                    match label_selector {
                        Some(s) => Some(s@),
                        None => None,
                    },
                    match field_selector {
                        Some(s) => Some(s@),
                        None => None,
                    },
                );
                &&& r.sql@ == select_sql(self.name_view()) + where_sql(cs)
                &&& string_views(r.binds@) == where_binds(cs)
            }),
    {
        let conditions = build_filter_conditions(namespace, label_selector, field_selector);
        let mut head = String::from_str("SELECT object FROM ");
        head.append(self.name.as_str());
        render_conditions(head, &conditions)
    }

    /// The read of one object by name, and by namespace when one is given.
    pub fn get_query(&self, name: &str, namespace: Option<&str>) -> (r: Query)
        ensures
            match namespace {
                Some(n) => {
                    &&& r.sql@ == select_sql(self.name_view()) + " WHERE name = ? AND namespace = ?"@
                    &&& string_views(r.binds@) == seq![name@, n@]
                },
                None => {
                    &&& r.sql@ == select_sql(self.name_view()) + " WHERE name = ?"@
                    &&& string_views(r.binds@) == seq![name@]
                },
            },
    {
        let mut sql = String::from_str("SELECT object FROM ");
        sql.append(self.name.as_str());
        let mut binds: Vec<String> = Vec::new();
        binds.push(name.to_owned());
        match namespace {
            Some(n) => {
                sql.append(" WHERE name = ? AND namespace = ?");
                binds.push(n.to_owned());
                assert(string_views(binds@) =~= seq![name@, n@]);
            },
            None => {
                sql.append(" WHERE name = ?");
                assert(string_views(binds@) =~= seq![name@]);
            },
        }
        Query { sql, binds }
    }

    /// The kind of the list that a listing returns: the resource kind
    /// followed by `List`.
    pub fn list_kind(&self) -> (r: String)
        ensures
            r@ == self.resource().kind@ + "List"@,
    {
        self.resource.kind.clone().concat("List")
    }
}

/// The table identifier of `resource`.
pub fn table_name(resource: &ApiResource) -> (r: String)
    ensures
        r@ == table_id(resource.api_version@, resource.plural@),
{
    let av = resource.api_version.as_str();
    let n = av.unicode_len();
    let mut out = String::new();
    let mut i: usize = 0;
    while i < n
        invariant
            n == av@.len(),
            i <= n,
            out@ == sanitize(av@.subrange(0, i as int)),
        decreases n - i,
    {
        let c = av.get_char(i);
        let ghost before = out@;
        if c == '/' || c == '.' {
            out.append("_");
        } else {
            out.append(av.substring_char(i, i + 1));
        }
        proof {
            reveal_strlit("_");
            assert(av@.subrange(i as int, i + 1) =~= seq![c]);
            assert(sanitize(av@.subrange(0, i + 1)) =~= sanitize(av@.subrange(0, i as int)).push(
                if c == '/' || c == '.' {
                    '_'
                } else {
                    c
                },
            ));
            assert(out@ =~= sanitize(av@.subrange(0, i + 1)));
        }
        i = i + 1;
    }
    out.append("_");
    out.append(resource.plural.as_str());
    proof {
        reveal_strlit("_");
        assert(av@.subrange(0, n as int) =~= av@);
    }
    out
}

} // verus!
