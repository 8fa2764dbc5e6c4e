use vstd::prelude::*;
use crate::json::{Json, JsonModel, jmodel, jget, arr_models, clone_json};
use crate::error::FdwError;
use crate::listing::opt_string_view;
use crate::text::{dec_int_chars, i64_to_string};

verus! {

/// One flattened row of the tree resource: the leaf definition's own fields
/// with the full ancestry denormalized beside them, copied by value at
/// emission time. A missing optional field anywhere is absent, never empty.
pub struct FieldMappingRow {
    pub product_id: String,
    pub product_name: Option<String>,
    pub package_id: Option<i64>,
    pub package_name: Option<String>,
    pub field_cluster_id: Option<i64>,
    pub field_cluster_name: Option<String>,
    pub field_id: Option<i64>,
    pub field_name: Option<String>,
    pub description: Option<String>,
    pub field_type: Option<String>,
    pub field_length: Option<String>,
    pub possible_values: Option<String>,
    pub grouping: Option<String>,
    pub parentage: Option<Json>,
}

/// The model of a flattened row.
pub struct RowModel {
    pub product_id: Seq<char>,
    pub product_name: Option<Seq<char>>,
    pub package_id: Option<i64>,
    pub package_name: Option<Seq<char>>,
    pub field_cluster_id: Option<i64>,
    pub field_cluster_name: Option<Seq<char>>,
    pub field_id: Option<i64>,
    pub field_name: Option<Seq<char>>,
    pub description: Option<Seq<char>>,
    pub field_type: Option<Seq<char>>,
    pub field_length: Option<Seq<char>>,
    pub possible_values: Option<Seq<char>>,
    pub grouping: Option<Seq<char>>,
    pub parentage: Option<JsonModel>,
}

pub open spec fn opt_json_view(o: Option<Json>) -> Option<JsonModel> {
    match o {
        Option::Some(j) => Option::Some(jmodel(j)),
        Option::None => Option::None,
    }
}

impl View for FieldMappingRow {
    type V = RowModel;

    open spec fn view(&self) -> RowModel {
        RowModel {
            product_id: self.product_id@,
            product_name: opt_string_view(self.product_name),
            package_id: self.package_id,
            package_name: opt_string_view(self.package_name),
            field_cluster_id: self.field_cluster_id,
            field_cluster_name: opt_string_view(self.field_cluster_name),
            field_id: self.field_id,
            field_name: opt_string_view(self.field_name),
            description: opt_string_view(self.description),
            field_type: opt_string_view(self.field_type),
            field_length: opt_string_view(self.field_length),
            possible_values: opt_string_view(self.possible_values),
            grouping: opt_string_view(self.grouping),
            parentage: opt_json_view(self.parentage),
        }
    }
}

pub open spec fn rows_view(s: Seq<FieldMappingRow>) -> Seq<RowModel> {
    Seq::new(s.len(), |i: int| s[i]@)
}

proof fn lemma_rows_view_push(s: Seq<FieldMappingRow>, r: FieldMappingRow)
    ensures
        rows_view(s.push(r)) =~= rows_view(s).push(r@),
{
}

/// The string a member holds, when it holds one.
pub open spec fn str_of(o: Option<JsonModel>) -> Option<Seq<char>> {
    match o {
        Option::Some(JsonModel::Text(s)) => Option::Some(s),
        _ => Option::None,
    }
}

/// The integer a member holds, when it holds one.
pub open spec fn int_of(o: Option<JsonModel>) -> Option<i64> {
    match o {
        Option::Some(JsonModel::Int(n)) => Option::Some(n),
        _ => Option::None,
    }
}

/// The elements a member holds; a missing or non-array member is an empty
/// list of children, never an error.
pub open spec fn arr_of(o: Option<JsonModel>) -> Seq<JsonModel> {
    match o {
        Option::Some(JsonModel::Arr(s)) => s,
        _ => Seq::<JsonModel>::empty(),
    }
}

/// The identifier text of a member: a string's own characters, a number's
/// base-10 text, the literal words for booleans and null; empty when the
/// member is absent or structured.
pub open spec fn id_text_of(o: Option<JsonModel>) -> Seq<char> {
    match o {
        Option::Some(JsonModel::Text(s)) => s,
        Option::Some(JsonModel::Int(n)) => dec_int_chars(n as int),
        Option::Some(JsonModel::NumText(s)) => s,
        Option::Some(JsonModel::Bool(b)) => if b {
            "true"@
        } else {
            "false"@
        },
        Option::Some(JsonModel::Null) => "null"@,
        _ => Seq::<char>::empty(),
    }
}

/// The row one leaf definition emits under its ancestors.
pub open spec fn leaf_row(
    pid: Seq<char>,
    pname: Option<Seq<char>>,
    pkg_id: Option<i64>,
    pkg_name: Option<Seq<char>>,
    cl_id: Option<i64>,
    cl_name: Option<Seq<char>>,
    d: JsonModel,
) -> RowModel {
    RowModel {
        product_id: pid,
        product_name: pname,
        package_id: pkg_id,
        package_name: pkg_name,
        field_cluster_id: cl_id,
        field_cluster_name: cl_name,
        field_id: int_of(jget(d, "fieldId"@)),
        field_name: str_of(jget(d, "fieldName"@)),
        description: str_of(jget(d, "description"@)),
        field_type: str_of(jget(d, "fieldType"@)),
        field_length: str_of(jget(d, "fieldLength"@)),
        possible_values: str_of(jget(d, "possibleValues"@)),
        grouping: str_of(jget(d, "grouping"@)),
        parentage: jget(d, "parentage"@),
    }
}

pub open spec fn rows_of_defs(
    pid: Seq<char>,
    pname: Option<Seq<char>>,
    pkg_id: Option<i64>,
    pkg_name: Option<Seq<char>>,
    cl_id: Option<i64>,
    cl_name: Option<Seq<char>>,
    defs: Seq<JsonModel>,
) -> Seq<RowModel>
    decreases defs.len(),
{
    if defs.len() == 0 {
        Seq::<RowModel>::empty()
    } else {
        rows_of_defs(pid, pname, pkg_id, pkg_name, cl_id, cl_name, defs.drop_last()) + seq![
            leaf_row(pid, pname, pkg_id, pkg_name, cl_id, cl_name, defs.last()),
        ]
    }
}

pub open spec fn rows_of_clusters(
    pid: Seq<char>,
    pname: Option<Seq<char>>,
    pkg_id: Option<i64>,
    pkg_name: Option<Seq<char>>,
    clusters: Seq<JsonModel>,
) -> Seq<RowModel>
    decreases clusters.len(),
{
    if clusters.len() == 0 {
        Seq::<RowModel>::empty()
    } else {
        let c = clusters.last();
        rows_of_clusters(pid, pname, pkg_id, pkg_name, clusters.drop_last()) + rows_of_defs(
            pid,
            pname,
            pkg_id,
            pkg_name,
            int_of(jget(c, "fieldClusterId"@)),
            str_of(jget(c, "fieldClusterName"@)),
            arr_of(jget(c, "fieldDefinitions"@)),
        )
    }
}

pub open spec fn rows_of_packages(
    pid: Seq<char>,
    pname: Option<Seq<char>>,
    packages: Seq<JsonModel>,
) -> Seq<RowModel>
    decreases packages.len(),
{
    if packages.len() == 0 {
        Seq::<RowModel>::empty()
    } else {
        let p = packages.last();
        rows_of_packages(pid, pname, packages.drop_last()) + rows_of_clusters(
            pid,
            pname,
            int_of(jget(p, "packageId"@)),
            str_of(jget(p, "packageName"@)),
            arr_of(jget(p, "clusters"@)),
        )
    }
}

/// The full flattening: one row per leaf reachable by walking all siblings
/// at all four levels, in document order.
pub open spec fn rows_of_products(products: Seq<JsonModel>) -> Seq<RowModel>
    decreases products.len(),
{
    if products.len() == 0 {
        Seq::<RowModel>::empty()
    } else {
        let p = products.last();
        rows_of_products(products.drop_last()) + rows_of_packages(
            id_text_of(jget(p, "productId"@)),
            str_of(jget(p, "productName"@)),
            arr_of(jget(p, "packages"@)),
        )
    }
}

/// The string member under `key`, copied out.
pub fn get_str(j: &Json, key: &str) -> (r: Option<String>)
    ensures
        opt_string_view(r) == str_of(jget(j@, key@)),
{
    match j.get(key) {
        Some(v) => v.as_text(),
        None => None,
    }
}

fn get_i64(j: &Json, key: &str) -> (r: Option<i64>)
    ensures
        r == int_of(jget(j@, key@)),
{
    match j.get(key) {
        Some(v) => v.as_i64(),
        None => None,
    }
}

fn get_arr<'a>(j: &'a Json, key: &str) -> (r: Option<&'a Vec<Json>>)
    ensures
        match r {
            Some(v) => arr_models(v@) == arr_of(jget(j@, key@)),
            None => arr_of(jget(j@, key@)) == Seq::<JsonModel>::empty(),
        },
{
    match j.get(key) {
        Some(v) => v.as_arr(),
        None => None,
    }
}

fn get_json(j: &Json, key: &str) -> (r: Option<Json>)
    ensures
        opt_json_view(r) == jget(j@, key@),
{
    match j.get(key) {
        Some(v) => Some(clone_json(v)),
        None => None,
    }
}

/// The identifier text of one value.
pub fn json_id_text(v: &Json) -> (r: String)
    ensures
        r@ == id_text_of(Option::Some(jmodel(*v))),
{
    match v {
        Json::Text(s) => s.clone(),
        Json::Int(n) => i64_to_string(*n),
        Json::NumText(s) => s.clone(),
        Json::Bool(b) => if *b {
            "true".to_owned()
        } else {
            "false".to_owned()
        },
        Json::Null => "null".to_owned(),
        _ => String::new(),
    }
}

fn get_id_text(j: &Json, key: &str) -> (r: String)
    ensures
        r@ == id_text_of(jget(j@, key@)),
{
    match j.get(key) {
        Some(v) => json_id_text(v),
        None => String::new(),
    }
}

fn clone_opt_string(o: &Option<String>) -> (r: Option<String>)
    ensures
        opt_string_view(r) == opt_string_view(*o),
{
    match o {
        Some(s) => Some(s.clone()),
        None => None,
    }
}

fn push_def_rows(
    pid: &String,
    pname: &Option<String>,
    pkg_id: Option<i64>,
    pkg_name: &Option<String>,
    cl_id: Option<i64>,
    cl_name: &Option<String>,
    defs: &Vec<Json>,
    out: &mut Vec<FieldMappingRow>,
)
    ensures
        rows_view(final(out)@) == rows_view(old(out)@) + rows_of_defs(
            pid@,
            opt_string_view(*pname),
            pkg_id,
            opt_string_view(*pkg_name),
            cl_id,
            opt_string_view(*cl_name),
            arr_models(defs@),
        ),
{
    let ghost s = arr_models(defs@);
    let ghost base = rows_view(old(out)@);
    let mut i: usize = 0;
    while i < defs.len()
        invariant
            i <= defs.len(),
            s == arr_models(defs@),
            rows_view(out@) =~= base + rows_of_defs(
                pid@,
                opt_string_view(*pname),
                pkg_id,
                opt_string_view(*pkg_name),
                cl_id,
                opt_string_view(*cl_name),
                s.take(i as int),
            ),
        decreases defs.len() - i,
    {
        let d = &defs[i];
        let row = FieldMappingRow {
            product_id: pid.clone(),
            product_name: clone_opt_string(pname),
            package_id: pkg_id,
            package_name: clone_opt_string(pkg_name),
            field_cluster_id: cl_id,
            field_cluster_name: clone_opt_string(cl_name),
            field_id: get_i64(d, "fieldId"),
            field_name: get_str(d, "fieldName"),
            description: get_str(d, "description"),
            field_type: get_str(d, "fieldType"),
            field_length: get_str(d, "fieldLength"),
            possible_values: get_str(d, "possibleValues"),
            grouping: get_str(d, "grouping"),
            parentage: get_json(d, "parentage"),
        };
        proof {
            assert(s[i as int] == jmodel(defs@[i as int]));
            assert(row@ == leaf_row(
                pid@,
                opt_string_view(*pname),
                pkg_id,
                opt_string_view(*pkg_name),
                cl_id,
                opt_string_view(*cl_name),
                s[i as int],
            ));
            assert(s.take(i + 1).drop_last() =~= s.take(i as int));
            assert(s.take(i + 1).last() == s[i as int]);
        }
        let ghost prev_out = out@;
        out.push(row);
        proof {
            let prev_rows = rows_of_defs(
                pid@,
                opt_string_view(*pname),
                pkg_id,
                opt_string_view(*pkg_name),
                cl_id,
                opt_string_view(*cl_name),
                s.take(i as int),
            );
            assert(rows_of_defs(
                pid@,
                opt_string_view(*pname),
                pkg_id,
                opt_string_view(*pkg_name),
                cl_id,
                opt_string_view(*cl_name),
                s.take(i + 1),
            ) == prev_rows + seq![row@]);
            lemma_rows_view_push(prev_out, row);
            assert(rows_view(out@) == rows_view(prev_out).push(row@));
            assert(rows_view(prev_out).push(row@) =~= base + (prev_rows + seq![row@]));
        }
        i += 1;
    }
    proof {
        assert(s.take(defs@.len() as int) =~= s);
    }
}

fn push_cluster_rows(
    pid: &String,
    pname: &Option<String>,
    pkg_id: Option<i64>,
    pkg_name: &Option<String>,
    clusters: &Vec<Json>,
    out: &mut Vec<FieldMappingRow>,
)
    ensures
        rows_view(final(out)@) == rows_view(old(out)@) + rows_of_clusters(
            pid@,
            opt_string_view(*pname),
            pkg_id,
            opt_string_view(*pkg_name),
            arr_models(clusters@),
        ),
{
    let ghost s = arr_models(clusters@);
    let ghost base = rows_view(old(out)@);
    let mut i: usize = 0;
    while i < clusters.len()
        invariant
            i <= clusters.len(),
            s == arr_models(clusters@),
            rows_view(out@) =~= base + rows_of_clusters(
                pid@,
                opt_string_view(*pname),
                pkg_id,
                opt_string_view(*pkg_name),
                s.take(i as int),
            ),
        decreases clusters.len() - i,
    {
        let c = &clusters[i];
        let cl_id = get_i64(c, "fieldClusterId");
        let cl_name = get_str(c, "fieldClusterName");
        proof {
            assert(s[i as int] == jmodel(clusters@[i as int]));
            assert(s.take(i + 1).drop_last() =~= s.take(i as int));
            assert(s.take(i + 1).last() == s[i as int]);
        }
        match get_arr(c, "fieldDefinitions") {
            Some(defs) => {
                push_def_rows(pid, pname, pkg_id, pkg_name, cl_id, &cl_name, defs, out);
            },
            None => {
                proof {
                    assert(rows_of_defs(
                        pid@,
                        opt_string_view(*pname),
                        pkg_id,
                        opt_string_view(*pkg_name),
                        cl_id,
                        opt_string_view(cl_name),
                        Seq::<JsonModel>::empty(),
                    ) =~= Seq::<RowModel>::empty());
                }
            },
        }
        i += 1;
    }
    proof {
        assert(s.take(clusters@.len() as int) =~= s);
    }
}

fn push_package_rows(
    pid: &String,
    pname: &Option<String>,
    packages: &Vec<Json>,
    out: &mut Vec<FieldMappingRow>,
)
    ensures
        rows_view(final(out)@) == rows_view(old(out)@) + rows_of_packages(
            pid@,
            opt_string_view(*pname),
            arr_models(packages@),
        ),
{
    let ghost s = arr_models(packages@);
    let ghost base = rows_view(old(out)@);
    let mut i: usize = 0;
    while i < packages.len()
        invariant
            i <= packages.len(),
            s == arr_models(packages@),
            rows_view(out@) =~= base + rows_of_packages(
                pid@,
                opt_string_view(*pname),
                s.take(i as int),
            ),
        decreases packages.len() - i,
    {
        let p = &packages[i];
        let pkg_id = get_i64(p, "packageId");
        let pkg_name = get_str(p, "packageName");
        proof {
            assert(s[i as int] == jmodel(packages@[i as int]));
            assert(s.take(i + 1).drop_last() =~= s.take(i as int));
            assert(s.take(i + 1).last() == s[i as int]);
        }
        match get_arr(p, "clusters") {
            Some(clusters) => {
                push_cluster_rows(pid, pname, pkg_id, &pkg_name, clusters, out);
            },
            None => {
                proof {
                    assert(rows_of_clusters(
                        pid@,
                        opt_string_view(*pname),
                        pkg_id,
                        opt_string_view(pkg_name),
                        Seq::<JsonModel>::empty(),
                    ) =~= Seq::<RowModel>::empty());
                }
            },
        }
        i += 1;
    }
    proof {
        assert(s.take(packages@.len() as int) =~= s);
    }
}

/// Flatten a fetched tree document: a non-2xx answer is an upstream
/// failure, a non-array body a schema failure; otherwise exactly the rows
/// of every leaf under every product, in document order.
pub fn load_tree_rows(status: u16, body: &Json, url: &str) -> (r: Result<
    Vec<FieldMappingRow>,
    FdwError,
>)
    ensures
        !(200 <= status < 300) ==> (r matches Err(FdwError::Upstream { status: st, url: u }) && st
            == status && u@ == url@),
        (200 <= status < 300) && !(body@ is Arr) ==> (r matches Err(FdwError::Schema { detail })
            && detail@ == "FieldMappingDefinitions"@),
        (200 <= status < 300) && body@ is Arr ==> (r matches Ok(rows) && rows_view(rows@)
            == rows_of_products(body@->Arr_0)),
{
    if !(200 <= status && status < 300) {
        return Err(FdwError::Upstream { status, url: url.to_owned() });
    }
    let products = match body.as_arr() {
        Some(v) => v,
        None => { return Err(FdwError::Schema { detail: "FieldMappingDefinitions".to_owned() }) },
    };
    let ghost s = arr_models(products@);
    let mut out: Vec<FieldMappingRow> = Vec::new();
    let mut i: usize = 0;
    while i < products.len()
        invariant
            i <= products.len(),
            s == arr_models(products@),
            rows_view(out@) =~= rows_of_products(s.take(i as int)),
        decreases products.len() - i,
    {
        let p = &products[i];
        let pid = get_id_text(p, "productId");
        let pname = get_str(p, "productName");
        proof {
            assert(s[i as int] == jmodel(products@[i as int]));
            assert(s.take(i + 1).drop_last() =~= s.take(i as int));
            assert(s.take(i + 1).last() == s[i as int]);
        }
        match get_arr(p, "packages") {
            Some(packages) => {
                push_package_rows(&pid, &pname, packages, &mut out);
            },
            None => {
                proof {
                    assert(rows_of_packages(
                        pid@,
                        opt_string_view(pname),
                        Seq::<JsonModel>::empty(),
                    ) =~= Seq::<RowModel>::empty());
                }
            },
        }
        i += 1;
    }
    proof {
        assert(s.take(products@.len() as int) =~= s);
    }
    Ok(out)
}

/// Re-invoking the tree loader on an unchanged upstream document yields an
/// identical ordered row sequence: any two row sequences the loader's
/// contract admits for one document are equal.
pub proof fn lemma_tree_reload_idempotent(
    doc: JsonModel,
    rows1: Seq<RowModel>,
    rows2: Seq<RowModel>,
)
    requires
        doc is Arr,
        rows1 == rows_of_products(doc->Arr_0),
        rows2 == rows_of_products(doc->Arr_0),
    ensures
        rows1 == rows2,
{
}

/// Every leaf definition emits exactly one row.
pub proof fn lemma_rows_of_defs_len(
    pid: Seq<char>,
    pname: Option<Seq<char>>,
    pkg_id: Option<i64>,
    pkg_name: Option<Seq<char>>,
    cl_id: Option<i64>,
    cl_name: Option<Seq<char>>,
    defs: Seq<JsonModel>,
)
    ensures
        rows_of_defs(pid, pname, pkg_id, pkg_name, cl_id, cl_name, defs).len() == defs.len(),
    decreases defs.len(),
{
    if defs.len() > 0 {
        lemma_rows_of_defs_len(pid, pname, pkg_id, pkg_name, cl_id, cl_name, defs.drop_last());
    }
}

/// The row a leaf list emits at `j` is exactly its `j`-th definition's row,
/// under the ancestry it was given.
pub proof fn lemma_rows_of_defs_index(
    pid: Seq<char>,
    pname: Option<Seq<char>>,
    pkg_id: Option<i64>,
    pkg_name: Option<Seq<char>>,
    cl_id: Option<i64>,
    cl_name: Option<Seq<char>>,
    defs: Seq<JsonModel>,
    j: int,
)
    requires
        0 <= j < defs.len(),
    ensures
        rows_of_defs(pid, pname, pkg_id, pkg_name, cl_id, cl_name, defs).len() == defs.len(),
        rows_of_defs(pid, pname, pkg_id, pkg_name, cl_id, cl_name, defs)[j] == leaf_row(
            pid,
            pname,
            pkg_id,
            pkg_name,
            cl_id,
            cl_name,
            defs[j],
        ),
    decreases defs.len(),
{
    lemma_rows_of_defs_len(pid, pname, pkg_id, pkg_name, cl_id, cl_name, defs);
    lemma_rows_of_defs_len(pid, pname, pkg_id, pkg_name, cl_id, cl_name, defs.drop_last());
    if j < defs.len() - 1 {
        lemma_rows_of_defs_index(pid, pname, pkg_id, pkg_name, cl_id, cl_name, defs.drop_last(), j);
        assert(defs.drop_last()[j] == defs[j]);
    }
}

/// A cluster holding `l` leaf definitions.
pub open spec fn cluster_has(c: JsonModel, l: nat) -> bool {
    arr_of(jget(c, "fieldDefinitions"@)).len() == l
}

/// A package holding `s` clusters of `l` leaves each.
pub open spec fn package_has(p: JsonModel, s: nat, l: nat) -> bool {
    let cls = arr_of(jget(p, "clusters"@));
    &&& cls.len() == s
    &&& forall|i: int| 0 <= i < cls.len() ==> cluster_has(#[trigger] cls[i], l)
}

/// A product holding `g` packages of `s` clusters of `l` leaves each.
pub open spec fn product_has(p: JsonModel, g: nat, s: nat, l: nat) -> bool {
    let pkgs = arr_of(jget(p, "packages"@));
    &&& pkgs.len() == g
    &&& forall|i: int| 0 <= i < pkgs.len() ==> package_has(#[trigger] pkgs[i], s, l)
}

proof fn lemma_rows_of_clusters_len(
    pid: Seq<char>,
    pname: Option<Seq<char>>,
    pkg_id: Option<i64>,
    pkg_name: Option<Seq<char>>,
    clusters: Seq<JsonModel>,
    l: nat,
)
    requires
        forall|i: int| 0 <= i < clusters.len() ==> cluster_has(#[trigger] clusters[i], l),
    ensures
        rows_of_clusters(pid, pname, pkg_id, pkg_name, clusters).len() == clusters.len() * l,
    decreases clusters.len(),
{
    if clusters.len() > 0 {
        let front = clusters.drop_last();
        assert(forall|i: int| 0 <= i < front.len() ==> front[i] == clusters[i]);
        lemma_rows_of_clusters_len(pid, pname, pkg_id, pkg_name, front, l);
        let c = clusters.last();
        lemma_rows_of_defs_len(
            pid,
            pname,
            pkg_id,
            pkg_name,
            int_of(jget(c, "fieldClusterId"@)),
            str_of(jget(c, "fieldClusterName"@)),
            arr_of(jget(c, "fieldDefinitions"@)),
        );
        assert(cluster_has(clusters[clusters.len() - 1], l));
        assert((clusters.len() - 1) * l + l == clusters.len() * l) by (nonlinear_arith);
    }
}

proof fn lemma_rows_of_packages_len(
    pid: Seq<char>,
    pname: Option<Seq<char>>,
    packages: Seq<JsonModel>,
    s: nat,
    l: nat,
)
    requires
        forall|i: int| 0 <= i < packages.len() ==> package_has(#[trigger] packages[i], s, l),
    ensures
        rows_of_packages(pid, pname, packages).len() == packages.len() * s * l,
    decreases packages.len(),
{
    if packages.len() > 0 {
        let front = packages.drop_last();
        assert(forall|i: int| 0 <= i < front.len() ==> front[i] == packages[i]);
        lemma_rows_of_packages_len(pid, pname, front, s, l);
        let p = packages.last();
        assert(package_has(packages[packages.len() - 1], s, l));
        lemma_rows_of_clusters_len(
            pid,
            pname,
            int_of(jget(p, "packageId"@)),
            str_of(jget(p, "packageName"@)),
            arr_of(jget(p, "clusters"@)),
            l,
        );
        let n = packages.len() as int;
        assert(arr_of(jget(p, "clusters"@)).len() * l == s * l);
        assert((n - 1) * s * l + s * l == n * s * l) by (nonlinear_arith);
        assert(rows_of_packages(pid, pname, packages).len() == (n - 1) * s * l + s * l);
    } else {
        assert(rows_of_packages(pid, pname, packages).len() == 0);
        assert(packages.len() * s * l == 0) by (nonlinear_arith)
            requires packages.len() == 0;
    }
}

/// Flattening completeness, counted: a document whose every product holds
/// `g` packages, each of `s` clusters, each of `l` leaf definitions,
/// flattens to exactly `products · g · s · l` rows.
pub proof fn lemma_flattening_completeness(products: Seq<JsonModel>, g: nat, s: nat, l: nat)
    requires
        forall|i: int| 0 <= i < products.len() ==> product_has(#[trigger] products[i], g, s, l),
    ensures
        rows_of_products(products).len() == products.len() * g * s * l,
    decreases products.len(),
{
    if products.len() > 0 {
        let front = products.drop_last();
        assert(forall|i: int| 0 <= i < front.len() ==> front[i] == products[i]);
        lemma_flattening_completeness(front, g, s, l);
        let p = products.last();
        assert(product_has(products[products.len() - 1], g, s, l));
        lemma_rows_of_packages_len(
            id_text_of(jget(p, "productId"@)),
            str_of(jget(p, "productName"@)),
            arr_of(jget(p, "packages"@)),
            s,
            l,
        );
        let n = products.len() as int;
        assert(arr_of(jget(p, "packages"@)).len() * s * l == g * s * l) by (nonlinear_arith)
            requires arr_of(jget(p, "packages"@)).len() == g;
        assert((n - 1) * g * s * l + g * s * l == n * g * s * l) by (nonlinear_arith);
        assert(rows_of_products(products).len() == (n - 1) * g * s * l + g * s * l);
    } else {
        assert(rows_of_products(products).len() == 0);
        assert(products.len() * g * s * l == 0) by (nonlinear_arith)
            requires products.len() == 0;
    }
}

/// Every row one cluster list emits carries the ancestry it was given.
pub proof fn lemma_rows_of_clusters_ancestry(
    pid: Seq<char>,
    pname: Option<Seq<char>>,
    pkg_id: Option<i64>,
    pkg_name: Option<Seq<char>>,
    clusters: Seq<JsonModel>,
    j: int,
)
    requires
        0 <= j < rows_of_clusters(pid, pname, pkg_id, pkg_name, clusters).len(),
    ensures
        ({
            let row = rows_of_clusters(pid, pname, pkg_id, pkg_name, clusters)[j];
            &&& row.product_id == pid
            &&& row.product_name == pname
            &&& row.package_id == pkg_id
            &&& row.package_name == pkg_name
        }),
    decreases clusters.len(),
{
    if clusters.len() > 0 {
        let front = rows_of_clusters(pid, pname, pkg_id, pkg_name, clusters.drop_last());
        let c = clusters.last();
        let cl_id = int_of(jget(c, "fieldClusterId"@));
        let cl_name = str_of(jget(c, "fieldClusterName"@));
        let defs = arr_of(jget(c, "fieldDefinitions"@));
        if j < front.len() {
            lemma_rows_of_clusters_ancestry(pid, pname, pkg_id, pkg_name, clusters.drop_last(), j);
        } else {
            lemma_rows_of_defs_len(pid, pname, pkg_id, pkg_name, cl_id, cl_name, defs);
            lemma_rows_of_defs_index(
                pid,
                pname,
                pkg_id,
                pkg_name,
                cl_id,
                cl_name,
                defs,
                j - front.len(),
            );
        }
    }
}

/// Is (c, d) the position of a leaf under a cluster list: cluster `c`,
/// definition `d` within it.
pub open spec fn cl_path_ok(clusters: Seq<JsonModel>, c: int, d: int) -> bool {
    0 <= c < clusters.len() && 0 <= d < arr_of(jget(clusters[c], "fieldDefinitions"@)).len()
}

/// The row of the leaf at (c, d) under a cluster list, given its ancestors.
pub open spec fn cl_path_row(
    pid: Seq<char>,
    pname: Option<Seq<char>>,
    pkg_id: Option<i64>,
    pkg_name: Option<Seq<char>>,
    clusters: Seq<JsonModel>,
    c: int,
    d: int,
) -> RowModel {
    let cl = clusters[c];
    leaf_row(
        pid,
        pname,
        pkg_id,
        pkg_name,
        int_of(jget(cl, "fieldClusterId"@)),
        str_of(jget(cl, "fieldClusterName"@)),
        arr_of(jget(cl, "fieldDefinitions"@))[d],
    )
}

/// Is (k, c, d) the position of a leaf under a package list.
pub open spec fn pkg_path_ok(packages: Seq<JsonModel>, k: int, c: int, d: int) -> bool {
    0 <= k < packages.len() && cl_path_ok(arr_of(jget(packages[k], "clusters"@)), c, d)
}

/// The row of the leaf at (k, c, d) under a package list.
pub open spec fn pkg_path_row(
    pid: Seq<char>,
    pname: Option<Seq<char>>,
    packages: Seq<JsonModel>,
    k: int,
    c: int,
    d: int,
) -> RowModel {
    let pkg = packages[k];
    cl_path_row(
        pid,
        pname,
        int_of(jget(pkg, "packageId"@)),
        str_of(jget(pkg, "packageName"@)),
        arr_of(jget(pkg, "clusters"@)),
        c,
        d,
    )
}

/// Is (i, k, c, d) the position of a leaf in a whole document.
pub open spec fn doc_path_ok(products: Seq<JsonModel>, i: int, k: int, c: int, d: int) -> bool {
    0 <= i < products.len() && pkg_path_ok(arr_of(jget(products[i], "packages"@)), k, c, d)
}

/// The row of the leaf at (i, k, c, d) in a whole document: the leaf's own
/// fields under the unique ancestors on the path to it.
pub open spec fn doc_path_row(
    products: Seq<JsonModel>,
    i: int,
    k: int,
    c: int,
    d: int,
) -> RowModel {
    let p = products[i];
    pkg_path_row(
        id_text_of(jget(p, "productId"@)),
        str_of(jget(p, "productName"@)),
        arr_of(jget(p, "packages"@)),
        k,
        c,
        d,
    )
}

/// Every row one cluster list emits is exactly the row of one of its
/// leaves, at its own position.
pub proof fn lemma_rows_of_clusters_positional(
    pid: Seq<char>,
    pname: Option<Seq<char>>,
    pkg_id: Option<i64>,
    pkg_name: Option<Seq<char>>,
    clusters: Seq<JsonModel>,
    j: int,
)
    requires
        0 <= j < rows_of_clusters(pid, pname, pkg_id, pkg_name, clusters).len(),
    ensures
        exists|c: int, d: int|
            #![auto]
            cl_path_ok(clusters, c, d) && rows_of_clusters(
                pid,
                pname,
                pkg_id,
                pkg_name,
                clusters,
            )[j] == cl_path_row(pid, pname, pkg_id, pkg_name, clusters, c, d),
    decreases clusters.len(),
{
    if clusters.len() > 0 {
        let front = rows_of_clusters(pid, pname, pkg_id, pkg_name, clusters.drop_last());
        let cl = clusters.last();
        if j < front.len() {
            lemma_rows_of_clusters_positional(pid, pname, pkg_id, pkg_name, clusters.drop_last(), j);
            let (c, d) = choose|c: int, d: int|
                #![auto]
                cl_path_ok(clusters.drop_last(), c, d) && front[j] == cl_path_row(
                    pid,
                    pname,
                    pkg_id,
                    pkg_name,
                    clusters.drop_last(),
                    c,
                    d,
                );
            assert(clusters.drop_last()[c] == clusters[c]);
            assert(cl_path_ok(clusters, c, d) && rows_of_clusters(
                pid,
                pname,
                pkg_id,
                pkg_name,
                clusters,
            )[j] == cl_path_row(pid, pname, pkg_id, pkg_name, clusters, c, d));
        } else {
            let d = j - front.len();
            lemma_rows_of_defs_len(
                pid,
                pname,
                pkg_id,
                pkg_name,
                int_of(jget(cl, "fieldClusterId"@)),
                str_of(jget(cl, "fieldClusterName"@)),
                arr_of(jget(cl, "fieldDefinitions"@)),
            );
            lemma_rows_of_defs_index(
                pid,
                pname,
                pkg_id,
                pkg_name,
                int_of(jget(cl, "fieldClusterId"@)),
                str_of(jget(cl, "fieldClusterName"@)),
                arr_of(jget(cl, "fieldDefinitions"@)),
                d,
            );
            assert(clusters[clusters.len() - 1] == cl);
            assert(cl_path_ok(clusters, clusters.len() - 1, d) && rows_of_clusters(
                pid,
                pname,
                pkg_id,
                pkg_name,
                clusters,
            )[j] == cl_path_row(pid, pname, pkg_id, pkg_name, clusters, clusters.len() - 1, d));
        }
    }
}

/// Every row one package list emits is exactly the row of one of its
/// leaves, at its own position.
pub proof fn lemma_rows_of_packages_positional(
    pid: Seq<char>,
    pname: Option<Seq<char>>,
    packages: Seq<JsonModel>,
    j: int,
)
    requires
        0 <= j < rows_of_packages(pid, pname, packages).len(),
    ensures
        exists|k: int, c: int, d: int|
            #![auto]
            pkg_path_ok(packages, k, c, d) && rows_of_packages(pid, pname, packages)[j]
                == pkg_path_row(pid, pname, packages, k, c, d),
    decreases packages.len(),
{
    if packages.len() > 0 {
        let front = rows_of_packages(pid, pname, packages.drop_last());
        let p = packages.last();
        if j < front.len() {
            lemma_rows_of_packages_positional(pid, pname, packages.drop_last(), j);
            let (k, c, d) = choose|k: int, c: int, d: int|
                #![auto]
                pkg_path_ok(packages.drop_last(), k, c, d) && front[j] == pkg_path_row(
                    pid,
                    pname,
                    packages.drop_last(),
                    k,
                    c,
                    d,
                );
            assert(packages.drop_last()[k] == packages[k]);
            assert(pkg_path_ok(packages, k, c, d) && rows_of_packages(pid, pname, packages)[j]
                == pkg_path_row(pid, pname, packages, k, c, d));
        } else {
            lemma_rows_of_clusters_positional(
                pid,
                pname,
                int_of(jget(p, "packageId"@)),
                str_of(jget(p, "packageName"@)),
                arr_of(jget(p, "clusters"@)),
                j - front.len(),
            );
            let (c, d) = choose|c: int, d: int|
                #![auto]
                cl_path_ok(arr_of(jget(p, "clusters"@)), c, d) && rows_of_clusters(
                    pid,
                    pname,
                    int_of(jget(p, "packageId"@)),
                    str_of(jget(p, "packageName"@)),
                    arr_of(jget(p, "clusters"@)),
                )[j - front.len()] == cl_path_row(
                    pid,
                    pname,
                    int_of(jget(p, "packageId"@)),
                    str_of(jget(p, "packageName"@)),
                    arr_of(jget(p, "clusters"@)),
                    c,
                    d,
                );
            assert(packages[packages.len() - 1] == p);
            assert(pkg_path_ok(packages, packages.len() - 1, c, d) && rows_of_packages(
                pid,
                pname,
                packages,
            )[j] == pkg_path_row(pid, pname, packages, packages.len() - 1, c, d));
        }
    }
}

/// Positional lineage, end to end: every row of the whole flattening is
/// exactly the row of one leaf, carrying by value the identifying fields of
/// the unique product, package and cluster on the path to that leaf — so
/// later siblings never retroactively affect earlier rows.
pub proof fn lemma_rows_of_products_positional(products: Seq<JsonModel>, j: int)
    requires
        0 <= j < rows_of_products(products).len(),
    ensures
        exists|i: int, k: int, c: int, d: int|
            #![auto]
            doc_path_ok(products, i, k, c, d) && rows_of_products(products)[j] == doc_path_row(
                products,
                i,
                k,
                c,
                d,
            ),
    decreases products.len(),
{
    if products.len() > 0 {
        let front = rows_of_products(products.drop_last());
        let p = products.last();
        if j < front.len() {
            lemma_rows_of_products_positional(products.drop_last(), j);
            let (i, k, c, d) = choose|i: int, k: int, c: int, d: int|
                #![auto]
                doc_path_ok(products.drop_last(), i, k, c, d) && front[j] == doc_path_row(
                    products.drop_last(),
                    i,
                    k,
                    c,
                    d,
                );
            assert(products.drop_last()[i] == products[i]);
            assert(doc_path_ok(products, i, k, c, d) && rows_of_products(products)[j]
                == doc_path_row(products, i, k, c, d));
        } else {
            lemma_rows_of_packages_positional(
                id_text_of(jget(p, "productId"@)),
                str_of(jget(p, "productName"@)),
                arr_of(jget(p, "packages"@)),
                j - front.len(),
            );
            let (k, c, d) = choose|k: int, c: int, d: int|
                #![auto]
                pkg_path_ok(arr_of(jget(p, "packages"@)), k, c, d) && rows_of_packages(
                    id_text_of(jget(p, "productId"@)),
                    str_of(jget(p, "productName"@)),
                    arr_of(jget(p, "packages"@)),
                )[j - front.len()] == pkg_path_row(
                    id_text_of(jget(p, "productId"@)),
                    str_of(jget(p, "productName"@)),
                    arr_of(jget(p, "packages"@)),
                    k,
                    c,
                    d,
                );
            assert(products[products.len() - 1] == p);
            assert(doc_path_ok(products, products.len() - 1, k, c, d) && rows_of_products(
                products,
            )[j] == doc_path_row(products, products.len() - 1, k, c, d));
        }
    }
}

/// Every row of the whole flattening matches some product's lineage: it
/// carries that product's identifier text and name. (The identifier is
/// non-empty whenever the product's own identifier member is.)
pub proof fn lemma_rows_of_products_lineage(products: Seq<JsonModel>, j: int)
    requires
        0 <= j < rows_of_products(products).len(),
    ensures
        exists|i: int|
            #![auto]
            0 <= i < products.len() && rows_of_products(products)[j].product_id == id_text_of(
                jget(products[i], "productId"@),
            ) && rows_of_products(products)[j].product_name == str_of(
                jget(products[i], "productName"@),
            ),
    decreases products.len(),
{
    if products.len() > 0 {
        let front = rows_of_products(products.drop_last());
        let p = products.last();
        if j < front.len() {
            lemma_rows_of_products_lineage(products.drop_last(), j);
            let w = choose|i: int|
                #![auto]
                0 <= i < products.drop_last().len() && front[j].product_id == id_text_of(
                    jget(products.drop_last()[i], "productId"@),
                ) && front[j].product_name == str_of(
                    jget(products.drop_last()[i], "productName"@),
                );
            assert(products.drop_last()[w] == products[w]);
            assert(rows_of_products(products)[j] == front[j]);
        } else {
            lemma_rows_of_packages_ancestry(
                id_text_of(jget(p, "productId"@)),
                str_of(jget(p, "productName"@)),
                arr_of(jget(p, "packages"@)),
                j - front.len(),
            );
            assert(products[products.len() - 1] == p);
        }
    }
}

/// Every row one product emits carries that product's identifying fields.
pub proof fn lemma_rows_of_packages_ancestry(
    pid: Seq<char>,
    pname: Option<Seq<char>>,
    packages: Seq<JsonModel>,
    j: int,
)
    requires
        0 <= j < rows_of_packages(pid, pname, packages).len(),
    ensures
        rows_of_packages(pid, pname, packages)[j].product_id == pid,
        rows_of_packages(pid, pname, packages)[j].product_name == pname,
    decreases packages.len(),
{
    if packages.len() > 0 {
        let front = rows_of_packages(pid, pname, packages.drop_last());
        let p = packages.last();
        if j < front.len() {
            lemma_rows_of_packages_ancestry(pid, pname, packages.drop_last(), j);
        } else {
            lemma_rows_of_clusters_ancestry(
                pid,
                pname,
                int_of(jget(p, "packageId"@)),
                str_of(jget(p, "packageName"@)),
                arr_of(jget(p, "clusters"@)),
                j - front.len(),
            );
        }
    }
}

} // verus!
