use vstd::prelude::*;
use vstd::string::StringExecFns;
use crate::json::{Json, JsonModel, jmodel, arr_models, clone_json, jget, assoc_lookup,
    lemma_assoc_lookup_skip};
use crate::error::FdwError;
use crate::fetch::TokenStore;
use crate::listing::{ListingQuery, PageCursor, page_url, page_url_chars, normalize_take,
    effective_take, opt_string_view};
use crate::tree::{FieldMappingRow, RowModel, rows_view, rows_of_products, str_of, id_text_of,
    load_tree_rows};
use crate::text::{trim_trailing_slashes, trim_base};

verus! {

/// A typed cell handed to the host's row sink: a string, a 64-bit integer,
/// or an opaque structured document.
pub enum Cell {
    Text(String),
    I64(i64),
    Jsonb(Json),
}

/// The model of a cell.
pub enum CellModel {
    Text(Seq<char>),
    I64(i64),
    Jsonb(JsonModel),
}

impl View for Cell {
    type V = CellModel;

    open spec fn view(&self) -> CellModel {
        match self {
            Cell::Text(s) => CellModel::Text(s@),
            Cell::I64(n) => CellModel::I64(*n),
            Cell::Jsonb(j) => CellModel::Jsonb(jmodel(*j)),
        }
    }
}

pub open spec fn opt_cell_view(o: Option<Cell>) -> Option<CellModel> {
    match o {
        Option::Some(c) => Option::Some(c@),
        Option::None => Option::None,
    }
}

/// The cell the listing scanner serves for one column of one raw element:
/// the identifier, the display name, or the structured payload; any other
/// column is unsupported (`None`). A supported column whose member is
/// missing yields an absent cell.
pub open spec fn listing_cell(src: JsonModel, col: Seq<char>) -> Option<Option<CellModel>> {
    if col == "entityId"@ {
        Option::Some(
            match jget(src, "entityId"@) {
                Option::Some(v) => Option::Some(
                    CellModel::Text(id_text_of(Option::Some(v))),
                ),
                Option::None => Option::None,
            },
        )
    } else if col == "entityName"@ {
        Option::Some(
            match str_of(jget(src, "entityName"@)) {
                Option::Some(s) => Option::Some(CellModel::Text(s)),
                Option::None => Option::None,
            },
        )
    } else if col == "fields"@ {
        Option::Some(
            match jget(src, "fields"@) {
                Option::Some(v) => Option::Some(CellModel::Jsonb(v)),
                Option::None => Option::None,
            },
        )
    } else {
        Option::None
    }
}

pub open spec fn opt_text_cell(o: Option<Seq<char>>) -> Option<CellModel> {
    match o {
        Option::Some(s) => Option::Some(CellModel::Text(s)),
        Option::None => Option::None,
    }
}

pub open spec fn opt_i64_cell(o: Option<i64>) -> Option<CellModel> {
    match o {
        Option::Some(n) => Option::Some(CellModel::I64(n)),
        Option::None => Option::None,
    }
}

/// The cell the tree scanner serves for one column of one flattened row:
/// the fixed fourteen-column schema; any other column is unsupported.
pub open spec fn tree_cell(row: RowModel, col: Seq<char>) -> Option<Option<CellModel>> {
    if col == "product_id"@ {
        Option::Some(Option::Some(CellModel::Text(row.product_id)))
    } else if col == "product_name"@ {
        Option::Some(opt_text_cell(row.product_name))
    } else if col == "package_id"@ {
        Option::Some(opt_i64_cell(row.package_id))
    } else if col == "package_name"@ {
        Option::Some(opt_text_cell(row.package_name))
    } else if col == "field_cluster_id"@ {
        Option::Some(opt_i64_cell(row.field_cluster_id))
    } else if col == "field_cluster_name"@ {
        Option::Some(opt_text_cell(row.field_cluster_name))
    } else if col == "field_id"@ {
        Option::Some(opt_i64_cell(row.field_id))
    } else if col == "field_name"@ {
        Option::Some(opt_text_cell(row.field_name))
    } else if col == "description"@ {
        Option::Some(opt_text_cell(row.description))
    } else if col == "field_type"@ {
        Option::Some(opt_text_cell(row.field_type))
    } else if col == "field_length"@ {
        Option::Some(opt_text_cell(row.field_length))
    } else if col == "possible_values"@ {
        Option::Some(opt_text_cell(row.possible_values))
    } else if col == "grouping"@ {
        Option::Some(opt_text_cell(row.grouping))
    } else if col == "parentage"@ {
        Option::Some(
            match row.parentage {
                Option::Some(m) => Option::Some(CellModel::Jsonb(m)),
                Option::None => Option::None,
            },
        )
    } else {
        Option::None
    }
}

/// Serve one listing column: the cell, or the offending column's name.
pub fn project_listing_cell(src: &Json, col: &String) -> (r: Result<Option<Cell>, FdwError>)
    ensures
        match listing_cell(src@, col@) {
            Option::Some(oc) => r matches Ok(c) && opt_cell_view(c) == oc,
            Option::None => r matches Err(FdwError::UnsupportedColumn { column }) && column@
                == col@,
        },
{
    if *col == "entityId".to_owned() {
        match src.get("entityId") {
            Some(v) => Ok(Some(Cell::Text(crate::tree::json_id_text(v)))),
            None => Ok(None),
        }
    } else if *col == "entityName".to_owned() {
        match crate::tree::get_str(src, "entityName") {
            Some(s) => Ok(Some(Cell::Text(s))),
            None => Ok(None),
        }
    } else if *col == "fields".to_owned() {
        match src.get("fields") {
            Some(v) => Ok(Some(Cell::Jsonb(clone_json(v)))),
            None => Ok(None),
        }
    } else {
        Err(FdwError::UnsupportedColumn { column: col.clone() })
    }
}

fn text_cell(o: &Option<String>) -> (r: Option<Cell>)
    ensures
        opt_cell_view(r) == opt_text_cell(opt_string_view(*o)),
{
    match o {
        Some(s) => Some(Cell::Text(s.clone())),
        None => None,
    }
}

fn i64_cell(o: Option<i64>) -> (r: Option<Cell>)
    ensures
        opt_cell_view(r) == opt_i64_cell(o),
{
    match o {
        Some(n) => Some(Cell::I64(n)),
        None => None,
    }
}

/// Serve one tree column: the cell, or the offending column's name.
pub fn project_tree_cell(row: &FieldMappingRow, col: &String) -> (r: Result<Option<Cell>, FdwError>)
    ensures
        match tree_cell(row@, col@) {
            Option::Some(oc) => r matches Ok(c) && opt_cell_view(c) == oc,
            Option::None => r matches Err(FdwError::UnsupportedColumn { column }) && column@
                == col@,
        },
{
    if *col == "product_id".to_owned() {
        Ok(Some(Cell::Text(row.product_id.clone())))
    } else if *col == "product_name".to_owned() {
        Ok(text_cell(&row.product_name))
    } else if *col == "package_id".to_owned() {
        Ok(i64_cell(row.package_id))
    } else if *col == "package_name".to_owned() {
        Ok(text_cell(&row.package_name))
    } else if *col == "field_cluster_id".to_owned() {
        Ok(i64_cell(row.field_cluster_id))
    } else if *col == "field_cluster_name".to_owned() {
        Ok(text_cell(&row.field_cluster_name))
    } else if *col == "field_id".to_owned() {
        Ok(i64_cell(row.field_id))
    } else if *col == "field_name".to_owned() {
        Ok(text_cell(&row.field_name))
    } else if *col == "description".to_owned() {
        Ok(text_cell(&row.description))
    } else if *col == "field_type".to_owned() {
        Ok(text_cell(&row.field_type))
    } else if *col == "field_length".to_owned() {
        Ok(text_cell(&row.field_length))
    } else if *col == "possible_values".to_owned() {
        Ok(text_cell(&row.possible_values))
    } else if *col == "grouping".to_owned() {
        Ok(text_cell(&row.grouping))
    } else if *col == "parentage".to_owned() {
        match &row.parentage {
            Some(j) => Ok(Some(Cell::Jsonb(clone_json(j)))),
            None => Ok(None),
        }
    } else {
        Err(FdwError::UnsupportedColumn { column: col.clone() })
    }
}

/// Project one listing element into the requested columns; on an
/// unsupported column the error names it and no row is served.
pub fn project_listing_row(src: &Json, cols: &Vec<String>) -> (r: Result<Vec<Option<Cell>>, FdwError>)
    ensures
        match r {
            Ok(cells) => listing_row_ok(cells@, src@, cols@),
            Err(e) => e matches FdwError::UnsupportedColumn { column } && listing_cell(
                src@,
                column@,
            ) is None && (exists|j: int| 0 <= j < cols@.len() && (#[trigger] cols@[j])@ == column@),
        },
{
    let mut cells: Vec<Option<Cell>> = Vec::new();
    let mut j: usize = 0;
    while j < cols.len()
        invariant
            j <= cols.len(),
            cells@.len() == j as int,
            forall|k: int| 0 <= k < j ==> listing_cell(src@, (#[trigger] cols@[k])@) is Some,
            forall|k: int|
                0 <= k < j ==> opt_cell_view(#[trigger] cells@[k]) == listing_cell(
                    src@,
                    cols@[k]@,
                )->Some_0,
        decreases cols.len() - j,
    {
        match project_listing_cell(src, &cols[j]) {
            Ok(c) => cells.push(c),
            Err(e) => { return Err(e) },
        }
        j += 1;
    }
    Ok(cells)
}

pub open spec fn listing_row_ok(cells: Seq<Option<Cell>>, src: JsonModel, cols: Seq<String>) -> bool {
    &&& cells.len() == cols.len()
    &&& forall|j: int| 0 <= j < cols.len() ==> listing_cell(src, (#[trigger] cols[j])@) is Some
    &&& forall|j: int|
        0 <= j < cols.len() ==> opt_cell_view(#[trigger] cells[j]) == listing_cell(
            src,
            cols[j]@,
        )->Some_0
}

pub open spec fn tree_row_ok(cells: Seq<Option<Cell>>, row: RowModel, cols: Seq<String>) -> bool {
    &&& cells.len() == cols.len()
    &&& forall|j: int| 0 <= j < cols.len() ==> tree_cell(row, (#[trigger] cols[j])@) is Some
    &&& forall|j: int|
        0 <= j < cols.len() ==> opt_cell_view(#[trigger] cells[j]) == tree_cell(
            row,
            cols[j]@,
        )->Some_0
}

/// Project one flattened row into the requested columns.
pub fn project_tree_row(row: &FieldMappingRow, cols: &Vec<String>) -> (r: Result<
    Vec<Option<Cell>>,
    FdwError,
>)
    ensures
        match r {
            Ok(cells) => tree_row_ok(cells@, row@, cols@),
            Err(e) => e matches FdwError::UnsupportedColumn { column } && tree_cell(
                row@,
                column@,
            ) is None && (exists|j: int| 0 <= j < cols@.len() && (#[trigger] cols@[j])@ == column@),
        },
{
    let mut cells: Vec<Option<Cell>> = Vec::new();
    let mut j: usize = 0;
    while j < cols.len()
        invariant
            j <= cols.len(),
            cells@.len() == j as int,
            forall|k: int| 0 <= k < j ==> tree_cell(row@, (#[trigger] cols@[k])@) is Some,
            forall|k: int|
                0 <= k < j ==> opt_cell_view(#[trigger] cells@[k]) == tree_cell(
                    row@,
                    cols@[k]@,
                )->Some_0,
        decreases cols.len() - j,
    {
        match project_tree_cell(row, &cols[j]) {
            Ok(c) => cells.push(c),
            Err(e) => { return Err(e) },
        }
        j += 1;
    }
    Ok(cells)
}

/// The tagged union over the two scanners; exactly one variant is live, and
/// ending a scan returns to `Inactive` whatever the variant was.
pub enum ScanState {
    Inactive,
    Listing { query: ListingQuery, cursor: PageCursor },
    Tree { rows: Vec<FieldMappingRow>, idx: usize, loaded: bool },
}

/// The single stateful object the host drives: the normalized base URL, the
/// token store, and the active scan.
pub struct Session {
    pub base_url: String,
    pub store: TokenStore,
    pub scan: ScanState,
}

/// What one `next` call asks of the host: serve this row, the scan is over,
/// or perform one authenticated fetch of this URL and hand the outcome to
/// `provide`.
pub enum ScanStep {
    Row(Vec<Option<Cell>>),
    Finished,
    Fetch(String),
}

pub open spec fn default_base_chars() -> Seq<char> {
    "https://api.sustainalytics.com"@
}

/// Create a session from the server options: an optional base URL with the
/// documented default (trailing slashes trimmed once here), and the
/// required client id and secret. A missing credential is a configuration
/// failure naming the missing option.
pub fn new_session(
    base_url: Option<&String>,
    client_id: Option<&String>,
    client_secret: Option<&String>,
) -> (r: Result<Session, FdwError>)
    ensures
        match r {
            Ok(s) => {
                &&& client_id is Some
                &&& client_secret is Some
                &&& s.base_url@ == trim_trailing_slashes(
                    match base_url {
                        Option::Some(b) => b@,
                        Option::None => default_base_chars(),
                    },
                )
                &&& s.store.client_id@ == client_id->Some_0@
                &&& s.store.client_secret@ == client_secret->Some_0@
                &&& s.store.cached is None
                &&& s.scan is Inactive
            },
            Err(e) => {
                &&& (client_id is None || client_secret is None)
                &&& e matches FdwError::Configuration { detail } && detail@ == (if client_id
                    is None {
                    "client_id"@
                } else {
                    "client_secret"@
                })
            },
        },
{
    let cid = match client_id {
        Some(s) => s.clone(),
        None => { return Err(FdwError::Configuration { detail: "client_id".to_owned() }) },
    };
    let csec = match client_secret {
        Some(s) => s.clone(),
        None => { return Err(FdwError::Configuration { detail: "client_secret".to_owned() }) },
    };
    let base = match base_url {
        Some(b) => trim_base(b.as_str()),
        None => trim_base("https://api.sustainalytics.com"),
    };
    Ok(
        Session {
            base_url: base,
            store: TokenStore { client_id: cid, client_secret: csec, cached: None },
            scan: ScanState::Inactive,
        },
    )
}

pub open spec fn opts_view(opts: Seq<(String, String)>) -> Seq<(Seq<char>, Seq<char>)> {
    Seq::new(opts.len(), |i: int| (opts[i].0@, opts[i].1@))
}

/// The table options the listing resource recognizes.
pub open spec fn listing_opt_allowed(k: Seq<char>) -> bool {
    ||| k == "endpoint"@
    ||| k == "ProductId"@
    ||| k == "PackageIds"@
    ||| k == "FieldClusterIds"@
    ||| k == "FieldIds"@
    ||| k == "Take"@
}

pub open spec fn keys_allowed(opts: Seq<(Seq<char>, Seq<char>)>) -> bool {
    forall|i: int| #![auto] 0 <= i < opts.len() ==> listing_opt_allowed(opts[i].0)
}

/// First-match lookup of a table option's value.
fn opt_get(options: &Vec<(String, String)>, key: &str) -> (r: Option<String>)
    ensures
        opt_string_view(r) == assoc_lookup(opts_view(options@), key@),
{
    let key_s = key.to_owned();
    let ghost ov = opts_view(options@);
    let mut i: usize = 0;
    while i < options.len()
        invariant
            i <= options.len(),
            key_s@ == key@,
            ov == opts_view(options@),
            ov.len() == options@.len(),
            forall|k: int| #![auto] 0 <= k < options@.len() ==> ov[k] == (
                options@[k].0@,
                options@[k].1@,
            ),
            forall|k: int| #![auto] 0 <= k < i ==> ov[k].0 != key@,
        decreases options.len() - i,
    {
        if options[i].0 == key_s {
            proof {
                lemma_assoc_lookup_skip(ov, key@, i as int);
                assert(ov.subrange(i as int, ov.len() as int)[0] == ov[i as int]);
            }
            return Some(options[i].1.clone());
        }
        i += 1;
    }
    proof {
        lemma_assoc_lookup_skip(ov, key@, ov.len() as int);
        assert(ov.subrange(ov.len() as int, ov.len() as int) =~= Seq::<(
            Seq<char>,
            Seq<char>,
        )>::empty());
    }
    None
}

impl Session {
    /// Does the session await a fetched document before it can serve rows.
    pub open spec fn wants_fetch(&self) -> bool {
        match self.scan {
            ScanState::Inactive => false,
            ScanState::Listing { query, cursor } => cursor.page_idx >= cursor.page_rows@.len()
                && !cursor.done,
            ScanState::Tree { rows, idx, loaded } => !loaded,
        }
    }

    /// Select and initialize exactly one scanner for `endpoint`, discarding
    /// any previous scan state on success. The listing resource demands a
    /// `ProductId`, rejects unrecognized table options by name, and clamps
    /// its page size; an unknown endpoint is a configuration failure naming
    /// it. The first fetch is asked for by the first `next` call.
    pub fn begin(&mut self, endpoint: &String, options: &Vec<(String, String)>) -> (r: Result<
        (),
        FdwError,
    >)
        ensures
            final(self).base_url == old(self).base_url,
            final(self).store == old(self).store,
            ({
                let opts = opts_view(options@);
                if endpoint@ == "DataServices"@ {
                    if !keys_allowed(opts) {
                        r matches Err(FdwError::Configuration { detail }) && !listing_opt_allowed(
                            detail@,
                        ) && (exists|i: int| #![auto]
                            0 <= i < opts.len() && opts[i].0 == detail@) && final(self).scan
                            == old(self).scan
                    } else {
                        match assoc_lookup(opts, "ProductId"@) {
                            Option::None => r matches Err(FdwError::Configuration { detail })
                                && detail@ == "ProductId"@ && final(self).scan == old(self).scan,
                            Option::Some(pid) => r is Ok && (final(self).scan matches
                                ScanState::Listing { query, cursor } && {
                                    &&& query.product_id@ == pid
                                    &&& opt_string_view(query.package_ids) == assoc_lookup(
                                        opts,
                                        "PackageIds"@,
                                    )
                                    &&& opt_string_view(query.field_cluster_ids) == assoc_lookup(
                                        opts,
                                        "FieldClusterIds"@,
                                    )
                                    &&& opt_string_view(query.field_ids) == assoc_lookup(
                                        opts,
                                        "FieldIds"@,
                                    )
                                    &&& query.take as int == effective_take(
                                        assoc_lookup(opts, "Take"@),
                                    )
                                    &&& cursor.skip == 0
                                    &&& cursor.page_rows@.len() == 0
                                    &&& cursor.page_idx == 0
                                    &&& !cursor.done
                                }),
                        }
                    }
                } else if endpoint@ == "FieldMappingDefinitions"@ {
                    r is Ok && (final(self).scan matches ScanState::Tree { rows, idx, loaded } && {
                        &&& rows@.len() == 0
                        &&& idx == 0
                        &&& !loaded
                    })
                } else {
                    r matches Err(FdwError::Configuration { detail }) && detail@ == endpoint@
                        && final(self).scan == old(self).scan
                }
            }),
    {
        if *endpoint == "DataServices".to_owned() {
            let ghost opts = opts_view(options@);
            let mut i: usize = 0;
            while i < options.len()
                invariant
                    i <= options.len(),
                    endpoint@ == "DataServices"@,
                    opts == opts_view(options@),
                    opts.len() == options@.len(),
                    forall|k: int| #![auto] 0 <= k < options@.len() ==> opts[k] == (
                        options@[k].0@,
                        options@[k].1@,
                    ),
                    forall|k: int| #![auto] 0 <= k < i ==> listing_opt_allowed(opts[k].0),
                decreases options.len() - i,
            {
                let k = &options[i].0;
                let allowed = *k == "endpoint".to_owned() || *k == "ProductId".to_owned() || *k
                    == "PackageIds".to_owned() || *k == "FieldClusterIds".to_owned() || *k
                    == "FieldIds".to_owned() || *k == "Take".to_owned();
                if !allowed {
                    proof {
                        assert(opts[i as int].0 == options@[i as int].0@);
                        assert(!listing_opt_allowed(opts[i as int].0));
                        assert(!keys_allowed(opts));
                        assert(exists|w: int| #![auto]
                            0 <= w < opts.len() && opts[w].0 == k@);
                    }
                    return Err(FdwError::Configuration { detail: k.clone() });
                }
                i += 1;
            }
            let product_id = match opt_get(options, "ProductId") {
                Some(p) => p,
                None => {
                    return Err(FdwError::Configuration { detail: "ProductId".to_owned() });
                },
            };
            let take_opt = opt_get(options, "Take");
            let take = match &take_opt {
                Some(s) => normalize_take(Some(s)),
                None => normalize_take(None),
            };
            let query = ListingQuery {
                product_id,
                package_ids: opt_get(options, "PackageIds"),
                field_cluster_ids: opt_get(options, "FieldClusterIds"),
                field_ids: opt_get(options, "FieldIds"),
                take,
            };
            self.scan = ScanState::Listing { query, cursor: PageCursor::new() };
            Ok(())
        } else if *endpoint == "FieldMappingDefinitions".to_owned() {
            self.scan = ScanState::Tree { rows: Vec::new(), idx: 0, loaded: false };
            Ok(())
        } else {
            Err(FdwError::Configuration { detail: endpoint.clone() })
        }
    }

    /// Serve the next row of the active scan, projected into `cols`; ask for
    /// a fetch when a page or the tree document is needed; report the end.
    /// An unsupported column fails by name before any row data is touched
    /// and leaves the scan where it was.
    pub fn next(&mut self, cols: &Vec<String>) -> (r: Result<ScanStep, FdwError>)
        ensures
            final(self).base_url == old(self).base_url,
            final(self).store == old(self).store,
            match old(self).scan {
                ScanState::Inactive => r matches Ok(ScanStep::Finished) && final(self).scan == old(
                    self,
                ).scan,
                ScanState::Listing { query, cursor } => {
                    if cursor.page_idx < cursor.page_rows@.len() {
                        let src = jmodel(cursor.page_rows@[cursor.page_idx as int]);
                        match r {
                            Ok(step) => step matches ScanStep::Row(cells) && listing_row_ok(
                                cells@,
                                src,
                                cols@,
                            ) && (final(self).scan matches ScanState::Listing {
                                query: q2,
                                cursor: c2,
                            } && q2 == query && c2.page_rows == cursor.page_rows && c2.skip
                                == cursor.skip && c2.done == cursor.done && c2.page_idx
                                == cursor.page_idx + 1),
                            Err(e) => e matches FdwError::UnsupportedColumn { column }
                                && listing_cell(src, column@) is None && (exists|j: int| #![auto]
                                0 <= j < cols@.len() && cols@[j]@ == column@) && final(self).scan
                                == old(self).scan,
                        }
                    } else if !cursor.done {
                        r matches Ok(ScanStep::Fetch(url)) && url@ == page_url_chars(
                            old(self).base_url@,
                            query,
                            cursor.skip as nat,
                        ) && final(self).scan == old(self).scan
                    } else {
                        r matches Ok(ScanStep::Finished) && final(self).scan == old(self).scan
                    }
                },
                ScanState::Tree { rows, idx, loaded } => {
                    if !loaded {
                        r matches Ok(ScanStep::Fetch(url)) && url@ == tree_url_chars(
                            old(self).base_url@,
                        ) && final(self).scan == old(self).scan
                    } else if idx < rows@.len() {
                        match r {
                            Ok(step) => step matches ScanStep::Row(cells) && tree_row_ok(
                                cells@,
                                rows@[idx as int]@,
                                cols@,
                            ) && (final(self).scan matches ScanState::Tree {
                                rows: r2,
                                idx: i2,
                                loaded: l2,
                            } && r2 == rows && l2 == loaded && i2 == idx + 1),
                            Err(e) => e matches FdwError::UnsupportedColumn { column } && tree_cell(
                                rows@[idx as int]@,
                                column@,
                            ) is None && (exists|j: int| #![auto]
                                0 <= j < cols@.len() && cols@[j]@ == column@) && final(self).scan
                                == old(self).scan,
                        }
                    } else {
                        r matches Ok(ScanStep::Finished) && final(self).scan == old(self).scan
                    }
                },
            },
    {
        match &mut self.scan {
            ScanState::Inactive => Ok(ScanStep::Finished),
            ScanState::Listing { query, cursor } => {
                if cursor.page_idx < cursor.page_rows.len() {
                    let cells = project_listing_row(&cursor.page_rows[cursor.page_idx], cols)?;
                    cursor.page_idx += 1;
                    Ok(ScanStep::Row(cells))
                } else if !cursor.done {
                    let url = page_url(self.base_url.as_str(), query, cursor.skip);
                    Ok(ScanStep::Fetch(url))
                } else {
                    Ok(ScanStep::Finished)
                }
            },
            ScanState::Tree { rows, idx, loaded } => {
                if !*loaded {
                    let mut url = self.base_url.as_str().to_owned();
                    url.append("/v2/FieldMappingDefinitions");
                    proof {
                        assert(url@ =~= tree_url_chars(self.base_url@));
                    }
                    Ok(ScanStep::Fetch(url))
                } else if *idx < rows.len() {
                    let cells = project_tree_row(&rows[*idx], cols)?;
                    *idx += 1;
                    Ok(ScanStep::Row(cells))
                } else {
                    Ok(ScanStep::Finished)
                }
            },
        }
    }

    /// Digest the outcome of the fetch the session asked for: the next
    /// listing page, or the whole tree document, flattened at once.
    pub fn provide(&mut self, status: u16, body: Json, url: &str) -> (r: Result<(), FdwError>)
        requires
            old(self).wants_fetch(),
            (match old(self).scan {
                ScanState::Listing { query, cursor } => cursor.skip + query.take <= u64::MAX,
                _ => true,
            }),
        ensures
            final(self).base_url == old(self).base_url,
            final(self).store == old(self).store,
            match old(self).scan {
                ScanState::Inactive => true,
                ScanState::Listing { query, cursor } => {
                    &&& (!(200 <= status < 300) ==> (r matches Err(FdwError::Upstream {
                        status: st,
                        url: u,
                    }) && st == status && u@ == url@ && final(self).scan == old(self).scan))
                    &&& ((200 <= status < 300) && !(body@ is Arr) ==> (r matches Err(
                        FdwError::Schema { detail },
                    ) && detail@ == "DataServices"@ && final(self).scan == old(self).scan))
                    &&& ((200 <= status < 300) && body@ is Arr ==> r is Ok && (final(self).scan
                        matches ScanState::Listing { query: q2, cursor: c2 } && q2 == query && {
                            let items = body@->Arr_0;
                            &&& arr_models(c2.page_rows@) == items
                            &&& c2.page_idx == 0
                            &&& c2.done == (items.len() < query.take)
                            &&& c2.skip == if items.len() < query.take {
                                cursor.skip as int
                            } else {
                                cursor.skip + query.take
                            }
                        }))
                },
                ScanState::Tree { .. } => {
                    &&& (!(200 <= status < 300) ==> (r matches Err(FdwError::Upstream {
                        status: st,
                        url: u,
                    }) && st == status && u@ == url@ && final(self).scan == old(self).scan))
                    &&& ((200 <= status < 300) && !(body@ is Arr) ==> (r matches Err(
                        FdwError::Schema { detail },
                    ) && detail@ == "FieldMappingDefinitions"@ && final(self).scan == old(
                        self,
                    ).scan))
                    &&& ((200 <= status < 300) && body@ is Arr ==> r is Ok && (final(self).scan
                        matches ScanState::Tree { rows, idx, loaded } && {
                            &&& rows_view(rows@) == rows_of_products(body@->Arr_0)
                            &&& idx == 0
                            &&& loaded
                        }))
                },
            },
    {
        match &mut self.scan {
            ScanState::Inactive => Ok(()),
            ScanState::Listing { query, cursor } => cursor.apply_page(query.take, status, body, url),
            ScanState::Tree { rows, idx, loaded } => {
                match load_tree_rows(status, &body, url) {
                    Ok(r2) => {
                        *rows = r2;
                        *idx = 0;
                        *loaded = true;
                        Ok(())
                    },
                    Err(e) => Err(e),
                }
            },
        }
    }

    /// End the scan: discard the scan state, whatever the variant was; the
    /// credentials and cached token survive for the next query.
    pub fn end(&mut self)
        ensures
            final(self).scan is Inactive,
            final(self).base_url == old(self).base_url,
            final(self).store == old(self).store,
    {
        self.scan = ScanState::Inactive;
    }
}

pub open spec fn tree_url_chars(base: Seq<char>) -> Seq<char> {
    base + "/v2/FieldMappingDefinitions"@
}

} // verus!
