use vstd::prelude::*;
use vstd::string::StringExecFns;
use vstd::string::StrSliceExecFns;
use crate::json::{Json, arr_models};
use crate::error::FdwError;
use crate::text::{
    dec_chars, int_of_text, u64_to_string, is_digit, digits_val, all_digits, url_enc, url_encode,
};

verus! {

/// The page size used when none is given or the given one is invalid.
pub const DEFAULT_TAKE: u64 = 10;

/// The largest page size ever requested upstream; a larger request clamps
/// down to it, it never errors.
pub const MAX_TAKE: u64 = 10;

/// The page size a raw `Take` option yields: the default when the option is
/// absent, unparsable or below one; the value itself when below the maximum;
/// the maximum otherwise.
pub open spec fn effective_take(raw: Option<Seq<char>>) -> int {
    match raw {
        Option::None => DEFAULT_TAKE as int,
        Option::Some(s) => match int_of_text(s) {
            Option::None => DEFAULT_TAKE as int,
            Option::Some(n) => if n < 1 {
                DEFAULT_TAKE as int
            } else if n < MAX_TAKE as int {
                n
            } else {
                MAX_TAKE as int
            },
        },
    }
}

pub open spec fn opt_text_view(o: Option<&String>) -> Option<Seq<char>> {
    match o {
        Option::Some(s) => Option::Some(s@),
        Option::None => Option::None,
    }
}

pub open spec fn opt_string_view(o: Option<String>) -> Option<Seq<char>> {
    match o {
        Option::Some(s) => Option::Some(s@),
        Option::None => Option::None,
    }
}

proof fn lemma_digits_val_nonneg(s: Seq<char>)
    requires
        all_digits(s),
    ensures
        digits_val(s) >= 0,
    decreases s.len(),
{
    if s.len() > 0 {
        assert(all_digits(s.drop_last()));
        lemma_digits_val_nonneg(s.drop_last());
    }
}

/// The effective page size of a raw `Take` option text.
pub fn normalize_take(raw: Option<&String>) -> (t: u64)
    ensures
        t as int == effective_take(opt_text_view(raw)),
        1 <= t <= MAX_TAKE,
{
    let s: &String = match raw {
        Some(s) => s,
        None => { return DEFAULT_TAKE; },
    };
    let st: &str = s.as_str();
    let n = st.unicode_len();
    if n == 0 {
        return DEFAULT_TAKE;
    }
    let first = st.get_char(0);
    let neg = first == '-';
    let signed = neg || first == '+';
    let start: usize = if signed { 1 } else { 0 };
    let ghost ds = s@.subrange(start as int, n as int);
    proof {
        if signed {
            assert(ds =~= s@.drop_first());
        } else {
            assert(ds =~= s@);
        }
    }
    if n == start {
        return DEFAULT_TAKE;
    }
    let mut i: usize = start;
    let mut acc: u64 = 0;
    while i < n
        invariant
            start <= i <= n,
            opt_text_view(raw) == Option::Some(s@),
            st@ == s@,
            n == s@.len(),
            s@.len() >= 1,
            signed == (s@[0] == '+' || s@[0] == '-'),
            neg == (s@[0] == '-'),
            start == if signed { 1int } else { 0int },
            if signed { ds == s@.drop_first() } else { ds == s@ },
            ds.len() >= 1,
            ds == s@.subrange(start as int, n as int),
            forall|k: int| start <= k < i ==> is_digit(#[trigger] s@[k]),
            acc <= 999,
            ({
                let pv = digits_val(s@.subrange(start as int, i as int));
                &&& pv >= 0
                &&& (pv < 100 ==> acc == pv)
                &&& (pv >= 100 ==> acc >= 100)
            }),
        decreases n - i,
    {
        let c = st.get_char(i);
        if !('0' <= c && c <= '9') {
            proof {
                assert(ds[i - start] == s@[i as int]);
                assert(!is_digit(ds[i - start]));
            }
            return DEFAULT_TAKE;
        }
        let ghost pre = s@.subrange(start as int, i as int);
        let ghost post = s@.subrange(start as int, i as int + 1);
        proof {
            assert(post.drop_last() =~= pre);
            assert(post.last() == s@[i as int]);
        }
        if acc < 100 {
            acc = acc * 10 + (c as u64 - 48);
        }
        i += 1;
    }
    proof {
        assert(s@.subrange(start as int, n as int) == ds);
        assert(all_digits(ds));
        lemma_digits_val_nonneg(ds);
    }
    if neg {
        return DEFAULT_TAKE;
    }
    if acc < 1 {
        DEFAULT_TAKE
    } else if acc < MAX_TAKE {
        acc
    } else {
        MAX_TAKE
    }
}

/// The immutable parameters of one paginated listing query. The page size
/// is always within `[1, MAX_TAKE]`.
pub struct ListingQuery {
    pub product_id: String,
    pub package_ids: Option<String>,
    pub field_cluster_ids: Option<String>,
    pub field_ids: Option<String>,
    pub take: u64,
}

impl ListingQuery {
    pub open spec fn wf(&self) -> bool {
        1 <= self.take <= MAX_TAKE
    }
}

pub open spec fn opt_param(prefix: Seq<char>, v: Option<Seq<char>>) -> Seq<char> {
    match v {
        Option::Some(s) => prefix + url_enc(s),
        Option::None => Seq::<char>::empty(),
    }
}

/// The request URL of the page at `skip`: the fixed path and the required
/// parameters, then each present optional filter, in a fixed order.
pub open spec fn page_url_chars(base: Seq<char>, q: ListingQuery, skip: nat) -> Seq<char> {
    base + "/v2/DataService?ProductId="@ + url_enc(q.product_id@) + "&Skip="@ + dec_chars(skip)
        + "&Take="@ + dec_chars(q.take as nat) + opt_param(
        "&PackageIds="@,
        opt_string_view(q.package_ids),
    ) + opt_param("&FieldClusterIds="@, opt_string_view(q.field_cluster_ids)) + opt_param(
        "&FieldIds="@,
        opt_string_view(q.field_ids),
    )
}

/// Build the page request URL for `q` at offset `skip` under `base`.
pub fn page_url(base: &str, q: &ListingQuery, skip: u64) -> (r: String)
    ensures
        r@ == page_url_chars(base@, *q, skip as nat),
{
    let mut s = base.to_owned();
    s.append("/v2/DataService?ProductId=");
    let pid = url_encode(q.product_id.as_str());
    s.append(pid.as_str());
    s.append("&Skip=");
    let sk = u64_to_string(skip);
    s.append(sk.as_str());
    s.append("&Take=");
    let tk = u64_to_string(q.take);
    s.append(tk.as_str());
    match &q.package_ids {
        Some(v) => {
            s.append("&PackageIds=");
            let e = url_encode(v.as_str());
            s.append(e.as_str());
        },
        None => {},
    }
    match &q.field_cluster_ids {
        Some(v) => {
            s.append("&FieldClusterIds=");
            let e = url_encode(v.as_str());
            s.append(e.as_str());
        },
        None => {},
    }
    match &q.field_ids {
        Some(v) => {
            s.append("&FieldIds=");
            let e = url_encode(v.as_str());
            s.append(e.as_str());
        },
        None => {},
    }
    proof {
        assert(s@ =~= page_url_chars(base@, *q, skip as nat));
    }
    s
}

/// The mutable state of one paginated scan: the next offset to request, the
/// most recently fetched page, an index into it, and the completion flag.
/// The flag becomes permanently true exactly when a fetched page is short;
/// the offset advances only on a full page.
pub struct PageCursor {
    pub skip: u64,
    pub page_rows: Vec<Json>,
    pub page_idx: usize,
    pub done: bool,
}

impl PageCursor {
    /// A cursor awaiting its first page.
    pub fn new() -> (c: Self)
        ensures
            c.skip == 0,
            c.page_rows@.len() == 0,
            c.page_idx == 0,
            !c.done,
    {
        PageCursor { skip: 0, page_rows: Vec::new(), page_idx: 0, done: false }
    }

    /// Digest one fetched page: a non-2xx status is an upstream failure, a
    /// non-array body a schema failure, both leaving the cursor unchanged; an
    /// array becomes the current page, short pages end the scan and full
    /// pages advance the offset by the page size.
    pub fn apply_page(&mut self, take: u64, status: u16, body: Json, url: &str) -> (r: Result<
        (),
        FdwError,
    >)
        requires
            old(self).skip + take <= u64::MAX,
            !old(self).done,
        ensures
            !(200 <= status < 300) ==> (r matches Err(FdwError::Upstream { status: st, url: u })
                && st == status && u@ == url@ && *final(self) == *old(self)),
            (200 <= status < 300) && !(body@ is Arr) ==> ((r matches Err(FdwError::Schema {
                detail,
            }) && detail@ == "DataServices"@) && *final(self) == *old(self)),
            (200 <= status < 300) && body@ is Arr ==> r is Ok && ({
                let items = body@->Arr_0;
                &&& arr_models(final(self).page_rows@) == items
                &&& final(self).page_idx == 0
                &&& final(self).done == (items.len() < take)
                &&& final(self).skip == if items.len() < take {
                    old(self).skip as int
                } else {
                    old(self).skip + take
                }
            }),
    {
        if !(200 <= status && status < 300) {
            return Err(FdwError::Upstream { status, url: url.to_owned() });
        }
        match body {
            Json::Arr(v) => {
                proof {
                    assert(arr_models(v@) =~= body@->Arr_0);
                }
                let count = v.len();
                self.page_rows = v;
                self.page_idx = 0;
                if (count as u64) < take {
                    self.done = true;
                } else {
                    self.skip = self.skip + take;
                }
                Ok(())
            },
            _ => Err(FdwError::Schema { detail: "DataServices".to_owned() }),
        }
    }
}

/// The page-size rule, spelled out over every raw `Take` text: an absent,
/// unparsable or below-one value falls back to the default of ten; a value
/// within [1, 10) is used as given; a value at or above ten clamps down to
/// ten — it never errors.
pub proof fn lemma_take_normalization(raw: Option<Seq<char>>)
    ensures
        effective_take(raw) == (match raw {
            Option::None => 10int,
            Option::Some(s) => match int_of_text(s) {
                Option::None => 10int,
                Option::Some(n) => if n < 1 {
                    10int
                } else if n < 10 {
                    n
                } else {
                    10int
                },
            },
        }),
{
}

/// The number of page fetches a scan starting at `skip` makes against an
/// upstream holding `total` rows, when each request below the end returns a
/// full page and the first short page ends the scan — exactly the cursor's
/// behaviour in `apply_page`: the offset advances by `take` on a full page
/// and the scan is done, never to fetch again, on a short one.
pub open spec fn fetches_to_done(total: int, take: int, skip: int) -> int
    decreases total - skip,
        when 1 <= take && 0 <= skip <= total
{
    if total - skip < take {
        1
    } else {
        1 + fetches_to_done(total, take, skip + take)
    }
}

pub proof fn lemma_fetch_count(total: int, take: int, skip: int)
    requires
        1 <= take,
        0 <= skip <= total,
    ensures
        fetches_to_done(total, take, skip) == (total - skip) / take + 1,
    decreases total - skip,
{
    if total - skip < take {
        assert((total - skip) / take == 0) by (nonlinear_arith)
            requires
                1 <= take,
                0 <= total - skip < take,
        ;
    } else {
        lemma_fetch_count(total, take, skip + take);
        assert((total - skip - take) / take + 1 == (total - skip) / take) by (nonlinear_arith)
            requires
                1 <= take,
                take <= total - skip,
        ;
    }
}

/// Pagination terminates: when the page size does not divide the row count,
/// a scan from the start reaches the done state after exactly
/// `ceil(total / take)` fetches. (When it divides it evenly the scan needs
/// one fetch more: the last, empty, page is what signals the end.)
pub proof fn lemma_pagination_terminates(total: int, take: int)
    requires
        1 <= take,
        0 <= total,
        total % take != 0,
    ensures
        fetches_to_done(total, take, 0) == (total + take - 1) / take,
{
    lemma_fetch_count(total, take, 0);
    assert(total / take + 1 == (total + take - 1) / take) by (nonlinear_arith)
        requires
            1 <= take,
            0 <= total,
            total % take != 0,
    ;
}

} // verus!
