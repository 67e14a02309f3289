//! Parsing the portal's status page: the raw table rows that the HTML
//! holds, and the fail-fast reading of each row into an address and its
//! connection record. A malformed row fails the whole parse; no partial
//! table is ever returned.
use scraper::{ElementRef, Html, Selector};
use vstd::prelude::*;

use crate::account_manager::{has_key, unique_keys, Connection};
use crate::datetime::{spec_parse_expiry, parse_expiry, spec_time_left, time_left_secs};
use crate::ip::{spec_parse_ip, parse_ip, IpAddr};

verus! {

/// One table row as found in the document: the text of each cell (the
/// cell's leading text node, absent when the cell starts with markup),
/// and the text of the row's first inline badge element, if any.
pub struct RawRow {
    pub cells: Vec<Option<String>>,
    pub badge: Option<Option<String>>,
}

/// The mathematical shape of one raw table row.
pub struct RowView {
    pub cells: Seq<Option<Seq<char>>>,
    pub badge: Option<Option<Seq<char>>>,
}

/// The view of one cell text.
pub open spec fn cell_view(c: Option<String>) -> Option<Seq<char>> {
    match c {
        Some(s) => Some(s@),
        None => None,
    }
}

impl View for RawRow {
    type V = RowView;

    open spec fn view(&self) -> RowView {
        RowView {
            cells: self.cells@.map_values(|c: Option<String>| cell_view(c)),
            badge: match self.badge {
                Some(t) => Some(cell_view(t)),
                None => None,
            },
        }
    }
}

/// Why a status page failed to parse.
#[derive(Clone, Copy, Debug, PartialEq, Eq, Structural)]
pub enum ParseError {
    /// The document has no table body at all.
    NoTableBody,
    /// A data row has no second cell to carry the address.
    MissingIpCell,
    /// The address cell does not start with text.
    IpTextMissing,
    /// A data row has no third cell to carry the expiry.
    MissingExpiryCell,
    /// The expiry cell does not start with text.
    ExpiryTextMissing,
    /// The expiry text does not match the fixed timestamp format.
    BadExpiryFormat,
    /// A data row has no inline badge element for the status label.
    MissingStatusBadge,
    /// The badge element does not start with text.
    StatusTextMissing,
    /// The address text is not a well-formed IPv4 address.
    BadIpAddress,
}

/// The rows that the document's table body holds, in order, or nothing
/// when the document has no table body. This names what scraper's CSS
/// selection finds; it is a function of the document text alone.
pub uninterp spec fn rows_of(html: Seq<char>) -> Option<Seq<RowView>>;

/// Relies on scraper: parses the document, selects the first `tbody`,
/// and reads every `tr` under it — each cell's leading text from its
/// `td` elements, and the leading text of the row's first `span`.
#[verifier::external_body]
fn html_table_rows(html: &str) -> (r: Option<Vec<RawRow>>)
    ensures
        match r {
            Some(v) => rows_of(html@) == Some(v@.map_values(|row: RawRow| row@)),
            None => rows_of(html@) is None,
        },
{
    let doc = Html::parse_document(html);
    let tbody_sel = Selector::parse("tbody").ok()?;
    let tr_sel = Selector::parse("tr").ok()?;
    let td_sel = Selector::parse("td").ok()?;
    let span_sel = Selector::parse("span").ok()?;
    let text = |e: ElementRef| {
        e.children().next().and_then(|n| n.value().as_text()).map(|t| t.to_string())
    };
    let tbody = doc.select(&tbody_sel).next()?;
    Some(tbody.select(&tr_sel).map(|tr| RawRow {
        cells: tr.select(&td_sel).map(text).collect(),
        badge: tr.select(&span_sel).next().map(text),
    }).collect())
}

/// Reads one data row: the second cell is the address, the third cell
/// the expiry, and the first badge's text is the active label, which
/// marks the connection active exactly when it reads `Active`. The
/// remaining validity is the time from `now` to the expiry, floored at
/// zero.
pub open spec fn spec_parse_row(row: RowView, now: int) -> Result<
    (IpAddr, Connection),
    ParseError,
> {
    if row.cells.len() < 2 {
        Err(ParseError::MissingIpCell)
    } else {
        match row.cells[1] {
            None => Err(ParseError::IpTextMissing),
            Some(ip_text) => if row.cells.len() < 3 {
                Err(ParseError::MissingExpiryCell)
            } else {
                match row.cells[2] {
                    None => Err(ParseError::ExpiryTextMissing),
                    Some(expiry_text) => match spec_parse_expiry(expiry_text) {
                        None => Err(ParseError::BadExpiryFormat),
                        Some(dt) => match row.badge {
                            None => Err(ParseError::MissingStatusBadge),
                            Some(None) => Err(ParseError::StatusTextMissing),
                            Some(Some(label)) => match spec_parse_ip(ip_text) {
                                None => Err(ParseError::BadIpAddress),
                                Some(ip) => Ok(
                                    (
                                        ip,
                                        Connection {
                                            time_left: spec_time_left(dt, now) as u64,
                                            server_active: label == "Active"@,
                                        },
                                    ),
                                ),
                            },
                        },
                    },
                }
            },
        }
    }
}

/// Reads one data row of the table.
pub fn parse_row(row: &RawRow, now: i64) -> (r: Result<(IpAddr, Connection), ParseError>)
    ensures
        r == spec_parse_row(row@, now as int),
{
    if row.cells.len() < 2 {
        return Err(ParseError::MissingIpCell);
    }
    let ip_text = match &row.cells[1] {
        None => { return Err(ParseError::IpTextMissing); },
        Some(s) => s,
    };
    if row.cells.len() < 3 {
        return Err(ParseError::MissingExpiryCell);
    }
    let expiry_text = match &row.cells[2] {
        None => { return Err(ParseError::ExpiryTextMissing); },
        Some(s) => s,
    };
    let dt = match parse_expiry(expiry_text.as_str()) {
        None => { return Err(ParseError::BadExpiryFormat); },
        Some(dt) => dt,
    };
    let label = match &row.badge {
        None => { return Err(ParseError::MissingStatusBadge); },
        Some(None) => { return Err(ParseError::StatusTextMissing); },
        Some(Some(label)) => label,
    };
    let ip = match parse_ip(ip_text.as_str()) {
        None => { return Err(ParseError::BadIpAddress); },
        Some(ip) => ip,
    };
    let active_label = String::from_str("Active");
    let server_active = *label == active_label;
    let time_left = time_left_secs(&dt, now);
    Ok((ip, Connection { time_left, server_active }))
}

/// The index of the entry of `s` that carries `ip`.
pub open spec fn key_index(s: Seq<(IpAddr, Connection)>, ip: IpAddr) -> int {
    choose|i: int| 0 <= i < s.len() && (#[trigger] s[i]).0 == ip
}

/// `s` with the entry for `ip` set to `c`: replaced in place when the
/// key is present, appended otherwise.
pub open spec fn upsert(s: Seq<(IpAddr, Connection)>, ip: IpAddr, c: Connection) -> Seq<
    (IpAddr, Connection),
> {
    if has_key(s, ip) {
        s.update(key_index(s, ip), (ip, c))
    } else {
        s.push((ip, c))
    }
}

/// Sets the entry for `ip` to `c`, replacing an earlier entry for the
/// same key.
fn upsert_entry(v: &mut Vec<(IpAddr, Connection)>, ip: IpAddr, c: Connection)
    requires
        unique_keys(old(v)@),
    ensures
        final(v)@ == upsert(old(v)@, ip, c),
        unique_keys(final(v)@),
{
    let n = v.len();
    let mut i: usize = 0;
    while i < n
        invariant
            v@ == old(v)@,
            n == v@.len(),
            i <= n,
            unique_keys(v@),
            forall|k: int| 0 <= k < i ==> (#[trigger] v@[k]).0 != ip,
        decreases n - i,
    {
        let (key, _old_c) = v[i];
        if key == ip {
            proof {
                assert((v@[i as int]).0 == ip);
                assert(has_key(v@, ip));
                let j = key_index(v@, ip);
                assert(j == i);
            }
            v[i] = (ip, c);
            proof {
                assert forall|a: int, b: int| 0 <= a < b < v@.len() implies (#[trigger] v@[a]).0
                    != (#[trigger] v@[b]).0 by {}
            }
            return;
        }
        i = i + 1;
    }
    assert(!has_key(v@, ip));
    v.push((ip, c));
    proof {
        assert forall|a: int, b: int| 0 <= a < b < v@.len() implies (#[trigger] v@[a]).0 != (
        #[trigger] v@[b]).0 by {
            if b == v@.len() - 1 {
                assert((v@[a]).0 != ip);
            }
        }
    }
}

/// Reads the data rows in order into a keyed table, an entry read later
/// replacing an earlier one for the same address; the first bad row
/// fails the whole read.
pub open spec fn spec_parse_rows(rows: Seq<RowView>, now: int) -> Result<
    Seq<(IpAddr, Connection)>,
    ParseError,
>
    decreases rows.len(),
{
    if rows.len() == 0 {
        Ok(Seq::empty())
    } else {
        match spec_parse_rows(rows.drop_last(), now) {
            Err(e) => Err(e),
            Ok(acc) => match spec_parse_row(rows.last(), now) {
                Err(e) => Err(e),
                Ok((ip, c)) => Ok(upsert(acc, ip, c)),
            },
        }
    }
}

/// The whole table: nothing without a table body; otherwise the data
/// rows behind the header row, which is skipped.
pub open spec fn spec_parse_page(html: Seq<char>, now: int) -> Result<
    Seq<(IpAddr, Connection)>,
    ParseError,
> {
    match rows_of(html) {
        None => Err(ParseError::NoTableBody),
        Some(rows) => if rows.len() == 0 {
            Ok(Seq::empty())
        } else {
            spec_parse_rows(rows.drop_first(), now)
        },
    }
}

/// Once a row fails, the whole read fails with that row's error.
proof fn lemma_parse_rows_err(rows: Seq<RowView>, now: int, i: int)
    requires
        0 <= i < rows.len(),
        spec_parse_rows(rows.take(i), now) is Ok,
        spec_parse_row(rows[i], now) is Err,
    ensures
        spec_parse_rows(rows, now) == Err::<Seq<(IpAddr, Connection)>, ParseError>(
            spec_parse_row(rows[i], now)->Err_0,
        ),
    decreases rows.len(),
{
    if rows.len() == i + 1 {
        assert(rows.drop_last() =~= rows.take(i));
        assert(rows.last() == rows[i]);
    } else {
        assert(rows.drop_last().take(i) =~= rows.take(i));
        assert(rows.drop_last()[i] == rows[i]);
        lemma_parse_rows_err(rows.drop_last(), now, i);
    }
}

/// Parses a status page: locates the table body, skips its header row,
/// and reads every data row. Fails exactly when the document has no
/// table body or some data row is malformed, with no partial result.
pub fn parse_connections(html: &str, now: i64) -> (r: Result<
    Vec<(IpAddr, Connection)>,
    ParseError,
>)
    ensures
        match r {
            Ok(v) => spec_parse_page(html@, now as int) == Ok::<
                Seq<(IpAddr, Connection)>,
                ParseError,
            >(v@) && unique_keys(v@),
            Err(e) => spec_parse_page(html@, now as int) == Err::<
                Seq<(IpAddr, Connection)>,
                ParseError,
            >(e),
        },
{
    let rows = match html_table_rows(html) {
        None => { return Err(ParseError::NoTableBody); },
        Some(rows) => rows,
    };
    let ghost rows_v = rows@.map_values(|row: RawRow| row@);
    let n = rows.len();
    let mut acc: Vec<(IpAddr, Connection)> = Vec::new();
    if n == 0 {
        return Ok(acc);
    }
    let mut i: usize = 1;
    while i < n
        invariant
            n == rows@.len(),
            rows_v == rows@.map_values(|row: RawRow| row@),
            rows_of(html@) == Some(rows_v),
            rows_v.len() == n,
            1 <= i <= n,
            unique_keys(acc@),
            spec_parse_rows(rows_v.drop_first().take(i - 1), now as int) == Ok::<
                Seq<(IpAddr, Connection)>,
                ParseError,
            >(acc@),
        decreases n - i,
    {
        let row = &rows[i];
        proof {
            assert(rows_v[i as int] == rows@[i as int]@);
        }
        match parse_row(row, now) {
            Err(e) => {
                proof {
                    assert(rows_v.drop_first()[i - 1] == rows_v[i as int]);
                    lemma_parse_rows_err(rows_v.drop_first(), now as int, i - 1);
                }
                return Err(e);
            },
            Ok((ip, c)) => {
                upsert_entry(&mut acc, ip, c);
                proof {
                    let front = rows_v.drop_first();
                    assert(front.take(i as int).drop_last() =~= front.take(i - 1));
                    assert(front.take(i as int).last() == front[i - 1]);
                    assert(front[i - 1] == rows_v[i as int]);
                }
            },
        }
        i = i + 1;
    }
    proof {
        assert(rows_v.drop_first().take(n - 1) =~= rows_v.drop_first());
    }
    Ok(acc)
}

} // verus!
