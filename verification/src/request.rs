//! What a client asks for, what is turned away, and the way from an accepted
//! request to a page ready to be drawn.

use crate::generator::{generate, is_worksheet_text, render_lines};
use crate::layout::{
    font_size_for, is_place_of, layout, line_spacing_for, rows_for, PageLayout,
};
use crate::random::fresh_rng;
use crate::rules::is_worksheet;
use rand::rngs::StdRng;
use vstd::prelude::*;

verus! {

/// The smallest table a worksheet can practise.
pub const MIN_TABLE: u8 = 1;

/// The largest table a worksheet can practise.
pub const MAX_TABLE: u8 = 10;

/// The fewest problems on a worksheet.
pub const MIN_COUNT: usize = 1;

/// The most problems on a worksheet.
pub const MAX_COUNT: usize = 30;

/// The number of problems where the request names none.
pub const DEFAULT_COUNT: usize = 30;

/// The media type of a finished worksheet.
pub const CONTENT_TYPE: &'static str = "application/pdf";

/// How a client is asked to present a finished worksheet: shown in place,
/// under the file name `worksheet.pdf`.
pub const CONTENT_DISPOSITION: &'static str = "inline; filename=worksheet.pdf";

/// A request for a worksheet.
#[derive(Clone, Debug)]
pub struct WorksheetRequest {
    /// The tables to practise. Values outside `MIN_TABLE..=MAX_TABLE` are
    /// passed over.
    pub tables: Vec<u8>,
    /// How many problems are wanted.
    pub count: Option<usize>,
}

/// Why a request is turned away.
#[derive(Clone, Copy, Debug, PartialEq, Eq, Structural)]
pub enum RequestError {
    /// The request names no table at all.
    NoTables,
    /// The request names tables, but none within `MIN_TABLE..=MAX_TABLE`.
    NoValidTables,
}

/// Why a client gets no worksheet.
#[derive(Clone, Copy, Debug, PartialEq, Eq, Structural)]
pub enum Failure {
    /// The request was turned away.
    Rejected(RequestError),
    /// The page could not be drawn.
    Rendering,
}

/// The HTTP status for a request that was turned away.
pub const STATUS_BAD_REQUEST: u16 = 400;

/// The HTTP status for a page that could not be drawn.
pub const STATUS_SERVER_FAULT: u16 = 500;

impl Failure {
    /// The HTTP status that tells the client of this failure: a request that
    /// was turned away is the client's fault, a page that could not be drawn
    /// the service's.
    pub fn status_code(&self) -> (code: u16)
        ensures
            code == (match *self {
                Failure::Rejected(_) => STATUS_BAD_REQUEST,
                Failure::Rendering => STATUS_SERVER_FAULT,
            }),
    {
        match self {
            Failure::Rejected(_) => STATUS_BAD_REQUEST,
            Failure::Rendering => STATUS_SERVER_FAULT,
        }
    }
}

/// A worksheet ready to be drawn: its lines and where each one goes.
pub struct Worksheet {
    /// The problem lines, in order.
    pub operations: Vec<String>,
    /// The page layout for these lines.
    pub page: PageLayout,
}

/// Whether `table` is a table a worksheet can practise.
pub open spec fn is_table(table: u8) -> bool {
    MIN_TABLE <= table <= MAX_TABLE
}

/// `is_table` as a predicate.
pub open spec fn table_filter() -> spec_fn(u8) -> bool {
    |table: u8| is_table(table)
}

/// The tables of a request that a worksheet can practise, in the order and
/// as often as the request names them.
pub open spec fn valid_tables_of(tables: Seq<u8>) -> Seq<u8> {
    tables.filter(table_filter())
}

/// The number of problems for a request: `DEFAULT_COUNT` where it names none,
/// and otherwise what it names, raised to `MIN_COUNT` or lowered to
/// `MAX_COUNT` where it lies outside.
pub open spec fn count_for(count: Option<usize>) -> nat {
    match count {
        None => DEFAULT_COUNT as nat,
        Some(n) => if n < MIN_COUNT {
            MIN_COUNT as nat
        } else if n > MAX_COUNT {
            MAX_COUNT as nat
        } else {
            n as nat
        },
    }
}

/// What becomes of a request with `tables`: the error it is turned away
/// with, if any.
pub open spec fn rejection_of(tables: Seq<u8>) -> Option<RequestError> {
    if tables.len() == 0 {
        Some(RequestError::NoTables)
    } else if valid_tables_of(tables).len() == 0 {
        Some(RequestError::NoValidTables)
    } else {
        None
    }
}

/// The tables among `tables` that a worksheet can practise.
pub fn valid_tables(tables: &[u8]) -> (kept: Vec<u8>)
    ensures
        kept@ == valid_tables_of(tables@),
{
    let mut kept: Vec<u8> = Vec::new();
    let mut i: usize = 0;
    proof {
        reveal(Seq::filter);
        assert(tables@.take(0) =~= Seq::<u8>::empty());
    }
    while i < tables.len()
        invariant
            i <= tables@.len(),
            kept@ == tables@.take(i as int).filter(table_filter()),
        decreases tables@.len() - i,
    {
        let table = tables[i];
        proof {
            assert(tables@.take(i + 1) =~= tables@.take(i as int).push(table));
            tables@.take(i as int).lemma_filter_push(table, table_filter());
        }
        if MIN_TABLE <= table && table <= MAX_TABLE {
            kept.push(table);
        }
        i += 1;
    }
    assert(tables@.take(tables@.len() as int) =~= tables@);
    kept
}

/// The number of problems for a request that asks for `count`.
pub fn problem_count(count: Option<usize>) -> (total: usize)
    ensures
        total == count_for(count),
        MIN_COUNT <= total <= MAX_COUNT,
{
    match count {
        None => DEFAULT_COUNT,
        Some(n) => if n < MIN_COUNT {
            MIN_COUNT
        } else if n > MAX_COUNT {
            MAX_COUNT
        } else {
            n
        },
    }
}

/// Checks a request and brings it into the form the generator takes: the
/// tables it can practise and the number of problems. A request without
/// tables is turned away, and so is one whose tables are all out of range.
pub fn validate(request: &WorksheetRequest) -> (checked: Result<(Vec<u8>, usize), RequestError>)
    ensures
        match checked {
            Ok((tables, total)) => {
                &&& rejection_of(request.tables@) is None
                &&& tables@ == valid_tables_of(request.tables@)
                &&& tables@.len() > 0
                &&& total == count_for(request.count)
            },
            Err(error) => rejection_of(request.tables@) == Some(error),
        },
{
    if request.tables.len() == 0 {
        return Err(RequestError::NoTables);
    }
    let tables = valid_tables(request.tables.as_slice());
    if tables.len() == 0 {
        return Err(RequestError::NoValidTables);
    }
    Ok((tables, problem_count(request.count)))
}

/// Whether `sheet` answers a request for `total` problems over `tables`: it
/// has `total` lines, which are the text of a worksheet over `tables`, and
/// its page is the layout of `total` lines.
pub open spec fn is_sheet_for(sheet: Worksheet, tables: Seq<u8>, total: nat) -> bool {
    &&& sheet.operations@.len() == total
    &&& is_worksheet_text(tables, sheet.operations@)
    &&& sheet.page.rows == rows_for(total)
    &&& sheet.page.font_size@ == font_size_for(rows_for(total))
    &&& sheet.page.line_spacing@ == line_spacing_for(rows_for(total))
    &&& sheet.page.placements@.len() == total
    &&& forall|i: int|
        0 <= i < total ==> is_place_of(#[trigger] sheet.page.placements@[i], i as nat, total)
}

/// Answers a request with the draws of `rng`: checks it, draws the problems,
/// writes them out and lays them out on the page. A request is turned away
/// before anything is drawn.
pub fn plan_worksheet_with(request: &WorksheetRequest, rng: &mut StdRng) -> (planned: Result<
    Worksheet,
    RequestError,
>)
    ensures
        match planned {
            Ok(sheet) => {
                &&& rejection_of(request.tables@) is None
                &&& is_sheet_for(
                    sheet,
                    valid_tables_of(request.tables@),
                    count_for(request.count),
                )
            },
            Err(error) => rejection_of(request.tables@) == Some(error),
        },
{
    match validate(request) {
        Err(error) => Err(error),
        Ok((tables, total)) => {
            let problems = generate(tables.as_slice(), total, rng);
            let operations = render_lines(problems.as_slice());
            assert(is_worksheet(tables@, problems@));
            let page = layout(operations.len());
            Ok(Worksheet { operations, page })
        },
    }
}

/// Answers a request with the draws of a generator seeded by the operating
/// system.
pub fn plan_worksheet(request: &WorksheetRequest) -> (planned: Result<Worksheet, RequestError>)
    ensures
        match planned {
            Ok(sheet) => {
                &&& rejection_of(request.tables@) is None
                &&& is_sheet_for(
                    sheet,
                    valid_tables_of(request.tables@),
                    count_for(request.count),
                )
            },
            Err(error) => rejection_of(request.tables@) == Some(error),
        },
{
    let mut rng = fresh_rng();
    plan_worksheet_with(request, &mut rng)
}

} // verus!
