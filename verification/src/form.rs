//! The order form of a client: ten table switches, a problem count, and the
//! status shown while a worksheet is on its way.

use crate::problem::{decimal, push_decimal};
use crate::request::{
    count_for, rejection_of, table_filter, valid_tables_of, DEFAULT_COUNT, MAX_COUNT, MIN_COUNT,
};
use vstd::prelude::*;
use vstd::string::*;

verus! {

/// The number of table switches on the form, one for each table from 1 up.
pub const SWITCH_COUNT: usize = 10;

/// The port the worksheet service listens on.
pub const API_PORT: u16 = 4001;

/// The path of the worksheet service.
pub const API_PATH: &'static str = "/api/worksheet";

/// The protocol assumed where the page does not tell its own.
pub const DEFAULT_PROTOCOL: &'static str = "http:";

/// The host assumed where the page does not tell its own.
pub const DEFAULT_HOST: &'static str = "127.0.0.1";

/// What the form tells its user.
#[derive(Clone, Copy, Debug, PartialEq, Eq, Structural)]
pub enum Status {
    /// Nothing has been asked for yet.
    Idle,
    /// A worksheet was asked for with every switch off.
    NothingSelected,
    /// A request is on its way.
    Generating,
    /// The last request failed.
    Failed,
    /// The last request brought a worksheet.
    Ready,
}

/// The request a form sends off.
#[derive(Clone, Debug)]
pub struct Submission {
    /// The tables whose switches are on, in increasing order.
    pub tables: Vec<u8>,
    /// The number of problems.
    pub count: u32,
}

/// A form as a plain value.
pub struct FormView {
    pub switches: Seq<bool>,
    pub count: u32,
    pub status: Status,
    pub download_url: Option<Seq<char>>,
}

/// The tables of all switches, in increasing order.
pub open spec fn all_tables() -> Seq<u8> {
    Seq::new(SWITCH_COUNT as nat, |i: int| (i + 1) as u8)
}

/// Whether the switch of `table` is on.
pub open spec fn is_switched_on(switches: Seq<bool>, table: u8) -> bool {
    1 <= table <= switches.len() && switches[table - 1]
}

/// `is_switched_on` as a predicate.
pub open spec fn switched_on(switches: Seq<bool>) -> spec_fn(u8) -> bool {
    |table: u8| is_switched_on(switches, table)
}

/// The tables whose switches are on, in increasing order.
pub open spec fn selected_of(switches: Seq<bool>) -> Seq<u8> {
    all_tables().filter(switched_on(switches))
}

/// The count a form takes from an input field: `DEFAULT_COUNT` where the
/// field holds no number, and otherwise the number, raised to `MIN_COUNT` or
/// lowered to `MAX_COUNT` where it lies outside.
pub open spec fn count_from_input(parsed: Option<u32>) -> u32 {
    match parsed {
        None => DEFAULT_COUNT as u32,
        Some(n) => if n < MIN_COUNT {
            MIN_COUNT as u32
        } else if n > MAX_COUNT {
            MAX_COUNT as u32
        } else {
            n
        },
    }
}

/// The message shown for a status.
pub open spec fn message_of(status: Status) -> Seq<char> {
    match status {
        Status::Idle => ""@,
        Status::NothingSelected => "Select at least one table."@,
        Status::Generating => "Generating worksheet..."@,
        Status::Failed => "Failed to generate worksheet."@,
        Status::Ready => "Worksheet ready."@,
    }
}

/// The address of the worksheet service on `hostname`, reached by `protocol`.
pub open spec fn endpoint_of(protocol: Seq<char>, hostname: Seq<char>) -> Seq<char> {
    protocol + seq!['/', '/'] + hostname + seq![':'] + decimal(API_PORT as nat) + API_PATH@
}

impl Status {
    /// The message shown for this status.
    pub fn message(&self) -> (text: &'static str)
        ensures
            text@ == message_of(*self),
    {
        match self {
            Status::Idle => "",
            Status::NothingSelected => "Select at least one table.",
            Status::Generating => "Generating worksheet...",
            Status::Failed => "Failed to generate worksheet.",
            Status::Ready => "Worksheet ready.",
        }
    }
}

/// The order form.
#[derive(Clone, Debug)]
pub struct Form {
    switches: [bool; SWITCH_COUNT],
    count: u32,
    status: Status,
    download_url: Option<String>,
}

impl View for Form {
    type V = FormView;

    closed spec fn view(&self) -> FormView {
        FormView {
            switches: self.switches@,
            count: self.count,
            status: self.status,
            download_url: match self.download_url {
                Some(url) => Some(url@),
                None => None,
            },
        }
    }
}

impl Form {
    /// A fresh form: every switch off, `DEFAULT_COUNT` problems, nothing
    /// asked for.
    pub fn new() -> (form: Form)
        ensures
            form@.switches == Seq::new(SWITCH_COUNT as nat, |i: int| false),
            form@.count == DEFAULT_COUNT,
            form@.status == Status::Idle,
            form@.download_url is None,
    {
        let form = Form {
            switches: [false; SWITCH_COUNT],
            count: DEFAULT_COUNT as u32,
            status: Status::Idle,
            download_url: None,
        };
        assert(form.switches@ =~= Seq::new(SWITCH_COUNT as nat, |i: int| false));
        form
    }

    /// Every form has `SWITCH_COUNT` switches.
    pub proof fn lemma_switch_count(&self)
        ensures
            self@.switches.len() == SWITCH_COUNT,
    {
    }

    /// Whether the switch at `index` is on. There is no switch past the last.
    pub fn is_on(&self, index: usize) -> (on: bool)
        ensures
            on == (index < SWITCH_COUNT && self@.switches[index as int]),
    {
        index < SWITCH_COUNT && self.switches[index]
    }

    /// The number of problems.
    pub fn count(&self) -> (count: u32)
        ensures
            count == self@.count,
    {
        self.count
    }

    /// What the form tells its user.
    pub fn status(&self) -> (status: Status)
        ensures
            status == self@.status,
    {
        self.status
    }

    /// Where the last worksheet can be had, if one has come.
    pub fn download_url(&self) -> (url: Option<&String>)
        ensures
            match url {
                Some(text) => self@.download_url == Some(text@),
                None => self@.download_url is None,
            },
    {
        self.download_url.as_ref()
    }

    /// Flips the switch at `index`. An index past the last switch changes
    /// nothing.
    pub fn toggle(&mut self, index: usize)
        ensures
            index < SWITCH_COUNT ==> final(self)@ == (FormView {
                switches: old(self)@.switches.update(
                    index as int,
                    !old(self)@.switches[index as int],
                ),
                ..old(self)@
            }),
            index >= SWITCH_COUNT ==> final(self)@ == old(self)@,
    {
        if index < SWITCH_COUNT {
            let flipped = !self.switches[index];
            self.switches[index] = flipped;
        }
    }

    /// Takes the count from an input field, where `parsed` is the number the
    /// field holds, if it holds one.
    pub fn set_count(&mut self, parsed: Option<u32>)
        ensures
            final(self)@ == (FormView { count: count_from_input(parsed), ..old(self)@ }),
            MIN_COUNT <= final(self)@.count <= MAX_COUNT,
    {
        self.count =
        match parsed {
            None => DEFAULT_COUNT as u32,
            Some(n) => if n < MIN_COUNT as u32 {
                MIN_COUNT as u32
            } else if n > MAX_COUNT as u32 {
                MAX_COUNT as u32
            } else {
                n
            },
        };
    }

    /// The tables whose switches are on, in increasing order.
    pub fn selected_tables(&self) -> (tables: Vec<u8>)
        ensures
            tables@ == selected_of(self@.switches),
    {
        let mut tables: Vec<u8> = Vec::new();
        let mut index: usize = 0;
        proof {
            reveal(Seq::filter);
            assert(all_tables().take(0) =~= Seq::<u8>::empty());
        }
        while index < SWITCH_COUNT
            invariant
                index <= SWITCH_COUNT,
                tables@ == all_tables().take(index as int).filter(switched_on(self.switches@)),
            decreases SWITCH_COUNT - index,
        {
            let table = (index + 1) as u8;
            proof {
                let before = all_tables().take(index as int);
                assert(all_tables().take(index + 1) =~= before.push(table));
                before.lemma_filter_push(table, switched_on(self.switches@));
            }
            if self.switches[index] {
                tables.push(table);
            }
            index += 1;
        }
        assert(all_tables().take(SWITCH_COUNT as int) =~= all_tables());
        tables
    }

    /// Asks for a worksheet. With every switch off nothing is sent and the
    /// form says so. Otherwise the form shows that a request is on its way,
    /// forgets the last worksheet, and hands out the request to send.
    pub fn submit(&mut self) -> (submission: Option<Submission>)
        ensures
            match submission {
                None => {
                    &&& selected_of(old(self)@.switches).len() == 0
                    &&& final(self)@ == (FormView { status: Status::NothingSelected, ..old(self)@ })
                },
                Some(request) => {
                    &&& request.tables@ == selected_of(old(self)@.switches)
                    &&& request.tables@.len() > 0
                    &&& request.count == old(self)@.count
                    &&& final(self)@ == (FormView {
                        status: Status::Generating,
                        download_url: None,
                        ..old(self)@
                    })
                },
            },
    {
        let tables = self.selected_tables();
        if tables.len() == 0 {
            self.status = Status::NothingSelected;
            return None;
        }
        self.status = Status::Generating;
        self.download_url = None;
        Some(Submission { tables, count: self.count })
    }

    /// Takes the outcome of a request: the address of the worksheet that
    /// came, or `None` where the request failed. A failure leaves an earlier
    /// address in place.
    pub fn finish(&mut self, outcome: Option<String>)
        ensures
            match outcome {
                None => final(self)@ == (FormView { status: Status::Failed, ..old(self)@ }),
                Some(url) => final(self)@ == (FormView {
                    status: Status::Ready,
                    download_url: Some(url@),
                    ..old(self)@
                }),
            },
    {
        match outcome {
            None => {
                self.status = Status::Failed;
            },
            Some(url) => {
                self.download_url = Some(url);
                self.status = Status::Ready;
            },
        }
    }
}

/// The address of the worksheet service as seen from a page served by
/// `hostname` over `protocol`. A page that does not tell its protocol is
/// taken to use `DEFAULT_PROTOCOL`, one that does not tell its host to be on
/// `DEFAULT_HOST`.
pub fn api_endpoint(protocol: Option<&str>, hostname: Option<&str>) -> (url: String)
    ensures
        url@ == endpoint_of(
            match protocol {
                Some(text) => text@,
                None => DEFAULT_PROTOCOL@,
            },
            match hostname {
                Some(text) => text@,
                None => DEFAULT_HOST@,
            },
        ),
{
    let protocol = match protocol {
        Some(text) => text,
        None => DEFAULT_PROTOCOL,
    };
    let hostname = match hostname {
        Some(text) => text,
        None => DEFAULT_HOST,
    };
    proof {
        reveal_strlit("//");
        reveal_strlit(":");
    }
    let mut url = String::from_str(protocol);
    url.append("//");
    url.append(hostname);
    url.append(":");
    push_decimal(&mut url, API_PORT as u64);
    url.append(API_PATH);
    assert(url@ =~= endpoint_of(protocol@, hostname@));
    url
}

proof fn lemma_filter_keeps_all(s: Seq<u8>, keep: spec_fn(u8) -> bool)
    requires
        forall|i: int| 0 <= i < s.len() ==> keep(#[trigger] s[i]),
    ensures
        s.filter(keep) == s,
    decreases s.len(),
{
    reveal(Seq::filter);
    if s.len() > 0 {
        lemma_filter_keeps_all(s.drop_last(), keep);
        assert(s.drop_last().push(s.last()) =~= s);
    }
}

/// What a form sends, the service takes as it is: the request is not turned
/// away, every table is kept, and so is the count.
pub proof fn lemma_submission_is_accepted(switches: Seq<bool>, count: u32)
    requires
        switches.len() == SWITCH_COUNT,
        selected_of(switches).len() > 0,
        MIN_COUNT <= count <= MAX_COUNT,
    ensures
        rejection_of(selected_of(switches)) is None,
        valid_tables_of(selected_of(switches)) == selected_of(switches),
        count_for(Some(count as usize)) == count,
{
    let selected = selected_of(switches);
    assert forall|i: int| 0 <= i < selected.len() implies table_filter()(#[trigger] selected[i]) by {
        all_tables().lemma_filter_contains_rev(switched_on(switches), selected[i]);
        let k = choose|k: int| 0 <= k < all_tables().len() && all_tables()[k] == selected[i];
        assert(all_tables()[k] == k + 1);
    }
    lemma_filter_keeps_all(selected, table_filter());
}

} // verus!
