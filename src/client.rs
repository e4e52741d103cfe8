//! The statistics service's response, the address it is asked at, and how a
//! response becomes a statistics record.
use std::collections::HashMap;
use vstd::prelude::*;
use crate::dates::{fill_date, opt_text, resolved_date, same_but_date, utc_day_text};
use crate::email::Email;
use crate::stats::MailingListStats;
use crate::text::{chars_of, remove_all, without};
use crate::thread::{Participant, ThreadStructValue};

verus! {

/// The query a response answers. `d` is the period, written
/// `dfr=<first day>|dto=<last day>`.
#[derive(Clone, Debug)]
pub struct SearchParams {
    pub list: String,
    pub domain: String,
    pub d: String,
    pub full: Option<String>,
}

/// What the statistics service returns for one list and period.
#[derive(Debug)]
pub struct MailingListResponse {
    pub hits: i32,
    pub participants: Vec<Participant>,
    pub no_threads: i32,
    pub search_params: Option<SearchParams>,
    pub list: String,
    pub domain: String,
    pub emails: Vec<Email>,
    pub thread_struct: ThreadStructValue,
    pub active_months: HashMap<String, i32>,
}

/// The address at which the statistics of `list` at `domain` from
/// `start_date` to `end_date` are asked for.
pub fn stats_url(start_date: &str, end_date: &str, list: &str, domain: &str) -> (r: String)
    ensures
        r@ == "https://lists.apache.org/api/stats.lua?list="@ + list@ + "&domain="@ + domain@
            + "&d=dfr="@ + start_date@ + "|dto="@ + end_date@,
{
    let mut r = String::from_str("https://lists.apache.org/api/stats.lua?list=");
    r.append(list);
    r.append("&domain=");
    r.append(domain);
    r.append("&d=dfr=");
    r.append(start_date);
    r.append("|dto=");
    r.append(end_date);
    r
}

/// The text of `s` before its first `|`, or all of `s` where it has none.
pub open spec fn until_bar(s: Seq<char>) -> Seq<char>
    decreases s.len(),
{
    if s.len() == 0 {
        s
    } else if s[0] == '|' {
        Seq::empty()
    } else {
        seq![s[0]] + until_bar(s.drop_first())
    }
}

/// The text of `s` after its first `|`, or `None` where it has none.
pub open spec fn after_bar(s: Seq<char>) -> Option<Seq<char>>
    decreases s.len(),
{
    if s.len() == 0 {
        None
    } else if s[0] == '|' {
        Some(s.drop_first())
    } else {
        after_bar(s.drop_first())
    }
}

/// A period bound with its `dfr=` and `dto=` markers removed.
pub open spec fn unmarked(bound: Seq<char>) -> Seq<char> {
    without(without(bound, seq!['d', 'f', 'r', '=']), seq!['d', 't', 'o', '='])
}

/// The first day of the period `d`: its text before the first `|`, unmarked.
pub open spec fn period_start_of(d: Seq<char>) -> Seq<char> {
    unmarked(until_bar(d))
}

/// The last day of the period `d`: its text between the first and second
/// `|`, unmarked; empty where `d` has no `|`.
pub open spec fn period_end_of(d: Seq<char>) -> Seq<char> {
    match after_bar(d) {
        Some(rest) => unmarked(until_bar(rest)),
        None => Seq::empty(),
    }
}

/// Where the first `|` of `s` stands, given as `r`, fixes both sides of it.
proof fn lemma_first_bar(s: Seq<char>, r: int)
    requires
        0 <= r <= s.len(),
        forall|k: int| 0 <= k < r ==> s[k] != '|',
        r == s.len() || s[r] == '|',
    ensures
        until_bar(s) == s.subrange(0, r),
        after_bar(s) == (if r < s.len() {
            Some(s.subrange(r + 1, s.len() as int))
        } else {
            None::<Seq<char>>
        }),
    decreases r,
{
    if r == 0 {
        if s.len() > 0 {
            assert(s.drop_first() =~= s.subrange(1, s.len() as int));
        }
        assert(s.subrange(0, 0) =~= Seq::<char>::empty());
    } else {
        let t = s.drop_first();
        assert forall|k: int| 0 <= k < r - 1 implies t[k] != '|' by {
            assert(t[k] == s[k + 1]);
        }
        lemma_first_bar(t, r - 1);
        assert(seq![s[0]] + t.subrange(0, r - 1) =~= s.subrange(0, r));
        if r < s.len() {
            assert(t.subrange(r, t.len() as int) =~= s.subrange(r + 1, s.len() as int));
        }
    }
}

/// The position of the first `|` in `cs` at or after `from`, or the length
/// of `cs` where there is none.
fn find_bar(cs: &Vec<char>, from: usize) -> (r: usize)
    requires
        from <= cs.len(),
    ensures
        from <= r <= cs.len(),
        forall|k: int| from <= k < r ==> cs@[k] != '|',
        r == cs.len() || cs@[r as int] == '|',
{
    let mut i = from;
    while i < cs.len()
        invariant
            from <= i <= cs.len(),
            forall|k: int| from <= k < i ==> cs@[k] != '|',
        decreases cs.len() - i,
    {
        if cs[i] == '|' {
            return i;
        }
        i += 1;
    }
    i
}

/// `bound` with its `dfr=` and `dto=` markers removed.
fn remove_marks(bound: &str) -> (r: String)
    ensures
        r@ == unmarked(bound@),
{
    proof {
        reveal_strlit("dfr=");
        reveal_strlit("dto=");
    }
    let first = remove_all(bound, "dfr=");
    assert("dfr="@ =~= seq!['d', 'f', 'r', '=']);
    assert("dto="@ =~= seq!['d', 't', 'o', '=']);
    remove_all(first.as_str(), "dto=")
}

/// The first and last day of the period `d`, as `dfr=<first>|dto=<last>`
/// writes them.
pub fn period_bounds(d: &str) -> (r: (String, String))
    ensures
        r.0@ == period_start_of(d@),
        r.1@ == period_end_of(d@),
{
    let cs = chars_of(d);
    let n = cs.len();
    let bar = find_bar(&cs, 0);
    proof {
        lemma_first_bar(d@, bar as int);
    }
    let start = remove_marks(d.substring_char(0, bar));
    if bar == n {
        return (start, String::new());
    }
    let next = find_bar(&cs, bar + 1);
    proof {
        let rest = d@.subrange(bar + 1, n as int);
        assert forall|k: int| 0 <= k < next - (bar + 1) implies rest[k] != '|' by {
            assert(rest[k] == d@[k + bar + 1]);
        }
        if next < n {
            assert(rest[next - (bar + 1)] == d@[next as int]);
        }
        lemma_first_bar(rest, next - (bar + 1));
        assert(rest.subrange(0, next - (bar + 1)) =~= d@.subrange(bar + 1, next as int));
    }
    let end = remove_marks(d.substring_char(bar + 1, next));
    (start, end)
}

/// The statistics record of a response: its counts, list and period, and
/// its emails, each with the date it shows.
pub open spec fn is_stats_of(r: MailingListStats, response: MailingListResponse) -> bool {
    &&& r.total_emails == response.hits
    &&& r.total_participants == response.participants.len()
    &&& r.total_threads == response.no_threads
    &&& match response.search_params {
        Some(params) => r.period_start@ == period_start_of(params.d@) && r.period_end@ == period_end_of(
            params.d@,
        ),
        None => r.period_start@ == Seq::<char>::empty() && r.period_end@ == Seq::<char>::empty(),
    }
    &&& r.list_name == response.list
    &&& r.domain == response.domain
    &&& r.emails.len() == response.emails.len()
    &&& forall|i: int|
        0 <= i < r.emails.len() ==> {
            let (filled, given) = (#[trigger] r.emails@[i], response.emails@[i]);
            same_but_date(filled, given) && opt_text(filled.date) == resolved_date(
                given.epoch as int,
                opt_text(given.date),
                utc_day_text(given.epoch as int),
            )
        }
    &&& r.thread_struct == response.thread_struct
    &&& r.active_months == response.active_months
}

impl MailingListStats {
    /// The statistics record of `response`.
    pub fn from_response(response: MailingListResponse) -> (r: MailingListStats)
        ensures
            is_stats_of(r, response),
    {
        let ghost given = response;
        let (period_start, period_end) = match &response.search_params {
            Some(params) => period_bounds(params.d.as_str()),
            None => (String::new(), String::new()),
        };
        let total_participants = response.participants.len();
        let MailingListResponse {
            hits,
            participants: _,
            no_threads,
            search_params: _,
            list,
            domain,
            emails,
            thread_struct,
            active_months,
        } = response;
        let ghost all = emails@;
        let mut filled: Vec<Email> = Vec::new();
        for email in it: emails.into_iter()
            invariant
                it.seq() == all,
                filled.len() == it.index(),
                forall|i: int|
                    0 <= i < filled.len() ==> {
                        let (f, g) = (#[trigger] filled@[i], all[i]);
                        same_but_date(f, g) && opt_text(f.date) == resolved_date(
                            g.epoch as int,
                            opt_text(g.date),
                            utc_day_text(g.epoch as int),
                        )
                    },
        {
            filled.push(fill_date(email));
        }
        MailingListStats {
            total_emails: hits,
            total_participants,
            total_threads: no_threads,
            period_start,
            period_end,
            list_name: list,
            domain,
            emails: filled,
            thread_struct,
            active_months,
        }
    }
}

impl From<MailingListResponse> for MailingListStats {
    /// The statistics record of `response`.
    fn from(response: MailingListResponse) -> (r: MailingListStats)
        ensures
            is_stats_of(r, response),
    {
        MailingListStats::from_response(response)
    }
}

impl vstd::std_specs::convert::FromSpecImpl<MailingListResponse> for MailingListStats {
    open spec fn obeys_from_spec() -> bool {
        false
    }

    open spec fn from_spec(response: MailingListResponse) -> MailingListStats {
        arbitrary()
    }
}

} // verus!
