//! The display date of an email: taken from its Unix time where it has one,
//! else the date it came with, else a placeholder.
use chrono::TimeZone;
use vstd::prelude::*;
use crate::email::Email;

verus! {

/// The text an optional string holds.
pub open spec fn opt_text(o: Option<String>) -> Option<Seq<char>> {
    match o {
        Some(s) => Some(s@),
        None => None,
    }
}

/// The UTC calendar day of the Unix time `epoch`, written `YYYY-MM-DD`, or
/// `None` where that time cannot be represented.
pub uninterp spec fn utc_day_text(epoch: int) -> Option<Seq<char>>;

/// Relies on chrono's `Utc.timestamp_opt(epoch, 0).single()` and on
/// `DateTime::format("%Y-%m-%d")`: the day of a Unix time in UTC, or `None`
/// where chrono cannot represent the time. The result depends on `epoch`
/// alone.
#[verifier::external_body]
fn utc_day_of(epoch: i64) -> (r: Option<String>)
    ensures
        opt_text(r) == utc_day_text(epoch as int),
{
    match chrono::Utc.timestamp_opt(epoch, 0).single() {
        Some(dt) => Some(dt.format("%Y-%m-%d").to_string()),
        None => None,
    }
}

/// The placeholder for an email whose date is not known.
pub open spec fn unknown_date() -> Seq<char> {
    "Unknown date"@
}

/// The date an email shows, from its Unix time `epoch`, the `date` it came
/// with and `from_epoch`, the day that `epoch` falls on. A known time
/// (`epoch > 0`) gives its day where that can be written; an unknown one
/// keeps the date given, or takes the placeholder where there is none.
pub open spec fn resolved_date(epoch: int, date: Option<Seq<char>>, from_epoch: Option<Seq<char>>) -> Option<Seq<char>> {
    if epoch > 0 {
        match from_epoch {
            Some(day) => Some(day),
            None => date,
        }
    } else {
        match date {
            Some(d) => Some(d),
            None => Some(unknown_date()),
        }
    }
}

/// `a` and `b` agree on every field but `date`.
pub open spec fn same_but_date(a: Email, b: Email) -> bool {
    &&& a.in_reply_to == b.in_reply_to
    &&& a.private == b.private
    &&& a.attachments == b.attachments
    &&& a.subject == b.subject
    &&& a.mid == b.mid
    &&& a.epoch == b.epoch
    &&& a.list == b.list
    &&& a.gravatar == b.gravatar
    &&& a.message_id == b.message_id
    &&& a.from == b.from
    &&& a.list_raw == b.list_raw
    &&& a.id == b.id
    &&& a.body == b.body
}

/// `email` with the date it shows, given `from_epoch`, the day of its Unix
/// time.
pub fn with_resolved_date(email: Email, from_epoch: Option<String>) -> (r: Email)
    ensures
        same_but_date(r, email),
        opt_text(r.date) == resolved_date(email.epoch as int, opt_text(email.date), opt_text(from_epoch)),
{
    let mut e = email;
    if e.epoch > 0 {
        match from_epoch {
            Some(day) => {
                e.date = Some(day);
            },
            None => {},
        }
    } else {
        match e.date {
            Some(_) => {},
            None => {
                e.date = Some(String::from_str("Unknown date"));
            },
        }
    }
    e
}

/// `email` with the date it shows: the UTC day of its Unix time where that
/// time is known.
pub fn fill_date(email: Email) -> (r: Email)
    ensures
        same_but_date(r, email),
        opt_text(r.date) == resolved_date(email.epoch as int, opt_text(email.date), utc_day_text(email.epoch as int)),
{
    if email.epoch > 0 {
        let day = utc_day_of(email.epoch);
        with_resolved_date(email, day)
    } else {
        with_resolved_date(email, None)
    }
}

/// The decimal digit for `d`, below ten.
pub open spec fn digit_char(d: nat) -> char {
    seq!['0', '1', '2', '3', '4', '5', '6', '7', '8', '9'][d as int]
}

/// `n` written in decimal digits, without sign or leading zeros.
pub open spec fn decimal_text(n: nat) -> Seq<char>
    decreases n,
{
    if n < 10 {
        seq![digit_char(n)]
    } else {
        decimal_text(n / 10).push(digit_char(n % 10))
    }
}

/// Appends `n`, written in decimal digits, to `out`.
fn append_decimal(out: &mut String, n: i64)
    requires
        n >= 0,
    ensures
        final(out)@ == old(out)@ + decimal_text(n as nat),
    decreases n,
{
    if n >= 10 {
        append_decimal(out, n / 10);
    }
    let d = (n % 10) as usize;
    proof {
        reveal_strlit("0123456789");
    }
    let digit = "0123456789".substring_char(d, d + 1);
    let ghost before = out@;
    out.append(digit);
    proof {
        assert(digit@ =~= seq![digit_char(d as nat)]);
        if n >= 10 {
            assert(decimal_text(n as nat) == decimal_text((n / 10) as nat).push(digit_char((n % 10) as nat)));
        }
        assert(out@ =~= old(out)@ + decimal_text(n as nat));
    }
}

/// The date an unanswered email is listed with in full: the date it came
/// with; else, for a known Unix time, its day, or the time itself where the
/// day cannot be written; else the placeholder.
pub open spec fn full_date_label(date: Option<Seq<char>>, epoch: int, from_epoch: Option<Seq<char>>) -> Seq<char> {
    match date {
        Some(d) => d,
        None => if epoch > 0 {
            match from_epoch {
                Some(day) => day,
                None => "Epoch: "@ + decimal_text(epoch as nat),
            }
        } else {
            unknown_date()
        },
    }
}

/// The date `email` is listed with in full, given `from_epoch`, the day of
/// its Unix time.
pub fn full_date_label_with(email: &Email, from_epoch: Option<String>) -> (r: String)
    ensures
        r@ == full_date_label(opt_text(email.date), email.epoch as int, opt_text(from_epoch)),
{
    match &email.date {
        Some(d) => d.clone(),
        None => if email.epoch > 0 {
            match from_epoch {
                Some(day) => day,
                None => {
                    let mut r = String::from_str("Epoch: ");
                    append_decimal(&mut r, email.epoch);
                    r
                },
            }
        } else {
            String::from_str("Unknown date")
        },
    }
}

/// The date `email` is listed with in full.
pub fn full_date_label_of(email: &Email) -> (r: String)
    ensures
        r@ == full_date_label(opt_text(email.date), email.epoch as int, utc_day_text(email.epoch as int)),
{
    if email.date.is_none() && email.epoch > 0 {
        let day = utc_day_of(email.epoch);
        full_date_label_with(email, day)
    } else {
        full_date_label_with(email, None)
    }
}

/// The date an email is listed with on one line: the date it came with, or
/// the placeholder.
pub open spec fn brief_date_label(date: Option<Seq<char>>) -> Seq<char> {
    match date {
        Some(d) => d,
        None => unknown_date(),
    }
}

/// The date `email` is listed with on one line.
pub fn brief_date_label_of(email: &Email) -> (r: String)
    ensures
        r@ == brief_date_label(opt_text(email.date)),
{
    match &email.date {
        Some(d) => d.clone(),
        None => String::from_str("Unknown date"),
    }
}

} // verus!
