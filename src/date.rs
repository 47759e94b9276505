//! The date line of a response, in the fixed-width form HTTP uses
//! (`Sun, 06 Nov 1994 08:49:37 GMT`).

use vstd::prelude::*;
use vstd::utf8::encode_utf8;
use crate::encode::push_str;

verus! {

/// A moment in UTC, broken into the fields the date line shows.
#[derive(Clone, Copy, Debug, PartialEq, Eq, Structural)]
pub struct HttpDate {
    /// Days from Monday: 0 is Monday, 6 is Sunday.
    pub weekday: u8,
    pub day: u8,
    /// 1 is January.
    pub month: u8,
    pub year: u16,
    pub hour: u8,
    pub minute: u8,
    pub second: u8,
}

impl HttpDate {
    /// Every field lies in the range the date line can show.
    pub open spec fn wf(&self) -> bool {
        &&& self.weekday < 7
        &&& 1 <= self.day <= 31
        &&& 1 <= self.month <= 12
        &&& self.year <= 9999
        &&& self.hour < 24
        &&& self.minute < 60
        &&& self.second < 61
    }
}

pub open spec fn weekday_name(w: u8) -> Seq<char> {
    if w == 0 {
        "Mon"@
    } else if w == 1 {
        "Tue"@
    } else if w == 2 {
        "Wed"@
    } else if w == 3 {
        "Thu"@
    } else if w == 4 {
        "Fri"@
    } else if w == 5 {
        "Sat"@
    } else {
        "Sun"@
    }
}

pub open spec fn month_name(m: u8) -> Seq<char> {
    if m == 1 {
        "Jan"@
    } else if m == 2 {
        "Feb"@
    } else if m == 3 {
        "Mar"@
    } else if m == 4 {
        "Apr"@
    } else if m == 5 {
        "May"@
    } else if m == 6 {
        "Jun"@
    } else if m == 7 {
        "Jul"@
    } else if m == 8 {
        "Aug"@
    } else if m == 9 {
        "Sep"@
    } else if m == 10 {
        "Oct"@
    } else if m == 11 {
        "Nov"@
    } else {
        "Dec"@
    }
}

/// The last `width` decimal digits of `n`, zero-padded, as ASCII bytes.
pub open spec fn padded(n: nat, width: nat) -> Seq<u8>
    decreases width,
{
    if width == 0 {
        Seq::<u8>::empty()
    } else {
        padded(n / 10, (width - 1) as nat) + seq![(48 + n % 10) as u8]
    }
}

/// The date line's value for `d`.
pub open spec fn date_text(d: HttpDate) -> Seq<u8> {
    encode_utf8(weekday_name(d.weekday)) + encode_utf8(", "@) + padded(d.day as nat, 2)
        + encode_utf8(" "@) + encode_utf8(month_name(d.month)) + encode_utf8(" "@) + padded(
        d.year as nat,
        4,
    ) + encode_utf8(" "@) + padded(d.hour as nat, 2) + encode_utf8(":"@) + padded(
        d.minute as nat,
        2,
    ) + encode_utf8(":"@) + padded(d.second as nat, 2) + encode_utf8(" GMT"@)
}

fn push_padded(out: &mut Vec<u8>, n: u16, width: u8)
    ensures
        final(out)@ == old(out)@ + padded(n as nat, width as nat),
    decreases width,
{
    if width == 0 {
        assert(out@ =~= old(out)@ + padded(n as nat, width as nat));
    } else {
        push_padded(out, n / 10, width - 1);
        out.push((48 + n % 10) as u8);
        assert(out@ =~= old(out)@ + padded(n as nat, width as nat));
    }
}

fn weekday_str(w: u8) -> (r: &'static str)
    ensures
        r@ == weekday_name(w),
{
    if w == 0 {
        "Mon"
    } else if w == 1 {
        "Tue"
    } else if w == 2 {
        "Wed"
    } else if w == 3 {
        "Thu"
    } else if w == 4 {
        "Fri"
    } else if w == 5 {
        "Sat"
    } else {
        "Sun"
    }
}

fn month_str(m: u8) -> (r: &'static str)
    ensures
        r@ == month_name(m),
{
    if m == 1 {
        "Jan"
    } else if m == 2 {
        "Feb"
    } else if m == 3 {
        "Mar"
    } else if m == 4 {
        "Apr"
    } else if m == 5 {
        "May"
    } else if m == 6 {
        "Jun"
    } else if m == 7 {
        "Jul"
    } else if m == 8 {
        "Aug"
    } else if m == 9 {
        "Sep"
    } else if m == 10 {
        "Oct"
    } else if m == 11 {
        "Nov"
    } else {
        "Dec"
    }
}

/// The date line's value for `d`, such as `Sun, 06 Nov 1994 08:49:37 GMT`.
pub fn http_date(d: &HttpDate) -> (r: Vec<u8>)
    requires
        d.wf(),
    ensures
        r@ == date_text(*d),
{
    let mut out: Vec<u8> = Vec::with_capacity(29);
    push_str(&mut out, weekday_str(d.weekday));
    push_str(&mut out, ", ");
    push_padded(&mut out, d.day as u16, 2);
    push_str(&mut out, " ");
    push_str(&mut out, month_str(d.month));
    push_str(&mut out, " ");
    push_padded(&mut out, d.year, 4);
    push_str(&mut out, " ");
    push_padded(&mut out, d.hour as u16, 2);
    push_str(&mut out, ":");
    push_padded(&mut out, d.minute as u16, 2);
    push_str(&mut out, ":");
    push_padded(&mut out, d.second as u16, 2);
    push_str(&mut out, " GMT");
    assert(out@ =~= date_text(*d));
    out
}

} // verus!
