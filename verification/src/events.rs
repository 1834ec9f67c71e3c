//! Calendar events (occasions) and official holidays, keyed by Jalali dates.
use vstd::prelude::*;
use crate::text::{nat_decimal, push_decimal};

verus! {

#[derive(Clone, Debug)]
pub struct CalendarEvent {
    pub jalali_year: i32,
    pub jalali_month: u32,
    pub jalali_day: u32,
    pub title: String,
    pub description: String,
    pub category: String,
    pub official_holiday: bool,
}

#[derive(Clone, Debug)]
pub struct EventStore {
    pub source_year: i32,
    pub event_count: usize,
    pub source_label: String,
    events: Vec<CalendarEvent>,
    holiday_dates: Vec<String>,
}

/// The event falls on the given Jalali day.
pub open spec fn on_day(e: CalendarEvent, year: i32, month: u32, day: u32) -> bool {
    e.jalali_year == year && e.jalali_month == month && e.jalali_day == day
}

/// The event falls in the given Jalali month.
pub open spec fn in_month(e: CalendarEvent, year: i32, month: u32) -> bool {
    e.jalali_year == year && e.jalali_month == month
}

/// The event falls on the given day of the month.
pub open spec fn on_day_of_month(e: CalendarEvent, day: u32) -> bool {
    e.jalali_day == day
}

/// The events of a day are the events of its month that fall on that day,
/// in the same order.
pub proof fn lemma_day_within_month(events: Seq<CalendarEvent>, year: i32, month: u32, day: u32)
    ensures
        events.filter(|e: CalendarEvent| on_day(e, year, month, day)) == events.filter(
            |e: CalendarEvent| in_month(e, year, month),
        ).filter(|e: CalendarEvent| on_day_of_month(e, day)),
    decreases events.len(),
{
    reveal_with_fuel(Seq::<_>::filter, 1);
    let pd = |e: CalendarEvent| on_day(e, year, month, day);
    let pm = |e: CalendarEvent| in_month(e, year, month);
    let pdm = |e: CalendarEvent| on_day_of_month(e, day);
    if events.len() > 0 {
        lemma_day_within_month(events.drop_last(), year, month, day);
        let rest = events.drop_last().filter(pm);
        if pm(events.last()) {
            assert(events.filter(pm) == rest.push(events.last()));
            assert(rest.push(events.last()).drop_last() =~= rest);
            assert(rest.push(events.last()).last() == events.last());
        } else {
            assert(events.filter(pm) == rest);
        }
    }
}

/// `digits` left-padded with zeros to `width` characters.
pub open spec fn zero_pad(digits: Seq<char>, width: int) -> Seq<char> {
    if digits.len() < width {
        Seq::new((width - digits.len()) as nat, |i: int| '0') + digits
    } else {
        digits
    }
}

/// `{:0w}` for a signed number: the sign, then zeros, then the digits.
pub open spec fn signed_pad(n: int, width: int) -> Seq<char> {
    if n < 0 {
        seq!['-'] + zero_pad(nat_decimal((-n) as nat), width - 1)
    } else {
        zero_pad(nat_decimal(n as nat), width)
    }
}

/// `format!("{year:04}{sep}{month:02}{sep}{day:02}")`.
pub open spec fn padded_date(year: i32, month: u32, day: u32, sep: Seq<char>) -> Seq<char> {
    signed_pad(year as int, 4) + sep + zero_pad(nat_decimal(month as nat), 2) + sep + zero_pad(
        nat_decimal(day as nat),
        2,
    )
}

/// The `YYYY-MM-DD` key of a Jalali date in the holiday list.
pub open spec fn date_key(year: i32, month: u32, day: u32) -> Seq<char> {
    padded_date(year, month, day, seq!['-'])
}

fn push_padded(text: &mut String, n: u64, width: usize)
    ensures
        final(text)@ == old(text)@ + zero_pad(nat_decimal(n as nat), width as int),
{
    let mut digits = String::new();
    push_decimal(&mut digits, n);
    assert(digits@ =~= nat_decimal(n as nat));
    let len = digits.as_str().unicode_len();
    let ghost before = text@;
    if len < width {
        let mut k: usize = 0;
        while k < width - len
            invariant
                len < width,
                k <= width - len,
                text@ == before + Seq::new(k as nat, |i: int| '0'),
            decreases width - len - k,
        {
            text.append("0");
            proof {
                reveal_strlit("0");
            }
            assert(text@ =~= before + Seq::new((k + 1) as nat, |i: int| '0'));
            k += 1;
        }
    }
    text.append(digits.as_str());
    assert(text@ =~= before + zero_pad(nat_decimal(n as nat), width as int));
}

/// A date written with zero-padded fields and the given separator.
pub fn padded_date_text(year: i32, month: u32, day: u32, sep: &str) -> (r: String)
    ensures
        r@ == padded_date(year, month, day, sep@),
{
    let mut text = String::new();
    if year < 0 {
        text.append("-");
        proof {
            reveal_strlit("-");
        }
        push_padded(&mut text, (0 - year as i64) as u64, 3);
        assert(text@ =~= signed_pad(year as int, 4));
    } else {
        push_padded(&mut text, year as u64, 4);
        assert(text@ =~= signed_pad(year as int, 4));
    }
    text.append(sep);
    push_padded(&mut text, month as u64, 2);
    text.append(sep);
    push_padded(&mut text, day as u64, 2);
    assert(text@ =~= padded_date(year, month, day, sep@));
    text
}

/// The holiday-list key of a date, as `format!("{year:04}-{month:02}-{day:02}")`.
pub fn holiday_key(year: i32, month: u32, day: u32) -> (r: String)
    ensures
        r@ == date_key(year, month, day),
{
    proof {
        reveal_strlit("-");
    }
    padded_date_text(year, month, day, "-")
}

impl EventStore {
    /// A store built from a parsed events database: the declared event count
    /// when the database states one, else the number of events.
    pub fn from_parts(
        source_year: i32,
        declared_count: usize,
        source_label: String,
        events: Vec<CalendarEvent>,
        holiday_dates: Vec<String>,
    ) -> (r: Self)
        ensures
            r.year() == source_year,
            r.count() == if declared_count > 0 { declared_count } else { events@.len() as usize },
            r.label() == source_label@,
            r.events() == events@,
            r.holiday_dates() == holiday_dates@,
    {
        let count = if declared_count > 0 { declared_count } else { events.len() };
        EventStore { source_year, event_count: count, source_label, events, holiday_dates }
    }

    /// The store used when the database cannot be read.
    pub fn unreadable(source_label: String) -> (r: Self)
        ensures
            r.year() == 1405,
            r.count() == 0,
            r.label() == source_label@,
            r.events() == Seq::<CalendarEvent>::empty(),
            r.holiday_dates() == Seq::<String>::empty(),
    {
        EventStore {
            source_year: 1405,
            event_count: 0,
            source_label,
            events: Vec::new(),
            holiday_dates: Vec::new(),
        }
    }

    /// The calendar year the database describes.
    pub fn calendar_year(&self) -> (r: i32)
        ensures
            r == self.year(),
    {
        self.source_year
    }

    /// The calendar year the database describes.
    pub closed spec fn year(&self) -> i32 {
        self.source_year
    }

    /// The number of events the store reports.
    pub closed spec fn count(&self) -> usize {
        self.event_count
    }

    /// Where the data came from (or why it could not be read).
    pub closed spec fn label(&self) -> Seq<char> {
        self.source_label@
    }

    /// The events, in database order.
    pub closed spec fn events(&self) -> Seq<CalendarEvent> {
        self.events@
    }

    /// The official holidays as `YYYY-MM-DD` keys.
    pub closed spec fn holiday_dates(&self) -> Seq<String> {
        self.holiday_dates@
    }

    /// The official holidays as a set of keys: the list is only ever asked
    /// whether it holds a key.
    pub open spec fn holiday_set(&self) -> Set<Seq<char>> {
        Set::new(
            |k: Seq<char>|
                exists|i: int| 0 <= i < self.holiday_dates().len() && #[trigger] self.holiday_dates()[i]@ == k,
        )
    }

    /// The events of a day are the events of its month that fall on that
    /// day, in the same order.
    pub proof fn lemma_day_events_in_month(&self, year: i32, month: u32, day: u32)
        ensures
            self.events().filter(|e: CalendarEvent| on_day(e, year, month, day)) == self.events().filter(
                |e: CalendarEvent| in_month(e, year, month),
            ).filter(|e: CalendarEvent| on_day_of_month(e, day)),
    {
        lemma_day_within_month(self.events(), year, month, day);
    }

    /// Events of one Jalali day, in database order.
    pub fn events_for_day(&self, year: i32, month: u32, day: u32) -> (r: Vec<&CalendarEvent>)
        ensures
            ({
                let f = self.events().filter(|e: CalendarEvent| on_day(e, year, month, day));
                &&& r@.len() == f.len()
                &&& forall|i: int| 0 <= i < f.len() ==> *#[trigger] r@[i] == f[i]
            }),
    {
        let ghost pred = |e: CalendarEvent| on_day(e, year, month, day);
        let mut out: Vec<&CalendarEvent> = Vec::new();
        let mut i: usize = 0;
        while i < self.events.len()
            invariant
                i <= self.events@.len(),
                pred == (|e: CalendarEvent| on_day(e, year, month, day)),
                out@.len() == self.events@.subrange(0, i as int).filter(pred).len(),
                forall|k: int|
                    0 <= k < out@.len() ==> *#[trigger] out@[k] == self.events@.subrange(
                        0,
                        i as int,
                    ).filter(pred)[k],
            decreases self.events@.len() - i,
        {
            reveal_with_fuel(Seq::<_>::filter, 1);
            let e = &self.events[i];
            assert(self.events@.subrange(0, i + 1).drop_last() =~= self.events@.subrange(
                0,
                i as int,
            ));
            if e.jalali_year == year && e.jalali_month == month && e.jalali_day == day {
                out.push(e);
            }
            i += 1;
        }
        assert(self.events@.subrange(0, self.events@.len() as int) =~= self.events@);
        out
    }

    /// Events of one Jalali month, in database order.
    pub fn events_for_month(&self, year: i32, month: u32) -> (r: Vec<&CalendarEvent>)
        ensures
            ({
                let f = self.events().filter(|e: CalendarEvent| in_month(e, year, month));
                &&& r@.len() == f.len()
                &&& forall|i: int| 0 <= i < f.len() ==> *#[trigger] r@[i] == f[i]
            }),
    {
        let ghost pred = |e: CalendarEvent| in_month(e, year, month);
        let mut out: Vec<&CalendarEvent> = Vec::new();
        let mut i: usize = 0;
        while i < self.events.len()
            invariant
                i <= self.events@.len(),
                pred == (|e: CalendarEvent| in_month(e, year, month)),
                out@.len() == self.events@.subrange(0, i as int).filter(pred).len(),
                forall|k: int|
                    0 <= k < out@.len() ==> *#[trigger] out@[k] == self.events@.subrange(
                        0,
                        i as int,
                    ).filter(pred)[k],
            decreases self.events@.len() - i,
        {
            reveal_with_fuel(Seq::<_>::filter, 1);
            let e = &self.events[i];
            assert(self.events@.subrange(0, i + 1).drop_last() =~= self.events@.subrange(
                0,
                i as int,
            ));
            if e.jalali_year == year && e.jalali_month == month {
                out.push(e);
            }
            i += 1;
        }
        assert(self.events@.subrange(0, self.events@.len() as int) =~= self.events@);
        out
    }

    /// Whether the holiday list names the date.
    pub fn is_official_holiday(&self, year: i32, month: u32, day: u32) -> (r: bool)
        ensures
            r == self.holiday_set().contains(date_key(year, month, day)),
            r == exists|i: int|
                0 <= i < self.holiday_dates().len() && #[trigger] self.holiday_dates()[i]@
                    == date_key(year, month, day),
    {
        let key = holiday_key(year, month, day);
        let mut i: usize = 0;
        while i < self.holiday_dates.len()
            invariant
                i <= self.holiday_dates@.len(),
                key@ == date_key(year, month, day),
                forall|k: int| 0 <= k < i ==> #[trigger] self.holiday_dates@[k]@ != key@,
            decreases self.holiday_dates@.len() - i,
        {
            if self.holiday_dates[i] == key {
                assert(self.holiday_dates()[i as int]@ == date_key(year, month, day));
                return true;
            }
            i += 1;
        }
        false
    }
}

} // verus!
