//! The three calendars (Jalali, Gregorian, lunar Hijri), conversions between
//! them and date navigation.
use vstd::prelude::*;
use crate::arith::{fits_i32, fits_i64, tdiv, tmod, ceil_div};
use crate::text::{str_eq, decimal, int_decimal};

verus! {

#[derive(Clone, Copy, Debug, PartialEq, Eq, Structural)]
pub enum CalendarKind {
    Jalali,
    Gregorian,
    Hijri,
}

/// The settings-file key of a calendar.
pub open spec fn kind_key(kind: CalendarKind) -> Seq<char> {
    match kind {
        CalendarKind::Jalali => "jalali"@,
        CalendarKind::Gregorian => "gregorian"@,
        CalendarKind::Hijri => "hijri"@,
    }
}

/// The calendar a settings-file key selects; anything unknown means Jalali.
pub open spec fn kind_from_key(value: Seq<char>) -> CalendarKind {
    if value == "gregorian"@ {
        CalendarKind::Gregorian
    } else if value == "hijri"@ {
        CalendarKind::Hijri
    } else {
        CalendarKind::Jalali
    }
}

/// The Persian title of a calendar.
pub open spec fn kind_title(kind: CalendarKind) -> Seq<char> {
    match kind {
        CalendarKind::Jalali => "شمسی"@,
        CalendarKind::Gregorian => "میلادی"@,
        CalendarKind::Hijri => "قمری"@,
    }
}

/// The calendar after `kind` in the cycle Jalali, Gregorian, Hijri.
pub open spec fn kind_next(kind: CalendarKind) -> CalendarKind {
    match kind {
        CalendarKind::Jalali => CalendarKind::Gregorian,
        CalendarKind::Gregorian => CalendarKind::Hijri,
        CalendarKind::Hijri => CalendarKind::Jalali,
    }
}

impl CalendarKind {
    pub fn key(self) -> (r: &'static str)
        ensures
            r@ == kind_key(self),
    {
        match self {
            CalendarKind::Jalali => "jalali",
            CalendarKind::Gregorian => "gregorian",
            CalendarKind::Hijri => "hijri",
        }
    }

    pub fn from_key(value: &str) -> (r: Self)
        ensures
            r == kind_from_key(value@),
    {
        if str_eq(value, "gregorian") {
            CalendarKind::Gregorian
        } else if str_eq(value, "hijri") {
            CalendarKind::Hijri
        } else {
            CalendarKind::Jalali
        }
    }

    pub fn title(self) -> (r: &'static str)
        ensures
            r@ == kind_title(self),
    {
        match self {
            CalendarKind::Jalali => "شمسی",
            CalendarKind::Gregorian => "میلادی",
            CalendarKind::Hijri => "قمری",
        }
    }

    pub fn next(self) -> (r: Self)
        ensures
            r == kind_next(self),
    {
        match self {
            CalendarKind::Jalali => CalendarKind::Gregorian,
            CalendarKind::Gregorian => CalendarKind::Hijri,
            CalendarKind::Hijri => CalendarKind::Jalali,
        }
    }
}

/// Reading a calendar's key gives the calendar back, and three steps of
/// `next` return to the start.
pub proof fn lemma_kind_key_round_trip(kind: CalendarKind)
    ensures
        kind_from_key(kind_key(kind)) == kind,
        kind_next(kind_next(kind_next(kind))) == kind,
        kind_next(kind) != kind,
{
    reveal_strlit("jalali");
    reveal_strlit("gregorian");
    reveal_strlit("hijri");
    assert("jalali"@.len() == 6);
    assert("gregorian"@.len() == 9);
    assert("hijri"@.len() == 5);
}

/// A day of some calendar: year, month (1-based) and day of month (1-based).
#[derive(Clone, Copy, Debug, PartialEq, Eq, Structural)]
pub struct Date {
    pub year: i32,
    pub month: u32,
    pub day: u32,
}

impl Date {
    pub fn new(year: i32, month: u32, day: u32) -> (r: Self)
        ensures
            r == (Date { year, month, day }),
    {
        Date { year, month, day }
    }
}

// ---------------------------------------------------------------------------
// Month names
// ---------------------------------------------------------------------------

/// Index into a twelve-name table for a 1-based month; out-of-range months
/// fall back to the first or last name.
pub open spec fn month_index(month: int) -> int {
    if month <= 1 {
        0
    } else if month >= 12 {
        11
    } else {
        month - 1
    }
}

pub open spec fn jalali_month_name(i: int) -> Seq<char> {
    if i == 0 { "فروردین"@ }
    else if i == 1 { "اردیبهشت"@ }
    else if i == 2 { "خرداد"@ }
    else if i == 3 { "تیر"@ }
    else if i == 4 { "مرداد"@ }
    else if i == 5 { "شهریور"@ }
    else if i == 6 { "مهر"@ }
    else if i == 7 { "آبان"@ }
    else if i == 8 { "آذر"@ }
    else if i == 9 { "دی"@ }
    else if i == 10 { "بهمن"@ }
    else { "اسفند"@ }
}

pub open spec fn gregorian_month_name_en(i: int) -> Seq<char> {
    if i == 0 { "January"@ }
    else if i == 1 { "February"@ }
    else if i == 2 { "March"@ }
    else if i == 3 { "April"@ }
    else if i == 4 { "May"@ }
    else if i == 5 { "June"@ }
    else if i == 6 { "July"@ }
    else if i == 7 { "August"@ }
    else if i == 8 { "September"@ }
    else if i == 9 { "October"@ }
    else if i == 10 { "November"@ }
    else { "December"@ }
}

pub open spec fn gregorian_month_name_fa(i: int) -> Seq<char> {
    if i == 0 { "ژانویه"@ }
    else if i == 1 { "فوریه"@ }
    else if i == 2 { "مارس"@ }
    else if i == 3 { "آوریل"@ }
    else if i == 4 { "مه"@ }
    else if i == 5 { "ژوئن"@ }
    else if i == 6 { "ژوئیه"@ }
    else if i == 7 { "اوت"@ }
    else if i == 8 { "سپتامبر"@ }
    else if i == 9 { "اکتبر"@ }
    else if i == 10 { "نوامبر"@ }
    else { "دسامبر"@ }
}

pub open spec fn hijri_month_name(i: int) -> Seq<char> {
    if i == 0 { "محرم"@ }
    else if i == 1 { "صفر"@ }
    else if i == 2 { "ربیع‌الاول"@ }
    else if i == 3 { "ربیع‌الثانی"@ }
    else if i == 4 { "جمادی‌الاول"@ }
    else if i == 5 { "جمادی‌الثانی"@ }
    else if i == 6 { "رجب"@ }
    else if i == 7 { "شعبان"@ }
    else if i == 8 { "رمضان"@ }
    else if i == 9 { "شوال"@ }
    else if i == 10 { "ذی‌القعده"@ }
    else { "ذی‌الحجه"@ }
}

/// Month name with English Gregorian names.
pub open spec fn spec_month_name(kind: CalendarKind, month: int) -> Seq<char> {
    let i = month_index(month);
    match kind {
        CalendarKind::Jalali => jalali_month_name(i),
        CalendarKind::Gregorian => gregorian_month_name_en(i),
        CalendarKind::Hijri => hijri_month_name(i),
    }
}

/// Month name with Persian Gregorian names.
pub open spec fn spec_month_name_fa(kind: CalendarKind, month: int) -> Seq<char> {
    let i = month_index(month);
    match kind {
        CalendarKind::Jalali => jalali_month_name(i),
        CalendarKind::Gregorian => gregorian_month_name_fa(i),
        CalendarKind::Hijri => hijri_month_name(i),
    }
}

fn table_index(month: u32) -> (r: usize)
    ensures
        r == month_index(month as int),
{
    let index = if month == 0 { 0 } else { month - 1 };
    if index > 11 { 11 } else { index as usize }
}

fn jalali_name(i: usize) -> (r: &'static str)
    requires
        i < 12,
    ensures
        r@ == jalali_month_name(i as int),
{
    match i {
        0 => "فروردین",
        1 => "اردیبهشت",
        2 => "خرداد",
        3 => "تیر",
        4 => "مرداد",
        5 => "شهریور",
        6 => "مهر",
        7 => "آبان",
        8 => "آذر",
        9 => "دی",
        10 => "بهمن",
        _ => "اسفند",
    }
}

fn gregorian_name_en(i: usize) -> (r: &'static str)
    requires
        i < 12,
    ensures
        r@ == gregorian_month_name_en(i as int),
{
    match i {
        0 => "January",
        1 => "February",
        2 => "March",
        3 => "April",
        4 => "May",
        5 => "June",
        6 => "July",
        7 => "August",
        8 => "September",
        9 => "October",
        10 => "November",
        _ => "December",
    }
}

fn gregorian_name_fa(i: usize) -> (r: &'static str)
    requires
        i < 12,
    ensures
        r@ == gregorian_month_name_fa(i as int),
{
    match i {
        0 => "ژانویه",
        1 => "فوریه",
        2 => "مارس",
        3 => "آوریل",
        4 => "مه",
        5 => "ژوئن",
        6 => "ژوئیه",
        7 => "اوت",
        8 => "سپتامبر",
        9 => "اکتبر",
        10 => "نوامبر",
        _ => "دسامبر",
    }
}

fn hijri_name(i: usize) -> (r: &'static str)
    requires
        i < 12,
    ensures
        r@ == hijri_month_name(i as int),
{
    match i {
        0 => "محرم",
        1 => "صفر",
        2 => "ربیع‌الاول",
        3 => "ربیع‌الثانی",
        4 => "جمادی‌الاول",
        5 => "جمادی‌الثانی",
        6 => "رجب",
        7 => "شعبان",
        8 => "رمضان",
        9 => "شوال",
        10 => "ذی‌القعده",
        _ => "ذی‌الحجه",
    }
}

/// The one-letter Persian names of the weekdays, Saturday first, as the grid's
/// header shows them.
pub open spec fn spec_weekday_short(index: int) -> Seq<char> {
    if index == 0 {
        "ش"@
    } else if index == 1 {
        "ی"@
    } else if index == 2 {
        "د"@
    } else if index == 3 {
        "س"@
    } else if index == 4 {
        "چ"@
    } else if index == 5 {
        "پ"@
    } else {
        "ج"@
    }
}

pub fn weekday_short(index: usize) -> (r: &'static str)
    requires
        index < 7,
    ensures
        r@ == spec_weekday_short(index as int),
{
    match index {
        0 => "ش",
        1 => "ی",
        2 => "د",
        3 => "س",
        4 => "چ",
        5 => "پ",
        _ => "ج",
    }
}

pub fn month_name(kind: CalendarKind, month: u32) -> (r: &'static str)
    ensures
        r@ == spec_month_name(kind, month as int),
{
    let index = table_index(month);
    match kind {
        CalendarKind::Jalali => jalali_name(index),
        CalendarKind::Gregorian => gregorian_name_en(index),
        CalendarKind::Hijri => hijri_name(index),
    }
}

pub fn month_name_fa(kind: CalendarKind, month: u32) -> (r: &'static str)
    ensures
        r@ == spec_month_name_fa(kind, month as int),
{
    let index = table_index(month);
    match kind {
        CalendarKind::Jalali => jalali_name(index),
        CalendarKind::Gregorian => gregorian_name_fa(index),
        CalendarKind::Hijri => hijri_name(index),
    }
}


// ---------------------------------------------------------------------------
// Month lengths
// ---------------------------------------------------------------------------

/// Gregorian leap-year rule.
pub open spec fn greg_leap(y: int) -> bool {
    (y % 4 == 0 && y % 100 != 0) || y % 400 == 0
}

/// Days in a Gregorian month; an unknown month counts as 30 days.
pub open spec fn greg_month_len(y: int, m: int) -> int {
    if m == 1 || m == 3 || m == 5 || m == 7 || m == 8 || m == 10 || m == 12 {
        31
    } else if m == 4 || m == 6 || m == 9 || m == 11 {
        30
    } else if m == 2 {
        if greg_leap(y) { 29 } else { 28 }
    } else {
        30
    }
}

/// Days in a Hijri month of the 30-year arithmetic cycle; an unknown month
/// counts by its parity.
pub open spec fn hijri_month_len(y: int, m: int) -> int {
    if m == 12 {
        if (11 * y + 14) % 30 < 11 { 30 } else { 29 }
    } else if m % 2 == 1 {
        30
    } else {
        29
    }
}

fn is_gregorian_leap(year: i32) -> (r: bool)
    ensures
        r == greg_leap(year as int),
{
    (year % 4 == 0 && year % 100 != 0) || year % 400 == 0
}

fn gregorian_month_length(year: i32, month: u32) -> (r: u32)
    ensures
        r == greg_month_len(year as int, month as int),
{
    if month == 1 || month == 3 || month == 5 || month == 7 || month == 8 || month == 10
        || month == 12 {
        31
    } else if month == 4 || month == 6 || month == 9 || month == 11 {
        30
    } else if month == 2 {
        if is_gregorian_leap(year) { 29 } else { 28 }
    } else {
        30
    }
}

#[verifier::rlimit(40)]
fn hijri_month_length(year: i32, month: u32) -> (r: u32)
    requires
        month == 12 ==> fits_i32(11 * year) && fits_i32(11 * year + 14),
    ensures
        r == hijri_month_len(year as int, month as int),
{
    if month == 12 {
        let value: i32 = 11 * year + 14;
        let mut rem: i32 = value % 30;
        if rem < 0 {
            rem = rem + 30;
        }
        if rem < 11 { 30 } else { 29 }
    } else if month % 2 == 1 {
        30
    } else {
        29
    }
}

// ---------------------------------------------------------------------------
// Julian day numbers
// ---------------------------------------------------------------------------

/// Julian day number of a Gregorian date (Fliegel–Van Flandern).
pub open spec fn spec_gregorian_to_jdn(y: int, m: int, d: int) -> int {
    let a = tdiv(14 - m, 12);
    let yy = y + 4800 - a;
    let mm = m + 12 * a - 3;
    d + tdiv(153 * mm + 2, 5) + 365 * yy + tdiv(yy, 4) - tdiv(yy, 100) + tdiv(yy, 400) - 32045
}

pub open spec fn date_jdn(date: Date) -> int {
    spec_gregorian_to_jdn(date.year as int, date.month as int, date.day as int)
}

/// The inverse computation: a Julian day number to (year, month, day).
pub open spec fn greg_fields_from_jdn(jdn: int) -> (int, int, int) {
    let l0 = jdn + 68569;
    let n = tdiv(4 * l0, 146097);
    let l1 = l0 - tdiv(146097 * n + 3, 4);
    let i = tdiv(4000 * (l1 + 1), 1461001);
    let l2 = l1 - tdiv(1461 * i, 4) + 31;
    let j = tdiv(80 * l2, 2447);
    let day = l2 - tdiv(2447 * j, 80);
    let l3 = tdiv(j, 11);
    let month = j + 2 - 12 * l3;
    let year = 100 * (n - 49) + i + l3;
    (year, month, day)
}

pub open spec fn spec_jdn_to_gregorian(jdn: int) -> Date {
    let f = greg_fields_from_jdn(jdn);
    Date { year: f.0 as i32, month: f.1 as u32, day: f.2 as u32 }
}

/// The Julian-day arithmetic stays within `i64`.
pub open spec fn jdn_to_gregorian_ok(jdn: int) -> bool {
    fits_i64(jdn + 68569) && fits_i64(4 * (jdn + 68569))
}

fn gregorian_to_jdn(date: Date) -> (r: i64)
    ensures
        r == date_jdn(date),
{
    let a: i64 = (14 - date.month as i64) / 12;
    let y: i64 = date.year as i64 + 4800 - a;
    let m: i64 = date.month as i64 + 12 * a - 3;
    date.day as i64 + (153 * m + 2) / 5 + 365 * y + y / 4 - y / 100 + y / 400 - 32045
}

#[verifier::rlimit(40)]
fn jdn_to_gregorian(jdn: i64) -> (r: Date)
    requires
        jdn_to_gregorian_ok(jdn as int),
    ensures
        r == spec_jdn_to_gregorian(jdn as int),
{
    let mut l: i64 = jdn + 68569;
    let n: i64 = 4 * l / 146097;
    l -= (146097 * n + 3) / 4;
    let i: i64 = 4000 * (l + 1) / 1461001;
    l = l - 1461 * i / 4 + 31;
    let j: i64 = 80 * l / 2447;
    let day: i64 = l - 2447 * j / 80;
    l = j / 11;
    let month: i64 = j + 2 - 12 * l;
    let year: i64 = 100 * (n - 49) + i + l;
    Date::new(year as i32, month as u32, day as u32)
}

/// Julian day number of a Hijri date.
pub open spec fn spec_hijri_to_jdn(y: int, m: int, d: int) -> int {
    d + tdiv(59 * (m - 1) + 1, 2) + (y - 1) * 354 + tdiv(3 + 11 * y, 30) + 1948439 - 1
}

fn hijri_to_jdn(year: i32, month: u32, day: u32) -> (r: i64)
    ensures
        r == spec_hijri_to_jdn(year as int, month as int, day as int),
{
    day as i64 + (59 * (month as i64 - 1) + 1) / 2 + (year as i64 - 1) * 354 + (3 + 11
        * year as i64) / 30 + 1_948_439 - 1
}


/// First day (Julian day number) of a Hijri month.
pub open spec fn hijri_month_start(y: int, m: int) -> int {
    spec_hijri_to_jdn(y, m, 1)
}

/// Estimated Hijri year of a Julian day number (exact by the arithmetic cycle).
pub open spec fn hijri_year_of(jdn: int) -> i32 {
    (tdiv(30 * (jdn - 1948439) + 10646, 10631)) as i32
}

/// The last month, from `m` on, whose start the day has reached.
pub open spec fn hijri_month_from(y: int, jdn: int, m: int) -> int
    decreases 12 - m,
{
    if m < 12 && hijri_month_start(y, m + 1) <= jdn {
        hijri_month_from(y, jdn, m + 1)
    } else {
        m
    }
}

pub open spec fn spec_jdn_to_hijri(jdn: int) -> Date {
    let y = hijri_year_of(jdn);
    let m = hijri_month_from(y as int, jdn, 1);
    Date { year: y, month: m as u32, day: (jdn - hijri_month_start(y as int, m) + 1) as u32 }
}

/// The Hijri search stays within machine integers.
pub open spec fn jdn_to_hijri_ok(jdn: int) -> bool {
    &&& fits_i64(30 * (jdn - 1948439))
    &&& fits_i64(30 * (jdn - 1948439) + 10646)
    &&& {
        let y = hijri_year_of(jdn) as int;
        let x = jdn - (29 + hijri_month_start(y, 1));
        &&& fits_i64(x)
        &&& ceil_div(2 * x, 59) < i32::MAX
        &&& forall|m: int| 1 <= m <= 12 ==> #[trigger] fits_i64(jdn - hijri_month_start(y, m) + 1)
    }
}

pub proof fn lemma_hijri_start_mono(y: int, a: int, b: int)
    requires
        1 <= a < b <= 12,
    ensures
        hijri_month_start(y, a) < hijri_month_start(y, b),
{
}

pub proof fn lemma_hijri_month_from(y: int, jdn: int, k: int, m: int)
    requires
        1 <= k <= m <= 12,
        m == 1 || hijri_month_start(y, m) <= jdn,
        m == 12 || hijri_month_start(y, m + 1) > jdn,
    ensures
        hijri_month_from(y, jdn, k) == m,
    decreases m - k,
{
    if k < m {
        if k + 1 < m {
            lemma_hijri_start_mono(y, k + 1, m);
        }
        lemma_hijri_month_from(y, jdn, k + 1, m);
    }
}

#[verifier::rlimit(40)]
fn jdn_to_hijri(jdn: i64) -> (r: Date)
    requires
        jdn_to_hijri_ok(jdn as int),
    ensures
        r == spec_jdn_to_hijri(jdn as int),
{
    let year: i32 = ((30 * (jdn - 1_948_439) + 10_646) / 10_631) as i32;
    let first: i64 = hijri_to_jdn(year, 1, 1);
    let x: i64 = jdn - (29 + first);
    // Initial month guess ceil(x / 29.5) + 1, i.e. ceil(2x / 59) + 1, without doubling x.
    let q: i64 = x / 59;
    let rem: i64 = x % 59;
    let twice: i64 = 2 * rem;
    let up: i64 = if twice > 59 {
        2
    } else if twice > 0 {
        1
    } else if twice > -59 {
        0
    } else {
        -1
    };
    let g: i64 = 2 * q + up;
    assert(g == ceil_div(2 * x, 59));
    let g32: i32 = if g < i32::MIN as i64 { i32::MIN } else { g as i32 };
    let guess: i32 = g32 + 1;
    let mut month: u32 = if guess < 1 {
        1
    } else if guess > 12 {
        12
    } else {
        guess as u32
    };
    while month > 1 && jdn < hijri_to_jdn(year, month, 1)
        invariant
            1 <= month <= 12,
        decreases month,
    {
        month -= 1;
    }
    while month < 12 && jdn >= hijri_to_jdn(year, month + 1, 1)
        invariant
            1 <= month <= 12,
            month == 1 || hijri_month_start(year as int, month as int) <= jdn,
        decreases 12 - month,
    {
        month += 1;
    }
    proof {
        lemma_hijri_month_from(year as int, jdn as int, 1, month as int);
    }
    let start: i64 = hijri_to_jdn(year, month, 1);
    assert(fits_i64(jdn - hijri_month_start(year as int, month as int) + 1));
    let day: u32 = (jdn - start + 1) as u32;
    Date::new(year, month, day)
}


// ---------------------------------------------------------------------------
// Jalali <-> Gregorian
// ---------------------------------------------------------------------------

/// Days before a Jalali month: six months of 31 days, then months of 30.
pub open spec fn jal_month_offset(jm: int) -> int {
    if jm < 7 {
        (jm - 1) * 31
    } else {
        (jm - 7) * 30 + 186
    }
}

/// Day count of a Jalali date, on the scale whose day 0 is 1 January of
/// Gregorian year 0 (33-year arithmetic leap cycle).
pub open spec fn j2g_day_count(jy: int, jm: int, jd: int) -> int {
    let a = jy + 1595;
    -355668 + 365 * a + tdiv(a, 33) * 8 + tdiv(tmod(a, 33) + 3, 4) + jd + jal_month_offset(jm)
}

/// The day-count arithmetic of `jalali_to_gregorian` stays within `i32`.
pub open spec fn j2g_ok(jy: int, jm: int, jd: int) -> bool {
    let a = jy + 1595;
    let s1 = -355668 + 365 * a;
    let s2 = s1 + tdiv(a, 33) * 8;
    let s3 = s2 + tdiv(tmod(a, 33) + 3, 4);
    let s4 = s3 + jd;
    &&& fits_i32(a)
    &&& fits_i32(365 * a)
    &&& fits_i32(s1)
    &&& fits_i32(s2)
    &&& fits_i32(s3)
    &&& fits_i32(s4)
    &&& if jm < 7 {
        fits_i32(jm - 1) && fits_i32((jm - 1) * 31)
    } else {
        fits_i32(jm - 7) && fits_i32((jm - 7) * 30) && fits_i32((jm - 7) * 30 + 186)
    }
    &&& fits_i32(s4 + jal_month_offset(jm))
}

/// Gregorian year and 0-based day of year of a day count: 400-, 100-, 4- and
/// 1-year blocks.
pub open spec fn greg_year_split(days: int) -> (int, int) {
    let gy0 = 400 * tdiv(days, 146097);
    let d0 = tmod(days, 146097);
    let gy1 = if d0 > 36524 { gy0 + 100 * ((d0 - 1) / 36524) } else { gy0 };
    let d1 = if d0 > 36524 {
        let d = (d0 - 1) % 36524;
        if d >= 365 { d + 1 } else { d }
    } else {
        d0
    };
    let gy2 = gy1 + 4 * tdiv(d1, 1461);
    let d2 = tmod(d1, 1461);
    if d2 > 365 {
        (gy2 + (d2 - 1) / 365, (d2 - 1) % 365)
    } else {
        (gy2, d2)
    }
}

/// Walks the months of Gregorian year `y` from month `m`, taking away whole
/// months while the day of year exceeds them; (13, rest) if it passes December.
pub open spec fn greg_month_walk(y: int, gd: int, m: int) -> (int, int)
    decreases 13 - m,
{
    if 1 <= m <= 12 && gd > greg_month_len(y, m) {
        greg_month_walk(y, gd - greg_month_len(y, m), m + 1)
    } else {
        (m, gd)
    }
}

/// Gregorian (year, month, day) of a day count.
pub open spec fn greg_from_day_count(days: int) -> (int, int, int) {
    let (gy, doy) = greg_year_split(days);
    let (gm, gd) = greg_month_walk(gy, doy + 1, 1);
    (gy, gm, gd)
}

pub open spec fn spec_jalali_to_gregorian(jy: int, jm: int, jd: int) -> (int, int, int) {
    greg_from_day_count(j2g_day_count(jy, jm, jd))
}

/// Days before a Gregorian month of a common year.
pub open spec fn greg_days_before_month(m: int) -> int {
    if m == 1 { 0 }
    else if m == 2 { 31 }
    else if m == 3 { 59 }
    else if m == 4 { 90 }
    else if m == 5 { 120 }
    else if m == 6 { 151 }
    else if m == 7 { 181 }
    else if m == 8 { 212 }
    else if m == 9 { 243 }
    else if m == 10 { 273 }
    else if m == 11 { 304 }
    else { 334 }
}

/// Day count of a Gregorian date on the Jalali scale of `jalali_split`
/// (0 = 1 Farvardin of Jalali year -1595).
pub open spec fn g2j_day_count(gy: int, gm: int, gd: int) -> int {
    let gy2 = if gm > 2 { gy + 1 } else { gy };
    355666 + 365 * gy + tdiv(gy2 + 3, 4) - tdiv(gy2 + 99, 100) + tdiv(gy2 + 399, 400) + gd
        + greg_days_before_month(gm)
}

/// `gregorian_to_jalali` indexes its month table and stays within `i32`.
pub open spec fn g2j_ok(gy: int, gm: int, gd: int) -> bool {
    let gy2 = if gm > 2 { gy + 1 } else { gy };
    let s1 = 355666 + 365 * gy;
    let s2 = s1 + tdiv(gy2 + 3, 4);
    let s3 = s2 - tdiv(gy2 + 99, 100);
    let s4 = s3 + tdiv(gy2 + 399, 400);
    let s5 = s4 + gd;
    &&& 1 <= gm <= 12
    &&& fits_i32(gy2)
    &&& fits_i32(gy2 + 399)
    &&& fits_i32(365 * gy)
    &&& fits_i32(s1)
    &&& fits_i32(s2)
    &&& fits_i32(s3)
    &&& fits_i32(s4)
    &&& fits_i32(s5)
    &&& fits_i32(s5 + greg_days_before_month(gm))
}

/// Jalali (year, month, day) of a day count: 33-, 4- and 1-year blocks.
pub open spec fn jalali_split(days: int) -> (int, int, int) {
    let jy0 = -1595 + 33 * tdiv(days, 12053);
    let d0 = tmod(days, 12053);
    let jy1 = jy0 + 4 * tdiv(d0, 1461);
    let d1 = tmod(d0, 1461);
    let jy2 = if d1 > 365 { jy1 + (d1 - 1) / 365 } else { jy1 };
    let d2 = if d1 > 365 { (d1 - 1) % 365 } else { d1 };
    if d2 < 186 {
        (jy2, 1 + tdiv(d2, 31), 1 + tmod(d2, 31))
    } else {
        (jy2, 7 + (d2 - 186) / 30, 1 + (d2 - 186) % 30)
    }
}

pub open spec fn spec_gregorian_to_jalali(gy: int, gm: int, gd: int) -> (int, int, int) {
    jalali_split(g2j_day_count(gy, gm, gd))
}

#[verifier::rlimit(60)]
pub fn jalali_to_gregorian(jy: i32, jm: i32, jd: i32) -> (r: (i32, i32, i32))
    requires
        j2g_ok(jy as int, jm as int, jd as int),
    ensures
        (r.0 as int, r.1 as int, r.2 as int) == spec_jalali_to_gregorian(
            jy as int,
            jm as int,
            jd as int,
        ),
{
    let jy: i32 = jy + 1595;
    let mut days: i32 = -355668 + 365 * jy + (jy / 33) * 8 + ((jy % 33 + 3) / 4) + jd + if jm
        < 7 {
        (jm - 1) * 31
    } else {
        (jm - 7) * 30 + 186
    };
    let ghost count = days as int;
    let mut gy: i32 = 400 * (days / 146097);
    days = days % 146097;
    if days > 36524 {
        gy += 100 * ((days - 1) / 36524);
        days = (days - 1) % 36524;
        if days >= 365 {
            days += 1;
        }
    }
    gy += 4 * (days / 1461);
    days = days % 1461;
    if days > 365 {
        gy += (days - 1) / 365;
        days = (days - 1) % 365;
    }
    assert((gy as int, days as int) == greg_year_split(count));
    let mut gd: i32 = days + 1;
    let ghost gd0 = gd as int;
    let leap = is_gregorian_leap(gy);
    let month_days: [i32; 12] = [
        31,
        if leap { 29 } else { 28 },
        31,
        30,
        31,
        30,
        31,
        31,
        30,
        31,
        30,
        31,
    ];
    let mut gm: i32 = 1;
    let mut idx: usize = 0;
    while idx < 12
        invariant_except_break
            idx <= 12,
            gm == idx + 1,
            greg_month_walk(gy as int, gd as int, gm as int) == greg_month_walk(gy as int, gd0, 1),
            forall|k: int| 0 <= k < 12 ==> month_days[k] == greg_month_len(gy as int, k + 1),
            gd <= gd0,
            gd0 <= 367,
        ensures
            greg_month_walk(gy as int, gd0, 1) == (gm as int, gd as int),
        decreases 12 - idx,
    {
        let length: i32 = month_days[idx];
        if gd <= length {
            break;
        }
        gd -= length;
        gm += 1;
        idx += 1;
    }
    (gy, gm, gd)
}

#[verifier::rlimit(60)]
pub fn gregorian_to_jalali(gy: i32, gm: i32, gd: i32) -> (r: (i32, i32, i32))
    requires
        g2j_ok(gy as int, gm as int, gd as int),
    ensures
        (r.0 as int, r.1 as int, r.2 as int) == spec_gregorian_to_jalali(
            gy as int,
            gm as int,
            gd as int,
        ),
{
    let gdm: [i32; 12] = [0, 31, 59, 90, 120, 151, 181, 212, 243, 273, 304, 334];
    let gy2: i32 = if gm > 2 { gy + 1 } else { gy };
    let mut days: i32 = 355666 + 365 * gy + (gy2 + 3) / 4 - (gy2 + 99) / 100 + (gy2 + 399) / 400
        + gd + gdm[(gm - 1) as usize];
    let mut jy: i32 = -1595 + 33 * (days / 12053);
    days = days % 12053;
    jy += 4 * (days / 1461);
    days = days % 1461;
    if days > 365 {
        jy += (days - 1) / 365;
        days = (days - 1) % 365;
    }
    let (jm, jd) = if days < 186 {
        (1 + days / 31, 1 + days % 31)
    } else {
        (7 + (days - 186) / 30, 1 + (days - 186) % 30)
    };
    (jy, jm, jd)
}


// ---------------------------------------------------------------------------
// Month lengths of every calendar
// ---------------------------------------------------------------------------

/// The arithmetic `jalali_month_length` performs for Esfand stays in range.
pub open spec fn jalali_esfand_ok(y: int) -> bool {
    let g = spec_jalali_to_gregorian(y, 12, 30);
    j2g_ok(y, 12, 30) && g2j_ok(g.0, g.1, g.2)
}

/// Days in a Jalali month: Esfand has 30 days exactly when its 30th day
/// survives a round trip through the Gregorian calendar.
pub open spec fn jalali_month_len(y: int, m: int) -> int {
    if 1 <= m <= 6 {
        31
    } else if 7 <= m <= 11 {
        30
    } else if m == 12 {
        let g = spec_jalali_to_gregorian(y, 12, 30);
        if spec_gregorian_to_jalali(g.0, g.1, g.2) == (y, 12int, 30int) {
            30
        } else {
            29
        }
    } else {
        30
    }
}

fn jalali_month_length(year: i32, month: u32) -> (r: u32)
    requires
        month == 12 ==> jalali_esfand_ok(year as int),
    ensures
        r == jalali_month_len(year as int, month as int),
{
    if 1 <= month && month <= 6 {
        31
    } else if 7 <= month && month <= 11 {
        30
    } else if month == 12 {
        let (gy, gm, gd) = jalali_to_gregorian(year, 12, 30);
        let (jy, jm, jd) = gregorian_to_jalali(gy, gm, gd);
        if jy == year && jm == 12 && jd == 30 {
            30
        } else {
            29
        }
    } else {
        30
    }
}

pub open spec fn spec_days_in_month(kind: CalendarKind, y: int, m: int) -> int {
    match kind {
        CalendarKind::Jalali => jalali_month_len(y, m),
        CalendarKind::Gregorian => greg_month_len(y, m),
        CalendarKind::Hijri => hijri_month_len(y, m),
    }
}

/// `days_in_month` stays within machine integers.
pub open spec fn days_in_month_ok(kind: CalendarKind, y: int, m: int) -> bool {
    match kind {
        CalendarKind::Jalali => m == 12 ==> jalali_esfand_ok(y),
        CalendarKind::Gregorian => true,
        CalendarKind::Hijri => m == 12 ==> fits_i32(11 * y) && fits_i32(11 * y + 14),
    }
}

/// Days in a month: in the Jalali calendar 31 in the first six months, 30
/// in the next five, and in Esfand 30 exactly in the leap years of the
/// 33-year cycle (for every year whose 29 Esfand falls from Gregorian year 0
/// on); in the Gregorian calendar by its leap rule; in the Hijri calendar 30
/// and 29 in turn, with 30 in the twelfth month of the 30-year cycle's leap
/// years.
pub fn days_in_month(kind: CalendarKind, year: i32, month: u32) -> (r: u32)
    requires
        days_in_month_ok(kind, year as int, month as int),
    ensures
        r == spec_days_in_month(kind, year as int, month as int),
        kind == CalendarKind::Jalali && 1 <= month <= 12 && j2g_day_count(year as int, 12, 29) >= 0
            ==> r == crate::calendar_laws::jal_len(year as int, month as int),
{
    proof {
        if kind == CalendarKind::Jalali && month == 12 && j2g_day_count(year as int, 12, 29) >= 0 {
            crate::calendar_laws::lemma_esfand_length(year as int);
        }
    }
    match kind {
        CalendarKind::Jalali => jalali_month_length(year, month),
        CalendarKind::Gregorian => gregorian_month_length(year, month),
        CalendarKind::Hijri => hijri_month_length(year, month),
    }
}

// ---------------------------------------------------------------------------
// Conversions through the Gregorian calendar
// ---------------------------------------------------------------------------

pub open spec fn spec_to_gregorian(kind: CalendarKind, date: Date) -> Date {
    match kind {
        CalendarKind::Gregorian => date,
        CalendarKind::Jalali => {
            let g = spec_jalali_to_gregorian(
                date.year as int,
                (date.month as i32) as int,
                (date.day as i32) as int,
            );
            Date { year: g.0 as i32, month: g.1 as u32, day: g.2 as u32 }
        },
        CalendarKind::Hijri => spec_jdn_to_gregorian(
            spec_hijri_to_jdn(date.year as int, date.month as int, date.day as int),
        ),
    }
}

/// `to_gregorian` stays within machine integers.
pub open spec fn to_gregorian_ok(kind: CalendarKind, date: Date) -> bool {
    match kind {
        CalendarKind::Jalali => j2g_ok(
            date.year as int,
            (date.month as i32) as int,
            (date.day as i32) as int,
        ),
        _ => true,
    }
}

pub open spec fn spec_from_gregorian(kind: CalendarKind, date: Date) -> Date {
    match kind {
        CalendarKind::Gregorian => date,
        CalendarKind::Jalali => {
            let j = spec_gregorian_to_jalali(
                date.year as int,
                (date.month as i32) as int,
                (date.day as i32) as int,
            );
            Date { year: j.0 as i32, month: j.1 as u32, day: j.2 as u32 }
        },
        CalendarKind::Hijri => spec_jdn_to_hijri(date_jdn(date)),
    }
}

/// `from_gregorian` stays within machine integers and its month table.
pub open spec fn from_gregorian_ok(kind: CalendarKind, date: Date) -> bool {
    match kind {
        CalendarKind::Jalali => g2j_ok(
            date.year as int,
            (date.month as i32) as int,
            (date.day as i32) as int,
        ),
        CalendarKind::Gregorian => true,
        CalendarKind::Hijri => jdn_to_hijri_ok(date_jdn(date)),
    }
}

pub fn to_gregorian(kind: CalendarKind, date: Date) -> (r: Date)
    requires
        to_gregorian_ok(kind, date),
    ensures
        r == spec_to_gregorian(kind, date),
{
    match kind {
        CalendarKind::Gregorian => date,
        CalendarKind::Jalali => {
            let (year, month, day) = jalali_to_gregorian(
                date.year,
                date.month as i32,
                date.day as i32,
            );
            Date::new(year, month as u32, day as u32)
        },
        CalendarKind::Hijri => jdn_to_gregorian(hijri_to_jdn(date.year, date.month, date.day)),
    }
}

pub fn from_gregorian(kind: CalendarKind, date: Date) -> (r: Date)
    requires
        from_gregorian_ok(kind, date),
    ensures
        r == spec_from_gregorian(kind, date),
{
    match kind {
        CalendarKind::Gregorian => date,
        CalendarKind::Jalali => {
            let (year, month, day) = gregorian_to_jalali(
                date.year,
                date.month as i32,
                date.day as i32,
            );
            Date::new(year, month as u32, day as u32)
        },
        CalendarKind::Hijri => jdn_to_hijri(gregorian_to_jdn(date)),
    }
}

pub open spec fn spec_convert(date: Date, from: CalendarKind, to: CalendarKind) -> Date {
    if from == to {
        date
    } else {
        spec_from_gregorian(to, spec_to_gregorian(from, date))
    }
}

/// `convert` stays within machine integers.
pub open spec fn convert_ok(date: Date, from: CalendarKind, to: CalendarKind) -> bool {
    from == to || (to_gregorian_ok(from, date) && from_gregorian_ok(
        to,
        spec_to_gregorian(from, date),
    ))
}

pub fn convert(date: Date, from: CalendarKind, to: CalendarKind) -> (r: Date)
    requires
        convert_ok(date, from, to),
    ensures
        r == spec_convert(date, from, to),
{
    if from == to {
        date
    } else {
        from_gregorian(to, to_gregorian(from, date))
    }
}

// ---------------------------------------------------------------------------
// Weekdays
// ---------------------------------------------------------------------------

/// Weekday of a Gregorian date, 0 = Saturday … 6 = Friday.
pub open spec fn spec_weekday_saturday(gregorian: Date) -> int {
    (date_jdn(gregorian) % 7 + 2) % 7
}

pub fn weekday_saturday(gregorian: Date) -> (r: i32)
    ensures
        r == spec_weekday_saturday(gregorian),
        0 <= r < 7,
{
    // Julian day modulo: 0=Monday. Convert to Saturday-first index.
    let jdn = gregorian_to_jdn(gregorian);
    let mut rem: i64 = jdn % 7;
    if rem < 0 {
        rem = rem + 7;
    }
    let weekday_monday_zero = rem as i32;
    (weekday_monday_zero + 2) % 7
}

pub fn first_weekday_saturday(kind: CalendarKind, year: i32, month: u32) -> (r: i32)
    requires
        to_gregorian_ok(kind, Date { year, month, day: 1 }),
    ensures
        r == spec_weekday_saturday(spec_to_gregorian(kind, Date { year, month, day: 1 })),
        0 <= r < 7,
{
    let gregorian = to_gregorian(kind, Date::new(year, month, 1));
    weekday_saturday(gregorian)
}

// ---------------------------------------------------------------------------
// Navigation
// ---------------------------------------------------------------------------

/// Months counted from January of year 0, moved by `delta`.
pub open spec fn month_number(year: int, month: int, delta: int) -> int {
    year * 12 + (month - 1) + delta
}

pub fn add_month(kind: CalendarKind, year: &mut i32, month: &mut u32, delta: i32)
    ensures
        *final(year) == (month_number(*old(year) as int, *old(month) as int, delta as int)
            / 12) as i32,
        *final(month) == month_number(*old(year) as int, *old(month) as int, delta as int) % 12
            + 1,
{
    let _ = kind;
    let zero_based: i64 = (*year as i64) * 12 + (*month as i64 - 1) + delta as i64;
    let mut quotient: i64 = zero_based / 12;
    let mut remainder: i64 = zero_based % 12;
    if remainder < 0 {
        quotient = quotient - 1;
        remainder = remainder + 12;
    }
    *year = quotient as i32;
    *month = (remainder + 1) as u32;
}

/// The next Gregorian day.
pub open spec fn greg_next(d: Date) -> Date {
    if (d.day as int) < greg_month_len(d.year as int, d.month as int) {
        Date { day: (d.day + 1) as u32, ..d }
    } else if d.month < 12 {
        Date { month: (d.month + 1) as u32, day: 1, ..d }
    } else {
        Date { year: (d.year + 1) as i32, month: 1, day: 1 }
    }
}

/// The previous Gregorian day.
pub open spec fn greg_prev(d: Date) -> Date {
    if d.day > 1 {
        Date { day: (d.day - 1) as u32, ..d }
    } else if d.month > 1 {
        Date {
            month: (d.month - 1) as u32,
            day: greg_month_len(d.year as int, d.month - 1) as u32,
            ..d
        }
    } else {
        Date { year: (d.year - 1) as i32, month: 12, day: 31 }
    }
}

/// One step does not overflow the year.
pub open spec fn greg_step_ok(d: Date, forward: bool) -> bool {
    if forward {
        (d.day as int) < greg_month_len(d.year as int, d.month as int) || d.month < 12 || d.year
            < i32::MAX
    } else {
        d.day > 1 || d.month > 1 || d.year > i32::MIN
    }
}

pub open spec fn greg_step(d: Date, forward: bool) -> Date {
    if forward { greg_next(d) } else { greg_prev(d) }
}

/// `n` steps forward or backward.
pub open spec fn greg_walk(d: Date, n: nat, forward: bool) -> Date
    decreases n,
{
    if n == 0 {
        d
    } else {
        greg_walk(greg_step(d, forward), (n - 1) as nat, forward)
    }
}

pub open spec fn greg_walk_ok(d: Date, n: nat, forward: bool) -> bool
    decreases n,
{
    n == 0 || (greg_step_ok(d, forward) && greg_walk_ok(
        greg_step(d, forward),
        (n - 1) as nat,
        forward,
    ))
}

pub open spec fn abs_steps(delta: int) -> nat {
    if delta < 0 { (-delta) as nat } else { delta as nat }
}

pub open spec fn spec_add_day(kind: CalendarKind, date: Date, delta: int) -> Date {
    spec_from_gregorian(
        kind,
        greg_walk(spec_to_gregorian(kind, date), abs_steps(delta), delta >= 0),
    )
}

/// `add_day` stays within machine integers.
pub open spec fn add_day_ok(kind: CalendarKind, date: Date, delta: int) -> bool {
    let g = spec_to_gregorian(kind, date);
    &&& to_gregorian_ok(kind, date)
    &&& greg_walk_ok(g, abs_steps(delta), delta >= 0)
    &&& from_gregorian_ok(kind, greg_walk(g, abs_steps(delta), delta >= 0))
}

pub fn add_day(kind: CalendarKind, date: Date, delta: i32) -> (r: Date)
    requires
        add_day_ok(kind, date, delta as int),
    ensures
        r == spec_add_day(kind, date, delta as int),
{
    let mut gregorian = to_gregorian(kind, date);
    let ghost start = gregorian;
    let forward = delta >= 0;
    let count: u32 = if delta < 0 { (0 - delta as i64) as u32 } else { delta as u32 };
    let mut i: u32 = 0;
    while i < count
        invariant
            i <= count,
            count == abs_steps(delta as int),
            forward == (delta >= 0),
            greg_walk(gregorian, (count - i) as nat, forward) == greg_walk(start, count as nat, forward),
            greg_walk_ok(gregorian, (count - i) as nat, forward),
        decreases count - i,
    {
        if forward {
            if gregorian.day < days_in_month(CalendarKind::Gregorian, gregorian.year, gregorian.month) {
                gregorian.day = gregorian.day + 1;
            } else if gregorian.month < 12 {
                gregorian.month = gregorian.month + 1;
                gregorian.day = 1;
            } else {
                gregorian.year = gregorian.year + 1;
                gregorian.month = 1;
                gregorian.day = 1;
            }
        } else if gregorian.day > 1 {
            gregorian.day = gregorian.day - 1;
        } else if gregorian.month > 1 {
            gregorian.month = gregorian.month - 1;
            gregorian.day = days_in_month(CalendarKind::Gregorian, gregorian.year, gregorian.month);
        } else {
            gregorian.year = gregorian.year - 1;
            gregorian.month = 12;
            gregorian.day = days_in_month(CalendarKind::Gregorian, gregorian.year, gregorian.month);
        }
        i = i + 1;
    }
    from_gregorian(kind, gregorian)
}


// ---------------------------------------------------------------------------
// Headings
// ---------------------------------------------------------------------------

/// Month heading: the month's name and the year; the Gregorian calendar
/// writes its own year, the others the given (Persian-digit) year text.
pub open spec fn spec_format_heading(
    kind: CalendarKind,
    year: int,
    month: int,
    persian_year: Seq<char>,
) -> Seq<char> {
    match kind {
        CalendarKind::Gregorian => spec_month_name(kind, month) + " "@ + int_decimal(year),
        _ => spec_month_name(kind, month) + " "@ + persian_year,
    }
}

pub fn format_heading(kind: CalendarKind, year: i32, month: u32, persian_year: &str) -> (r:
    String)
    ensures
        r@ == spec_format_heading(kind, year as int, month as int, persian_year@),
{
    let mut text = String::from_str(month_name(kind, month));
    text.append(" ");
    match kind {
        CalendarKind::Gregorian => {
            let digits = decimal(year as i64);
            text.append(digits.as_str());
        },
        _ => text.append(persian_year),
    }
    text
}

/// Text for the span of a month in another calendar: one month, two months
/// of one year, or two months of two years.
pub open spec fn range_text(
    start_name: Seq<char>,
    start_year: Seq<char>,
    end_name: Seq<char>,
    end_year: Seq<char>,
    same_year: bool,
    same_month: bool,
) -> Seq<char> {
    if same_year && same_month {
        start_name + " "@ + start_year
    } else if same_year {
        start_name + " – "@ + end_name + " "@ + end_year
    } else {
        start_name + " "@ + start_year + " – "@ + end_name + " "@ + end_year
    }
}

/// First and last day of a month, in the target calendar.
pub open spec fn month_span(kind: CalendarKind, year: int, month: int, target: CalendarKind) -> (
    Date,
    Date,
) {
    let start = spec_convert(Date { year: year as i32, month: month as u32, day: 1 }, kind, target);
    let end = spec_convert(
        Date {
            year: year as i32,
            month: month as u32,
            day: spec_days_in_month(kind, year, month) as u32,
        },
        kind,
        target,
    );
    (start, end)
}

/// The arithmetic of `month_range_text` stays within machine integers.
pub open spec fn month_range_ok(kind: CalendarKind, year: i32, month: u32, target: CalendarKind) -> bool {
    &&& days_in_month_ok(kind, year as int, month as int)
    &&& convert_ok(Date { year, month, day: 1 }, kind, target)
    &&& convert_ok(
        Date { year, month, day: spec_days_in_month(kind, year as int, month as int) as u32 },
        kind,
        target,
    )
}

pub open spec fn spec_month_range_text(
    kind: CalendarKind,
    year: int,
    month: int,
    target: CalendarKind,
) -> Seq<char> {
    let (start, end) = month_span(kind, year, month, target);
    range_text(
        spec_month_name(target, start.month as int),
        int_decimal(start.year as int),
        spec_month_name(target, end.month as int),
        int_decimal(end.year as int),
        start.year == end.year,
        start.month == end.month,
    )
}

fn month_bounds(kind: CalendarKind, year: i32, month: u32, target: CalendarKind) -> (r: (
    Date,
    Date,
))
    requires
        month_range_ok(kind, year, month, target),
    ensures
        r == month_span(kind, year as int, month as int, target),
{
    let start = convert(Date::new(year, month, 1), kind, target);
    let end = convert(Date::new(year, month, days_in_month(kind, year, month)), kind, target);
    (start, end)
}

pub fn month_range_text(kind: CalendarKind, year: i32, month: u32, target: CalendarKind) -> (r:
    String)
    requires
        month_range_ok(kind, year, month, target),
    ensures
        r@ == spec_month_range_text(kind, year as int, month as int, target),
{
    let (start, end) = month_bounds(kind, year, month, target);
    let start_name = month_name(target, start.month);
    let end_name = month_name(target, end.month);
    let start_year = decimal(start.year as i64);
    let end_year = decimal(end.year as i64);
    let mut text = String::from_str(start_name);
    if start.year == end.year && start.month == end.month {
        text.append(" ");
        text.append(start_year.as_str());
    } else if start.year == end.year {
        text.append(" – ");
        text.append(end_name);
        text.append(" ");
        text.append(end_year.as_str());
    } else {
        text.append(" ");
        text.append(start_year.as_str());
        text.append(" – ");
        text.append(end_name);
        text.append(" ");
        text.append(end_year.as_str());
    }
    text
}

/// The Persian variant: Persian month names, years rendered by `digits`.
pub fn month_range_text_fa<F: Fn(i32) -> String>(
    kind: CalendarKind,
    year: i32,
    month: u32,
    target: CalendarKind,
    digits: F,
) -> (r: String)
    requires
        month_range_ok(kind, year, month, target),
        forall|y: i32| digits.requires((y,)),
    ensures
        ({
            let (start, end) = month_span(kind, year as int, month as int, target);
            exists|a: String, b: String|
                #![trigger digits.ensures((start.year,), a), digits.ensures((end.year,), b)]
                {
                    &&& digits.ensures((start.year,), a)
                    &&& digits.ensures((end.year,), b)
                    &&& r@ == range_text(
                        spec_month_name_fa(target, start.month as int),
                        a@,
                        spec_month_name_fa(target, end.month as int),
                        b@,
                        start.year == end.year,
                        start.month == end.month,
                    )
                }
        }),
{
    let (start, end) = month_bounds(kind, year, month, target);
    let start_name = month_name_fa(target, start.month);
    let end_name = month_name_fa(target, end.month);
    let mut text = String::from_str(start_name);
    if start.year == end.year && start.month == end.month {
        let a = digits(start.year);
        text.append(" ");
        text.append(a.as_str());
        assert(digits.ensures((end.year,), a));
    } else if start.year == end.year {
        let b = digits(end.year);
        text.append(" – ");
        text.append(end_name);
        text.append(" ");
        text.append(b.as_str());
        assert(digits.ensures((start.year,), b));
    } else {
        let a = digits(start.year);
        let b = digits(end.year);
        text.append(" ");
        text.append(a.as_str());
        text.append(" – ");
        text.append(end_name);
        text.append(" ");
        text.append(b.as_str());
    }
    text
}

} // verus!
