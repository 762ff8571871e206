//! Calendar days as day numbers, and the clock that says which day a write belongs to.
//!
//! A day is identified by its number in the proleptic Gregorian calendar, where
//! January 1 of year 1 is day 1. Consecutive days have consecutive numbers, so
//! order, equality and "the next day" are plain integer arithmetic. The clock
//! is read as a second counted from the Unix epoch, and the shift that makes a
//! habit day of it is plain arithmetic too. Turning a number into text, and
//! finding the local date of a second, is left to `chrono`.

use vstd::prelude::*;

verus! {

/// Number of the earliest representable day, January 1 of year -262143.
pub const MIN_DAY_NUMBER: i32 = -95_746_129;

/// Number of the latest representable day, December 31 of year 262142.
pub const MAX_DAY_NUMBER: i32 = 95_745_399;

/// Seconds by which the clock is shifted back before it is cut to a date: a
/// habit day runs from 02:00 to 02:00 local time.
pub const DAY_OFFSET_SECONDS: i64 = 7_200;

/// Seconds of a day.
pub const SECONDS_PER_DAY: i64 = 86_400;

/// Number of the day on which the Unix epoch begins, January 1 of 1970.
pub const UNIX_EPOCH_DAY_NUMBER: i32 = 719_163;

/// Largest magnitude of a span in seconds: as far as `i64::MAX` milliseconds
/// reach.
pub const MAX_SPAN_SECONDS: i64 = 9_223_372_036_854_775;

/// Largest magnitude of a span of whole days: the most days that fit into
/// `MAX_SPAN_SECONDS` seconds.
pub const MAX_DELTA_DAYS: i64 = 106_751_991_167;

/// A calendar day.
#[derive(Clone, Copy, Debug)]
pub struct Day {
    number: i32,
}

/// Whether `number` is the number of a representable day.
pub open spec fn valid_day_number(number: int) -> bool {
    MIN_DAY_NUMBER <= number <= MAX_DAY_NUMBER
}

impl View for Day {
    type V = int;

    closed spec fn view(&self) -> int {
        self.number as int
    }
}

impl Day {
    #[verifier::type_invariant]
    closed spec fn in_range(self) -> bool {
        valid_day_number(self.number as int)
    }

    /// The day with the given number, if there is one.
    pub fn from_number(number: i32) -> (r: Option<Day>)
        ensures
            r is Some <==> valid_day_number(number as int),
            r matches Some(day) ==> day@ == number,
    {
        if MIN_DAY_NUMBER <= number && number <= MAX_DAY_NUMBER {
            Some(Day { number })
        } else {
            None
        }
    }

    /// The day with the given number, which is known to be one of a day.
    pub(crate) fn of_valid_number(number: i32) -> (r: Day)
        requires
            valid_day_number(number as int),
        ensures
            r@ == number,
    {
        Day { number }
    }

    /// The day's number.
    pub fn number(&self) -> (r: i32)
        ensures
            r == self@,
            valid_day_number(r as int),
    {
        proof {
            use_type_invariant(self);
        }
        self.number
    }

    /// The ISO 8601 text of the day, such as `2024-01-03`.
    pub fn text(&self) -> (r: String)
        ensures
            r@ == date_text(self@),
    {
        date_to_text(self)
    }
}

/// The text that `chrono` prints for the day with the given number.
pub uninterp spec fn date_text(number: int) -> Seq<char>;

/// `chrono::NaiveDate::from_num_days_from_ce_opt` followed by the date's `Display`:
/// the result is the text that `chrono` prints for the day, which depends on the
/// day's number alone. Every number that a `Day` can hold is in `chrono`'s range.
#[verifier::external_body]
fn date_to_text(day: &Day) -> (r: String)
    ensures
        r@ == date_text(day@),
{
    match chrono::NaiveDate::from_num_days_from_ce_opt(day.number) {
        Some(date) => date.to_string(),
        None => String::new(),
    }
}

/// A span of time in whole seconds; negative where it reaches forward.
#[derive(Clone, Copy, Debug)]
pub struct Span {
    seconds: i64,
}

impl View for Span {
    type V = int;

    closed spec fn view(&self) -> int {
        self.seconds as int
    }
}

impl Span {
    /// The empty span.
    pub fn zero() -> (r: Span)
        ensures
            r@ == 0,
    {
        Span { seconds: 0 }
    }

    /// The span of `count` seconds, if it is not too long.
    pub fn seconds(count: i64) -> (r: Option<Span>)
        ensures
            r is Some <==> -MAX_SPAN_SECONDS <= count <= MAX_SPAN_SECONDS,
            r matches Some(span) ==> span@ == count,
    {
        if -MAX_SPAN_SECONDS <= count && count <= MAX_SPAN_SECONDS {
            Some(Span { seconds: count })
        } else {
            None
        }
    }

    /// The span of `count` days, if it is not too long.
    pub fn days(count: i64) -> (r: Option<Span>)
        ensures
            r is Some <==> -MAX_DELTA_DAYS <= count <= MAX_DELTA_DAYS,
            r matches Some(span) ==> span@ == count * SECONDS_PER_DAY,
    {
        if -MAX_DELTA_DAYS <= count && count <= MAX_DELTA_DAYS {
            Some(Span { seconds: count * SECONDS_PER_DAY })
        } else {
            None
        }
    }

    /// The span's length in seconds.
    pub fn whole_seconds(&self) -> (r: i64)
        ensures
            r == self@,
    {
        self.seconds
    }
}

/// What the clock said: how far the moment lies from the Unix epoch, and on
/// which side of it.
#[derive(Clone, Copy, Debug)]
pub struct ClockReading {
    /// Whether the moment lies before the epoch.
    pub before_epoch: bool,
    /// Whole seconds between the moment and the epoch.
    pub seconds: u64,
    /// Nanoseconds beyond the whole seconds, fewer than a second.
    pub nanos: u32,
}

/// The second in which a reading lies, counted from the Unix epoch: a moment
/// before the epoch that is no whole second lies in the second below.
pub open spec fn reading_second(reading: ClockReading) -> int {
    if !reading.before_epoch {
        reading.seconds as int
    } else if reading.nanos == 0 {
        -(reading.seconds as int)
    } else {
        -(reading.seconds as int) - 1
    }
}

/// The second in which a reading lies, if it is one of the 64-bit range.
pub fn epoch_second(reading: ClockReading) -> (r: Option<i64>)
    ensures
        r is Some <==> i64::MIN <= reading_second(reading) <= i64::MAX,
        r matches Some(second) ==> second == reading_second(reading),
{
    let second: i128 = if !reading.before_epoch {
        reading.seconds as i128
    } else if reading.nanos == 0 {
        -(reading.seconds as i128)
    } else {
        -(reading.seconds as i128) - 1
    };
    if second < i64::MIN as i128 || second > i64::MAX as i128 {
        None
    } else {
        Some(second as i64)
    }
}

/// The second that lies the day offset and then `span` before the second `now`.
pub open spec fn shifted_instant(now: int, span: int) -> int {
    now - DAY_OFFSET_SECONDS - span
}

/// The second that lies the day offset and then `span` before the second
/// `now`, if it is one of the 64-bit range.
pub fn habit_instant(now: i64, span: Span) -> (r: Option<i64>)
    ensures
        r is Some <==> i64::MIN <= shifted_instant(now as int, span@) <= i64::MAX,
        r matches Some(second) ==> second == shifted_instant(now as int, span@),
{
    let second: i128 = now as i128 - DAY_OFFSET_SECONDS as i128 - span.seconds as i128;
    if second < i64::MIN as i128 || second > i64::MAX as i128 {
        None
    } else {
        Some(second as i64)
    }
}

/// The number of the day in which the second `second` lies in UTC.
pub open spec fn utc_day_number(second: int) -> int {
    second / (SECONDS_PER_DAY as int) + UNIX_EPOCH_DAY_NUMBER
}

/// Whether `day` can be the local date of the second `second`: it is a day of
/// the calendar, and local time is less than a day off UTC.
pub open spec fn is_local_day_of(day: int, second: int) -> bool {
    &&& valid_day_number(day)
    &&& utc_day_number(second) - 1 <= day <= utc_day_number(second) + 1
}

/// Whether the second `second` has a local date whatever the time zone: its
/// UTC day is neither the first nor the last of the calendar, nor outside it.
pub open spec fn has_local_day(second: int) -> bool {
    MIN_DAY_NUMBER < utc_day_number(second) < MAX_DAY_NUMBER
}

/// `std::time::SystemTime`, a moment of the system clock. Nothing is claimed of
/// what a value holds.
#[verifier::external_type_specification]
#[verifier::external_body]
pub struct ExSystemTime(std::time::SystemTime);

/// `std::time::SystemTime::now`: the moment at which it is called. Nothing is
/// claimed of it.
#[verifier::external_body]
fn system_now() -> (r: std::time::SystemTime) {
    std::time::SystemTime::now()
}

/// `std::time::SystemTime::duration_since` on the Unix epoch: how far the
/// moment lies after the epoch, or, from the error, how far before it. Claimed
/// is only what `Duration::subsec_nanos` documents: the nanoseconds are fewer
/// than a second.
#[verifier::external_body]
fn since_epoch(moment: &std::time::SystemTime) -> (r: ClockReading)
    ensures
        r.nanos < 1_000_000_000,
{
    match moment.duration_since(std::time::UNIX_EPOCH) {
        Ok(after) => ClockReading {
            before_epoch: false,
            seconds: after.as_secs(),
            nanos: after.subsec_nanos(),
        },
        Err(before) => ClockReading {
            before_epoch: true,
            seconds: before.duration().as_secs(),
            nanos: before.duration().subsec_nanos(),
        },
    }
}

/// `chrono::DateTime::from_timestamp`, `chrono::DateTime::with_timezone` to
/// `chrono::Local`, and `chrono::NaiveDateTime::checked_add_offset` of the UTC
/// time and the local offset: the local date of a second counted from the Unix
/// epoch, as a day number taken with `chrono::Datelike::num_days_from_ce`.
/// Which date it is depends on the machine's time zone. Claimed is what holds in
/// every time zone: the date is one of `chrono`'s range, it is the UTC date or a
/// neighbour of it, since an offset is less than a day, and there is a date
/// wherever the UTC date is strictly inside the range.
#[verifier::external_body]
fn local_day_of(second: i64) -> (r: Option<Day>)
    ensures
        r matches Some(day) ==> is_local_day_of(day@, second as int),
        has_local_day(second as int) ==> r is Some,
{
    let local = chrono::DateTime::from_timestamp(second, 0)?.with_timezone(&chrono::Local);
    let date = local.naive_utc().checked_add_offset(*local.offset())?.date();
    Some(Day { number: chrono::Datelike::num_days_from_ce(&date) })
}

/// The habit day of the moment that lies `span` before the second `now`: the
/// local date of `shifted_instant(now, span)`.
pub fn habit_day_at(now: i64, span: Span) -> (r: Option<Day>)
    ensures
        r matches Some(day) ==> is_local_day_of(day@, shifted_instant(now as int, span@)),
        has_local_day(shifted_instant(now as int, span@)) ==> r is Some,
{
    let second = habit_instant(now, span)?;
    local_day_of(second)
}

/// The second in which the clock stands, if it is one of the 64-bit range.
pub fn now() -> (r: Option<i64>) {
    let moment = system_now();
    epoch_second(since_epoch(&moment))
}

/// The current habit day: the local date two hours ago, if the clock gives one.
/// Which day that is depends on the clock and on the machine's time zone.
pub fn today() -> (r: Option<Day>)
    ensures
        r matches Some(day) ==> valid_day_number(day@),
{
    let second = now()?;
    habit_day_at(second, Span::zero())
}

/// The first day of the window that reaches `in_last` back from the current
/// habit day, if the clock gives one.
pub fn window_start(in_last: Span) -> (r: Option<Day>)
    ensures
        r matches Some(day) ==> valid_day_number(day@),
{
    let second = now()?;
    habit_day_at(second, in_last)
}

/// The numbers of the days from `start` to `end`, both counted, in ascending
/// order; none where `end` is earlier than `start`.
pub open spec fn days_from_to(start: int, end: int) -> Seq<int> {
    Seq::new((if end >= start { end - start + 1 } else { 0 }) as nat, |i: int| start + i)
}

/// The numbers of the given days.
pub open spec fn numbers(days: Seq<Day>) -> Seq<int> {
    Seq::new(days.len(), |i: int| days[i]@)
}

/// The days from `start` to `end`, both counted, in ascending order.
pub fn days_between(start: Day, end: Day) -> (r: Vec<Day>)
    ensures
        numbers(r@) == days_from_to(start@, end@),
        valid_day_number(start@),
        valid_day_number(end@),
        r@.len() <= MAX_DAY_NUMBER - MIN_DAY_NUMBER + 1,
{
    let first = start.number();
    let last = end.number();
    let mut days: Vec<Day> = Vec::new();
    let mut number: i32 = first;
    while number <= last
        invariant
            valid_day_number(first as int),
            valid_day_number(last as int),
            first <= number,
            number <= last + 1 || last < first,
            days@.len() == if first <= last { number - first } else { 0 },
            forall|k: int| 0 <= k < days@.len() ==> (#[trigger] days@[k])@ == first + k,
        decreases last + 1 - number,
    {
        days.push(Day::of_valid_number(number));
        number += 1;
    }
    assert(numbers(days@) =~= days_from_to(first as int, last as int));
    days
}

/// Whether `days` is a window that reaches `span` back from the habit day of
/// the second `now`, where its first day is `start` and its last is `end`.
pub open spec fn is_window_from_to(days: Seq<int>, now: int, span: int, start: int, end: int) -> bool {
    &&& is_local_day_of(start, shifted_instant(now, span))
    &&& is_local_day_of(end, shifted_instant(now, 0))
    &&& days == days_from_to(start, end)
}

/// Whether `days` is a window that reaches `span` back from the habit day of
/// the second `now`: the days from the habit day of the moment `span` before
/// `now` to the habit day of `now`.
pub open spec fn is_window(days: Seq<int>, now: int, span: int) -> bool {
    exists|start: int, end: int| #[trigger] is_window_from_to(days, now, span, start, end)
}

/// Whether `days` is a window that reaches `span` back from the habit day of
/// some moment.
pub open spec fn is_window_at_some_time(days: Seq<int>, span: int) -> bool {
    exists|now: int| #[trigger] is_window(days, now, span)
}

/// The days of the window that reaches `in_last` back from the habit day of the
/// second `now`, in ascending order.
pub fn days_within_last_at(now: i64, in_last: Span) -> (r: Option<Vec<Day>>)
    ensures
        r matches Some(days) ==> is_window(numbers(days@), now as int, in_last@),
        r matches Some(days) ==> days@.len() <= MAX_DAY_NUMBER - MIN_DAY_NUMBER + 1,
        has_local_day(shifted_instant(now as int, in_last@)) && has_local_day(
            shifted_instant(now as int, 0),
        ) ==> r is Some,
{
    let start = habit_day_at(now, in_last)?;
    let end = habit_day_at(now, Span::zero())?;
    let days = days_between(start, end);
    assert(is_window_from_to(numbers(days@), now as int, in_last@, start@, end@));
    Some(days)
}

/// The days of the window that reaches `in_last` back from the current habit
/// day, in ascending order, if the clock gives both ends of it.
pub fn days_within_last(in_last: Span) -> (r: Option<Vec<Day>>)
    ensures
        r matches Some(days) ==> is_window_at_some_time(numbers(days@), in_last@),
        r matches Some(days) ==> days@.len() <= MAX_DAY_NUMBER - MIN_DAY_NUMBER + 1,
{
    let second = now()?;
    let days = days_within_last_at(second, in_last)?;
    assert(is_window(numbers(days@), second as int, in_last@));
    Some(days)
}

} // verus!
