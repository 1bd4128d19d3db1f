//! Times of day, in whole minutes.

use vstd::prelude::*;

use crate::text::{
    chars_of, digit, digits_value, is_digit, is_number, join3, natural, parse_unsigned,
    parsed_unsigned, two_digit_text, two_digits,
};

verus! {

/// A time of day, as minutes since midnight.
#[derive(Clone, Copy, Debug, PartialEq, Eq, PartialOrd, Ord, Hash, Structural)]
pub struct DailyTime(pub u16);

/// Where the first colon stands.
pub open spec fn first_colon(s: Seq<char>, at: int) -> bool {
    0 <= at < s.len() && s[at] == ':' && forall|j: int| 0 <= j < at ==> s[j] != ':'
}

/// What comes of reading a time of day.
pub open spec fn parsed_time(s: Seq<char>) -> Result<DailyTime, Seq<char>> {
    if !s.contains(':') {
        Err("Use HH:MM"@)
    } else {
        let at = choose|at: int| first_colon(s, at);
        match parsed_unsigned(s.take(at), u16::MAX as nat) {
            None => Err("Invalid hour"@),
            Some(hour) => match parsed_unsigned(s.skip(at + 1), u16::MAX as nat) {
                None => Err("Invalid minute"@),
                Some(minute) => if hour > 23 || minute > 59 {
                    Err("Use a time from 00:00 to 23:59"@)
                } else {
                    Ok(DailyTime((hour * 60 + minute) as u16))
                },
            },
        }
    }
}

impl DailyTime {
    /// The time as hours and minutes, two digits each.
    pub open spec fn clock_text(self) -> Seq<char> {
        two_digits(self.0 as nat / 60) + ":"@ + two_digits(self.0 as nat % 60)
    }

    pub fn hour(self) -> (hour: u32)
        ensures
            hour == self.0 / 60,
    {
        self.0 as u32 / 60
    }

    pub fn minute(self) -> (minute: u32)
        ensures
            minute == self.0 % 60,
    {
        self.0 as u32 % 60
    }

    /// Writes the time as hours and minutes.
    pub fn to_string(&self) -> (text: String)
        ensures
            text@ == self.clock_text(),
    {
        let hour = two_digit_text(self.hour() as u64);
        let minute = two_digit_text(self.minute() as u64);
        join3(hour.as_str(), ":", minute.as_str())
    }

    /// Reads a time that is written as hours, a colon and minutes.
    pub fn parse(value: &str) -> (time: Result<DailyTime, String>)
        ensures
            match time {
                Ok(time) => parsed_time(value@) == Ok::<DailyTime, Seq<char>>(time),
                Err(error) => parsed_time(value@) == Err::<DailyTime, Seq<char>>(error@),
            },
    {
        let chars = chars_of(value);
        let mut at: usize = 0;
        while at < chars.len() && chars[at] != ':'
            invariant
                at <= chars.len(),
                forall|j: int| 0 <= j < at ==> chars[j] != ':',
            decreases chars.len() - at,
        {
            at = at + 1;
        }
        if at == chars.len() {
            return Err("Use HH:MM".to_owned());
        }
        proof {
            assert(value@[at as int] == ':');
            assert(first_colon(value@, at as int));
            let chosen = choose|at: int| first_colon(value@, at);
            assert(chosen == at);
        }
        let before = value.substring_char(0, at);
        let after = value.substring_char(at + 1, chars.len());
        assert(before@ =~= value@.take(at as int));
        assert(after@ =~= value@.skip(at + 1));
        let hour: u64 = match parse_unsigned(before, u16::MAX as u64) {
            Some(hour) => hour,
            None => {
                return Err("Invalid hour".to_owned());
            },
        };
        let minute: u64 = match parse_unsigned(after, u16::MAX as u64) {
            Some(minute) => minute,
            None => {
                return Err("Invalid minute".to_owned());
            },
        };
        if hour > 23 || minute > 59 {
            return Err("Use a time from 00:00 to 23:59".to_owned());
        }
        Ok(DailyTime((hour * 60 + minute) as u16))
    }
}

impl std::str::FromStr for DailyTime {
    type Err = String;

    /// Reads a time that is written as hours, a colon and minutes.
    fn from_str(value: &str) -> (time: Result<Self, Self::Err>)
        ensures
            match time {
                Ok(time) => parsed_time(value@) == Ok::<DailyTime, Seq<char>>(time),
                Err(error) => parsed_time(value@) == Err::<DailyTime, Seq<char>>(error@),
            },
    {
        DailyTime::parse(value)
    }
}

proof fn lemma_two_digits(n: nat)
    requires
        n < 100,
    ensures
        two_digits(n) == seq![digit(n as int / 10), digit(n as int % 10)],
        is_number(two_digits(n)),
        digits_value(two_digits(n)) == n,
{
    reveal_with_fuel(natural, 2);
    reveal_with_fuel(digits_value, 3);
    let s = seq![digit(n as int / 10), digit(n as int % 10)];
    assert(two_digits(n) =~= s);
    assert(s.drop_last() =~= seq![digit(n as int / 10)]);
    assert(s.drop_last().drop_last() =~= Seq::<char>::empty());
}

/// Reading back a time of day that was written out gives the same time.
pub proof fn law_time_round_trip(time: DailyTime)
    requires
        time.0 < 1440,
    ensures
        parsed_time(time.clock_text()) == Ok::<DailyTime, Seq<char>>(time),
{
    reveal_strlit(":");
    let hour = time.0 as nat / 60;
    let minute = time.0 as nat % 60;
    lemma_two_digits(hour);
    lemma_two_digits(minute);
    let s = time.clock_text();
    assert(s[2] == ':');
    assert(first_colon(s, 2));
    let at = choose|at: int| first_colon(s, at);
    assert(at == 2);
    assert(s.take(2) =~= two_digits(hour));
    assert(s.skip(3) =~= two_digits(minute));
    assert(is_digit(two_digits(hour)[0]));
    assert(is_digit(two_digits(minute)[0]));
}

/// A time that was read is within a day.
pub proof fn law_parsed_time_is_within_a_day(s: Seq<char>)
    ensures
        parsed_time(s) matches Ok(time) ==> time.0 < 1440,
{
}

/// Hours and minutes around a colon are a time of day up to 23:59; more than that
/// is none, and neither is anything without a colon or without digits around it.
pub proof fn law_times_are_read(hour: Seq<char>, minute: Seq<char>)
    requires
        !hour.contains(':'),
    ensures
        is_number(hour) && is_number(minute) && digits_value(hour) <= 23 && digits_value(minute)
            <= 59 ==> parsed_time(hour + seq![':'] + minute) == Ok::<DailyTime, Seq<char>>(
            DailyTime((digits_value(hour) * 60 + digits_value(minute)) as u16),
        ),
        is_number(hour) && is_number(minute) && (digits_value(hour) > 23 || digits_value(minute)
            > 59) ==> parsed_time(hour + seq![':'] + minute) is Err,
        hour.len() == 0 || minute.len() == 0 ==> parsed_time(hour + seq![':'] + minute) is Err,
        parsed_time(hour) is Err,
{
    let s = hour + seq![':'] + minute;
    let n = hour.len() as int;
    assert(s[n] == ':');
    assert(s.contains(':'));
    assert forall|j: int| 0 <= j < n implies s[j] != ':' by {
        assert(s[j] == hour[j]);
    }
    assert(first_colon(s, n));
    let at = choose|at: int| first_colon(s, at);
    assert(at == n);
    assert(s.take(n) =~= hour);
    assert(s.skip(n + 1) =~= minute);
    if is_number(hour) {
        assert(is_digit(hour[0]));
    }
    if is_number(minute) {
        assert(is_digit(minute[0]));
    }
}

} // verus!
