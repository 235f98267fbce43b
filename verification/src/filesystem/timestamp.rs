//! Timestamps, and their encoding in FAT directory entries.

use vstd::prelude::*;
use crate::text::{decimal, push_decimal, push_two_digits, string_from_chars, two_digits};

verus! {

/// Things that implement this can tell you the current time.
pub trait TimeSource {
    /// Returns the current time. Its zero-indexed month and day are those of
    /// a calendar date, well below 255: writing a timestamp adds one to each
    /// in a byte, which a month or day of 255 would overflow.
    fn get_timestamp(&self) -> (t: Timestamp)
        ensures
            t.zero_indexed_month < 255,
            t.zero_indexed_day < 255,
    ;
}

/// Represents an instant in time, in the local time zone.
#[derive(Copy, Clone, PartialOrd, Ord, PartialEq, Eq, Structural, Debug)]
pub struct Timestamp {
    /// Add 1970 to this field to get the calendar year.
    pub year_since_1970: u8,
    /// Add one to this value to get the calendar month.
    pub zero_indexed_month: u8,
    /// Add one to this value to get the calendar day.
    pub zero_indexed_day: u8,
    /// The number of hours past midnight.
    pub hours: u8,
    /// The number of minutes past the hour.
    pub minutes: u8,
    /// The number of seconds past the minute.
    pub seconds: u8,
}

/// The timestamp that the FAT `date` and `time` words encode. The date word
/// holds the year since 1980 in its top 7 bits, then the month (4 bits) and
/// the day (5 bits); the time word holds hours (5 bits), minutes (6 bits)
/// and seconds divided by two (5 bits). A month or day of zero (as in
/// volume labels) is read as the first month or day.
pub open spec fn fat_timestamp(date: u16, time: u16) -> Timestamp {
    let month = (date / 32) % 16;
    let day = date % 32;
    Timestamp {
        year_since_1970: (10 + date / 512) as u8,
        zero_indexed_month: (if month == 0 { 0 } else { month - 1 }) as u8,
        zero_indexed_day: (if day == 0 { 0 } else { day - 1 }) as u8,
        hours: ((time / 2048) % 32) as u8,
        minutes: ((time / 32) % 64) as u8,
        seconds: ((time * 2) % 64) as u8,
    }
}

/// The FAT time word of a timestamp.
pub open spec fn fat_time_word(t: Timestamp) -> int {
    (t.hours % 32) * 2048 + (t.minutes % 64) * 32 + (t.seconds / 2) % 32
}

/// The FAT date word of a timestamp; years before 1980 are written as 1980.
pub open spec fn fat_date_word(t: Timestamp) -> int {
    (if t.year_since_1970 < 10 { 0 } else { ((t.year_since_1970 - 10) % 128) * 512 })
        + ((t.zero_indexed_month + 1) % 16) * 32 + (t.zero_indexed_day + 1) % 32
}

/// The four bytes of a timestamp in a directory entry: the time word, then
/// the date word, each little-endian.
pub open spec fn fat_bytes(t: Timestamp) -> Seq<u8> {
    seq![
        (fat_time_word(t) % 256) as u8,
        (fat_time_word(t) / 256) as u8,
        (fat_date_word(t) % 256) as u8,
        (fat_date_word(t) / 256) as u8,
    ]
}

/// A timestamp that FAT can store exactly: years 1980 to 2107, real
/// months, days, hours and minutes, and an even number of seconds.
pub open spec fn fat_representable(t: Timestamp) -> bool {
    &&& 10 <= t.year_since_1970 <= 137
    &&& t.zero_indexed_month < 15
    &&& t.zero_indexed_day < 31
    &&& t.hours < 32
    &&& t.minutes < 64
    &&& t.seconds < 64
    &&& t.seconds % 2 == 0
}

/// The calendar date and time that `from_calendar` accepts, and the error
/// it gives for the first field out of range.
pub open spec fn calendar_timestamp(
    year: u16,
    month: u8,
    day: u8,
    hours: u8,
    minutes: u8,
    seconds: u8,
) -> Result<Timestamp, Seq<char>> {
    if !(1970 <= year <= 1970 + 255) {
        Err("Bad year"@)
    } else if !(1 <= month <= 12) {
        Err("Bad month"@)
    } else if !(1 <= day <= 31) {
        Err("Bad day"@)
    } else if hours > 23 {
        Err("Bad hours"@)
    } else if minutes > 59 {
        Err("Bad minutes"@)
    } else if seconds > 59 {
        Err("Bad seconds"@)
    } else {
        Ok(
            Timestamp {
                year_since_1970: (year - 1970) as u8,
                zero_indexed_month: (month - 1) as u8,
                zero_indexed_day: (day - 1) as u8,
                hours,
                minutes,
                seconds,
            },
        )
    }
}

impl Timestamp {
    /// Create a `Timestamp` from the 16-bit FAT date and time fields.
    pub fn from_fat(date: u16, time: u16) -> (t: Timestamp)
        ensures
            t == fat_timestamp(date, time),
    {
        assert(date >> 9 == date / 512) by (bit_vector);
        assert((date >> 5) & 0x000F == (date / 32) % 16) by (bit_vector);
        assert(date & 0x001F == date % 32) by (bit_vector);
        assert((time >> 11) & 0x001F == (time / 2048) % 32) by (bit_vector);
        assert((time >> 5) & 0x003F == (time / 32) % 64) by (bit_vector);
        assert((time << 1) & 0x003F == (time * 2) % 64) by (bit_vector);
        let year: u16 = 1980 + (date >> 9);
        let month: u8 = ((date >> 5) & 0x000F) as u8;
        let day: u8 = (date & 0x001F) as u8;
        let hours: u8 = ((time >> 11) & 0x001F) as u8;
        let minutes: u8 = ((time >> 5) & 0x003F) as u8;
        let seconds: u8 = ((time << 1) & 0x003F) as u8;
        Timestamp {
            year_since_1970: (year - 1970) as u8,
            zero_indexed_month: if month == 0 { 0 } else { month - 1 },
            zero_indexed_day: if day == 0 { 0 } else { day - 1 },
            hours,
            minutes,
            seconds,
        }
    }

    /// Serialize a `Timestamp` to FAT format: the time word, then the date
    /// word, each little-endian.
    pub fn serialize_to_fat(self) -> (data: [u8; 4])
        requires
            self.zero_indexed_month < 255,
            self.zero_indexed_day < 255,
        ensures
            data@ == fat_bytes(self),
    {
        let h: u16 = self.hours as u16;
        let m: u16 = self.minutes as u16;
        let s: u16 = (self.seconds / 2) as u16;
        let hours: u16 = (h << 11) & 0xF800;
        let minutes: u16 = (m << 5) & 0x07E0;
        let seconds: u16 = s & 0x001F;
        let time: u16 = hours | minutes | seconds;
        assert(h < 256 && m < 256 && s < 128 ==> ((h << 11) & 0xF800) | ((m << 5) & 0x07E0) | (s
            & 0x001F) == (h % 32) * 2048 + (m % 64) * 32 + s % 32) by (bit_vector);
        let y: u8 = self.year_since_1970;
        let year: u16 = if y < 10 {
            assert(0u16 & 0x1FF == 0) by (bit_vector);
            0
        } else {
            let yy: u16 = (y - 10) as u16;
            assert(yy < 256 ==> (yy << 9) & 0xFE00 == (yy % 128) * 512) by (bit_vector);
            assert(((yy << 9) & 0xFE00) & 0x1FF == 0) by (bit_vector);
            (yy << 9) & 0xFE00
        };
        let mo: u16 = (self.zero_indexed_month + 1) as u16;
        let d: u16 = (self.zero_indexed_day + 1) as u16;
        let month: u16 = (mo << 5) & 0x01E0;
        let day: u16 = d & 0x001F;
        assert(month & 0xFE1F == 0 && day & 0xFFE0 == 0) by (bit_vector)
            requires
                month == (mo << 5) & 0x01E0,
                day == d & 0x001F,
        ;
        assert(mo < 256 && d < 256 ==> (mo << 5) & 0x01E0 == (mo % 16) * 32 && d & 0x001F == d
            % 32) by (bit_vector);
        assert(year & 0x1FF == 0);
        assert(year | month | day == year + month + day) by (bit_vector)
            requires
                year & 0x1FF == 0,
                month & 0xFE1F == 0,
                day & 0xFFE0 == 0,
        {
        }
        let date: u16 = year | month | day;
        assert(time & 0xFF == time % 256 && time >> 8 == time / 256) by (bit_vector);
        assert(date & 0xFF == date % 256 && date >> 8 == date / 256) by (bit_vector);
        let data: [u8; 4] = [
            (time & 0xFF) as u8,
            (time >> 8) as u8,
            (date & 0xFF) as u8,
            (date >> 8) as u8,
        ];
        assert(data@ =~= fat_bytes(self));
        data
    }

    /// Create a `Timestamp` from year/month/day/hour/minute/second.
    ///
    /// Values should be given as you'd write them (i.e. 1980, 01, 01, 13,
    /// 30, 05) is 1980-Jan-01, 1:30:05pm.
    pub fn from_calendar(
        year: u16,
        month: u8,
        day: u8,
        hours: u8,
        minutes: u8,
        seconds: u8,
    ) -> (r: Result<Timestamp, &'static str>)
        ensures
            match (r, calendar_timestamp(year, month, day, hours, minutes, seconds)) {
                (Ok(t), Ok(u)) => t == u,
                (Err(e), Err(f)) => e@ == f,
                _ => false,
            },
    {
        let year_since_1970: u8 = if 1970 <= year && year <= 1970 + 255 {
            (year - 1970) as u8
        } else {
            return Err("Bad year");
        };
        let zero_indexed_month: u8 = if 1 <= month && month <= 12 {
            month - 1
        } else {
            return Err("Bad month");
        };
        let zero_indexed_day: u8 = if 1 <= day && day <= 31 {
            day - 1
        } else {
            return Err("Bad day");
        };
        if hours > 23 {
            return Err("Bad hours");
        }
        if minutes > 59 {
            return Err("Bad minutes");
        }
        if seconds > 59 {
            return Err("Bad seconds");
        }
        Ok(Timestamp { year_since_1970, zero_indexed_month, zero_indexed_day, hours, minutes, seconds })
    }
}

/// Reading back the FAT words of a timestamp that FAT can store exactly
/// gives the same timestamp.
pub proof fn lemma_fat_words_roundtrip(t: Timestamp)
    requires
        fat_representable(t),
    ensures
        fat_timestamp(fat_date_word(t) as u16, fat_time_word(t) as u16) == t,
{
    let date = fat_date_word(t);
    let time = fat_time_word(t);
    let y = t.year_since_1970 - 10;
    let mo = t.zero_indexed_month + 1;
    let d = t.zero_indexed_day + 1;
    assert(date == y * 512 + mo * 32 + d);
    assert(date / 512 == y && (date / 32) % 16 == mo && date % 32 == d) by (nonlinear_arith)
        requires
            date == y * 512 + mo * 32 + d,
            0 <= y < 128,
            1 <= mo < 16,
            1 <= d < 32,
    ;
    let h = t.hours as int;
    let m = t.minutes as int;
    let s2 = t.seconds as int / 2;
    assert(time == h * 2048 + m * 32 + s2);
    assert((time / 2048) % 32 == h && (time / 32) % 64 == m && (time * 2) % 64 == s2 * 2) by (nonlinear_arith)
        requires
            time == h * 2048 + m * 32 + s2,
            0 <= h < 32,
            0 <= m < 64,
            0 <= s2 < 32,
    ;
}

/// Writing back a timestamp read from FAT words with a non-zero month and
/// day gives the same words.
pub proof fn lemma_timestamp_words_roundtrip(date: u16, time: u16)
    requires
        (date / 32) % 16 != 0,
        date % 32 != 0,
    ensures
        fat_date_word(fat_timestamp(date, time)) == date,
        fat_time_word(fat_timestamp(date, time)) == time,
{
    let t = fat_timestamp(date, time);
    assert(date == (date / 512) * 512 + ((date / 32) % 16) * 32 + date % 32) by (nonlinear_arith)
        requires
            0 <= date < 65536,
    ;
    assert(time == ((time / 2048) % 32) * 2048 + ((time / 32) % 64) * 32 + ((time * 2) % 64) / 2)
        by (nonlinear_arith)
        requires
            0 <= time < 65536,
    ;
}

/// The bytes written for a timestamp hold its FAT words, little-endian.
pub proof fn lemma_fat_bytes_words(t: Timestamp)
    ensures
        crate::bytes::le16(fat_bytes(t), 0) == fat_time_word(t),
        crate::bytes::le16(fat_bytes(t), 2) == fat_date_word(t),
{
    assert(0 <= fat_time_word(t) < 65536);
    assert(0 <= fat_date_word(t) < 65536);
}


/// A timestamp as it is shown: `YYYY-MM-DD hh:mm:ss`, with the calendar
/// year, month and day.
pub open spec fn timestamp_chars(t: Timestamp) -> Seq<char> {
    decimal((t.year_since_1970 + 1970) as nat) + seq!['-'] + two_digits(
        (t.zero_indexed_month + 1) as nat,
    ) + seq!['-'] + two_digits((t.zero_indexed_day + 1) as nat) + seq![' '] + two_digits(
        t.hours as nat,
    ) + seq![':'] + two_digits(t.minutes as nat) + seq![':'] + two_digits(t.seconds as nat)
}

impl Timestamp {
    /// The timestamp as `Display` shows it.
    pub fn to_string(&self) -> (r: String)
        requires
            self.zero_indexed_month < 255,
            self.zero_indexed_day < 255,
        ensures
            r@ == timestamp_chars(*self),
    {
        let mut chars: Vec<char> = Vec::new();
        self.push_chars(&mut chars);
        assert(chars@ =~= timestamp_chars(*self));
        string_from_chars(&chars)
    }

    /// The timestamp as `Debug` shows it: its `Display` form inside
    /// `Timestamp(` and `)`.
    pub fn debug_string(&self) -> (r: String)
        requires
            self.zero_indexed_month < 255,
            self.zero_indexed_day < 255,
        ensures
            r@ == seq!['T', 'i', 'm', 'e', 's', 't', 'a', 'm', 'p', '('] + timestamp_chars(*self)
                + seq![')'],
    {
        let mut chars: Vec<char> = Vec::new();
        chars.push('T');
        chars.push('i');
        chars.push('m');
        chars.push('e');
        chars.push('s');
        chars.push('t');
        chars.push('a');
        chars.push('m');
        chars.push('p');
        chars.push('(');
        let ghost prefix = chars@;
        self.push_chars(&mut chars);
        chars.push(')');
        assert(chars@ =~= seq!['T', 'i', 'm', 'e', 's', 't', 'a', 'm', 'p', '('] + timestamp_chars(
            *self,
        ) + seq![')']);
        string_from_chars(&chars)
    }

    /// Append the `Display` form of the timestamp.
    fn push_chars(&self, out: &mut Vec<char>)
        requires
            self.zero_indexed_month < 255,
            self.zero_indexed_day < 255,
        ensures
            final(out)@ == old(out)@ + timestamp_chars(*self),
    {
        push_decimal(out, self.year_since_1970 as u32 + 1970);
        out.push('-');
        push_two_digits(out, (self.zero_indexed_month + 1) as u32);
        out.push('-');
        push_two_digits(out, (self.zero_indexed_day + 1) as u32);
        out.push(' ');
        push_two_digits(out, self.hours as u32);
        out.push(':');
        push_two_digits(out, self.minutes as u32);
        out.push(':');
        push_two_digits(out, self.seconds as u32);
        assert(final(out)@ =~= old(out)@ + timestamp_chars(*self));
    }
}

} // verus!
