//! Daily files of collected data: which file a message goes to, when files
//! are rotated, and what a line of a file looks like.

use vstd::prelude::*;

use crate::clock;
use crate::keyed::Keyed;
use crate::text;

verus! {

/// Name of the file of a day: `{path}_{YYYYMMDD}.jsonl`.
pub open spec fn jsonl_name(path: Seq<char>, day: int) -> Seq<char> {
    path + "_"@ + clock::day_stamp(day) + ".jsonl"@
}

fn jsonl_path(path: &str, day: i32) -> (r: String)
    requires
        612411 <= day <= 825915,
    ensures
        r@ == jsonl_name(path@, day as int),
        forall|other: int|
            612411 <= other <= 825915 && other != day ==> #[trigger] jsonl_name(path@, other) != r@,
{
    let stamp = clock::day_text(day);
    let mut r = path.to_string();
    r.append("_");
    r.append(stamp.as_str());
    r.append(".jsonl");
    proof {
        assert forall|other: int|
            612411 <= other <= 825915 && other != day implies #[trigger] jsonl_name(path@, other)
            != r@ by {
            lemma_stamp_in_name(path@, other);
            lemma_stamp_in_name(path@, day as int);
            text::lemma_precedes_irreflexive(stamp@);
        }
    }
    r
}

/// What stands between the path and the extension of a file name is the day.
proof fn lemma_stamp_in_name(path: Seq<char>, day: int)
    ensures
        jsonl_name(path, day).subrange(
            path.len() as int + 1,
            jsonl_name(path, day).len() - 6,
        ) == clock::day_stamp(day),
{
    reveal_strlit("_");
    reveal_strlit(".jsonl");
    assert(jsonl_name(path, day).subrange(
        path.len() as int + 1,
        jsonl_name(path, day).len() - 6,
    ) =~= clock::day_stamp(day));
}

/// A line of a collected file: `{timestamp} {data}`.
pub open spec fn line_text(nanos: i64, data: Seq<char>) -> Seq<char> {
    text::int_text(nanos as int) + " "@ + data
}

/// Writes a line of a collected file, without its line end.
pub fn format_line(nanos: i64, data: &str) -> (r: String)
    ensures
        r@ == line_text(nanos, data@),
{
    let mut r = text::i64_to_text(nanos);
    r.append(" ");
    r.append(data);
    r
}

/// A change from the file of an earlier day to a new one.
#[derive(Debug)]
pub struct Rotation {
    /// File to be closed and compressed.
    pub old: String,
    /// File to be opened.
    pub new: String,
}

/// A file that changes with the UTC day. Data goes to a `.jsonl` file, so that
/// it can be read at once; the file of a past day is compressed.
pub struct RotatingFile {
    day: i32,
    path: String,
}

impl RotatingFile {
    /// The day of the file that is open.
    pub closed spec fn day(&self) -> int {
        self.day as int
    }

    /// The path that the names of all its files start with.
    pub closed spec fn path(&self) -> Seq<char> {
        self.path@
    }

    /// The day is one that a timestamp can have.
    pub closed spec fn wf(&self) -> bool {
        612411 <= self.day <= 825915
    }

    /// A rotating file that starts with the day of a timestamp.
    pub fn new(nanos: i64, path: String) -> (r: Self)
        ensures
            r.wf(),
            r.day() == clock::day_of(nanos),
            r.path() == path@,
    {
        proof {
            clock::lemma_day_range(nanos);
        }
        RotatingFile { day: clock::utc_day(nanos), path }
    }

    /// Name of the file that is open.
    pub fn file_name(&self) -> (r: String)
        requires
            self.wf(),
        ensures
            r@ == jsonl_name(self.path(), self.day()),
    {
        jsonl_path(self.path.as_str(), self.day)
    }

    /// The rotation that is due before data with this timestamp is written.
    pub fn rotation(&self, nanos: i64) -> (r: Option<Rotation>)
        requires
            self.wf(),
        ensures
            r is Some == (clock::day_of(nanos) != self.day()),
            r is Some ==> r->0.old@ == jsonl_name(self.path(), self.day()),
            r is Some ==> r->0.new@ == jsonl_name(self.path(), clock::day_of(nanos)),
            r is Some ==> r->0.old@ != r->0.new@,
    {
        proof {
            clock::lemma_day_range(nanos);
        }
        let day: i32 = clock::utc_day(nanos);
        if day == self.day {
            None
        } else {
            Some(
                Rotation {
                    old: jsonl_path(self.path.as_str(), self.day),
                    new: jsonl_path(self.path.as_str(), day),
                },
            )
        }
    }

    /// Records that the file of a timestamp's day has been opened.
    pub fn rotated(&mut self, nanos: i64)
        requires
            old(self).wf(),
        ensures
            final(self).wf(),
            final(self).day() == clock::day_of(nanos),
            final(self).path() == old(self).path(),
    {
        proof {
            clock::lemma_day_range(nanos);
        }
        self.day = clock::utc_day(nanos);
    }
}

/// What has to be done before a message can be written.
#[derive(Debug)]
pub enum FileStep {
    /// The file of the day is open.
    Ready,
    /// No file of the symbol is open yet: open this one.
    Open(String),
    /// The day has changed.
    Rotate(Rotation),
}

/// Files of all symbols under one directory.
pub struct Writer {
    path: String,
    /// Day of the open file, by symbol in lower case.
    days: Keyed<i32>,
}

/// The path that the names of a symbol's files start with.
pub open spec fn symbol_path(path: Seq<char>, key: Seq<char>) -> Seq<char> {
    path + "/"@ + key
}

impl Writer {
    /// The directory of the files.
    pub closed spec fn path(&self) -> Seq<char> {
        self.path@
    }

    /// Day of the open file, by symbol in lower case.
    pub closed spec fn days(&self) -> Map<Seq<char>, i32> {
        self.days@
    }

    /// At most one file per symbol is open, of a day that a timestamp can have.
    pub closed spec fn wf(&self) -> bool {
        &&& self.days.wf()
        &&& forall|k: Seq<char>| #[trigger]
            self.days@.contains_key(k) ==> 612411 <= self.days@[k] <= 825915
    }

    pub fn new(path: &str) -> (r: Self)
        ensures
            r.wf(),
            r.path() == path@,
            r.days() == Map::<Seq<char>, i32>::empty(),
    {
        Writer { path: path.to_string(), days: Keyed::new() }
    }

    /// The name that a symbol's file is kept under.
    pub fn key(symbol: &str) -> (r: String)
        ensures
            r@ == text::in_lower_case(symbol@),
    {
        text::to_lower(symbol)
    }

    /// What has to be done before a message with this key and timestamp is written.
    pub fn prepare(&self, key: &str, nanos: i64) -> (r: FileStep)
        requires
            self.wf(),
        ensures
            ({
                let path = symbol_path(self.path(), key@);
                let day = clock::day_of(nanos);
                if !self.days().contains_key(key@) {
                    r is Open && r->Open_0@ == jsonl_name(path, day)
                } else if self.days()[key@] == day {
                    r is Ready
                } else {
                    &&& r is Rotate
                    &&& r->Rotate_0.old@ == jsonl_name(path, self.days()[key@] as int)
                    &&& r->Rotate_0.new@ == jsonl_name(path, day)
                    &&& r->Rotate_0.old@ != r->Rotate_0.new@
                }
            }),
    {
        proof {
            clock::lemma_day_range(nanos);
        }
        let mut path = self.path.clone();
        path.append("/");
        path.append(key);
        match self.days.get(key) {
            None => FileStep::Open(RotatingFile::new(nanos, path).file_name()),
            Some(day) => {
                let file = RotatingFile { day, path };
                match file.rotation(nanos) {
                    None => FileStep::Ready,
                    Some(rotation) => FileStep::Rotate(rotation),
                }
            },
        }
    }

    /// Records that the file of a timestamp's day is open for a key.
    pub fn opened(&mut self, key: &str, nanos: i64)
        requires
            old(self).wf(),
        ensures
            final(self).wf(),
            final(self).path() == old(self).path(),
            final(self).days() == old(self).days().insert(key@, clock::day_of(nanos) as i32),
    {
        proof {
            clock::lemma_day_range(nanos);
        }
        let day: i32 = clock::utc_day(nanos);
        self.days.set(key, day);
    }
}

/// What stands behind the last `_`, all of the text where there is none.
pub open spec fn after_last_underscore(s: Seq<char>) -> Seq<char> {
    text::split(s, '_').last()
}

/// The stem of a file name ends in a date of eight digits behind the last `_`,
/// and the date is before `today`.
pub open spec fn has_past_date(stem: Seq<char>, today: Seq<char>) -> bool {
    let date = after_last_underscore(stem);
    date.len() == 8 && text::all_digits(date) && text::precedes(date, today)
}

/// Tells whether a file is a collected file from a day before `today`.
pub fn is_old_file(extension: Option<&str>, stem: &str, today: &str) -> (r: bool)
    ensures
        r == (extension is Some && extension->0@ == "jsonl"@ && has_past_date(stem@, today@)),
{
    match extension {
        None => false,
        Some(extension) => {
            if !text::same_text(extension, "jsonl") {
                return false;
            }
            let parts = text::split_on(stem, '_');
            let ghost names = text::split(stem@, '_');
            assert(names == text::texts(parts@));
            let date = parts[parts.len() - 1];
            assert(date@ == names.last());
            is_date(date) && text::comes_before(date, today)
        },
    }
}

/// Tells whether a text is eight digits.
fn is_date(s: &str) -> (r: bool)
    ensures
        r == (s@.len() == 8 && text::all_digits(s@)),
{
    let chars = text::chars_of(s);
    if chars.len() != 8 {
        return false;
    }
    let mut i: usize = 0;
    while i < 8
        invariant
            chars@ == s@,
            chars@.len() == 8,
            i <= 8,
            forall|j: int| 0 <= j < i ==> text::digit(#[trigger] s@[j]) is Some,
        decreases 8 - i,
    {
        if chars[i] < '0' || chars[i] > '9' {
            assert(text::digit(s@[i as int]) is None);
            return false;
        }
        i += 1;
    }
    true
}

/// The day of a timestamp as it stands in file names. Earlier days have texts
/// before it, later days behind it.
pub fn today_stamp(nanos: i64) -> (r: String)
    ensures
        r@ == clock::day_stamp(clock::day_of(nanos)),
        r@.len() == 8,
        text::all_digits(r@),
        forall|other: i64|
            clock::day_of(other) < clock::day_of(nanos) ==> text::precedes(
                #[trigger] clock::day_stamp(clock::day_of(other)),
                r@,
            ),
        forall|other: i64|
            clock::day_of(other) > clock::day_of(nanos) ==> text::precedes(
                r@,
                #[trigger] clock::day_stamp(clock::day_of(other)),
            ),
{
    proof {
        clock::lemma_day_range(nanos);
        assert forall|other: i64| true implies 612411 <= #[trigger] clock::day_of(other)
            <= 825915 by {
            clock::lemma_day_range(other);
        }
    }
    clock::day_text(clock::utc_day(nanos))
}

/// A line that the collector writes reads back as its timestamp and data.
pub proof fn law_line_reads_back(nanos: i64, data: Seq<char>)
    ensures
        crate::data::collector::line_parts(line_text(nanos, data)) == Some((nanos, data)),
{
    let head = text::int_text(nanos as int);
    let line = line_text(nanos, data);
    reveal_strlit(" ");
    crate::text_laws::lemma_int_text_chars(nanos as int, ' ');
    crate::text_laws::law_integer_round_trip(nanos);
    assert forall|j: int| 0 <= j < head.len() implies line[j] != ' ' by {
        assert(head[j] == line[j]);
    }
    text::lemma_first_at(line, ' ', head.len() as int);
    assert(line.take(head.len() as int) =~= head);
    assert(line.skip(head.len() as int + 1) =~= data);
}

/// Once a file has been opened or rotated for a timestamp, every message of
/// the same day goes to it without another step.
pub proof fn law_one_file_per_day(days: Map<Seq<char>, i32>, key: Seq<char>, first: i64, next: i64)
    requires
        clock::day_of(first) == clock::day_of(next),
    ensures
        ({
            let after = days.insert(key, clock::day_of(first) as i32);
            after.contains_key(key) && after[key] == clock::day_of(next)
        }),
{
    clock::lemma_day_range(first);
}

/// A file that is named by an eight digit date, whatever stands before it, is
/// told to be of a past day exactly where its date is before that of today.
pub proof fn law_daily_files_are_told_by_date(path: Seq<char>, date: Seq<char>, today: Seq<char>)
    requires
        date.len() == 8,
        text::all_digits(date),
    ensures
        has_past_date(path + "_"@ + date, today) == text::precedes(date, today),
        !has_past_date(path + "_"@ + date, date),
{
    reveal_strlit("_");
    let stem = path + "_"@ + date;
    assert(stem =~= path.push('_') + date);
    assert forall|i: int| 0 <= i < date.len() implies date[i] != '_' by {
        assert(text::digit(date[i]) is Some);
    }
    crate::text_laws::lemma_split_push(path, date, '_');
    text::lemma_precedes_irreflexive(date);
}

} // verus!
