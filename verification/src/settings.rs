//! Named settings, as read from a plain text file.
//!
//! Each line names a setting and gives its values, separated by blanks:
//!
//! ```text
//! display_width 800          # anything after a hash is a comment
//! spinthing 0.0 10.0 -5.5
//! ```
//!
//! A line without a name is skipped; a name set twice has the values of
//! its last line.
use vstd::prelude::*;
use crate::math::Vec3;
use crate::text::chars_of;
use crate::text::parse_fixed;
use crate::text::parse_fixed_spec;
use crate::text::parse_u32;
use crate::text::parse_u32_spec;
use crate::text::same_chars;
use crate::text::split_words;
use crate::text::take_until;
use crate::text::until;
use crate::text::views;
use crate::text::words;

verus! {

/// What stands before the first `#` of a line; the whole line, if it has
/// none.
pub open spec fn before_hash(line: Seq<char>) -> Seq<char> {
    until(line, '#')
}

/// The settings after a line was read: the first word of the line, if
/// there is one before any comment, is set to the words that follow it.
pub open spec fn with_line(items: Map<Seq<char>, Seq<Seq<char>>>, line: Seq<char>) -> Map<
    Seq<char>,
    Seq<Seq<char>>,
> {
    let w = words(before_hash(line));
    if w.len() > 0 {
        items.insert(w[0], w.subrange(1, w.len() as int))
    } else {
        items
    }
}

/// The settings after the lines were read, first to last.
pub open spec fn with_lines(items: Map<Seq<char>, Seq<Seq<char>>>, lines: Seq<String>) -> Map<
    Seq<char>,
    Seq<Seq<char>>,
>
    decreases lines.len(),
{
    if lines.len() == 0 {
        items
    } else {
        with_line(with_lines(items, lines.drop_last()), lines.last()@)
    }
}

/// The words of a line that stand before its first `#`.
pub fn split_line(line: &str) -> (w: Vec<Vec<char>>)
    ensures
        views(w@) == words(before_hash(line@)),
{
    let chars: Vec<char> = chars_of(line);
    let content: Vec<char> = take_until(&chars, '#');
    split_words(&content)
}

/// One setting: a name and its values.
pub struct Entry {
    name: Vec<char>,
    values: Vec<Vec<char>>,
}

/// The settings that a run of entries stands for: each entry sets its name
/// to its values, later entries over earlier ones.
pub closed spec fn entries_map(entries: Seq<Entry>) -> Map<Seq<char>, Seq<Seq<char>>>
    decreases entries.len(),
{
    if entries.len() == 0 {
        Map::empty()
    } else {
        entries_map(entries.drop_last()).insert(entries.last().name@, views(entries.last().values@))
    }
}

/// The last entry for a name is the one that counts.
proof fn lemma_last_entry_wins(entries: Seq<Entry>, name: Seq<char>, at: int)
    requires
        0 <= at < entries.len(),
        entries[at].name@ == name,
        forall|j: int| at < j < entries.len() ==> entries[j].name@ != name,
    ensures
        entries_map(entries).contains_key(name),
        entries_map(entries)[name] == views(entries[at].values@),
    decreases entries.len(),
{
    if at + 1 < entries.len() {
        assert(entries.drop_last()[at] == entries[at]);
        lemma_last_entry_wins(entries.drop_last(), name, at);
    }
}

/// A name that no entry sets is not set.
proof fn lemma_no_entry_no_key(entries: Seq<Entry>, name: Seq<char>)
    requires
        forall|j: int| 0 <= j < entries.len() ==> entries[j].name@ != name,
    ensures
        !entries_map(entries).contains_key(name),
    decreases entries.len(),
{
    if entries.len() > 0 {
        assert forall|j: int| 0 <= j < entries.drop_last().len() implies entries.drop_last()[j].name@
            != name by {
            assert(entries.drop_last()[j] == entries[j]);
        }
        lemma_no_entry_no_key(entries.drop_last(), name);
    }
}

/// Named settings.
pub struct Settings {
    items: Vec<Entry>,
}

impl View for Settings {
    type V = Map<Seq<char>, Seq<Seq<char>>>;

    closed spec fn view(&self) -> Map<Seq<char>, Seq<Seq<char>>> {
        entries_map(self.items@)
    }
}

impl Settings {
    /// The first value of the setting `name` as a number, if the setting
    /// exists, has a value, and the value writes a number of 32 bits.
    pub open spec fn u32_at(&self, name: Seq<char>) -> Option<u32> {
        if self@.contains_key(name) && self@[name].len() > 0 {
            parse_u32_spec(self@[name][0])
        } else {
            None
        }
    }

    /// The first value of the setting `name` as a number with a fraction,
    /// in millionths, if the setting exists, has a value, and the value
    /// writes such a number.
    pub open spec fn fixed_at(&self, name: Seq<char>, k: int) -> Option<i64> {
        if self@.contains_key(name) && 0 <= k < self@[name].len() {
            parse_fixed_spec(self@[name][k])
        } else {
            None
        }
    }

    /// The first three values of the setting `name` as a vector, if the
    /// setting exists and has three values that write numbers.
    pub open spec fn vec3_at(&self, name: Seq<char>) -> Option<Vec3> {
        if self.fixed_at(name, 0).is_some() && self.fixed_at(name, 1).is_some() && self.fixed_at(
            name,
            2,
        ).is_some() {
            Some(
                Vec3 {
                    x: self.fixed_at(name, 0).unwrap(),
                    y: self.fixed_at(name, 1).unwrap(),
                    z: self.fixed_at(name, 2).unwrap(),
                },
            )
        } else {
            None
        }
    }

    /// The settings that the lines of a file give, read first to last.
    pub fn new(lines: &Vec<String>) -> (s: Settings)
        ensures
            s@ == with_lines(Map::empty(), lines@),
    {
        let mut s = Settings { items: Vec::new() };
        let mut i: usize = 0;
        while i < lines.len()
            invariant
                i <= lines.len(),
                s@ == with_lines(Map::empty(), lines@.subrange(0, i as int)),
            decreases lines.len() - i,
        {
            s.insert_line(lines[i].as_str());
            proof {
                assert(lines@.subrange(0, i + 1).drop_last() =~= lines@.subrange(0, i as int));
            }
            i += 1;
        }
        proof {
            assert(lines@.subrange(0, lines.len() as int) =~= lines@);
        }
        s
    }

    /// Reads one more line.
    pub fn insert_line(&mut self, line: &str)
        ensures
            final(self)@ == with_line(old(self)@, line@),
    {
        let mut w: Vec<Vec<char>> = split_line(line);
        if w.len() > 0 {
            let ghost all = views(w@);
            let name: Vec<char> = w.remove(0);
            proof {
                assert(views(w@) =~= all.subrange(1, all.len() as int));
            }
            self.items.push(Entry { name, values: w });
            proof {
                assert(self.items@.drop_last() =~= old(self).items@);
            }
        }
    }

    /// The values of the setting `name`, if it is set.
    pub fn get(&self, name: &str) -> (r: Option<&Vec<Vec<char>>>)
        ensures
            r.is_some() == self@.contains_key(name@),
            r matches Some(v) ==> views(v@) == self@[name@],
    {
        let key: Vec<char> = chars_of(name);
        let mut i: usize = self.items.len();
        while i > 0
            invariant
                i <= self.items.len(),
                key@ == name@,
                forall|j: int| i <= j < self.items.len() ==> self.items[j].name@ != key@,
            decreases i,
        {
            i -= 1;
            if same_chars(&self.items[i].name, &key) {
                proof {
                    lemma_last_entry_wins(self.items@, key@, i as int);
                }
                return Some(&self.items[i].values);
            }
        }
        proof {
            lemma_no_entry_no_key(self.items@, key@);
        }
        None
    }

    /// The first value of the setting `name` as a number, if there is one.
    pub fn find_u32(&self, name: &str) -> (r: Option<u32>)
        ensures
            r == self.u32_at(name@),
    {
        match self.get(name) {
            Some(values) => {
                if values.len() > 0 {
                    assert(views(values@)[0] == values[0]@);
                    parse_u32(&values[0])
                } else {
                    None
                }
            },
            None => None,
        }
    }

    /// The first value of the setting `name` as a number.
    pub fn get_u32(&self, name: &str) -> (r: u32)
        requires
            self.u32_at(name@).is_some(),
        ensures
            Some(r) == self.u32_at(name@),
    {
        self.find_u32(name).unwrap()
    }

    /// The value at place `k` of the setting `name` as a number with a
    /// fraction, in millionths, if there is one.
    pub fn find_fixed(&self, name: &str, k: usize) -> (r: Option<i64>)
        ensures
            r == self.fixed_at(name@, k as int),
    {
        match self.get(name) {
            Some(values) => {
                if k < values.len() {
                    assert(views(values@)[k as int] == values[k as int]@);
                    parse_fixed(&values[k])
                } else {
                    None
                }
            },
            None => None,
        }
    }

    /// The first value of the setting `name` as a number with a fraction,
    /// in millionths.
    pub fn get_f32(&self, name: &str) -> (r: i64)
        requires
            self.fixed_at(name@, 0).is_some(),
        ensures
            Some(r) == self.fixed_at(name@, 0),
    {
        self.find_fixed(name, 0).unwrap()
    }

    /// The first three values of the setting `name` as a vector, if they
    /// are there.
    pub fn find_vec3(&self, name: &str) -> (r: Option<Vec3>)
        ensures
            r == self.vec3_at(name@),
    {
        let x = self.find_fixed(name, 0);
        let y = self.find_fixed(name, 1);
        let z = self.find_fixed(name, 2);
        match (x, y, z) {
            (Some(x), Some(y), Some(z)) => Some(Vec3 { x, y, z }),
            _ => None,
        }
    }

    /// The first three values of the setting `name` as a vector.
    pub fn get_vec3(&self, name: &str) -> (r: Vec3)
        requires
            self.vec3_at(name@).is_some(),
        ensures
            Some(r) == self.vec3_at(name@),
    {
        self.find_vec3(name).unwrap()
    }
}

} // verus!
