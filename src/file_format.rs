use vstd::prelude::*;
use crate::number::{parse_i32, parsed_i32};
use crate::text::{
    chars_of, space_char, lines, lines_of, pieces, same_chars, split_pieces, string_from_chars,
    whitespace,
};

verus! {

/// Why a settings text was refused.
#[derive(Debug, PartialEq, Eq)]
pub enum FormatError {
    /// A line is not of the form `key=value`; the message quotes it.
    InvalidFormat(String),
    InvalidValueType,
}

/// The value of a setting.
#[derive(Debug, PartialEq, Eq)]
pub enum SettingValue {
    String(String),
    Number(i32),
    Boolean(bool),
}

/// `v` is what the text `t` stands for: a number when `t` reads as an `i32`,
/// else a boolean when it reads `true` or `false`, else the text itself.
pub open spec fn denotes(v: SettingValue, t: Seq<char>) -> bool {
    match parsed_i32(t) {
        Some(n) => v == SettingValue::Number(n),
        None => if t == "true"@ {
            v == SettingValue::Boolean(true)
        } else if t == "false"@ {
            v == SettingValue::Boolean(false)
        } else {
            v is String && v->String_0@ == t
        },
    }
}

impl SettingValue {
    /// Reads a value text: as a number, else a boolean, else as text. Every text
    /// reads as one of them.
    pub fn convert_to_valid_type(value: &str) -> (r: Result<SettingValue, FormatError>)
        ensures
            r is Ok,
            denotes(r->Ok_0, value@),
    {
        match parse_i32(value) {
            Some(n) => Ok(SettingValue::Number(n)),
            None => {
                let chars = chars_of(value);
                let t = chars_of("true");
                let f = chars_of("false");
                if same_chars(&chars, &t) {
                    Ok(SettingValue::Boolean(true))
                } else if same_chars(&chars, &f) {
                    Ok(SettingValue::Boolean(false))
                } else {
                    Ok(SettingValue::String(string_from_chars(&chars)))
                }
            },
        }
    }
}

/// `s` without its leading white space.
pub open spec fn trim_start(s: Seq<char>) -> Seq<char>
    decreases s.len(),
{
    if s.len() > 0 && space_char(s[0]) {
        trim_start(s.drop_first())
    } else {
        s
    }
}

/// `s` without its trailing white space.
pub open spec fn trim_end(s: Seq<char>) -> Seq<char>
    decreases s.len(),
{
    if s.len() > 0 && space_char(s.last()) {
        trim_end(s.drop_last())
    } else {
        s
    }
}

/// `s` without white space at either end.
pub open spec fn trim(s: Seq<char>) -> Seq<char> {
    trim_end(trim_start(s))
}

/// The message that refuses the line `line`.
pub open spec fn format_message(line: Seq<char>) -> Seq<char> {
    "Invalid File format! Expect key=value format, receives: "@ + line
}

/// `s` without white space at either end.
pub fn trimmed(s: &Vec<char>) -> (r: Vec<char>)
    ensures
        r@ == trim(s@),
{
    let n = s.len();
    let mut a: usize = 0;
    proof {
        assert(s@.subrange(0, n as int) =~= s@);
    }
    while a < n && whitespace(s[a])
        invariant
            n == s@.len(),
            a <= n,
            trim_start(s@) == trim_start(s@.subrange(a as int, n as int)),
        decreases n - a,
    {
        proof {
            assert(s@.subrange(a as int, n as int).drop_first() =~= s@.subrange(a + 1, n as int));
        }
        a = a + 1;
    }
    proof {
        if a == n {
            assert(s@.subrange(a as int, n as int).len() == 0);
        } else {
            assert(s@.subrange(a as int, n as int)[0] == s@[a as int]);
        }
        assert(trim_start(s@) == s@.subrange(a as int, n as int));
    }
    let mut b: usize = n;
    while b > a && whitespace(s[b - 1])
        invariant
            n == s@.len(),
            a <= b <= n,
            trim_start(s@) == s@.subrange(a as int, n as int),
            trim_end(s@.subrange(a as int, n as int)) == trim_end(s@.subrange(a as int, b as int)),
        decreases b,
    {
        proof {
            assert(s@.subrange(a as int, b as int).drop_last() =~= s@.subrange(a as int, b - 1));
        }
        b = b - 1;
    }
    proof {
        if b > a {
            assert(s@.subrange(a as int, b as int).last() == s@[b - 1]);
        }
        assert(trim(s@) == s@.subrange(a as int, b as int));
    }
    let mut r: Vec<char> = Vec::new();
    let mut k: usize = a;
    while k < b
        invariant
            a <= k <= b <= n == s@.len(),
            r@ == s@.subrange(a as int, k as int),
            trim(s@) == s@.subrange(a as int, b as int),
        decreases b - k,
    {
        r.push(s[k]);
        k = k + 1;
        proof {
            assert(r@ =~= s@.subrange(a as int, k as int));
        }
    }
    r
}

/// A `key=value` line of a settings file.
#[derive(Debug, PartialEq, Eq)]
pub struct Setting {
    pub key: String,
    pub value: SettingValue,
}

/// What reading the line `line` gives: with exactly one `=`, the trimmed key and
/// the value of the trimmed text after it; otherwise a format error quoting it.
pub open spec fn parse_post(line: Seq<char>, r: Result<Setting, FormatError>) -> bool {
    let ps = pieces(line, '=');
    if ps.len() != 2 {
        match r {
            Err(FormatError::InvalidFormat(message)) => message@ == format_message(line),
            _ => false,
        }
    } else {
        match r {
            Ok(setting) => setting.key@ == trim(ps[0]) && denotes(setting.value, trim(ps[1])),
            _ => false,
        }
    }
}

impl Setting {
    /// Reads one `key=value` line.
    pub fn parse(line: &str) -> (r: Result<Setting, FormatError>)
        ensures
            parse_post(line@, r),
    {
        let chars = chars_of(line);
        let ps = split_pieces(&chars, '=');
        if ps.len() != 2 {
            let mut message = chars_of("Invalid File format! Expect key=value format, receives: ");
            let mut rest = chars_of(line);
            message.append(&mut rest);
            Err(FormatError::InvalidFormat(string_from_chars(&message)))
        } else {
            proof {
                assert(ps@[0].deep_view() =~= ps@[0]@);
                assert(ps@[1].deep_view() =~= ps@[1]@);
                assert(ps.deep_view()[0] == ps@[0]@);
                assert(ps.deep_view()[1] == ps@[1]@);
            }
            let key = trimmed(&ps[0]);
            let text = string_from_chars(&trimmed(&ps[1]));
            let value = SettingValue::convert_to_valid_type(text.as_str());
            match value {
                Ok(v) => Ok(Setting { key: string_from_chars(&key), value: v }),
                Err(e) => Err(e),
            }
        }
    }
}

/// The value last stored under `key` among `entries`.
pub open spec fn find(entries: Seq<(String, SettingValue)>, key: Seq<char>) -> Option<SettingValue>
    decreases entries.len(),
{
    if entries.len() == 0 {
        None
    } else if entries.last().0@ == key {
        Some(entries.last().1)
    } else {
        find(entries.drop_last(), key)
    }
}

/// The line `line` is not of the form `key=value`.
pub open spec fn malformed(line: Seq<char>) -> bool {
    pieces(line, '=').len() != 2
}

/// The value text of the last of the lines `ls` whose key is `key`.
pub open spec fn last_text(ls: Seq<Seq<char>>, key: Seq<char>) -> Option<Seq<char>>
    decreases ls.len(),
{
    if ls.len() == 0 {
        None
    } else if trim(pieces(ls.last(), '=')[0]) == key {
        Some(trim(pieces(ls.last(), '=')[1]))
    } else {
        last_text(ls.drop_last(), key)
    }
}

/// Settings by key; a later value for a key replaces an earlier one.
pub struct Config {
    settings: Vec<(String, SettingValue)>,
}

impl Config {
    /// The value stored under `key`, if any.
    pub closed spec fn lookup(&self, key: Seq<char>) -> Option<SettingValue> {
        find(self.settings@, key)
    }

    /// An empty configuration, with room for `capacity` settings if given.
    pub fn new(capacity: Option<usize>) -> (r: Self)
        ensures
            forall|k: Seq<char>| #[trigger] r.lookup(k) is None,
    {
        let room = match capacity {
            Some(n) => n,
            None => 0,
        };
        Config { settings: Vec::with_capacity(room) }
    }

    /// Stores `value` under `key`, replacing what was there.
    pub fn insert(&mut self, key: String, value: SettingValue)
        ensures
            forall|k: Seq<char>| #[trigger] final(self).lookup(k) == if k == key@ {
                Some(value)
            } else {
                old(self).lookup(k)
            },
    {
        let ghost pre = self.settings@;
        self.settings.push((key, value));
        proof {
            assert(self.settings@.drop_last() =~= pre);
        }
    }

    /// Reads a settings text, one `key=value` line at a time; a later line for
    /// a key replaces an earlier one. The first malformed line refuses the
    /// whole text.
    pub fn parse(contents: &str) -> (r: Result<Config, FormatError>)
        ensures
            match r {
                Ok(config) => {
                    &&& forall|i: int| 0 <= i < lines_of(contents@).len() ==> !malformed(
                        #[trigger] lines_of(contents@)[i],
                    )
                    &&& forall|k: Seq<char>| match last_text(lines_of(contents@), k) {
                        None => #[trigger] config.lookup(k) is None,
                        Some(t) => config.lookup(k) matches Some(v) && denotes(v, t),
                    }
                },
                Err(FormatError::InvalidFormat(message)) => exists|i: int| {
                    &&& 0 <= i < lines_of(contents@).len()
                    &&& malformed(#[trigger] lines_of(contents@)[i])
                    &&& forall|j: int| 0 <= j < i ==> !malformed(#[trigger] lines_of(contents@)[j])
                    &&& message@ == format_message(lines_of(contents@)[i])
                },
                Err(FormatError::InvalidValueType) => false,
            },
    {
        let ls = lines(contents);
        let ghost all = ls.deep_view();
        let mut config = Config::new(Some(ls.len()));
        let mut i: usize = 0;
        proof {
            assert(all.subrange(0, 0) =~= Seq::<Seq<char>>::empty());
        }
        while i < ls.len()
            invariant
                all == ls.deep_view(),
                all == lines_of(contents@),
                i <= ls@.len(),
                forall|j: int| 0 <= j < i ==> !malformed(#[trigger] all[j]),
                forall|k: Seq<char>| match last_text(all.subrange(0, i as int), k) {
                    None => #[trigger] config.lookup(k) is None,
                    Some(t) => config.lookup(k) matches Some(v) && denotes(v, t),
                },
            decreases ls@.len() - i,
        {
            proof {
                assert(ls@[i as int].deep_view() =~= ls@[i as int]@);
                assert(all[i as int] == ls@[i as int]@);
                assert(all.subrange(0, i + 1).drop_last() =~= all.subrange(0, i as int));
                assert(all.subrange(0, i + 1).last() == all[i as int]);
            }
            let line = string_from_chars(&ls[i]);
            match Setting::parse(line.as_str()) {
                Ok(setting) => {
                    let Setting { key, value } = setting;
                    config.insert(key, value);
                },
                Err(e) => {
                    return Err(e);
                },
            }
            i = i + 1;
        }
        proof {
            assert(all.subrange(0, ls@.len() as int) =~= all);
        }
        Ok(config)
    }

    fn position(&self, key: &str) -> (r: Option<usize>)
        ensures
            match r {
                Some(i) => i < self.settings@.len() && self.lookup(key@) == Some(self.settings@[i as int].1),
                None => self.lookup(key@) is None,
            },
    {
        let mut i: usize = self.settings.len();
        proof {
            assert(self.settings@.subrange(0, i as int) =~= self.settings@);
        }
        while i > 0
            invariant
                i <= self.settings@.len(),
                find(self.settings@, key@) == find(self.settings@.subrange(0, i as int), key@),
            decreases i,
        {
            proof {
                assert(self.settings@.subrange(0, i as int).drop_last() =~= self.settings@.subrange(0, i - 1));
            }
            if crate::text::same_text(self.settings[i - 1].0.as_str(), key) {
                return Some(i - 1);
            }
            i = i - 1;
        }
        None
    }

    /// The number stored under `key`, if a number is stored there.
    pub fn get_number_setting(&self, key: &str) -> (r: Option<i32>)
        ensures
            r == match self.lookup(key@) {
                Some(SettingValue::Number(n)) => Some(n),
                _ => None::<i32>,
            },
    {
        match self.position(key) {
            Some(i) => match &self.settings[i].1 {
                SettingValue::Number(n) => Some(*n),
                _ => None,
            },
            None => None,
        }
    }

    /// The value stored under `key`, if any.
    pub fn get_setting(&self, key: &str) -> (r: Option<&SettingValue>)
        ensures
            match r {
                Some(v) => self.lookup(key@) == Some(*v),
                None => self.lookup(key@) is None,
            },
    {
        match self.position(key) {
            Some(i) => Some(&self.settings[i].1),
            None => None,
        }
    }
}

} // verus!
