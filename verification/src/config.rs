//! Configuration: ordered `KEY=VALUE` bindings.
//!
//! The caller hands over the cleaned lines of a configuration file (one
//! `KEY=VALUE` per line); reading the file itself is I/O and stays outside
//! the library. A later binding of a key shadows an earlier one, as
//! insertion into a map would.

use crate::fixed::Fx;
use crate::parse::{digits_val, fx_text_val, is_char_split, is_digit_seq, parse_fx, parse_usize};
use vstd::prelude::*;

verus! {

/// Why a component could not be built from a configuration: a key that no
/// line binds, a bound value that does not parse as the needed number, or a
/// set of values that violates a structural requirement named by the tag.
#[derive(Debug)]
pub enum ConfigError {
    MissingKey(String),
    BadValue(String),
    BadStructure(String),
}

/// The fixed-point reading of the value bound to `key`, when the key is
/// bound and its value parses.
pub open spec fn fx_key_v(cfg: Seq<(Seq<char>, Seq<char>)>, key: Seq<char>) -> Option<int> {
    match lookup_v(cfg, key) {
        Some(t) => fx_text_val(t),
        None => None,
    }
}

/// The unsigned reading of the value bound to `key`, when the key is bound
/// and its value is a digit string whose value fits a `usize`.
pub open spec fn usize_key_v(cfg: Seq<(Seq<char>, Seq<char>)>, key: Seq<char>) -> Option<int> {
    match lookup_v(cfg, key) {
        Some(t) => if is_digit_seq(t) && digits_val(t) <= usize::MAX as int {
            Some(digits_val(t))
        } else {
            None
        },
        None => None,
    }
}

/// A line that is not exactly one `KEY=VALUE` pair.
#[derive(Debug)]
pub struct ConfigParseError {
    pub line: String,
}

impl ConfigParseError {
    /// Records the offending line.
    pub fn new(line: &str) -> (e: ConfigParseError)
        ensures
            e.line@ == line@,
    {
        ConfigParseError { line: line.to_owned() }
    }
}

/// A key that no line of the configuration binds.
#[derive(Debug)]
pub struct NoKeyError {
    pub key: String,
}

impl NoKeyError {
    /// Records the missing key.
    pub fn new(key: &str) -> (e: NoKeyError)
        ensures
            e.key@ == key@,
    {
        NoKeyError { key: key.to_owned() }
    }
}

/// The value bound to `key`, the latest binding winning.
pub open spec fn lookup_v(items: Seq<(Seq<char>, Seq<char>)>, key: Seq<char>) -> Option<Seq<char>>
    decreases items.len(),
{
    if items.len() == 0 {
        None
    } else if items.last().0 == key {
        Some(items.last().1)
    } else {
        lookup_v(items.drop_last(), key)
    }
}

/// The line has exactly one `=`.
pub open spec fn splittable(s: Seq<char>) -> bool {
    exists|p: int| is_char_split(s, '=', p)
}

/// The key and value of a line with exactly one `=`.
pub open spec fn split_of(s: Seq<char>) -> (Seq<char>, Seq<char>) {
    let p = choose|p: int| is_char_split(s, '=', p);
    (s.take(p), s.skip(p + 1))
}

/// Character-for-character string equality.
fn str_eq(a: &str, b: &str) -> (r: bool)
    ensures
        r == (a@ == b@),
{
    let la = a.unicode_len();
    let lb = b.unicode_len();
    if la != lb {
        proof {
            if a@ == b@ {
                assert(a@.len() == b@.len());
            }
        }
        return false;
    }
    let mut i: usize = 0;
    while i < la
        invariant
            i <= la,
            la == a@.len(),
            la == b@.len(),
            forall|j: int| 0 <= j < i ==> a@[j] == b@[j],
        decreases la - i,
    {
        if a.get_char(i) != b.get_char(i) {
            proof {
                if a@ == b@ {
                    assert(a@[i as int] == b@[i as int]);
                }
            }
            return false;
        }
        i = i + 1;
    }
    proof {
        assert(a@ =~= b@);
    }
    true
}

#[derive(Debug)]
pub struct Config {
    items: Vec<(String, String)>,
}

impl View for Config {
    type V = Seq<(Seq<char>, Seq<char>)>;

    closed spec fn view(&self) -> Seq<(Seq<char>, Seq<char>)> {
        self.items@.map(|i: int, kv: (String, String)| (kv.0@, kv.1@))
    }
}

impl Config {
    /// Splits one line at its `=`; rejects a line without exactly one.
    pub fn parse_line(line: &str) -> (r: Result<(String, String), ConfigParseError>)
        ensures
            r is Ok <==> splittable(line@),
            r matches Ok(kv) ==> (kv.0@, kv.1@) == split_of(line@),
            r matches Err(e) ==> e.line@ == line@,
    {
        let len = line.unicode_len();
        let mut seps: usize = 0;
        let mut sep_pos: usize = 0;
        let mut i: usize = 0;
        while i < len
            invariant
                i <= len,
                len == line@.len(),
                seps == 0 ==> forall|j: int| 0 <= j < i ==> line@[j] != '=',
                seps >= 1 ==> sep_pos < i && line@[sep_pos as int] == '=',
                seps == 1 ==> forall|j: int|
                    0 <= j < i && j != sep_pos as int ==> line@[j] != '=',
                seps >= 2 ==> exists|j: int|
                    0 <= j < i && j != sep_pos as int && #[trigger] line@[j] == '=',
            decreases len - i,
        {
            let c = line.get_char(i);
            proof {
                assert('=' as u32 == 61);
            }
            if (c as u32) == 61 {
                proof {
                    assert(line@[i as int] == '=');
                }
                if seps == 0 {
                    sep_pos = i;
                } else {
                    proof {
                        assert(i as int != sep_pos as int && line@[i as int] == '=');
                    }
                }
                if seps < 2 {
                    seps = seps + 1;
                }
            } else {
                proof {
                    assert(line@[i as int] != '=');
                }
            }
            i = i + 1;
        }
        if seps == 1 {
            proof {
                assert(is_char_split(line@, '=', sep_pos as int));
                let pc = choose|q: int| is_char_split(line@, '=', q);
                assert(is_char_split(line@, '=', pc));
                assert(pc == sep_pos as int);
            }
            let k = line.substring_char(0, sep_pos);
            let v = line.substring_char(sep_pos + 1, len);
            Ok((k.to_owned(), v.to_owned()))
        } else if seps == 0 {
            proof {
                assert forall|p: int| !is_char_split(line@, '=', p) by {}
            }
            Err(ConfigParseError::new(line))
        } else {
            proof {
                assert forall|p: int| !is_char_split(line@, '=', p) by {
                    if is_char_split(line@, '=', p) {
                        let j = choose|j: int|
                            0 <= j < len && j != sep_pos as int && #[trigger] line@[j] == '=';
                        assert(line@[sep_pos as int] == '=');
                        assert(false);
                    }
                }
            }
            Err(ConfigParseError::new(line))
        }
    }

    /// Builds a configuration from cleaned lines, one binding per line.
    /// Succeeds exactly when every line has exactly one `=`; otherwise
    /// reports the first offending line.
    pub fn from_lines(lines: &Vec<String>) -> (r: Result<Config, ConfigParseError>)
        ensures
            r is Ok <==> (forall|i: int|
                0 <= i < lines@.len() ==> splittable((#[trigger] lines@[i])@)),
            r matches Ok(c) ==> c@.len() == lines@.len() && (forall|i: int|
                0 <= i < lines@.len() ==> #[trigger] c@[i] == split_of(lines@[i]@)),
            r matches Err(e) ==> exists|i: int|
                0 <= i < lines@.len() && !splittable((#[trigger] lines@[i])@) && e.line@
                    == lines@[i]@,
    {
        let mut items: Vec<(String, String)> = Vec::new();
        let mut i: usize = 0;
        while i < lines.len()
            invariant
                i <= lines@.len(),
                items@.len() == i,
                forall|j: int| 0 <= j < i ==> splittable((#[trigger] lines@[j])@),
                forall|j: int|
                    0 <= j < i ==> ((#[trigger] items@[j]).0@, items@[j].1@) == split_of(
                        lines@[j]@,
                    ),
            decreases lines@.len() - i,
        {
            match Config::parse_line(lines[i].as_str()) {
                Ok(kv) => {
                    items.push(kv);
                },
                Err(e) => {
                    return Err(e);
                },
            }
            i = i + 1;
        }
        let c = Config { items };
        proof {
            assert(c@.len() == lines@.len());
            assert forall|j: int| 0 <= j < lines@.len() implies #[trigger] c@[j] == split_of(
                lines@[j]@,
            ) by {
                assert(c@[j] == (c.items@[j].0@, c.items@[j].1@));
            }
        }
        Ok(c)
    }

    /// Reads the latest value bound to `key`; reports the key when no line
    /// binds it.
    pub fn get(&self, key: &str) -> (r: Result<String, NoKeyError>)
        ensures
            r matches Ok(v) ==> lookup_v(self@, key@) == Some(v@),
            r is Err <==> lookup_v(self@, key@) is None,
            r matches Err(e) ==> e.key@ == key@,
    {
        let mut i: usize = self.items.len();
        proof {
            assert(self@.take(self.items@.len() as int) =~= self@);
        }
        while i > 0
            invariant
                i <= self.items@.len(),
                self@.len() == self.items@.len(),
                lookup_v(self@.take(i as int), key@) == lookup_v(self@, key@),
            decreases i,
        {
            i = i - 1;
            proof {
                assert(self@.take(i as int + 1).drop_last() =~= self@.take(i as int));
                assert(self@.take(i as int + 1).last() == self@[i as int]);
                assert(self@[i as int] == (self.items@[i as int].0@, self.items@[i as int].1@));
            }
            if str_eq(self.items[i].0.as_str(), key) {
                return Ok(self.items[i].1.clone());
            }
        }
        proof {
            assert(self@.take(0) =~= Seq::<(Seq<char>, Seq<char>)>::empty());
        }
        Err(NoKeyError::new(key))
    }

    /// Reads the value bound to `key` as a fixed-point decimal.
    pub fn get_fx(&self, key: &str) -> (r: Result<Fx, ConfigError>)
        ensures
            r matches Ok(v) ==> fx_key_v(self@, key@) == Some(v@),
            r is Err <==> fx_key_v(self@, key@) is None,
            r matches Err(e) ==> match e {
                ConfigError::MissingKey(k) => k@ == key@ && lookup_v(self@, key@) is None,
                ConfigError::BadValue(k) => k@ == key@ && lookup_v(self@, key@) is Some,
                ConfigError::BadStructure(_) => false,
            },
    {
        match self.get(key) {
            Ok(text) => match parse_fx(text.as_str()) {
                Some(v) => Ok(v),
                None => Err(ConfigError::BadValue(key.to_owned())),
            },
            Err(_) => Err(ConfigError::MissingKey(key.to_owned())),
        }
    }

    /// Reads the value bound to `key` as an unsigned decimal integer.
    pub fn get_usize(&self, key: &str) -> (r: Result<usize, ConfigError>)
        ensures
            r matches Ok(v) ==> usize_key_v(self@, key@) == Some(v as int),
            r is Err <==> usize_key_v(self@, key@) is None,
            r matches Err(e) ==> match e {
                ConfigError::MissingKey(k) => k@ == key@ && lookup_v(self@, key@) is None,
                ConfigError::BadValue(k) => k@ == key@ && lookup_v(self@, key@) is Some,
                ConfigError::BadStructure(_) => false,
            },
    {
        match self.get(key) {
            Ok(text) => match parse_usize(text.as_str()) {
                Some(v) => Ok(v),
                None => Err(ConfigError::BadValue(key.to_owned())),
            },
            Err(_) => Err(ConfigError::MissingKey(key.to_owned())),
        }
    }
}

} // verus!
