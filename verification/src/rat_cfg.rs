//! The asset dictionary: a flat string-to-string mapping parsed from a
//! line-oriented `key = value` file, read through typed accessors.
//!
//! An accessor fails with `MissingKey` when the key is absent and with
//! `ParseError` when the stored text does not parse as the requested type.

use vstd::prelude::*;

use crate::decimal::Decimal;
use crate::decimal::DecVec2;
use crate::decimal::DecVec3;
use crate::decimal::parse_decimal;
use crate::decimal::parse_decimal_spec;
use crate::decimal::parse_vec2;
use crate::decimal::parse_vec2_spec;
use crate::decimal::parse_vec3;
use crate::decimal::parse_vec3_spec;
use crate::text::parse_i32;
use crate::text::parse_i32_spec;
use crate::text::str_eq;

verus! {

/// One `key = value` pair of an asset dictionary.
pub struct CfgEntry {
    pub key: String,
    pub value: String,
}

/// An asset dictionary: the file it came from and its entries, in file
/// order with later duplicates already folded in.
pub struct RatCfg {
    pub file_path: String,
    pub dict: Vec<CfgEntry>,
}

/// Failure of a dictionary read.
#[derive(Debug, PartialEq, Eq)]
pub enum CfgError {
    /// The requested key is not in the dictionary.
    MissingKey(String),
    /// The text carried here does not parse as the requested type; for a
    /// whole file, the first line without a `=` separator.
    ParseError(String),
}

/// The entries as pairs of character sequences.
pub open spec fn entries_view(es: Seq<CfgEntry>) -> Seq<(Seq<char>, Seq<char>)> {
    es.map_values(|e: CfgEntry| (e.key@, e.value@))
}

/// The value stored under `k`: the first entry with that key.
pub open spec fn lookup_spec(d: Seq<(Seq<char>, Seq<char>)>, k: Seq<char>) -> Option<Seq<char>>
    decreases d.len(),
{
    if d.len() == 0 {
        None
    } else if d[0].0 == k {
        Some(d[0].1)
    } else {
        lookup_spec(d.drop_first(), k)
    }
}

/// Store `v` under `k`: replace the first entry with that key, or append a
/// new entry at the end.
pub open spec fn insert_spec(
    d: Seq<(Seq<char>, Seq<char>)>,
    k: Seq<char>,
    v: Seq<char>,
) -> Seq<(Seq<char>, Seq<char>)>
    decreases d.len(),
{
    if d.len() == 0 {
        seq![(k, v)]
    } else if d[0].0 == k {
        seq![(k, v)] + d.drop_first()
    } else {
        seq![d[0]] + insert_spec(d.drop_first(), k, v)
    }
}

proof fn lemma_lookup_at(d: Seq<(Seq<char>, Seq<char>)>, k: Seq<char>, i: int)
    requires
        0 <= i < d.len(),
        d[i].0 == k,
        forall|j: int| 0 <= j < i ==> (#[trigger] d[j]).0 != k,
    ensures
        lookup_spec(d, k) == Some(d[i].1),
    decreases i,
{
    if i > 0 {
        let t = d.drop_first();
        assert(forall|j: int| 0 <= j < i - 1 ==> (#[trigger] t[j]).0 != k);
        lemma_lookup_at(t, k, i - 1);
    }
}

proof fn lemma_lookup_absent(d: Seq<(Seq<char>, Seq<char>)>, k: Seq<char>)
    requires
        forall|j: int| 0 <= j < d.len() ==> (#[trigger] d[j]).0 != k,
    ensures
        lookup_spec(d, k) == None::<Seq<char>>,
    decreases d.len(),
{
    if d.len() > 0 {
        let t = d.drop_first();
        assert(forall|j: int| 0 <= j < t.len() ==> (#[trigger] t[j]).0 != k);
        lemma_lookup_absent(t, k);
    }
}

proof fn lemma_insert_at(d: Seq<(Seq<char>, Seq<char>)>, k: Seq<char>, v: Seq<char>, i: int)
    requires
        0 <= i < d.len(),
        d[i].0 == k,
        forall|j: int| 0 <= j < i ==> (#[trigger] d[j]).0 != k,
    ensures
        insert_spec(d, k, v) == d.update(i, (k, v)),
    decreases i,
{
    if i == 0 {
        assert(seq![(k, v)] + d.drop_first() =~= d.update(0, (k, v)));
    } else {
        let t = d.drop_first();
        assert(forall|j: int| 0 <= j < i - 1 ==> (#[trigger] t[j]).0 != k);
        lemma_insert_at(t, k, v, i - 1);
        assert(seq![d[0]] + t.update(i - 1, (k, v)) =~= d.update(i, (k, v)));
    }
}

proof fn lemma_insert_absent(d: Seq<(Seq<char>, Seq<char>)>, k: Seq<char>, v: Seq<char>)
    requires
        forall|j: int| 0 <= j < d.len() ==> (#[trigger] d[j]).0 != k,
    ensures
        insert_spec(d, k, v) == d.push((k, v)),
    decreases d.len(),
{
    if d.len() == 0 {
        assert(seq![(k, v)] =~= d.push((k, v)));
    } else {
        let t = d.drop_first();
        assert(forall|j: int| 0 <= j < t.len() ==> (#[trigger] t[j]).0 != k);
        lemma_insert_absent(t, k, v);
        assert(seq![d[0]] + t.push((k, v)) =~= d.push((k, v)));
    }
}

impl RatCfg {
    /// The dictionary's contents, as pairs of character sequences.
    pub open spec fn dict_view(&self) -> Seq<(Seq<char>, Seq<char>)> {
        entries_view(self.dict@)
    }

    /// The value stored under `k`, if any.
    pub open spec fn lookup(&self, k: Seq<char>) -> Option<Seq<char>> {
        lookup_spec(self.dict_view(), k)
    }

    /// Index of the first entry whose key is `key`.
    fn find_key(&self, key: &str) -> (r: Option<usize>)
        ensures
            match r {
                Some(i) => i < self.dict@.len() && self.dict_view()[i as int].0 == key@
                    && self.lookup(key@) == Some(self.dict_view()[i as int].1),
                None => self.lookup(key@) == None::<Seq<char>>,
            },
    {
        let n: usize = self.dict.len();
        let mut i: usize = 0;
        while i < n
            invariant
                n == self.dict@.len(),
                0 <= i <= n,
                forall|j: int| 0 <= j < i ==> (#[trigger] self.dict_view()[j]).0 != key@,
            decreases n - i,
        {
            let e = &self.dict[i];
            if str_eq(e.key.as_str(), key) {
                proof {
                    assert(self.dict_view()[i as int].0 == key@);
                    lemma_lookup_at(self.dict_view(), key@, i as int);
                }
                return Some(i);
            }
            proof {
                assert(self.dict_view()[i as int].0 == e.key@);
            }
            i = i + 1;
        }
        proof {
            lemma_lookup_absent(self.dict_view(), key@);
        }
        None
    }

    /// Store `value` under `key`, replacing an existing entry for that key.
    pub fn set(&mut self, key: String, value: String)
        ensures
            final(self).dict_view() == insert_spec(old(self).dict_view(), key@, value@),
            final(self).file_path == old(self).file_path,
    {
        let n: usize = self.dict.len();
        let mut i: usize = 0;
        while i < n
            invariant
                n == self.dict@.len(),
                0 <= i <= n,
                *self == *old(self),
                forall|j: int| 0 <= j < i ==> (#[trigger] self.dict_view()[j]).0 != key@,
            decreases n - i,
        {
            let hit = {
                let e = &self.dict[i];
                str_eq(e.key.as_str(), key.as_str())
            };
            if hit {
                proof {
                    assert(self.dict_view()[i as int].0 == key@);
                    lemma_insert_at(self.dict_view(), key@, value@, i as int);
                }
                let ghost before = self.dict_view();
                self.dict.remove(i);
                self.dict.insert(i, CfgEntry { key, value });
                proof {
                    assert(self.dict_view() =~= before.update(i as int, (key@, value@)));
                }
                return ;
            }
            proof {
                assert(self.dict_view()[i as int].0 == self.dict@[i as int].key@);
            }
            i = i + 1;
        }
        proof {
            lemma_insert_absent(self.dict_view(), key@, value@);
        }
        let ghost before = self.dict_view();
        self.dict.push(CfgEntry { key, value });
        proof {
            assert(self.dict_view() =~= before.push((key@, value@)));
        }
    }

    /// Read a key's value as text.
    pub fn get_str(&self, key: &str) -> (r: Result<String, CfgError>)
        ensures
            match r {
                Ok(v) => self.lookup(key@) == Some(v@),
                Err(CfgError::MissingKey(k)) => self.lookup(key@) == None::<Seq<char>> && k@
                    == key@,
                Err(CfgError::ParseError(_)) => false,
            },
    {
        match self.find_key(key) {
            Some(i) => {
                let e = &self.dict[i];
                Ok(e.value.clone())
            },
            None => Err(CfgError::MissingKey(String::from_str(key))),
        }
    }

    /// Read a key's value as a signed integer.
    pub fn get_i32(&self, key: &str) -> (r: Result<i32, CfgError>)
        ensures
            match r {
                Ok(n) => self.lookup(key@) matches Some(v) && parse_i32_spec(v) == Some(n),
                Err(CfgError::MissingKey(k)) => self.lookup(key@) == None::<Seq<char>> && k@
                    == key@,
                Err(CfgError::ParseError(t)) => self.lookup(key@) matches Some(v) && v == t@
                    && parse_i32_spec(v) == None::<i32>,
            },
    {
        match self.find_key(key) {
            Some(i) => {
                let e = &self.dict[i];
                match parse_i32(e.value.as_str()) {
                    Some(n) => Ok(n),
                    None => Err(CfgError::ParseError(e.value.clone())),
                }
            },
            None => Err(CfgError::MissingKey(String::from_str(key))),
        }
    }

    /// Read a key's value as a decimal number.
    pub fn get_decimal(&self, key: &str) -> (r: Result<Decimal, CfgError>)
        ensures
            match r {
                Ok(d) => self.lookup(key@) matches Some(v) && parse_decimal_spec(v) == Some(d),
                Err(CfgError::MissingKey(k)) => self.lookup(key@) == None::<Seq<char>> && k@
                    == key@,
                Err(CfgError::ParseError(t)) => self.lookup(key@) matches Some(v) && v == t@
                    && parse_decimal_spec(v) == None::<Decimal>,
            },
    {
        match self.find_key(key) {
            Some(i) => {
                let e = &self.dict[i];
                match parse_decimal(e.value.as_str()) {
                    Some(d) => Ok(d),
                    None => Err(CfgError::ParseError(e.value.clone())),
                }
            },
            None => Err(CfgError::MissingKey(String::from_str(key))),
        }
    }

    /// Read a key's value as a boolean written `true` or `false`.
    pub fn get_bool(&self, key: &str) -> (r: Result<bool, CfgError>)
        ensures
            match r {
                Ok(b) => self.lookup(key@) matches Some(v) && parse_bool_spec(v) == Some(b),
                Err(CfgError::MissingKey(k)) => self.lookup(key@) == None::<Seq<char>> && k@
                    == key@,
                Err(CfgError::ParseError(t)) => self.lookup(key@) matches Some(v) && v == t@
                    && parse_bool_spec(v) == None::<bool>,
            },
    {
        match self.find_key(key) {
            Some(i) => {
                let e = &self.dict[i];
                proof {
                    reveal_strlit("true");
                    reveal_strlit("false");
                }
                if str_eq(e.value.as_str(), "true") {
                    Ok(true)
                } else if str_eq(e.value.as_str(), "false") {
                    Ok(false)
                } else {
                    Err(CfgError::ParseError(e.value.clone()))
                }
            },
            None => Err(CfgError::MissingKey(String::from_str(key))),
        }
    }

    /// Read a key's value as a two-component decimal vector.
    pub fn get_vec2(&self, key: &str) -> (r: Result<DecVec2, CfgError>)
        ensures
            match r {
                Ok(w) => self.lookup(key@) matches Some(v) && parse_vec2_spec(v) == Some(w),
                Err(CfgError::MissingKey(k)) => self.lookup(key@) == None::<Seq<char>> && k@
                    == key@,
                Err(CfgError::ParseError(t)) => self.lookup(key@) matches Some(v) && v == t@
                    && parse_vec2_spec(v) == None::<DecVec2>,
            },
    {
        match self.find_key(key) {
            Some(i) => {
                let e = &self.dict[i];
                match parse_vec2(e.value.as_str()) {
                    Some(w) => Ok(w),
                    None => Err(CfgError::ParseError(e.value.clone())),
                }
            },
            None => Err(CfgError::MissingKey(String::from_str(key))),
        }
    }

    /// Read a key's value as a three-component decimal vector.
    pub fn get_vec3(&self, key: &str) -> (r: Result<DecVec3, CfgError>)
        ensures
            match r {
                Ok(w) => self.lookup(key@) matches Some(v) && parse_vec3_spec(v) == Some(w),
                Err(CfgError::MissingKey(k)) => self.lookup(key@) == None::<Seq<char>> && k@
                    == key@,
                Err(CfgError::ParseError(t)) => self.lookup(key@) matches Some(v) && v == t@
                    && parse_vec3_spec(v) == None::<DecVec3>,
            },
    {
        match self.find_key(key) {
            Some(i) => {
                let e = &self.dict[i];
                match parse_vec3(e.value.as_str()) {
                    Some(w) => Ok(w),
                    None => Err(CfgError::ParseError(e.value.clone())),
                }
            },
            None => Err(CfgError::MissingKey(String::from_str(key))),
        }
    }
}

/// What `get_bool` accepts: exactly the words `true` and `false`.
pub open spec fn parse_bool_spec(v: Seq<char>) -> Option<bool> {
    if v == "true"@ {
        Some(true)
    } else if v == "false"@ {
        Some(false)
    } else {
        None
    }
}

/// A dictionary is a flat mapping: no key occurs twice.
pub open spec fn unique_keys(d: Seq<(Seq<char>, Seq<char>)>) -> bool {
    forall|i: int, j: int| 0 <= i < j < d.len() ==> (#[trigger] d[i]).0 != (#[trigger] d[j]).0
}

/// Every key of `insert_spec(d, k, v)` is `k` or a key of `d`.
proof fn lemma_insert_keys(d: Seq<(Seq<char>, Seq<char>)>, k: Seq<char>, v: Seq<char>)
    ensures
        forall|j: int|
            0 <= j < insert_spec(d, k, v).len() ==> (#[trigger] insert_spec(d, k, v)[j]).0 == k
                || exists|i: int| 0 <= i < d.len() && (#[trigger] d[i]).0 == insert_spec(
                d,
                k,
                v,
            )[j].0,
    decreases d.len(),
{
    let r = insert_spec(d, k, v);
    if d.len() == 0 {
    } else if d[0].0 == k {
        assert forall|j: int| 0 <= j < r.len() implies (#[trigger] r[j]).0 == k || exists|i: int|
            0 <= i < d.len() && (#[trigger] d[i]).0 == r[j].0 by {
            if j > 0 {
                assert(d[j].0 == r[j].0);
            }
        }
    } else {
        let t = d.drop_first();
        lemma_insert_keys(t, k, v);
        assert forall|j: int| 0 <= j < r.len() implies (#[trigger] r[j]).0 == k || exists|i: int|
            0 <= i < d.len() && (#[trigger] d[i]).0 == r[j].0 by {
            if j == 0 {
                assert(d[0].0 == r[0].0);
            } else {
                assert(r[j] == insert_spec(t, k, v)[j - 1]);
                if insert_spec(t, k, v)[j - 1].0 != k {
                    let i = choose|i: int|
                        0 <= i < t.len() && (#[trigger] t[i]).0 == insert_spec(t, k, v)[j - 1].0;
                    assert(d[i + 1].0 == r[j].0);
                }
            }
        }
    }
}

/// Storing a value under a key keeps the keys unique.
pub(crate) proof fn lemma_insert_keeps_unique(d: Seq<(Seq<char>, Seq<char>)>, k: Seq<char>, v: Seq<char>)
    requires
        unique_keys(d),
    ensures
        unique_keys(insert_spec(d, k, v)),
    decreases d.len(),
{
    let r = insert_spec(d, k, v);
    if d.len() == 0 {
    } else if d[0].0 == k {
        assert forall|i: int, j: int| 0 <= i < j < r.len() implies (#[trigger] r[i]).0 != (
        #[trigger] r[j]).0 by {
            assert(r[j].0 == d[j].0);
            if i == 0 {
                assert(d[0].0 != d[j].0);
            } else {
                assert(r[i].0 == d[i].0);
            }
        }
    } else {
        let t = d.drop_first();
        assert forall|i: int, j: int| 0 <= i < j < t.len() implies (#[trigger] t[i]).0 != (
        #[trigger] t[j]).0 by {
            assert(d[i + 1].0 != d[j + 1].0);
        }
        lemma_insert_keeps_unique(t, k, v);
        lemma_insert_keys(t, k, v);
        let rt = insert_spec(t, k, v);
        assert forall|i: int, j: int| 0 <= i < j < r.len() implies (#[trigger] r[i]).0 != (
        #[trigger] r[j]).0 by {
            if i == 0 {
                assert(r[j] == rt[j - 1]);
                if rt[j - 1].0 == k {
                    assert(d[0].0 != k);
                } else {
                    let m = choose|m: int|
                        0 <= m < t.len() && (#[trigger] t[m]).0 == rt[j - 1].0;
                    assert(d[0].0 != d[m + 1].0);
                }
            } else {
                assert(r[i] == rt[i - 1] && r[j] == rt[j - 1]);
                assert(rt[i - 1].0 != rt[j - 1].0);
            }
        }
    }
}

} // verus!
