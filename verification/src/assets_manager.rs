//! Loading-side logic of the asset pipeline.
//!
//! The functions here take the text of an asset description file, already
//! read from disk by the caller, and produce the dictionary the engine
//! works with. A dictionary file holds one `key = value` pair per line,
//! with whitespace trimmed on both sides of the separator; a line without
//! a separator makes the whole load fail.

use vstd::prelude::*;

use crate::decimal::Decimal;
use crate::decimal::parse_decimal_spec;
use crate::rat_cfg::CfgError;
use crate::rat_cfg::RatCfg;
use crate::rat_cfg::insert_spec;
use crate::rat_cfg::lemma_insert_keeps_unique;
use crate::rat_cfg::unique_keys;
use crate::text::find_char;
use crate::text::idx_of;
use crate::text::lemma_idx_of;
use crate::text::trim;
use crate::text::trim_spec;

verus! {

/// Builds engine resources from parsed asset descriptions.
pub struct AssetsManager {}

/// The lines of a text, separated by newline characters; a trailing
/// newline does not open a final empty line.
pub open spec fn lines_of(s: Seq<char>) -> Seq<Seq<char>>
    decreases s.len(),
{
    if s.len() == 0 {
        Seq::empty()
    } else {
        let j = idx_of(s, '\n');
        if 0 <= j < s.len() {
            seq![s.subrange(0, j)] + lines_of(s.subrange(j + 1, s.len() as int))
        } else {
            seq![s]
        }
    }
}

/// The key and value a dictionary line defines: the trimmed text on
/// either side of the first `=`, the value reaching only to the second
/// `=` when there is one. A line without `=` defines nothing.
pub open spec fn entry_of_line(l: Seq<char>) -> Option<(Seq<char>, Seq<char>)> {
    let j = idx_of(l, '=');
    if 0 <= j < l.len() {
        let rest = l.subrange(j + 1, l.len() as int);
        let j2 = idx_of(rest, '=');
        let raw = if 0 <= j2 < rest.len() {
            rest.subrange(0, j2)
        } else {
            rest
        };
        Some((trim_spec(l.subrange(0, j)), trim_spec(raw)))
    } else {
        None
    }
}

/// Fold the lines of a dictionary file into entries, in order, later
/// values replacing earlier ones under the same key. The first line that
/// defines nothing fails the whole file and is reported.
pub open spec fn parse_lines_spec(ls: Seq<Seq<char>>) -> Result<
    Seq<(Seq<char>, Seq<char>)>,
    Seq<char>,
>
    decreases ls.len(),
{
    if ls.len() == 0 {
        Ok(Seq::empty())
    } else {
        match parse_lines_spec(ls.drop_last()) {
            Err(e) => Err(e),
            Ok(d) => match entry_of_line(ls.last()) {
                None => Err(ls.last()),
                Some(kv) => Ok(insert_spec(d, kv.0, kv.1)),
            },
        }
    }
}

/// What parsing a whole dictionary file yields.
pub open spec fn parse_cfg_spec(content: Seq<char>) -> Result<
    Seq<(Seq<char>, Seq<char>)>,
    Seq<char>,
> {
    parse_lines_spec(lines_of(content))
}

proof fn lemma_parse_lines_err_stays(p: Seq<Seq<char>>, s: Seq<Seq<char>>)
    requires
        parse_lines_spec(p) matches Err(_),
    ensures
        parse_lines_spec(p + s) == parse_lines_spec(p),
    decreases s.len(),
{
    if s.len() == 0 {
        assert(p + s =~= p);
    } else {
        lemma_parse_lines_err_stays(p, s.drop_last());
        assert((p + s).drop_last() =~= p + s.drop_last());
        assert((p + s).len() > 0);
    }
}

/// A dictionary built from a file's lines is a flat mapping: no key
/// occurs twice, later lines having replaced earlier ones.
pub proof fn lemma_parsed_dict_unique(ls: Seq<Seq<char>>)
    ensures
        parse_lines_spec(ls) matches Ok(d) ==> unique_keys(d),
    decreases ls.len(),
{
    if ls.len() > 0 {
        lemma_parsed_dict_unique(ls.drop_last());
        match parse_lines_spec(ls.drop_last()) {
            Ok(d0) => match entry_of_line(ls.last()) {
                Some(kv) => lemma_insert_keeps_unique(d0, kv.0, kv.1),
                None => {},
            },
            Err(_) => {},
        }
    }
}

impl AssetsManager {
    /// Parse the text of a dictionary file into an asset dictionary,
    /// remembering the path it came from. Fails with `ParseError` carrying
    /// the first line that has no `=` separator.
    #[verifier::loop_isolation(false)]
    pub fn parse_cfg(path: &str, content: &str) -> (r: Result<RatCfg, CfgError>)
        ensures
            match r {
                Ok(cfg) => parse_cfg_spec(content@) == Ok::<_, Seq<char>>(cfg.dict_view())
                    && cfg.file_path@ == path@,
                Err(CfgError::ParseError(l)) => parse_cfg_spec(content@) == Err::<
                    Seq<(Seq<char>, Seq<char>)>,
                    _,
                >(l@),
                Err(CfgError::MissingKey(_)) => false,
            },
    {
        let mut cfg = RatCfg { file_path: String::from_str(path), dict: Vec::new() };
        let mut rest: &str = content;
        let ghost mut done: Seq<Seq<char>> = Seq::empty();
        proof {
            assert(lines_of(content@) =~= done + lines_of(rest@));
            assert(cfg.dict_view() =~= Seq::<(Seq<char>, Seq<char>)>::empty());
            assert(parse_lines_spec(done) == Ok::<_, Seq<char>>(cfg.dict_view()));
        }
        while rest.unicode_len() > 0
            invariant
                lines_of(content@) == done + lines_of(rest@),
                parse_lines_spec(done) == Ok::<_, Seq<char>>(cfg.dict_view()),
                cfg.file_path@ == path@,
            decreases rest@.len(),
        {
            let n: usize = rest.unicode_len();
            let ghost old_rest = rest@;
            let (line, new_rest): (&str, &str) = match find_char(rest, '\n') {
                Some(j) => (rest.substring_char(0, j), rest.substring_char(j + 1, n)),
                None => (rest, rest.substring_char(n, n)),
            };
            proof {
                lemma_idx_of(old_rest, '\n');
                if idx_of(old_rest, '\n') < old_rest.len() {
                    assert(lines_of(old_rest) == seq![line@] + lines_of(new_rest@));
                } else {
                    assert(new_rest@ =~= Seq::<char>::empty());
                    assert(lines_of(old_rest) == seq![line@]);
                    assert(lines_of(old_rest) =~= seq![line@] + lines_of(new_rest@));
                }
                assert(done + lines_of(old_rest) =~= done.push(line@) + lines_of(new_rest@));
                assert(done.push(line@).drop_last() =~= done);
                assert(done.push(line@).last() == line@);
            }
            let nl: usize = line.unicode_len();
            match find_char(line, '=') {
                None => {
                    proof {
                        assert(entry_of_line(line@) == None::<(Seq<char>, Seq<char>)>);
                        assert(parse_lines_spec(done.push(line@)) == Err::<
                            Seq<(Seq<char>, Seq<char>)>,
                            _,
                        >(line@));
                        lemma_parse_lines_err_stays(done.push(line@), lines_of(new_rest@));
                        assert(lines_of(content@) =~= done.push(line@) + lines_of(new_rest@));
                    }
                    return Err(CfgError::ParseError(String::from_str(line)));
                },
                Some(j) => {
                    let key = trim(line.substring_char(0, j));
                    let tail = line.substring_char(j + 1, nl);
                    let raw: &str = match find_char(tail, '=') {
                        Some(j2) => tail.substring_char(0, j2),
                        None => tail,
                    };
                    let value = trim(raw);
                    proof {
                        lemma_idx_of(line@, '=');
                        assert(tail@ =~= line@.subrange(j + 1, line@.len() as int));
                        lemma_idx_of(tail@, '=');
                        assert(entry_of_line(line@) == Some((key@, value@)));
                    }
                    cfg.set(String::from_str(key), String::from_str(value));
                    proof {
                        done = done.push(line@);
                    }
                    rest = new_rest;
                },
            }
        }
        proof {
            assert(rest@.len() == 0);
            assert(lines_of(rest@) =~= Seq::<Seq<char>>::empty());
            assert(done + lines_of(rest@) =~= done);
        }
        Ok(cfg)
    }
}

/// What a material description file names: the material itself, its shader
/// pair's base name, and its texture file.
pub struct MaterialDesc {
    pub name: String,
    pub shader: String,
    pub texture: String,
}

/// What an object description file names: the object, its mesh file, its
/// material file, and its weight.
pub struct ObjectDesc {
    pub name: String,
    pub model: String,
    pub material: String,
    pub weight: Decimal,
}

impl AssetsManager {
    /// Read a material description from its dictionary: the keys `name`,
    /// `shader` and `texture`, checked in that order.
    pub fn material_desc(cfg: &RatCfg) -> (r: Result<MaterialDesc, CfgError>)
        ensures
            match r {
                Ok(d) => cfg.lookup("name"@) == Some(d.name@) && cfg.lookup("shader"@) == Some(
                    d.shader@,
                ) && cfg.lookup("texture"@) == Some(d.texture@),
                Err(CfgError::MissingKey(k)) => (cfg.lookup("name"@) == None::<Seq<char>> && k@
                    == "name"@) || (cfg.lookup("name"@) matches Some(_) && cfg.lookup("shader"@)
                    == None::<Seq<char>> && k@ == "shader"@) || (cfg.lookup("name"@) matches Some(_)
                    && cfg.lookup("shader"@) matches Some(_) && cfg.lookup("texture"@) == None::<
                    Seq<char>,
                > && k@ == "texture"@),
                Err(CfgError::ParseError(_)) => false,
            },
    {
        let name = match cfg.get_str("name") {
            Ok(v) => v,
            Err(e) => {
                return Err(e);
            },
        };
        let shader = match cfg.get_str("shader") {
            Ok(v) => v,
            Err(e) => {
                return Err(e);
            },
        };
        let texture = match cfg.get_str("texture") {
            Ok(v) => v,
            Err(e) => {
                return Err(e);
            },
        };
        Ok(MaterialDesc { name, shader, texture })
    }

    /// Read an object description from its dictionary: the keys `name`,
    /// `model`, `material` and `weight`, checked in that order; `weight`
    /// must be a decimal number.
    pub fn object_desc(cfg: &RatCfg) -> (r: Result<ObjectDesc, CfgError>)
        ensures
            match r {
                Ok(d) => cfg.lookup("name"@) == Some(d.name@) && cfg.lookup("model"@) == Some(
                    d.model@,
                ) && cfg.lookup("material"@) == Some(d.material@) && (cfg.lookup("weight"@) matches
                    Some(w) && parse_decimal_spec(w) == Some(d.weight)),
                Err(CfgError::MissingKey(k)) => (cfg.lookup("name"@) == None::<Seq<char>> && k@
                    == "name"@) || (cfg.lookup("name"@) matches Some(_) && cfg.lookup("model"@)
                    == None::<Seq<char>> && k@ == "model"@) || (cfg.lookup("name"@) matches Some(_)
                    && cfg.lookup("model"@) matches Some(_) && cfg.lookup("material"@) == None::<
                    Seq<char>,
                > && k@ == "material"@) || (cfg.lookup("name"@) matches Some(_) && cfg.lookup(
                    "model"@,
                ) matches Some(_) && cfg.lookup("material"@) matches Some(_) && cfg.lookup(
                    "weight"@,
                ) == None::<Seq<char>> && k@ == "weight"@),
                Err(CfgError::ParseError(t)) => cfg.lookup("name"@) matches Some(_) && cfg.lookup(
                    "model"@,
                ) matches Some(_) && cfg.lookup("material"@) matches Some(_) && (cfg.lookup(
                    "weight"@,
                ) matches Some(w) && w == t@ && parse_decimal_spec(w) == None::<Decimal>),
            },
    {
        let name = match cfg.get_str("name") {
            Ok(v) => v,
            Err(e) => {
                return Err(e);
            },
        };
        let model = match cfg.get_str("model") {
            Ok(v) => v,
            Err(e) => {
                return Err(e);
            },
        };
        let material = match cfg.get_str("material") {
            Ok(v) => v,
            Err(e) => {
                return Err(e);
            },
        };
        let weight = match cfg.get_decimal("weight") {
            Ok(v) => v,
            Err(e) => {
                return Err(e);
            },
        };
        Ok(ObjectDesc { name, model, material, weight })
    }
}

} // verus!
