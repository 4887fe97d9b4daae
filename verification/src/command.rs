//! The console command language.
//!
//! A command line is split on whitespace into words and read as one of:
//! `obj load <name>`, `obj list`, `obj remove <name>`,
//! `obj moveto <name> <x> <y> <z>`, or `quit`. Words beyond those a command
//! uses are ignored. A missing word aborts the command with `MissingKey`
//! naming the missing argument; an unknown command or operation and an
//! unreadable coordinate are reported likewise, so the console can log a
//! diagnostic instead of crashing.

use vstd::prelude::*;

use crate::assets_manager::lines_of;
use crate::decimal::Decimal;
use crate::decimal::parse_decimal;
use crate::decimal::parse_decimal_spec;
use crate::text::find_char;
use crate::text::find_ws;
use crate::text::idx_of;
use crate::text::idx_of_ws;
use crate::text::is_ws;
use crate::text::is_ws_char;
use crate::text::lemma_idx_of;
use crate::text::lemma_idx_of_ws;
use crate::text::str_eq;

verus! {

/// A parsed console command.
#[derive(Debug, PartialEq, Eq)]
pub enum Command {
    ObjLoad { name: String },
    ObjList,
    ObjRemove { name: String },
    ObjMoveTo { name: String, x: Decimal, y: Decimal, z: Decimal },
    Quit,
}

/// Why a command line was rejected.
#[derive(Debug, PartialEq, Eq)]
pub enum CmdError {
    /// The line ended before the named argument.
    MissingKey(String),
    /// The first word is no command.
    UnknownCommand(String),
    /// The word after `obj` is no operation.
    UnknownOperation(String),
    /// The carried word is not a decimal coordinate.
    ParseError(String),
}

/// Mathematical image of a parsed command.
pub ghost enum CommandV {
    ObjLoad { name: Seq<char> },
    ObjList,
    ObjRemove { name: Seq<char> },
    ObjMoveTo { name: Seq<char>, x: Decimal, y: Decimal, z: Decimal },
    Quit,
}

/// Mathematical image of a command rejection.
pub ghost enum CmdErrorV {
    MissingKey(Seq<char>),
    UnknownCommand(Seq<char>),
    UnknownOperation(Seq<char>),
    ParseError(Seq<char>),
}

/// The whitespace-separated words of a line, in order.
pub open spec fn tokens_spec(s: Seq<char>) -> Seq<Seq<char>>
    decreases s.len(),
{
    if s.len() == 0 {
        Seq::empty()
    } else if is_ws(s[0]) {
        tokens_spec(s.drop_first())
    } else {
        let e = idx_of_ws(s);
        if 0 < e <= s.len() {
            seq![s.subrange(0, e)] + tokens_spec(s.subrange(e, s.len() as int))
        } else {
            seq![s]
        }
    }
}

/// What reading a command line yields.
pub open spec fn parse_command_spec(s: Seq<char>) -> Result<CommandV, CmdErrorV> {
    let ts = tokens_spec(s);
    if ts.len() == 0 {
        Err(CmdErrorV::MissingKey("command"@))
    } else if ts[0] == "obj"@ {
        if ts.len() == 1 {
            Err(CmdErrorV::MissingKey("operation"@))
        } else if ts[1] == "load"@ {
            if ts.len() == 2 {
                Err(CmdErrorV::MissingKey("name"@))
            } else {
                Ok(CommandV::ObjLoad { name: ts[2] })
            }
        } else if ts[1] == "list"@ {
            Ok(CommandV::ObjList)
        } else if ts[1] == "remove"@ {
            if ts.len() == 2 {
                Err(CmdErrorV::MissingKey("name"@))
            } else {
                Ok(CommandV::ObjRemove { name: ts[2] })
            }
        } else if ts[1] == "moveto"@ {
            if ts.len() == 2 {
                Err(CmdErrorV::MissingKey("name"@))
            } else if ts.len() == 3 {
                Err(CmdErrorV::MissingKey("x"@))
            } else if ts.len() == 4 {
                Err(CmdErrorV::MissingKey("y"@))
            } else if ts.len() == 5 {
                Err(CmdErrorV::MissingKey("z"@))
            } else {
                match (
                    parse_decimal_spec(ts[3]),
                    parse_decimal_spec(ts[4]),
                    parse_decimal_spec(ts[5]),
                ) {
                    (None, _, _) => Err(CmdErrorV::ParseError(ts[3])),
                    (Some(_), None, _) => Err(CmdErrorV::ParseError(ts[4])),
                    (Some(_), Some(_), None) => Err(CmdErrorV::ParseError(ts[5])),
                    (Some(x), Some(y), Some(z)) => Ok(
                        CommandV::ObjMoveTo { name: ts[2], x, y, z },
                    ),
                }
            }
        } else {
            Err(CmdErrorV::UnknownOperation(ts[1]))
        }
    } else if ts[0] == "quit"@ {
        Ok(CommandV::Quit)
    } else {
        Err(CmdErrorV::UnknownCommand(ts[0]))
    }
}

/// The words of the line as owned strings.
#[verifier::loop_isolation(false)]
pub fn tokenize(s: &str) -> (r: Vec<String>)
    ensures
        r@.map_values(|t: String| t@) == tokens_spec(s@),
{
    let mut out: Vec<String> = Vec::new();
    let mut rest: &str = s;
    proof {
        assert(out@.map_values(|t: String| t@) =~= Seq::<Seq<char>>::empty());
        assert(tokens_spec(s@) =~= out@.map_values(|t: String| t@) + tokens_spec(rest@));
    }
    while rest.unicode_len() > 0
        invariant
            tokens_spec(s@) == out@.map_values(|t: String| t@) + tokens_spec(rest@),
        decreases rest@.len(),
    {
        let n: usize = rest.unicode_len();
        let ghost old_rest = rest@;
        if is_ws_char(rest.get_char(0)) {
            rest = rest.substring_char(1, n);
            proof {
                assert(rest@ =~= old_rest.drop_first());
            }
        } else {
            proof {
                lemma_idx_of_ws(old_rest);
            }
            let e: usize = find_ws(rest);
            let tok = rest.substring_char(0, e);
            let ghost before = out@.map_values(|t: String| t@);
            out.push(String::from_str(tok));
            rest = rest.substring_char(e, n);
            proof {
                assert(out@.map_values(|t: String| t@) =~= before.push(tok@));
                assert(0 < e <= old_rest.len());
                assert(tokens_spec(old_rest) == seq![old_rest.subrange(0, e as int)] + tokens_spec(
                    old_rest.subrange(e as int, n as int),
                ));
                assert(before + tokens_spec(old_rest) =~= before.push(tok@) + tokens_spec(rest@));
            }
        }
    }
    proof {
        assert(tokens_spec(rest@) =~= Seq::<Seq<char>>::empty());
        assert(out@.map_values(|t: String| t@) + tokens_spec(rest@) =~= out@.map_values(
            |t: String| t@,
        ));
    }
    out
}

/// Read a command line, exactly as `parse_command_spec` describes.
pub fn parse_command(s: &str) -> (r: Result<Command, CmdError>)
    ensures
        match r {
            Ok(Command::ObjLoad { name }) => parse_command_spec(s@) == Ok::<_, CmdErrorV>(
                CommandV::ObjLoad { name: name@ },
            ),
            Ok(Command::ObjList) => parse_command_spec(s@) == Ok::<_, CmdErrorV>(CommandV::ObjList),
            Ok(Command::ObjRemove { name }) => parse_command_spec(s@) == Ok::<_, CmdErrorV>(
                CommandV::ObjRemove { name: name@ },
            ),
            Ok(Command::ObjMoveTo { name, x, y, z }) => parse_command_spec(s@) == Ok::<
                _,
                CmdErrorV,
            >(CommandV::ObjMoveTo { name: name@, x, y, z }),
            Ok(Command::Quit) => parse_command_spec(s@) == Ok::<_, CmdErrorV>(CommandV::Quit),
            Err(CmdError::MissingKey(w)) => parse_command_spec(s@) == Err::<CommandV, _>(
                CmdErrorV::MissingKey(w@),
            ),
            Err(CmdError::UnknownCommand(w)) => parse_command_spec(s@) == Err::<CommandV, _>(
                CmdErrorV::UnknownCommand(w@),
            ),
            Err(CmdError::UnknownOperation(w)) => parse_command_spec(s@) == Err::<CommandV, _>(
                CmdErrorV::UnknownOperation(w@),
            ),
            Err(CmdError::ParseError(w)) => parse_command_spec(s@) == Err::<CommandV, _>(
                CmdErrorV::ParseError(w@),
            ),
        },
{
    let mut ts = tokenize(s);
    let len: usize = ts.len();
    if len == 0 {
        return Err(CmdError::MissingKey(String::from_str("command")));
    }
    if str_eq(ts[0].as_str(), "obj") {
        if len == 1 {
            return Err(CmdError::MissingKey(String::from_str("operation")));
        }
        if str_eq(ts[1].as_str(), "load") {
            if len == 2 {
                return Err(CmdError::MissingKey(String::from_str("name")));
            }
            let name = ts.remove(2);
            return Ok(Command::ObjLoad { name });
        }
        if str_eq(ts[1].as_str(), "list") {
            return Ok(Command::ObjList);
        }
        if str_eq(ts[1].as_str(), "remove") {
            if len == 2 {
                return Err(CmdError::MissingKey(String::from_str("name")));
            }
            let name = ts.remove(2);
            return Ok(Command::ObjRemove { name });
        }
        if str_eq(ts[1].as_str(), "moveto") {
            if len == 2 {
                return Err(CmdError::MissingKey(String::from_str("name")));
            }
            if len == 3 {
                return Err(CmdError::MissingKey(String::from_str("x")));
            }
            if len == 4 {
                return Err(CmdError::MissingKey(String::from_str("y")));
            }
            if len == 5 {
                return Err(CmdError::MissingKey(String::from_str("z")));
            }
            let x = match parse_decimal(ts[3].as_str()) {
                Some(v) => v,
                None => {
                    let w = ts.remove(3);
                    return Err(CmdError::ParseError(w));
                },
            };
            let y = match parse_decimal(ts[4].as_str()) {
                Some(v) => v,
                None => {
                    let w = ts.remove(4);
                    return Err(CmdError::ParseError(w));
                },
            };
            let z = match parse_decimal(ts[5].as_str()) {
                Some(v) => v,
                None => {
                    let w = ts.remove(5);
                    return Err(CmdError::ParseError(w));
                },
            };
            let name = ts.remove(2);
            return Ok(Command::ObjMoveTo { name, x, y, z });
        }
        let op = ts.remove(1);
        return Err(CmdError::UnknownOperation(op));
    }
    if str_eq(ts[0].as_str(), "quit") {
        return Ok(Command::Quit);
    }
    let cmd = ts.remove(0);
    Err(CmdError::UnknownCommand(cmd))
}

/// Whether a script line is executed: not empty and no `;` comment.
pub open spec fn is_command_line(l: Seq<char>) -> bool {
    l.len() > 0 && l[0] != ';'
}

/// The lines of a command script that are executed, in order: comment
/// lines and empty lines fall away.
pub open spec fn script_filter(ls: Seq<Seq<char>>) -> Seq<Seq<char>>
    decreases ls.len(),
{
    if ls.len() == 0 {
        Seq::empty()
    } else {
        script_filter(ls.drop_last()) + if is_command_line(ls.last()) {
            seq![ls.last()]
        } else {
            Seq::<Seq<char>>::empty()
        }
    }
}

/// The executable lines of a command script, exactly as `script_filter`
/// picks them from the file's lines.
#[verifier::loop_isolation(false)]
pub fn script_commands(content: &str) -> (r: Vec<String>)
    ensures
        r@.map_values(|t: String| t@) == script_filter(lines_of(content@)),
{
    let mut out: Vec<String> = Vec::new();
    let mut rest: &str = content;
    let ghost mut done: Seq<Seq<char>> = Seq::empty();
    proof {
        assert(lines_of(content@) =~= done + lines_of(rest@));
        assert(out@.map_values(|t: String| t@) =~= script_filter(done));
    }
    while rest.unicode_len() > 0
        invariant
            lines_of(content@) == done + lines_of(rest@),
            out@.map_values(|t: String| t@) == script_filter(done),
        decreases rest@.len(),
    {
        let n: usize = rest.unicode_len();
        let ghost old_rest = rest@;
        let (line, new_rest): (&str, &str) = match find_char(rest, '\n') {
            Some(j) => (rest.substring_char(0, j), rest.substring_char(j + 1, n)),
            None => (rest, rest.substring_char(n, n)),
        };
        proof {
            lemma_idx_of(old_rest, '\n');
            if idx_of(old_rest, '\n') < old_rest.len() {
                assert(lines_of(old_rest) == seq![line@] + lines_of(new_rest@));
            } else {
                assert(new_rest@ =~= Seq::<char>::empty());
                assert(lines_of(old_rest) == seq![line@]);
                assert(lines_of(old_rest) =~= seq![line@] + lines_of(new_rest@));
            }
            assert(done + lines_of(old_rest) =~= done.push(line@) + lines_of(new_rest@));
            assert(done.push(line@).drop_last() =~= done);
            assert(done.push(line@).last() == line@);
        }
        let nl: usize = line.unicode_len();
        if nl > 0 && line.get_char(0) != ';' {
            let ghost before = out@.map_values(|t: String| t@);
            out.push(String::from_str(line));
            proof {
                assert(is_command_line(line@));
                assert(out@.map_values(|t: String| t@) =~= before.push(line@));
                assert(script_filter(done.push(line@)) =~= script_filter(done) + seq![line@]);
                assert(out@.map_values(|t: String| t@) =~= script_filter(done.push(line@)));
            }
        } else {
            proof {
                assert(!is_command_line(line@));
                assert(script_filter(done.push(line@)) =~= script_filter(done));
            }
        }
        proof {
            done = done.push(line@);
        }
        rest = new_rest;
    }
    proof {
        assert(lines_of(rest@) =~= Seq::<Seq<char>>::empty());
        assert(done + lines_of(rest@) =~= done);
    }
    out
}

} // verus!
