//! The engine context: the camera, the scene object collection, the log
//! buffer, and the console commands that operate on them.
//!
//! Object names are unique handles. When a new object arrives under a name
//! that is already present, the collection gives it the lowest free
//! numbered variant of the name — `name_1`, `name_2`, and so on — reusing
//! the lowest number that has come free again.

use vstd::prelude::*;

use crate::camera::Camera;
use crate::command::CmdError;
use crate::command::CmdErrorV;
use crate::command::Command;
use crate::command::CommandV;
use crate::command::parse_command;
use crate::command::parse_command_spec;
use crate::decimal::DecVec3;
use crate::decimal::dec_render;
use crate::decimal::fmt_decimal;
use crate::object::RatObject;
use crate::text::dec_spec;
use crate::text::fmt_u64;
use crate::text::lemma_dec_spec_injective;
use crate::text::lemma_dec_spec_value;
use crate::text::str_eq;

verus! {

/// The engine context. The rendering back-end owns the window and the GPU;
/// this holds everything the commands and the frame loop decide over.
pub struct Engine {
    pub camera: Camera,
    pub objects: Vec<RatObject>,
    pub log_output: String,
    pub is_running: bool,
}

/// The objects' names, in collection order.
pub open spec fn names_view(objs: Seq<RatObject>) -> Seq<Seq<char>> {
    objs.map_values(|o: RatObject| o.name@)
}

/// Whether some name in `ns` is `x`.
pub open spec fn taken(ns: Seq<Seq<char>>, x: Seq<char>) -> bool {
    exists|i: int| 0 <= i < ns.len() && ns[i] == x
}

/// The numbered variant of a base name: the base, an underscore, and the
/// number in decimal.
pub open spec fn suffixed(base: Seq<char>, k: nat) -> Seq<char> {
    base + seq!['_'] + dec_spec(k)
}

/// All names distinct.
pub open spec fn unique_names(objs: Seq<RatObject>) -> bool {
    forall|i: int, j: int|
        0 <= i < j < objs.len() ==> names_view(objs)[i] != names_view(objs)[j]
}

/// Distinct numbers give distinct variants of one base name.
proof fn lemma_suffixed_injective(base: Seq<char>, a: nat, b: nat)
    requires
        suffixed(base, a) == suffixed(base, b),
    ensures
        a == b,
{
    lemma_dec_spec_value(a);
    lemma_dec_spec_value(b);
    let sa = suffixed(base, a);
    assert(dec_spec(a) =~= sa.subrange(base.len() as int + 1, sa.len() as int));
    assert(dec_spec(b) =~= sa.subrange(base.len() as int + 1, sa.len() as int));
    lemma_dec_spec_injective(a, b);
}

proof fn lemma_taken_remove(ns: Seq<Seq<char>>, i: int, x: Seq<char>)
    requires
        0 <= i < ns.len(),
    ensures
        taken(ns, x) <==> (taken(ns.remove(i), x) || ns[i] == x),
{
    let t = ns.remove(i);
    if taken(ns, x) {
        let j = choose|j: int| 0 <= j < ns.len() && ns[j] == x;
        if j < i {
            assert(t[j] == x);
        } else if j > i {
            assert(t[j - 1] == x);
        }
    }
    if taken(t, x) {
        let j = choose|j: int| 0 <= j < t.len() && t[j] == x;
        if j < i {
            assert(ns[j] == x);
        } else {
            assert(ns[j + 1] == x);
        }
    }
}

/// Among the first `ns.len() + 1` numbered variants of any base name,
/// starting from any number, at least one is free.
proof fn lemma_free_suffix_exists(ns: Seq<Seq<char>>, base: Seq<char>, lo: nat)
    ensures
        exists|k: nat| lo <= k <= lo + ns.len() && !taken(ns, #[trigger] suffixed(base, k)),
    decreases ns.len(),
{
    if !taken(ns, suffixed(base, lo)) {
        assert(lo <= lo <= lo + ns.len() && !taken(ns, suffixed(base, lo)));
    } else {
        let i = choose|i: int| 0 <= i < ns.len() && ns[i] == suffixed(base, lo);
        let t = ns.remove(i);
        lemma_free_suffix_exists(t, base, lo + 1);
        let k = choose|k: nat| lo + 1 <= k <= lo + 1 + t.len() && !taken(
            t,
            #[trigger] suffixed(base, k),
        );
        if ns[i] == suffixed(base, k) {
            lemma_suffixed_injective(base, lo, k);
            assert(false);
        }
        lemma_taken_remove(ns, i, suffixed(base, k));
        assert(lo <= k <= lo + ns.len() && !taken(ns, suffixed(base, k)));
    }
}

/// Build the numbered variant of a base name.
fn make_suffixed(base: &str, k: u64) -> (s: String)
    ensures
        s@ == suffixed(base@, k as nat),
{
    let mut s = String::from_str(base);
    s.append("_");
    let num = fmt_u64(k);
    s.append(num.as_str());
    proof {
        reveal_strlit("_");
        assert(s@ =~= suffixed(base@, k as nat));
    }
    s
}

impl Engine {
    /// The engine's invariant: object names are unique and the camera is
    /// well formed.
    pub open spec fn wf(&self) -> bool {
        unique_names(self.objects@) && self.camera.wf()
    }

    /// A fresh engine: default camera, no objects, empty log, not running.
    pub fn load() -> (e: Engine)
        ensures
            e.wf(),
            e.camera == (Camera {
                yaw_mdeg: 0i64,
                pitch_mdeg: 0i64,
                move_speed_milli: 100i64,
                sensitivity_mdeg: 100i64,
            }),
            e.objects@ == Seq::<RatObject>::empty(),
            e.log_output@ == Seq::<char>::empty(),
            e.is_running == false,
    {
        let e = Engine {
            camera: Camera::new(),
            objects: Vec::new(),
            log_output: String::new(),
            is_running: false,
        };
        proof {
            assert(names_view(e.objects@) =~= Seq::<Seq<char>>::empty());
        }
        e
    }

    /// Append one line to the log buffer.
    pub fn log(&mut self, msg: &str)
        ensures
            final(self).log_output@ == old(self).log_output@ + msg@ + "\n"@,
            final(self).camera == old(self).camera,
            final(self).objects == old(self).objects,
            final(self).is_running == old(self).is_running,
    {
        self.log_output.append(msg);
        self.log_output.append("\n");
    }

    /// Whether an object of that name is in the collection.
    pub fn name_taken(&self, n: &str) -> (b: bool)
        ensures
            b == taken(names_view(self.objects@), n@),
    {
        let len: usize = self.objects.len();
        let mut i: usize = 0;
        while i < len
            invariant
                len == self.objects@.len(),
                0 <= i <= len,
                forall|j: int| 0 <= j < i ==> names_view(self.objects@)[j] != n@,
            decreases len - i,
        {
            let o = &self.objects[i];
            if str_eq(o.name.as_str(), n) {
                proof {
                    assert(names_view(self.objects@)[i as int] == n@);
                }
                return true;
            }
            proof {
                assert(names_view(self.objects@)[i as int] == o.name@);
            }
            i = i + 1;
        }
        proof {
            assert(!taken(names_view(self.objects@), n@));
        }
        false
    }

    /// The name a new object of base name `base` receives: the base itself
    /// when free, otherwise its lowest free numbered variant.
    #[verifier::loop_isolation(false)]
    pub fn unique_name(&self, base: &str) -> (name: String)
        requires
            self.objects@.len() < 18446744073709551615,
        ensures
            !taken(names_view(self.objects@), name@),
            !taken(names_view(self.objects@), base@) ==> name@ == base@,
            taken(names_view(self.objects@), base@) ==> exists|k: nat|
                1 <= k && name@ == #[trigger] suffixed(base@, k) && (forall|m: nat|
                    1 <= m < k ==> taken(names_view(self.objects@), #[trigger] suffixed(base@, m))),
    {
        if !self.name_taken(base) {
            return String::from_str(base);
        }
        let ghost ns = names_view(self.objects@);
        proof {
            lemma_free_suffix_exists(ns, base@, 1);
        }
        let ghost fk = choose|fk: nat| 1 <= fk <= 1 + ns.len() && !taken(
            ns,
            #[trigger] suffixed(base@, fk),
        );
        let mut k: u64 = 1;
        loop
            invariant
                1 <= k <= fk,
                forall|m: nat| 1 <= m < k ==> taken(ns, #[trigger] suffixed(base@, m)),
            decreases fk - k,
        {
            let candidate = make_suffixed(base, k);
            if !self.name_taken(candidate.as_str()) {
                return candidate;
            }
            proof {
                assert(k < fk);
            }
            k = k + 1;
        }
    }

    /// Insert a freshly loaded object, renaming it to a unique name as
    /// `unique_name` describes, and log the load. Returns the final name.
    pub fn load_object(&mut self, object: RatObject) -> (name: String)
        requires
            old(self).wf(),
            old(self).objects@.len() < 18446744073709551615,
        ensures
            final(self).wf(),
            !taken(names_view(old(self).objects@), name@),
            !taken(names_view(old(self).objects@), object.name@) ==> name@ == object.name@,
            taken(names_view(old(self).objects@), object.name@) ==> exists|k: nat|
                1 <= k && name@ == #[trigger] suffixed(object.name@, k) && (forall|m: nat|
                    1 <= m < k ==> taken(
                        names_view(old(self).objects@),
                        #[trigger] suffixed(object.name@, m),
                    )),
            final(self).objects@.len() == old(self).objects@.len() + 1,
            final(self).objects@.subrange(0, old(self).objects@.len() as int) == old(self).objects@,
            ({
                let o = final(self).objects@.last();
                o.name@ == name@ && o.model == object.model && o.material == object.material
                    && o.position == object.position && o.rotation == object.rotation && o.scale
                    == object.scale && o.weight == object.weight
            }),
            final(self).log_output@ == old(self).log_output@ + "Loaded object: "@ + name@ + "\n"@,
            final(self).camera == old(self).camera,
            final(self).is_running == old(self).is_running,
    {
        let name = self.unique_name(object.name.as_str());
        let mut object = object;
        object.name = name.clone();
        let ghost before = self.objects@;
        self.objects.push(object);
        proof {
            assert(self.objects@.subrange(0, before.len() as int) =~= before);
            assert(names_view(self.objects@) =~= names_view(before).push(name@));
            assert forall|i: int, j: int|
                0 <= i < j < self.objects@.len() implies names_view(self.objects@)[i]
                != names_view(self.objects@)[j] by {
                if j < before.len() {
                    assert(names_view(before)[i] != names_view(before)[j]);
                } else {
                    assert(names_view(self.objects@)[i] == names_view(before)[i]);
                    assert(!taken(names_view(before), name@));
                }
            }
        }
        let mut msg = String::from_str("Loaded object: ");
        msg.append(name.as_str());
        self.log(msg.as_str());
        name
    }
}

/// What the rendering back-end must do after a command: nothing, or load
/// the named object's assets and hand the result to `load_object`.
#[derive(Debug, PartialEq, Eq)]
pub enum EngineAction {
    Idle,
    LoadObject(String),
}

/// `after` is `before` with the first object of that name removed.
pub open spec fn removed_first(
    before: Seq<RatObject>,
    after: Seq<RatObject>,
    name: Seq<char>,
) -> bool {
    exists|i: int|
        0 <= i < before.len() && #[trigger] names_view(before)[i] == name && (forall|j: int|
            0 <= j < i ==> names_view(before)[j] != name) && after == before.remove(i)
}

/// `after` is `before` with the first object of that name moved to `pos`,
/// every other field and object untouched.
pub open spec fn moved_first(
    before: Seq<RatObject>,
    after: Seq<RatObject>,
    name: Seq<char>,
    pos: DecVec3,
) -> bool {
    exists|i: int|
        0 <= i < before.len() && #[trigger] names_view(before)[i] == name && (forall|j: int|
            0 <= j < i ==> names_view(before)[j] != name) && after.len() == before.len() && (forall|
            j: int,
        |
            0 <= j < before.len() && j != i ==> after[j] == before[j]) && after[i].name
            == before[i].name && after[i].model == before[i].model && after[i].material
            == before[i].material && after[i].rotation == before[i].rotation && after[i].scale
            == before[i].scale && after[i].weight == before[i].weight && after[i].position == pos
}

/// One object's line in a listing: its name and its position.
pub open spec fn list_line(o: RatObject) -> Seq<char> {
    o.name@ + " ("@ + dec_render(o.position.x) + ", "@ + dec_render(o.position.y) + ", "@
        + dec_render(o.position.z) + ")"@
}

/// The log text a listing appends: one line per object, in order.
pub open spec fn list_log(objs: Seq<RatObject>) -> Seq<char>
    decreases objs.len(),
{
    if objs.len() == 0 {
        Seq::empty()
    } else {
        list_log(objs.drop_last()) + list_line(objs.last()) + seq!['\n']
    }
}

impl Engine {
    /// Remove the first object of that name; report whether one was there.
    #[verifier::loop_isolation(false)]
    pub fn remove_object(&mut self, name: &str) -> (removed: bool)
        requires
            old(self).wf(),
        ensures
            final(self).wf(),
            removed == taken(names_view(old(self).objects@), name@),
            removed ==> removed_first(old(self).objects@, final(self).objects@, name@),
            !removed ==> final(self).objects == old(self).objects,
            final(self).camera == old(self).camera,
            final(self).log_output == old(self).log_output,
            final(self).is_running == old(self).is_running,
    {
        let len: usize = self.objects.len();
        let mut i: usize = 0;
        while i < len
            invariant
                len == self.objects@.len(),
                0 <= i <= len,
                *self == *old(self),
                forall|j: int| 0 <= j < i ==> names_view(self.objects@)[j] != name@,
            decreases len - i,
        {
            let hit = {
                let o = &self.objects[i];
                str_eq(o.name.as_str(), name)
            };
            if hit {
                let ghost before = self.objects@;
                proof {
                    assert(names_view(before)[i as int] == name@);
                }
                self.objects.remove(i);
                proof {
                    let ns = names_view(before);
                    let ns2 = names_view(self.objects@);
                    assert(ns2 =~= ns.remove(i as int));
                    assert forall|a: int, b: int| 0 <= a < b < ns2.len() implies ns2[a] != ns2[b]
                    by {
                        let a2: int = if a < i {
                            a
                        } else {
                            a + 1
                        };
                        let b2: int = if b < i {
                            b
                        } else {
                            b + 1
                        };
                        assert(ns2[a] == ns[a2] && ns2[b] == ns[b2]);
                        assert(ns[a2] != ns[b2]);
                    }
                    assert(removed_first(before, self.objects@, name@));
                }
                return true;
            }
            proof {
                assert(names_view(self.objects@)[i as int] == self.objects@[i as int].name@);
            }
            i = i + 1;
        }
        false
    }

    /// Move the first object of that name to `pos`; report whether one was
    /// there. Nothing else about the collection changes.
    #[verifier::loop_isolation(false)]
    pub fn move_object(&mut self, name: &str, pos: DecVec3) -> (moved: bool)
        requires
            old(self).wf(),
        ensures
            final(self).wf(),
            moved == taken(names_view(old(self).objects@), name@),
            moved ==> moved_first(old(self).objects@, final(self).objects@, name@, pos),
            !moved ==> final(self).objects == old(self).objects,
            final(self).camera == old(self).camera,
            final(self).log_output == old(self).log_output,
            final(self).is_running == old(self).is_running,
    {
        let len: usize = self.objects.len();
        let mut i: usize = 0;
        while i < len
            invariant
                len == self.objects@.len(),
                0 <= i <= len,
                *self == *old(self),
                forall|j: int| 0 <= j < i ==> names_view(self.objects@)[j] != name@,
            decreases len - i,
        {
            let hit = {
                let o = &self.objects[i];
                str_eq(o.name.as_str(), name)
            };
            if hit {
                let ghost before = self.objects@;
                proof {
                    assert(names_view(before)[i as int] == name@);
                }
                let mut o = self.objects.remove(i);
                o.position = pos;
                self.objects.insert(i, o);
                proof {
                    assert(self.objects@.len() == before.len());
                    assert forall|j: int| 0 <= j < before.len() && j != i implies self.objects@[j]
                        == before[j] by {
                        if j < i {
                        } else {
                            assert(self.objects@[j] == before.remove(i as int)[j - 1]);
                        }
                    }
                    assert(names_view(self.objects@) =~= names_view(before));
                    assert(moved_first(before, self.objects@, name@, pos));
                }
                return true;
            }
            proof {
                assert(names_view(self.objects@)[i as int] == self.objects@[i as int].name@);
            }
            i = i + 1;
        }
        false
    }

    /// Append one listing line per object to the log.
    #[verifier::loop_isolation(false)]
    fn log_listing(&mut self)
        ensures
            final(self).log_output@ == old(self).log_output@ + list_log(old(self).objects@),
            final(self).camera == old(self).camera,
            final(self).objects == old(self).objects,
            final(self).is_running == old(self).is_running,
    {
        let len: usize = self.objects.len();
        proof {
            assert(list_log(self.objects@.subrange(0, 0)) =~= Seq::<char>::empty());
            assert(self.log_output@ =~= old(self).log_output@ + list_log(
                self.objects@.subrange(0, 0),
            ));
        }
        let mut i: usize = 0;
        while i < len
            invariant
                0 <= i <= len,
                self.objects == old(self).objects,
                self.camera == old(self).camera,
                self.is_running == old(self).is_running,
                self.log_output@ == old(self).log_output@ + list_log(
                    self.objects@.subrange(0, i as int),
                ),
            decreases len - i,
        {
            let mut line = {
                let o = &self.objects[i];
                o.name.clone()
            };
            let p = {
                let o = &self.objects[i];
                o.position
            };
            line.append(" (");
            let fx = fmt_decimal(&p.x);
            line.append(fx.as_str());
            line.append(", ");
            let fy = fmt_decimal(&p.y);
            line.append(fy.as_str());
            line.append(", ");
            let fz = fmt_decimal(&p.z);
            line.append(fz.as_str());
            line.append(")");
            proof {
                assert(line@ =~= list_line(self.objects@[i as int]));
            }
            let ghost before_log = self.log_output@;
            self.log(line.as_str());
            proof {
                reveal_strlit("\n");
                let part = self.objects@.subrange(0, i + 1);
                assert(part.drop_last() =~= self.objects@.subrange(0, i as int));
                assert(part.last() == self.objects@[i as int]);
                assert(self.log_output@ =~= old(self).log_output@ + list_log(part));
            }
            i = i + 1;
        }
        proof {
            assert(self.objects@.subrange(0, len as int) =~= self.objects@);
        }
    }

    /// Log a labeled diagnostic: the label, the subject, a newline.
    fn log_labeled(&mut self, label: &str, rest: &str)
        ensures
            final(self).log_output@ == old(self).log_output@ + label@ + rest@ + "\n"@,
            final(self).camera == old(self).camera,
            final(self).objects == old(self).objects,
            final(self).is_running == old(self).is_running,
    {
        let mut m = String::from_str(label);
        m.append(rest);
        self.log(m.as_str());
        proof {
            assert(self.log_output@ =~= old(self).log_output@ + label@ + rest@ + "\n"@);
        }
    }

    /// Execute one console command, exactly as `parse_command_spec` reads
    /// it: the command line is echoed to the log; a load is handed back as
    /// an action for the asset pipeline; a listing, a removal, a move and
    /// `quit` act here; every rejected line leaves a diagnostic in the log
    /// and changes nothing else.
    pub fn execute_command(&mut self, command: &str) -> (action: EngineAction)
        requires
            old(self).wf(),
        ensures
            final(self).wf(),
            final(self).camera == old(self).camera,
            ({
                let logged = old(self).log_output@ + "> "@ + command@ + "\n"@;
                match parse_command_spec(command@) {
                    Ok(CommandV::ObjLoad { name }) => (action matches EngineAction::LoadObject(n)
                        && n@ == name) && final(self).objects == old(self).objects && final(self).is_running == old(self).is_running && final(self).log_output@ == logged,
                    Ok(CommandV::ObjList) => action == EngineAction::Idle && final(self).objects
                        == old(self).objects && final(self).is_running == old(self).is_running
                        && final(self).log_output@ == logged + list_log(old(self).objects@),
                    Ok(CommandV::ObjRemove { name }) => action == EngineAction::Idle && final(self).is_running == old(self).is_running && if taken(
                        names_view(old(self).objects@),
                        name,
                    ) {
                        removed_first(old(self).objects@, final(self).objects@, name) && final(self).log_output@ == logged
                    } else {
                        final(self).objects == old(self).objects && final(self).log_output@
                            == logged + "Object not found: "@ + name + "\n"@
                    },
                    Ok(CommandV::ObjMoveTo { name, x, y, z }) => action == EngineAction::Idle
                        && final(self).is_running == old(self).is_running && if taken(
                        names_view(old(self).objects@),
                        name,
                    ) {
                        moved_first(
                            old(self).objects@,
                            final(self).objects@,
                            name,
                            DecVec3 { x, y, z },
                        ) && final(self).log_output@ == logged + "Moved object "@ + name + " to ("@
                            + dec_render(x) + ", "@ + dec_render(y) + ", "@ + dec_render(z) + ")"@
                            + "\n"@
                    } else {
                        final(self).objects == old(self).objects && final(self).log_output@
                            == logged
                    },
                    Ok(CommandV::Quit) => action == EngineAction::Idle && final(self).objects
                        == old(self).objects && final(self).is_running == false && final(self).log_output@ == logged,
                    Err(CmdErrorV::MissingKey(w)) => action == EngineAction::Idle && final(self).objects == old(self).objects && final(self).is_running == old(self).is_running && final(self).log_output@ == logged + "Missing argument: "@ + w
                        + "\n"@,
                    Err(CmdErrorV::UnknownCommand(w)) => action == EngineAction::Idle && final(self).objects == old(self).objects && final(self).is_running == old(self).is_running && final(self).log_output@ == logged + "Unknown command: "@ + w
                        + "\n"@,
                    Err(CmdErrorV::UnknownOperation(w)) => action == EngineAction::Idle && final(self).objects == old(self).objects && final(self).is_running == old(self).is_running && final(self).log_output@ == logged + "Unknown operation: "@ + w
                        + "\n"@,
                    Err(CmdErrorV::ParseError(w)) => action == EngineAction::Idle && final(self).objects == old(self).objects && final(self).is_running == old(self).is_running && final(self).log_output@ == logged + "Invalid number: "@ + w
                        + "\n"@,
                }
            }),
    {
        let mut pre = String::from_str("> ");
        pre.append(command);
        self.log(pre.as_str());
        proof {
            assert(self.log_output@ =~= old(self).log_output@ + "> "@ + command@ + "\n"@);
        }
        match parse_command(command) {
            Ok(Command::ObjLoad { name }) => EngineAction::LoadObject(name),
            Ok(Command::ObjList) => {
                self.log_listing();
                EngineAction::Idle
            },
            Ok(Command::ObjRemove { name }) => {
                let removed = self.remove_object(name.as_str());
                if !removed {
                    self.log_labeled("Object not found: ", name.as_str());
                }
                EngineAction::Idle
            },
            Ok(Command::ObjMoveTo { name, x, y, z }) => {
                let moved = self.move_object(name.as_str(), DecVec3 { x, y, z });
                if moved {
                    let mut m = String::from_str("Moved object ");
                    m.append(name.as_str());
                    m.append(" to (");
                    let fx = fmt_decimal(&x);
                    m.append(fx.as_str());
                    m.append(", ");
                    let fy = fmt_decimal(&y);
                    m.append(fy.as_str());
                    m.append(", ");
                    let fz = fmt_decimal(&z);
                    m.append(fz.as_str());
                    m.append(")");
                    self.log(m.as_str());
                    proof {
                        assert(self.log_output@ =~= old(self).log_output@ + "> "@ + command@
                            + "\n"@ + "Moved object "@ + name@ + " to ("@ + dec_render(x) + ", "@
                            + dec_render(y) + ", "@ + dec_render(z) + ")"@ + "\n"@);
                    }
                }
                EngineAction::Idle
            },
            Ok(Command::Quit) => {
                self.is_running = false;
                EngineAction::Idle
            },
            Err(CmdError::MissingKey(w)) => {
                self.log_labeled("Missing argument: ", w.as_str());
                EngineAction::Idle
            },
            Err(CmdError::UnknownCommand(w)) => {
                self.log_labeled("Unknown command: ", w.as_str());
                EngineAction::Idle
            },
            Err(CmdError::UnknownOperation(w)) => {
                self.log_labeled("Unknown operation: ", w.as_str());
                EngineAction::Idle
            },
            Err(CmdError::ParseError(w)) => {
                self.log_labeled("Invalid number: ", w.as_str());
                EngineAction::Idle
            },
        }
    }
}

} // verus!
