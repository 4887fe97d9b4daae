use rat_engine::command::script_commands;
use rat_engine::decimal::Decimal;
use rat_engine::decimal::DecVec3;
use rat_engine::engine::Engine;
use rat_engine::engine::EngineAction;
use rat_engine::material::Material;
use rat_engine::model::ObjModel;
use rat_engine::object::RatObject;
use rat_engine::shader::RatShader;

fn plain_object(name: &str) -> RatObject {
    RatObject::assemble(
        String::from(name),
        ObjModel { indices: Vec::new(), vertices: Vec::new() },
        Material {
            name: String::from(name),
            shader: RatShader { vert_id: 0, frag_id: 0, shader_program: 0 },
            texture_id: 0,
        },
        Decimal { neg: false, mantissa: 1, scale: 0 },
    )
}

fn names(e: &Engine) -> Vec<String> {
    e.objects.iter().map(|o| o.name.clone()).collect()
}

#[test]
fn three_loads_of_one_name_number_up_and_the_freed_number_is_reused() {
    let mut e = Engine::load();
    assert_eq!(e.load_object(plain_object("rat")), "rat");
    assert_eq!(e.load_object(plain_object("rat")), "rat_1");
    assert_eq!(e.load_object(plain_object("rat")), "rat_2");
    assert_eq!(names(&e), vec!["rat", "rat_1", "rat_2"]);
    assert!(e.remove_object("rat_1"));
    assert_eq!(e.load_object(plain_object("rat")), "rat_1");
    assert_eq!(names(&e), vec!["rat", "rat_2", "rat_1"]);
}

#[test]
fn load_logs_the_final_name() {
    let mut e = Engine::load();
    e.load_object(plain_object("crate"));
    e.load_object(plain_object("crate"));
    assert_eq!(e.log_output, "Loaded object: crate\nLoaded object: crate_1\n");
}

#[test]
fn removing_an_absent_object_changes_nothing() {
    let mut e = Engine::load();
    e.load_object(plain_object("rat"));
    assert!(!e.remove_object("dog"));
    assert_eq!(names(&e), vec!["rat"]);
}

#[test]
fn remove_takes_the_first_match_only() {
    let mut e = Engine::load();
    e.load_object(plain_object("a"));
    e.load_object(plain_object("b"));
    e.load_object(plain_object("c"));
    assert!(e.remove_object("b"));
    assert_eq!(names(&e), vec!["a", "c"]);
}

#[test]
fn move_object_updates_the_position_only() {
    let mut e = Engine::load();
    e.load_object(plain_object("rat"));
    let pos = DecVec3 {
        x: Decimal { neg: false, mantissa: 1, scale: 0 },
        y: Decimal { neg: true, mantissa: 25, scale: 1 },
        z: Decimal { neg: false, mantissa: 3, scale: 0 },
    };
    assert!(e.move_object("rat", pos));
    assert_eq!(e.objects[0].position, pos);
    assert_eq!(e.objects[0].scale, DecVec3::one());
    assert!(!e.move_object("dog", pos));
}

#[test]
fn command_load_is_handed_back_as_an_action() {
    let mut e = Engine::load();
    let action = e.execute_command("obj load rat");
    assert_eq!(action, EngineAction::LoadObject(String::from("rat")));
    assert_eq!(e.log_output, "> obj load rat\n");
    assert!(e.objects.is_empty());
}

#[test]
fn command_moveto_moves_and_logs() {
    let mut e = Engine::load();
    e.load_object(plain_object("rat"));
    let action = e.execute_command("obj moveto rat 1 2.5 -3");
    assert_eq!(action, EngineAction::Idle);
    assert_eq!(
        e.log_output,
        "Loaded object: rat\n> obj moveto rat 1 2.5 -3\nMoved object rat to (1, 2.5, -3)\n"
    );
    assert_eq!(e.objects[0].position.y, Decimal { neg: false, mantissa: 25, scale: 1 });
}

#[test]
fn command_moveto_on_an_absent_object_is_silent() {
    let mut e = Engine::load();
    e.execute_command("obj moveto rat 1 2 3");
    assert_eq!(e.log_output, "> obj moveto rat 1 2 3\n");
}

#[test]
fn command_list_logs_each_object() {
    let mut e = Engine::load();
    e.load_object(plain_object("a"));
    e.load_object(plain_object("b"));
    e.execute_command("obj moveto b 1 2 3");
    e.execute_command("obj list");
    assert!(e.log_output.ends_with("> obj list\na (0, 0, 0)\nb (1, 2, 3)\n"));
}

#[test]
fn command_remove_reports_a_missing_object() {
    let mut e = Engine::load();
    e.execute_command("obj remove ghost_rat");
    assert_eq!(
        e.log_output,
        "> obj remove ghost_rat\nObject not found: ghost_rat\n"
    );
}

#[test]
fn command_quit_stops_the_engine() {
    let mut e = Engine::load();
    e.is_running = true;
    let action = e.execute_command("quit");
    assert_eq!(action, EngineAction::Idle);
    assert!(!e.is_running);
}

#[test]
fn unknown_commands_and_operations_are_logged() {
    let mut e = Engine::load();
    e.execute_command("dance");
    e.execute_command("obj fly rat");
    e.execute_command("obj");
    e.execute_command("");
    e.execute_command("obj moveto rat 1 x 3");
    assert_eq!(
        e.log_output,
        "> dance\nUnknown command: dance\n\
         > obj fly rat\nUnknown operation: fly\n\
         > obj\nMissing argument: operation\n\
         > \nMissing argument: command\n\
         > obj moveto rat 1 x 3\nInvalid number: x\n"
    );
}

#[test]
fn script_lines_skip_comments_and_blanks() {
    let lines = script_commands("obj load rat\n; a comment\n\nquit\n");
    assert_eq!(lines, vec!["obj load rat", "quit"]);
}
