use taskmaster::commands::StartCheck;
use taskmaster::program::{AutoRestart, Program};
use taskmaster::record::InstanceRecord;
use taskmaster::registry::Registry;
use taskmaster::starter::StartDirective;
use taskmaster::supervisor::{ProgramStatus, Supervisor};

fn def_cmd(cmd: &str) -> Program {
    Program {
        cmd: String::from(cmd),
        numprocs: 1,
        umask: String::from("022"),
        workingdir: String::from("/tmp"),
        autostart: true,
        autorestart: AutoRestart::Never,
        exitcodes: vec![0],
        startretries: 3,
        starttime: 0,
        stopsignal: 15,
        stoptime: 2,
        stdout: String::from("/tmp/out.log"),
        stderr: String::from("/tmp/err.log"),
        env: Vec::new(),
    }
}

fn registry_with(entries: Vec<(&str, Program)>) -> Registry {
    let mut reg = Registry::new();
    for (name, d) in entries {
        assert!(reg.add(String::from(name), d));
    }
    reg
}

fn started(sup: &mut Supervisor, name: &str, first_id: u64, now: u64) {
    match sup.start_command(name) {
        StartCheck::Ready { mut starter } => {
            let mut id = first_id;
            loop {
                match starter.directive() {
                    StartDirective::Spawn { .. } => {
                        starter.on_spawn_ok(InstanceRecord::fresh(id, now), now);
                        id += 1;
                    }
                    StartDirective::Exhausted { .. } => panic!("budget is positive"),
                    StartDirective::Done => break,
                }
            }
            assert!(sup.install_started(starter));
        }
        _ => panic!("expected a ready starter for {}", name),
    }
}

#[test]
fn reload_kills_changed_program_and_plans_respawn() {
    let reg = registry_with(vec![("sleeper", def_cmd("/bin/sleep 30"))]);
    let mut sup = Supervisor::new(reg);
    started(&mut sup, "sleeper", 10, 100);

    let new_reg = registry_with(vec![("sleeper", def_cmd("/bin/sleep 60"))]);
    let killed = sup.reload(new_reg);
    assert_eq!(killed.len(), 1);
    assert_eq!(killed[0].name, "sleeper");
    assert_eq!(killed[0].records.len(), 1);
    assert_eq!(killed[0].records[0].id, 10);
    assert_eq!(sup.status_of("sleeper"), ProgramStatus::NotRunning);

    let plan = sup.autostart_plan();
    assert_eq!(plan.len(), 1);
    assert_eq!(plan[0].name, "sleeper");
}

#[test]
fn reload_kills_removed_program() {
    let reg = registry_with(vec![
        ("keep", def_cmd("/bin/sleep 30")),
        ("gone", def_cmd("/bin/sleep 40")),
    ]);
    let mut sup = Supervisor::new(reg);
    started(&mut sup, "keep", 10, 100);
    started(&mut sup, "gone", 20, 100);

    let new_reg = registry_with(vec![("keep", def_cmd("/bin/sleep 30"))]);
    let killed = sup.reload(new_reg);
    assert_eq!(killed.len(), 1);
    assert_eq!(killed[0].name, "gone");
    assert_eq!(sup.status_of("keep"), ProgramStatus::Running { count: 1 });
    assert_eq!(sup.status_of("gone"), ProgramStatus::NotRunning);
}

#[test]
fn reload_leaves_unchanged_programs_untouched() {
    let reg = registry_with(vec![("web", def_cmd("/bin/sleep 30"))]);
    let mut sup = Supervisor::new(reg);
    started(&mut sup, "web", 10, 100);

    let new_reg = registry_with(vec![("web", def_cmd("/bin/sleep 30"))]);
    let killed = sup.reload(new_reg);
    assert_eq!(killed.len(), 0);
    assert_eq!(sup.status_of("web"), ProgramStatus::Running { count: 1 });
    assert_eq!(sup.instance_ids("web").unwrap(), vec![10]);
}

#[test]
fn second_reload_with_same_file_is_a_noop() {
    let reg = registry_with(vec![("web", def_cmd("/bin/sleep 30"))]);
    let mut sup = Supervisor::new(reg);
    started(&mut sup, "web", 10, 100);

    let killed1 = sup.reload(registry_with(vec![("web", def_cmd("/bin/sleep 30"))]));
    assert_eq!(killed1.len(), 0);
    assert_eq!(sup.autostart_plan().len(), 0);

    let killed2 = sup.reload(registry_with(vec![("web", def_cmd("/bin/sleep 30"))]));
    assert_eq!(killed2.len(), 0);
    assert_eq!(sup.autostart_plan().len(), 0);
    assert_eq!(sup.status_of("web"), ProgramStatus::Running { count: 1 });
    assert_eq!(sup.instance_ids("web").unwrap(), vec![10]);
}

#[test]
fn reload_adds_new_autostart_program_to_plan() {
    let reg = registry_with(vec![("old", def_cmd("/bin/sleep 30"))]);
    let mut sup = Supervisor::new(reg);
    started(&mut sup, "old", 10, 100);

    let new_reg = registry_with(vec![
        ("old", def_cmd("/bin/sleep 30")),
        ("fresh", def_cmd("/bin/sleep 5")),
    ]);
    let killed = sup.reload(new_reg);
    assert_eq!(killed.len(), 0);
    let plan = sup.autostart_plan();
    assert_eq!(plan.len(), 1);
    assert_eq!(plan[0].name, "fresh");
}

#[test]
fn table_names_follow_the_new_registry_after_reload() {
    let reg = registry_with(vec![
        ("a", def_cmd("/bin/sleep 30")),
        ("b", def_cmd("/bin/sleep 40")),
    ]);
    let mut sup = Supervisor::new(reg);
    started(&mut sup, "a", 10, 100);
    started(&mut sup, "b", 20, 100);

    let new_reg = registry_with(vec![("b", def_cmd("/bin/sleep 40"))]);
    sup.reload(new_reg);
    assert_eq!(sup.status_of("a"), ProgramStatus::NotRunning);
    assert_eq!(sup.status_of("b"), ProgramStatus::Running { count: 1 });
    assert!(sup.registry.contains_name("b"));
    assert!(!sup.registry.contains_name("a"));
}
