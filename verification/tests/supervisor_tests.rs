use taskmaster::commands::StartCheck;
use taskmaster::program::{AutoRestart, Program};
use taskmaster::record::InstanceRecord;
use taskmaster::registry::Registry;
use taskmaster::signals::SignalRoute;
use taskmaster::starter::{StartDirective, Starter};
use taskmaster::supervisor::{ProgramStatus, Supervisor};

fn def(numprocs: u32, autorestart: AutoRestart, stopsignal: i32) -> Program {
    Program {
        cmd: String::from("/bin/sleep 30"),
        numprocs,
        umask: String::from("022"),
        workingdir: String::from("/tmp"),
        autostart: true,
        autorestart,
        exitcodes: vec![0],
        startretries: 3,
        starttime: 0,
        stopsignal,
        stoptime: 2,
        stdout: String::from("/tmp/out.log"),
        stderr: String::from("/tmp/err.log"),
        env: Vec::new(),
    }
}

fn registry_with(entries: Vec<(&str, Program)>) -> Registry {
    let mut reg = Registry::new();
    for (name, d) in entries {
        assert!(reg.add(String::from(name), d));
    }
    reg
}

fn run_all_success(starter: &mut Starter, first_id: u64, now: u64) {
    let mut id = first_id;
    loop {
        match starter.directive() {
            StartDirective::Spawn { .. } => {
                starter.on_spawn_ok(InstanceRecord::fresh(id, now), now);
                id += 1;
            }
            StartDirective::Exhausted { .. } => {
                starter.on_exhausted();
            }
            StartDirective::Done => break,
        }
    }
}

fn started(sup: &mut Supervisor, name: &str, first_id: u64, now: u64) {
    match sup.start_command(name) {
        StartCheck::Ready { mut starter } => {
            run_all_success(&mut starter, first_id, now);
            assert!(sup.install_started(starter));
        }
        _ => panic!("expected a ready starter for {}", name),
    }
}

#[test]
fn status_of_unknown_and_running() {
    let reg = registry_with(vec![("web", def(2, AutoRestart::Never, 15))]);
    let mut sup = Supervisor::new(reg);
    assert_eq!(sup.status_of("web"), ProgramStatus::NotRunning);
    assert_eq!(sup.status_of("nosuch"), ProgramStatus::NotRunning);
    started(&mut sup, "web", 10, 100);
    assert_eq!(sup.status_of("web"), ProgramStatus::Running { count: 2 });
}

#[test]
fn status_is_a_pure_observation() {
    let reg = registry_with(vec![("web", def(1, AutoRestart::Never, 15))]);
    let mut sup = Supervisor::new(reg);
    started(&mut sup, "web", 10, 100);
    let first = sup.status_of("web");
    let second = sup.status_of("web");
    assert_eq!(first, second);
    assert_eq!(first, ProgramStatus::Running { count: 1 });
}

#[test]
fn status_all_reports_every_program_in_registry_order() {
    let mut off = def(1, AutoRestart::Never, 15);
    off.autostart = false;
    let reg = registry_with(vec![
        ("a", def(2, AutoRestart::Never, 15)),
        ("b", off),
    ]);
    let mut sup = Supervisor::new(reg);
    started(&mut sup, "a", 10, 100);
    let lines = sup.status_all();
    assert_eq!(lines.len(), 2);
    assert_eq!(lines[0].name, "a");
    assert_eq!(lines[0].status, ProgramStatus::Running { count: 2 });
    assert_eq!(lines[1].name, "b");
    assert_eq!(lines[1].status, ProgramStatus::NotRunning);
}

#[test]
fn start_refused_while_running() {
    let reg = registry_with(vec![("web", def(1, AutoRestart::Never, 15))]);
    let mut sup = Supervisor::new(reg);
    started(&mut sup, "web", 10, 100);
    assert!(matches!(sup.start_command("web"), StartCheck::AlreadyRunning));
    assert!(matches!(sup.start_command("nosuch"), StartCheck::NotFound));
}

#[test]
fn stop_then_start_gives_numprocs_fresh_instances() {
    let reg = registry_with(vec![("web", def(2, AutoRestart::Never, 15))]);
    let mut sup = Supervisor::new(reg);
    started(&mut sup, "web", 10, 100);

    let stopped = sup.stop_program("web", 130).expect("web was running");
    assert_eq!(stopped.len(), 2);
    assert!(stopped.iter().all(|r| r.stop_requested));
    assert!(stopped.iter().all(|r| r.time_stopped_at == Some(130)));
    assert_eq!(sup.status_of("web"), ProgramStatus::NotRunning);

    started(&mut sup, "web", 50, 200);
    assert_eq!(sup.status_of("web"), ProgramStatus::Running { count: 2 });
    let ids = sup.instance_ids("web").unwrap();
    assert_eq!(ids, vec![50, 51]);
}

#[test]
fn stop_of_unknown_name_reports_nothing() {
    let reg = registry_with(vec![("web", def(1, AutoRestart::Never, 15))]);
    let mut sup = Supervisor::new(reg);
    assert!(sup.stop_program("web", 10).is_none());
    assert!(sup.stop_program("nosuch", 10).is_none());
}

#[test]
fn numprocs_zero_means_no_instances_and_not_running() {
    let reg = registry_with(vec![("idle", def(0, AutoRestart::Never, 15))]);
    let mut sup = Supervisor::new(reg);
    match sup.start_command("idle") {
        StartCheck::Ready { mut starter } => {
            run_all_success(&mut starter, 1, 10);
            assert_eq!(starter.records.len(), 0);
            assert!(!sup.install_started(starter));
        }
        _ => panic!("expected a ready starter"),
    }
    assert_eq!(sup.status_of("idle"), ProgramStatus::NotRunning);
}

#[test]
fn push_instance_respects_numprocs_bound() {
    let reg = registry_with(vec![("web", def(1, AutoRestart::Always, 15))]);
    let mut sup = Supervisor::new(reg);
    started(&mut sup, "web", 10, 100);
    assert!(!sup.push_instance(&String::from("web"), InstanceRecord::fresh(99, 300)));
    assert_eq!(sup.status_of("web"), ProgramStatus::Running { count: 1 });
    assert!(!sup.push_instance(&String::from("nosuch"), InstanceRecord::fresh(99, 300)));
}

#[test]
fn stopped_record_can_be_reinserted_after_failed_kill() {
    let reg = registry_with(vec![("web", def(2, AutoRestart::Never, 15))]);
    let mut sup = Supervisor::new(reg);
    started(&mut sup, "web", 10, 100);
    let stopped = sup.stop_program("web", 150).expect("web was running");
    assert_eq!(sup.status_of("web"), ProgramStatus::NotRunning);
    // The first child refused to die: its record goes back in, still marked.
    assert!(sup.push_instance(&String::from("web"), stopped[0]));
    assert_eq!(sup.status_of("web"), ProgramStatus::Running { count: 1 });
    let ids = sup.instance_ids("web").unwrap();
    assert_eq!(ids, vec![10]);
}

#[test]
fn restart_yields_fresh_instances_from_index_zero() {
    let reg = registry_with(vec![("x", def(2, AutoRestart::Never, 15))]);
    let mut sup = Supervisor::new(reg);
    started(&mut sup, "x", 10, 100);

    let stopped = sup.stop_program("x", 150).expect("x was running");
    assert_eq!(stopped.len(), 2);
    match sup.start_command("x") {
        StartCheck::Ready { mut starter } => {
            let mut indices = Vec::new();
            let mut id = 70;
            loop {
                match starter.directive() {
                    StartDirective::Spawn { index } => {
                        indices.push(index);
                        starter.on_spawn_ok(InstanceRecord::fresh(id, 160), 160);
                        id += 1;
                    }
                    StartDirective::Exhausted { .. } => panic!("budget is positive"),
                    StartDirective::Done => break,
                }
            }
            assert_eq!(indices, vec![0, 1]);
            assert!(sup.install_started(starter));
        }
        _ => panic!("expected a ready starter"),
    }
    assert_eq!(sup.status_of("x"), ProgramStatus::Running { count: 2 });
    assert_eq!(sup.instance_ids("x").unwrap(), vec![70, 71]);
}

#[test]
fn drain_all_empties_the_table() {
    let reg = registry_with(vec![
        ("a", def(1, AutoRestart::Never, 15)),
        ("b", def(2, AutoRestart::Never, 15)),
    ]);
    let mut sup = Supervisor::new(reg);
    started(&mut sup, "a", 10, 100);
    started(&mut sup, "b", 20, 100);
    let drained = sup.drain_all();
    assert_eq!(drained.len(), 2);
    assert_eq!(drained[0].name, "a");
    assert_eq!(drained[0].records.len(), 1);
    assert_eq!(drained[1].name, "b");
    assert_eq!(drained[1].records.len(), 2);
    assert_eq!(sup.status_of("a"), ProgramStatus::NotRunning);
    assert_eq!(sup.status_of("b"), ProgramStatus::NotRunning);
}

#[test]
fn autostart_plan_lists_only_autostart_programs_without_instances() {
    let mut quiet = def(1, AutoRestart::Never, 15);
    quiet.autostart = false;
    let reg = registry_with(vec![
        ("loud", def(2, AutoRestart::Never, 15)),
        ("quiet", quiet),
    ]);
    let mut sup = Supervisor::new(reg);
    let plan = sup.autostart_plan();
    assert_eq!(plan.len(), 1);
    assert_eq!(plan[0].name, "loud");
    assert_eq!(plan[0].numprocs, 2);

    started(&mut sup, "loud", 10, 100);
    assert_eq!(sup.autostart_plan().len(), 0);
}

#[test]
fn route_signal_hangup_means_reload() {
    let reg = registry_with(vec![("web", def(1, AutoRestart::Never, 10))]);
    let sup = Supervisor::new(reg);
    assert!(matches!(sup.route_signal(1), SignalRoute::Reload));
}

#[test]
fn route_signal_matches_stopsignal() {
    let reg = registry_with(vec![
        ("usr1", def(1, AutoRestart::Never, 10)),
        ("term", def(1, AutoRestart::Never, 15)),
        ("usr1too", def(1, AutoRestart::Never, 10)),
    ]);
    let sup = Supervisor::new(reg);
    match sup.route_signal(10) {
        SignalRoute::GracefulStops { stops } => {
            assert_eq!(stops.len(), 2);
            assert_eq!(stops[0].name, "usr1");
            assert_eq!(stops[0].stoptime, 2);
            assert_eq!(stops[0].stopsignal, 10);
            assert_eq!(stops[1].name, "usr1too");
        }
        _ => panic!("expected graceful stops"),
    }
    match sup.route_signal(2) {
        SignalRoute::GracefulStops { stops } => assert_eq!(stops.len(), 0),
        _ => panic!("expected graceful stops"),
    }
}

#[test]
fn graceful_stop_marks_records_in_place() {
    let reg = registry_with(vec![("web", def(2, AutoRestart::Always, 10))]);
    let mut sup = Supervisor::new(reg);
    started(&mut sup, "web", 10, 100);
    let ids = sup.apply_graceful_stop("web", 140).expect("web was running");
    assert_eq!(ids, vec![10, 11]);
    assert_eq!(sup.status_of("web"), ProgramStatus::Running { count: 2 });
    assert!(sup.apply_graceful_stop("nosuch", 140).is_none());
}
