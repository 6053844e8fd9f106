use taskmaster::program::{AutoRestart, Program};
use taskmaster::record::InstanceRecord;
use taskmaster::starter::{StartDirective, StartEvent, Starter};

fn def(numprocs: u32, startretries: u32, starttime: u32) -> Program {
    Program {
        cmd: String::from("/bin/false"),
        numprocs,
        umask: String::from("022"),
        workingdir: String::from("/tmp"),
        autostart: true,
        autorestart: AutoRestart::Never,
        exitcodes: vec![0],
        startretries,
        starttime,
        stopsignal: 15,
        stoptime: 2,
        stdout: String::from("/tmp/out.log"),
        stderr: String::from("/tmp/err.log"),
        env: Vec::new(),
    }
}

#[test]
fn all_success_yields_numprocs_instances() {
    let name = String::from("web");
    let mut st = Starter::new(&name, &def(3, 2, 0));
    let mut id: u64 = 100;
    loop {
        match st.directive() {
            StartDirective::Spawn { index } => {
                assert!(index < 3);
                st.on_spawn_ok(InstanceRecord::fresh(id, 50), 50);
                id += 1;
            }
            StartDirective::Exhausted { .. } => panic!("budget is positive"),
            StartDirective::Done => break,
        }
    }
    assert_eq!(st.records.len(), 3);
    assert_eq!(st.records[0].id, 100);
    assert_eq!(st.records[1].id, 101);
    assert_eq!(st.records[2].id, 102);
    assert!(st.records.iter().all(|r| !r.stop_requested));
}

#[test]
fn single_retry_failing_spawn_logs_one_failure() {
    let name = String::from("crashy");
    let mut st = Starter::new(&name, &def(1, 1, 0));
    let mut attempts = 0;
    loop {
        match st.directive() {
            StartDirective::Spawn { .. } => {
                attempts += 1;
                st.on_spawn_err();
            }
            StartDirective::Exhausted { .. } => panic!("budget is positive"),
            StartDirective::Done => break,
        }
    }
    assert_eq!(attempts, 1);
    assert_eq!(st.log, vec![StartEvent::Failed { index: 0 }]);
    assert_eq!(st.records.len(), 0);
}

#[test]
fn three_retries_then_give_up() {
    let name = String::from("crashy");
    let mut st = Starter::new(&name, &def(1, 3, 0));
    let mut attempts = 0;
    loop {
        match st.directive() {
            StartDirective::Spawn { .. } => {
                attempts += 1;
                st.on_spawn_err();
            }
            StartDirective::Exhausted { .. } => panic!("budget is positive"),
            StartDirective::Done => break,
        }
    }
    assert_eq!(attempts, 3);
    assert_eq!(
        st.log,
        vec![
            StartEvent::Retry { index: 0, next_attempt: 2 },
            StartEvent::Retry { index: 0, next_attempt: 3 },
            StartEvent::Failed { index: 0 },
        ]
    );
}

#[test]
fn success_after_one_failure() {
    let name = String::from("flaky");
    let mut st = Starter::new(&name, &def(1, 3, 0));
    st.on_spawn_err();
    st.on_spawn_ok(InstanceRecord::fresh(7, 10), 10);
    assert!(matches!(st.directive(), StartDirective::Done));
    assert_eq!(st.records.len(), 1);
    assert_eq!(
        st.log,
        vec![
            StartEvent::Retry { index: 0, next_attempt: 2 },
            StartEvent::WarmedUp { index: 0, elapsed: 0 },
            StartEvent::Started { index: 0 },
        ]
    );
}

#[test]
fn zero_numprocs_is_done_at_once() {
    let name = String::from("none");
    let st = Starter::new(&name, &def(0, 3, 0));
    assert!(matches!(st.directive(), StartDirective::Done));
    assert_eq!(st.records.len(), 0);
}

#[test]
fn zero_retry_budget_fails_without_spawning() {
    let name = String::from("nobudget");
    let mut st = Starter::new(&name, &def(2, 0, 0));
    let mut spawns = 0;
    loop {
        match st.directive() {
            StartDirective::Spawn { .. } => {
                spawns += 1;
                st.on_spawn_err();
            }
            StartDirective::Exhausted { .. } => {
                st.on_exhausted();
            }
            StartDirective::Done => break,
        }
    }
    assert_eq!(spawns, 0);
    assert_eq!(
        st.log,
        vec![StartEvent::Failed { index: 0 }, StartEvent::Failed { index: 1 }]
    );
}

#[test]
fn warmup_reported_only_with_zero_starttime_at_spawn() {
    let name = String::from("slow");
    let mut st = Starter::new(&name, &def(1, 1, 5));
    let warmed = st.on_spawn_ok(InstanceRecord::fresh(1, 100), 100);
    assert_eq!(warmed, None);
    assert!(!st.records[0].successfully_started);

    let name2 = String::from("fast");
    let mut st2 = Starter::new(&name2, &def(1, 1, 0));
    let warmed2 = st2.on_spawn_ok(InstanceRecord::fresh(2, 100), 100);
    assert_eq!(warmed2, Some(0));
    assert!(st2.records[0].successfully_started);
}
