use std::cell::RefCell;
use std::rc::Rc;

use notify_manager::capability::Capability;
use notify_manager::error::{BackendError, Fault, Status};
use notify_manager::manager::{settles, Construct, Life, Live, Manager, Selector};

#[derive(Clone, Copy)]
enum Plan {
    Succeed,
    Missing,
    Exhausted,
    Unsupported,
    MissingAmongMany,
    CannotBuild,
}

type Log = Rc<RefCell<Vec<String>>>;

struct Mock {
    name: &'static str,
    caps: Vec<Capability>,
    plan: Plan,
    on: bool,
    last: Option<(Vec<Vec<u8>>, Status)>,
    log: Log,
}

impl Life for Mock {
    fn is_active(&self) -> bool {
        self.on
    }

    fn caps(&self) -> Vec<Capability> {
        self.caps.clone()
    }

    fn last_bind(&self) -> Option<(Vec<Vec<u8>>, Status)> {
        self.last.clone()
    }

    fn capabilities(&self) -> Vec<Capability> {
        self.caps.clone()
    }

    fn unsubscribe(&mut self) {
        self.log.borrow_mut().push(format!("unsubscribe {}", self.name));
        self.on = false;
    }

    fn bind(&mut self, paths: &[Vec<u8>]) -> Status {
        self.log.borrow_mut().push(format!("bind {}", self.name));
        let r = self.outcome(paths);
        self.last = Some((paths.to_vec(), r.clone()));
        r
    }

    fn active(&self) -> bool {
        self.on
    }
}

impl Mock {
    fn outcome(&mut self, paths: &[Vec<u8>]) -> Status {
        let first = paths[0].clone();
        match self.plan {
            Plan::Succeed => {
                self.on = true;
                Ok(())
            }
            Plan::Missing => Err(BackendError::Single(Fault::NonExistent(first))),
            Plan::Exhausted => Err(BackendError::Single(Fault::ResourceExhausted(Some(
                self.name.to_string(),
            )))),
            Plan::Unsupported => Err(BackendError::Single(Fault::NotSupported(
                Capability::WatchRecursively,
            ))),
            Plan::MissingAmongMany => Err(BackendError::Multiple(vec![
                Fault::Unavailable(None),
                Fault::NonExistent(first),
            ])),
            Plan::CannotBuild => unreachable!(),
        }
    }
}

struct Maker {
    name: &'static str,
    caps: Vec<Capability>,
    plan: Plan,
    log: Log,
}

impl Construct<Mock> for Maker {
    fn construct(
        &self,
        _handle: &tokio::reactor::Handle,
        _executor: &tokio::runtime::TaskExecutor,
    ) -> Result<Mock, BackendError> {
        self.log.borrow_mut().push(format!("construct {}", self.name));
        if let Plan::CannotBuild = self.plan {
            return Err(BackendError::Single(Fault::Unavailable(Some(format!("no {}", self.name)))));
        }
        Ok(Mock {
            name: self.name,
            caps: self.caps.clone(),
            plan: self.plan,
            on: false,
            last: None,
            log: self.log.clone(),
        })
    }
}

fn manager(
    rt: &tokio::runtime::Runtime,
    plans: &[(&'static str, Vec<Capability>, Plan)],
    log: &Log,
) -> Manager<Maker, Mock> {
    let mut m: Manager<Maker, Mock> = Manager::new(tokio::reactor::Handle::default(), rt.executor());
    for (name, caps, plan) in plans {
        m.add(Selector {
            f: Maker { name, caps: caps.clone(), plan: *plan, log: log.clone() },
            name: name.to_string(),
        });
    }
    assert!(m.enliven().is_empty());
    log.borrow_mut().clear();
    m
}

fn files() -> Vec<Capability> {
    vec![Capability::WatchFiles]
}

fn runtime() -> tokio::runtime::Runtime {
    tokio::runtime::Runtime::new().unwrap()
}

fn x() -> Vec<Vec<u8>> {
    vec![b"/tmp/x".to_vec()]
}

fn log() -> Log {
    Rc::new(RefCell::new(Vec::new()))
}

fn entries(log: &Log) -> Vec<String> {
    log.borrow().clone()
}

#[test]
fn fatal_failure_stops_before_later_backends() {
    let rt = runtime();
    let log = log();
    let plans = [("A", files(), Plan::Missing), ("B", files(), Plan::Unsupported), ("C", files(), Plan::Succeed)];
    let mut m = manager(&rt, &plans, &log);
    match m.bind(&x()) {
        Err(BackendError::Single(Fault::NonExistent(p))) => assert_eq!(p, b"/tmp/x".to_vec()),
        other => panic!("unexpected {:?}", other),
    }
    assert_eq!(entries(&log), vec!["bind A".to_string()]);
    assert_eq!(m.active(), None);
}

#[test]
fn soft_failures_fall_through_to_success() {
    let rt = runtime();
    let log = log();
    let plans = [("A", files(), Plan::Exhausted), ("B", files(), Plan::Unsupported), ("C", files(), Plan::Succeed)];
    let mut m = manager(&rt, &plans, &log);
    assert!(m.bind(&x()).is_ok());
    assert_eq!(entries(&log), vec!["bind A", "bind B", "bind C"]);
    let i = m.active().unwrap();
    assert_eq!(i, 2);
    assert_eq!(m.selectors[m.lives[i].selector].name, "C");
}

#[test]
fn first_success_short_circuits() {
    let rt = runtime();
    let log = log();
    let plans = [("A", files(), Plan::Succeed), ("B", files(), Plan::Succeed)];
    let mut m = manager(&rt, &plans, &log);
    assert!(m.bind(&x()).is_ok());
    assert_eq!(entries(&log), vec!["bind A"]);
    assert_eq!(m.active(), Some(0));
}

#[test]
fn fatal_failure_inside_many_stops_the_search() {
    let rt = runtime();
    let log = log();
    let plans = [("A", files(), Plan::Exhausted), ("B", files(), Plan::MissingAmongMany), ("C", files(), Plan::Succeed)];
    let mut m = manager(&rt, &plans, &log);
    let e = m.bind(&x()).unwrap_err();
    assert!(e.is_fatal());
    let faults = e.into_faults();
    assert_eq!(faults.len(), 2);
    assert!(matches!(faults[0], Fault::Unavailable(None)));
    assert!(matches!(&faults[1], Fault::NonExistent(p) if p == b"/tmp/x"));
    assert_eq!(entries(&log), vec!["bind A", "bind B"]);
}

#[test]
fn all_soft_failures_return_the_last() {
    let rt = runtime();
    let log = log();
    let plans = [("A", files(), Plan::Unsupported), ("B", files(), Plan::Exhausted)];
    let mut m = manager(&rt, &plans, &log);
    match m.bind(&x()) {
        Err(BackendError::Single(Fault::ResourceExhausted(Some(who)))) => assert_eq!(who, "B"),
        other => panic!("unexpected {:?}", other),
    }
    assert_eq!(entries(&log), vec!["bind A", "bind B"]);
    assert_eq!(m.active(), None);
}

#[test]
fn empty_live_list_gives_no_backend() {
    let rt = runtime();
    let log = log();
    let mut m = manager(&rt, &[], &log);
    match m.bind(&x()) {
        Err(BackendError::Single(Fault::Unavailable(Some(msg)))) => {
            assert_eq!(msg, "No backend available")
        }
        other => panic!("unexpected {:?}", other),
    }
    assert_eq!(m.active(), None);
}

#[test]
fn enliven_drops_instances_without_capabilities() {
    let rt = runtime();
    let log = log();
    let mut m: Manager<Maker, Mock> = Manager::new(tokio::reactor::Handle::default(), rt.executor());
    for (name, caps) in [("A", vec![]), ("B", files()), ("C", vec![]), ("D", vec![Capability::EmitRename, Capability::WatchFolders])] {
        m.add(Selector { f: Maker { name, caps, plan: Plan::Succeed, log: log.clone() }, name: name.to_string() });
    }
    assert!(m.enliven().is_empty());
    assert_eq!(m.lives.len(), 2);
    assert_eq!(m.lives[0].selector, 1);
    assert_eq!(m.lives[1].selector, 3);
    assert!(m.lives.iter().all(|l| !l.capabilities.is_empty()));
    assert_eq!(
        entries(&log),
        vec!["construct A", "construct B", "unsubscribe B", "construct C", "construct D", "unsubscribe D"]
    );
}

#[test]
fn enliven_replaces_the_previous_live_list() {
    let rt = runtime();
    let log = log();
    let plans = [("A", files(), Plan::Succeed)];
    let mut m = manager(&rt, &plans, &log);
    assert!(m.bind(&x()).is_ok());
    assert_eq!(m.active(), Some(0));
    assert!(m.enliven().is_empty());
    assert_eq!(m.lives.len(), 1);
    assert_eq!(m.active(), None);
}

#[test]
fn unsubscribe_leaves_no_active_backend() {
    let rt = runtime();
    let log = log();
    let plans = [("A", files(), Plan::Unsupported), ("B", files(), Plan::Succeed)];
    let mut m = manager(&rt, &plans, &log);
    assert_eq!(m.active(), None);
    assert!(m.bind(&x()).is_ok());
    let i = m.active().unwrap();
    assert_eq!(i, 1);
    assert_eq!(m.lives.iter().filter(|l| l.life.active()).count(), 1);
    m.lives[i].life.unsubscribe();
    assert_eq!(m.active(), None);
}

#[test]
fn builtins_register_kernel_queue_then_poll() {
    let rt = runtime();
    let log = log();
    let mut m: Manager<Maker, Mock> = Manager::new(tokio::reactor::Handle::default(), rt.executor());
    let mk = |name| Maker { name, caps: files(), plan: Plan::Succeed, log: log.clone() };
    m.builtins(Some(mk("kernel")), mk("poll"));
    let names: Vec<&str> = m.selectors.iter().map(|s| s.name.as_str()).collect();
    assert_eq!(names, vec!["Inotify", "Poll"]);
    m.builtins(None, mk("poll"));
    assert_eq!(m.selectors.len(), 3);
    assert_eq!(m.selectors[2].name, "Poll");
}

#[test]
fn enliven_reports_instances_that_cannot_be_built() {
    let rt = runtime();
    let log = log();
    let mut m: Manager<Maker, Mock> = Manager::new(tokio::reactor::Handle::default(), rt.executor());
    for (name, plan) in [("A", Plan::CannotBuild), ("B", Plan::Succeed), ("C", Plan::CannotBuild)] {
        m.add(Selector { f: Maker { name, caps: files(), plan, log: log.clone() }, name: name.to_string() });
    }
    let failures = m.enliven();
    assert_eq!(failures.len(), 2);
    assert_eq!(failures[0].0, 0);
    assert!(matches!(&failures[0].1, BackendError::Single(Fault::Unavailable(Some(s))) if s == "no A"));
    assert_eq!(failures[1].0, 2);
    assert_eq!(m.lives.len(), 1);
    assert_eq!(m.lives[0].selector, 1);
    assert!(m.bind(&x()).is_ok());
    assert_eq!(m.active(), Some(0));
}

#[test]
fn success_unsubscribes_the_previously_active_backend() {
    let rt = runtime();
    let log = log();
    let plans = [("A", files(), Plan::Succeed), ("B", files(), Plan::Succeed)];
    let mut m = manager(&rt, &plans, &log);
    assert!(m.bind(&x()).is_ok());
    assert_eq!(m.active(), Some(0));
    m.lives[0].life.plan = Plan::Exhausted;
    log.borrow_mut().clear();
    assert!(m.bind(&x()).is_ok());
    assert_eq!(entries(&log), vec!["bind A", "bind B", "unsubscribe A"]);
    assert_eq!(m.active(), Some(1));
    assert_eq!(m.lives.iter().filter(|l| l.life.active()).count(), 1);
}

#[test]
fn each_backend_tried_gets_the_paths_unchanged() {
    let rt = runtime();
    let log = log();
    let plans = [("A", files(), Plan::Unsupported), ("B", files(), Plan::Succeed), ("C", files(), Plan::Succeed)];
    let mut m = manager(&rt, &plans, &log);
    let paths = vec![b"/a".to_vec(), b"/b/c".to_vec()];
    assert!(m.bind(&paths).is_ok());
    assert_eq!(m.lives[0].life.last.as_ref().unwrap().0, paths);
    assert_eq!(m.lives[1].life.last.as_ref().unwrap().0, paths);
    assert!(m.lives[2].life.last.is_none());
}

#[test]
fn settles_on_success_and_fatal_only() {
    assert!(settles(&Ok(())));
    assert!(settles(&Err(BackendError::Single(Fault::NonExistent(b"/x".to_vec())))));
    assert!(!settles(&Err(BackendError::Single(Fault::ResourceExhausted(None)))));
    assert!(!settles(&Err(BackendError::no_backend())));
}

#[test]
fn take_built_sorts_one_constructor_result() {
    let log = log();
    let mk = |name, caps| Mock { name, caps, plan: Plan::Succeed, on: true, last: None, log: log.clone() };
    let mut lives: Vec<Live<Mock>> = Vec::new();
    let mut failures: Vec<(usize, BackendError)> = Vec::new();
    Manager::<Maker, Mock>::take_built(&mut lives, &mut failures, 0, Ok(mk("A", files())));
    Manager::<Maker, Mock>::take_built(&mut lives, &mut failures, 1, Ok(mk("B", vec![])));
    Manager::<Maker, Mock>::take_built(
        &mut lives,
        &mut failures,
        2,
        Err(BackendError::Single(Fault::Unavailable(Some("C".to_string())))),
    );
    assert_eq!(lives.len(), 1);
    assert_eq!(lives[0].selector, 0);
    assert_eq!(lives[0].capabilities, files());
    assert!(!lives[0].life.active());
    assert_eq!(failures.len(), 1);
    assert_eq!(failures[0].0, 2);
    assert!(matches!(&failures[0].1, BackendError::Single(Fault::Unavailable(Some(s))) if s == "C"));
    assert_eq!(entries(&log), vec!["unsubscribe A"]);
}
