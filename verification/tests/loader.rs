use std::cell::RefCell;

use libc::c_int;
use lindera::mode::Mode;
use lindera_sqlite::{
    cast_usize_to_c_int, ensure_fts5_api_version, ffi_panic_boundary, internal_on_failure,
    lindera_fts5_tokenizer_init, lindera_fts_tokenizer_internal_init,
    register_lindera_tokenizer, HostCall, SqliteApi, FTS5_API_VERSION, MINIMUM_SQLITE_VERSION,
    SQLITE_INTERNAL, SQLITE_MISUSE, SQLITE_OK,
};

/// What a host answers to each kind of request; `None` is a capability it
/// lacks.
#[derive(Clone, Copy)]
struct Host {
    version: Option<c_int>,
    prepare: Option<c_int>,
    bind: Option<c_int>,
    step: Option<c_int>,
    finalize: Option<c_int>,
    fts5_version: Option<c_int>,
    create: Option<c_int>,
}

impl Host {
    fn healthy() -> Host {
        Host {
            version: Some(3_045_001),
            prepare: Some(SQLITE_OK),
            bind: Some(SQLITE_OK),
            step: Some(100),
            finalize: Some(SQLITE_OK),
            fts5_version: Some(2),
            create: Some(SQLITE_OK),
        }
    }

    fn reply(&self, call: HostCall) -> Option<c_int> {
        match call {
            HostCall::LibversionNumber => self.version,
            HostCall::Prepare(_) => self.prepare,
            HostCall::BindPointer(_, _) => self.bind,
            HostCall::Step => self.step,
            HostCall::Finalize => self.finalize,
            HostCall::Fts5ApiVersion => self.fts5_version,
            HostCall::CreateTokenizer(_) => self.create,
        }
    }
}

fn load(host: Host) -> (c_int, Vec<HostCall>) {
    let calls: RefCell<Vec<HostCall>> = RefCell::new(vec![]);
    let (status, table) = lindera_fts5_tokenizer_init(Some(|call: HostCall| {
        calls.borrow_mut().push(call);
        host.reply(call)
    }));
    assert!(table.is_some());
    drop(table);
    (status, calls.into_inner())
}

fn prepare() -> HostCall {
    HostCall::Prepare("SELECT fts5(?1)")
}

fn bind() -> HostCall {
    HostCall::BindPointer(1, "fts5_api_ptr")
}

fn create() -> HostCall {
    HostCall::CreateTokenizer("lindera_tokenizer")
}

fn count(calls: &[HostCall], wanted: HostCall) -> usize {
    calls.iter().filter(|call| **call == wanted).count()
}

#[test]
fn constants_of_the_protocol() {
    assert_eq!(SQLITE_OK, 0);
    assert_eq!(SQLITE_INTERNAL, 2);
    assert_eq!(SQLITE_MISUSE, 21);
    assert_eq!(FTS5_API_VERSION, 2);
    assert_eq!(MINIMUM_SQLITE_VERSION, 302000);
}

#[test]
fn healthy_host_is_loaded_in_order() {
    let (status, calls) = load(Host::healthy());
    assert_eq!(status, SQLITE_OK);
    assert_eq!(
        calls,
        vec![
            HostCall::LibversionNumber,
            prepare(),
            bind(),
            HostCall::Step,
            HostCall::Finalize,
            HostCall::Fts5ApiVersion,
            create(),
        ]
    );
}

#[test]
fn host_below_the_minimum_version_is_misuse_without_registration() {
    let (status, calls) = load(Host { version: Some(301_999), ..Host::healthy() });
    assert_eq!(status, SQLITE_MISUSE);
    assert_eq!(calls, vec![HostCall::LibversionNumber]);
    assert_eq!(count(&calls, create()), 0);
}

#[test]
fn host_at_the_minimum_version_is_accepted() {
    let (status, calls) = load(Host { version: Some(302_000), ..Host::healthy() });
    assert_eq!(status, SQLITE_OK);
    assert_eq!(count(&calls, create()), 1);
}

#[test]
fn host_that_cannot_tell_its_version_is_internal() {
    let (status, calls) = load(Host { version: None, ..Host::healthy() });
    assert_eq!(status, SQLITE_INTERNAL);
    assert_eq!(calls, vec![HostCall::LibversionNumber]);
}

#[test]
fn unexpected_search_api_version_is_misuse_without_registration() {
    for version in [1 as c_int, 3, 0, -2] {
        let (status, calls) = load(Host { fts5_version: Some(version), ..Host::healthy() });
        assert_eq!(status, SQLITE_MISUSE);
        assert_eq!(calls.last(), Some(&HostCall::Fts5ApiVersion));
        assert_eq!(count(&calls, create()), 0);
        assert_eq!(count(&calls, HostCall::Finalize), 1);
    }
}

#[test]
fn missing_search_api_is_internal() {
    let (status, calls) = load(Host { fts5_version: None, ..Host::healthy() });
    assert_eq!(status, SQLITE_INTERNAL);
    assert_eq!(count(&calls, create()), 0);
}

#[test]
fn prepare_failure_is_propagated_and_nothing_is_finalized() {
    let (status, calls) = load(Host { prepare: Some(7), ..Host::healthy() });
    assert_eq!(status, 7);
    assert_eq!(calls, vec![HostCall::LibversionNumber, prepare()]);

    let (status, calls) = load(Host { prepare: None, ..Host::healthy() });
    assert_eq!(status, SQLITE_INTERNAL);
    assert_eq!(calls, vec![HostCall::LibversionNumber, prepare()]);
}

#[test]
fn bind_failure_is_propagated_after_the_statement_is_finalized() {
    let (status, calls) = load(Host { bind: Some(25), ..Host::healthy() });
    assert_eq!(status, 25);
    assert_eq!(calls, vec![HostCall::LibversionNumber, prepare(), bind(), HostCall::Finalize]);

    let (status, calls) = load(Host { bind: None, finalize: Some(9), ..Host::healthy() });
    assert_eq!(status, SQLITE_INTERNAL);
    assert_eq!(calls, vec![HostCall::LibversionNumber, prepare(), bind(), HostCall::Finalize]);
}

#[test]
fn step_result_is_not_used() {
    for step in [Some(1 as c_int), Some(101), Some(SQLITE_OK), None] {
        let (status, calls) = load(Host { step, ..Host::healthy() });
        assert_eq!(status, SQLITE_OK);
        assert_eq!(calls.len(), 7);
    }
}

#[test]
fn finalize_failure_is_propagated_without_registration() {
    let (status, calls) = load(Host { finalize: Some(5), ..Host::healthy() });
    assert_eq!(status, 5);
    assert_eq!(calls.last(), Some(&HostCall::Finalize));
    assert_eq!(count(&calls, HostCall::Finalize), 1);
    assert_eq!(count(&calls, create()), 0);

    let (status, calls) = load(Host { finalize: None, ..Host::healthy() });
    assert_eq!(status, SQLITE_INTERNAL);
    assert_eq!(calls.len(), 5);
}

#[test]
fn registration_status_is_not_used() {
    for create_status in [Some(1 as c_int), None] {
        let (status, calls) = load(Host { create: create_status, ..Host::healthy() });
        assert_eq!(status, SQLITE_OK);
        assert_eq!(calls.last(), Some(&create()));
    }
}

#[test]
fn missing_table_is_internal() {
    let none: Option<fn(HostCall) -> Option<c_int>> = None;
    let (status, table) = lindera_fts5_tokenizer_init(none);
    assert_eq!(status, SQLITE_INTERNAL);
    assert!(table.is_none());
    assert_eq!(SqliteApi::new(none).err(), Some(SQLITE_INTERNAL));
}

#[test]
fn statement_is_finalized_once_on_every_path() {
    let outcomes: [Option<c_int>; 3] = [Some(SQLITE_OK), Some(1), None];
    for bind in outcomes {
        for finalize in outcomes {
            for fts5_version in [Some(2 as c_int), Some(1), None] {
                let host = Host { bind, finalize, fts5_version, ..Host::healthy() };
                let (_, calls) = load(host);
                assert_eq!(count(&calls, prepare()), 1);
                assert_eq!(count(&calls, HostCall::Finalize), 1);
                let finalized =
                    calls.iter().position(|call| *call == HostCall::Finalize).expect("finalized");
                for later in &calls[finalized + 1..] {
                    assert!(*later == HostCall::Fts5ApiVersion || *later == create());
                }
            }
        }
    }
}

#[test]
fn internal_init_reports_the_refusal_as_error() {
    let host = Host { fts5_version: Some(1), ..Host::healthy() };
    let mut api = SqliteApi::new(Some(|call: HostCall| host.reply(call))).ok().expect("a table");
    assert_eq!(lindera_fts_tokenizer_internal_init(&mut api), Err(SQLITE_MISUSE));

    let host = Host::healthy();
    let mut api = SqliteApi::new(Some(|call: HostCall| host.reply(call))).ok().expect("a table");
    assert_eq!(lindera_fts_tokenizer_internal_init(&mut api), Ok(()));
}

#[test]
fn steps_of_the_load_one_by_one() {
    let calls: RefCell<Vec<HostCall>> = RefCell::new(vec![]);
    let host = Host { bind: Some(3), step: None, ..Host::healthy() };
    let mut api = SqliteApi::new(Some(|call: HostCall| {
        calls.borrow_mut().push(call);
        host.reply(call)
    }))
    .ok()
    .expect("a table");

    assert_eq!(api.ensure_supported_version(), Ok(()));
    let mut statement = api.prepare_statement().ok().expect("a statement");
    assert_eq!(statement.bind_fts5_pointer(&mut api), Err(3));
    statement.step(&mut api);
    assert_eq!(api.step(), SQLITE_INTERNAL);
    assert_eq!(statement.finalize(&mut api), Ok(()));
    assert_eq!(api.fts5_api_version(), Some(2));
    register_lindera_tokenizer(&mut api);
    assert_eq!(api.finalize(), SQLITE_OK);
    assert_eq!(api.bind_fts5_pointer(), Err(3));

    assert_eq!(
        calls.into_inner(),
        vec![
            HostCall::LibversionNumber,
            prepare(),
            bind(),
            HostCall::Step,
            HostCall::Step,
            HostCall::Finalize,
            HostCall::Fts5ApiVersion,
            create(),
            HostCall::Finalize,
            bind(),
        ]
    );
}

#[test]
fn released_statement_is_finalized() {
    let calls: RefCell<Vec<HostCall>> = RefCell::new(vec![]);
    let host = Host { finalize: Some(4), ..Host::healthy() };
    let mut api = SqliteApi::new(Some(|call: HostCall| {
        calls.borrow_mut().push(call);
        host.reply(call)
    }))
    .ok()
    .expect("a table");
    let statement = api.prepare_statement().ok().expect("a statement");
    statement.release(&mut api);
    assert_eq!(calls.into_inner(), vec![prepare(), HostCall::Finalize]);
}

#[test]
fn only_the_expected_search_api_version_passes() {
    assert_eq!(ensure_fts5_api_version(2), Ok(()));
    assert_eq!(ensure_fts5_api_version(1), Err(SQLITE_MISUSE));
    assert_eq!(ensure_fts5_api_version(3), Err(SQLITE_MISUSE));
    assert_eq!(ensure_fts5_api_version(c_int::MIN), Err(SQLITE_MISUSE));
}

#[test]
fn outcome_of_an_operation_becomes_a_status() {
    assert_eq!(ffi_panic_boundary(Some(Ok(()))), SQLITE_OK);
    assert_eq!(ffi_panic_boundary(Some(Err(21))), 21);
    assert_eq!(ffi_panic_boundary(Some(Err(SQLITE_OK))), SQLITE_OK);
    assert_eq!(ffi_panic_boundary(None), SQLITE_INTERNAL);
}

#[test]
fn lengths_are_cast_or_refused() {
    assert_eq!(cast_usize_to_c_int(0), Ok(0));
    assert_eq!(cast_usize_to_c_int(96), Ok(96));
    assert_eq!(cast_usize_to_c_int(2_147_483_647), Ok(c_int::MAX));
    assert_eq!(cast_usize_to_c_int(2_147_483_648), Err(SQLITE_INTERNAL));
    assert_eq!(cast_usize_to_c_int(usize::MAX), Err(SQLITE_INTERNAL));
}

#[test]
fn analyzer_error_becomes_internal() {
    let failed = "no such mode".parse::<Mode>();
    assert!(failed.is_err());
    assert_eq!(internal_on_failure(failed).err(), Some(SQLITE_INTERNAL));
    let parsed = "normal".parse::<Mode>();
    assert!(matches!(internal_on_failure(parsed), Ok(Mode::Normal)));
}
