//! Loading the module into the host: negotiating versions, fetching the
//! search API through a scoped statement, and registering the tokenizer.

use crate::common::{ffi_panic_boundary, status_of, Fts5Tokenizer};
use crate::common::{SQLITE_INTERNAL, SQLITE_MISUSE, SQLITE_OK};
use libc::c_int;
use vstd::prelude::*;

verus! {

/// The version of the search API that this module is built against.
pub const FTS5_API_VERSION: c_int = 2;

/// The lowest host version with which the module registers.
pub const MINIMUM_SQLITE_VERSION: c_int = 302000;

/// The statement through which the host hands out its search API.
pub const FTS5_API_QUERY: &'static str = "SELECT fts5(?1)";

/// The parameter of the statement to which the output slot is bound.
pub const FTS5_API_PARAMETER: c_int = 1;

/// The type tag under which the output slot is bound.
pub const FTS5_API_POINTER_TYPE: &'static str = "fts5_api_ptr";

/// The name under which the tokenizer is registered.
pub const TOKENIZER_NAME: &'static str = "lindera_tokenizer";

/// One request to the host.
#[derive(Clone, Copy, Debug, PartialEq, Eq)]
pub enum HostCall {
    /// Ask for the host's version number.
    LibversionNumber,
    /// Prepare the statement with this text.
    Prepare(&'static str),
    /// Bind the output slot for the search API to this parameter of the
    /// statement, under this type tag.
    BindPointer(c_int, &'static str),
    /// Execute one step of the statement.
    Step,
    /// Finalize the statement.
    Finalize,
    /// Read the version of the search API that the host handed out.
    Fts5ApiVersion,
    /// Register the tokenizer module under this name.
    CreateTokenizer(&'static str),
}

/// A request together with the host's answer: the number or status it
/// returned, or `None` where the host lacks the capability asked for.
pub ghost struct Exchange {
    pub call: HostCall,
    pub reply: Option<c_int>,
}

/// Whether `host` may be asked every request.
pub open spec fn answers_every_call<H: Fn(HostCall) -> Option<c_int>>(host: H) -> bool {
    forall|call: HostCall| call_requires(host, (call,))
}

/// Whether the reply recorded in `exchange` is one that `host` may give to
/// the request recorded there.
pub open spec fn host_answered<H: Fn(HostCall) -> Option<c_int>>(host: H, exchange: Exchange)
    -> bool {
    call_ensures(host, (exchange.call,), exchange.reply)
}

/// Whether `after` is `before` followed by one exchange, for `call`.
pub open spec fn asked(before: Seq<Exchange>, after: Seq<Exchange>, call: HostCall) -> bool {
    &&& after.len() == before.len() + 1
    &&& after.drop_last() == before
    &&& after.last().call == call
}

/// The status with which a reply refuses a request that returns a status:
/// `SQLITE_INTERNAL` where the capability is missing, the host's own status
/// where that is not `SQLITE_OK`, and none where the host succeeded.
pub open spec fn refusal(reply: Option<c_int>) -> Option<c_int> {
    match reply {
        None => Some(SQLITE_INTERNAL),
        Some(status) => if status == SQLITE_OK {
            None
        } else {
            Some(status)
        },
    }
}

/// The status with which the host's version refuses the module:
/// `SQLITE_INTERNAL` where the host cannot tell its version, `SQLITE_MISUSE`
/// where the version is below the minimum, none otherwise.
pub open spec fn version_refusal(reply: Option<c_int>) -> Option<c_int> {
    match reply {
        None => Some(SQLITE_INTERNAL),
        Some(version) => if version < MINIMUM_SQLITE_VERSION {
            Some(SQLITE_MISUSE)
        } else {
            None
        },
    }
}

/// The status with which the search API refuses the module:
/// `SQLITE_INTERNAL` where the host handed none out, `SQLITE_MISUSE` where
/// its version is not `FTS5_API_VERSION`, none otherwise.
pub open spec fn api_refusal(reply: Option<c_int>) -> Option<c_int> {
    match reply {
        None => Some(SQLITE_INTERNAL),
        Some(version) => if version == FTS5_API_VERSION {
            None
        } else {
            Some(SQLITE_MISUSE)
        },
    }
}

/// The result that a refusal, or its absence, stands for.
pub open spec fn refused_or_ok(refusal: Option<c_int>) -> Result<(), c_int> {
    match refusal {
        Some(code) => Err(code),
        None => Ok(()),
    }
}

/// The status that a reply to `Step` or `Finalize` stands for.
pub open spec fn reply_status(reply: Option<c_int>) -> c_int {
    match reply {
        None => SQLITE_INTERNAL,
        Some(status) => status,
    }
}

/// The host's table of capabilities, borrowed for one load, together with
/// the record of every exchange made through it.
pub struct SqliteApi<H: Fn(HostCall) -> Option<c_int>> {
    raw: H,
    log: Ghost<Seq<Exchange>>,
}

/// The statement that is open between its preparation and its
/// finalization. It can be had only from `SqliteApi::prepare_statement`.
pub struct PreparedStatement {
    finalized: bool,
}

impl<H: Fn(HostCall) -> Option<c_int>> SqliteApi<H> {
    #[verifier::type_invariant]
    spec fn callable(self) -> bool {
        answers_every_call(self.raw)
    }

    /// The exchanges made so far, oldest first.
    pub closed spec fn exchanges(&self) -> Seq<Exchange> {
        self.log@
    }

    /// The host that is asked.
    pub closed spec fn host(&self) -> H {
        self.raw
    }

    /// Borrows the host's table; a missing table is an internal error.
    pub fn new(p_api: Option<H>) -> (r: Result<Self, c_int>)
        requires
            p_api matches Some(raw) ==> answers_every_call(raw),
        ensures
            match p_api {
                Some(raw) => r matches Ok(api) && api.host() == raw && api.exchanges()
                    == Seq::<Exchange>::empty(),
                None => r matches Err(code) && code == SQLITE_INTERNAL,
            },
    {
        match p_api {
            Some(raw) => Ok(SqliteApi { raw, log: Ghost(Seq::empty()) }),
            None => Err(SQLITE_INTERNAL),
        }
    }

    /// Makes one request and records it with its answer.
    fn request(&mut self, call: HostCall) -> (reply: Option<c_int>)
        ensures
            final(self).host() == old(self).host(),
            asked(old(self).exchanges(), final(self).exchanges(), call),
            final(self).exchanges().last().reply == reply,
            host_answered(old(self).host(), final(self).exchanges().last()),
    {
        proof {
            use_type_invariant(&*self);
        }
        let reply = (self.raw)(call);
        proof {
            self.log@ = self.log@.push(Exchange { call, reply });
            assert(self.log@.drop_last() =~= old(self).log@);
        }
        reply
    }

    /// Asks the host for its version and refuses one below the minimum.
    pub fn ensure_supported_version(&mut self) -> (r: Result<(), c_int>)
        ensures
            final(self).host() == old(self).host(),
            asked(old(self).exchanges(), final(self).exchanges(), HostCall::LibversionNumber),
            host_answered(old(self).host(), final(self).exchanges().last()),
            r == refused_or_ok(version_refusal(final(self).exchanges().last().reply)),
    {
        match self.request(HostCall::LibversionNumber) {
            None => Err(SQLITE_INTERNAL),
            Some(version) => {
                if version < MINIMUM_SQLITE_VERSION {
                    Err(SQLITE_MISUSE)
                } else {
                    Ok(())
                }
            },
        }
    }

    /// Prepares the statement that fetches the search API. The statement
    /// is open exactly when this succeeds.
    pub fn prepare_statement(&mut self) -> (r: Result<PreparedStatement, c_int>)
        ensures
            final(self).host() == old(self).host(),
            asked(
                old(self).exchanges(),
                final(self).exchanges(),
                HostCall::Prepare(FTS5_API_QUERY),
            ),
            host_answered(old(self).host(), final(self).exchanges().last()),
            match r {
                Ok(statement) => refusal(final(self).exchanges().last().reply) is None
                    && !statement.is_finalized(),
                Err(code) => refusal(final(self).exchanges().last().reply) == Some(code),
            },
    {
        match self.request(HostCall::Prepare(FTS5_API_QUERY)) {
            None => Err(SQLITE_INTERNAL),
            Some(rc) => {
                if rc != SQLITE_OK {
                    return Err(rc);
                }
                Ok(PreparedStatement::new())
            },
        }
    }

    /// Binds the output slot for the search API to the open statement.
    pub fn bind_fts5_pointer(&mut self) -> (r: Result<(), c_int>)
        ensures
            final(self).host() == old(self).host(),
            asked(
                old(self).exchanges(),
                final(self).exchanges(),
                HostCall::BindPointer(FTS5_API_PARAMETER, FTS5_API_POINTER_TYPE),
            ),
            host_answered(old(self).host(), final(self).exchanges().last()),
            r == refused_or_ok(refusal(final(self).exchanges().last().reply)),
    {
        match self.request(HostCall::BindPointer(FTS5_API_PARAMETER, FTS5_API_POINTER_TYPE)) {
            None => Err(SQLITE_INTERNAL),
            Some(rc) => {
                if rc == SQLITE_OK {
                    Ok(())
                } else {
                    Err(rc)
                }
            },
        }
    }

    /// Executes one step of the open statement and gives the host's status.
    pub fn step(&mut self) -> (status: c_int)
        ensures
            final(self).host() == old(self).host(),
            asked(old(self).exchanges(), final(self).exchanges(), HostCall::Step),
            host_answered(old(self).host(), final(self).exchanges().last()),
            status == reply_status(final(self).exchanges().last().reply),
    {
        match self.request(HostCall::Step) {
            Some(status) => status,
            None => SQLITE_INTERNAL,
        }
    }

    /// Finalizes the open statement and gives the host's status.
    pub fn finalize(&mut self) -> (status: c_int)
        ensures
            final(self).host() == old(self).host(),
            asked(old(self).exchanges(), final(self).exchanges(), HostCall::Finalize),
            host_answered(old(self).host(), final(self).exchanges().last()),
            status == reply_status(final(self).exchanges().last().reply),
    {
        match self.request(HostCall::Finalize) {
            Some(status) => status,
            None => SQLITE_INTERNAL,
        }
    }

    /// Reads the version of the search API that the host handed out
    /// through the bound slot; `None` where it handed out nothing.
    pub fn fts5_api_version(&mut self) -> (version: Option<c_int>)
        ensures
            final(self).host() == old(self).host(),
            asked(old(self).exchanges(), final(self).exchanges(), HostCall::Fts5ApiVersion),
            host_answered(old(self).host(), final(self).exchanges().last()),
            version == final(self).exchanges().last().reply,
    {
        self.request(HostCall::Fts5ApiVersion)
    }
}

impl PreparedStatement {
    /// Whether the statement has been finalized.
    pub closed spec fn is_finalized(&self) -> bool {
        self.finalized
    }

    fn new() -> (statement: Self)
        ensures
            !statement.is_finalized(),
    {
        PreparedStatement { finalized: false }
    }

    /// Binds the output slot for the search API to this statement.
    pub fn bind_fts5_pointer<H: Fn(HostCall) -> Option<c_int>>(
        &mut self,
        api: &mut SqliteApi<H>,
    ) -> (r: Result<(), c_int>)
        ensures
            final(self).is_finalized() == old(self).is_finalized(),
            final(api).host() == old(api).host(),
            asked(
                old(api).exchanges(),
                final(api).exchanges(),
                HostCall::BindPointer(FTS5_API_PARAMETER, FTS5_API_POINTER_TYPE),
            ),
            host_answered(old(api).host(), final(api).exchanges().last()),
            r == refused_or_ok(refusal(final(api).exchanges().last().reply)),
    {
        api.bind_fts5_pointer()
    }

    /// Executes one step of this statement; the host's status is not used.
    pub fn step<H: Fn(HostCall) -> Option<c_int>>(&mut self, api: &mut SqliteApi<H>)
        ensures
            final(self).is_finalized() == old(self).is_finalized(),
            final(api).host() == old(api).host(),
            asked(old(api).exchanges(), final(api).exchanges(), HostCall::Step),
            host_answered(old(api).host(), final(api).exchanges().last()),
    {
        api.step();
    }

    /// Finalizes this statement, once, and reports a status other than
    /// `SQLITE_OK` as the error.
    pub fn finalize<H: Fn(HostCall) -> Option<c_int>>(self, api: &mut SqliteApi<H>) -> (r: Result<
        (),
        c_int,
    >)
        ensures
            final(api).host() == old(api).host(),
            asked(old(api).exchanges(), final(api).exchanges(), HostCall::Finalize),
            host_answered(old(api).host(), final(api).exchanges().last()),
            r == refused_or_ok(refusal(final(api).exchanges().last().reply)),
    {
        let mut statement = self;
        let rc = api.finalize();
        statement.finalized = true;
        statement.release(api);
        if rc == SQLITE_OK {
            Ok(())
        } else {
            Err(rc)
        }
    }

    /// Gives the statement up: it is finalized unless it already was, and
    /// the host's status is not used.
    pub fn release<H: Fn(HostCall) -> Option<c_int>>(self, api: &mut SqliteApi<H>)
        ensures
            final(api).host() == old(api).host(),
            if self.is_finalized() {
                final(api).exchanges() == old(api).exchanges()
            } else {
                asked(old(api).exchanges(), final(api).exchanges(), HostCall::Finalize)
                    && host_answered(old(api).host(), final(api).exchanges().last())
            },
    {
        if !self.finalized {
            api.finalize();
        }
    }
}

/// Accepts exactly the version of the search API that the module is built
/// against; any other is a misuse.
pub fn ensure_fts5_api_version(version: c_int) -> (r: Result<(), c_int>)
    ensures
        r == if version == FTS5_API_VERSION {
            Ok::<(), c_int>(())
        } else {
            Err::<(), c_int>(SQLITE_MISUSE)
        },
{
    if version == FTS5_API_VERSION {
        Ok(())
    } else {
        Err(SQLITE_MISUSE)
    }
}

/// Registers the tokenizer module with the search API under its fixed
/// name. The host's answer is not used.
pub fn register_lindera_tokenizer<H: Fn(HostCall) -> Option<c_int>>(api: &mut SqliteApi<H>)
    ensures
        final(api).host() == old(api).host(),
        asked(
            old(api).exchanges(),
            final(api).exchanges(),
            HostCall::CreateTokenizer(TOKENIZER_NAME),
        ),
        host_answered(old(api).host(), final(api).exchanges().last()),
{
    api.request(HostCall::CreateTokenizer(TOKENIZER_NAME));
}

/// Whether the exchanges `made`, in this order, and the result `r` are one
/// load of the module.
///
/// The host is asked for its version; then the statement is prepared,
/// bound, stepped and finalized; then the search API is read and the
/// tokenizer registered. The first refusal ends the load with its status,
/// after the statement, where it is open, has been finalized.
pub open spec fn loaded(made: Seq<Exchange>, r: Result<(), c_int>) -> bool {
    &&& made.len() >= 1
    &&& made[0].call == HostCall::LibversionNumber
    &&& if version_refusal(made[0].reply) is Some {
        made.len() == 1 && r == refused_or_ok(version_refusal(made[0].reply))
    } else {
        &&& made.len() >= 2
        &&& made[1].call == HostCall::Prepare(FTS5_API_QUERY)
        &&& if refusal(made[1].reply) is Some {
            made.len() == 2 && r == refused_or_ok(refusal(made[1].reply))
        } else {
            &&& made.len() >= 4
            &&& made[2].call == HostCall::BindPointer(FTS5_API_PARAMETER, FTS5_API_POINTER_TYPE)
            &&& if refusal(made[2].reply) is Some {
                &&& made.len() == 4
                &&& made[3].call == HostCall::Finalize
                &&& r == refused_or_ok(refusal(made[2].reply))
            } else {
                &&& made.len() >= 5
                &&& made[3].call == HostCall::Step
                &&& made[4].call == HostCall::Finalize
                &&& if refusal(made[4].reply) is Some {
                    made.len() == 5 && r == refused_or_ok(refusal(made[4].reply))
                } else {
                    &&& made.len() >= 6
                    &&& made[5].call == HostCall::Fts5ApiVersion
                    &&& if api_refusal(made[5].reply) is Some {
                        made.len() == 6 && r == refused_or_ok(api_refusal(made[5].reply))
                    } else {
                        &&& made.len() == 7
                        &&& made[6].call == HostCall::CreateTokenizer(TOKENIZER_NAME)
                        &&& r is Ok
                    }
                }
            }
        }
    }
}

/// Whether the host's version was accepted and the statement prepared, so
/// that the statement was open at some time.
pub open spec fn statement_opened(made: Seq<Exchange>) -> bool {
    &&& made.len() >= 2
    &&& version_refusal(made[0].reply) is None
    &&& refusal(made[1].reply) is None
}

/// A host below the minimum version is refused as a misuse, and nothing is
/// asked of it beyond its version: no statement is prepared and no
/// tokenizer is registered.
pub proof fn lemma_old_host_is_refused(made: Seq<Exchange>, r: Result<(), c_int>, version: c_int)
    requires
        loaded(made, r),
        made[0].reply == Some(version),
        version < MINIMUM_SQLITE_VERSION,
    ensures
        r == Err::<(), c_int>(SQLITE_MISUSE),
        made.len() == 1,
        forall|i: int| 0 <= i < made.len() ==> !((#[trigger] made[i]).call is CreateTokenizer),
{
}

/// A search API of any version but the expected one is refused as a
/// misuse, and no tokenizer is registered.
pub proof fn lemma_unexpected_api_is_refused(
    made: Seq<Exchange>,
    r: Result<(), c_int>,
    at: int,
    version: c_int,
)
    requires
        loaded(made, r),
        0 <= at < made.len(),
        made[at].call is Fts5ApiVersion,
        made[at].reply == Some(version),
        version != FTS5_API_VERSION,
    ensures
        r == Err::<(), c_int>(SQLITE_MISUSE),
        at == made.len() - 1,
        forall|i: int| 0 <= i < made.len() ==> !((#[trigger] made[i]).call is CreateTokenizer),
{
}

/// Registration comes last and only after every validation: where the
/// tokenizer is registered, the host's version and the search API were
/// accepted, the statement was prepared, bound and finalized without a
/// refusal, and the load succeeds.
pub proof fn lemma_registration_is_last(made: Seq<Exchange>, r: Result<(), c_int>, at: int)
    requires
        loaded(made, r),
        0 <= at < made.len(),
        made[at].call is CreateTokenizer,
    ensures
        r is Ok,
        at == made.len() - 1,
        made[at].call == HostCall::CreateTokenizer(TOKENIZER_NAME),
        version_refusal(made[0].reply) is None,
        refusal(made[1].reply) is None,
        refusal(made[2].reply) is None,
        refusal(made[4].reply) is None,
        api_refusal(made[5].reply) is None,
{
}

/// A load succeeds only by registering the tokenizer, as its last step.
pub proof fn lemma_success_registers(made: Seq<Exchange>, r: Result<(), c_int>)
    requires
        loaded(made, r),
        r is Ok,
    ensures
        made.len() == 7,
        made.last().call == HostCall::CreateTokenizer(TOKENIZER_NAME),
{
}

/// The statement is finalized exactly once on every path on which it was
/// open, and never otherwise; and nothing is asked of the statement after
/// its finalization.
pub proof fn lemma_statement_finalized_once(made: Seq<Exchange>, r: Result<(), c_int>)
    requires
        loaded(made, r),
    ensures
        statement_opened(made) <==> exists|i: int|
            0 <= i < made.len() && (#[trigger] made[i]).call is Finalize,
        forall|i: int, j: int|
            0 <= i < made.len() && 0 <= j < made.len() && (#[trigger] made[i]).call is Finalize && (
            #[trigger] made[j]).call is Finalize ==> i == j,
        forall|i: int, j: int|
            0 <= i < made.len() && 0 <= j < made.len() && (#[trigger] made[i]).call is Finalize && (
            (#[trigger] made[j]).call is Prepare || made[j].call is BindPointer
                || made[j].call is Step) ==> j < i,
{
    if statement_opened(made) {
        if refusal(made[2].reply) is Some {
            assert(made[3].call is Finalize);
        } else {
            assert(made[4].call is Finalize);
        }
    }
}

/// Loads the module into the host behind `api`.
///
/// The exchanges made are recorded in `api`; together with the result they
/// are one load as `loaded` describes it.
pub fn lindera_fts_tokenizer_internal_init<H: Fn(HostCall) -> Option<c_int>>(
    api: &mut SqliteApi<H>,
) -> (r: Result<(), c_int>)
    ensures
        final(api).host() == old(api).host(),
        old(api).exchanges().is_prefix_of(final(api).exchanges()),
        loaded(final(api).exchanges().skip(old(api).exchanges().len() as int), r),
        forall|i: int|
            old(api).exchanges().len() <= i < final(api).exchanges().len() ==> host_answered(
                old(api).host(),
                #[trigger] final(api).exchanges()[i],
            ),
{
    api.ensure_supported_version()?;

    let mut stmt = api.prepare_statement()?;
    match stmt.bind_fts5_pointer(api) {
        Ok(()) => {},
        Err(code) => {
            stmt.release(api);
            return Err(code);
        },
    }
    stmt.step(api);
    stmt.finalize(api)?;

    let version = match api.fts5_api_version() {
        Some(version) => version,
        None => {
            return Err(SQLITE_INTERNAL);
        },
    };
    ensure_fts5_api_version(version)?;
    register_lindera_tokenizer(api);

    Ok(())
}

/// The load entry of the module: the status that the host is given, and
/// the host's table with the record of what was asked of it.
///
/// A missing table gives `SQLITE_INTERNAL` and nothing to ask. Otherwise
/// the module is loaded through the table: the exchanges recorded are those
/// of one load, and the status is that of the load.
pub fn lindera_fts5_tokenizer_init<H: Fn(HostCall) -> Option<c_int>>(p_api: Option<H>) -> (load: (
    c_int,
    Option<SqliteApi<H>>,
))
    requires
        p_api matches Some(raw) ==> answers_every_call(raw),
    ensures
        match p_api {
            None => load.0 == SQLITE_INTERNAL && load.1 is None,
            Some(raw) => {
                &&& load.1 matches Some(api)
                &&& api.host() == raw
                &&& exists|r: Result<(), c_int>|
                    load.0 == status_of(r) && #[trigger] loaded(api.exchanges(), r)
                &&& forall|i: int|
                    0 <= i < api.exchanges().len() ==> host_answered(
                        raw,
                        #[trigger] api.exchanges()[i],
                    )
            },
        },
{
    match SqliteApi::new(p_api) {
        Ok(mut api) => {
            let r = lindera_fts_tokenizer_internal_init(&mut api);
            proof {
                assert(api.exchanges().skip(0) =~= api.exchanges());
                assert(loaded(api.exchanges(), r));
            }
            (ffi_panic_boundary(Some(r)), Some(api))
        },
        Err(code) => (ffi_panic_boundary(Some(Err(code))), None),
    }
}

/// The delete entry of the module: destroys the instance and the analyzer
/// it owns. No instance, `None`, is a no-op.
pub fn fts5_delete_lindera_tokenizer(fts5_tokenizer: Option<Box<Fts5Tokenizer>>) {
    match fts5_tokenizer {
        Some(tokenizer) => {
            let _ = tokenizer;
        },
        None => {},
    }
}

/// The instance that the create entry of the module hands to the host,
/// for what became of building the analyzer: one that owns the analyzer
/// where it was built, and `SQLITE_INTERNAL`, with nothing allocated,
/// where it was not. The table's arguments play no part.
pub fn instance_for(loaded: Result<lindera::tokenizer::Tokenizer, c_int>) -> (r: Result<
    Box<Fts5Tokenizer>,
    c_int,
>)
    ensures
        match loaded {
            Ok(tokenizer) => r matches Ok(instance) && instance.tokenizer == tokenizer,
            Err(_) => r == Err::<Box<Fts5Tokenizer>, c_int>(SQLITE_INTERNAL),
        },
{
    let tokenizer = match loaded {
        Ok(tokenizer) => Box::new(Fts5Tokenizer { tokenizer }),
        Err(_) => {
            return Err(SQLITE_INTERNAL);
        },
    };

    Ok(tokenizer)
}

} // verus!
