//! Status codes and the two small helpers every entry point shares: the
//! token callback and the mapping of an operation's outcome to a status.

use libc::c_int;
use lindera::tokenizer::Tokenizer;
use vstd::prelude::*;

verus! {

/// Status reported to the host when an operation succeeded.
pub const SQLITE_OK: c_int = 0;

/// Status reported to the host for an internal or unexpected failure.
pub const SQLITE_INTERNAL: c_int = 2;

/// Status reported to the host when it is incompatible with this module.
pub const SQLITE_MISUSE: c_int = 21;

/// The per-table tokenizer instance: it owns exactly one analyzer.
pub struct Fts5Tokenizer {
    /// The analyzer that segments the text of this table.
    pub tokenizer: Tokenizer,
}

/// One invocation of the host's token callback: what was handed over and
/// the status that came back.
pub ghost struct Delivery {
    pub flags: int,
    pub surface: Seq<u8>,
    pub length: int,
    pub byte_start: int,
    pub byte_end: int,
    pub status: int,
}

/// The invocation that hands over `surface` with the span
/// `byte_start..byte_end` and is answered with `status`.
pub open spec fn delivery_of(surface: Seq<u8>, byte_start: int, byte_end: int, status: int)
    -> Delivery {
    Delivery {
        flags: 0,
        surface,
        length: surface.len() as int,
        byte_start,
        byte_end,
        status,
    }
}

/// Whether a length or offset can be handed to the host, whose integers
/// are `c_int`.
pub open spec fn fits_c_int(value: int) -> bool {
    0 <= value <= c_int::MAX
}

/// Whether a token with this surface and span can be handed to the host
/// without loss.
pub open spec fn emittable(surface: Seq<u8>, byte_start: int, byte_end: int) -> bool {
    fits_c_int(surface.len() as int) && fits_c_int(byte_start) && fits_c_int(byte_end)
}

/// The status that a result stands for at the boundary with the host.
pub open spec fn status_of(outcome: Result<(), c_int>) -> c_int {
    match outcome {
        Ok(()) => SQLITE_OK,
        Err(code) => code,
    }
}

/// The host's token callback together with the record of every invocation
/// made through it.
///
/// The function takes the flags, the token's bytes, their number, and the
/// start and end offsets of the token in the input text.
pub struct TokenCallback<F: Fn(c_int, &[u8], c_int, c_int, c_int) -> c_int> {
    function: F,
    log: Ghost<Seq<Delivery>>,
}

/// Whether `function` may be called on every token.
pub open spec fn accepts_every_token<F: Fn(c_int, &[u8], c_int, c_int, c_int) -> c_int>(
    function: F,
) -> bool {
    forall|flags: c_int, token: &[u8], n: c_int, start: c_int, end: c_int|
        call_requires(function, (flags, token, n, start, end))
}

/// Whether the status recorded in `delivery` is an answer that `function`
/// may give to the invocation recorded there.
pub open spec fn answered_by<F: Fn(c_int, &[u8], c_int, c_int, c_int) -> c_int>(
    function: F,
    delivery: Delivery,
) -> bool {
    exists|token: &[u8]|
        token@ == delivery.surface && #[trigger] call_ensures(
            function,
            (
                delivery.flags as c_int,
                token,
                delivery.length as c_int,
                delivery.byte_start as c_int,
                delivery.byte_end as c_int,
            ),
            delivery.status as c_int,
        )
}

impl<F: Fn(c_int, &[u8], c_int, c_int, c_int) -> c_int> TokenCallback<F> {
    #[verifier::type_invariant]
    spec fn callable(self) -> bool {
        accepts_every_token(self.function)
    }

    /// The invocations made so far, oldest first.
    pub closed spec fn deliveries(&self) -> Seq<Delivery> {
        self.log@
    }

    /// The function that is invoked.
    pub closed spec fn function(&self) -> F {
        self.function
    }

    /// Wraps the host's callback; nothing has been delivered yet.
    pub fn new(function: F) -> (callback: Self)
        requires
            accepts_every_token(function),
        ensures
            callback.function() == function,
            callback.deliveries() == Seq::<Delivery>::empty(),
    {
        TokenCallback { function, log: Ghost(Seq::empty()) }
    }

    /// Hands one token to the host.
    ///
    /// A token whose length or offsets do not fit the host's integers is not
    /// handed over and gives `SQLITE_INTERNAL`. Otherwise the callback is
    /// invoked exactly once, with flags 0, and any status but `SQLITE_OK`
    /// comes back as the error.
    pub fn emit(&mut self, token: &[u8], byte_start: usize, byte_end: usize) -> (r: Result<
        (),
        c_int,
    >)
        ensures
            final(self).function() == old(self).function(),
            match r {
                Ok(()) => emittable(token@, byte_start as int, byte_end as int),
                Err(code) => code != SQLITE_OK && (!emittable(
                    token@,
                    byte_start as int,
                    byte_end as int,
                ) ==> code == SQLITE_INTERNAL),
            },
            final(self).deliveries() == if emittable(token@, byte_start as int, byte_end as int) {
                old(self).deliveries().push(
                    delivery_of(token@, byte_start as int, byte_end as int, status_of(r) as int),
                )
            } else {
                old(self).deliveries()
            },
            emittable(token@, byte_start as int, byte_end as int) ==> call_ensures(
                old(self).function(),
                (0, token, token@.len() as c_int, byte_start as c_int, byte_end as c_int),
                status_of(r),
            ) && answered_by(old(self).function(), final(self).deliveries().last()),
    {
        proof {
            use_type_invariant(&*self);
        }
        let token_len = cast_usize_to_c_int(token.len())?;
        let start = cast_usize_to_c_int(byte_start)?;
        let end = cast_usize_to_c_int(byte_end)?;

        let status: c_int = (self.function)(0, token, token_len, start, end);
        proof {
            let delivery = delivery_of(token@, byte_start as int, byte_end as int, status as int);
            self.log@ = self.log@.push(delivery);
            assert(call_ensures(
                self.function,
                (
                    delivery.flags as c_int,
                    token,
                    delivery.length as c_int,
                    delivery.byte_start as c_int,
                    delivery.byte_end as c_int,
                ),
                delivery.status as c_int,
            ));
        }

        if status == SQLITE_OK {
            Ok(())
        } else {
            Err(status)
        }
    }
}

/// Converts a length or offset to the host's integer type, or fails with
/// `SQLITE_INTERNAL` where it does not fit.
pub fn cast_usize_to_c_int(value: usize) -> (r: Result<c_int, c_int>)
    ensures
        r == if fits_c_int(value as int) {
            Ok::<c_int, c_int>(value as c_int)
        } else {
            Err::<c_int, c_int>(SQLITE_INTERNAL)
        },
{
    if value <= 0x7fff_ffff {
        Ok(value as c_int)
    } else {
        Err(SQLITE_INTERNAL)
    }
}

/// Turns what became of an operation into the status handed to the host.
///
/// `None` stands for an operation that was cut short by a fault; it gives
/// `SQLITE_INTERNAL`. An operation that ran to its end gives `SQLITE_OK`
/// or its own error code.
pub fn ffi_panic_boundary(outcome: Option<Result<(), c_int>>) -> (status: c_int)
    ensures
        status == match outcome {
            Some(Ok(())) => SQLITE_OK,
            Some(Err(code)) => code,
            None => SQLITE_INTERNAL,
        },
{
    match outcome {
        Some(Ok(())) => SQLITE_OK,
        Some(Err(code)) => code,
        None => SQLITE_INTERNAL,
    }
}

} // verus!
