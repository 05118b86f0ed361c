//! The tokenizer bridge: from the host's byte buffer to the tokens handed
//! back through the host's callback.

use crate::analyzer::{well_formed, Token};
use crate::common::{
    answered_by, delivery_of, emittable, fits_c_int, status_of, Delivery, TokenCallback,
    SQLITE_INTERNAL, SQLITE_OK,
};
use crate::normalizer::{normalize, normalized};
use libc::c_int;
use vstd::prelude::*;
use vstd::utf8::{decode_utf8, encode_utf8, valid_utf8};

verus! {

/// The error with which `core::str::from_utf8` rejects a buffer.
#[verifier::external_type_specification]
#[verifier::external_body]
pub struct ExUtf8Error(core::str::Utf8Error);

/// `core::str::from_utf8` accepts exactly the buffers that hold well-formed
/// UTF-8, and then yields the text they encode.
pub assume_specification<'a>[ core::str::from_utf8 ](v: &'a [u8]) -> (r: Result<
    &'a str,
    core::str::Utf8Error,
>)
    ensures
        r is Ok <==> valid_utf8(v@),
        r matches Ok(text) ==> text@ == decode_utf8(v@),
;

/// The bytes handed to the host for a token: its surface, in normal form
/// where `normalizing` is set, encoded as UTF-8.
pub open spec fn emitted_surface(token: Token, normalizing: bool) -> Seq<u8> {
    if normalizing {
        encode_utf8(normalized(token.surface@))
    } else {
        encode_utf8(token.surface@)
    }
}

/// Whether the token can be handed to the host without loss.
pub open spec fn token_emittable(token: Token, normalizing: bool) -> bool {
    emittable(emitted_surface(token, normalizing), token.byte_start as int, token.byte_end as int)
}

/// The invocation that hands `token` to the host and is answered with
/// `status`. The offsets are those the analyzer reported, whatever became
/// of the surface.
pub open spec fn token_delivery(token: Token, normalizing: bool, status: int) -> Delivery {
    delivery_of(
        emitted_surface(token, normalizing),
        token.byte_start as int,
        token.byte_end as int,
        status,
    )
}

/// Whether the invocations `made`, in this order, and the result `r` are
/// what the emission of `tokens` gives.
///
/// The invocations are for the tokens in order, one each, starting with the
/// first. All but the last were answered with `SQLITE_OK`. Emission ends
/// with success when every token was handed over and accepted; with the
/// host's own status when the last invocation was answered otherwise; and
/// with `SQLITE_INTERNAL` at a token that cannot be handed over.
pub open spec fn delivered(
    tokens: Seq<Token>,
    normalizing: bool,
    made: Seq<Delivery>,
    r: Result<(), c_int>,
) -> bool {
    &&& made.len() <= tokens.len()
    &&& forall|i: int| 0 <= i < made.len() ==> token_emittable(#[trigger] tokens[i], normalizing)
    &&& forall|i: int|
        0 <= i < made.len() ==> #[trigger] made[i] == token_delivery(
            tokens[i],
            normalizing,
            made[i].status,
        )
    &&& forall|i: int| 0 <= i < made.len() - 1 ==> (#[trigger] made[i]).status == SQLITE_OK
    &&& match r {
        Ok(()) => made.len() == tokens.len() && (made.len() > 0 ==> made.last().status
            == SQLITE_OK),
        Err(code) => code != SQLITE_OK && if made.len() > 0 && made.last().status != SQLITE_OK {
            code == made.last().status
        } else {
            made.len() < tokens.len() && !token_emittable(tokens[made.len() as int], normalizing)
                && code == SQLITE_INTERNAL
        },
    }
}

/// Whether `made` and `r` are what the bridge gives for `answer`, the
/// analyzer's answer: nothing is handed over and `SQLITE_INTERNAL` is
/// returned where the analyzer failed (`None`), and its tokens are emitted
/// otherwise.
pub open spec fn tokenized(
    answer: Option<Seq<Token>>,
    normalizing: bool,
    made: Seq<Delivery>,
    r: Result<(), c_int>,
) -> bool {
    match answer {
        None => made.len() == 0 && r == Err::<(), c_int>(SQLITE_INTERNAL),
        Some(tokens) => delivered(tokens, normalizing, made, r),
    }
}

/// Whether `made` holds one accepted invocation for each of the first
/// tokens, in order.
pub open spec fn accepted_so_far(tokens: Seq<Token>, normalizing: bool, made: Seq<Delivery>)
    -> bool {
    &&& made.len() <= tokens.len()
    &&& forall|k: int| 0 <= k < made.len() ==> token_emittable(#[trigger] tokens[k], normalizing)
    &&& forall|k: int|
        0 <= k < made.len() ==> #[trigger] made[k] == token_delivery(
            tokens[k],
            normalizing,
            SQLITE_OK as int,
        )
}

/// One more accepted invocation extends an accepted run.
proof fn lemma_accepted_next(tokens: Seq<Token>, normalizing: bool, made: Seq<Delivery>)
    requires
        accepted_so_far(tokens, normalizing, made),
        made.len() < tokens.len(),
        token_emittable(tokens[made.len() as int], normalizing),
    ensures
        accepted_so_far(
            tokens,
            normalizing,
            made.push(token_delivery(tokens[made.len() as int], normalizing, SQLITE_OK as int)),
        ),
{
    let next = made.push(
        token_delivery(tokens[made.len() as int], normalizing, SQLITE_OK as int),
    );
    assert forall|k: int| 0 <= k < next.len() implies #[trigger] next[k] == token_delivery(
        tokens[k],
        normalizing,
        SQLITE_OK as int,
    ) by {
        if k < made.len() {
            assert(next[k] == made[k]);
        }
    }
}

/// An accepted run over all the tokens is a successful emission.
proof fn lemma_accepted_all(tokens: Seq<Token>, normalizing: bool, made: Seq<Delivery>)
    requires
        accepted_so_far(tokens, normalizing, made),
        made.len() == tokens.len(),
    ensures
        delivered(tokens, normalizing, made, Ok::<(), c_int>(())),
{
    assert forall|k: int| 0 <= k < made.len() implies #[trigger] made[k] == token_delivery(
        tokens[k],
        normalizing,
        made[k].status,
    ) && made[k].status == SQLITE_OK by {
        assert(made[k] == token_delivery(tokens[k], normalizing, SQLITE_OK as int));
    }
}

/// An accepted run followed by a rejected invocation is an emission that
/// ends with the host's status.
proof fn lemma_accepted_then_rejected(
    tokens: Seq<Token>,
    normalizing: bool,
    made: Seq<Delivery>,
    code: c_int,
)
    requires
        accepted_so_far(tokens, normalizing, made),
        made.len() < tokens.len(),
        token_emittable(tokens[made.len() as int], normalizing),
        code != SQLITE_OK,
    ensures
        delivered(
            tokens,
            normalizing,
            made.push(token_delivery(tokens[made.len() as int], normalizing, code as int)),
            Err::<(), c_int>(code),
        ),
{
    let next = made.push(token_delivery(tokens[made.len() as int], normalizing, code as int));
    assert forall|k: int| 0 <= k < next.len() implies #[trigger] next[k] == token_delivery(
        tokens[k],
        normalizing,
        next[k].status,
    ) by {
        if k < made.len() {
            assert(next[k] == made[k]);
        }
    }
    assert forall|k: int| 0 <= k < next.len() - 1 implies (#[trigger] next[k]).status
        == SQLITE_OK by {
        assert(next[k] == made[k]);
    }
    assert(next.last().status == code);
}

/// An accepted run that meets a token which cannot be handed over is an
/// emission that ends with `SQLITE_INTERNAL`.
proof fn lemma_accepted_then_stuck(tokens: Seq<Token>, normalizing: bool, made: Seq<Delivery>)
    requires
        accepted_so_far(tokens, normalizing, made),
        made.len() < tokens.len(),
        !token_emittable(tokens[made.len() as int], normalizing),
    ensures
        delivered(tokens, normalizing, made, Err::<(), c_int>(SQLITE_INTERNAL)),
{
    assert forall|k: int| 0 <= k < made.len() implies #[trigger] made[k] == token_delivery(
        tokens[k],
        normalizing,
        made[k].status,
    ) && made[k].status == SQLITE_OK by {
        assert(made[k] == token_delivery(tokens[k], normalizing, SQLITE_OK as int));
    }
    if made.len() > 0 {
        assert(made.last() == made[made.len() - 1]);
    }
}

/// Hands the tokens to the host, one invocation of the callback each, in
/// order, and stops at the first that the host does not accept.
///
/// Where `normalizing` is set each surface is handed over in its normal
/// form; the offsets stay those of the input text.
pub fn emit_tokens<F: Fn(c_int, &[u8], c_int, c_int, c_int) -> c_int>(
    tokens: &Vec<Token>,
    normalizing: bool,
    callback: &mut TokenCallback<F>,
) -> (r: Result<(), c_int>)
    ensures
        final(callback).function() == old(callback).function(),
        old(callback).deliveries().is_prefix_of(final(callback).deliveries()),
        delivered(
            tokens@,
            normalizing,
            final(callback).deliveries().skip(old(callback).deliveries().len() as int),
            r,
        ),
        forall|i: int|
            old(callback).deliveries().len() <= i < final(callback).deliveries().len()
                ==> answered_by(
                old(callback).function(),
                #[trigger] final(callback).deliveries()[i],
            ),
{
    let ghost before = callback.deliveries();
    let ghost function = callback.function();
    let mut i: usize = 0;
    assert(callback.deliveries().skip(before.len() as int) =~= Seq::<Delivery>::empty());
    while i < tokens.len()
        invariant
            i <= tokens.len(),
            before == old(callback).deliveries(),
            function == old(callback).function(),
            callback.function() == function,
            before.is_prefix_of(callback.deliveries()),
            callback.deliveries().skip(before.len() as int).len() == i,
            accepted_so_far(tokens@, normalizing, callback.deliveries().skip(before.len() as int)),
            forall|k: int|
                before.len() <= k < callback.deliveries().len() ==> answered_by(
                    function,
                    #[trigger] callback.deliveries()[k],
                ),
        decreases tokens.len() - i,
    {
        let token = &tokens[i];
        let ghost reached = callback.deliveries();
        let emitted = if normalizing {
            let surface = normalize(token.surface.as_str());
            callback.emit(surface.as_str().as_bytes(), token.byte_start, token.byte_end)
        } else {
            callback.emit(token.surface.as_str().as_bytes(), token.byte_start, token.byte_end)
        };
        proof {
            let now = callback.deliveries();
            let earlier = reached.skip(before.len() as int);
            if token_emittable(tokens@[i as int], normalizing) {
                let delivery = token_delivery(
                    tokens@[i as int],
                    normalizing,
                    status_of(emitted) as int,
                );
                assert(now == reached.push(delivery));
                assert(now.skip(before.len() as int) =~= earlier.push(delivery));
                assert forall|k: int| before.len() <= k < now.len() implies answered_by(
                    function,
                    #[trigger] now[k],
                ) by {
                    if k < reached.len() {
                        assert(now[k] == reached[k]);
                    }
                }
                if status_of(emitted) == SQLITE_OK {
                    lemma_accepted_next(tokens@, normalizing, earlier);
                } else {
                    lemma_accepted_then_rejected(
                        tokens@,
                        normalizing,
                        earlier,
                        status_of(emitted),
                    );
                }
            } else {
                assert(now == reached);
                lemma_accepted_then_stuck(tokens@, normalizing, earlier);
            }
        }
        match emitted {
            Ok(()) => {},
            Err(code) => {
                return Err(code);
            },
        }
        i += 1;
    }
    proof {
        lemma_accepted_all(
            tokens@,
            normalizing,
            callback.deliveries().skip(before.len() as int),
        );
    }
    Ok(())
}

/// The analyzer's answer as the contracts see it: its tokens in order, or
/// `None` where it failed.
pub open spec fn answer_view(answer: Option<Vec<Token>>) -> Option<Seq<Token>> {
    match answer {
        Some(tokens) => Some(tokens@),
        None => None,
    }
}

/// Emits what the analyzer answered: nothing is handed to the host and the
/// result is `SQLITE_INTERNAL` where the analyzer failed (`None`), and its
/// tokens are emitted otherwise, in order, until the host rejects one.
pub fn tokenize_answer<F: Fn(c_int, &[u8], c_int, c_int, c_int) -> c_int>(
    answer: Option<Vec<Token>>,
    normalizing: bool,
    callback: &mut TokenCallback<F>,
) -> (r: Result<(), c_int>)
    ensures
        final(callback).function() == old(callback).function(),
        old(callback).deliveries().is_prefix_of(final(callback).deliveries()),
        tokenized(
            answer_view(answer),
            normalizing,
            final(callback).deliveries().skip(old(callback).deliveries().len() as int),
            r,
        ),
        forall|i: int|
            old(callback).deliveries().len() <= i < final(callback).deliveries().len()
                ==> answered_by(
                old(callback).function(),
                #[trigger] final(callback).deliveries()[i],
            ),
{
    match answer {
        Some(tokens) => emit_tokens(&tokens, normalizing, callback),
        None => Err(SQLITE_INTERNAL),
    }
}

/// The number of bytes in the host's buffer: a length that is not positive
/// stands for an empty buffer.
pub fn buffer_len(n_text: c_int) -> (n: usize)
    ensures
        n == if n_text <= 0 {
            0
        } else {
            n_text as int
        },
{
    if n_text <= 0 {
        0
    } else {
        n_text as usize
    }
}

/// Whether `analyzer` may be asked for every text.
pub open spec fn accepts_every_text<A: Fn(&str) -> Option<Vec<Token>>>(analyzer: A) -> bool {
    forall|input: &str| call_requires(analyzer, (input,))
}

/// Whether `answer` is one that `analyzer` may give for `text`.
pub open spec fn analyzed_by<A: Fn(&str) -> Option<Vec<Token>>>(
    analyzer: A,
    text: Seq<char>,
    answer: Option<Seq<Token>>,
) -> bool {
    exists|input: &str, tokens: Option<Vec<Token>>|
        input@ == text && answer_view(tokens) == answer && #[trigger] call_ensures(
            analyzer,
            (input,),
            tokens,
        )
}

/// Whether `made` and `r` are what the bridge gives for the buffer `text`
/// with `analyzer`.
///
/// An empty buffer gives success with nothing handed over. A buffer that is
/// not well-formed UTF-8 gives `Err(SQLITE_OK)` with nothing handed over: the
/// host is told of no failure, so that the row stays accessible. For any
/// other buffer `made` and `r` are the outcome of an answer that the
/// analyzer gave for the text that the buffer holds.
pub open spec fn bridged<A: Fn(&str) -> Option<Vec<Token>>>(
    analyzer: A,
    text: Seq<u8>,
    normalizing: bool,
    made: Seq<Delivery>,
    r: Result<(), c_int>,
) -> bool {
    if text.len() == 0 {
        made.len() == 0 && r is Ok
    } else if !valid_utf8(text) {
        made.len() == 0 && r == Err::<(), c_int>(SQLITE_OK)
    } else {
        exists|answer: Option<Seq<Token>>|
            #[trigger] analyzed_by(analyzer, decode_utf8(text), answer) && tokenized(
                answer,
                normalizing,
                made,
                r,
            )
    }
}

/// Tokenizes the host's buffer and hands each token to the host, with its
/// surface in normal form where `normalizing` is set.
///
/// The buffer is checked; the analyzer is asked, once, for the text it
/// holds; and the answer is emitted. The analyzer is asked for no buffer
/// that is empty or malformed. The analyzer and the callback are the
/// caller's: where one of them unwinds, the caller has to contain it.
pub fn tokenize_text<
    A: Fn(&str) -> Option<Vec<Token>>,
    F: Fn(c_int, &[u8], c_int, c_int, c_int) -> c_int,
>(analyzer: A, text: &[u8], normalizing: bool, callback: &mut TokenCallback<F>) -> (r: Result<
    (),
    c_int,
>)
    requires
        accepts_every_text(analyzer),
    ensures
        final(callback).function() == old(callback).function(),
        old(callback).deliveries().is_prefix_of(final(callback).deliveries()),
        bridged(
            analyzer,
            text@,
            normalizing,
            final(callback).deliveries().skip(old(callback).deliveries().len() as int),
            r,
        ),
        forall|i: int|
            old(callback).deliveries().len() <= i < final(callback).deliveries().len()
                ==> answered_by(
                old(callback).function(),
                #[trigger] final(callback).deliveries()[i],
            ),
{
    if text.len() == 0 {
        return Ok(());
    }
    let input = match core::str::from_utf8(text) {
        Ok(input) => input,
        Err(_) => {
            return Err(SQLITE_OK);
        },
    };

    let answer = analyzer(input);
    proof {
        assert(analyzed_by(analyzer, decode_utf8(text@), answer_view(answer)));
    }
    tokenize_answer(answer, normalizing, callback)
}

/// Tokenizes the host's buffer and hands each token to the host, with its
/// surface as the analyzer gave it.
pub fn lindera_fts5_tokenize_internal<
    A: Fn(&str) -> Option<Vec<Token>>,
    F: Fn(c_int, &[u8], c_int, c_int, c_int) -> c_int,
>(analyzer: A, text: &[u8], callback: &mut TokenCallback<F>) -> (r: Result<(), c_int>)
    requires
        accepts_every_text(analyzer),
    ensures
        final(callback).function() == old(callback).function(),
        old(callback).deliveries().is_prefix_of(final(callback).deliveries()),
        bridged(
            analyzer,
            text@,
            false,
            final(callback).deliveries().skip(old(callback).deliveries().len() as int),
            r,
        ),
        forall|i: int|
            old(callback).deliveries().len() <= i < final(callback).deliveries().len()
                ==> answered_by(
                old(callback).function(),
                #[trigger] final(callback).deliveries()[i],
            ),
{
    tokenize_text(analyzer, text, false, callback)
}

/// The tokenize entry of the tokenizer module: the status that the host is
/// given for a buffer.
///
/// `SQLITE_OK` when nothing went wrong, which includes an empty buffer and
/// one that is not well-formed UTF-8; `SQLITE_INTERNAL` when the analyzer
/// failed or a token cannot be handed over; the callback's own status when
/// it did not accept a token.
pub fn lindera_fts5_tokenize<
    A: Fn(&str) -> Option<Vec<Token>>,
    F: Fn(c_int, &[u8], c_int, c_int, c_int) -> c_int,
>(analyzer: A, text: &[u8], callback: &mut TokenCallback<F>) -> (status: c_int)
    requires
        accepts_every_text(analyzer),
    ensures
        final(callback).function() == old(callback).function(),
        old(callback).deliveries().is_prefix_of(final(callback).deliveries()),
        exists|r: Result<(), c_int>|
            status == status_of(r) && #[trigger] bridged(
                analyzer,
                text@,
                false,
                final(callback).deliveries().skip(old(callback).deliveries().len() as int),
                r,
            ),
        text@.len() == 0 || !valid_utf8(text@) ==> {
            &&& status == SQLITE_OK
            &&& final(callback).deliveries() == old(callback).deliveries()
        },
        forall|i: int|
            old(callback).deliveries().len() <= i < final(callback).deliveries().len()
                ==> answered_by(
                old(callback).function(),
                #[trigger] final(callback).deliveries()[i],
            ),
{
    let r = lindera_fts5_tokenize_internal(analyzer, text, callback);
    proof {
        let made = callback.deliveries().skip(old(callback).deliveries().len() as int);
        assert(bridged(analyzer, text@, false, made, r));
        if made.len() == 0 {
            assert(callback.deliveries() =~= old(callback).deliveries());
        }
    }
    match r {
        Ok(()) => SQLITE_OK,
        Err(code) => code,
    }
}

/// Nothing is handed to the host for a buffer that is empty or not
/// well-formed UTF-8, and the host is told of no failure.
pub proof fn lemma_unreadable_buffer_is_skipped<A: Fn(&str) -> Option<Vec<Token>>>(
    analyzer: A,
    text: Seq<u8>,
    normalizing: bool,
    made: Seq<Delivery>,
    r: Result<(), c_int>,
)
    requires
        bridged(analyzer, text, normalizing, made, r),
        text.len() == 0 || !valid_utf8(text),
    ensures
        made.len() == 0,
        status_of(r) == SQLITE_OK,
{
}

/// What the bridge does on a readable buffer is fixed by the analyzer's
/// answers: where the analyzer can answer the text in one way only, the
/// invocations and the result are the outcome of that answer.
pub proof fn lemma_one_answer_decides<A: Fn(&str) -> Option<Vec<Token>>>(
    analyzer: A,
    text: Seq<u8>,
    normalizing: bool,
    made: Seq<Delivery>,
    r: Result<(), c_int>,
    answer: Option<Seq<Token>>,
)
    requires
        bridged(analyzer, text, normalizing, made, r),
        text.len() > 0,
        valid_utf8(text),
        forall|other: Option<Seq<Token>>| #[trigger]
            analyzed_by(analyzer, decode_utf8(text), other) ==> other == answer,
    ensures
        tokenized(answer, normalizing, made, r),
{
}

/// A failure of the analyzer gives `SQLITE_INTERNAL` and nothing is handed
/// to the host: no token of a failed analysis is emitted.
pub proof fn lemma_analyzer_failure_is_internal(
    answer: Option<Seq<Token>>,
    normalizing: bool,
    made: Seq<Delivery>,
    r: Result<(), c_int>,
)
    requires
        tokenized(answer, normalizing, made, r),
        answer is None,
    ensures
        made.len() == 0,
        r == Err::<(), c_int>(SQLITE_INTERNAL),
{
}

/// Where the host accepts every token that it is handed, it is handed
/// exactly the analyzer's tokens, each once and in the analyzer's order, and
/// the result is success; unless a token cannot be handed over, at which
/// the emission ends with `SQLITE_INTERNAL`.
pub proof fn lemma_accepted_tokens_are_the_analyzers(
    tokens: Seq<Token>,
    normalizing: bool,
    made: Seq<Delivery>,
    r: Result<(), c_int>,
)
    requires
        tokenized(Some(tokens), normalizing, made, r),
        forall|i: int| 0 <= i < made.len() ==> (#[trigger] made[i]).status == SQLITE_OK,
    ensures
        forall|i: int|
            0 <= i < made.len() ==> #[trigger] made[i] == token_delivery(
                tokens[i],
                normalizing,
                SQLITE_OK as int,
            ),
        r is Ok <==> made.len() == tokens.len(),
        r is Err ==> {
            &&& r == Err::<(), c_int>(SQLITE_INTERNAL)
            &&& made.len() < tokens.len()
            &&& !token_emittable(tokens[made.len() as int], normalizing)
        },
        (forall|i: int|
            0 <= i < tokens.len() ==> token_emittable(#[trigger] tokens[i], normalizing)) ==> r
            is Ok,
{
    assert forall|i: int| 0 <= i < made.len() implies #[trigger] made[i] == token_delivery(
        tokens[i],
        normalizing,
        SQLITE_OK as int,
    ) by {
        assert(made[i] == token_delivery(tokens[i], normalizing, made[i].status));
    }
    if made.len() > 0 {
        assert(made.last() == made[made.len() - 1]);
    }
}

/// The result tells of a failure exactly when the analyzer failed, the host
/// rejected a token, or a token could not be handed over; in the first and
/// the last case it is `SQLITE_INTERNAL`, in the second the host's own
/// status.
pub proof fn lemma_failure_has_a_cause(
    answer: Option<Seq<Token>>,
    normalizing: bool,
    made: Seq<Delivery>,
    r: Result<(), c_int>,
)
    requires
        tokenized(answer, normalizing, made, r),
    ensures
        r is Err <==> match answer {
            None => true,
            Some(tokens) => {
                ||| made.len() > 0 && made.last().status != SQLITE_OK
                ||| made.len() < tokens.len() && !token_emittable(
                    tokens[made.len() as int],
                    normalizing,
                )
            },
        },
        r is Err ==> status_of(r) != SQLITE_OK,
        r is Err && made.len() > 0 && made.last().status != SQLITE_OK ==> status_of(r)
            == made.last().status,
        r is Err && !(made.len() > 0 && made.last().status != SQLITE_OK) ==> status_of(r)
            == SQLITE_INTERNAL,
{
    match answer {
        None => {},
        Some(tokens) => {
            if made.len() > 0 {
                assert(made.last() == made[made.len() - 1]);
                assert(token_emittable(tokens[made.len() - 1], normalizing));
            }
        },
    }
}

/// A rejection ends the emission: where the host answers the `k`-th
/// invocation with a status other than `SQLITE_OK`, that invocation is the
/// last one made and its status is the result.
pub proof fn lemma_rejection_is_final(
    tokens: Seq<Token>,
    normalizing: bool,
    made: Seq<Delivery>,
    r: Result<(), c_int>,
    k: int,
)
    requires
        delivered(tokens, normalizing, made, r),
        0 <= k < made.len(),
        made[k].status != SQLITE_OK,
    ensures
        made.len() == k + 1,
        r == Err::<(), c_int>(made[k].status as c_int),
{
    if k < made.len() - 1 {
        assert(made[k].status == SQLITE_OK);
    }
    assert(made.last() == made[k]);
    assert(token_emittable(tokens[k], normalizing));
    assert(made[k] == token_delivery(tokens[k], normalizing, made[k].status));
}

/// Every invocation hands over exactly one token: with flags 0, the
/// token's surface, in normal form where `normalizing` is set, the number
/// of its bytes, and the span that the analyzer reported. Normalization
/// changes the surface that is handed over, never the span.
pub proof fn lemma_invocation_carries_its_token(
    tokens: Seq<Token>,
    normalizing: bool,
    made: Seq<Delivery>,
    r: Result<(), c_int>,
    i: int,
)
    requires
        delivered(tokens, normalizing, made, r),
        0 <= i < made.len(),
    ensures
        made[i].flags == 0,
        made[i].surface == emitted_surface(tokens[i], normalizing),
        made[i].length == made[i].surface.len(),
        made[i].byte_start == tokens[i].byte_start,
        made[i].byte_end == tokens[i].byte_end,
        fits_c_int(made[i].length) && fits_c_int(made[i].byte_start) && fits_c_int(
            made[i].byte_end,
        ),
{
    assert(token_emittable(tokens[i], normalizing));
    assert(made[i] == token_delivery(tokens[i], normalizing, made[i].status));
}

/// The offsets handed to the host are the analyzer's: where the tokens lie
/// inside a text of `text_len` bytes and start in non-decreasing order, so
/// does every invocation made for them.
pub proof fn lemma_deliveries_within_text(
    tokens: Seq<Token>,
    normalizing: bool,
    made: Seq<Delivery>,
    r: Result<(), c_int>,
    text_len: int,
)
    requires
        well_formed(tokens, text_len),
        delivered(tokens, normalizing, made, r),
    ensures
        forall|i: int|
            0 <= i < made.len() ==> 0 <= (#[trigger] made[i]).byte_start <= made[i].byte_end
                <= text_len,
        forall|i: int, j: int|
            0 <= i <= j < made.len() ==> (#[trigger] made[i]).byte_start <= (
            #[trigger] made[j]).byte_start,
{
    assert forall|i: int| 0 <= i < made.len() implies 0 <= (#[trigger] made[i]).byte_start
        <= made[i].byte_end <= text_len by {
        assert(tokens[i].in_bounds(text_len));
        assert(made[i] == token_delivery(tokens[i], normalizing, made[i].status));
    }
    assert forall|i: int, j: int| 0 <= i <= j < made.len() implies (#[trigger] made[i]).byte_start
        <= (#[trigger] made[j]).byte_start by {
        assert(tokens[i].byte_start <= tokens[j].byte_start);
        assert(made[i] == token_delivery(tokens[i], normalizing, made[i].status));
        assert(made[j] == token_delivery(tokens[j], normalizing, made[j].status));
    }
}

} // verus!
