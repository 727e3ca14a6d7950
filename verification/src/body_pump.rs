//! Reading a request body piece by piece, and telling whether what arrived is
//! the whole body.
//!
//! "The body ended" is not "the body is complete": an HTTP/2 client that
//! aborts an upload with `RST_STREAM(NO_ERROR)` ends the body as if nothing
//! were wrong. What the request announced (its `Content-Length`) and whether
//! END_STREAM was seen decide it.
use vstd::prelude::*;
use crate::text::{decimal, push_decimal};
use crate::content_encoding::{ContentEncoding, body_decoded, undecodable_text};
use crate::output::{HttpFailResult, text_output};

verus! {

/// The protocol version a request came with.
#[derive(Clone, Copy, Debug, PartialEq, Eq, Structural)]
pub enum HttpVersion {
    Http09,
    Http10,
    Http11,
    Http2,
    Http3,
}

/// What a request promised about its body.
#[derive(Clone, Copy, Debug)]
pub struct BodyExpectations {
    pub version: HttpVersion,
    /// The `Content-Length` the client announced, when it announced one.
    pub content_length: Option<u64>,
    /// How long to wait for the next piece of the body: an idle timeout, not a
    /// deadline for the whole upload. `None` waits forever.
    pub read_timeout: Option<std::time::Duration>,
}

impl Default for BodyExpectations {
    fn default() -> (r: Self)
        ensures
            r.version == HttpVersion::Http11,
            r.content_length is None,
            r.read_timeout is None,
    {
        BodyExpectations { version: HttpVersion::Http11, content_length: None, read_timeout: None }
    }
}

/// Why a body that ended after `delivered` bytes is not complete, or `None`
/// when it is. An announced length must be met exactly; without one, an
/// HTTP/2 body is complete only if END_STREAM was seen (an HTTP/1 chunked body
/// never reports END_STREAM, and its truncation surfaces as a read error).
pub open spec fn incomplete_reason_of(
    version: HttpVersion,
    content_length: Option<u64>,
    delivered: u64,
    end_stream_seen: bool,
) -> Option<Seq<char>> {
    match content_length {
        Some(announced) => {
            if delivered != announced {
                Some(
                    "Request body delivered "@ + decimal(delivered as nat) + " bytes out of the "@
                        + decimal(announced as nat) + " announced"@,
                )
            } else {
                None
            }
        },
        None => {
            if version == HttpVersion::Http2 && !end_stream_seen {
                Some(
                    "HTTP/2 stream was reset before END_STREAM was observed — the request body may be incomplete"@,
                )
            } else {
                None
            }
        },
    }
}

impl BodyExpectations {
    /// Why the body that just ended is not complete, or `None` when it is.
    /// `end_stream_seen` is END_STREAM as an [`EndStreamWatch`] latched it.
    pub fn incomplete_reason(&self, delivered: u64, end_stream_seen: bool) -> (r: Option<String>)
        ensures
            match incomplete_reason_of(
                self.version,
                self.content_length,
                delivered,
                end_stream_seen,
            ) {
                Some(t) => r matches Some(s) && s@ == t,
                None => r is None,
            },
    {
        if let Some(announced) = self.content_length {
            if delivered != announced {
                let mut text = String::from_str("Request body delivered ");
                push_decimal(&mut text, delivered);
                text.append(" bytes out of the ");
                push_decimal(&mut text, announced);
                text.append(" announced");
                return Some(text);
            }
            return None;
        }
        if self.version == HttpVersion::Http2 && !end_stream_seen {
            return Some(
                String::from_str(
                    "HTTP/2 stream was reset before END_STREAM was observed — the request body may be incomplete",
                ),
            );
        }
        None
    }
}

impl BodyExpectations {
    /// What a body read in full becomes: `400` with the reason when it is not
    /// complete, else the body with its encoding undone.
    pub fn accept_body(
        &self,
        delivered: u64,
        end_stream_seen: bool,
        body: Vec<u8>,
        encoding: ContentEncoding,
    ) -> (r: Result<Vec<u8>, HttpFailResult>)
        ensures
            match incomplete_reason_of(
                self.version,
                self.content_length,
                delivered,
                end_stream_seen,
            ) {
                Some(t) => r matches Err(e) && e.output@ == text_output(400, t),
                None => match body_decoded(encoding, body@) {
                    Some(b) => r matches Ok(v) && v@ == b,
                    None => r matches Err(e) && e.output@ == text_output(
                        500,
                        undecodable_text(encoding),
                    ),
                },
            },
    {
        match self.incomplete_reason(delivered, end_stream_seen) {
            Some(reason) => Err(HttpFailResult::from_status_and_text(400, reason)),
            None => encoding.decompress_if_needed(body),
        }
    }
}

/// Remembers END_STREAM once it has been seen: the flag that reports it is
/// derived from live stream state that a later reset erases, so it is sampled
/// after every frame and kept once true.
pub struct EndStreamWatch(bool);

impl View for EndStreamWatch {
    type V = bool;

    closed spec fn view(&self) -> bool {
        self.0
    }
}

impl EndStreamWatch {
    pub fn new() -> (r: Self)
        ensures
            !r@,
    {
        EndStreamWatch(false)
    }

    /// Samples the stream's END_STREAM flag; once seen it stays seen.
    pub fn sample(&mut self, is_end_stream: bool)
        ensures
            final(self)@ == (old(self)@ || is_end_stream),
    {
        self.0 = self.0 || is_end_stream;
    }

    pub fn end_stream_seen(&self) -> (r: bool)
        ensures
            r == self@,
    {
        self.0
    }
}

impl Default for EndStreamWatch {
    fn default() -> (r: Self)
        ensures
            !r@,
    {
        Self::new()
    }
}

/// Raised in place of a piece of the body when the client went quiet for
/// longer than the idle timeout.
pub struct BodyReadTimeout;

/// What happened while waiting for the next piece of a body.
pub enum PumpEvent {
    /// The reading side went away.
    ReaderClosed,
    /// Nothing arrived within the idle timeout.
    TimedOut,
    /// A non-empty piece of `len` bytes arrived; `end_stream` is the stream's
    /// END_STREAM flag sampled right after it.
    Chunk { len: u64, end_stream: bool },
    /// The body ended; `end_stream` is the flag sampled at that moment.
    Ended { end_stream: bool },
    /// Reading failed, with this description.
    ReadFailed(String),
    /// The body had been taken by someone else before the pump started.
    AlreadyConsumed,
    /// The body had already been read in full, `len` bytes, before the pump
    /// started.
    WholeBody { len: u64 },
}

/// What the pump does next.
pub enum PumpAction {
    /// Hand the piece on to the reader and wait for the next one.
    Forward,
    /// Stop without a word: the reader is gone.
    Stop,
    /// Tell the reader the body timed out after `delivered` bytes, and stop.
    ReportTimeout { delivered: u64 },
    /// Tell the reader the body failed, and stop.
    Fail(String),
    /// Tell the reader the body is complete, and stop.
    Finish,
    /// Hand the whole body on as one piece and, once the reader took it, tell
    /// it the body is complete.
    ForwardAndFinish,
}

/// The state of a body being pumped to a reader.
pub struct BodyPump {
    pub expectations: BodyExpectations,
    /// The bytes handed on so far.
    pub delivered: u64,
    pub watch: EndStreamWatch,
}

impl BodyPump {
    pub fn new(expectations: BodyExpectations) -> (r: Self)
        ensures
            r.expectations == expectations,
            r.delivered == 0,
            !r.watch@,
    {
        BodyPump { expectations, delivered: 0, watch: EndStreamWatch::new() }
    }

    /// Decides what to do about `event`. A piece is counted and forwarded; an
    /// ended body finishes only when it is complete, and fails with the
    /// reason otherwise; every other event stops the pump.
    pub fn on_event(&mut self, event: PumpEvent) -> (r: PumpAction)
        requires
            event matches PumpEvent::Chunk { len, .. } ==> old(self).delivered + len
                <= u64::MAX,
        ensures
            final(self).expectations == old(self).expectations,
            match event {
                PumpEvent::Chunk { len, end_stream } => {
                    &&& r is Forward
                    &&& final(self).delivered == old(self).delivered + len
                    &&& final(self).watch@ == (old(self).watch@ || end_stream)
                },
                PumpEvent::Ended { end_stream } => {
                    &&& final(self).delivered == old(self).delivered
                    &&& final(self).watch@ == (old(self).watch@ || end_stream)
                    &&& match incomplete_reason_of(
                        old(self).expectations.version,
                        old(self).expectations.content_length,
                        old(self).delivered,
                        old(self).watch@ || end_stream,
                    ) {
                        Some(t) => r matches PumpAction::Fail(s) && s@ == t,
                        None => r is Finish,
                    }
                },
                PumpEvent::ReaderClosed => r is Stop && final(self).delivered == old(
                    self,
                ).delivered,
                PumpEvent::TimedOut => r == PumpAction::ReportTimeout {
                    delivered: old(self).delivered,
                },
                PumpEvent::ReadFailed(t) => r matches PumpAction::Fail(s) && s@
                    == "Can not read request body chunk: "@ + t@,
                PumpEvent::AlreadyConsumed => r matches PumpAction::Fail(s) && s@
                    == "Request body was already consumed"@,
                PumpEvent::WholeBody { len } => {
                    &&& (if len > 0 {
                        r is ForwardAndFinish
                    } else {
                        r is Finish
                    })
                    &&& final(self).delivered == old(self).delivered
                    &&& final(self).watch@ == old(self).watch@
                },
            },
    {
        match event {
            PumpEvent::Chunk { len, end_stream } => {
                self.delivered = self.delivered + len;
                self.watch.sample(end_stream);
                PumpAction::Forward
            },
            PumpEvent::Ended { end_stream } => {
                self.watch.sample(end_stream);
                match self.expectations.incomplete_reason(
                    self.delivered,
                    self.watch.end_stream_seen(),
                ) {
                    Some(reason) => PumpAction::Fail(reason),
                    None => PumpAction::Finish,
                }
            },
            PumpEvent::ReaderClosed => PumpAction::Stop,
            PumpEvent::TimedOut => PumpAction::ReportTimeout { delivered: self.delivered },
            PumpEvent::ReadFailed(t) => {
                let mut text = String::from_str("Can not read request body chunk: ");
                text.append(t.as_str());
                PumpAction::Fail(text)
            },
            PumpEvent::AlreadyConsumed => PumpAction::Fail(
                String::from_str("Request body was already consumed"),
            ),
            PumpEvent::WholeBody { len } => {
                if len > 0 {
                    PumpAction::ForwardAndFinish
                } else {
                    PumpAction::Finish
                }
            },
        }
    }
}


/// With an announced length, a body is complete exactly when that many bytes
/// arrived, whatever the protocol and END_STREAM say.
pub proof fn law_announced_length_decides(
    version: HttpVersion,
    announced: u64,
    delivered: u64,
    end_stream_seen: bool,
)
    ensures
        incomplete_reason_of(version, Some(announced), delivered, end_stream_seen) is None
            <==> delivered == announced,
{
}

/// Seeing END_STREAM can only turn a rejected body into an accepted one,
/// never the other way round.
pub proof fn law_end_stream_only_accepts(
    version: HttpVersion,
    content_length: Option<u64>,
    delivered: u64,
)
    ensures
        incomplete_reason_of(version, content_length, delivered, false) is None
            ==> incomplete_reason_of(version, content_length, delivered, true) is None,
{
}

/// Without an announced length only an HTTP/2 body can be found incomplete.
pub proof fn law_only_http2_needs_end_stream(
    version: HttpVersion,
    delivered: u64,
    end_stream_seen: bool,
)
    requires
        version != HttpVersion::Http2,
    ensures
        incomplete_reason_of(version, None, delivered, end_stream_seen) is None,
{
}

/// Whether END_STREAM has been seen after sampling `flags` in order, starting
/// from `seen`: what [`EndStreamWatch::sample`] leaves after each call.
pub open spec fn seen_after(seen: bool, flags: Seq<bool>) -> bool
    decreases flags.len(),
{
    if flags.len() == 0 {
        seen
    } else {
        seen_after(seen, flags.drop_last()) || flags.last()
    }
}

/// A fresh watch that sampled `flags` has seen END_STREAM exactly when one of
/// the samples reported it; once seen, it stays seen whatever comes after.
pub proof fn law_end_stream_is_latched(flags: Seq<bool>, later: Seq<bool>)
    ensures
        seen_after(false, flags) <==> exists|k: int| 0 <= k < flags.len() && #[trigger] flags[k],
        seen_after(false, flags) ==> seen_after(seen_after(false, flags), later),
    decreases flags.len() + later.len(),
{
    if flags.len() > 0 {
        law_end_stream_is_latched(flags.drop_last(), Seq::empty());
        if seen_after(false, flags.drop_last()) {
            let k = choose|k: int| 0 <= k < flags.drop_last().len() && #[trigger] flags.drop_last()[k];
            assert(flags[k]);
        }
        if flags.last() {
            assert(flags[flags.len() - 1]);
        }
        if exists|k: int| 0 <= k < flags.len() && #[trigger] flags[k] {
            let k = choose|k: int| 0 <= k < flags.len() && #[trigger] flags[k];
            if k < flags.len() - 1 {
                assert(flags.drop_last()[k]);
            }
        }
    }
    if later.len() > 0 {
        law_end_stream_is_latched(flags, later.drop_last());
    }
}

/// `after` is what [`EndStreamWatch::sample`] leaves of `before` given `flag`.
pub open spec fn sampled(before: EndStreamWatch, after: EndStreamWatch, flag: bool) -> bool {
    after@ == (before@ || flag)
}

/// A watch sampled `flags.len()` times: `ws[0]` is fresh and each `ws[i + 1]`
/// is what sampling `flags[i]` leaves of `ws[i]`. The last has seen END_STREAM
/// exactly when some sample reported it, and a watch that has seen it keeps it
/// through every later sample.
pub proof fn law_watch_latches(ws: Seq<EndStreamWatch>, flags: Seq<bool>)
    requires
        ws.len() == flags.len() + 1,
        !ws[0]@,
        forall|m: int| 0 <= m < flags.len() ==> sampled(ws[m], ws[m + 1], #[trigger] flags[m]),
    ensures
        ws.last()@ <==> exists|k: int| 0 <= k < flags.len() && #[trigger] flags[k],
        forall|i: int, j: int|
            #![trigger ws[i], ws[j]]
            0 <= i <= j < ws.len() && ws[i]@ ==> ws[j]@,
{
    assert forall|i: int| 0 <= i < ws.len() implies (#[trigger] ws[i]@ <==> exists|k: int|
        0 <= k < i && #[trigger] flags[k]) by {
        lemma_watch_prefix(ws, flags, i);
    }
    assert(ws.last() == ws[ws.len() - 1]);
    assert forall|i: int, j: int|
        #![trigger ws[i], ws[j]]
        0 <= i <= j < ws.len() && ws[i]@ implies ws[j]@ by {
        let k = choose|k: int| 0 <= k < i && #[trigger] flags[k];
        assert(0 <= k < j && flags[k]);
    }
}

proof fn lemma_watch_prefix(ws: Seq<EndStreamWatch>, flags: Seq<bool>, i: int)
    requires
        ws.len() == flags.len() + 1,
        !ws[0]@,
        forall|m: int| 0 <= m < flags.len() ==> sampled(ws[m], ws[m + 1], #[trigger] flags[m]),
        0 <= i < ws.len(),
    ensures
        ws[i]@ <==> exists|k: int| 0 <= k < i && #[trigger] flags[k],
    decreases i,
{
    if i > 0 {
        lemma_watch_prefix(ws, flags, i - 1);
        assert(sampled(ws[i - 1], ws[i], flags[i - 1]));
        if exists|k: int| 0 <= k < i && #[trigger] flags[k] {
            let k = choose|k: int| 0 <= k < i && #[trigger] flags[k];
            if k < i - 1 {
                assert(0 <= k < i - 1 && flags[k]);
            }
        }
        if ws[i - 1]@ {
            let k = choose|k: int| 0 <= k < i - 1 && #[trigger] flags[k];
            assert(0 <= k < i && flags[k]);
        }
    }
}

/// The bytes a run of pieces adds up to.
pub open spec fn pieces_total(pieces: Seq<(u64, bool)>) -> int
    decreases pieces.len(),
{
    if pieces.len() == 0 {
        0
    } else {
        pieces_total(pieces.drop_last()) + pieces.last().0
    }
}

/// The END_STREAM flags a run of pieces was sampled with.
pub open spec fn pieces_flags(pieces: Seq<(u64, bool)>) -> Seq<bool> {
    pieces.map_values(|p: (u64, bool)| p.1)
}

/// The pump's count and latch after a run of `Chunk` events, each step as
/// [`BodyPump::on_event`] takes it.
pub open spec fn pump_after(delivered: int, seen: bool, pieces: Seq<(u64, bool)>) -> (int, bool)
    decreases pieces.len(),
{
    if pieces.len() == 0 {
        (delivered, seen)
    } else {
        let before = pump_after(delivered, seen, pieces.drop_last());
        (before.0 + pieces.last().0, before.1 || pieces.last().1)
    }
}

/// Over a whole body: a fresh pump that forwarded pieces `pieces` has counted
/// all their bytes and latched END_STREAM if any sample saw it; the end that
/// follows (sampled `last`) finishes the body exactly when it is complete by
/// that count and latch, and fails it otherwise.
pub proof fn law_pump_over_a_body(
    expectations: BodyExpectations,
    pieces: Seq<(u64, bool)>,
    last: bool,
)
    ensures
        pump_after(0, false, pieces) == (pieces_total(pieces), seen_after(false, pieces_flags(pieces))),
        pieces_total(pieces) <= u64::MAX ==> (incomplete_reason_of(
            expectations.version,
            expectations.content_length,
            pump_after(0, false, pieces).0 as u64,
            pump_after(0, false, pieces).1 || last,
        ) is None <==> incomplete_reason_of(
            expectations.version,
            expectations.content_length,
            pieces_total(pieces) as u64,
            (exists|k: int| 0 <= k < pieces.len() && #[trigger] pieces[k].1) || last,
        ) is None),
    decreases pieces.len(),
{
    if pieces.len() > 0 {
        law_pump_over_a_body(expectations, pieces.drop_last(), last);
        assert(pieces_flags(pieces).drop_last() =~= pieces_flags(pieces.drop_last()));
    }
    law_end_stream_is_latched(pieces_flags(pieces), Seq::empty());
    assert forall|k: int| 0 <= k < pieces.len() implies (#[trigger] pieces[k].1 == pieces_flags(pieces)[k]) by {}
    if exists|k: int| 0 <= k < pieces.len() && #[trigger] pieces[k].1 {
        let k = choose|k: int| 0 <= k < pieces.len() && #[trigger] pieces[k].1;
        assert(pieces_flags(pieces)[k]);
    }
    if exists|k: int| 0 <= k < pieces_flags(pieces).len() && #[trigger] pieces_flags(pieces)[k] {
        let k = choose|k: int| 0 <= k < pieces_flags(pieces).len() && #[trigger] pieces_flags(pieces)[k];
        assert(pieces[k].1);
    }
}

/// One `Chunk` event as [`BodyPump::on_event`] takes it: `after` is `before`
/// with the piece counted and its END_STREAM flag sampled.
pub open spec fn forwarded(before: BodyPump, after: BodyPump, piece: (u64, bool)) -> bool {
    &&& after.expectations == before.expectations
    &&& after.delivered == before.delivered + piece.0
    &&& after.watch@ == (before.watch@ || piece.1)
}

/// What [`BodyPump::on_event`] answers an `Ended` event (sampled `last`) in
/// state `p`.
pub open spec fn answer_to_end(p: BodyPump, last: bool, r: PumpAction) -> bool {
    match incomplete_reason_of(
        p.expectations.version,
        p.expectations.content_length,
        p.delivered,
        p.watch@ || last,
    ) {
        Some(t) => r matches PumpAction::Fail(s) && s@ == t,
        None => r is Finish,
    }
}

/// A whole body through the pump: `pumps[0]` is fresh, each `pumps[i + 1]` is
/// what forwarding `pieces[i]` left, and `r` is the answer to the end of the
/// body in the last state. The pump counted every byte of every piece, kept
/// its expectations, latched END_STREAM if any sample saw it, and finishes
/// exactly when the body is complete by that count and latch; otherwise it
/// fails once, with the reason.
pub proof fn law_pump_states_over_a_body(
    pumps: Seq<BodyPump>,
    pieces: Seq<(u64, bool)>,
    last: bool,
    r: PumpAction,
)
    requires
        pumps.len() == pieces.len() + 1,
        pumps[0].delivered == 0,
        !pumps[0].watch@,
        forall|m: int| 0 <= m < pieces.len() ==> forwarded(pumps[m], pumps[m + 1], #[trigger] pieces[m]),
        answer_to_end(pumps.last(), last, r),
    ensures
        pumps.last().expectations == pumps[0].expectations,
        pumps.last().delivered == pieces_total(pieces),
        pumps.last().watch@ <==> exists|k: int| 0 <= k < pieces.len() && #[trigger] pieces[k].1,
        match incomplete_reason_of(
            pumps[0].expectations.version,
            pumps[0].expectations.content_length,
            pieces_total(pieces) as u64,
            (exists|k: int| 0 <= k < pieces.len() && #[trigger] pieces[k].1) || last,
        ) {
            Some(t) => r matches PumpAction::Fail(s) && s@ == t,
            None => r is Finish,
        },
{
    let n = pieces.len() as int;
    lemma_pump_prefix(pumps, pieces, n);
    assert(pieces.take(n) =~= pieces);
    assert(pumps.last() == pumps[n]);
    assert((exists|k: int| 0 <= k < n && #[trigger] pieces[k].1) == (exists|k: int|
        0 <= k < pieces.len() && #[trigger] pieces[k].1));
}

proof fn lemma_pump_prefix(pumps: Seq<BodyPump>, pieces: Seq<(u64, bool)>, i: int)
    requires
        pumps.len() == pieces.len() + 1,
        pumps[0].delivered == 0,
        !pumps[0].watch@,
        forall|m: int| 0 <= m < pieces.len() ==> forwarded(pumps[m], pumps[m + 1], #[trigger] pieces[m]),
        0 <= i < pumps.len(),
    ensures
        pumps[i].expectations == pumps[0].expectations,
        pumps[i].delivered == pieces_total(pieces.take(i)),
        pumps[i].watch@ <==> exists|k: int| 0 <= k < i && #[trigger] pieces[k].1,
    decreases i,
{
    if i > 0 {
        lemma_pump_prefix(pumps, pieces, i - 1);
        assert(forwarded(pumps[i - 1], pumps[i], pieces[i - 1]));
        assert(pieces.take(i).drop_last() =~= pieces.take(i - 1));
        assert(pieces.take(i).last() == pieces[i - 1]);
        if exists|k: int| 0 <= k < i && #[trigger] pieces[k].1 {
            let k = choose|k: int| 0 <= k < i && #[trigger] pieces[k].1;
            if k < i - 1 {
                assert(0 <= k < i - 1 && pieces[k].1);
            }
        }
        if pumps[i - 1].watch@ {
            let k = choose|k: int| 0 <= k < i - 1 && #[trigger] pieces[k].1;
            assert(0 <= k < i && pieces[k].1);
        }
    }
}

} // verus!
