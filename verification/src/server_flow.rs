//! How the server answers a request apart from what its middlewares decide:
//! while shutting down, when no middleware answers, when handling panics, and
//! what it logs about failures.
use vstd::prelude::*;
use vstd::utf8::*;
use crate::output::{HttpOkResult, HttpFailResult, ResponseData, ResponseParts, text_output, error_text};
use crate::text::str_bytes;

verus! {

/// What the server does next while a request goes through its middlewares.
pub enum ChainStep {
    /// Ask the middleware at this index (in the order they were added).
    Ask(usize),
    /// This is the answer.
    Answer(Result<HttpOkResult, HttpFailResult>),
}

/// A request on its way through `count` middlewares: the first one that
/// answers decides, one that does not passes the request on, and when none
/// answers the answer is `404`.
pub struct MiddlewareChain {
    count: usize,
    next: usize,
}

impl MiddlewareChain {
    /// How many middlewares there are.
    pub closed spec fn count_spec(&self) -> nat {
        self.count as nat
    }

    /// The index of the middleware being asked.
    pub closed spec fn asking(&self) -> nat {
        self.next as nat
    }

    /// Starts the chain: the first middleware is asked, or, when there are
    /// none, the answer is `404`.
    pub fn start(count: usize) -> (r: (MiddlewareChain, ChainStep))
        ensures
            r.0.count_spec() == count,
            r.0.asking() == 0,
            count > 0 ==> r.1 == ChainStep::Ask(0),
            count == 0 ==> (r.1 matches ChainStep::Answer(Err(e)) && e.output@ == text_output(
                404,
                "404 - Not Found"@,
            )),
    {
        let chain = MiddlewareChain { count, next: 0 };
        if count > 0 {
            (chain, ChainStep::Ask(0))
        } else {
            (chain, ChainStep::Answer(not_found()))
        }
    }

    /// What the middleware that was asked said decides the next step: its
    /// answer, or the next middleware, or `404` after the last.
    pub fn after(&mut self, result: Option<Result<HttpOkResult, HttpFailResult>>) -> (r: ChainStep)
        requires
            old(self).asking() < old(self).count_spec(),
        ensures
            final(self).count_spec() == old(self).count_spec(),
            match result {
                Some(x) => r == ChainStep::Answer(x) && final(self).asking() == old(self).asking(),
                None => if old(self).asking() + 1 < old(self).count_spec() {
                    &&& r == ChainStep::Ask((old(self).asking() + 1) as usize)
                    &&& final(self).asking() == old(self).asking() + 1
                } else {
                    &&& r matches ChainStep::Answer(Err(e)) && e.output@ == text_output(
                        404,
                        "404 - Not Found"@,
                    )
                    &&& final(self).asking() == old(self).asking()
                },
            },
    {
        match result {
            Some(x) => ChainStep::Answer(x),
            None => {
                if self.next + 1 < self.count {
                    self.next = self.next + 1;
                    ChainStep::Ask(self.next)
                } else {
                    ChainStep::Answer(not_found())
                }
            },
        }
    }
}

/// The middlewares a chain of `count` asks, given which of them answer:
/// each in turn from `from`, stopping after the first that answers.
pub open spec fn asked_from(count: int, from: int, answers: Seq<bool>) -> Seq<int>
    decreases count - from,
{
    if from < 0 || from >= count {
        Seq::empty()
    } else if from < answers.len() && answers[from] {
        seq![from]
    } else {
        seq![from] + asked_from(count, from + 1, answers)
    }
}

/// Over the whole chain: the middlewares are asked in the order they were
/// added, up to and including the first that answers and none after it; when
/// none answers, all are asked.
pub proof fn law_chain_asks_in_order_until_an_answer(count: int, answers: Seq<bool>, from: int)
    requires
        0 <= from <= count,
        answers.len() == count,
    ensures
        ({
            let asked = asked_from(count, from, answers);
            &&& forall|i: int| 0 <= i < asked.len() ==> #[trigger] asked[i] == from + i
            &&& forall|i: int| 0 <= i < asked.len() - 1 ==> !answers[#[trigger] asked[i]]
            &&& asked.len() > 0 && answers[asked.last()] || from + asked.len() == count
        }),
    decreases count - from,
{
    if from < count && !answers[from] {
        law_chain_asks_in_order_until_an_answer(count, answers, from + 1);
        let rest = asked_from(count, from + 1, answers);
        let asked = asked_from(count, from, answers);
        assert(asked == seq![from] + rest);
        assert forall|i: int| 0 <= i < asked.len() implies #[trigger] asked[i] == from + i by {
            if i > 0 {
                assert(asked[i] == rest[i - 1]);
            }
        }
        assert forall|i: int| 0 <= i < asked.len() - 1 implies !answers[#[trigger] asked[i]] by {
            if i > 0 {
                assert(asked[i] == rest[i - 1]);
            }
        }
        if rest.len() > 0 {
            assert(asked.last() == rest.last());
        }
    }
}

/// The answer when no middleware answered: `404`, not logged or traced.
pub fn not_found() -> (r: Result<HttpOkResult, HttpFailResult>)
    ensures
        r matches Err(e) && e.output@ == text_output(404, "404 - Not Found"@) && !e.write_to_log
            && !e.write_telemetry,
{
    Err(HttpFailResult::as_not_found("404 - Not Found", false))
}

/// The answer to every request while the application shuts down: `502`.
pub fn app_is_shutting_down_response() -> (r: ResponseParts)
    ensures
        r.status_code == 502,
        r.headers@.len() == 0,
        r.body@ == encode_utf8("Application is shutting down"@),
{
    ResponseParts {
        status_code: 502,
        headers: Vec::new(),
        body: str_bytes("Application is shutting down"),
    }
}

/// The answer to a request whose handling panicked: `500`.
pub fn panic_response() -> (r: ResponseParts)
    ensures
        r.status_code == 500,
        r.headers@.len() == 0,
        r.body@ == encode_utf8("Internal server error"@),
{
    ResponseParts { status_code: 500, headers: Vec::new(), body: str_bytes("Internal server error") }
}

/// What tech middlewares are told about a request whose handling panicked.
pub fn panic_response_data() -> (r: ResponseData)
    ensures
        r.status_code == 500,
        r.content_type matches Some(t) && t@ == "text/plain"@,
        r.content_length == 0,
        r.has_error,
{
    ResponseData {
        status_code: 500,
        content_type: Some(String::from_str("text/plain")),
        content_length: 0,
        has_error: true,
    }
}

/// The warning a failed request is logged with: only for failures that are
/// both traced and logged.
pub fn failure_log_text(err: &HttpFailResult) -> (r: Option<String>)
    ensures
        match r {
            Some(t) => err.write_telemetry && err.write_to_log && t@
                == "Http request finished with error: "@ + error_text(err.output@),
            None => !(err.write_telemetry && err.write_to_log),
        },
{
    if err.write_telemetry && err.write_to_log {
        let mut text = String::from_str("Http request finished with error: ");
        let reason = err.output.get_text_as_error();
        text.append(reason.as_str());
        Some(text)
    } else {
        None
    }
}

} // verus!
