use vstd::prelude::*;
use crate::msg::ClientError;

verus! {

/// How a raw result of a request is turned into what the editor uses, given
/// the params that the request was made with.
pub trait LspResult: Sized {
    type Response;
    type Param;

    /// `r` is what this raw result and these params decode to.
    spec fn decodes(resp: Self::Response, param: Self::Param, r: Self) -> bool;

    fn from_response(resp: Self::Response, param: Self::Param) -> (r: Self)
        ensures
            Self::decodes(resp, param, r),
    ;
}

/// Where a request stands for its caller: waiting, or done with a result
/// that is kept.
pub enum LspFetch<Res> {
    Yet,
    Got(Result<Res, ClientError>),
}

/// `next` is the state after one poll of `state`, given what the response
/// slot held, if anything: a kept result stays as it is; an arrived answer is
/// decoded, once.
pub open spec fn poll_step<Res: LspResult>(
    state: LspFetch<Res>,
    arrived: Option<(Result<Res::Response, ClientError>, Res::Param)>,
    next: LspFetch<Res>,
) -> bool {
    match state {
        LspFetch::Got(r) => next == LspFetch::Got(r),
        LspFetch::Yet => match arrived {
            None => next is Yet,
            Some((Ok(resp), param)) => next matches LspFetch::Got(Ok(x)) && Res::decodes(
                resp,
                param,
                x,
            ),
            Some((Err(e), _)) => next == LspFetch::<Res>::Got(Err(e)),
        },
    }
}

impl<Res: LspResult> LspFetch<Res> {
    /// A request that was just sent.
    pub fn new() -> (r: LspFetch<Res>)
        ensures
            r is Yet,
    {
        LspFetch::Yet
    }

    /// Whether no result has come yet.
    pub fn is_waiting(&self) -> (r: bool)
        ensures
            r == (self is Yet),
    {
        match self {
            LspFetch::Yet => true,
            LspFetch::Got(_) => false,
        }
    }

    /// Polls without blocking. `arrived` is what the response slot held, if
    /// anything: the raw result (or the failure) and the request's params.
    /// The first answer is decoded and kept; every later poll returns the
    /// kept result, whatever `arrived` holds.
    pub fn try_get_result(
        &mut self,
        arrived: Option<(Result<Res::Response, ClientError>, Res::Param)>,
    ) -> (r: Option<&Result<Res, ClientError>>)
        ensures
            poll_step(*old(self), arrived, *final(self)),
            match *final(self) {
                LspFetch::Yet => r is None,
                LspFetch::Got(x) => r == Some(&x),
            },
    {
        if let LspFetch::Yet = self {
            match arrived {
                None => {},
                Some((Ok(resp), param)) => {
                    *self = LspFetch::Got(Ok(Res::from_response(resp, param)));
                },
                Some((Err(e), _)) => {
                    *self = LspFetch::Got(Err(e));
                },
            }
        }
        match self {
            LspFetch::Yet => None,
            LspFetch::Got(x) => Some(x),
        }
    }

    /// Waits no more: given the answer that the slot delivered, the result,
    /// or the kept one if a poll already had it.
    pub fn await_result(
        self,
        arrived: (Result<Res::Response, ClientError>, Res::Param),
    ) -> (r: Result<Res, ClientError>)
        ensures
            poll_step(self, Some(arrived), LspFetch::Got(r)),
    {
        match self {
            LspFetch::Got(r) => r,
            LspFetch::Yet => match arrived {
                (Ok(resp), param) => Ok(Res::from_response(resp, param)),
                (Err(e), _) => Err(e),
            },
        }
    }
}

/// Once a poll has a result, polling again changes nothing and gives the
/// same result, whatever the slot holds then: the decoder is not run again.
pub proof fn lemma_poll_idempotent<Res: LspResult>(
    state: LspFetch<Res>,
    first: Option<(Result<Res::Response, ClientError>, Res::Param)>,
    after_first: LspFetch<Res>,
    later: Option<(Result<Res::Response, ClientError>, Res::Param)>,
    after_later: LspFetch<Res>,
)
    requires
        poll_step(state, first, after_first),
        after_first is Got,
        poll_step(after_first, later, after_later),
    ensures
        after_later == after_first,
{
}

} // verus!
