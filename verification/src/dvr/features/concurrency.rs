//! Shared cache handle read by workers (`/cache/warm`, header `x-workers`).

use vstd::prelude::*;
use crate::dvr::{App, Request, Response};
use crate::text::{chars_of, decimal, decimal_string, owned, parse_unsigned, parse_usize, push_str};

verus! {

/// A wrapper handed to workers.
pub struct Shared<T> {
    inner: T,
}

impl<T> Shared<T> {
    /// The wrapped value.
    pub closed spec fn value(&self) -> T {
        self.inner
    }

    pub fn new(inner: T) -> (r: Self)
        ensures
            r.value() == inner,
    {
        Shared { inner }
    }

    pub fn get(&self) -> (r: &T)
        ensures
            *r == self.value(),
    {
        &self.inner
    }
}

/// A wrapper that only holds values that may be sent and shared across threads.
pub struct SharedSafe<T: Send + Sync> {
    inner: T,
}

impl<T: Send + Sync> SharedSafe<T> {
    /// The wrapped value.
    pub closed spec fn value(&self) -> T {
        self.inner
    }

    pub fn new(inner: T) -> (r: Self)
        ensures
            r.value() == inner,
    {
        SharedSafe { inner }
    }

    pub fn get(&self) -> (r: &T)
        ensures
            *r == self.value(),
    {
        &self.inner
    }
}

/// Number of workers a request asks for (`x-workers`, default 4), capped at 16.
pub open spec fn worker_count(req: &Request) -> nat {
    let asked = match req.header_spec("x-workers"@) {
        Some(v) => match parse_unsigned(v, usize::MAX as nat) {
            Some(n) => n,
            None => 4,
        },
        None => 4,
    };
    if asked < 16 {
        asked
    } else {
        16
    }
}

fn workers(req: &Request) -> (r: usize)
    ensures
        r == worker_count(req),
{
    let asked: usize = match req.header("x-workers") {
        Some(v) => match parse_usize(&chars_of(v)) {
            Some(n) => n,
            None => 4,
        },
        None => 4,
    };
    if asked < 16 {
        asked
    } else {
        16
    }
}

/// What `handle` answers.
pub open spec fn answers(app: &App, req: &Request, r: Response) -> bool {
    &&& r.status == 200
    &&& r.body@ == "touched="@ + decimal(worker_count(req) * req.body@.len())
}

/// The requests `handle` is defined on.
pub open spec fn admits(req: &Request) -> bool {
    &&& 16 * req.body@.len() <= u64::MAX
}

/// Each worker reads the length of the shared body; the total is reported.
pub fn handle(_app: &App, req: &Request) -> (r: Response)
    requires
        admits(req),
    ensures
        answers(_app, req, r),
{
    let count = workers(req);
    let body: Vec<u8> = req.body.clone();
    let shared = Shared::new(body);
    let mut total: u64 = 0;
    let mut w: usize = 0;
    while w < count
        invariant
            w <= count <= 16,
            16 * req.body@.len() <= u64::MAX,
            shared.value()@ == req.body@,
            total == w * req.body@.len(),
        decreases count - w,
    {
        let seen = shared.get().len() as u64;
        assert(total + seen <= 16 * req.body@.len()) by (nonlinear_arith)
            requires
                total == w * req.body@.len(),
                seen == req.body@.len(),
                w < 16,
        ;
        total = total + seen;
        assert(total == (w + 1) * req.body@.len()) by (nonlinear_arith)
            requires
                total == w * req.body@.len() + req.body@.len(),
        ;
        w += 1;
    }
    let mut out = owned("touched=");
    let digits = decimal_string(total);
    push_str(&mut out, digits.as_str());
    Response::ok(out)
}

} // verus!
