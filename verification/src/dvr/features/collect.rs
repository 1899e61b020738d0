//! Byte collection over a pluggable source (`/collect`, header `x-len`).

use vstd::prelude::*;
use crate::dvr::{App, Request, Response};
use crate::text::{chars_of, decimal, decimal_string, owned, parse_unsigned, parse_usize, push_str};

verus! {

/// A source of bytes. Its contract is that the advertised length does not
/// exceed the data; nothing enforces it.
pub trait ByteSource {
    /// The data the source holds.
    spec fn bytes_spec(&self) -> Seq<u8>;

    /// The length the source advertises.
    spec fn advertised_spec(&self) -> usize;

    fn data(&self) -> (r: &[u8])
        ensures
            r@ == self.bytes_spec(),
    ;

    fn advertised_len(&self) -> (r: usize)
        ensures
            r == self.advertised_spec(),
    ;
}

/// Sum of a byte string.
pub open spec fn byte_sum(s: Seq<u8>) -> nat
    decreases s.len(),
{
    if s.len() == 0 {
        0
    } else {
        byte_sum(s.drop_last()) + s.last() as nat
    }
}

/// The sum of a prefix never exceeds 255 per byte.
pub proof fn lemma_byte_sum_bound(s: Seq<u8>)
    ensures
        byte_sum(s) <= 255 * s.len(),
    decreases s.len(),
{
    if s.len() > 0 {
        lemma_byte_sum_bound(s.drop_last());
    }
}

/// Sum of `data[..n]`.
fn sum_prefix(data: &[u8], n: usize) -> (r: u64)
    requires
        n <= data@.len(),
        255 * data@.len() <= u64::MAX,
    ensures
        r == byte_sum(data@.take(n as int)),
{
    let mut acc: u64 = 0;
    let mut i: usize = 0;
    while i < n
        invariant
            i <= n <= data@.len(),
            255 * data@.len() <= u64::MAX,
            acc == byte_sum(data@.take(i as int)),
        decreases n - i,
    {
        proof {
            lemma_byte_sum_bound(data@.take(i as int));
            assert(data@.take(i + 1).drop_last() =~= data@.take(i as int));
        }
        acc = acc + data[i] as u64;
        i += 1;
    }
    acc
}

/// Sum of the advertised bytes of a source whose advertised length holds.
pub fn read_all<S: ByteSource>(src: &S) -> (r: u64)
    requires
        src.advertised_spec() <= src.bytes_spec().len(),
        255 * src.bytes_spec().len() <= u64::MAX,
    ensures
        r == byte_sum(src.bytes_spec().take(src.advertised_spec() as int)),
{
    let data = src.data();
    let n = src.advertised_len();
    sum_prefix(data, n)
}

/// The advertised length clamped to the data.
pub open spec fn clamped_len(src_len: nat, advertised: nat) -> nat {
    if advertised <= src_len {
        advertised
    } else {
        src_len
    }
}

/// Sum of the advertised bytes, the advertised length clamped to the data.
pub fn read_all_safe<S: ByteSource>(src: &S) -> (r: u64)
    requires
        255 * src.bytes_spec().len() <= u64::MAX,
    ensures
        r == byte_sum(
            src.bytes_spec().take(
                clamped_len(src.bytes_spec().len(), src.advertised_spec() as nat) as int,
            ),
        ),
{
    let data = src.data();
    let adv = src.advertised_len();
    let n = if adv <= data.len() { adv } else { data.len() };
    sum_prefix(data, n)
}

/// The source used on the request path: the body, with the length the
/// `x-len` header advertises.
struct RequestSource<'a> {
    body: &'a [u8],
    advertised: usize,
}

impl<'a> ByteSource for RequestSource<'a> {
    closed spec fn bytes_spec(&self) -> Seq<u8> {
        self.body@
    }

    closed spec fn advertised_spec(&self) -> usize {
        self.advertised
    }

    fn data(&self) -> (r: &[u8]) {
        self.body
    }

    fn advertised_len(&self) -> (r: usize) {
        self.advertised
    }
}

/// The length a request advertises: `x-len` when it parses as a `usize`,
/// else the body length.
pub open spec fn advertised_length(req: &Request) -> nat {
    match req.header_spec("x-len"@) {
        Some(v) => match parse_unsigned(v, usize::MAX as nat) {
            Some(n) => n,
            None => req.body@.len(),
        },
        None => req.body@.len(),
    }
}

fn advertised(req: &Request) -> (r: usize)
    ensures
        r == advertised_length(req),
{
    match req.header("x-len") {
        Some(v) => match parse_usize(&chars_of(v)) {
            Some(n) => n,
            None => req.body.len(),
        },
        None => req.body.len(),
    }
}

/// `sum=<n>`.
fn sum_response(sum: u64) -> (r: Response)
    ensures
        r.status == 200,
        r.body@ == "sum="@ + decimal(sum as nat),
{
    let mut body = owned("sum=");
    let digits = decimal_string(sum);
    push_str(&mut body, digits.as_str());
    Response::ok(body)
}

/// What `handle` answers.
pub open spec fn answers(app: &App, req: &Request, r: Response) -> bool {
    &&& r.status == 200
    &&& r.body@ == "sum="@ + decimal(byte_sum(req.body@.take(advertised_length(req) as int)))
}

/// The requests `handle` is defined on.
pub open spec fn admits(req: &Request) -> bool {
    &&& advertised_length(req) <= req.body@.len()
    &&& 255 * req.body@.len() <= u64::MAX
}

/// Sums the advertised bytes of the body. Defined only when the advertised
/// length holds (a larger one reads out of bounds).
pub fn handle(_app: &App, req: &Request) -> (r: Response)
    requires
        admits(req),
    ensures
        answers(_app, req, r),
{
    let n = advertised(req);
    let src = RequestSource { body: req.body.as_slice(), advertised: n };
    let sum = read_all(&src);
    sum_response(sum)
}

/// Sums the advertised bytes of the body, clamped to the body.
pub fn fixed_handle(_app: &App, req: &Request) -> (r: Response)
    requires
        255 * req.body@.len() <= u64::MAX,
    ensures
        r.status == 200,
        r.body@ == "sum="@ + decimal(
            byte_sum(req.body@.take(clamped_len(req.body@.len(), advertised_length(req)) as int)),
        ),
{
    let n = advertised(req);
    let src = RequestSource { body: req.body.as_slice(), advertised: n };
    let sum = read_all_safe(&src);
    sum_response(sum)
}

/// Clamping changes only lying lengths: on every request the summing handler
/// is defined on, the clamping handler's answer is the one it owes.
pub proof fn lemma_clamping_agrees_on_honest_lengths(app: &App, req: &Request, r: Response)
    requires
        admits(req),
        r.status == 200,
        r.body@ == "sum="@ + decimal(
            byte_sum(req.body@.take(clamped_len(req.body@.len(), advertised_length(req)) as int)),
        ),
    ensures
        answers(app, req, r),
{
}

} // verus!
