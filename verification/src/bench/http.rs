//! Requests over HTTP.

use vstd::prelude::*;

use crate::bench::scenario::BenchContext;
use crate::numbers::{decimal, to_decimal};
use crate::text::{begins_with, contains, occurs_in, replace, replaced};

verus! {

/// The method of the requests.
#[derive(Debug, Clone, Copy, PartialEq, Eq, Structural)]
pub enum HttpMethod {
    Get,
    Post,
}

/// Sends requests to given URLs, or to one made from a template.
#[derive(Debug)]
pub struct HttpScenario {
    pub urls: Vec<String>,
    pub method: HttpMethod,
}

impl Default for HttpScenario {
    fn default() -> (r: Self)
        ensures
            r.urls@.len() == 0,
            r.method is Get,
    {
        HttpScenario { urls: Vec::new(), method: HttpMethod::Get }
    }
}

/// Neither URLs nor a template was given.
#[derive(Debug, Clone, Copy, PartialEq, Eq, Structural)]
pub struct NoUrl;

/// A template with a request number in the place of each `{id}`.
pub open spec fn filled(template: Seq<char>, id: u64) -> Seq<char> {
    if occurs_in(template, "{id}"@) {
        replaced(template, "{id}"@, decimal(id as nat))
    } else {
        template
    }
}

impl HttpScenario {
    /// The same with these URLs.
    pub fn with_urls(self, urls: Vec<String>) -> (r: Self)
        ensures
            r == (HttpScenario { urls, ..self }),
    {
        let mut s = self;
        s.urls = urls;
        s
    }

    /// The same with this method.
    pub fn with_method(self, method: HttpMethod) -> (r: Self)
        ensures
            r == (HttpScenario { method, ..self }),
    {
        let mut s = self;
        s.method = method;
        s
    }

    /// The name of the scenario.
    pub fn name(&self) -> (r: &'static str)
        ensures
            r@ == "http"@,
    {
        "http"
    }

    /// The body of a request that has one: what the command line gives, or nothing.
    pub fn body(&self, ctx: &BenchContext) -> (r: String)
        ensures
            r@ == body_for(ctx.args@),
            r@ == if ctx.args@.dom().contains("body"@) {
                ctx.args@["body"@]@
            } else {
                Seq::<char>::empty()
            },
    {
        match ctx.args.get("body") {
            Some(b) => b.clone(),
            None => String::new(),
        }
    }

    /// The URL of the next request: the given ones in turn, else the template that
    /// the command line gives, filled with the request's number.
    pub fn next_url(&self, ctx: &mut BenchContext) -> (r: Result<String, NoUrl>)
        ensures
            match (r, url_for(self.urls@, old(ctx).args@, old(ctx).request_count)) {
                (Ok(u), Some(v)) => u@ == v,
                (Err(_), None) => true,
                _ => false,
            },
            final(ctx).args == old(ctx).args,
            final(ctx).target_qps == old(ctx).target_qps,
            final(ctx).concurrency == old(ctx).concurrency,
            self.urls@.len() > 0 ==> r is Ok && r->Ok_0@ == self.urls@[((old(ctx).request_count as usize) % (self.urls@.len() as usize)) as int]@,
            self.urls@.len() == 0 && old(ctx).args@.dom().contains("url"@) ==> r is Ok && r->Ok_0@
                == filled(old(ctx).args@["url"@]@, old(ctx).request_count),
            self.urls@.len() == 0 && !old(ctx).args@.dom().contains("url"@) ==> r is Err
                && *final(ctx) == *old(ctx),
            r is Ok ==> final(ctx).request_count == if old(ctx).request_count == u64::MAX {
                0
            } else {
                (old(ctx).request_count + 1) as u64
            },
    {
        if self.urls.len() > 0 {
            let id: u64 = ctx.next_request_id();
            let idx: usize = (id as usize) % self.urls.len();
            return Ok(self.urls[idx].clone());
        }
        let template = match ctx.args.get("url") {
            Some(t) => t.clone(),
            None => {
                return Err(NoUrl);
            },
        };
        let id: u64 = ctx.next_request_id();
        if contains(template.as_str(), "{id}") {
            proof {
                reveal_strlit("{id}");
            }
            Ok(replace(template.as_str(), "{id}", to_decimal(id).as_str()))
        } else {
            Ok(template)
        }
    }
}

/// The body of a request.
pub open spec fn body_for(args: Map<Seq<char>, String>) -> Seq<char> {
    if args.dom().contains("body"@) {
        args["body"@]@
    } else {
        Seq::empty()
    }
}

/// The address of a request.
pub open spec fn url_for(urls: Seq<String>, args: Map<Seq<char>, String>, request: u64) -> Option<
    Seq<char>,
> {
    if urls.len() > 0 {
        Some(urls[(request as usize) as int % urls.len() as int]@)
    } else if args.dom().contains("url"@) {
        Some(filled(args["url"@]@, request))
    } else {
        None
    }
}

/// The body is the argument of that name, and empty without one.
pub proof fn lemma_body(args: Map<Seq<char>, String>, b: String)
    ensures
        body_for(args.insert("body"@, b)) == b@,
        body_for(args.remove("body"@)) == Seq::<char>::empty(),
{
}

/// The given addresses come in turn, and no argument matters beside them; without any the
/// argument is used, and without that there is no address.
pub proof fn lemma_urls_in_turn(
    urls: Seq<String>,
    args: Map<Seq<char>, String>,
    request: u64,
    rounds: int,
    place: int,
)
    requires
        0 <= place < urls.len(),
        (request as usize) as int == rounds * urls.len() + place,
    ensures
        url_for(urls, args, request) == Some(urls[place]@),
{
    vstd::arithmetic::div_mod::lemma_fundamental_div_mod_converse(
        (request as usize) as int,
        urls.len() as int,
        rounds,
        place,
    );
}

/// Without addresses a request goes where the argument says, and without the argument
/// nowhere.
pub proof fn lemma_url_of_the_argument(args: Map<Seq<char>, String>, u: String, request: u64)
    ensures
        url_for(Seq::empty(), args.insert("url"@, u), request) == Some(filled(u@, request)),
        url_for(Seq::empty(), args.remove("url"@), request) is None,
{
}

/// The number of the request takes the place of its mark, and a text without the mark is
/// left as it is.
pub proof fn lemma_filled(a: Seq<char>, b: Seq<char>, id: u64)
    ensures
        !occurs_in(a, "{id}"@) ==> filled(a, id) == a,
        !occurs_in(b, "{id}"@) && (forall|i: int|
            0 <= i < a.len() ==> !begins_with(#[trigger] (a + "{id}"@ + b).skip(i), "{id}"@))
            ==> filled(a + "{id}"@ + b, id) == a + decimal(id as nat) + b,
{
    reveal_strlit("{id}");
    if !occurs_in(b, "{id}"@) && (forall|i: int|
        0 <= i < a.len() ==> !begins_with(#[trigger] (a + "{id}"@ + b).skip(i), "{id}"@)) {
        crate::text::lemma_occurs_in(a, "{id}"@, a, b);
        crate::text::lemma_replacing(a, "{id}"@, b, decimal(id as nat));
        crate::text::lemma_nothing_to_replace(b, "{id}"@, decimal(id as nat));
    }
}

/// Every mark gives way to the number, not only the first.
pub proof fn lemma_every_mark_is_filled(a: Seq<char>, b: Seq<char>, id: u64)
    requires
        forall|i: int|
            0 <= i < a.len() ==> !begins_with(#[trigger] (a + "{id}"@ + b).skip(i), "{id}"@),
    ensures
        filled(a + "{id}"@ + b, id) == a + decimal(id as nat) + filled(b, id),
{
    reveal_strlit("{id}");
    crate::text::lemma_occurs_in(a, "{id}"@, a, b);
    crate::text::lemma_replacing(a, "{id}"@, b, decimal(id as nat));
    if !occurs_in(b, "{id}"@) {
        crate::text::lemma_nothing_to_replace(b, "{id}"@, decimal(id as nat));
    }
}

} // verus!
