//! CORS (Cross-Origin Resource Sharing) middleware decisions.
//!
//! The middleware either answers a preflight `OPTIONS` request
//! immediately — never reaching the router — or forwards the request
//! and afterwards stamps the response with the allow-origin and vary
//! headers. Header names and values are plain strings here; the
//! serving layer copies them into its wire types.

use vstd::prelude::*;

verus! {

/// Which origins may make cross-origin requests.
pub enum AllowedOrigins {
    /// Any origin (`*`).
    Any,
    /// Only the listed origins, matched exactly.
    Exact(Vec<String>),
}

/// Which methods a preflight answer offers.
pub enum AllowedMethods {
    /// Any method.
    Any,
    /// Only the listed methods.
    List(Vec<String>),
}

/// Which request headers a preflight answer offers.
pub enum AllowedHeaders {
    /// Any header.
    Any,
    /// Only the listed headers.
    List(Vec<String>),
}

/// Configuration for the CORS middleware.
pub struct CorsConfig {
    pub allowed_origins: AllowedOrigins,
    pub allowed_methods: AllowedMethods,
    pub allowed_headers: AllowedHeaders,
}

/// The middleware itself: its configuration, fixed at build time.
pub struct CorsMiddleware {
    pub config: CorsConfig,
}

/// A response as the middleware shapes it: a status code and named
/// headers, in the order they are set.
pub struct CorsResponse {
    pub status: u16,
    pub headers: Vec<(String, String)>,
}

/// The view of a header list.
pub open spec fn spec_headers_view(hs: Seq<(String, String)>) -> Seq<(Seq<char>, Seq<char>)> {
    hs.map_values(|p: (String, String)| (p.0@, p.1@))
}

/// The items of a string list, as character sequences.
pub open spec fn spec_strings_view(items: Seq<String>) -> Seq<Seq<char>> {
    items.map_values(|s: String| s@)
}

// ---------------------------------------------------------------------
// Configuration constructors
// ---------------------------------------------------------------------

impl CorsConfig {
    /// Allows all origins, methods and headers. For development.
    pub fn permissive() -> (r: CorsConfig)
        ensures
            r.allowed_origins is Any,
            r.allowed_methods is Any,
            r.allowed_headers is Any,
    {
        CorsConfig {
            allowed_origins: AllowedOrigins::Any,
            allowed_methods: AllowedMethods::Any,
            allowed_headers: AllowedHeaders::Any,
        }
    }

    /// Allows only the given origins, with the usual methods and the
    /// accept and authorization headers.
    pub fn with_origins(origins: Vec<String>) -> (r: CorsConfig)
        ensures
            (match r.allowed_origins {
                AllowedOrigins::Exact(os) => os@ == origins@,
                AllowedOrigins::Any => false,
            }),
            (match r.allowed_methods {
                AllowedMethods::List(ms) => spec_strings_view(ms@) == seq![
                    "GET"@,
                    "POST"@,
                    "PUT"@,
                    "PATCH"@,
                    "DELETE"@,
                    "OPTIONS"@,
                ],
                AllowedMethods::Any => false,
            }),
            (match r.allowed_headers {
                AllowedHeaders::List(hs) => spec_strings_view(hs@) == seq![
                    "accept"@,
                    "authorization"@,
                ],
                AllowedHeaders::Any => false,
            }),
    {
        let mut methods: Vec<String> = Vec::new();
        methods.push("GET".to_owned());
        methods.push("POST".to_owned());
        methods.push("PUT".to_owned());
        methods.push("PATCH".to_owned());
        methods.push("DELETE".to_owned());
        methods.push("OPTIONS".to_owned());
        let mut headers: Vec<String> = Vec::new();
        headers.push("accept".to_owned());
        headers.push("authorization".to_owned());
        let r = CorsConfig {
            allowed_origins: AllowedOrigins::Exact(origins),
            allowed_methods: AllowedMethods::List(methods),
            allowed_headers: AllowedHeaders::List(headers),
        };
        proof {
            match &r.allowed_methods {
                AllowedMethods::List(ms) => {
                    assert(spec_strings_view(ms@) =~= seq![
                        "GET"@,
                        "POST"@,
                        "PUT"@,
                        "PATCH"@,
                        "DELETE"@,
                        "OPTIONS"@,
                    ]);
                },
                AllowedMethods::Any => {},
            }
            match &r.allowed_headers {
                AllowedHeaders::List(hs) => {
                    assert(spec_strings_view(hs@) =~= seq!["accept"@, "authorization"@]);
                },
                AllowedHeaders::Any => {},
            }
        }
        r
    }
}

// ---------------------------------------------------------------------
// Decision functions
// ---------------------------------------------------------------------

/// Whether an origin is on the allowed list.
pub open spec fn spec_origin_allowed(os: Seq<String>, o: Seq<char>) -> bool
    decreases os.len(),
{
    if os.len() == 0 {
        false
    } else {
        os[0]@ == o || spec_origin_allowed(os.skip(1), o)
    }
}

/// The allow-origin header value owed to a request, if any: `*` when
/// every origin is allowed, the request's own origin when it is on
/// the list, nothing otherwise.
pub open spec fn spec_allow_origin(ao: AllowedOrigins, origin: Option<Seq<char>>) -> Option<
    Seq<char>,
> {
    match ao {
        AllowedOrigins::Any => Option::Some("*"@),
        AllowedOrigins::Exact(os) => match origin {
            Option::Some(o) => {
                if spec_origin_allowed(os@, o) {
                    Option::Some(o)
                } else {
                    Option::None
                }
            },
            Option::None => Option::None,
        },
    }
}

/// The view of an optional origin header.
pub open spec fn spec_origin_view(origin: Option<String>) -> Option<Seq<char>> {
    match origin {
        Option::Some(o) => Option::Some(o@),
        Option::None => Option::None,
    }
}

fn allow_origin_value(ao: &AllowedOrigins, origin: &Option<String>) -> (r: Option<String>)
    ensures
        (match r {
            Option::Some(v) => spec_allow_origin(*ao, spec_origin_view(*origin))
                == Option::Some(v@),
            Option::None => spec_allow_origin(*ao, spec_origin_view(*origin)) is None,
        }),
{
    match ao {
        AllowedOrigins::Any => Some("*".to_owned()),
        AllowedOrigins::Exact(os) => match origin {
            Some(o) => {
                let n = os.len();
                let mut i: usize = 0;
                proof {
                    assert(os@.skip(0) =~= os@);
                }
                while i < n
                    invariant
                        i <= n,
                        n == os@.len(),
                        *ao == AllowedOrigins::Exact(*os),
                        *origin == Option::Some(*o),
                        spec_origin_allowed(os@.skip(i as int), o@) == spec_origin_allowed(
                            os@,
                            o@,
                        ),
                    decreases n - i,
                {
                    proof {
                        assert(os@.skip(i as int)[0] == os@[i as int]);
                        assert(os@.skip(i as int).skip(1) =~= os@.skip(i + 1));
                    }
                    if os[i].eq(o) {
                        return Some(o.clone());
                    }
                    i = i + 1;
                }
                proof {
                    assert(os@.skip(n as int) =~= Seq::<String>::empty());
                }
                None
            },
            None => None,
        },
    }
}

/// The allow-methods header value the configuration announces.
pub open spec fn spec_methods_value(am: AllowedMethods) -> Seq<char> {
    match am {
        AllowedMethods::Any => "*"@,
        AllowedMethods::List(ms) => crate::text::spec_join(spec_strings_view(ms@), ", "@),
    }
}

fn methods_value(am: &AllowedMethods) -> (r: String)
    ensures
        r@ == spec_methods_value(*am),
{
    match am {
        AllowedMethods::Any => "*".to_owned(),
        AllowedMethods::List(ms) => crate::text::join_strings(ms, ", "),
    }
}

/// The allow-headers header value the configuration announces.
pub open spec fn spec_headers_value(ah: AllowedHeaders) -> Seq<char> {
    match ah {
        AllowedHeaders::Any => "*"@,
        AllowedHeaders::List(hs) => crate::text::spec_join(spec_strings_view(hs@), ", "@),
    }
}

fn headers_value(ah: &AllowedHeaders) -> (r: String)
    ensures
        r@ == spec_headers_value(*ah),
{
    match ah {
        AllowedHeaders::Any => "*".to_owned(),
        AllowedHeaders::List(hs) => crate::text::join_strings(hs, ", "),
    }
}

/// The headers of a preflight answer: the allow-origin owed to the
/// request if any, then allow-methods, allow-headers, and vary.
pub open spec fn spec_preflight_headers(config: CorsConfig, origin: Option<Seq<char>>) -> Seq<
    (Seq<char>, Seq<char>),
> {
    let tail = seq![
        ("access-control-allow-methods"@, spec_methods_value(config.allowed_methods)),
        ("access-control-allow-headers"@, spec_headers_value(config.allowed_headers)),
        ("vary"@, "Origin"@),
    ];
    match spec_allow_origin(config.allowed_origins, origin) {
        Option::Some(v) => seq![("access-control-allow-origin"@, v)] + tail,
        Option::None => tail,
    }
}

/// A header list with every entry of one name removed, order kept.
pub open spec fn spec_without_header(
    hs: Seq<(Seq<char>, Seq<char>)>,
    name: Seq<char>,
) -> Seq<(Seq<char>, Seq<char>)>
    decreases hs.len(),
{
    if hs.len() == 0 {
        Seq::empty()
    } else {
        let rest = spec_without_header(hs.skip(1), name);
        if hs[0].0 == name {
            rest
        } else {
            seq![hs[0]] + rest
        }
    }
}

/// Sets a header as a map would: any entry of the same name is
/// dropped and the new value appended.
fn set_header(headers: &mut Vec<(String, String)>, name: String, value: String)
    ensures
        spec_headers_view(final(headers)@) == spec_without_header(
            spec_headers_view(old(headers)@),
            name@,
        ).push((name@, value@)),
{
    let ghost orig = spec_headers_view(headers@);
    let mut out: Vec<(String, String)> = Vec::new();
    proof {
        assert(spec_headers_view(out@) =~= Seq::<(Seq<char>, Seq<char>)>::empty());
        assert(spec_headers_view(headers@) =~= orig);
    }
    while headers.len() > 0
        invariant
            spec_without_header(orig, name@) == spec_headers_view(out@) + spec_without_header(
                spec_headers_view(headers@),
                name@,
            ),
        decreases headers@.len(),
    {
        let ghost rem = spec_headers_view(headers@);
        let ghost outv = spec_headers_view(out@);
        let h = headers.remove(0);
        proof {
            assert(spec_headers_view(headers@) =~= rem.skip(1));
            assert((h.0@, h.1@) == rem[0]);
        }
        if !h.0.eq(&name) {
            out.push(h);
            proof {
                assert(spec_headers_view(out@) =~= outv.push(rem[0]));
                assert(outv.push(rem[0]) + spec_without_header(rem.skip(1), name@) =~= outv + (
                seq![rem[0]] + spec_without_header(rem.skip(1), name@)));
            }
        }
    }
    proof {
        assert(spec_headers_view(headers@) =~= Seq::<(Seq<char>, Seq<char>)>::empty());
        assert(spec_headers_view(out@) + Seq::<(Seq<char>, Seq<char>)>::empty() =~= spec_headers_view(out@));
    }
    let ghost namev = name@;
    let ghost valuev = value@;
    out.push((name, value));
    proof {
        assert(spec_headers_view(out@) =~= spec_without_header(orig, namev).push(
            (namev, valuev),
        ));
    }
    *headers = out;
}

/// Whether a request is a preflight: its method is `OPTIONS`.
pub fn is_preflight(method: crate::router::HttpMethod) -> (r: bool)
    ensures
        r == (method == crate::router::HttpMethod::Options),
{
    method == crate::router::HttpMethod::Options
}

/// What the middleware does with one request.
pub enum CorsDecision {
    /// Answer at once, never reaching the router.
    ShortCircuit(CorsResponse),
    /// Run the rest of the chain, then stamp the response headers.
    Forward,
}

impl CorsMiddleware {
    /// A middleware with the given configuration.
    pub fn new(config: CorsConfig) -> (r: CorsMiddleware)
        ensures
            r.config == config,
    {
        CorsMiddleware { config }
    }

    /// The immediate answer to a preflight request: status 204 with
    /// the announced allowances, never consulting the router.
    pub fn preflight_response(&self, origin: &Option<String>) -> (r: CorsResponse)
        ensures
            r.status == 204,
            spec_headers_view(r.headers@) == spec_preflight_headers(
                self.config,
                spec_origin_view(*origin),
            ),
    {
        let mut headers: Vec<(String, String)> = Vec::new();
        match allow_origin_value(&self.config.allowed_origins, origin) {
            Some(v) => {
                headers.push(("access-control-allow-origin".to_owned(), v));
            },
            None => {},
        }
        headers.push(
            ("access-control-allow-methods".to_owned(), methods_value(
                &self.config.allowed_methods,
            )),
        );
        headers.push(
            ("access-control-allow-headers".to_owned(), headers_value(
                &self.config.allowed_headers,
            )),
        );
        headers.push(("vary".to_owned(), "Origin".to_owned()));
        let r = CorsResponse { status: 204, headers };
        proof {
            assert(spec_headers_view(r.headers@) =~= spec_preflight_headers(
                self.config,
                spec_origin_view(*origin),
            ));
        }
        r
    }

    /// Decides one request: a preflight `OPTIONS` request is answered
    /// immediately with the preflight response; every other request
    /// is forwarded to the rest of the chain.
    pub fn handle_request(&self, method: crate::router::HttpMethod, origin: &Option<String>) -> (r:
        CorsDecision)
        ensures
            (match r {
                CorsDecision::ShortCircuit(resp) => method == crate::router::HttpMethod::Options
                    && resp.status == 204 && spec_headers_view(resp.headers@)
                    == spec_preflight_headers(self.config, spec_origin_view(*origin)),
                CorsDecision::Forward => method != crate::router::HttpMethod::Options,
            }),
    {
        if is_preflight(method) {
            CorsDecision::ShortCircuit(self.preflight_response(origin))
        } else {
            CorsDecision::Forward
        }
    }

    /// Stamps a forwarded response: sets the allow-origin owed to
    /// the request, if any, then the vary header, each replacing any
    /// previous value of its name; every other header is kept.
    pub fn add_cors_headers(&self, response: &mut CorsResponse, origin: &Option<String>)
        ensures
            final(response).status == old(response).status,
            ({
                let before = spec_headers_view(old(response).headers@);
                let withal = match spec_allow_origin(
                    self.config.allowed_origins,
                    spec_origin_view(*origin),
                ) {
                    Option::Some(v) => spec_without_header(
                        before,
                        "access-control-allow-origin"@,
                    ).push(("access-control-allow-origin"@, v)),
                    Option::None => before,
                };
                spec_headers_view(final(response).headers@) == spec_without_header(
                    withal,
                    "vary"@,
                ).push(("vary"@, "Origin"@))
            }),
    {
        match allow_origin_value(&self.config.allowed_origins, origin) {
            Some(v) => {
                set_header(&mut response.headers, "access-control-allow-origin".to_owned(), v);
            },
            None => {},
        }
        set_header(&mut response.headers, "vary".to_owned(), "Origin".to_owned());
    }
}

} // verus!
