//! Typed CORS (Cross-Origin Resource Sharing) configuration.
//!
//! [`CorsConfig`] is an immutable value object describing the CORS response
//! headers a server instance emits.  It is produced either through
//! [`CorsConfigBuilder`] (all fields optional, last write per field wins,
//! construction cannot fail) or through the permissive preset
//! [`CorsConfig::allow_all`].  [`CorsConfigFile`] is the loosely-typed
//! representation read from a configuration file; [`CorsConfig::try_from`]
//! converts it into the typed value.

use vstd::prelude::*;

verus! {

/// Nanoseconds in one second; upper bound for [`Duration::nanos`].
pub const NANOS_PER_SEC: u32 = 1_000_000_000;

/// A span of time held as whole seconds plus a sub-second remainder in
/// nanoseconds, so that fractional-second configuration values (such as a
/// preflight cache lifetime) are kept without rounding to whole seconds.
#[derive(Clone, Copy, Debug, PartialEq, Eq, Structural)]
pub struct Duration {
    pub secs: u64,
    pub nanos: u32,
}

impl Duration {
    /// A duration is well formed when its sub-second part is below one second.
    pub open spec fn wf(self) -> bool {
        self.nanos < NANOS_PER_SEC
    }

    /// A duration of exactly `secs` whole seconds.
    pub fn from_secs(secs: u64) -> (r: Duration)
        ensures
            r == (Duration { secs, nanos: 0u32 }),
            r.wf(),
    {
        Duration { secs, nanos: 0 }
    }

    /// A duration of `secs` whole seconds plus `nanos` nanoseconds.
    pub fn new(secs: u64, nanos: u32) -> (r: Duration)
        requires
            nanos < NANOS_PER_SEC,
        ensures
            r == (Duration { secs, nanos }),
            r.wf(),
    {
        Duration { secs, nanos }
    }

    /// The whole-second part.
    pub fn as_secs(&self) -> (r: u64)
        ensures
            r == self.secs,
    {
        self.secs
    }

    /// The sub-second part, in nanoseconds.
    pub fn subsec_nanos(&self) -> (r: u32)
        ensures
            r == self.nanos,
    {
        self.nanos
    }
}

/// CORS configuration for the HTTP/S server.
///
/// `CorsConfig` holds the configuration for the CORS headers of a server
/// instance.  The following headers are supported:
///
/// - Access-Control-Allow-Credentials
/// - Access-Control-Allow-Headers
/// - Access-Control-Allow-Methods
/// - Access-Control-Allow-Origin
/// - Access-Control-Expose-Headers
/// - Access-Control-Max-Age
/// - Access-Control-Request-Headers
/// - Access-Control-Request-Method
///
/// An absent optional field means the header is omitted entirely, which is
/// distinct from an empty sequence (the header is emitted with no values).
/// The value is read-only once built: construction goes through
/// [`CorsConfig::builder`], [`CorsConfig::allow_all`] or
/// [`CorsConfig::try_from`].
///
/// Two configurations are equal exactly when every field compares equal;
/// the sequences are ordered, so reordered header lists are not equal.
#[derive(Clone, Debug)]
pub struct CorsConfig {
    /// Whether browsers may expose the response to frontend code when the
    /// request's credentials mode is `include`.
    pub allow_credentials: bool,
    /// Header names permitted in the actual request.
    pub allow_headers: Option<Vec<String>>,
    /// HTTP methods permitted when accessing the resource.
    pub allow_methods: Option<Vec<String>>,
    /// The single origin (or wildcard) the response may be shared with.
    pub allow_origin: Option<String>,
    /// Response headers exposed to scripts running in the browser.
    pub expose_headers: Option<Vec<String>>,
    /// How long a preflight result may be cached.
    pub max_age: Option<Duration>,
    /// Informational mirror of a preflight request's requested headers.
    pub request_headers: Option<Vec<String>>,
    /// Informational mirror of a preflight request's requested method.
    pub request_method: Option<String>,
}

/// The mathematical value of a [`CorsConfig`] (and of a builder holding one):
/// every field as a plain spec value.
#[verifier::ext_equal]
pub struct CorsConfigV {
    pub allow_credentials: bool,
    pub allow_headers: Option<Seq<Seq<char>>>,
    pub allow_methods: Option<Seq<Seq<char>>>,
    pub allow_origin: Option<Seq<char>>,
    pub expose_headers: Option<Seq<Seq<char>>>,
    pub max_age: Option<Duration>,
    pub request_headers: Option<Seq<Seq<char>>>,
    pub request_method: Option<Seq<char>>,
}

impl View for CorsConfig {
    type V = CorsConfigV;

    open spec fn view(&self) -> CorsConfigV {
        CorsConfigV {
            allow_credentials: self.allow_credentials,
            allow_headers: self.allow_headers.deep_view(),
            allow_methods: self.allow_methods.deep_view(),
            allow_origin: self.allow_origin.deep_view(),
            expose_headers: self.expose_headers.deep_view(),
            max_age: self.max_age,
            request_headers: self.request_headers.deep_view(),
            request_method: self.request_method.deep_view(),
        }
    }
}

/// Whether two optional strings hold the same characters.
fn eq_opt_string(a: &Option<String>, b: &Option<String>) -> (r: bool)
    ensures
        r == (a.deep_view() == b.deep_view()),
{
    match (a, b) {
        (None, None) => true,
        (Some(x), Some(y)) => *x == *y,
        _ => false,
    }
}

/// Whether two string sequences hold the same strings in the same order.
fn eq_vec_string(a: &Vec<String>, b: &Vec<String>) -> (r: bool)
    ensures
        r == (a.deep_view() == b.deep_view()),
{
    if a.len() != b.len() {
        proof {
            assert(a.deep_view().len() != b.deep_view().len());
        }
        return false;
    }
    let mut i: usize = 0;
    while i < a.len()
        invariant
            i <= a.len() == b.len(),
            forall|k: int| 0 <= k < i ==> a.deep_view()[k] == b.deep_view()[k],
        decreases a.len() - i,
    {
        let xi = &a[i];
        let yi = &b[i];
        if !(*xi == *yi) {
            proof {
                assert(a.deep_view()[i as int] != b.deep_view()[i as int]);
            }
            return false;
        }
        proof {
            assert(a.deep_view()[i as int] == b.deep_view()[i as int]);
        }
        i += 1;
    }
    proof {
        assert(a.deep_view() =~= b.deep_view());
    }
    true
}

/// Whether two optional string sequences are equal.
fn eq_opt_vec_string(a: &Option<Vec<String>>, b: &Option<Vec<String>>) -> (r: bool)
    ensures
        r == (a.deep_view() == b.deep_view()),
{
    match (a, b) {
        (None, None) => true,
        (Some(x), Some(y)) => eq_vec_string(x, y),
        _ => false,
    }
}

/// Whether two optional durations are equal.
fn eq_opt_duration(a: &Option<Duration>, b: &Option<Duration>) -> (r: bool)
    ensures
        r == (*a == *b),
{
    match (a, b) {
        (None, None) => true,
        (Some(x), Some(y)) => x.secs == y.secs && x.nanos == y.nanos,
        _ => false,
    }
}

impl PartialEq for CorsConfig {
    /// Field-for-field equality; sequence order matters.
    fn eq(&self, other: &CorsConfig) -> bool {
        let r = self.allow_credentials == other.allow_credentials && eq_opt_vec_string(
            &self.allow_headers,
            &other.allow_headers,
        ) && eq_opt_vec_string(&self.allow_methods, &other.allow_methods) && eq_opt_string(
            &self.allow_origin,
            &other.allow_origin,
        ) && eq_opt_vec_string(&self.expose_headers, &other.expose_headers) && eq_opt_duration(
            &self.max_age,
            &other.max_age,
        ) && eq_opt_vec_string(&self.request_headers, &other.request_headers) && eq_opt_string(
            &self.request_method,
            &other.request_method,
        );
        proof {
            assert(r ==> self@ =~= other@);
        }
        r
    }
}

impl vstd::std_specs::cmp::PartialEqSpecImpl for CorsConfig {
    open spec fn obeys_eq_spec() -> bool {
        true
    }

    open spec fn eq_spec(&self, other: &CorsConfig) -> bool {
        self@ == other@
    }
}

/// The all-defaults configuration: credentials disallowed, every optional
/// field absent.
pub open spec fn default_cors_view() -> CorsConfigV {
    CorsConfigV {
        allow_credentials: false,
        allow_headers: None,
        allow_methods: None,
        allow_origin: None,
        expose_headers: None,
        max_age: None,
        request_headers: None,
        request_method: None,
    }
}

/// The permissive preset: wildcard origin, the six common methods, the three
/// common headers, credentials disallowed, a twelve-hour preflight cache.
pub open spec fn allow_all_view() -> CorsConfigV {
    CorsConfigV {
        allow_credentials: false,
        allow_headers: Some(seq!["Origin"@, "Content-Length"@, "Content-Type"@]),
        allow_methods: Some(seq!["GET"@, "POST"@, "PUT"@, "PATCH"@, "DELETE"@, "HEAD"@]),
        allow_origin: Some("*"@),
        expose_headers: None,
        max_age: Some(Duration { secs: 43200u64, nanos: 0u32 }),
        request_headers: None,
        request_method: None,
    }
}

impl Default for CorsConfig {
    /// The all-defaults configuration.
    fn default() -> (r: CorsConfig)
        ensures
            r@ == default_cors_view(),
    {
        CorsConfig {
            allow_credentials: false,
            allow_headers: None,
            allow_methods: None,
            allow_origin: None,
            expose_headers: None,
            max_age: None,
            request_headers: None,
            request_method: None,
        }
    }
}

impl CorsConfig {
    /// A fresh builder seeded with all defaults.
    pub fn builder() -> (b: CorsConfigBuilder)
        ensures
            b@ == default_cors_view(),
    {
        CorsConfigBuilder { config: CorsConfig::default() }
    }

    /// The permissive preset, exactly [`allow_all_view`]: origin `"*"`,
    /// methods `GET POST PUT PATCH DELETE HEAD` in that order, headers
    /// `Origin Content-Length Content-Type` in that order, credentials
    /// disallowed, max age 43200 seconds, all other fields absent.
    pub fn allow_all() -> (r: CorsConfig)
        ensures
            r@ == allow_all_view(),
    {
        let r = CorsConfig {
            allow_origin: Some("*".to_owned()),
            allow_methods: Some(vec![
                "GET".to_owned(),
                "POST".to_owned(),
                "PUT".to_owned(),
                "PATCH".to_owned(),
                "DELETE".to_owned(),
                "HEAD".to_owned(),
            ]),
            allow_headers: Some(vec![
                "Origin".to_owned(),
                "Content-Length".to_owned(),
                "Content-Type".to_owned(),
            ]),
            allow_credentials: false,
            max_age: Some(Duration::from_secs(43200)),
            expose_headers: None,
            request_headers: None,
            request_method: None,
        };
        proof {
            assert(r@.allow_methods matches Some(m) && m =~= allow_all_view().allow_methods->0);
            assert(r@.allow_headers matches Some(h) && h =~= allow_all_view().allow_headers->0);
            assert(r@ =~= allow_all_view());
        }
        r
    }
}

/// Builder for [`CorsConfig`].  Each setter consumes the builder and returns
/// it with exactly one field replaced; `build` always succeeds.
pub struct CorsConfigBuilder {
    config: CorsConfig,
}

impl View for CorsConfigBuilder {
    type V = CorsConfigV;

    closed spec fn view(&self) -> CorsConfigV {
        self.config@
    }
}

impl CorsConfigBuilder {
    /// Sets the Access-Control-Allow-Origin value.
    pub fn allow_origin(self, origin: String) -> (r: CorsConfigBuilder)
        ensures
            r@ == apply_setter(self@, SetterCall::AllowOrigin(origin@)),
    {
        let mut config = self.config;
        config.allow_origin = Some(origin);
        CorsConfigBuilder { config }
    }

    /// Sets the Access-Control-Allow-Methods values.
    pub fn allow_methods(self, methods: Vec<String>) -> (r: CorsConfigBuilder)
        ensures
            r@ == apply_setter(self@, SetterCall::AllowMethods(methods.deep_view())),
    {
        let mut config = self.config;
        config.allow_methods = Some(methods);
        CorsConfigBuilder { config }
    }

    /// Sets the Access-Control-Allow-Headers values.
    pub fn allow_headers(self, headers: Vec<String>) -> (r: CorsConfigBuilder)
        ensures
            r@ == apply_setter(self@, SetterCall::AllowHeaders(headers.deep_view())),
    {
        let mut config = self.config;
        config.allow_headers = Some(headers);
        CorsConfigBuilder { config }
    }

    /// Allows credentials.  There is no setter turning the flag back off: a
    /// configuration without credentials simply never calls this.
    pub fn allow_credentials(self) -> (r: CorsConfigBuilder)
        ensures
            r@ == apply_setter(self@, SetterCall::AllowCredentials),
    {
        let mut config = self.config;
        config.allow_credentials = true;
        CorsConfigBuilder { config }
    }

    /// Sets the Access-Control-Max-Age duration.
    pub fn max_age(self, duration: Duration) -> (r: CorsConfigBuilder)
        ensures
            r@ == apply_setter(self@, SetterCall::MaxAge(duration)),
    {
        let mut config = self.config;
        config.max_age = Some(duration);
        CorsConfigBuilder { config }
    }

    /// Sets the Access-Control-Expose-Headers values.
    pub fn expose_headers(self, headers: Vec<String>) -> (r: CorsConfigBuilder)
        ensures
            r@ == apply_setter(self@, SetterCall::ExposeHeaders(headers.deep_view())),
    {
        let mut config = self.config;
        config.expose_headers = Some(headers);
        CorsConfigBuilder { config }
    }

    /// Sets the Access-Control-Request-Headers values.
    pub fn request_headers(self, headers: Vec<String>) -> (r: CorsConfigBuilder)
        ensures
            r@ == apply_setter(self@, SetterCall::RequestHeaders(headers.deep_view())),
    {
        let mut config = self.config;
        config.request_headers = Some(headers);
        CorsConfigBuilder { config }
    }

    /// Sets the Access-Control-Request-Method value.
    pub fn request_method(self, method: String) -> (r: CorsConfigBuilder)
        ensures
            r@ == apply_setter(self@, SetterCall::RequestMethod(method@)),
    {
        let mut config = self.config;
        config.request_method = Some(method);
        CorsConfigBuilder { config }
    }

    /// Finishes the builder.  Always succeeds and returns exactly the
    /// accumulated configuration.
    pub fn build(self) -> (r: CorsConfig)
        ensures
            r@ == self@,
    {
        self.config
    }
}

/// One builder setter call, as a spec value: the argument each setter was
/// given, or no argument for the credentials flag.
pub enum SetterCall {
    AllowOrigin(Seq<char>),
    AllowMethods(Seq<Seq<char>>),
    AllowHeaders(Seq<Seq<char>>),
    AllowCredentials,
    MaxAge(Duration),
    ExposeHeaders(Seq<Seq<char>>),
    RequestHeaders(Seq<Seq<char>>),
    RequestMethod(Seq<char>),
}

/// The field a setter call writes, as a small index; two calls touch the
/// same field exactly when their indices agree.
pub open spec fn setter_field(s: SetterCall) -> int {
    match s {
        SetterCall::AllowOrigin(_) => 0,
        SetterCall::AllowMethods(_) => 1,
        SetterCall::AllowHeaders(_) => 2,
        SetterCall::AllowCredentials => 3,
        SetterCall::MaxAge(_) => 4,
        SetterCall::ExposeHeaders(_) => 5,
        SetterCall::RequestHeaders(_) => 6,
        SetterCall::RequestMethod(_) => 7,
    }
}

/// What one setter call does to a configuration value.  Each arm mirrors the
/// `ensures` of the corresponding [`CorsConfigBuilder`] setter.
pub open spec fn apply_setter(c: CorsConfigV, s: SetterCall) -> CorsConfigV {
    match s {
        SetterCall::AllowOrigin(v) => CorsConfigV { allow_origin: Some(v), ..c },
        SetterCall::AllowMethods(v) => CorsConfigV { allow_methods: Some(v), ..c },
        SetterCall::AllowHeaders(v) => CorsConfigV { allow_headers: Some(v), ..c },
        SetterCall::AllowCredentials => CorsConfigV { allow_credentials: true, ..c },
        SetterCall::MaxAge(v) => CorsConfigV { max_age: Some(v), ..c },
        SetterCall::ExposeHeaders(v) => CorsConfigV { expose_headers: Some(v), ..c },
        SetterCall::RequestHeaders(v) => CorsConfigV { request_headers: Some(v), ..c },
        SetterCall::RequestMethod(v) => CorsConfigV { request_method: Some(v), ..c },
    }
}

/// A whole sequence of setter calls, applied left to right.
pub open spec fn apply_setters(c: CorsConfigV, calls: Seq<SetterCall>) -> CorsConfigV
    decreases calls.len(),
{
    if calls.len() == 0 {
        c
    } else {
        apply_setters(apply_setter(c, calls[0]), calls.skip(1))
    }
}

/// Law: setter calls on distinct fields commute.
pub proof fn lemma_setters_commute(c: CorsConfigV, s1: SetterCall, s2: SetterCall)
    requires
        setter_field(s1) != setter_field(s2),
    ensures
        apply_setter(apply_setter(c, s1), s2) == apply_setter(apply_setter(c, s2), s1),
{
    assert(apply_setter(apply_setter(c, s1), s2) =~= apply_setter(apply_setter(c, s2), s1));
}

/// Law: of two setter calls on the same field, the last one wins; the
/// earlier call leaves no trace.
pub proof fn lemma_setter_overwrites(c: CorsConfigV, s1: SetterCall, s2: SetterCall)
    requires
        setter_field(s1) == setter_field(s2),
    ensures
        apply_setter(apply_setter(c, s1), s2) == apply_setter(c, s2),
{
    assert(apply_setter(apply_setter(c, s1), s2) =~= apply_setter(c, s2));
}

/// Helper for [`lemma_shadowed_setter_dropped`]: a setter call whose field is
/// written again somewhere in the calls that follow may be left out entirely.
proof fn lemma_absorbed_front(c: CorsConfigV, s: SetterCall, calls: Seq<SetterCall>)
    requires
        exists|k: int| 0 <= k < calls.len() && setter_field(calls[k]) == setter_field(s),
    ensures
        apply_setters(apply_setter(c, s), calls) == apply_setters(c, calls),
    decreases calls.len(),
{
    let k = choose|k: int| 0 <= k < calls.len() && setter_field(calls[k]) == setter_field(s);
    if setter_field(calls[0]) == setter_field(s) {
        lemma_setter_overwrites(c, s, calls[0]);
    } else {
        lemma_setters_commute(c, s, calls[0]);
        assert(setter_field(calls.skip(1)[k - 1]) == setter_field(s));
        lemma_absorbed_front(apply_setter(c, calls[0]), s, calls.skip(1));
    }
}

/// Law (last write wins): in any sequence of setter calls, a call whose
/// field is set again by a later call may be removed without changing the
/// final configuration.  Together with [`lemma_setters_commute`] this says
/// that replaying only the last call to each distinct setter, in any order,
/// yields the same `CorsConfig`.
pub proof fn lemma_shadowed_setter_dropped(c: CorsConfigV, calls: Seq<SetterCall>, i: int)
    requires
        0 <= i < calls.len(),
        exists|j: int| i < j < calls.len() && setter_field(calls[j]) == setter_field(calls[i]),
    ensures
        apply_setters(c, calls) == apply_setters(c, calls.remove(i)),
    decreases calls.len(),
{
    let j = choose|j: int| i < j < calls.len() && setter_field(calls[j]) == setter_field(calls[i]);
    if i == 0 {
        assert(calls.remove(0) =~= calls.skip(1));
        assert(setter_field(calls.skip(1)[j - 1]) == setter_field(calls[0]));
        lemma_absorbed_front(c, calls[0], calls.skip(1));
    } else {
        let c1 = apply_setter(c, calls[0]);
        assert(calls.remove(i)[0] == calls[0]);
        assert(calls.remove(i).skip(1) =~= calls.skip(1).remove(i - 1));
        assert(setter_field(calls.skip(1)[j - 1]) == setter_field(calls.skip(1)[i - 1]));
        lemma_shadowed_setter_dropped(c1, calls.skip(1), i - 1);
    }
}

/// Law (order independence): in any sequence of setter calls, two adjacent
/// calls on distinct fields may be swapped without changing the final
/// configuration.  Adjacent swaps generate every permutation, so together
/// with [`lemma_shadowed_setter_dropped`] any sequence of calls may be
/// reduced to the last call of each distinct setter, taken in any order.
pub proof fn lemma_adjacent_setters_swapped(c: CorsConfigV, calls: Seq<SetterCall>, i: int)
    requires
        0 <= i,
        i + 1 < calls.len(),
        setter_field(calls[i]) != setter_field(calls[i + 1]),
    ensures
        apply_setters(c, calls) == apply_setters(
            c,
            calls.update(i, calls[i + 1]).update(i + 1, calls[i]),
        ),
    decreases i,
{
    let swapped = calls.update(i, calls[i + 1]).update(i + 1, calls[i]);
    if i == 0 {
        let a = calls[0];
        let b = calls[1];
        lemma_setters_commute(c, a, b);
        assert(calls.skip(1)[0] == b);
        assert(swapped[0] == b);
        assert(swapped.skip(1)[0] == a);
        assert(swapped.skip(1).skip(1) =~= calls.skip(1).skip(1));
        assert(apply_setters(c, calls) == apply_setters(apply_setter(c, a), calls.skip(1)));
        assert(apply_setters(apply_setter(c, a), calls.skip(1)) == apply_setters(
            apply_setter(apply_setter(c, a), b),
            calls.skip(1).skip(1),
        ));
        assert(apply_setters(c, swapped) == apply_setters(apply_setter(c, b), swapped.skip(1)));
        assert(apply_setters(apply_setter(c, b), swapped.skip(1)) == apply_setters(
            apply_setter(apply_setter(c, b), a),
            swapped.skip(1).skip(1),
        ));
    } else {
        assert(swapped[0] == calls[0]);
        assert(swapped.skip(1) =~= calls.skip(1).update(i - 1, calls.skip(1)[i]).update(
            i,
            calls.skip(1)[i - 1],
        ));
        lemma_adjacent_setters_swapped(apply_setter(c, calls[0]), calls.skip(1), i - 1);
    }
}

/// Unfolding a setter-call sequence from the right: applying all calls is
/// applying all but the last, then the last.
proof fn lemma_apply_setters_snoc(c: CorsConfigV, calls: Seq<SetterCall>)
    requires
        calls.len() > 0,
    ensures
        apply_setters(c, calls) == apply_setter(
            apply_setters(c, calls.drop_last()),
            calls.last(),
        ),
    decreases calls.len(),
{
    if calls.len() == 1 {
        assert(calls.drop_last() =~= Seq::<SetterCall>::empty());
        assert(calls.skip(1) =~= Seq::<SetterCall>::empty());
    } else {
        lemma_apply_setters_snoc(apply_setter(c, calls[0]), calls.skip(1));
        assert(calls.skip(1).drop_last() =~= calls.drop_last().skip(1));
        assert(calls.skip(1).last() == calls.last());
        assert(calls.drop_last()[0] == calls[0]);
    }
}

/// The index of the last call in `calls` that writes field `f`, or `-1` if
/// no call does.
pub open spec fn last_index_of_field(calls: Seq<SetterCall>, f: int) -> int
    decreases calls.len(),
{
    if calls.len() == 0 {
        -1
    } else if setter_field(calls.last()) == f {
        calls.len() - 1
    } else {
        last_index_of_field(calls.drop_last(), f)
    }
}

/// `last_index_of_field` is `-1` or a position holding a call on field `f`.
pub proof fn lemma_last_index_of_field_bounds(calls: Seq<SetterCall>, f: int)
    ensures
        -1 <= last_index_of_field(calls, f) < calls.len(),
        last_index_of_field(calls, f) != -1 ==> setter_field(
            calls[last_index_of_field(calls, f)],
        ) == f,
    decreases calls.len(),
{
    if calls.len() > 0 && setter_field(calls.last()) != f {
        lemma_last_index_of_field_bounds(calls.drop_last(), f);
        assert(forall|k: int| 0 <= k < calls.len() - 1 ==> calls.drop_last()[k] == calls[k]);
    }
}

/// Law (the whole builder story): after any finite sequence of setter
/// calls, each field holds the argument of the last call to its setter, or
/// the start value if that setter was never called.  So the final
/// configuration equals the one obtained by replaying only the last call to
/// each distinct setter ([`lemma_same_last_calls_same_config`] below), and
/// `build` always succeeds by its own contract.
pub proof fn lemma_replay_last_calls(c: CorsConfigV, calls: Seq<SetterCall>)
    ensures
        ({
            let j = last_index_of_field(calls, 0);
            apply_setters(c, calls).allow_origin == if j == -1 {
                c.allow_origin
            } else {
                Some(calls[j]->AllowOrigin_0)
            }
        }),
        ({
            let j = last_index_of_field(calls, 1);
            apply_setters(c, calls).allow_methods == if j == -1 {
                c.allow_methods
            } else {
                Some(calls[j]->AllowMethods_0)
            }
        }),
        ({
            let j = last_index_of_field(calls, 2);
            apply_setters(c, calls).allow_headers == if j == -1 {
                c.allow_headers
            } else {
                Some(calls[j]->AllowHeaders_0)
            }
        }),
        ({
            let j = last_index_of_field(calls, 3);
            apply_setters(c, calls).allow_credentials == if j == -1 {
                c.allow_credentials
            } else {
                true
            }
        }),
        ({
            let j = last_index_of_field(calls, 4);
            apply_setters(c, calls).max_age == if j == -1 {
                c.max_age
            } else {
                Some(calls[j]->MaxAge_0)
            }
        }),
        ({
            let j = last_index_of_field(calls, 5);
            apply_setters(c, calls).expose_headers == if j == -1 {
                c.expose_headers
            } else {
                Some(calls[j]->ExposeHeaders_0)
            }
        }),
        ({
            let j = last_index_of_field(calls, 6);
            apply_setters(c, calls).request_headers == if j == -1 {
                c.request_headers
            } else {
                Some(calls[j]->RequestHeaders_0)
            }
        }),
        ({
            let j = last_index_of_field(calls, 7);
            apply_setters(c, calls).request_method == if j == -1 {
                c.request_method
            } else {
                Some(calls[j]->RequestMethod_0)
            }
        }),
    decreases calls.len(),
{
    if calls.len() > 0 {
        lemma_apply_setters_snoc(c, calls);
        lemma_replay_last_calls(c, calls.drop_last());
        assert(forall|k: int| 0 <= k < calls.len() - 1 ==> calls.drop_last()[k] == calls[k]);
        lemma_last_index_of_field_bounds(calls.drop_last(), 0);
        lemma_last_index_of_field_bounds(calls.drop_last(), 1);
        lemma_last_index_of_field_bounds(calls.drop_last(), 2);
        lemma_last_index_of_field_bounds(calls.drop_last(), 3);
        lemma_last_index_of_field_bounds(calls.drop_last(), 4);
        lemma_last_index_of_field_bounds(calls.drop_last(), 5);
        lemma_last_index_of_field_bounds(calls.drop_last(), 6);
        lemma_last_index_of_field_bounds(calls.drop_last(), 7);
    }
}

/// Whether two call sequences agree on the last call that writes field `f`.
pub open spec fn same_last_calls(calls1: Seq<SetterCall>, calls2: Seq<SetterCall>, f: int) -> bool {
    let j1 = last_index_of_field(calls1, f);
    let j2 = last_index_of_field(calls2, f);
    &&& (j1 == -1 <==> j2 == -1)
    &&& (j1 != -1 ==> calls1[j1] == calls2[j2])
}

/// Law (order independence, closed form): two call sequences that agree on
/// the last call to each distinct setter — in particular, a sequence and a
/// replay of only its last call per setter, in any order — yield the same
/// configuration.
pub proof fn lemma_same_last_calls_same_config(
    c: CorsConfigV,
    calls1: Seq<SetterCall>,
    calls2: Seq<SetterCall>,
)
    requires
        forall|f: int| 0 <= f < 8 ==> same_last_calls(calls1, calls2, f),
    ensures
        apply_setters(c, calls1) == apply_setters(c, calls2),
{
    lemma_replay_last_calls(c, calls1);
    lemma_replay_last_calls(c, calls2);
    assert forall|f: int| 0 <= f < 8 implies same_last_calls(calls1, calls2, f)
        && -1 <= last_index_of_field(calls1, f) < calls1.len() && -1 <= last_index_of_field(
        calls2,
        f,
    ) < calls2.len() by {
        lemma_last_index_of_field_bounds(calls1, f);
        lemma_last_index_of_field_bounds(calls2, f);
    }
    assert(same_last_calls(calls1, calls2, 0));
    assert(same_last_calls(calls1, calls2, 1));
    assert(same_last_calls(calls1, calls2, 2));
    assert(same_last_calls(calls1, calls2, 3));
    assert(same_last_calls(calls1, calls2, 4));
    assert(same_last_calls(calls1, calls2, 5));
    assert(same_last_calls(calls1, calls2, 6));
    assert(same_last_calls(calls1, calls2, 7));
    assert(apply_setters(c, calls1) =~= apply_setters(c, calls2));
}

/// The loosely-typed CORS representation read from a server configuration
/// file.  Every field except `allow_credentials` is optional; it exists only
/// as a conversion source for [`CorsConfig::try_from`].
#[derive(Clone, Debug, PartialEq)]
pub struct CorsConfigFile {
    pub allow_credentials: bool,
    pub allow_headers: Option<Vec<String>>,
    pub allow_methods: Option<Vec<String>>,
    pub allow_origin: Option<String>,
    pub expose_headers: Option<Vec<String>>,
    pub max_age: Option<Duration>,
    pub request_headers: Option<Vec<String>>,
    pub request_method: Option<String>,
}

/// The mathematical value of a [`CorsConfigFile`].
#[verifier::ext_equal]
pub struct CorsConfigFileV {
    pub allow_credentials: bool,
    pub allow_headers: Option<Seq<Seq<char>>>,
    pub allow_methods: Option<Seq<Seq<char>>>,
    pub allow_origin: Option<Seq<char>>,
    pub expose_headers: Option<Seq<Seq<char>>>,
    pub max_age: Option<Duration>,
    pub request_headers: Option<Seq<Seq<char>>>,
    pub request_method: Option<Seq<char>>,
}

impl View for CorsConfigFile {
    type V = CorsConfigFileV;

    open spec fn view(&self) -> CorsConfigFileV {
        CorsConfigFileV {
            allow_credentials: self.allow_credentials,
            allow_headers: self.allow_headers.deep_view(),
            allow_methods: self.allow_methods.deep_view(),
            allow_origin: self.allow_origin.deep_view(),
            expose_headers: self.expose_headers.deep_view(),
            max_age: self.max_age,
            request_headers: self.request_headers.deep_view(),
            request_method: self.request_method.deep_view(),
        }
    }
}

/// What the conversion from the file representation yields: every field
/// carried over unchanged.
pub open spec fn spec_convert(f: CorsConfigFileV) -> CorsConfigV {
    CorsConfigV {
        allow_credentials: f.allow_credentials,
        allow_headers: f.allow_headers,
        allow_methods: f.allow_methods,
        allow_origin: f.allow_origin,
        expose_headers: f.expose_headers,
        max_age: f.max_age,
        request_headers: f.request_headers,
        request_method: f.request_method,
    }
}

/// Error reserved for field-level validation of the conversion from
/// [`CorsConfigFile`].  The present conversion performs no such validation
/// and never returns it; the variant is an explicit extension point.
#[derive(Clone, Debug, PartialEq, Eq)]
pub enum CorsConfigError {
    InvalidField(String),
}

impl CorsConfig {
    /// Converts the file representation into the typed configuration by
    /// replaying the builder: each present optional field is set, and the
    /// credentials flag is set only when the source flag is `true` (a
    /// `false` flag is indistinguishable from never touching the builder).
    /// The conversion is pure, carries every field over unchanged, and
    /// always succeeds.
    pub fn try_from(file_config: CorsConfigFile) -> (r: Result<CorsConfig, CorsConfigError>)
        ensures
            r matches Ok(c) && c@ == spec_convert(file_config@),
    {
        let ghost f = file_config@;
        let mut cors_config_builder = CorsConfig::builder();

        if file_config.allow_credentials {
            cors_config_builder = cors_config_builder.allow_credentials();
        }

        if let Some(allow_headers) = file_config.allow_headers {
            cors_config_builder = cors_config_builder.allow_headers(allow_headers);
        }

        if let Some(allow_methods) = file_config.allow_methods {
            cors_config_builder = cors_config_builder.allow_methods(allow_methods);
        }

        if let Some(allow_origin) = file_config.allow_origin {
            cors_config_builder = cors_config_builder.allow_origin(allow_origin);
        }

        if let Some(expose_headers) = file_config.expose_headers {
            cors_config_builder = cors_config_builder.expose_headers(expose_headers);
        }

        if let Some(max_age) = file_config.max_age {
            cors_config_builder = cors_config_builder.max_age(max_age);
        }

        if let Some(request_headers) = file_config.request_headers {
            cors_config_builder = cors_config_builder.request_headers(request_headers);
        }

        if let Some(request_method) = file_config.request_method {
            cors_config_builder = cors_config_builder.request_method(request_method);
        }

        let c = cors_config_builder.build();
        proof {
            assert(c@ =~= spec_convert(f));
        }
        Ok(c)
    }
}

/// Law: the conversion from the file representation preserves every field
/// exactly.  In particular a source `allow_credentials` of `false` yields a
/// typed configuration with `allow_credentials == false`, the same value the
/// builder produces when the flag is never touched; and a present `max_age`
/// duration is carried over with its sub-second part intact.
pub proof fn lemma_conversion_preserves_fields(f: CorsConfigFileV)
    ensures
        spec_convert(f).allow_credentials == f.allow_credentials,
        spec_convert(f).allow_headers == f.allow_headers,
        spec_convert(f).allow_methods == f.allow_methods,
        spec_convert(f).allow_origin == f.allow_origin,
        spec_convert(f).expose_headers == f.expose_headers,
        spec_convert(f).max_age == f.max_age,
        spec_convert(f).request_headers == f.request_headers,
        spec_convert(f).request_method == f.request_method,
        !f.allow_credentials ==> spec_convert(f).allow_credentials == default_cors_view().allow_credentials,
{
}

} // verus!
