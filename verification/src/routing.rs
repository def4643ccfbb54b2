//! Backend selection: first-match lookup of the registry, round-robin
//! rotation over a load-balanced backend's locations, and construction of
//! the routing state.

use vstd::prelude::*;

use crate::model::{is_loadbalanced, sview, Backend, BackendState, ProxyState, StateEntry};
use crate::text::str_eq;

verus! {

/// `b` is declared under the name `host`.
pub open spec fn name_matches(b: Backend, host: Seq<char>) -> bool {
    b.name matches Some(n) && n@ == host
}

/// The first backend in `backends` whose name equals `host`.
pub open spec fn first_match(backends: Seq<Backend>, host: Seq<char>) -> Option<Backend>
    decreases backends.len(),
{
    if backends.len() == 0 {
        None
    } else if backends[0].name matches Some(n) && n@ == host {
        Some(backends[0])
    } else {
        first_match(backends.drop_first(), host)
    }
}

/// Pins `first_match` down by the position of the first matching backend.
pub proof fn lemma_first_match_at(backends: Seq<Backend>, host: Seq<char>, i: int)
    requires
        0 <= i <= backends.len(),
        forall|j: int| 0 <= j < i ==> !name_matches(#[trigger] backends[j], host),
        i < backends.len() ==> name_matches(backends[i], host),
    ensures
        first_match(backends, host) == if i < backends.len() {
            Some(backends[i])
        } else {
            None::<Backend>
        },
    decreases backends.len(),
{
    if backends.len() == 0 {
    } else if i == 0 {
    } else {
        assert(!name_matches(backends[0], host));
        assert forall|j: int| 0 <= j < i - 1 implies !name_matches(
            #[trigger] backends.drop_first()[j],
            host,
        ) by {
            assert(backends.drop_first()[j] == backends[j + 1]);
        }
        if i - 1 < backends.drop_first().len() {
            assert(backends.drop_first()[i - 1] == backends[i]);
        }
        lemma_first_match_at(backends.drop_first(), host, i - 1);
    }
}

/// A matched backend is an element of the registry.
pub proof fn lemma_first_match_element(backends: Seq<Backend>, host: Seq<char>)
    requires
        first_match(backends, host) is Some,
    ensures
        exists|i: int|
            0 <= i < backends.len() && backends[i] == first_match(backends, host)->0,
    decreases backends.len(),
{
    if backends.len() > 0 {
        if backends[0].name matches Some(n) && n@ == host {
            assert(backends[0] == first_match(backends, host)->0);
        } else {
            lemma_first_match_element(backends.drop_first(), host);
            let i = choose|i: int|
                0 <= i < backends.drop_first().len() && backends.drop_first()[i] == first_match(
                    backends.drop_first(),
                    host,
                )->0;
            assert(backends[i + 1] == backends.drop_first()[i]);
        }
    }
}

/// Machine bound on a registry: every declared location list is short enough
/// for its length to fit the cursor type. Any list that exists in memory
/// satisfies this.
pub open spec fn registry_wf(backends: Seq<Backend>) -> bool {
    forall|i: int|
        0 <= i < backends.len() ==> match #[trigger] backends[i].locations {
            Some(l) => l@.len() <= isize::MAX as int,
            None => true,
        }
}

/// The cursor of one state entry lies in the range that the backend matching
/// its name admits.
pub open spec fn cursor_ok(e: (Seq<char>, Option<int>), backends: Seq<Backend>) -> bool {
    match e.1 {
        Some(c) => -1 <= c && match first_match(backends, e.0) {
            Some(b) => if is_loadbalanced(b) {
                match b.locations {
                    Some(l) => c < l@.len(),
                    None => true,
                }
            } else {
                true
            },
            None => true,
        },
        None => true,
    }
}

/// Well-formedness of a routing-state view against the registry.
pub open spec fn state_wf(sv: Seq<(Seq<char>, Option<int>)>, backends: Seq<Backend>) -> bool {
    forall|k: int| 0 <= k < sv.len() ==> cursor_ok(#[trigger] sv[k], backends)
}

impl ProxyState {
    /// The state is well formed for `backends`.
    pub open spec fn wf(self, backends: Seq<Backend>) -> bool {
        state_wf(sview(self.backends@), backends)
    }
}

/// The cursor value after one round-robin selection over `n` locations.
pub open spec fn rr_advance(c: int, n: int) -> int {
    if c == -1 || c == n - 1 {
        0
    } else {
        c + 1
    }
}

/// The index of the first state entry named `name`, or the length when none
/// is.
pub open spec fn sindex(sv: Seq<(Seq<char>, Option<int>)>, name: Seq<char>) -> int
    decreases sv.len(),
{
    if sv.len() == 0 {
        0
    } else if sv[0].0 == name {
        0
    } else {
        1 + sindex(sv.drop_first(), name)
    }
}

pub proof fn lemma_sindex(sv: Seq<(Seq<char>, Option<int>)>, name: Seq<char>)
    ensures
        0 <= sindex(sv, name) <= sv.len(),
        forall|j: int| 0 <= j < sindex(sv, name) ==> sv[j].0 != name,
        sindex(sv, name) < sv.len() ==> sv[sindex(sv, name)].0 == name,
    decreases sv.len(),
{
    if sv.len() == 0 {
    } else if sv[0].0 == name {
    } else {
        lemma_sindex(sv.drop_first(), name);
        assert forall|j: int| 0 <= j < sindex(sv, name) implies sv[j].0 != name by {
            if j > 0 {
                assert(sv.drop_first()[j - 1] == sv[j]);
            }
        }
        if sindex(sv, name) < sv.len() {
            assert(sv.drop_first()[sindex(sv, name) - 1] == sv[sindex(sv, name)]);
        }
    }
}

/// The cursor slot of the first state entry named `name`, if any.
pub open spec fn slookup(sv: Seq<(Seq<char>, Option<int>)>, name: Seq<char>) -> Option<
    Option<int>,
> {
    if sindex(sv, name) < sv.len() {
        Some(sv[sindex(sv, name)].1)
    } else {
        None
    }
}

/// The location the router yields for `host` from the given registry and
/// state, if any.
pub open spec fn spec_route(
    backends: Seq<Backend>,
    sv: Seq<(Seq<char>, Option<int>)>,
    host: Seq<char>,
) -> Option<Seq<char>> {
    match first_match(backends, host) {
        None => None,
        Some(b) => if is_loadbalanced(b) {
            match b.locations {
                Some(locs) => if locs@.len() == 0 {
                    None
                } else {
                    match slookup(sv, host) {
                        Some(Some(c)) => Some(locs@[rr_advance(c, locs@.len() as int)]@),
                        _ => None,
                    }
                },
                None => None,
            }
        } else {
            match b.location {
                Some(l) => Some(l@),
                None => None,
            }
        },
    }
}

/// The routing state after one routing decision for `host`: the matched
/// load-balanced backend's cursor advances, everything else stays.
pub open spec fn spec_route_state(
    backends: Seq<Backend>,
    sv: Seq<(Seq<char>, Option<int>)>,
    host: Seq<char>,
) -> Seq<(Seq<char>, Option<int>)> {
    match first_match(backends, host) {
        None => sv,
        Some(b) => if is_loadbalanced(b) {
            match b.locations {
                Some(locs) => if locs@.len() == 0 {
                    sv
                } else {
                    match slookup(sv, host) {
                        Some(Some(c)) => sv.update(
                            sindex(sv, host),
                            (host, Some(rr_advance(c, locs@.len() as int))),
                        ),
                        _ => sv,
                    }
                },
                None => sv,
            }
        } else {
            sv
        },
    }
}

/// The first declared backend whose name equals the host header, if any.
pub fn match_backend<'a>(backends: &'a Vec<Backend>, host_header: &str) -> (r: Option<
    &'a Backend,
>)
    ensures
        match r {
            Some(b) => first_match(backends@, host_header@) == Some(*b),
            None => first_match(backends@, host_header@) is None,
        },
{
    let n: usize = backends.len();
    let mut i: usize = 0;
    while i < n
        invariant
            0 <= i <= n,
            n == backends@.len(),
            forall|j: int| 0 <= j < i ==> !name_matches(#[trigger] backends@[j], host_header@),
        decreases n - i,
    {
        let b: &Backend = &backends[i];
        let matched: bool = match &b.name {
            Some(nm) => str_eq(nm.as_str(), host_header),
            None => false,
        };
        if matched {
            proof {
                lemma_first_match_at(backends@, host_header@, i as int);
            }
            return Some(b);
        }
        i = i + 1;
    }
    proof {
        lemma_first_match_at(backends@, host_header@, n as int);
    }
    None
}

/// Finds the position of the state entry named `name`, if there is one.
fn find_state_index(st: &Vec<StateEntry>, name: &str) -> (r: Option<usize>)
    ensures
        match r {
            Some(k) => k as int == sindex(sview(st@), name@) && (k as int) < st@.len(),
            None => sindex(sview(st@), name@) == st@.len(),
        },
{
    proof {
        lemma_sindex(sview(st@), name@);
    }
    let n: usize = st.len();
    let mut i: usize = 0;
    while i < n
        invariant
            0 <= i <= n,
            n == st@.len(),
            forall|j: int| 0 <= j < i ==> sview(st@)[j].0 != name@,
            0 <= sindex(sview(st@), name@) <= st@.len(),
            forall|j: int| 0 <= j < sindex(sview(st@), name@) ==> sview(st@)[j].0 != name@,
            sindex(sview(st@), name@) < st@.len() ==> sview(st@)[sindex(sview(st@), name@)].0
                == name@,
        decreases n - i,
    {
        if str_eq(st[i].name.as_str(), name) {
            proof {
                assert(sview(st@)[i as int].0 == st@[i as int].name@);
            }
            return Some(i);
        }
        proof {
            assert(sview(st@)[i as int].0 == st@[i as int].name@);
        }
        i = i + 1;
    }
    None
}

/// Advances the round-robin cursor of one load-balanced backend and selects
/// the location it lands on: the first location on the first call (or after
/// a full rotation), the next one otherwise.
pub fn round_robin_select(backend_locations: &Vec<String>, backend_state: &mut BackendState) -> (r:
    Option<String>)
    requires
        1 <= backend_locations@.len() <= isize::MAX as int,
        -1 <= old(backend_state).rr_count < backend_locations@.len(),
    ensures
        final(backend_state).rr_count as int == rr_advance(
            old(backend_state).rr_count as int,
            backend_locations@.len() as int,
        ),
        (r matches Some(l) && l@ == backend_locations@[final(backend_state).rr_count as int]@),
{
    let n: usize = backend_locations.len();
    let rr: isize = backend_state.rr_count;
    if rr == -1 || rr as usize == n - 1 {
        backend_state.rr_count = 0;
        Some(backend_locations[0].clone())
    } else {
        let next: usize = rr as usize + 1;
        backend_state.rr_count = next as isize;
        Some(backend_locations[next].clone())
    }
}

/// Maps a host header to a backend location. The first matching declaration
/// wins; a single-location backend yields its location unchanged, and a
/// load-balanced one advances its round-robin cursor under the caller's
/// exclusive access to the state.
pub fn router(
    backends_config: &Vec<Backend>,
    proxy_state: &mut ProxyState,
    host_header: &str,
) -> (r: Option<String>)
    requires
        registry_wf(backends_config@),
        old(proxy_state).wf(backends_config@),
    ensures
        final(proxy_state).wf(backends_config@),
        (match r {
            Some(l) => spec_route(
                backends_config@,
                sview(old(proxy_state).backends@),
                host_header@,
            ) == Some(l@),
            None => spec_route(
                backends_config@,
                sview(old(proxy_state).backends@),
                host_header@,
            ) is None,
        }),
        sview(final(proxy_state).backends@) == spec_route_state(
            backends_config@,
            sview(old(proxy_state).backends@),
            host_header@,
        ),
{
    let ghost sv0 = sview(old(proxy_state).backends@);
    let matched: Option<&Backend> = match_backend(backends_config, host_header);
    let b: &Backend = match matched {
        None => {
            return None;
        },
        Some(b) => b,
    };
    let lb: bool = match &b.backend_type {
        Some(t) => str_eq(t.as_str(), "loadbalanced"),
        None => false,
    };
    proof {
        assert(lb == is_loadbalanced(*b));
    }
    if lb {
        let locs: &Vec<String> = match &b.locations {
            None => {
                return None;
            },
            Some(l) => l,
        };
        let n: usize = locs.len();
        if n == 0 {
            return None;
        }
        proof {
            lemma_first_match_element(backends_config@, host_header@);
        }
        let idx: usize = match find_state_index(&proxy_state.backends, host_header) {
            None => {
                return None;
            },
            Some(k) => k,
        };
        let cur: isize = match &proxy_state.backends[idx].state {
            None => {
                return None;
            },
            Some(bs) => bs.rr_count,
        };
        proof {
            lemma_sindex(sv0, host_header@);
            assert(sv0[idx as int] == (proxy_state.backends@[idx as int].name@, Some(
                cur as int,
            )));
            assert(cursor_ok(sv0[idx as int], backends_config@));
            assert(slookup(sv0, host_header@) == Some(Some(cur as int)));
        }
        let nm: String = proxy_state.backends[idx].name.clone();
        let mut bs = BackendState { rr_count: cur };
        let result: Option<String> = round_robin_select(locs, &mut bs);
        proxy_state.backends[idx] = StateEntry { name: nm, state: Some(bs) };
        proof {
            let nsv = sview(proxy_state.backends@);
            let target = spec_route_state(backends_config@, sv0, host_header@);
            assert(nsv =~= sv0.update(
                idx as int,
                (host_header@, Some(rr_advance(cur as int, n as int))),
            ));
            assert(nsv == target);
            assert forall|k: int| 0 <= k < nsv.len() implies cursor_ok(
                #[trigger] nsv[k],
                backends_config@,
            ) by {
                if k != idx as int {
                    assert(nsv[k] == sv0[k]);
                }
            }
        }
        result
    } else {
        match &b.location {
            Some(l) => Some(l.clone()),
            None => None,
        }
    }
}

/// Decides `registry_wf`, so a caller holding an arbitrary registry can
/// establish the machine bound the router asks for.
pub fn check_registry(backends: &Vec<Backend>) -> (r: bool)
    ensures
        r == registry_wf(backends@),
{
    let n: usize = backends.len();
    let mut i: usize = 0;
    while i < n
        invariant
            0 <= i <= n,
            n == backends@.len(),
            forall|j: int|
                0 <= j < i ==> match (#[trigger] backends@[j]).locations {
                    Some(l) => l@.len() <= isize::MAX as int,
                    None => true,
                },
        decreases n - i,
    {
        match &backends[i].locations {
            Some(l) => {
                if l.len() > isize::MAX as usize {
                    return false;
                }
            },
            None => {},
        }
        i = i + 1;
    }
    true
}

/// A backend declaration the registry accepts: a load-balanced backend must
/// declare a non-empty location list, and any other backend its single
/// location.
pub open spec fn valid_backend(b: Backend) -> bool {
    if is_loadbalanced(b) {
        b.locations matches Some(l) && l@.len() > 0
    } else {
        b.location is Some
    }
}

/// The name under which an offending backend is reported.
pub open spec fn backend_display_name(b: Backend) -> Seq<char> {
    match b.name {
        Some(n) => n@,
        None => Seq::empty(),
    }
}

/// Checks a loaded registry and names the first backend whose declaration
/// is incomplete, so a bad configuration is rejected at startup rather than
/// at request time.
pub fn validate_backends(backends: &Vec<Backend>) -> (r: Result<(), String>)
    ensures
        (r is Ok <==> (forall|i: int|
            0 <= i < backends@.len() ==> valid_backend(#[trigger] backends@[i]))),
        (r matches Err(m) ==> (exists|i: int|
            0 <= i < backends@.len() && !valid_backend(#[trigger] backends@[i]) && m@
                == "Invalid backend configuration: "@ + backend_display_name(backends@[i]))),
{
    let n: usize = backends.len();
    let mut i: usize = 0;
    while i < n
        invariant
            0 <= i <= n,
            n == backends@.len(),
            forall|j: int| 0 <= j < i ==> valid_backend(#[trigger] backends@[j]),
        decreases n - i,
    {
        let b: &Backend = &backends[i];
        let lb: bool = match &b.backend_type {
            Some(t) => str_eq(t.as_str(), "loadbalanced"),
            None => false,
        };
        let ok: bool = if lb {
            match &b.locations {
                Some(l) => l.len() > 0,
                None => false,
            }
        } else {
            match &b.location {
                Some(_) => true,
                None => false,
            }
        };
        if !ok {
            let mut msg: String = String::from_str("Invalid backend configuration: ");
            match &b.name {
                Some(nm) => {
                    msg.append(nm.as_str());
                },
                None => {},
            }
            proof {
                assert(!valid_backend(backends@[i as int]));
                assert(msg@ == "Invalid backend configuration: "@ + backend_display_name(
                    backends@[i as int],
                ));
            }
            return Err(msg);
        }
        i = i + 1;
    }
    Ok(())
}

/// The cursor value after `k` selections over `n` locations, starting from
/// the fresh sentinel.
pub open spec fn rr_cursor_after(k: nat, n: int) -> int
    decreases k,
{
    if k == 0 {
        -1
    } else {
        rr_advance(rr_cursor_after((k - 1) as nat, n), n)
    }
}

/// Cursor-level cycling: after `k + 1` selections the cursor stands at
/// `k % n`.
pub proof fn lemma_rr_cursor_cycles(k: nat, n: int)
    requires
        n >= 1,
    ensures
        rr_cursor_after(k + 1, n) == k as int % n,
    decreases k,
{
    if k == 0 {
        assert(rr_cursor_after(0, n) == -1);
        assert(rr_cursor_after(1, n) == rr_advance(-1, n));
        assert(0int % n == 0) by (nonlinear_arith)
            requires
                n >= 1,
        ;
    } else {
        lemma_rr_cursor_cycles((k - 1) as nat, n);
        let r = (k - 1) as int % n;
        let q = (k - 1) as int / n;
        vstd::arithmetic::div_mod::lemma_fundamental_div_mod((k - 1) as int, n);
        vstd::arithmetic::div_mod::lemma_mod_division_less_than_divisor((k - 1) as int, n);
        if r == n - 1 {
            assert(k as int == (q + 1) * n + 0) by (nonlinear_arith)
                requires
                    (k - 1) as int == n * q + r,
                    r == n - 1,
            ;
            vstd::arithmetic::div_mod::lemma_fundamental_div_mod_converse(k as int, n, q + 1, 0);
        } else {
            assert(k as int == q * n + (r + 1)) by (nonlinear_arith)
                requires
                    (k - 1) as int == n * q + r,
            ;
            vstd::arithmetic::div_mod::lemma_fundamental_div_mod_converse(k as int, n, q, r + 1);
        }
    }
}

/// The routing state after `k` consecutive routing decisions for `host`.
pub open spec fn iter_route_state(
    backends: Seq<Backend>,
    sv: Seq<(Seq<char>, Option<int>)>,
    host: Seq<char>,
    k: nat,
) -> Seq<(Seq<char>, Option<int>)>
    decreases k,
{
    if k == 0 {
        sv
    } else {
        spec_route_state(backends, iter_route_state(backends, sv, host, (k - 1) as nat), host)
    }
}

/// After `k` routing decisions, only the matched backend's cursor has moved,
/// and it stands at `rr_cursor_after(k, n)`.
proof fn lemma_iter_route_state(
    backends: Seq<Backend>,
    sv: Seq<(Seq<char>, Option<int>)>,
    host: Seq<char>,
    k: nat,
)
    requires
        first_match(backends, host) is Some,
        is_loadbalanced(first_match(backends, host)->0),
        (first_match(backends, host)->0).locations is Some,
        ((first_match(backends, host)->0).locations->0)@.len() >= 1,
        slookup(sv, host) == Some(Some(-1int)),
    ensures
        ({
            let n = ((first_match(backends, host)->0).locations->0)@.len() as int;
            &&& iter_route_state(backends, sv, host, k) == sv.update(
                sindex(sv, host),
                (host, Some(rr_cursor_after(k, n))),
            )
            &&& -1 <= rr_cursor_after(k, n) < n
        }),
    decreases k,
{
    let n = ((first_match(backends, host)->0).locations->0)@.len() as int;
    let si = sindex(sv, host);
    lemma_sindex(sv, host);
    if k == 0 {
        assert(sv[si] == (host, Some(-1int)));
        assert(sv.update(si, (host, Some(-1int))) =~= sv);
    } else {
        lemma_iter_route_state(backends, sv, host, (k - 1) as nat);
        let prev = iter_route_state(backends, sv, host, (k - 1) as nat);
        let c = rr_cursor_after((k - 1) as nat, n);
        assert(prev == sv.update(si, (host, Some(c))));
        lemma_sindex(prev, host);
        let si2 = sindex(prev, host);
        assert forall|j: int| 0 <= j < prev.len() implies (#[trigger] prev[j]).0 == sv[j].0 by {
            if j != si {
                assert(prev[j] == sv[j]);
            }
        }
        assert(si2 == si) by {
            if si2 < si {
                assert(prev[si2].0 == host);
                assert(sv[si2].0 != host);
            }
            if si < si2 {
                assert(prev[si].0 == host);
            }
        }
        assert(slookup(prev, host) == Some(Some(c)));
        assert(iter_route_state(backends, sv, host, k) == prev.update(
            si,
            (host, Some(rr_advance(c, n))),
        ));
        assert(prev.update(si, (host, Some(rr_advance(c, n)))) =~= sv.update(
            si,
            (host, Some(rr_cursor_after(k, n))),
        ));
    }
}

/// Round-robin law: for a load-balanced backend with a fresh cursor, the
/// locations that consecutive routing decisions select are exactly location
/// 0, 1, ..., N-1, 0, 1, ... in declaration order: the `k`-th decision
/// (counting from 0) selects location `k % N`.
pub proof fn lemma_round_robin(
    backends: Seq<Backend>,
    sv: Seq<(Seq<char>, Option<int>)>,
    host: Seq<char>,
    k: nat,
)
    requires
        first_match(backends, host) is Some,
        is_loadbalanced(first_match(backends, host)->0),
        (first_match(backends, host)->0).locations is Some,
        ((first_match(backends, host)->0).locations->0)@.len() >= 1,
        slookup(sv, host) == Some(Some(-1int)),
    ensures
        ({
            let locs = (first_match(backends, host)->0).locations->0;
            spec_route(backends, iter_route_state(backends, sv, host, k), host) == Some(
                locs@[k as int % locs@.len() as int]@,
            )
        }),
{
    let locs = (first_match(backends, host)->0).locations->0;
    let n = locs@.len() as int;
    let si = sindex(sv, host);
    lemma_sindex(sv, host);
    lemma_iter_route_state(backends, sv, host, k);
    let cur = iter_route_state(backends, sv, host, k);
    let c = rr_cursor_after(k, n);
    lemma_sindex(cur, host);
    let si2 = sindex(cur, host);
    assert forall|j: int| 0 <= j < cur.len() implies (#[trigger] cur[j]).0 == sv[j].0 by {
        if j != si {
            assert(cur[j] == sv[j]);
        }
    }
    assert(si2 == si) by {
        if si2 < si {
            assert(cur[si2].0 == host);
            assert(sv[si2].0 != host);
        }
        if si < si2 {
            assert(cur[si].0 == host);
        }
    }
    assert(slookup(cur, host) == Some(Some(c)));
    lemma_rr_cursor_cycles(k, n);
    assert(rr_advance(c, n) == rr_cursor_after(k + 1, n));
    vstd::arithmetic::div_mod::lemma_mod_division_less_than_divisor(k as int, n);
}

/// The initial routing state for a registry: one entry per named backend,
/// with a fresh cursor for the load-balanced ones; a name declared twice
/// keeps its last declaration, as repeated insertion into a map would have
/// it.
pub open spec fn spec_initial_state(backends: Seq<Backend>) -> Seq<(Seq<char>, Option<int>)>
    decreases backends.len(),
{
    if backends.len() == 0 {
        Seq::empty()
    } else {
        upsert_entry(spec_initial_state(backends.drop_last()), backends.last())
    }
}

/// Insert-or-replace of the state entry for one backend declaration.
pub open spec fn upsert_entry(sv: Seq<(Seq<char>, Option<int>)>, b: Backend) -> Seq<
    (Seq<char>, Option<int>),
> {
    match b.name {
        None => sv,
        Some(nm) => {
            let e = (
                nm@,
                if is_loadbalanced(b) {
                    Some(-1int)
                } else {
                    None::<int>
                },
            );
            if sindex(sv, nm@) < sv.len() {
                sv.update(sindex(sv, nm@), e)
            } else {
                sv.push(e)
            }
        },
    }
}

/// Every cursor of the initial state is the fresh sentinel.
pub proof fn lemma_initial_state_cursors(backends: Seq<Backend>, k: int)
    requires
        0 <= k < spec_initial_state(backends).len(),
    ensures
        (match spec_initial_state(backends)[k].1 {
            Some(c) => c == -1,
            None => true,
        }),
    decreases backends.len(),
{
    if backends.len() > 0 {
        let prev = spec_initial_state(backends.drop_last());
        let b = backends.last();
        let cur = spec_initial_state(backends);
        assert(cur == upsert_entry(prev, b));
        match b.name {
            None => {
                assert(cur == prev);
                lemma_initial_state_cursors(backends.drop_last(), k);
            },
            Some(nm) => {
                lemma_sindex(prev, nm@);
                if sindex(prev, nm@) < prev.len() {
                    assert(cur.len() == prev.len());
                    if k != sindex(prev, nm@) {
                        assert(cur[k] == prev[k]);
                        lemma_initial_state_cursors(backends.drop_last(), k);
                    }
                } else {
                    assert(cur == prev.push(cur.last()));
                    if k < prev.len() {
                        assert(cur[k] == prev[k]);
                        lemma_initial_state_cursors(backends.drop_last(), k);
                    }
                }
            },
        }
    }
}

impl ProxyState {
    /// Builds the initial routing state from the registry.
    pub fn new(config_backends: &Vec<Backend>) -> (s: ProxyState)
        ensures
            sview(s.backends@) == spec_initial_state(config_backends@),
            s.wf(config_backends@),
    {
        let n: usize = config_backends.len();
        let mut entries: Vec<StateEntry> = Vec::new();
        let mut i: usize = 0;
        while i < n
            invariant
                0 <= i <= n,
                n == config_backends@.len(),
                sview(entries@) == spec_initial_state(config_backends@.take(i as int)),
            decreases n - i,
        {
            let ghost prev = sview(entries@);
            let b: &Backend = &config_backends[i];
            proof {
                assert(config_backends@.take(i + 1).drop_last() =~= config_backends@.take(
                    i as int,
                ));
                assert(config_backends@.take(i + 1).last() == config_backends@[i as int]);
            }
            match &b.name {
                None => {},
                Some(nm) => {
                    let lb: bool = match &b.backend_type {
                        Some(t) => str_eq(t.as_str(), "loadbalanced"),
                        None => false,
                    };
                    proof {
                        assert(lb == is_loadbalanced(*b));
                    }
                    let st: Option<BackendState> = if lb {
                        Some(BackendState { rr_count: -1 })
                    } else {
                        None
                    };
                    match find_state_index(&entries, nm.as_str()) {
                        Some(k) => {
                            entries[k] = StateEntry { name: nm.clone(), state: st };
                            proof {
                                assert(sview(entries@) =~= prev.update(
                                    k as int,
                                    (
                                        nm@,
                                        if is_loadbalanced(*b) {
                                            Some(-1int)
                                        } else {
                                            None::<int>
                                        },
                                    ),
                                ));
                            }
                        },
                        None => {
                            entries.push(StateEntry { name: nm.clone(), state: st });
                            proof {
                                assert(sview(entries@) =~= prev.push(
                                    (
                                        nm@,
                                        if is_loadbalanced(*b) {
                                            Some(-1int)
                                        } else {
                                            None::<int>
                                        },
                                    ),
                                ));
                            }
                        },
                    }
                },
            }
            i = i + 1;
        }
        proof {
            assert(config_backends@.take(n as int) =~= config_backends@);
        }
        let s = ProxyState { backends: entries };
        proof {
            assert forall|k: int| 0 <= k < sview(s.backends@).len() implies cursor_ok(
                #[trigger] sview(s.backends@)[k],
                config_backends@,
            ) by {
                lemma_initial_state_cursors(config_backends@, k);
            }
        }
        s
    }
}

} // verus!
