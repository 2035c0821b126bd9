//! What the proxy does with intercepted traffic: check the destination
//! host against the tracker list and, if it matches, replace cookie
//! *values* (nothing else) with the session's substitutes. Every other
//! host, and every other part of a tracker's traffic, passes unchanged.
//!
//! Cookie syntax is parsed and printed by the `cookie` crate; the HTTP
//! plumbing around these functions lives in the application.

use std::sync::Arc;

use vstd::prelude::*;

use crate::cookies::cookie_store::{is_generated_value, store_key, CookieStore};
use crate::cookies::tracker_list::{host_under, normalized_host, TrackerList};
use crate::text::{chars_of, has_prefix, string_of_range, trimmed};

verus! {

/// For each `;`-separated item of a `Cookie:` header, the name `cookie`
/// parses it to, or `None` where it does not parse.
pub uninterp spec fn cookie_header_names(header: Seq<char>) -> Seq<Option<Seq<char>>>;

/// The `Set-Cookie:` value `cookie` prints after parsing `text` and
/// replacing its value by `value`, if `text` parses.
pub uninterp spec fn set_cookie_with_value(text: Seq<char>, value: Seq<char>) -> Option<Seq<char>>;

/// The view of an optional string.
pub open spec fn opt_view(o: Option<String>) -> Option<Seq<char>> {
    match o {
        Some(s) => Some(s@),
        None => None,
    }
}

pub open spec fn opt_str_view(o: Option<&str>) -> Option<Seq<char>> {
    match o {
        Some(s) => Some(s@),
        None => None,
    }
}

/// `cookie::Cookie::split_parse` over a `Cookie:` header, keeping each
/// item's name (`Cookie::name`), or `None` for an item that failed to
/// parse.
#[verifier::external_body]
fn split_cookie_names(header: &str) -> (r: Vec<Option<String>>)
    ensures
        r@.map_values(|o: Option<String>| opt_view(o)) == cookie_header_names(header@),
{
    cookie::Cookie::split_parse(header.to_owned()).map(|c| c.ok().map(|c| c.name().to_owned())).collect()
}

/// The part of `s` before its first `c`, or all of `s`.
pub open spec fn before_first(s: Seq<char>, c: char) -> Seq<char>
    decreases s.len(),
{
    if s.len() == 0 || s[0] == c {
        Seq::empty()
    } else {
        seq![s[0]] + before_first(s.drop_first(), c)
    }
}

/// The cookie name of a `Set-Cookie:` value as `cookie` reads it: the
/// part before the first `;` must hold an `=`, and the name is what
/// precedes that `=`, trimmed, which must not be empty.
pub open spec fn cookie_pair_name(text: Seq<char>) -> Option<Seq<char>> {
    let pair = before_first(text, ';');
    let name = trimmed(before_first(pair, '='));
    if pair.contains('=') && name.len() > 0 {
        Some(name)
    } else {
        None
    }
}

/// `cookie::Cookie::parse` of a `Set-Cookie:` value, keeping its name:
/// it parses exactly when the first `;`-separated part holds an `=` with a
/// non-empty trimmed name before it (attributes never make it fail), and
/// the name is that trimmed text.
#[verifier::external_body]
fn parsed_cookie_name(text: &str) -> (r: Option<String>)
    ensures
        opt_view(r) == cookie_pair_name(text@),
{
    cookie::Cookie::parse(text.to_owned()).ok().map(|c| c.name().to_owned())
}

/// `cookie::Cookie::parse` of a `Set-Cookie:` value, then
/// `Cookie::set_value` and `to_string`.
///
/// It parses the same text as `parsed_cookie_name`, so it succeeds
/// exactly when that does; and `cookie` prints a cookie as `name=value`
/// followed by its attributes, so the result starts with the parsed name,
/// `=` and the new value.
#[verifier::external_body]
fn cookie_with_value(text: &str, value: &str) -> (r: Option<String>)
    ensures
        opt_view(r) == set_cookie_with_value(text@, value@),
        (r is Some) == (cookie_pair_name(text@) is Some),
        r is Some ==> has_prefix(r->0@, cookie_pair_name(text@)->0 + "="@ + value@),
{
    let mut c = cookie::Cookie::parse(text.to_owned()).ok()?;
    c.set_value(value.to_owned());
    Some(c.to_string())
}

/// The names of the items of a `Cookie:` header that parse, in order.
pub open spec fn parsed_names(items: Seq<Option<Seq<char>>>) -> Seq<Seq<char>>
    decreases items.len(),
{
    if items.len() == 0 {
        Seq::empty()
    } else {
        match items.last() {
            Some(n) => parsed_names(items.drop_last()).push(n),
            None => parsed_names(items.drop_last()),
        }
    }
}

/// `name=value` pairs joined by `; `, the value of each name being its
/// substitute in `store` for `host`.
pub open spec fn cookie_pairs(
    names: Seq<Seq<char>>,
    host: Seq<char>,
    store: Map<(Seq<char>, Seq<char>), Seq<char>>,
) -> Seq<char>
    decreases names.len(),
{
    if names.len() == 0 {
        Seq::empty()
    } else {
        let pair = names.last() + "="@ + store[store_key(host, names.last())];
        if names.len() == 1 {
            pair
        } else {
            cookie_pairs(names.drop_last(), host, store) + "; "@ + pair
        }
    }
}

/// `after` keeps every substitute of `before` and has one for each of
/// `names` under `host`, and nothing else new; each new substitute is a
/// freshly generated value.
pub open spec fn store_grew_by(
    before: Map<(Seq<char>, Seq<char>), Seq<char>>,
    after: Map<(Seq<char>, Seq<char>), Seq<char>>,
    host: Seq<char>,
    names: Seq<Seq<char>>,
) -> bool {
    &&& forall|k| #[trigger] before.contains_key(k) ==> after.contains_key(k) && after[k] == before[k]
    &&& forall|i: int| 0 <= i < names.len() ==> after.contains_key(store_key(host, #[trigger] names[i]))
    &&& forall|k|
        #[trigger] after.contains_key(k) ==> before.contains_key(k) || exists|i: int|
            0 <= i < names.len() && k == store_key(host, #[trigger] names[i])
    &&& forall|k| #[trigger] after.contains_key(k) && !before.contains_key(k) ==> is_generated_value(after[k])
}

/// The `Cookie:` header a tracker receives in place of `header`, if the
/// request has one (`None`: nothing to rewrite, nothing recorded).
pub fn rewrite_outgoing_cookie_header(header: Option<&str>, host: &str, store: &mut CookieStore) -> (r:
    Option<String>)
    ensures
        header is None ==> r is None && final(store)@ == old(store)@,
        header is Some ==> {
            let names = parsed_names(cookie_header_names(header->0@));
            &&& r is Some
            &&& store_grew_by(old(store)@, final(store)@, host@, names)
            &&& r->0@ == cookie_pairs(names, host@, final(store)@)
        },
{
    match header {
        Some(h) => Some(rewrite_cookie_header_value(h, host, store)),
        None => None,
    }
}

/// A `Cookie:` header value rewritten for `host`: every cookie that
/// parses, as `name=substitute`, joined by `; `. Cookies that do not
/// parse are dropped.
pub fn rewrite_cookie_header_value(header: &str, host: &str, store: &mut CookieStore) -> (r:
    String)
    ensures
        store_grew_by(old(store)@, final(store)@, host@, parsed_names(cookie_header_names(header@))),
        r@ == cookie_pairs(parsed_names(cookie_header_names(header@)), host@, final(store)@),
{
    let items = split_cookie_names(header);
    let ghost views = items@.map_values(|o: Option<String>| opt_view(o));
    let mut out = String::new();
    let mut any = false;
    let ghost mut names: Seq<Seq<char>> = Seq::empty();
    let mut i: usize = 0;
    while i < items.len()
        invariant
            views == items@.map_values(|o: Option<String>| opt_view(o)),
            views == cookie_header_names(header@),
            i <= items@.len(),
            names == parsed_names(views.take(i as int)),
            any == (names.len() > 0),
            store_grew_by(old(store)@, store@, host@, names),
            out@ == cookie_pairs(names, host@, store@),
        decreases items@.len() - i,
    {
        proof {
            assert(views.take(i + 1).drop_last() =~= views.take(i as int));
            assert(views.take(i + 1).last() == views[i as int]);
        }
        match &items[i] {
            Some(name) => {
                let ghost before = store@;
                let value = store.randomized_value(host, name.as_str());
                if any {
                    out.append("; ");
                }
                out.append(name.as_str());
                out.append("=");
                out.append(value.as_str());
                proof {
                    let key = store_key(host@, name@);
                    assert(store@[key] == value@);
                    assert forall|j: int| 0 <= j < names.len() implies store@.contains_key(
                        store_key(host@, #[trigger] names[j]),
                    ) && store@[store_key(host@, names[j])] == before[store_key(host@, names[j])] by {
                    }
                    lemma_cookie_pairs_stable(names, host@, before, store@);
                    let next = names.push(name@);
                    assert(next.drop_last() =~= names);
                    names = next;
                    assert(store_grew_by(old(store)@, store@, host@, names)) by {
                        assert forall|k| #[trigger] store@.contains_key(k) implies old(
                            store,
                        )@.contains_key(k) || exists|j: int|
                            0 <= j < names.len() && k == store_key(host@, #[trigger] names[j]) by {
                            if !before.contains_key(k) {
                                assert(k == key);
                                assert(names[names.len() - 1] == name@);
                            } else if !old(store)@.contains_key(k) {
                                let j = choose|j: int|
                                    0 <= j < names.drop_last().len() && k == store_key(
                                        host@,
                                        #[trigger] names.drop_last()[j],
                                    );
                                assert(names[j] == names.drop_last()[j]);
                            }
                        }
                        assert forall|j: int| 0 <= j < names.len() implies store@.contains_key(
                            store_key(host@, #[trigger] names[j]),
                        ) by {
                            if j < names.len() - 1 {
                                assert(names[j] == names.drop_last()[j]);
                            }
                        }
                    }
                    reveal_strlit("; ");
                    reveal_strlit("=");
                }
                any = true;
                assert(out@ =~= cookie_pairs(names, host@, store@));
            },
            None => {},
        }
        i = i + 1;
    }
    assert(views.take(i as int) =~= views);
    out
}

proof fn lemma_cookie_pairs_stable(
    names: Seq<Seq<char>>,
    host: Seq<char>,
    a: Map<(Seq<char>, Seq<char>), Seq<char>>,
    b: Map<(Seq<char>, Seq<char>), Seq<char>>,
)
    requires
        forall|j: int|
            0 <= j < names.len() ==> b[store_key(host, #[trigger] names[j])] == a[store_key(
                host,
                names[j],
            )],
    ensures
        cookie_pairs(names, host, a) == cookie_pairs(names, host, b),
    decreases names.len(),
{
    if names.len() > 0 {
        let n = names.len() - 1;
        assert(b[store_key(host, names[n])] == a[store_key(host, names[n])]);
        assert forall|j: int| 0 <= j < names.drop_last().len() implies b[store_key(
            host,
            #[trigger] names.drop_last()[j],
        )] == a[store_key(host, names.drop_last()[j])] by {
            assert(names.drop_last()[j] == names[j]);
        }
        lemma_cookie_pairs_stable(names.drop_last(), host, a, b);
    }
}

/// The rewritten form of one `Set-Cookie:` value for `host`: the same
/// cookie, attributes included, with its value replaced by the session's
/// substitute; `None` (keep the original) where it does not parse.
pub fn rewrite_set_cookie(text: &str, host: &str, store: &mut CookieStore) -> (r: Option<String>)
    ensures
        (r is Some) == (cookie_pair_name(text@) is Some),
        cookie_pair_name(text@) is None ==> final(store)@ == old(store)@,
        cookie_pair_name(text@) is Some ==> {
            let name = cookie_pair_name(text@)->0;
            let value = final(store)@[store_key(host@, name)];
            &&& store_grew_by(old(store)@, final(store)@, host@, seq![name])
            &&& r->0@ == set_cookie_with_value(text@, value)->0
            &&& has_prefix(r->0@, name + "="@ + value)
        },
{
    match parsed_cookie_name(text) {
        None => None,
        Some(name) => {
            let ghost before = store@;
            let value = store.randomized_value(host, name.as_str());
            proof {
                let key = store_key(host@, name@);
                assert(seq![name@][0] == name@);
                assert forall|k| #[trigger] store@.contains_key(k) implies before.contains_key(k)
                    || exists|i: int| 0 <= i < seq![name@].len() && k == store_key(host@, #[trigger] seq![name@][i]) by {
                    if !before.contains_key(k) {
                        assert(k == key);
                    }
                }
            }
            cookie_with_value(text, value.as_str())
        },
    }
}

/// For each `Set-Cookie:` value, the name `cookie` parses it to, or
/// `None` where it is not text or does not parse.
pub open spec fn set_cookie_items(values: Seq<Option<String>>) -> Seq<Option<Seq<char>>> {
    values.map_values(
        |o: Option<String>|
            match o {
                Some(s) => cookie_pair_name(s@),
                None => None,
            },
    )
}

/// The key of a rewritten `Set-Cookie:` value's substitute.
pub open spec fn set_cookie_key(host: Seq<char>, value: Option<String>) -> (Seq<char>, Seq<char>) {
    store_key(host, cookie_pair_name(value->0@)->0)
}

proof fn lemma_store_grew_by_one_more(
    a: Map<(Seq<char>, Seq<char>), Seq<char>>,
    b: Map<(Seq<char>, Seq<char>), Seq<char>>,
    c: Map<(Seq<char>, Seq<char>), Seq<char>>,
    host: Seq<char>,
    names: Seq<Seq<char>>,
    n: Seq<char>,
)
    requires
        store_grew_by(a, b, host, names),
        store_grew_by(b, c, host, seq![n]),
    ensures
        store_grew_by(a, c, host, names.push(n)),
{
    let next = names.push(n);
    assert(seq![n][0] == n);
    assert(next[names.len() as int] == n);
    assert forall|j: int| 0 <= j < next.len() implies c.contains_key(store_key(host, #[trigger] next[j])) by {
        if j < names.len() {
            assert(next[j] == names[j]);
            assert(b.contains_key(store_key(host, names[j])));
        }
    }
    assert forall|k| #[trigger] c.contains_key(k) implies a.contains_key(k) || exists|j: int|
        0 <= j < next.len() && k == store_key(host, #[trigger] next[j]) by {
        if !b.contains_key(k) {
            let j = choose|j: int| 0 <= j < seq![n].len() && k == store_key(host, #[trigger] seq![n][j]);
            assert(k == store_key(host, next[names.len() as int]));
        } else if !a.contains_key(k) {
            let j = choose|j: int| 0 <= j < names.len() && k == store_key(host, #[trigger] names[j]);
            assert(next[j] == names[j]);
        }
    }
}

/// Rewrites a response's `Set-Cookie:` values for `host`, each on its
/// own: `values` holds each header's text (`None` where it is not valid
/// UTF-8); the result holds, at the same position, the replacement text,
/// or `None` where the original header is to be kept as it is. Each
/// replacement is the same cookie, attributes included, carrying the
/// session's substitute for its name; the store gains a substitute for
/// each parsed name and keeps every one it had.
pub fn rewrite_incoming_set_cookie_headers(
    values: &Vec<Option<String>>,
    host: &str,
    store: &mut CookieStore,
) -> (r: Vec<Option<String>>)
    ensures
        r@.len() == values@.len(),
        forall|i: int|
            0 <= i < values@.len() ==> ((#[trigger] r@[i]) is Some <==> (values@[i] is Some
                && cookie_pair_name(values@[i]->0@) is Some)),
        forall|i: int|
            0 <= i < values@.len() && (#[trigger] r@[i]) is Some ==> has_prefix(
                r@[i]->0@,
                cookie_pair_name(values@[i]->0@)->0 + "="@,
            ),
        forall|i: int|
            0 <= i < values@.len() && (#[trigger] r@[i]) is Some ==> r@[i]->0@ == set_cookie_with_value(
                values@[i]->0@,
                final(store)@[set_cookie_key(host@, values@[i])],
            )->0,
        store_grew_by(old(store)@, final(store)@, host@, parsed_names(set_cookie_items(values@))),
{
    let ghost items = set_cookie_items(values@);
    let ghost mut names: Seq<Seq<char>> = Seq::empty();
    let mut out: Vec<Option<String>> = Vec::new();
    let mut i: usize = 0;
    proof {
        assert(items.take(0) =~= Seq::<Option<Seq<char>>>::empty());
        assert(store_grew_by(old(store)@, store@, host@, names));
    }
    while i < values.len()
        invariant
            i <= values@.len(),
            items == set_cookie_items(values@),
            names == parsed_names(items.take(i as int)),
            store_grew_by(old(store)@, store@, host@, names),
            out@.len() == i,
            forall|k: int|
                0 <= k < i ==> ((#[trigger] out@[k]) is Some <==> (values@[k] is Some
                    && cookie_pair_name(values@[k]->0@) is Some)),
            forall|k: int|
                0 <= k < i && (#[trigger] out@[k]) is Some ==> has_prefix(
                    out@[k]->0@,
                    cookie_pair_name(values@[k]->0@)->0 + "="@,
                ),
            forall|k: int|
                0 <= k < i && (#[trigger] out@[k]) is Some ==> store@.contains_key(
                    set_cookie_key(host@, values@[k]),
                ) && out@[k]->0@ == set_cookie_with_value(
                    values@[k]->0@,
                    store@[set_cookie_key(host@, values@[k])],
                )->0,
        decreases values@.len() - i,
    {
        let ghost before = store@;
        proof {
            assert(items.take(i + 1).drop_last() =~= items.take(i as int));
            assert(items.take(i + 1).last() == items[i as int]);
        }
        let rewritten = match &values[i] {
            Some(text) => rewrite_set_cookie(text.as_str(), host, store),
            None => None,
        };
        proof {
            if rewritten is Some {
                let t = values@[i as int]->0@;
                let name = cookie_pair_name(t)->0;
                let v = store@[store_key(host@, name)];
                let full = rewritten->0@;
                assert(name + "="@ + v =~= (name + "="@) + v);
                assert(full.take((name + "="@).len() as int) =~= (name + "="@ + v).take(
                    (name + "="@).len() as int,
                ));
                assert((name + "="@ + v).take((name + "="@).len() as int) =~= name + "="@);
                assert(items[i as int] == Some(name));
                assert(seq![name][0] == name);
                lemma_store_grew_by_one_more(old(store)@, before, store@, host@, names, name);
                names = names.push(name);
                assert forall|k: int|
                    0 <= k < i && (#[trigger] out@[k]) is Some implies store@.contains_key(
                        set_cookie_key(host@, values@[k]),
                    ) && store@[set_cookie_key(host@, values@[k])] == before[set_cookie_key(
                        host@,
                        values@[k],
                    )] by {
                    assert(before.contains_key(set_cookie_key(host@, values@[k])));
                }
            } else {
                assert(items[i as int] is None);
                assert(store@ == before);
            }
        }
        out.push(rewritten);
        proof {
            assert forall|k: int|
                0 <= k < i + 1 && (#[trigger] out@[k]) is Some implies store@.contains_key(
                    set_cookie_key(host@, values@[k]),
                ) && out@[k]->0@ == set_cookie_with_value(
                    values@[k]->0@,
                    store@[set_cookie_key(host@, values@[k])],
                )->0 by {
                if k == i {
                    assert(seq![cookie_pair_name(values@[k]->0@)->0][0] == cookie_pair_name(values@[k]->0@)->0);
                }
            }
        }
        i = i + 1;
    }
    proof {
        assert(items.take(i as int) =~= items);
    }
    out
}

/// The host a request is for: the `Host` header without its port when
/// the header is present and valid text, else the host of the request
/// URI.
pub fn request_host(host_header: Option<&str>, uri_host: Option<&str>) -> (r: Option<String>)
    ensures
        host_header is Some ==> r is Some && r->0@ == host_header->0@.take(
            port_start(host_header->0@) as int,
        ),
        host_header is None ==> opt_view(r) == opt_str_view(uri_host),
{
    match host_header {
        Some(h) => {
            let v = chars_of(h);
            let mut i: usize = 0;
            assert(v@.skip(0) =~= v@);
            while i < v.len() && v[i] != ':'
                invariant
                    v@ == h@,
                    i <= v@.len(),
                    port_start(v@) == i + port_start(v@.skip(i as int)),
                decreases v@.len() - i,
            {
                assert(v@.skip(i as int).drop_first() =~= v@.skip(i + 1));
                i = i + 1;
            }
            let s = string_of_range(&v, 0, i);
            assert(s@ =~= v@.take(i as int));
            Some(s)
        },
        None => match uri_host {
            Some(u) => Some(u.to_owned()),
            None => None,
        },
    }
}

/// Position of the first `:` in `s`, or its length.
pub open spec fn port_start(s: Seq<char>) -> nat
    decreases s.len(),
{
    if s.len() == 0 || s[0] == ':' {
        0
    } else {
        1 + port_start(s.drop_first())
    }
}

/// The proxy's per-connection decision state: the tracker list, and the
/// host of the request in flight, remembered so its response can be
/// matched to it.
#[derive(Clone)]
pub struct CookieRandomizingHandler {
    tracker_list: Arc<TrackerList>,
    current_request_host: Option<String>,
}

/// `host` is a tracker according to `list`.
pub open spec fn is_tracker(list: Set<Seq<char>>, host: Seq<char>) -> bool {
    exists|d: Seq<char>| list.contains(d) && host_under(normalized_host(host), d)
}

impl CookieRandomizingHandler {
    pub fn new(tracker_list: Arc<TrackerList>) -> (h: CookieRandomizingHandler)
        ensures
            h.trackers() == tracker_list@,
            h.pending_host() is None,
    {
        CookieRandomizingHandler { tracker_list, current_request_host: None }
    }

    /// The tracker domains.
    pub closed spec fn trackers(&self) -> Set<Seq<char>> {
        (*self.tracker_list)@
    }

    /// The host of the request in flight, if any.
    pub closed spec fn pending_host(&self) -> Option<Seq<char>> {
        opt_view(self.current_request_host)
    }

    /// A request for `host` is starting: remember the host, and return it
    /// when the request's cookies are to be rewritten (it is a tracker).
    pub fn handle_request(&mut self, host: Option<String>) -> (rewrite_for: Option<String>)
        ensures
            final(self).trackers() == old(self).trackers(),
            final(self).pending_host() == opt_view(host),
            opt_view(rewrite_for) == match host {
                Some(h) => if is_tracker(old(self).trackers(), h@) {
                    Some(h@)
                } else {
                    None
                },
                None => None,
            },
    {
        self.current_request_host = match &host {
            Some(h) => Some(h.clone()),
            None => None,
        };
        match host {
            Some(h) => if self.tracker_list.matches(h.as_str()) {
                Some(h)
            } else {
                None
            },
            None => None,
        }
    }

    /// The response to the request in flight arrived: forget its host,
    /// and return it when the response's cookies are to be rewritten.
    pub fn handle_response(&mut self) -> (rewrite_for: Option<String>)
        ensures
            final(self).trackers() == old(self).trackers(),
            final(self).pending_host() is None,
            opt_view(rewrite_for) == match old(self).pending_host() {
                Some(h) => if is_tracker(old(self).trackers(), h) {
                    Some(h)
                } else {
                    None
                },
                None => None,
            },
    {
        let host = self.current_request_host.take();
        match host {
            Some(h) => if self.tracker_list.matches(h.as_str()) {
                Some(h)
            } else {
                None
            },
            None => None,
        }
    }
}

/// Both directions agree on a cookie's substitute for the whole session:
/// once a `Set-Cookie:` rewrite has given `name` a substitute for `host`,
/// any later `Cookie:` rewrite for that host sends that same substitute.
pub proof fn law_set_cookie_and_cookie_agree(
    s0: Map<(Seq<char>, Seq<char>), Seq<char>>,
    s1: Map<(Seq<char>, Seq<char>), Seq<char>>,
    s2: Map<(Seq<char>, Seq<char>), Seq<char>>,
    host: Seq<char>,
    name: Seq<char>,
    names: Seq<Seq<char>>,
)
    requires
        store_grew_by(s0, s1, host, seq![name]),
        store_grew_by(s1, s2, host, names),
    ensures
        s2.contains_key(store_key(host, name)),
        s2[store_key(host, name)] == s1[store_key(host, name)],
{
    assert(seq![name][0] == name);
    assert(s1.contains_key(store_key(host, seq![name][0])));
}

} // verus!
