//! The headers that protect every response.

use vstd::prelude::*;

use crate::text::same_text;

verus! {

/// Nothing is loaded, framed or submitted on behalf of a response.
pub const CONTENT_SECURITY_POLICY: &'static str =
    "default-src 'none'; connect-src 'self'; frame-ancestors 'none'; base-uri 'none'; form-action 'none'; object-src 'none'; report-uri /api/csp-report; report-to csp-endpoint";

/// Where browsers report what the policy kept them from.
pub const REPORTING_ENDPOINTS: &'static str = "csp-endpoint=\"/api/csp-report\"";

/// No feature of the browser is used.
pub const PERMISSIONS_POLICY: &'static str =
    "camera=(), microphone=(), geolocation=(), payment=(), usb=(), interest-cohort=(), browsing-topics=()";

/// For two years, only over a secure connection.
pub const HSTS_VALUE: &'static str = "max-age=63072000; includeSubDomains; preload";

/// Whether this instance is reached over a secure connection.
#[derive(Clone, Copy, Debug, PartialEq, Eq)]
pub struct HttpsEnabled(pub bool);

/// A header.
#[derive(Clone, Copy, Debug)]
pub struct Header {
    pub name: &'static str,
    pub value: &'static str,
}

impl Header {
    /// The name and the value.
    pub open spec fn view(&self) -> (Seq<char>, Seq<char>) {
        (self.name@, self.value@)
    }
}

/// What headers hold.
pub open spec fn headers_view(list: Seq<Header>) -> Seq<(Seq<char>, Seq<char>)> {
    Seq::new(list.len(), |i: int| list[i]@)
}

/// The headers that a response is given where it has none of the name.
pub open spec fn defaults() -> Seq<(Seq<char>, Seq<char>)> {
    seq![
        ("content-security-policy"@, CONTENT_SECURITY_POLICY@),
        ("reporting-endpoints"@, REPORTING_ENDPOINTS@),
        ("referrer-policy"@, "no-referrer"@),
        ("permissions-policy"@, PERMISSIONS_POLICY@),
        ("x-frame-options"@, "DENY"@),
        ("cross-origin-opener-policy"@, "same-origin"@),
        ("cross-origin-resource-policy"@, "same-origin"@),
    ]
}

/// The header that every response is given, over what it has.
pub open spec fn forced() -> (Seq<char>, Seq<char>) {
    ("x-content-type-options"@, "nosniff"@)
}

/// The header that a response over a secure connection is given where it has
/// none of the name.
pub open spec fn secure() -> (Seq<char>, Seq<char>) {
    ("strict-transport-security"@, HSTS_VALUE@)
}

/// Those of a list of headers whose names are not present.
pub open spec fn missing(
    list: Seq<(Seq<char>, Seq<char>)>,
    present: Set<Seq<char>>,
) -> Seq<(Seq<char>, Seq<char>)>
    decreases list.len(),
{
    if list.len() == 0 {
        Seq::empty()
    } else {
        let before = missing(list.drop_last(), present);
        if present.contains(list.last().0) {
            before
        } else {
            before.push(list.last())
        }
    }
}

/// The headers to set on a response, of which `present` are the names it has.
pub open spec fn to_set(present: Set<Seq<char>>, https: bool) -> Seq<(Seq<char>, Seq<char>)> {
    let common = missing(defaults(), present).push(forced());
    if https && !present.contains(secure().0) {
        common.push(secure())
    } else {
        common
    }
}

/// The names in a list.
pub open spec fn names_of(list: Seq<String>) -> Set<Seq<char>> {
    Set::new(|n: Seq<char>| exists|i: int| 0 <= i < list.len() && (#[trigger] list[i])@ == n)
}

fn is_present(present: &Vec<String>, name: &str) -> (yes: bool)
    ensures
        yes == names_of(present@).contains(name@),
{
    let mut i: usize = 0;
    while i < present.len()
        invariant
            i <= present.len(),
            forall|j: int| 0 <= j < i ==> (#[trigger] present@[j])@ != name@,
        decreases present.len() - i,
    {
        if same_text(present[i].as_str(), name) {
            assert(present@[i as int]@ == name@);
            return true;
        }
        i += 1;
    }
    false
}

/// Adds a header to the list, unless a header of its name is present.
fn insert_if_absent(
    out: &mut Vec<Header>,
    present: &Vec<String>,
    name: &'static str,
    value: &'static str,
)
    ensures
        headers_view(final(out)@) == (if names_of(present@).contains(name@) {
            headers_view(old(out)@)
        } else {
            headers_view(old(out)@).push((name@, value@))
        }),
{
    if !is_present(present, name) {
        out.push(Header { name, value });
        assert(headers_view(out@) =~= headers_view(old(out)@).push((name@, value@)));
    }
}

proof fn lemma_missing_step(
    list: Seq<(Seq<char>, Seq<char>)>,
    n: int,
    present: Set<Seq<char>>,
)
    requires
        0 < n <= list.len(),
    ensures
        missing(list.take(n), present) == (if present.contains(list[n - 1].0) {
            missing(list.take(n - 1), present)
        } else {
            missing(list.take(n - 1), present).push(list[n - 1])
        }),
{
    assert(list.take(n).drop_last() =~= list.take(n - 1));
    assert(list.take(n).last() == list[n - 1]);
}

/// The headers to set on a response, of which `present` are the names it has,
/// in lower case.
pub fn security_headers(present: &Vec<String>, https: HttpsEnabled) -> (headers: Vec<Header>)
    ensures
        headers_view(headers@) == to_set(names_of(present@), https.0),
{
    let ghost names = names_of(present@);
    let ghost d = defaults();
    let mut out: Vec<Header> = Vec::new();
    proof {
        assert(headers_view(out@) =~= Seq::<(Seq<char>, Seq<char>)>::empty());
        assert(d.take(7) =~= d);
        assert(d.take(0) =~= Seq::<(Seq<char>, Seq<char>)>::empty());
        lemma_missing_step(d, 1, names);
        lemma_missing_step(d, 2, names);
        lemma_missing_step(d, 3, names);
        lemma_missing_step(d, 4, names);
        lemma_missing_step(d, 5, names);
        lemma_missing_step(d, 6, names);
        lemma_missing_step(d, 7, names);
    }
    insert_if_absent(&mut out, present, "content-security-policy", CONTENT_SECURITY_POLICY);
    assert(headers_view(out@) == missing(d.take(1), names));
    insert_if_absent(&mut out, present, "reporting-endpoints", REPORTING_ENDPOINTS);
    assert(headers_view(out@) == missing(d.take(2), names));
    insert_if_absent(&mut out, present, "referrer-policy", "no-referrer");
    assert(headers_view(out@) == missing(d.take(3), names));
    insert_if_absent(&mut out, present, "permissions-policy", PERMISSIONS_POLICY);
    assert(headers_view(out@) == missing(d.take(4), names));
    insert_if_absent(&mut out, present, "x-frame-options", "DENY");
    assert(headers_view(out@) == missing(d.take(5), names));
    insert_if_absent(&mut out, present, "cross-origin-opener-policy", "same-origin");
    assert(headers_view(out@) == missing(d.take(6), names));
    insert_if_absent(&mut out, present, "cross-origin-resource-policy", "same-origin");
    assert(headers_view(out@) == missing(d, names));
    let ghost before = headers_view(out@);
    out.push(Header { name: "x-content-type-options", value: "nosniff" });
    assert(headers_view(out@) =~= before.push(forced()));
    if https.0 {
        insert_if_absent(&mut out, present, "strict-transport-security", HSTS_VALUE);
    }
    out
}

/// The headers of a response after headers were set on it.
pub open spec fn after_setting(
    headers: Map<Seq<char>, Seq<char>>,
    set: Seq<(Seq<char>, Seq<char>)>,
) -> Map<Seq<char>, Seq<char>>
    decreases set.len(),
{
    if set.len() == 0 {
        headers
    } else {
        after_setting(headers, set.drop_last()).insert(set.last().0, set.last().1)
    }
}

proof fn lemma_missing_leaves_present_alone(
    headers: Map<Seq<char>, Seq<char>>,
    list: Seq<(Seq<char>, Seq<char>)>,
    name: Seq<char>,
)
    requires
        headers.contains_key(name),
    ensures
        after_setting(headers, missing(list, headers.dom())).contains_key(name),
        after_setting(headers, missing(list, headers.dom()))[name] == headers[name],
    decreases list.len(),
{
    if list.len() > 0 {
        lemma_missing_leaves_present_alone(headers, list.drop_last(), name);
        let m = missing(list.drop_last(), headers.dom());
        assert(m.push(list.last()).drop_last() =~= m);
    }
}

/// What a handler set stays as it set it, but for the protection against
/// guessing content types, which every response has.
pub proof fn law_handlers_keep_their_headers(
    headers: Map<Seq<char>, Seq<char>>,
    https: bool,
    name: Seq<char>,
)
    ensures
        headers.contains_key(name) && name != forced().0 ==> after_setting(
            headers,
            to_set(headers.dom(), https),
        ).contains_key(name) && after_setting(headers, to_set(headers.dom(), https))[name]
            == headers[name],
        after_setting(headers, to_set(headers.dom(), https)).contains_key(forced().0),
        after_setting(headers, to_set(headers.dom(), https))[forced().0] == forced().1,
{
    let m = missing(defaults(), headers.dom());
    let common = m.push(forced());
    assert(common.drop_last() =~= m);
    assert(common.push(secure()).drop_last() =~= common);
    assert(after_setting(headers, common) == after_setting(headers, m).insert(
        forced().0,
        forced().1,
    ));
    assert(after_setting(headers, common.push(secure())) == after_setting(headers, common).insert(
        secure().0,
        secure().1,
    ));
    reveal_strlit("x-content-type-options");
    reveal_strlit("strict-transport-security");
    assert(forced().0.len() == 22);
    assert(secure().0.len() == 25);
    if headers.contains_key(name) {
        lemma_missing_leaves_present_alone(headers, defaults(), name);
    }
}

/// Whether a header is among those to set.
pub open spec fn sets(headers: Seq<Header>, name: Seq<char>, value: Seq<char>) -> bool {
    exists|i: int|
        0 <= i < headers.len() && (#[trigger] headers[i]).name@ == name && headers[i].value@
            == value
}

proof fn lemma_missing_contains(
    list: Seq<(Seq<char>, Seq<char>)>,
    present: Set<Seq<char>>,
    h: (Seq<char>, Seq<char>),
)
    ensures
        missing(list, present).contains(h) <==> list.contains(h) && !present.contains(h.0),
    decreases list.len(),
{
    if list.len() > 0 {
        let front = list.drop_last();
        let before = missing(front, present);
        lemma_missing_contains(front, present, h);
        assert(list =~= front.push(list.last()));
        assert(list.contains(h) <==> front.contains(h) || list.last() == h) by {
            if list.contains(h) {
                let i = choose|i: int| 0 <= i < list.len() && list[i] == h;
                if i < front.len() {
                    assert(front[i] == h);
                }
            }
            if front.contains(h) {
                let i = choose|i: int| 0 <= i < front.len() && front[i] == h;
                assert(list[i] == h);
            }
            if list.last() == h {
                assert(list[list.len() - 1] == h);
            }
        }
        if !present.contains(list.last().0) {
            let after = before.push(list.last());
            if before.contains(h) {
                let i = choose|i: int| 0 <= i < before.len() && before[i] == h;
                assert(after[i] == h);
            }
            if list.last() == h {
                assert(after[before.len() as int] == h);
            }
            if after.contains(h) {
                let i = choose|i: int| 0 <= i < after.len() && after[i] == h;
                if i < before.len() {
                    assert(before[i] == h);
                }
            }
        }
    }
}

proof fn lemma_to_set_contains(
    present: Set<Seq<char>>,
    https: bool,
    h: (Seq<char>, Seq<char>),
)
    ensures
        to_set(present, https).contains(h) <==> (defaults().contains(h) && !present.contains(h.0))
            || h == forced() || (https && !present.contains(secure().0) && h == secure()),
{
    lemma_missing_contains(defaults(), present, h);
    let own = missing(defaults(), present);
    let common = own.push(forced());
    assert(common.contains(h) <==> own.contains(h) || h == forced()) by {
        if own.contains(h) {
            let i = choose|i: int| 0 <= i < own.len() && own[i] == h;
            assert(common[i] == h);
        }
        if h == forced() {
            assert(common[own.len() as int] == h);
        }
        if common.contains(h) {
            let i = choose|i: int| 0 <= i < common.len() && common[i] == h;
            if i < own.len() {
                assert(own[i] == h);
            }
        }
    }
    let all = common.push(secure());
    assert(all.contains(h) <==> common.contains(h) || h == secure()) by {
        if common.contains(h) {
            let i = choose|i: int| 0 <= i < common.len() && common[i] == h;
            assert(all[i] == h);
        }
        if h == secure() {
            assert(all[common.len() as int] == h);
        }
        if all.contains(h) {
            let i = choose|i: int| 0 <= i < all.len() && all[i] == h;
            if i < common.len() {
                assert(common[i] == h);
            }
        }
    }
}

/// Whether a name is among those that are present.
pub open spec fn has_name(present: Seq<String>, name: Seq<char>) -> bool {
    exists|i: int| 0 <= i < present.len() && (#[trigger] present[i])@ == name
}

/// A response that has none of these headers gets every one of them; one that
/// it has already is left to it. That content types are not guessed is said on
/// every response, and that the connection is to be secure on those of an
/// instance that is reached over one.
pub proof fn law_responses_get_what_they_lack(
    present: &Vec<String>,
    https: HttpsEnabled,
    headers: Vec<Header>,
)
    requires
        call_ensures(security_headers, (present, https), headers),
    ensures
        !has_name(present@, "content-security-policy"@) ==> sets(
            headers@,
            "content-security-policy"@,
            "default-src 'none'; connect-src 'self'; frame-ancestors 'none'; base-uri 'none'; form-action 'none'; object-src 'none'; report-uri /api/csp-report; report-to csp-endpoint"@,
        ),
        !has_name(present@, "reporting-endpoints"@) ==> sets(
            headers@,
            "reporting-endpoints"@,
            "csp-endpoint=\"/api/csp-report\""@,
        ),
        !has_name(present@, "referrer-policy"@) ==> sets(
            headers@,
            "referrer-policy"@,
            "no-referrer"@,
        ),
        !has_name(present@, "permissions-policy"@) ==> sets(
            headers@,
            "permissions-policy"@,
            "camera=(), microphone=(), geolocation=(), payment=(), usb=(), interest-cohort=(), browsing-topics=()"@,
        ),
        !has_name(present@, "x-frame-options"@) ==> sets(headers@, "x-frame-options"@, "DENY"@),
        !has_name(present@, "cross-origin-opener-policy"@) ==> sets(
            headers@,
            "cross-origin-opener-policy"@,
            "same-origin"@,
        ),
        !has_name(present@, "cross-origin-resource-policy"@) ==> sets(
            headers@,
            "cross-origin-resource-policy"@,
            "same-origin"@,
        ),
        sets(headers@, "x-content-type-options"@, "nosniff"@),
        https.0 && !has_name(present@, "strict-transport-security"@) ==> sets(
            headers@,
            "strict-transport-security"@,
            "max-age=63072000; includeSubDomains; preload"@,
        ),
{
    let names = names_of(present@);
    let all = to_set(names, https.0);
    let d = defaults();
    assert(forall|i: int| 0 <= i < 7 ==> d.contains(#[trigger] d[i]));
    assert forall|h: (Seq<char>, Seq<char>)| #[trigger] all.contains(h) implies sets(
        headers@,
        h.0,
        h.1,
    ) by {
        let i = choose|i: int| 0 <= i < all.len() && all[i] == h;
        assert(headers_view(headers@)[i] == headers@[i]@);
    }
    assert forall|n: Seq<char>| names.contains(n) <==> #[trigger] has_name(present@, n) by {}
    lemma_to_set_contains(names, https.0, d[0]);
    lemma_to_set_contains(names, https.0, d[1]);
    lemma_to_set_contains(names, https.0, d[2]);
    lemma_to_set_contains(names, https.0, d[3]);
    lemma_to_set_contains(names, https.0, d[4]);
    lemma_to_set_contains(names, https.0, d[5]);
    lemma_to_set_contains(names, https.0, d[6]);
    lemma_to_set_contains(names, https.0, forced());
    lemma_to_set_contains(names, https.0, secure());
}

/// No header is set over one that is there, but for the one against guessing
/// content types, and nothing is said of secure connections where there are
/// none.
pub proof fn law_present_headers_are_left(
    present: &Vec<String>,
    https: HttpsEnabled,
    headers: Vec<Header>,
    i: int,
)
    requires
        call_ensures(security_headers, (present, https), headers),
        0 <= i < headers@.len(),
    ensures
        headers@[i].name@ == "x-content-type-options"@ || !has_name(present@, headers@[i].name@),
        headers@[i].name@ == "strict-transport-security"@ ==> https.0,
{
    let names = names_of(present@);
    let all = to_set(names, https.0);
    let h = headers@[i]@;
    assert(headers_view(headers@)[i] == h);
    assert(all.contains(h));
    lemma_to_set_contains(names, https.0, h);
    assert(names.contains(h.0) <==> has_name(present@, h.0));
    reveal_strlit("content-security-policy");
    reveal_strlit("reporting-endpoints");
    reveal_strlit("referrer-policy");
    reveal_strlit("permissions-policy");
    reveal_strlit("x-frame-options");
    reveal_strlit("cross-origin-opener-policy");
    reveal_strlit("cross-origin-resource-policy");
    reveal_strlit("x-content-type-options");
    reveal_strlit("strict-transport-security");
    assert(forced().0.len() == 22 && secure().0.len() == 25);
    if defaults().contains(h) {
        let j = choose|j: int| 0 <= j < defaults().len() && defaults()[j] == h;
        assert(defaults()[j].0.len() != 25);
    }
}

} // verus!
