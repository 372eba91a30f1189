//! The rules of an `etw_provider!` declaration, on the values the declaration
//! holds: which attributes a user or kernel provider and its events may carry,
//! which declarations are refused (duplicate templates, duplicate
//! (id, version) pairs, unknown templates), which event declaration a received
//! (id, version) is read as, and the event-id filter, keyword mask and enable
//! flags that the provider is built with; and, for a `fileio_events!`
//! declaration, the Rust type of each field keyword and the event a received
//! (id, version) is read as.

use vstd::prelude::*;
use crate::text::{dec, owned, push_dec, push_str, text_eq};

verus! {

/// Whether a provider is a user-mode or a kernel provider.
#[derive(Debug, Clone, Copy, PartialEq, Eq, Structural)]
pub enum ProviderKind {
    User,
    Kernel,
}

/// The `#[etw_provider(...)]` attribute: the kind and the provider-wide keyword
/// mask or enable flag, where given.
#[derive(Debug, Clone, Copy, PartialEq, Eq, Structural)]
pub struct ProviderAttr {
    pub kind: ProviderKind,
    pub keyword_mask: Option<u64>,
    pub enable_flag: Option<u32>,
}

/// One event of the declaration: its `#[etw_event(...)]` attribute and the
/// template it uses.
#[derive(Debug, Clone)]
pub struct EventDecl {
    pub id: u16,
    pub version: Option<u8>,
    pub name: String,
    pub template: String,
    pub keyword_mask: Option<u64>,
    pub enable_flag: Option<u32>,
    pub skip: bool,
}

/// The error of a provider attribute that does not fit its kind, if any.
pub open spec fn provider_attr_error(a: ProviderAttr) -> Option<Seq<char>> {
    match a.kind {
        ProviderKind::User => if a.enable_flag is Some {
            Some(
                "`enable_flag` on `#[etw_provider(...)]` is only valid for kernel providers (use `keyword_mask` for user providers)"@,
            )
        } else {
            None
        },
        ProviderKind::Kernel => if a.keyword_mask is Some {
            Some(
                "`keyword_mask` on `#[etw_provider(...)]` is only valid for user providers (use `enable_flag` for kernel providers)"@,
            )
        } else {
            None
        },
    }
}

/// A user provider takes no enable flag, a kernel provider no keyword mask.
pub fn check_provider_attr(a: &ProviderAttr) -> (r: Result<(), String>)
    ensures
        match provider_attr_error(*a) {
            None => r is Ok,
            Some(m) => r matches Err(e) && e@ == m,
        },
{
    match a.kind {
        ProviderKind::User => if a.enable_flag.is_some() {
            Err(
                owned(
                    "`enable_flag` on `#[etw_provider(...)]` is only valid for kernel providers (use `keyword_mask` for user providers)",
                ),
            )
        } else {
            Ok(())
        },
        ProviderKind::Kernel => if a.keyword_mask.is_some() {
            Err(
                owned(
                    "`keyword_mask` on `#[etw_provider(...)]` is only valid for user providers (use `enable_flag` for kernel providers)",
                ),
            )
        } else {
            Ok(())
        },
    }
}

/// The error of an event attribute in a provider of `kind`, if any.
pub open spec fn event_attr_error(kind: ProviderKind, provider_has_flag: bool, e: EventDecl) -> Option<Seq<char>> {
    match kind {
        ProviderKind::User => if e.enable_flag is Some {
            Some(
                "`enable_flag` is only valid on events in kernel `etw_provider!` blocks (use `keyword_mask` for user providers)"@,
            )
        } else {
            None
        },
        ProviderKind::Kernel => if e.keyword_mask is Some {
            Some(
                "`keyword_mask` is only valid on events in user `etw_provider!` blocks (use `enable_flag` for kernel providers)"@,
            )
        } else if !provider_has_flag && e.enable_flag is None {
            Some(
                "`enable_flag` is required on each event when no provider-wide `enable_flag` is set on `#[etw_provider(...)]`"@,
            )
        } else {
            None
        },
    }
}

/// Events of a user provider take no enable flag; events of a kernel provider
/// take no keyword mask, and each needs an enable flag unless the provider has one.
pub fn check_event_attr(kind: ProviderKind, provider_has_flag: bool, e: &EventDecl) -> (r: Result<(), String>)
    ensures
        match event_attr_error(kind, provider_has_flag, *e) {
            None => r is Ok,
            Some(m) => r matches Err(x) && x@ == m,
        },
{
    match kind {
        ProviderKind::User => if e.enable_flag.is_some() {
            Err(
                owned(
                    "`enable_flag` is only valid on events in kernel `etw_provider!` blocks (use `keyword_mask` for user providers)",
                ),
            )
        } else {
            Ok(())
        },
        ProviderKind::Kernel => if e.keyword_mask.is_some() {
            Err(
                owned(
                    "`keyword_mask` is only valid on events in user `etw_provider!` blocks (use `enable_flag` for kernel providers)",
                ),
            )
        } else if !provider_has_flag && e.enable_flag.is_none() {
            Err(
                owned(
                    "`enable_flag` is required on each event when no provider-wide `enable_flag` is set on `#[etw_provider(...)]`",
                ),
            )
        } else {
            Ok(())
        },
    }
}

/// Some template before position `i` has the name of template `i`.
pub open spec fn template_repeated(ts: Seq<Seq<char>>, i: int) -> bool {
    exists|j: int| 0 <= j < i && ts[j] == ts[i]
}

/// The first template among the first `n` whose name came before, if any.
pub open spec fn first_repeated_template(ts: Seq<Seq<char>>, n: int) -> Option<int>
    decreases n,
{
    if n <= 0 {
        None
    } else {
        match first_repeated_template(ts, n - 1) {
            Some(i) => Some(i),
            None => if template_repeated(ts, n - 1) {
                Some(n - 1)
            } else {
                None
            },
        }
    }
}

/// Some event before position `i` has the (id, version) of event `i`.
pub open spec fn pair_repeated(es: Seq<EventDecl>, i: int) -> bool {
    exists|j: int| 0 <= j < i && es[j].id == es[i].id && es[j].version == es[i].version
}

/// Some template has the name `name`.
pub open spec fn template_known(ts: Seq<Seq<char>>, name: Seq<char>) -> bool {
    exists|j: int| 0 <= j < ts.len() && ts[j] == name
}

/// A version as the duplicate message shows it.
pub open spec fn version_display(v: Option<u8>) -> Seq<char> {
    match v {
        Some(x) => dec(x as nat),
        None => "any (no version)"@,
    }
}

/// The error of event `i`, if any: a repeated (id, version) pair, else an
/// unknown template.
pub open spec fn event_decl_error(ts: Seq<Seq<char>>, es: Seq<EventDecl>, i: int) -> Option<Seq<char>> {
    if pair_repeated(es, i) {
        Some(
            "duplicate (id, version) pair ("@ + dec(es[i].id as nat) + ", "@ + version_display(es[i].version)
                + ") in etw_provider! block"@,
        )
    } else if !template_known(ts, es[i].template@) {
        Some("template `"@ + es[i].template@ + "` not found"@)
    } else {
        None
    }
}

/// The first error among the first `n` events, if any.
pub open spec fn first_event_error(ts: Seq<Seq<char>>, es: Seq<EventDecl>, n: int) -> Option<Seq<char>>
    decreases n,
{
    if n <= 0 {
        None
    } else {
        match first_event_error(ts, es, n - 1) {
            Some(m) => Some(m),
            None => event_decl_error(ts, es, n - 1),
        }
    }
}

/// The error of a declaration, if any: first a repeated template name, then the
/// first event (in order) with a repeated (id, version) pair or an unknown
/// template.
pub open spec fn declaration_error(ts: Seq<Seq<char>>, es: Seq<EventDecl>) -> Option<Seq<char>> {
    match first_repeated_template(ts, ts.len() as int) {
        Some(i) => Some("duplicate template name `"@ + ts[i] + "`"@),
        None => first_event_error(ts, es, es.len() as int),
    }
}

/// The names of the templates.
pub open spec fn names(ts: Seq<String>) -> Seq<Seq<char>> {
    ts.map_values(|t: String| t@)
}

fn same_pair(a: &EventDecl, b: &EventDecl) -> (r: bool)
    ensures
        r == (a.id == b.id && a.version == b.version),
{
    a.id == b.id && match (a.version, b.version) {
        (Some(x), Some(y)) => x == y,
        (None, None) => true,
        _ => false,
    }
}

/// Checks the templates and events of a declaration: no template name twice, no
/// (id, version) pair twice, and every event's template declared.
pub fn check_declarations(templates: &Vec<String>, events: &Vec<EventDecl>) -> (r: Result<(), String>)
    ensures
        match declaration_error(names(templates@), events@) {
            None => r is Ok,
            Some(m) => r matches Err(e) && e@ == m,
        },
{
    let ghost ts = names(templates@);
    let mut i: usize = 0;
    while i < templates.len()
        invariant
            i <= templates@.len(),
            ts == names(templates@),
            first_repeated_template(ts, i as int) is None,
        decreases templates.len() - i,
    {
        let mut j: usize = 0;
        while j < i
            invariant
                j <= i < templates@.len(),
                ts == names(templates@),
                first_repeated_template(ts, i as int) is None,
                forall|k: int| 0 <= k < j ==> ts[k] != ts[i as int],
            decreases i - j,
        {
            if text_eq(templates[j].as_str(), templates[i].as_str()) {
                proof {
                    assert(ts[j as int] == templates@[j as int]@);
                    assert(ts[i as int] == templates@[i as int]@);
                    assert(template_repeated(ts, i as int));
                    assert(first_repeated_template(ts, i + 1) == Some(i as int));
                    lemma_first_repeated_stays(ts, i + 1, ts.len() as int);
                }
                let mut m = owned("duplicate template name `");
                push_str(&mut m, templates[i].as_str());
                push_str(&mut m, "`");
                return Err(m);
            }
            proof {
                assert(ts[j as int] == templates@[j as int]@);
                assert(ts[i as int] == templates@[i as int]@);
            }
            j = j + 1;
        }
        i = i + 1;
    }
    let mut n: usize = 0;
    while n < events.len()
        invariant
            n <= events@.len(),
            ts == names(templates@),
            first_repeated_template(ts, ts.len() as int) is None,
            first_event_error(ts, events@, n as int) is None,
        decreases events.len() - n,
    {
        let e = &events[n];
        let mut j: usize = 0;
        while j < n
            invariant
                j <= n < events@.len(),
                *e == events@[n as int],
                ts == names(templates@),
                first_repeated_template(ts, ts.len() as int) is None,
                first_event_error(ts, events@, n as int) is None,
                forall|k: int| 0 <= k < j ==> !(events@[k].id == e.id && events@[k].version == e.version),
            decreases n - j,
        {
            if same_pair(&events[j], e) {
                proof {
                    assert(pair_repeated(events@, n as int));
                    lemma_first_event_error_stays(ts, events@, n + 1, events@.len() as int);
                }
                let mut m = owned("duplicate (id, version) pair (");
                push_dec(&mut m, e.id as u64);
                push_str(&mut m, ", ");
                match e.version {
                    Some(v) => push_dec(&mut m, v as u64),
                    None => push_str(&mut m, "any (no version)"),
                }
                push_str(&mut m, ") in etw_provider! block");
                assert(m@ =~= "duplicate (id, version) pair ("@ + dec(e.id as nat) + ", "@ + version_display(e.version)
                    + ") in etw_provider! block"@);
                return Err(m);
            }
            j = j + 1;
        }
        let mut t: usize = 0;
        while t < templates.len() && !text_eq(templates[t].as_str(), e.template.as_str())
            invariant
                t <= templates@.len(),
                ts == names(templates@),
                forall|k: int| 0 <= k < t ==> ts[k] != e.template@,
            decreases templates.len() - t,
        {
            assert(ts[t as int] == templates@[t as int]@);
            t = t + 1;
        }
        if t == templates.len() {
            proof {
                assert(!pair_repeated(events@, n as int));
                assert(!template_known(ts, e.template@));
                lemma_first_event_error_stays(ts, events@, n + 1, events@.len() as int);
            }
            let mut m = owned("template `");
            push_str(&mut m, e.template.as_str());
            push_str(&mut m, "` not found");
            return Err(m);
        }
        proof {
            assert(ts[t as int] == templates@[t as int]@);
            assert(ts[t as int] == e.template@);
            assert(!pair_repeated(events@, n as int));
        }
        n = n + 1;
    }
    Ok(())
}

proof fn lemma_first_repeated_stays(ts: Seq<Seq<char>>, n: int, m: int)
    requires
        n <= m,
        first_repeated_template(ts, n) is Some,
    ensures
        first_repeated_template(ts, m) == first_repeated_template(ts, n),
    decreases m - n,
{
    if n < m {
        lemma_first_repeated_stays(ts, n, m - 1);
    }
}

proof fn lemma_first_event_error_stays(ts: Seq<Seq<char>>, es: Seq<EventDecl>, n: int, m: int)
    requires
        n <= m,
        first_event_error(ts, es, n) is Some,
    ensures
        first_event_error(ts, es, m) == first_event_error(ts, es, n),
    decreases m - n,
{
    if n < m {
        lemma_first_event_error_stays(ts, es, n, m - 1);
    }
}

/// Event `i` is read for a received (`id`, `ver`) by an exact arm: it is not
/// skipped and declares that id and version.
pub open spec fn exact_arm(es: Seq<EventDecl>, i: int, id: u16, ver: u8) -> bool {
    !es[i].skip && es[i].id == id && es[i].version == Some(ver)
}

/// Event `i` is read for any version of `id`: it is not skipped and declares
/// that id without a version.
pub open spec fn wildcard_arm(es: Seq<EventDecl>, i: int, id: u16) -> bool {
    !es[i].skip && es[i].id == id && es[i].version is None
}

/// The event declaration that a received event of `id` and version `ver` is read
/// as: the first that declares both; else the first that declares the id
/// without a version; none when neither exists (skipped events never match).
pub fn parsed_variant(events: &Vec<EventDecl>, id: u16, ver: u8) -> (r: Option<usize>)
    ensures
        match r {
            Some(i) => i < events@.len() && ((exact_arm(events@, i as int, id, ver) && forall|k: int|
                0 <= k < i ==> !exact_arm(events@, k, id, ver)) || ((forall|k: int|
                0 <= k < events@.len() ==> !exact_arm(events@, k, id, ver)) && wildcard_arm(events@, i as int, id)
                && forall|k: int| 0 <= k < i ==> !wildcard_arm(events@, k, id))),
            None => forall|k: int|
                0 <= k < events@.len() ==> !exact_arm(events@, k, id, ver) && !wildcard_arm(events@, k, id),
        },
{
    let mut i: usize = 0;
    while i < events.len()
        invariant
            i <= events@.len(),
            forall|k: int| 0 <= k < i ==> !exact_arm(events@, k, id, ver),
        decreases events.len() - i,
    {
        let e = &events[i];
        if !e.skip && e.id == id && match e.version {
            Some(v) => v == ver,
            None => false,
        } {
            return Some(i);
        }
        i = i + 1;
    }
    let mut i: usize = 0;
    while i < events.len()
        invariant
            i <= events@.len(),
            forall|k: int| 0 <= k < events@.len() ==> !exact_arm(events@, k, id, ver),
            forall|k: int| 0 <= k < i ==> !wildcard_arm(events@, k, id),
        decreases events.len() - i,
    {
        let e = &events[i];
        if !e.skip && e.id == id && e.version.is_none() {
            return Some(i);
        }
        i = i + 1;
    }
    None
}

/// Some event that is not skipped declares `id`.
pub open spec fn id_declared(es: Seq<EventDecl>, id: u16) -> bool {
    exists|i: int| 0 <= i < es.len() && !es[i].skip && #[trigger] es[i].id == id
}

/// Ids strictly ascending.
pub open spec fn ascending_ids(v: Seq<u16>) -> bool {
    forall|a: int, b: int| 0 <= a < b < v.len() ==> v[a] < v[b]
}

pub(crate) fn insert_id(v: &mut Vec<u16>, x: u16)
    requires
        ascending_ids(old(v)@),
    ensures
        ascending_ids(final(v)@),
        forall|y: u16| final(v)@.contains(y) <==> (old(v)@.contains(y) || y == x),
{
    let mut i: usize = 0;
    while i < v.len() && v[i] < x
        invariant
            i <= v@.len(),
            v@ == old(v)@,
            forall|a: int| 0 <= a < i ==> v@[a] < x,
        decreases v.len() - i,
    {
        i = i + 1;
    }
    if i < v.len() && v[i] == x {
        return;
    }
    let ghost before = v@;
    v.insert(i, x);
    proof {
        let after = v@;
        assert(after =~= before.insert(i as int, x));
        assert forall|a: int, b: int| 0 <= a < b < after.len() implies after[a] < after[b] by {
            if b < i {
                assert(after[a] == before[a] && after[b] == before[b]);
            } else if b == i {
                assert(after[a] == before[a]);
            } else if a < i {
                assert(after[a] == before[a] && after[b] == before[b - 1]);
                assert(before[i as int] <= before[b - 1]);
            } else if a == i {
                assert(after[b] == before[b - 1]);
                assert(before[i as int] <= before[b - 1]);
            } else {
                assert(after[a] == before[a - 1] && after[b] == before[b - 1]);
            }
        }
        assert forall|y: u16| after.contains(y) <==> (before.contains(y) || y == x) by {
            if after.contains(y) {
                let a = choose|a: int| 0 <= a < after.len() && after[a] == y;
                if a < i {
                    assert(before[a] == y);
                } else if a > i {
                    assert(before[a - 1] == y);
                }
            }
            if before.contains(y) {
                let a = choose|a: int| 0 <= a < before.len() && before[a] == y;
                if a < i {
                    assert(after[a] == y);
                } else {
                    assert(after[a + 1] == y);
                }
            }
            if y == x {
                assert(after[i as int] == x);
            }
        }
    }
}

/// The event ids a user provider filters on: those of the events that are not
/// skipped, ascending, each once.
pub fn filter_event_ids(events: &Vec<EventDecl>) -> (r: Vec<u16>)
    ensures
        ascending_ids(r@),
        forall|id: u16| r@.contains(id) <==> id_declared(events@, id),
{
    let mut r: Vec<u16> = Vec::new();
    let mut q: usize = 0;
    while q < events.len()
        invariant
            q <= events@.len(),
            ascending_ids(r@),
            forall|id: u16|
                r@.contains(id) <==> (exists|p: int| 0 <= p < q && !events@[p].skip && #[trigger] events@[p].id == id),
        decreases events.len() - q,
    {
        if !events[q].skip {
            insert_id(&mut r, events[q].id);
        }
        proof {
            assert forall|id: u16|
                r@.contains(id) <==> (exists|p: int| 0 <= p < q + 1 && !events@[p].skip && #[trigger] events@[p].id == id) by {
                if !events@[q as int].skip && id == events@[q as int].id {
                    assert(events@[q as int].id == id);
                }
                if exists|p: int| 0 <= p < q + 1 && !events@[p].skip && #[trigger] events@[p].id == id {
                    let p = choose|p: int| 0 <= p < q + 1 && !events@[p].skip && #[trigger] events@[p].id == id;
                    if p < q {
                        assert(exists|p2: int| 0 <= p2 < q && !events@[p2].skip && #[trigger] events@[p2].id == id);
                    }
                }
            }
        }
        q = q + 1;
    }
    r
}

/// The enable flags of a kernel provider: its own flag, then those of the first
/// `n` events that are not skipped, or-ed together (0 when there are none).
pub open spec fn enable_flags_upto(provider: Option<u32>, es: Seq<EventDecl>, n: int) -> u32
    decreases n,
{
    if n <= 0 {
        match provider {
            Some(f) => f,
            None => 0,
        }
    } else {
        enable_flags_upto(provider, es, n - 1) | match es[n - 1].enable_flag {
            Some(f) => if es[n - 1].skip {
                0u32
            } else {
                f
            },
            None => 0u32,
        }
    }
}

/// The enable flags a kernel provider is built with.
pub fn kernel_enable_flags(provider: Option<u32>, events: &Vec<EventDecl>) -> (f: u32)
    ensures
        f == enable_flags_upto(provider, events@, events@.len() as int),
{
    let mut f: u32 = match provider {
        Some(p) => p,
        None => 0,
    };
    let mut i: usize = 0;
    while i < events.len()
        invariant
            i <= events@.len(),
            f == enable_flags_upto(provider, events@, i as int),
        decreases events.len() - i,
    {
        let add: u32 = match events[i].enable_flag {
            Some(x) => if events[i].skip {
                0
            } else {
                x
            },
            None => 0,
        };
        f = f | add;
        i = i + 1;
    }
    f
}

/// Some keyword mask is given: the provider's or that of an event that is not
/// skipped.
pub open spec fn keyword_given(provider: Option<u64>, es: Seq<EventDecl>) -> bool {
    provider is Some || exists|i: int| 0 <= i < es.len() && !es[i].skip && (#[trigger] es[i].keyword_mask) is Some
}

/// The keyword masks of a user provider, or-ed together: its own, then those of
/// the first `n` events that are not skipped.
pub open spec fn keywords_upto(provider: Option<u64>, es: Seq<EventDecl>, n: int) -> u64
    decreases n,
{
    if n <= 0 {
        match provider {
            Some(k) => k,
            None => 0,
        }
    } else {
        keywords_upto(provider, es, n - 1) | match es[n - 1].keyword_mask {
            Some(k) => if es[n - 1].skip {
                0u64
            } else {
                k
            },
            None => 0u64,
        }
    }
}

/// The keyword mask a user provider is built with; none when no mask is given,
/// and then the provider is built without one.
pub fn user_keyword_mask(provider: Option<u64>, events: &Vec<EventDecl>) -> (k: Option<u64>)
    ensures
        k == (if keyword_given(provider, events@) {
            Some(keywords_upto(provider, events@, events@.len() as int))
        } else {
            None
        }),
{
    let mut k: u64 = match provider {
        Some(p) => p,
        None => 0,
    };
    let mut any = provider.is_some();
    let mut i: usize = 0;
    while i < events.len()
        invariant
            i <= events@.len(),
            k == keywords_upto(provider, events@, i as int),
            any == (provider is Some || exists|j: int|
                0 <= j < i && !events@[j].skip && (#[trigger] events@[j].keyword_mask) is Some),
        decreases events.len() - i,
    {
        let add: u64 = match events[i].keyword_mask {
            Some(x) => if events[i].skip {
                0
            } else {
                any = true;
                x
            },
            None => 0,
        };
        k = k | add;
        proof {
            if !events@[i as int].skip && events@[i as int].keyword_mask is Some {
                assert(events@[i as int].keyword_mask is Some);
            }
        }
        i = i + 1;
    }
    if any {
        Some(k)
    } else {
        None
    }
}

/// An outer attribute of an `etw_provider!` declaration: its path and, for
/// `#[etw_provider(...)]`, its arguments (not read for any other path).
#[derive(Debug, Clone)]
pub struct OuterAttr {
    pub path: String,
    pub args: ProviderAttr,
}

/// The provider attribute of a declaration without `#[etw_provider(...)]`: a
/// user provider with neither keyword mask nor enable flag.
pub open spec fn default_provider_attr() -> ProviderAttr {
    ProviderAttr { kind: ProviderKind::User, keyword_mask: None, enable_flag: None }
}

/// The error of one outer attribute, if any: any path but `etw_provider` is
/// refused, and an `#[etw_provider(...)]` must fit its kind.
pub open spec fn outer_attr_error(a: OuterAttr) -> Option<Seq<char>> {
    if a.path@ == "etw_provider"@ {
        provider_attr_error(a.args)
    } else {
        Some("unsupported attribute; expected `#[etw_provider(...)]`"@)
    }
}

/// The first error among the first `n` outer attributes, in order.
pub open spec fn first_outer_error(attrs: Seq<OuterAttr>, n: int) -> Option<Seq<char>>
    decreases n,
{
    if n <= 0 {
        None
    } else {
        match first_outer_error(attrs, n - 1) {
            Some(m) => Some(m),
            None => outer_attr_error(attrs[n - 1]),
        }
    }
}

/// The provider attribute in force after the first `n` outer attributes: the
/// last `#[etw_provider(...)]` among them, else the default.
pub open spec fn provider_attr_of(attrs: Seq<OuterAttr>, n: int) -> ProviderAttr
    decreases n,
{
    if n <= 0 {
        default_provider_attr()
    } else if attrs[n - 1].path@ == "etw_provider"@ {
        attrs[n - 1].args
    } else {
        provider_attr_of(attrs, n - 1)
    }
}

/// Number of `etw_event` paths among an event's attribute paths.
pub open spec fn event_attr_count(paths: Seq<Seq<char>>) -> nat
    decreases paths.len(),
{
    if paths.len() == 0 {
        0
    } else {
        event_attr_count(paths.drop_last()) + if paths.last() == "etw_event"@ {
            1nat
        } else {
            0nat
        }
    }
}

/// The attribute paths of each event, as text.
pub open spec fn path_views(ps: Seq<Vec<String>>) -> Seq<Seq<Seq<char>>> {
    ps.map_values(|v: Vec<String>| names(v@))
}

/// The error of one event, if any: it needs exactly one `#[etw_event(...)]`
/// attribute (two or more are refused first, then none), and that attribute
/// must fit the provider's kind.
pub open spec fn item_error(kind: ProviderKind, has_flag: bool, paths: Seq<Seq<char>>, e: EventDecl) -> Option<Seq<char>> {
    if event_attr_count(paths) >= 2 {
        Some(
            "event referencing template `"@ + e.template@
                + "` has multiple #[etw_event(...)] attributes; expected exactly one"@,
        )
    } else if event_attr_count(paths) == 0 {
        Some("event referencing template `"@ + e.template@ + "` is missing required #[etw_event(...)] attribute"@)
    } else {
        event_attr_error(kind, has_flag, e)
    }
}

/// The first error among the first `n` events, in order.
pub open spec fn first_item_error(
    kind: ProviderKind,
    has_flag: bool,
    ps: Seq<Seq<Seq<char>>>,
    es: Seq<EventDecl>,
    n: int,
) -> Option<Seq<char>>
    decreases n,
{
    if n <= 0 {
        None
    } else {
        match first_item_error(kind, has_flag, ps, es, n - 1) {
            Some(m) => Some(m),
            None => item_error(kind, has_flag, ps[n - 1], es[n - 1]),
        }
    }
}

/// The error of a declaration's attributes, if any: the outer attributes in
/// order, then the events in order under the provider attribute in force.
pub open spec fn attributes_error(attrs: Seq<OuterAttr>, ps: Seq<Seq<Seq<char>>>, es: Seq<EventDecl>) -> Option<Seq<char>> {
    match first_outer_error(attrs, attrs.len() as int) {
        Some(m) => Some(m),
        None => {
            let a = provider_attr_of(attrs, attrs.len() as int);
            first_item_error(a.kind, a.enable_flag is Some, ps, es, es.len() as int)
        },
    }
}

proof fn lemma_first_outer_error_stays(attrs: Seq<OuterAttr>, n: int, m: int)
    requires
        n <= m,
        first_outer_error(attrs, n) is Some,
    ensures
        first_outer_error(attrs, m) == first_outer_error(attrs, n),
    decreases m - n,
{
    if n < m {
        lemma_first_outer_error_stays(attrs, n, m - 1);
    }
}

proof fn lemma_first_item_error_stays(
    kind: ProviderKind,
    has_flag: bool,
    ps: Seq<Seq<Seq<char>>>,
    es: Seq<EventDecl>,
    n: int,
    m: int,
)
    requires
        n <= m,
        first_item_error(kind, has_flag, ps, es, n) is Some,
    ensures
        first_item_error(kind, has_flag, ps, es, m) == first_item_error(kind, has_flag, ps, es, n),
    decreases m - n,
{
    if n < m {
        lemma_first_item_error_stays(kind, has_flag, ps, es, n, m - 1);
    }
}

/// Number of `etw_event` paths among `paths`.
fn count_event_attrs(paths: &Vec<String>) -> (c: usize)
    ensures
        c == event_attr_count(names(paths@)),
{
    let ghost ns = names(paths@);
    let mut c: usize = 0;
    let mut i: usize = 0;
    while i < paths.len()
        invariant
            i <= paths@.len(),
            ns == names(paths@),
            c == event_attr_count(ns.subrange(0, i as int)),
            c <= i,
        decreases paths.len() - i,
    {
        proof {
            assert(ns.subrange(0, i + 1).drop_last() =~= ns.subrange(0, i as int));
            assert(ns[i as int] == paths@[i as int]@);
        }
        if text_eq(paths[i].as_str(), "etw_event") {
            c = c + 1;
        }
        i = i + 1;
    }
    assert(ns.subrange(0, paths@.len() as int) =~= ns);
    c
}

/// Reads the attributes of a declaration in the order the macro does: each
/// outer attribute must be `#[etw_provider(...)]` fitting its kind (the last
/// one is in force); then each event, given by its attribute paths
/// (`event_paths[i]` for `events[i]`), must carry exactly one
/// `#[etw_event(...)]`, whose arguments (`events[i]`) must fit the provider's
/// kind. Returns the provider attribute in force.
pub fn read_attributes(attrs: &Vec<OuterAttr>, event_paths: &Vec<Vec<String>>, events: &Vec<EventDecl>) -> (r: Result<
    ProviderAttr,
    String,
>)
    requires
        event_paths@.len() == events@.len(),
    ensures
        match attributes_error(attrs@, path_views(event_paths@), events@) {
            None => r matches Ok(a) && a == provider_attr_of(attrs@, attrs@.len() as int),
            Some(m) => r matches Err(e) && e@ == m,
        },
{
    let mut cur = ProviderAttr { kind: ProviderKind::User, keyword_mask: None, enable_flag: None };
    let mut i: usize = 0;
    while i < attrs.len()
        invariant
            i <= attrs@.len(),
            first_outer_error(attrs@, i as int) is None,
            cur == provider_attr_of(attrs@, i as int),
        decreases attrs.len() - i,
    {
        if text_eq(attrs[i].path.as_str(), "etw_provider") {
            match check_provider_attr(&attrs[i].args) {
                Err(e) => {
                    proof {
                        lemma_first_outer_error_stays(attrs@, i + 1, attrs@.len() as int);
                    }
                    return Err(e);
                },
                Ok(()) => {},
            }
            cur = attrs[i].args;
        } else {
            proof {
                lemma_first_outer_error_stays(attrs@, i + 1, attrs@.len() as int);
            }
            return Err(owned("unsupported attribute; expected `#[etw_provider(...)]`"));
        }
        i = i + 1;
    }
    let has_flag = cur.enable_flag.is_some();
    let ghost ps = path_views(event_paths@);
    let mut n: usize = 0;
    while n < events.len()
        invariant
            n <= events@.len(),
            event_paths@.len() == events@.len(),
            ps == path_views(event_paths@),
            first_outer_error(attrs@, attrs@.len() as int) is None,
            cur == provider_attr_of(attrs@, attrs@.len() as int),
            has_flag == cur.enable_flag is Some,
            first_item_error(cur.kind, has_flag, ps, events@, n as int) is None,
        decreases events.len() - n,
    {
        let c = count_event_attrs(&event_paths[n]);
        proof {
            assert(ps[n as int] == names(event_paths@[n as int]@));
        }
        let e = &events[n];
        if c >= 2 {
            let mut m = owned("event referencing template `");
            push_str(&mut m, e.template.as_str());
            push_str(&mut m, "` has multiple #[etw_event(...)] attributes; expected exactly one");
            proof {
                lemma_first_item_error_stays(cur.kind, has_flag, ps, events@, n + 1, events@.len() as int);
            }
            return Err(m);
        }
        if c == 0 {
            let mut m = owned("event referencing template `");
            push_str(&mut m, e.template.as_str());
            push_str(&mut m, "` is missing required #[etw_event(...)] attribute");
            proof {
                lemma_first_item_error_stays(cur.kind, has_flag, ps, events@, n + 1, events@.len() as int);
            }
            return Err(m);
        }
        match check_event_attr(cur.kind, has_flag, e) {
            Err(x) => {
                proof {
                    lemma_first_item_error_stays(cur.kind, has_flag, ps, events@, n + 1, events@.len() as int);
                }
                return Err(x);
            },
            Ok(()) => {},
        }
        n = n + 1;
    }
    Ok(cur)
}

/// The error an `etw_provider!` declaration is refused with, if any: its
/// attributes (`attributes_error`), then its templates and (id, version) pairs.
pub open spec fn provider_error(
    attrs: Seq<OuterAttr>,
    ts: Seq<Seq<char>>,
    ps: Seq<Seq<Seq<char>>>,
    es: Seq<EventDecl>,
) -> Option<Seq<char>> {
    match attributes_error(attrs, ps, es) {
        Some(m) => Some(m),
        None => declaration_error(ts, es),
    }
}

/// Checks a whole declaration in the order the macro does, and returns the
/// provider attribute in force.
pub fn check_provider(
    attrs: &Vec<OuterAttr>,
    templates: &Vec<String>,
    event_paths: &Vec<Vec<String>>,
    events: &Vec<EventDecl>,
) -> (r: Result<ProviderAttr, String>)
    requires
        event_paths@.len() == events@.len(),
    ensures
        match provider_error(attrs@, names(templates@), path_views(event_paths@), events@) {
            None => r matches Ok(a) && a == provider_attr_of(attrs@, attrs@.len() as int),
            Some(m) => r matches Err(e) && e@ == m,
        },
{
    let a = match read_attributes(attrs, event_paths, events) {
        Err(e) => return Err(e),
        Ok(a) => a,
    };
    match check_declarations(templates, events) {
        Err(e) => Err(e),
        Ok(()) => Ok(a),
    }
}

proof fn lemma_no_event_error(ts: Seq<Seq<char>>, es: Seq<EventDecl>, n: int, k: int)
    requires
        0 <= k < n,
        first_event_error(ts, es, n) is None,
    ensures
        event_decl_error(ts, es, k) is None,
    decreases n,
{
    if k < n - 1 {
        lemma_no_event_error(ts, es, n - 1, k);
    }
}

/// In an accepted declaration no two events share an (id, version) pair, so a
/// received event is read by at most one exact arm and at most one arm for any
/// version of its id.
pub proof fn law_accepted_declaration_is_unambiguous(
    ts: Seq<Seq<char>>,
    es: Seq<EventDecl>,
    i: int,
    j: int,
    id: u16,
    ver: u8,
)
    requires
        declaration_error(ts, es) is None,
        0 <= i < es.len(),
        0 <= j < es.len(),
    ensures
        exact_arm(es, i, id, ver) && exact_arm(es, j, id, ver) ==> i == j,
        wildcard_arm(es, i, id) && wildcard_arm(es, j, id) ==> i == j,
{
    if i < j && es[i].id == es[j].id && es[i].version == es[j].version {
        assert(pair_repeated(es, j));
        lemma_no_event_error(ts, es, es.len() as int, j);
    }
    if j < i && es[i].id == es[j].id && es[i].version == es[j].version {
        assert(pair_repeated(es, i));
        lemma_no_event_error(ts, es, es.len() as int, i);
    }
}

/// The Rust type of a field keyword of a `fileio_events!` declaration and
/// whether the field is read as a pointer; none for an unknown keyword.
pub open spec fn field_type_of(keyword: Seq<char>) -> Option<(Seq<char>, bool)> {
    if keyword == "pointer"@ {
        Some(("usize"@, true))
    } else if keyword == "string"@ {
        Some(("String"@, false))
    } else if keyword == "u32"@ {
        Some(("u32"@, false))
    } else if keyword == "u64"@ {
        Some(("u64"@, false))
    } else if keyword == "i32"@ {
        Some(("i32"@, false))
    } else if keyword == "i64"@ {
        Some(("i64"@, false))
    } else if keyword == "filetime"@ {
        Some(("u64"@, false))
    } else {
        None
    }
}

/// The Rust type of a field keyword and whether the field is read as a pointer;
/// an unknown keyword is refused with the list of known ones.
pub fn field_type(keyword: &str) -> (r: Result<(String, bool), String>)
    ensures
        match field_type_of(keyword@) {
            Some((t, p)) => r matches Ok(x) && x.0@ == t && x.1 == p,
            None => r matches Err(e) && e@ == "unknown field type `"@ + keyword@
                + "`; expected one of: pointer, string, u32, u64, i32, i64, filetime"@,
        },
{
    if text_eq(keyword, "pointer") {
        Ok((owned("usize"), true))
    } else if text_eq(keyword, "string") {
        Ok((owned("String"), false))
    } else if text_eq(keyword, "u32") {
        Ok((owned("u32"), false))
    } else if text_eq(keyword, "u64") {
        Ok((owned("u64"), false))
    } else if text_eq(keyword, "i32") {
        Ok((owned("i32"), false))
    } else if text_eq(keyword, "i64") {
        Ok((owned("i64"), false))
    } else if text_eq(keyword, "filetime") {
        Ok((owned("u64"), false))
    } else {
        let mut m = owned("unknown field type `");
        push_str(&mut m, keyword);
        push_str(&mut m, "`; expected one of: pointer, string, u32, u64, i32, i64, filetime");
        Err(m)
    }
}

/// The `fileio_events!` event that a received record is read as: the first
/// declared `(opcode, version)` equal to the record's opcode and version; none
/// when no declaration has them. Kernel FileIo records carry their event type
/// in the opcode, which is what each declaration names.
pub fn fileio_variant(events: &Vec<(u8, u8)>, opcode: u8, version: u8) -> (r: Option<usize>)
    ensures
        match r {
            Some(i) => i < events@.len() && events@[i as int] == (opcode, version)
                && forall|k: int| 0 <= k < i ==> events@[k] != (opcode, version),
            None => forall|k: int| 0 <= k < events@.len() ==> events@[k] != (opcode, version),
        },
{
    let mut i: usize = 0;
    while i < events.len()
        invariant
            i <= events@.len(),
            forall|k: int| 0 <= k < i ==> events@[k] != (opcode, version),
        decreases events.len() - i,
    {
        if events[i].0 == opcode && events[i].1 == version {
            return Some(i);
        }
        i = i + 1;
    }
    None
}

/// How the `EtwEvent` derive reads one field.
#[derive(Debug, Clone, PartialEq, Eq)]
pub enum FieldRead {
    /// Skipped: the field takes its default value.
    Default,
    /// Parsed from the named property as the field's own type.
    Direct { prop: String },
    /// Parsed from the named property as the `parse_as` type, then converted by
    /// the `convert_with` function (`custom`) or by the field type's conversion.
    Converted { prop: String, custom: bool },
}

/// A field reading with its property name as text.
pub enum FieldReadView {
    Default,
    Direct(Seq<char>),
    Converted(Seq<char>, bool),
}

impl View for FieldRead {
    type V = FieldReadView;

    open spec fn view(&self) -> FieldReadView {
        match self {
            FieldRead::Default => FieldReadView::Default,
            FieldRead::Direct { prop } => FieldReadView::Direct(prop@),
            FieldRead::Converted { prop, custom } => FieldReadView::Converted(prop@, *custom),
        }
    }
}

/// How a field is read, from its `#[etw_prop(...)]` attribute (`has_attr`
/// false when it has none): a field without the attribute, or with
/// `convert_with` but no `parse_as`, is refused; a skipped field takes its
/// default; otherwise it is parsed from the named property, directly or through
/// `parse_as`.
pub open spec fn field_read_of(has_attr: bool, prop: Seq<char>, parse_as: bool, convert_with: bool, skip: bool) -> Result<
    FieldReadView,
    Seq<char>,
> {
    if !has_attr {
        Err("missing #[etw_prop(name = \"...\")] attribute on field"@)
    } else if convert_with && !parse_as {
        Err("`convert_with` requires `parse_as` to also be specified"@)
    } else if skip {
        Ok(FieldReadView::Default)
    } else if parse_as {
        Ok(FieldReadView::Converted(prop, convert_with))
    } else {
        Ok(FieldReadView::Direct(prop))
    }
}

/// How the `EtwEvent` derive reads a field.
pub fn field_read(has_attr: bool, prop: &str, parse_as: bool, convert_with: bool, skip: bool) -> (r: Result<
    FieldRead,
    String,
>)
    ensures
        match field_read_of(has_attr, prop@, parse_as, convert_with, skip) {
            Ok(v) => r matches Ok(f) && f@ == v,
            Err(m) => r matches Err(e) && e@ == m,
        },
{
    if !has_attr {
        Err(owned("missing #[etw_prop(name = \"...\")] attribute on field"))
    } else if convert_with && !parse_as {
        Err(owned("`convert_with` requires `parse_as` to also be specified"))
    } else if skip {
        Ok(FieldRead::Default)
    } else if parse_as {
        Ok(FieldRead::Converted { prop: owned(prop), custom: convert_with })
    } else {
        Ok(FieldRead::Direct { prop: owned(prop) })
    }
}

} // verus!
