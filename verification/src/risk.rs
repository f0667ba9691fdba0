//! The service registry as the approval views read it: which actions a
//! service template declares and how risky each is, and the wire helpers
//! built on it (risk class, replay template key, detail truncation).

use vstd::prelude::*;
use vstd::utf8::is_char_boundary;
use vstd::string::StringSliceAdditionalSpecFns;
use crate::text::{chars_of, str_eq, to_owned_string};

verus! {

/// How much an action can change: reading, writing, or deleting.
#[derive(Debug, Clone, Copy, PartialEq, Eq, Structural)]
pub enum Risk {
    Read,
    Write,
    Delete,
}

/// The wire name of a risk.
pub open spec fn risk_name_spec(r: Risk) -> Seq<char> {
    match r {
        Risk::Read => "read"@,
        Risk::Write => "write"@,
        Risk::Delete => "delete"@,
    }
}

/// The risk a wire name stands for.
pub open spec fn parse_risk_spec(s: Seq<char>) -> Option<Risk> {
    if s == "read"@ {
        Some(Risk::Read)
    } else if s == "write"@ {
        Some(Risk::Write)
    } else if s == "delete"@ {
        Some(Risk::Delete)
    } else {
        None
    }
}

/// The rung of a risk on the `read < write < delete` ladder.
pub open spec fn risk_rank(r: Risk) -> int {
    match r {
        Risk::Read => 0,
        Risk::Write => 1,
        Risk::Delete => 2,
    }
}

/// The risks at or above `r`, lowest first.
pub open spec fn at_least_spec(r: Risk) -> Seq<Risk> {
    match r {
        Risk::Read => seq![Risk::Read, Risk::Write, Risk::Delete],
        Risk::Write => seq![Risk::Write, Risk::Delete],
        Risk::Delete => seq![Risk::Delete],
    }
}

impl Risk {
    /// Read a risk from its wire name (`read`, `write` or `delete`).
    pub fn parse(s: &str) -> (r: Option<Risk>)
        ensures
            r == parse_risk_spec(s@),
    {
        if str_eq(s, "read") {
            Some(Risk::Read)
        } else if str_eq(s, "write") {
            Some(Risk::Write)
        } else if str_eq(s, "delete") {
            Some(Risk::Delete)
        } else {
            None
        }
    }

    /// The wire name of this risk.
    pub fn name(&self) -> (s: String)
        ensures
            s@ == risk_name_spec(*self),
    {
        match self {
            Risk::Read => to_owned_string("read"),
            Risk::Write => to_owned_string("write"),
            Risk::Delete => to_owned_string("delete"),
        }
    }

    /// This risk and every higher one, lowest first.
    pub fn at_least(&self) -> (v: Vec<Risk>)
        ensures
            v@ == at_least_spec(*self),
    {
        let v = match self {
            Risk::Read => vec![Risk::Read, Risk::Write, Risk::Delete],
            Risk::Write => vec![Risk::Write, Risk::Delete],
            Risk::Delete => vec![Risk::Delete],
        };
        proof {
            assert(v@ =~= at_least_spec(*self));
        }
        v
    }
}

/// Naming a risk and reading the name back gives the same risk.
pub proof fn law_risk_name_round_trip(r: Risk)
    ensures
        parse_risk_spec(risk_name_spec(r)) == Some(r),
{
    reveal_strlit("read");
    reveal_strlit("write");
    reveal_strlit("delete");
    assert("read"@.len() == 4 && "write"@.len() == 5 && "delete"@.len() == 6);
}

/// `at_least(r)` holds exactly the risks ranked at or above `r`.
pub proof fn law_at_least_is_upward_closed(r: Risk, x: Risk)
    ensures
        at_least_spec(r).contains(x) <==> risk_rank(x) >= risk_rank(r),
{
    if risk_rank(x) >= risk_rank(r) {
        match r {
            Risk::Read => match x {
                Risk::Read => assert(at_least_spec(r)[0] == x),
                Risk::Write => assert(at_least_spec(r)[1] == x),
                Risk::Delete => assert(at_least_spec(r)[2] == x),
            },
            Risk::Write => match x {
                Risk::Write => assert(at_least_spec(r)[0] == x),
                Risk::Delete => assert(at_least_spec(r)[1] == x),
                Risk::Read => {},
            },
            Risk::Delete => assert(at_least_spec(r)[0] == x),
        }
    }
}

/// One action of a service template and its risk.
#[derive(Debug)]
pub struct ActionRisk {
    pub action: String,
    pub risk: Risk,
}

/// A service template: its key and its actions. Where an action name is
/// listed twice, its first entry counts.
#[derive(Debug)]
pub struct ServiceDefinition {
    pub key: String,
    pub actions: Vec<ActionRisk>,
}

/// The risk of `action` among `actions`, by its first entry.
pub open spec fn action_risk(actions: Seq<ActionRisk>, action: Seq<char>) -> Option<Risk>
    decreases actions.len(),
{
    if actions.len() == 0 {
        None
    } else if actions[0].action@ == action {
        Some(actions[0].risk)
    } else {
        action_risk(actions.skip(1), action)
    }
}

/// The risk looked up for an action is the risk recorded with that action:
/// a result is always the risk of an entry named `action`; there is a
/// result exactly when some entry is named `action`; and it is the risk of
/// the first such entry (for a template whose action names are distinct,
/// the one entry with that name).
pub proof fn law_action_risk_is_the_entry_risk(actions: Seq<ActionRisk>, action: Seq<char>)
    ensures
        action_risk(actions, action) matches Some(r) ==> exists|i: int|
            0 <= i < actions.len() && actions[i].action@ == action && actions[i].risk == r,
        action_risk(actions, action) is None <==> forall|i: int|
            0 <= i < actions.len() ==> actions[i].action@ != action,
        forall|i: int|
            0 <= i < actions.len() && #[trigger] actions[i].action@ == action && (forall|j: int|
                0 <= j < i ==> actions[j].action@ != action) ==> action_risk(actions, action) == Some(
                actions[i].risk,
            ),
    decreases actions.len(),
{
    if actions.len() > 0 {
        let rest = actions.skip(1);
        law_action_risk_is_the_entry_risk(rest, action);
        assert forall|i: int| 1 <= i < actions.len() implies actions[i] == rest[i - 1] by {}
        if actions[0].action@ != action {
            if action_risk(actions, action) is Some {
                let r = action_risk(actions, action)->0;
                let k = choose|k: int| 0 <= k < rest.len() && rest[k].action@ == action && rest[k].risk == r;
                assert(actions[k + 1] == rest[k]);
            }
            assert forall|i: int|
                0 <= i < actions.len() && #[trigger] actions[i].action@ == action && (forall|j: int|
                    0 <= j < i ==> actions[j].action@ != action) implies action_risk(actions, action) == Some(
                actions[i].risk,
            ) by {
                assert(i >= 1);
                assert(rest[i - 1].action@ == action);
                assert forall|j: int| 0 <= j < i - 1 implies rest[j].action@ != action by {
                    assert(rest[j] == actions[j + 1]);
                }
            }
            if action_risk(actions, action) is None {
                assert forall|i: int| 0 <= i < actions.len() implies actions[i].action@ != action by {
                    if i >= 1 {
                        assert(rest[i - 1] == actions[i]);
                    }
                }
            }
        }
    }
}

/// The registry's risk for an action of a template is the risk recorded
/// on an entry of that action in the registered template `key`.
pub proof fn law_registry_risk_is_recorded(reg: ServiceRegistry, key: Seq<char>, action: Seq<char>)
    ensures
        reg.risk_of(key, action) matches Some(r) ==> exists|s: int, i: int|
            0 <= s < reg.services().len() && reg.services()[s].key@ == key && 0 <= i
                < reg.services()[s].actions@.len() && reg.services()[s].actions@[i].action@ == action
                && reg.services()[s].actions@[i].risk == r,
{
    lemma_find_service(reg.services(), key);
    if let Some(s) = find_service(reg.services(), key) {
        law_action_risk_is_the_entry_risk(reg.services()[s].actions@, action);
    }
}

/// The first template among `services` whose key is `key`.
pub open spec fn find_service(services: Seq<ServiceDefinition>, key: Seq<char>) -> Option<int>
    decreases services.len(),
{
    if services.len() == 0 {
        None
    } else if services[0].key@ == key {
        Some(0)
    } else {
        match find_service(services.skip(1), key) {
            Some(i) => Some(i + 1),
            None => None,
        }
    }
}

proof fn lemma_find_service(services: Seq<ServiceDefinition>, key: Seq<char>)
    ensures
        find_service(services, key) matches Some(i) ==> 0 <= i < services.len()
            && services[i].key@ == key && forall|j: int| 0 <= j < i ==> services[j].key@ != key,
        find_service(services, key) is None ==> forall|j: int|
            0 <= j < services.len() ==> services[j].key@ != key,
    decreases services.len(),
{
    if services.len() > 0 {
        lemma_find_service(services.skip(1), key);
        assert forall|j: int| 1 <= j < services.len() implies services[j] == services.skip(1)[j - 1] by {}
    }
}

proof fn lemma_find_service_unique(services: Seq<ServiceDefinition>, key: Seq<char>, i: int)
    requires
        0 <= i < services.len(),
        services[i].key@ == key,
        forall|j: int| 0 <= j < i ==> services[j].key@ != key,
    ensures
        find_service(services, key) == Some(i),
    decreases services.len(),
{
    lemma_find_service(services, key);
    match find_service(services, key) {
        Some(k) => {
            if k < i {
            } else if k > i {
            }
        },
        None => {},
    }
}

/// The registry of service templates, keyed by template key.
pub struct ServiceRegistry {
    services: Vec<ServiceDefinition>,
}

impl ServiceRegistry {
    /// The templates, in insertion order.
    pub closed spec fn services(&self) -> Seq<ServiceDefinition> {
        self.services@
    }

    /// No two templates share a key.
    pub open spec fn wf(&self) -> bool {
        forall|i: int, j: int|
            0 <= i < j < self.services().len() ==> #[trigger] self.services()[i].key@
                != #[trigger] self.services()[j].key@
    }

    /// Whether a template with `key` is registered.
    pub open spec fn has_service(&self, key: Seq<char>) -> bool {
        find_service(self.services(), key) is Some
    }

    /// The risk the registry gives to `action` of the template `key`.
    pub open spec fn risk_of(&self, key: Seq<char>, action: Seq<char>) -> Option<Risk> {
        match find_service(self.services(), key) {
            Some(i) => action_risk(self.services()[i].actions@, action),
            None => None,
        }
    }

    /// An empty registry.
    pub fn new() -> (r: ServiceRegistry)
        ensures
            r.wf(),
            forall|k: Seq<char>| !r.has_service(k),
    {
        ServiceRegistry { services: Vec::new() }
    }

    /// The position of the template `key`, if registered.
    fn position(&self, key: &str) -> (r: Option<usize>)
        ensures
            r matches Some(i) ==> find_service(self.services(), key@) == Some(i as int) && i
                < self.services().len(),
            r is None ==> find_service(self.services(), key@) is None,
    {
        let mut i: usize = 0;
        while i < self.services.len()
            invariant
                i <= self.services@.len(),
                forall|j: int| 0 <= j < i ==> self.services@[j].key@ != key@,
            decreases self.services@.len() - i,
        {
            if str_eq(self.services[i].key.as_str(), key) {
                proof {
                    lemma_find_service_unique(self.services@, key@, i as int);
                }
                return Some(i);
            }
            i = i + 1;
        }
        proof {
            lemma_find_service(self.services@, key@);
            if find_service(self.services@, key@) is Some {
                let k = find_service(self.services@, key@)->0;
                assert(self.services@[k].key@ == key@);
            }
        }
        None
    }

    /// Whether a template with `key` is registered.
    pub fn contains(&self, key: &str) -> (r: bool)
        ensures
            r == self.has_service(key@),
    {
        self.position(key).is_some()
    }

    /// Register a template, replacing the one with the same key.
    pub fn insert(&mut self, def: ServiceDefinition)
        requires
            old(self).wf(),
        ensures
            final(self).wf(),
            final(self).has_service(def.key@),
            forall|a: Seq<char>| #[trigger] final(self).risk_of(def.key@, a) == action_risk(def.actions@, a),
            forall|k: Seq<char>, a: Seq<char>|
                k != def.key@ ==> #[trigger] final(self).risk_of(k, a) == old(self).risk_of(k, a),
            forall|k: Seq<char>|
                k != def.key@ ==> #[trigger] final(self).has_service(k) == old(self).has_service(k),
    {
        let ghost before = self.services@;
        let ghost key = def.key@;
        proof {
            lemma_find_service(before, key);
        }
        match self.position(def.key.as_str()) {
            Some(i) => {
                self.services.set(i, def);
                proof {
                    let after = self.services@;
                    assert forall|j: int| 0 <= j < i implies after[j].key@ != key by {}
                    lemma_find_service_unique(after, key, i as int);
                    assert forall|k: Seq<char>| k != key implies find_service(after, k) == find_service(before, k) by {
                        lemma_find_service(before, k);
                        lemma_find_service(after, k);
                        match find_service(before, k) {
                            Some(m) => {
                                assert(m != i);
                                lemma_find_service_unique(after, k, m);
                            },
                            None => {
                                if find_service(after, k) is Some {
                                    let m = find_service(after, k)->0;
                                    assert(after[m].key@ == before[m].key@ || m == i);
                                }
                            },
                        }
                    }
                    assert forall|k: Seq<char>, a: Seq<char>| k != key implies #[trigger] self.risk_of(k, a)
                        == old(self).risk_of(k, a) by {
                        lemma_find_service(before, k);
                        if find_service(before, k) is Some {
                            let m = find_service(before, k)->0;
                            assert(after[m] == before[m]);
                        }
                    }
                }
            },
            None => {
                self.services.push(def);
                proof {
                    let after = self.services@;
                    let n = before.len() as int;
                    assert forall|j: int| 0 <= j < n implies after[j].key@ != key by {
                        assert(after[j] == before[j]);
                    }
                    lemma_find_service_unique(after, key, n);
                    assert forall|k: Seq<char>| k != key implies find_service(after, k) == find_service(before, k) by {
                        lemma_find_service(before, k);
                        match find_service(before, k) {
                            Some(m) => {
                                assert forall|j: int| 0 <= j < m implies after[j].key@ != k by {
                                    assert(after[j] == before[j]);
                                }
                                lemma_find_service_unique(after, k, m);
                            },
                            None => {
                                lemma_find_service(after, k);
                                if find_service(after, k) is Some {
                                    let m = find_service(after, k)->0;
                                    if m < n {
                                        assert(after[m] == before[m]);
                                    }
                                }
                            },
                        }
                    }
                    assert forall|k: Seq<char>, a: Seq<char>| k != key implies #[trigger] self.risk_of(k, a)
                        == old(self).risk_of(k, a) by {
                        lemma_find_service(before, k);
                        if find_service(before, k) is Some {
                            let m = find_service(before, k)->0;
                            assert(after[m] == before[m]);
                        }
                    }
                }
            },
        }
    }

    /// The risk of `action` of the template `key`; `None` when either is
    /// unknown.
    pub fn action_risk(&self, key: &str, action: &str) -> (r: Option<Risk>)
        ensures
            r == self.risk_of(key@, action@),
    {
        match self.position(key) {
            Some(i) => {
                let actions = &self.services[i].actions;
                let mut j: usize = 0;
                proof {
                    assert(actions@.skip(0) =~= actions@);
                }
                while j < actions.len()
                    invariant
                        j <= actions@.len(),
                        i < self.services@.len(),
                        find_service(self.services@, key@) == Some(i as int),
                        actions@ == self.services@[i as int].actions@,
                        action_risk(actions@, action@) == action_risk(actions@.skip(j as int), action@),
                    decreases actions@.len() - j,
                {
                    proof {
                        assert(actions@.skip(j as int)[0] == actions@[j as int]);
                        assert(actions@.skip(j as int).skip(1) =~= actions@.skip(j + 1));
                    }
                    if str_eq(actions[j].action.as_str(), action) {
                        return Some(actions[j].risk);
                    }
                    j = j + 1;
                }
                None
            },
            None => None,
        }
    }
}

impl Default for ServiceRegistry {
    fn default() -> (r: ServiceRegistry)
        ensures
            r.wf(),
            forall|k: Seq<char>| !r.has_service(k),
    {
        ServiceRegistry::new()
    }
}

/// The class the dashboard shows for a risk: reads are low, writes medium,
/// deletes high, and an unknown risk medium, so that the interface errs
/// towards "review carefully".
pub open spec fn risk_class_spec(risk: Option<Risk>) -> Seq<char> {
    match risk {
        Some(Risk::Read) => "low"@,
        Some(Risk::Write) => "med"@,
        Some(Risk::Delete) => "high"@,
        None => "med"@,
    }
}

/// The dashboard class of a risk (`"low"`, `"med"` or `"high"`).
pub fn risk_class(risk: Option<Risk>) -> (r: String)
    ensures
        r@ == risk_class_spec(risk),
{
    match risk {
        Some(Risk::Read) => to_owned_string("low"),
        Some(Risk::Write) => to_owned_string("med"),
        Some(Risk::Delete) => to_owned_string("high"),
        None => to_owned_string("med"),
    }
}

/// A permission key an approval was requested under, by service template
/// and action.
#[derive(Debug, Clone)]
pub struct DerivedKey {
    pub service: String,
    pub action: String,
}

/// The risk class of an approval: that of the first derived key's action in
/// the live registry; `"med"` when there is no key, or the template or the
/// action has gone since the approval was written.
pub fn derive_risk_class(registry: &ServiceRegistry, derived_keys: &[DerivedKey]) -> (r: String)
    ensures
        derived_keys@.len() == 0 ==> r@ == "med"@,
        derived_keys@.len() > 0 ==> r@ == risk_class_spec(
            registry.risk_of(derived_keys@[0].service@, derived_keys@[0].action@),
        ),
{
    if derived_keys.len() == 0 {
        return to_owned_string("med");
    }
    let first = &derived_keys[0];
    let risk = registry.action_risk(first.service.as_str(), first.action.as_str());
    risk_class(risk)
}

/// The characters of `s` before the first `c` (all of `s` when there is
/// none), as `s.split(c).next()` gives them.
pub open spec fn before_first(s: Seq<char>, c: char) -> Seq<char>
    decreases s.len(),
{
    if s.len() == 0 || s[0] == c {
        Seq::empty()
    } else {
        seq![s[0]] + before_first(s.skip(1), c)
    }
}

/// The characters of `s` before the first `c`.
pub fn chars_before_first(s: &[char], c: char) -> (r: Vec<char>)
    ensures
        r@ == before_first(s@, c),
{
    let mut r: Vec<char> = Vec::new();
    let mut i: usize = 0;
    proof {
        assert(s@.skip(0) =~= s@);
    }
    while i < s.len() && s[i] != c
        invariant
            i <= s@.len(),
            before_first(s@, c) == r@ + before_first(s@.skip(i as int), c),
        decreases s@.len() - i,
    {
        proof {
            let t = s@.skip(i as int);
            assert(t[0] == s@[i as int]);
            assert(t.skip(1) =~= s@.skip(i + 1));
            assert(r@.push(s@[i as int]) + before_first(s@.skip(i + 1), c) =~= r@ + (seq![t[0]]
                + before_first(t.skip(1), c)));
        }
        r.push(s[i]);
        i = i + 1;
    }
    proof {
        let t = s@.skip(i as int);
        if i < s@.len() {
            assert(t[0] == s@[i as int]);
        }
        assert(r@ + before_first(t, c) =~= r@);
    }
    r
}

/// The template key an approval replay is filed under: the service part
/// (before the first `:`) of the first permission key, when it is not empty
/// and the registry knows it; else `"_unknown"`.
pub open spec fn replay_template_key_spec(registry: ServiceRegistry, permission_keys: Seq<Seq<char>>) -> Seq<char> {
    if permission_keys.len() > 0 && before_first(permission_keys[0], ':').len() > 0
        && registry.has_service(before_first(permission_keys[0], ':')) {
        before_first(permission_keys[0], ':')
    } else {
        "_unknown"@
    }
}

/// The template key an approval replay is filed under.
pub fn replay_template_key(registry: &ServiceRegistry, permission_keys: &[String]) -> (r: String)
    ensures
        r@ == replay_template_key_spec(*registry, permission_keys@.map_values(|k: String| k@)),
{
    if permission_keys.len() == 0 {
        return to_owned_string("_unknown");
    }
    let first = chars_of(permission_keys[0].as_str());
    let service = chars_before_first(first.as_slice(), ':');
    if service.len() == 0 {
        return to_owned_string("_unknown");
    }
    let name = crate::text::string_from_chars(service.as_slice());
    if registry.contains(name.as_str()) {
        name
    } else {
        to_owned_string("_unknown")
    }
}

/// The largest character boundary of `bytes` at or below `max`.
pub open spec fn boundary_at_most(bytes: Seq<u8>, max: int) -> int
    decreases max,
{
    if max <= 0 || is_char_boundary(bytes, max) {
        if max <= 0 { 0 } else { max }
    } else {
        boundary_at_most(bytes, max - 1)
    }
}

/// `s` cut to at most `max` bytes, backing off to a character boundary so
/// that no character is split.
pub fn truncate_utf8(s: &str, max: usize) -> (r: &str)
    requires
        s.spec_bytes().len() <= usize::MAX,
    ensures
        s.spec_bytes().len() <= max ==> r@ == s@,
        s.spec_bytes().len() > max ==> r.spec_bytes() == s.spec_bytes().take(
            boundary_at_most(s.spec_bytes(), max as int),
        ),
{
    if s.len() <= max {
        return s;
    }
    let mut idx = max;
    while idx > 0 && !s.is_char_boundary(idx)
        invariant
            idx <= max,
            boundary_at_most(s.spec_bytes(), max as int) == boundary_at_most(s.spec_bytes(), idx as int),
        decreases idx,
    {
        idx -= 1;
    }
    proof {
        vstd::utf8::encode_utf8_valid_utf8(s@);
        vstd::utf8::is_char_boundary_start_end_of_seq(s.spec_bytes());
    }
    let (head, _) = s.split_at(idx);
    head
}

/// The most bytes of a rendered action detail sent to the dashboard.
pub const MAX_ACTION_DETAIL_BYTES: usize = 102400;

/// A rendered action detail as sent: the text cut to the limit, whether it
/// was cut, and its full size in bytes; `(None, false, 0)` without detail.
pub fn render_action_detail(rendered: Option<&str>) -> (r: (Option<&str>, bool, usize))
    requires
        rendered matches Some(full) ==> full.spec_bytes().len() <= usize::MAX,
    ensures
        rendered is None ==> r == (None::<&str>, false, 0usize),
        rendered matches Some(full) ==> r.2 == full.spec_bytes().len() && r.1 == (full.spec_bytes().len()
            > MAX_ACTION_DETAIL_BYTES) && (r.0 matches Some(t) && (!r.1 ==> t@ == full@) && (r.1
            ==> t.spec_bytes() == full.spec_bytes().take(
            boundary_at_most(full.spec_bytes(), MAX_ACTION_DETAIL_BYTES as int),
        ))),
{
    match rendered {
        Some(full) => {
            let size = full.len();
            if size > MAX_ACTION_DETAIL_BYTES {
                let trimmed = truncate_utf8(full, MAX_ACTION_DETAIL_BYTES);
                (Some(trimmed), true, size)
            } else {
                (Some(full), false, size)
            }
        },
        None => (None, false, 0),
    }
}

/// The most bytes of a serialized execution result sent as it is.
pub const MAX_EXECUTION_RESULT_BYTES: usize = 262144;

/// Whether an execution result goes out as it is (`None`) or is replaced by
/// a marker carrying its size and the limit: only a result whose
/// serialization is over the limit is replaced; one that could not be
/// serialized goes out unchanged.
pub fn result_truncation(serialized_len: Option<usize>) -> (r: Option<(usize, usize)>)
    ensures
        r == (match serialized_len {
            Some(n) => if n > MAX_EXECUTION_RESULT_BYTES {
                Some((n, MAX_EXECUTION_RESULT_BYTES))
            } else {
                None::<(usize, usize)>
            },
            None => None::<(usize, usize)>,
        }),
{
    match serialized_len {
        Some(n) => if n > MAX_EXECUTION_RESULT_BYTES {
            Some((n, MAX_EXECUTION_RESULT_BYTES))
        } else {
            None
        },
        None => None,
    }
}

/// The runtime a stored execution result came from: its `runtime` field
/// when it has one as a string, else `"http"` when it carries a status
/// code, else unknown.
pub fn runtime_tag(runtime_field: Option<&str>, has_status_code: bool) -> (r: Option<String>)
    ensures
        runtime_field matches Some(t) ==> (r matches Some(v) && v@ == t@),
        runtime_field is None && has_status_code ==> (r matches Some(v) && v@ == "http"@),
        runtime_field is None && !has_status_code ==> r is None,
{
    match runtime_field {
        Some(t) => Some(to_owned_string(t)),
        None => {
            if has_status_code {
                Some(to_owned_string("http"))
            } else {
                None
            }
        },
    }
}

/// The HTTP status of a stored result: its numeric `status_code`, when it
/// fits in 16 bits.
pub fn http_status_code(status_code: Option<u64>) -> (r: Option<u16>)
    ensures
        r == (match status_code {
            Some(n) => if n <= u16::MAX { Some(n as u16) } else { None },
            None => None,
        }),
{
    match status_code {
        Some(n) => {
            if n <= 65535 {
                Some(n as u16)
            } else {
                None
            }
        },
        None => None,
    }
}

/// The runtime and HTTP status an execution summary shows for a stored
/// result: the runtime as `runtime_tag` reads it, and the status code only
/// when that runtime is `http`.
pub fn execution_probe(
    runtime_field: Option<&str>,
    has_status_code: bool,
    status_code: Option<u64>,
) -> (r: (Option<String>, Option<u16>))
    ensures
        runtime_field matches Some(t) ==> (r.0 matches Some(v) && v@ == t@),
        runtime_field is None && has_status_code ==> (r.0 matches Some(v) && v@ == "http"@),
        runtime_field is None && !has_status_code ==> r.0 is None,
        r.1 == (if (r.0 matches Some(v) && v@ == "http"@) {
            match status_code {
                Some(n) => if n <= u16::MAX { Some(n as u16) } else { None },
                None => None,
            }
        } else {
            None::<u16>
        }),
{
    let runtime = runtime_tag(runtime_field, has_status_code);
    let is_http = match &runtime {
        Some(v) => crate::text::str_eq(v.as_str(), "http"),
        None => false,
    };
    let code = if is_http { http_status_code(status_code) } else { None };
    (runtime, code)
}

} // verus!
