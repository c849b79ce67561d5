//! Internal call context carried from the Edge to a Worker in custom `X-*` SIP
//! headers. The Edge does ACL, auth and route matching, encodes its decision
//! here, and the Worker decodes it instead of routing again.

use crate::json::{json_value_text, value_text};
use crate::sorted_map::opt_view;
use crate::text::{
    dec, dec_i64, eq_ignore_case, eq_ignore_case_exec, i64_to_string, join, join_strs, lower_seq,
    lower_str, parse_i64, parse_i64_spec, parse_u64, parse_u64_spec, split, split_trim_nonempty,
    str_eq, trimmed_nonempty, u64_to_string, trim, lemma_parse_i64_dec, lemma_parse_u64_dec,
    lemma_split_join, lemma_trimmed_nonempty_id,
};
use vstd::prelude::*;

verus! {

pub const H_EDGE_ID: &'static str = "X-Edge-Id";
pub const H_TENANT_ID: &'static str = "X-Tenant-Id";
pub const H_TRUNK_NAME: &'static str = "X-Trunk-Name";
pub const H_TRUNK_ID: &'static str = "X-Trunk-Id";
pub const H_DIRECTION: &'static str = "X-Direction";
pub const H_ROUTE_ACTION: &'static str = "X-Route-Action";
pub const H_ORIGINAL_FROM: &'static str = "X-Original-From";
pub const H_ORIGINAL_TO: &'static str = "X-Original-To";
pub const H_TARGETS: &'static str = "X-Targets";
pub const H_DIAL_STRATEGY: &'static str = "X-Dial-Strategy";
pub const H_APP_NAME: &'static str = "X-App-Name";
pub const H_APP_PARAMS: &'static str = "X-App-Params";
pub const H_QUEUE_NAME: &'static str = "X-Queue-Name";
pub const H_RECORD: &'static str = "X-Record";
pub const H_MAX_DURATION: &'static str = "X-Max-Duration";

/// What the Edge decided to do with a call.
#[derive(Clone, Copy, PartialEq, Eq, Structural, Debug)]
pub enum RouteAction {
    Forward,
    Queue,
    Application,
}

/// The wire text of an action.
pub open spec fn route_action_text(a: RouteAction) -> Seq<char> {
    match a {
        RouteAction::Forward => "forward"@,
        RouteAction::Queue => "queue"@,
        RouteAction::Application => "application"@,
    }
}

/// The action named by `s`, ignoring ASCII case.
pub open spec fn route_action_of(s: Seq<char>) -> Option<RouteAction> {
    let l = lower_seq(s);
    if l == "forward"@ {
        Some(RouteAction::Forward)
    } else if l == "queue"@ {
        Some(RouteAction::Queue)
    } else if l == "application"@ {
        Some(RouteAction::Application)
    } else {
        None
    }
}

impl Default for RouteAction {
    fn default() -> (r: Self)
        ensures
            r == RouteAction::Forward,
    {
        RouteAction::Forward
    }
}

impl RouteAction {
    pub fn as_str(self) -> (r: &'static str)
        ensures
            r@ == route_action_text(self),
    {
        match self {
            RouteAction::Forward => "forward",
            RouteAction::Queue => "queue",
            RouteAction::Application => "application",
        }
    }

    pub fn from_str(s: &str) -> (r: Option<Self>)
        ensures
            r == route_action_of(s@),
    {
        let l = lower_str(s);
        if str_eq(l.as_str(), "forward") {
            Some(RouteAction::Forward)
        } else if str_eq(l.as_str(), "queue") {
            Some(RouteAction::Queue)
        } else if str_eq(l.as_str(), "application") {
            Some(RouteAction::Application)
        } else {
            None
        }
    }
}

/// Dial strategy for a forwarded call.
#[derive(Clone, Copy, PartialEq, Eq, Structural, Debug)]
pub enum DialStrategyKind {
    Sequential,
    Parallel,
}

/// The wire text of a dial strategy.
pub open spec fn strategy_text(d: DialStrategyKind) -> Seq<char> {
    match d {
        DialStrategyKind::Sequential => "sequential"@,
        DialStrategyKind::Parallel => "parallel"@,
    }
}

/// The strategy named by `s`: parallel when it says so (any ASCII case), else sequential.
pub open spec fn strategy_of(s: Seq<char>) -> DialStrategyKind {
    if lower_seq(s) == "parallel"@ {
        DialStrategyKind::Parallel
    } else {
        DialStrategyKind::Sequential
    }
}

impl Default for DialStrategyKind {
    fn default() -> (r: Self)
        ensures
            r == DialStrategyKind::Sequential,
    {
        DialStrategyKind::Sequential
    }
}

impl DialStrategyKind {
    pub fn as_str(self) -> (r: &'static str)
        ensures
            r@ == strategy_text(self),
    {
        match self {
            DialStrategyKind::Sequential => "sequential",
            DialStrategyKind::Parallel => "parallel",
        }
    }

    pub fn from_str(s: &str) -> (r: Self)
        ensures
            r == strategy_of(s@),
    {
        let l = lower_str(s);
        if str_eq(l.as_str(), "parallel") {
            DialStrategyKind::Parallel
        } else {
            DialStrategyKind::Sequential
        }
    }
}

/// Call direction as determined by the Edge.
#[derive(Clone, Copy, PartialEq, Eq, Structural, Debug)]
pub enum InternalDirection {
    Inbound,
    Outbound,
    Internal,
}

/// The wire text of a direction.
pub open spec fn direction_text(d: InternalDirection) -> Seq<char> {
    match d {
        InternalDirection::Inbound => "inbound"@,
        InternalDirection::Outbound => "outbound"@,
        InternalDirection::Internal => "internal"@,
    }
}

/// The direction named by `s`, ignoring ASCII case.
pub open spec fn direction_of(s: Seq<char>) -> Option<InternalDirection> {
    let l = lower_seq(s);
    if l == "inbound"@ {
        Some(InternalDirection::Inbound)
    } else if l == "outbound"@ {
        Some(InternalDirection::Outbound)
    } else if l == "internal"@ {
        Some(InternalDirection::Internal)
    } else {
        None
    }
}

impl Default for InternalDirection {
    fn default() -> (r: Self)
        ensures
            r == InternalDirection::Inbound,
    {
        InternalDirection::Inbound
    }
}

impl InternalDirection {
    pub fn as_str(self) -> (r: &'static str)
        ensures
            r@ == direction_text(self),
    {
        match self {
            InternalDirection::Inbound => "inbound",
            InternalDirection::Outbound => "outbound",
            InternalDirection::Internal => "internal",
        }
    }

    pub fn from_str(s: &str) -> (r: Option<Self>)
        ensures
            r == direction_of(s@),
    {
        let l = lower_str(s);
        if str_eq(l.as_str(), "inbound") {
            Some(InternalDirection::Inbound)
        } else if str_eq(l.as_str(), "outbound") {
            Some(InternalDirection::Outbound)
        } else if str_eq(l.as_str(), "internal") {
            Some(InternalDirection::Internal)
        } else {
            None
        }
    }
}

/// The routing decision propagated from Edge to Worker. URIs are full SIP URIs;
/// `app_params` holds the JSON text of the application parameters, which
/// decoding writes back in serde_json's compact form.
pub struct InternalCallContext {
    /// Edge instance identifier.
    pub edge_id: String,
    /// Tenant for CDR attribution and isolation.
    pub tenant_id: Option<i64>,
    /// Source trunk name (inbound) or selected trunk name (outbound).
    pub trunk_name: String,
    /// Optional trunk database id.
    pub trunk_id: Option<i64>,
    pub direction: InternalDirection,
    /// What the Worker should do.
    pub action: RouteAction,
    /// Caller URI before any rewrite.
    pub original_from: String,
    /// Callee URI before any rewrite.
    pub original_to: String,
    /// Target URIs for a forwarded call.
    pub targets: Vec<String>,
    pub dial_strategy: DialStrategyKind,
    /// Application name for an application call.
    pub app_name: Option<String>,
    /// JSON-encoded application parameters.
    pub app_params: Option<String>,
    /// Queue name for a queued call.
    pub queue_name: Option<String>,
    /// Whether the Worker records the call.
    pub record: bool,
    /// Maximum call duration in seconds.
    pub max_duration_secs: Option<u64>,
}

/// An `InternalCallContext` with its strings as character sequences.
pub ghost struct CallContextView {
    pub edge_id: Seq<char>,
    pub tenant_id: Option<i64>,
    pub trunk_name: Seq<char>,
    pub trunk_id: Option<i64>,
    pub direction: InternalDirection,
    pub action: RouteAction,
    pub original_from: Seq<char>,
    pub original_to: Seq<char>,
    pub targets: Seq<Seq<char>>,
    pub dial_strategy: DialStrategyKind,
    pub app_name: Option<Seq<char>>,
    pub app_params: Option<Seq<char>>,
    pub queue_name: Option<Seq<char>>,
    pub record: bool,
    pub max_duration_secs: Option<u64>,
}

impl View for InternalCallContext {
    type V = CallContextView;

    open spec fn view(&self) -> CallContextView {
        CallContextView {
            edge_id: self.edge_id@,
            tenant_id: self.tenant_id,
            trunk_name: self.trunk_name@,
            trunk_id: self.trunk_id,
            direction: self.direction,
            action: self.action,
            original_from: self.original_from@,
            original_to: self.original_to@,
            targets: self.targets@.map_values(|t: String| t@),
            dial_strategy: self.dial_strategy,
            app_name: opt_view(self.app_name),
            app_params: opt_view(self.app_params),
            queue_name: opt_view(self.queue_name),
            record: self.record,
            max_duration_secs: self.max_duration_secs,
        }
    }
}

impl Default for InternalCallContext {
    fn default() -> (r: Self)
        ensures
            r@ == (CallContextView {
                edge_id: Seq::empty(),
                tenant_id: None,
                trunk_name: Seq::empty(),
                trunk_id: None,
                direction: InternalDirection::Inbound,
                action: RouteAction::Forward,
                original_from: Seq::empty(),
                original_to: Seq::empty(),
                targets: Seq::empty(),
                dial_strategy: DialStrategyKind::Sequential,
                app_name: None,
                app_params: None,
                queue_name: None,
                record: false,
                max_duration_secs: None,
            }),
    {
        let r = InternalCallContext {
            edge_id: String::new(),
            tenant_id: None,
            trunk_name: String::new(),
            trunk_id: None,
            direction: InternalDirection::Inbound,
            action: RouteAction::Forward,
            original_from: String::new(),
            original_to: String::new(),
            targets: Vec::new(),
            dial_strategy: DialStrategyKind::Sequential,
            app_name: None,
            app_params: None,
            queue_name: None,
            record: false,
            max_duration_secs: None,
        };
        assert(r@.targets =~= Seq::<Seq<char>>::empty());
        r
    }
}

/// The header names, in the order they are written.
pub open spec fn header_names() -> Seq<Seq<char>> {
    seq![
        "X-Edge-Id"@,
        "X-Tenant-Id"@,
        "X-Trunk-Name"@,
        "X-Trunk-Id"@,
        "X-Direction"@,
        "X-Route-Action"@,
        "X-Original-From"@,
        "X-Original-To"@,
        "X-Targets"@,
        "X-Dial-Strategy"@,
        "X-App-Name"@,
        "X-App-Params"@,
        "X-Queue-Name"@,
        "X-Record"@,
        "X-Max-Duration"@,
    ]
}

/// A text field as written: none when it is empty.
pub open spec fn unless_empty(v: Seq<char>) -> Option<Seq<char>> {
    if v.len() > 0 {
        Some(v)
    } else {
        None
    }
}

/// An optional text field as written: none when absent or empty.
pub open spec fn opt_unless_empty(v: Option<Seq<char>>) -> Option<Seq<char>> {
    match v {
        Some(x) => unless_empty(x),
        None => None,
    }
}

/// The value written under each header name, or none when the header is left out:
/// empty and absent fields, the default dial strategy and a false record flag are omitted.
pub open spec fn header_values(c: CallContextView) -> Seq<Option<Seq<char>>> {
    seq![
        unless_empty(c.edge_id),
        match c.tenant_id {
            Some(t) => Some(dec_i64(t)),
            None => None,
        },
        unless_empty(c.trunk_name),
        match c.trunk_id {
            Some(t) => Some(dec_i64(t)),
            None => None,
        },
        Some(direction_text(c.direction)),
        Some(route_action_text(c.action)),
        unless_empty(c.original_from),
        unless_empty(c.original_to),
        unless_empty(join(c.targets, ',')),
        if c.dial_strategy != DialStrategyKind::Sequential {
            Some(strategy_text(c.dial_strategy))
        } else {
            None
        },
        opt_unless_empty(c.app_name),
        opt_unless_empty(c.app_params),
        opt_unless_empty(c.queue_name),
        if c.record {
            Some("true"@)
        } else {
            None
        },
        match c.max_duration_secs {
            Some(d) => Some(dec(d as nat)),
            None => None,
        },
    ]
}

/// The `(name, value)` pairs for the first `n` values that are present.
pub open spec fn present(names: Seq<Seq<char>>, vals: Seq<Option<Seq<char>>>, n: nat) -> Seq<(Seq<char>, Seq<char>)>
    decreases n,
{
    if n == 0 {
        Seq::empty()
    } else {
        let r = present(names, vals, (n - 1) as nat);
        match vals[n - 1] {
            Some(v) => r.push((names[n - 1], v)),
            None => r,
        }
    }
}

/// The headers that encode a context.
pub open spec fn header_pairs(c: CallContextView) -> Seq<(Seq<char>, Seq<char>)> {
    present(header_names(), header_values(c), 15)
}

/// The characters of each `(name, value)` pair.
pub open spec fn pairs_view(v: Seq<(&str, String)>) -> Seq<(Seq<char>, Seq<char>)> {
    v.map_values(|p: (&str, String)| (p.0@, p.1@))
}

fn push_header(pairs: &mut Vec<(&'static str, String)>, name: &'static str, v: Option<String>)
    ensures
        pairs_view(final(pairs)@) == match v {
            Some(x) => pairs_view(old(pairs)@).push((name@, x@)),
            None => pairs_view(old(pairs)@),
        },
{
    match v {
        Some(x) => {
            let ghost before = pairs_view(pairs@);
            pairs.push((name, x));
            assert(pairs_view(pairs@) =~= before.push((name@, x@)));
        },
        None => {},
    }
}

fn non_empty(s: &String) -> (r: Option<String>)
    ensures
        opt_view(r) == unless_empty(s@),
{
    if s.as_str().is_empty() {
        None
    } else {
        Some(s.clone())
    }
}

fn opt_non_empty(o: &Option<String>) -> (r: Option<String>)
    ensures
        opt_view(r) == opt_unless_empty(opt_view(*o)),
{
    match o {
        Some(s) => non_empty(s),
        None => None,
    }
}

proof fn lemma_dec_nonempty(n: nat)
    ensures
        dec(n).len() > 0,
{
}

/// No header a context writes has an empty value.
proof fn lemma_values_nonempty(c: CallContextView)
    ensures
        forall|k: int| 0 <= k < 15 && (#[trigger] header_values(c)[k]) is Some ==> header_values(c)[k]->0.len() > 0,
{
    reveal_strlit("forward");
    reveal_strlit("queue");
    reveal_strlit("application");
    reveal_strlit("inbound");
    reveal_strlit("outbound");
    reveal_strlit("internal");
    reveal_strlit("sequential");
    reveal_strlit("parallel");
    reveal_strlit("true");
    match c.tenant_id {
        Some(t) => if t >= 0 {
            lemma_dec_nonempty(t as nat);
        },
        None => {},
    }
    match c.trunk_id {
        Some(t) => if t >= 0 {
            lemma_dec_nonempty(t as nat);
        },
        None => {},
    }
    match c.max_duration_secs {
        Some(d) => lemma_dec_nonempty(d as nat),
        None => {},
    }
    let v = header_values(c);
    assert forall|k: int| 0 <= k < 15 && (#[trigger] header_values(c)[k]) is Some implies header_values(c)[k]->0.len() > 0 by {
        assert(v[1] == match c.tenant_id {
            Some(t) => Some(dec_i64(t)),
            None => None::<Seq<char>>,
        });
    }
}

/// The pairs of present values carry only non-empty values when every
/// present value is non-empty.
proof fn lemma_present_nonempty(names: Seq<Seq<char>>, vals: Seq<Option<Seq<char>>>, n: nat)
    requires
        n <= vals.len(),
        n <= names.len(),
        forall|k: int| 0 <= k < n && (#[trigger] vals[k]) is Some ==> vals[k]->0.len() > 0,
    ensures
        forall|i: int| 0 <= i < present(names, vals, n).len() ==> (#[trigger] present(names, vals, n)[i]).1.len() > 0,
    decreases n,
{
    if n > 0 {
        lemma_present_nonempty(names, vals, (n - 1) as nat);
        let r = present(names, vals, (n - 1) as nat);
        assert forall|i: int| 0 <= i < present(names, vals, n).len() implies (#[trigger] present(names, vals, n)[i]).1.len() > 0 by {
            if i < r.len() {
                match vals[n - 1] {
                    Some(v) => assert(r.push((names[n - 1], v))[i] == r[i]),
                    None => {},
                }
            }
        }
    }
}

impl InternalCallContext {
    /// The context as `(header name, value)` pairs; empty or absent fields are
    /// left out to keep the INVITE compact, so no pair has an empty value.
    pub fn to_header_pairs(&self) -> (r: Vec<(&'static str, String)>)
        ensures
            pairs_view(r@) == header_pairs(self@),
            forall|i: int| 0 <= i < r@.len() ==> (#[trigger] r@[i]).1@.len() > 0,
    {
        let ghost names = header_names();
        let ghost vals = header_values(self@);
        let mut pairs: Vec<(&'static str, String)> = Vec::new();
        assert(pairs_view(pairs@) =~= present(names, vals, 0));
        push_header(&mut pairs, H_EDGE_ID, non_empty(&self.edge_id));
        assert(pairs_view(pairs@) == present(names, vals, 1));
        push_header(
            &mut pairs,
            H_TENANT_ID,
            match self.tenant_id {
                Some(t) => Some(i64_to_string(t)),
                None => None,
            },
        );
        assert(pairs_view(pairs@) == present(names, vals, 2));
        push_header(&mut pairs, H_TRUNK_NAME, non_empty(&self.trunk_name));
        assert(pairs_view(pairs@) == present(names, vals, 3));
        push_header(
            &mut pairs,
            H_TRUNK_ID,
            match self.trunk_id {
                Some(t) => Some(i64_to_string(t)),
                None => None,
            },
        );
        assert(pairs_view(pairs@) == present(names, vals, 4));
        push_header(&mut pairs, H_DIRECTION, Some(self.direction.as_str().to_string()));
        assert(pairs_view(pairs@) == present(names, vals, 5));
        push_header(&mut pairs, H_ROUTE_ACTION, Some(self.action.as_str().to_string()));
        assert(pairs_view(pairs@) == present(names, vals, 6));
        push_header(&mut pairs, H_ORIGINAL_FROM, non_empty(&self.original_from));
        assert(pairs_view(pairs@) == present(names, vals, 7));
        push_header(&mut pairs, H_ORIGINAL_TO, non_empty(&self.original_to));
        assert(pairs_view(pairs@) == present(names, vals, 8));
        let joined = join_strs(self.targets.as_slice(), ',');
        push_header(&mut pairs, H_TARGETS, non_empty(&joined));
        assert(pairs_view(pairs@) == present(names, vals, 9));
        push_header(
            &mut pairs,
            H_DIAL_STRATEGY,
            match self.dial_strategy {
                DialStrategyKind::Parallel => Some(self.dial_strategy.as_str().to_string()),
                DialStrategyKind::Sequential => None,
            },
        );
        assert(pairs_view(pairs@) == present(names, vals, 10));
        push_header(&mut pairs, H_APP_NAME, opt_non_empty(&self.app_name));
        assert(pairs_view(pairs@) == present(names, vals, 11));
        push_header(&mut pairs, H_APP_PARAMS, opt_non_empty(&self.app_params));
        assert(pairs_view(pairs@) == present(names, vals, 12));
        push_header(&mut pairs, H_QUEUE_NAME, opt_non_empty(&self.queue_name));
        assert(pairs_view(pairs@) == present(names, vals, 13));
        push_header(
            &mut pairs,
            H_RECORD,
            if self.record {
                Some("true".to_string())
            } else {
                None
            },
        );
        assert(pairs_view(pairs@) == present(names, vals, 14));
        push_header(
            &mut pairs,
            H_MAX_DURATION,
            match self.max_duration_secs {
                Some(d) => Some(u64_to_string(d)),
                None => None,
            },
        );
        assert(pairs_view(pairs@) == present(names, vals, 15));
        proof {
            lemma_values_nonempty(self@);
            lemma_present_nonempty(names, vals, 15);
            assert forall|i: int| 0 <= i < pairs@.len() implies (#[trigger] pairs@[i]).1@.len() > 0 by {
                assert(pairs_view(pairs@)[i] == (pairs@[i].0@, pairs@[i].1@));
            }
        }
        pairs
    }
}

/// The value of the last pair named `name`, matching names without ASCII case.
pub open spec fn header_get(pairs: Seq<(Seq<char>, Seq<char>)>, name: Seq<char>) -> Option<Seq<char>>
    decreases pairs.len(),
{
    if pairs.len() == 0 {
        None
    } else if lower_seq(pairs.last().0) == lower_seq(name) {
        Some(pairs.last().1)
    } else {
        header_get(pairs.drop_last(), name)
    }
}

/// The characters of each `(name, value)` pair of borrowed strings.
pub open spec fn str_pairs_view(v: Seq<(&str, &str)>) -> Seq<(Seq<char>, Seq<char>)> {
    v.map_values(|p: (&str, &str)| (p.0@, p.1@))
}

fn get_header(pairs: &Vec<(&str, &str)>, name: &str) -> (r: Option<String>)
    ensures
        opt_view(r) == header_get(str_pairs_view(pairs@), name@),
{
    let ghost p = str_pairs_view(pairs@);
    let mut i: usize = pairs.len();
    assert(p.take(i as int) =~= p);
    while i > 0
        invariant
            i <= pairs@.len(),
            p == str_pairs_view(pairs@),
            header_get(p, name@) == header_get(p.take(i as int), name@),
        decreases i,
    {
        let (n, v) = pairs[i - 1];
        proof {
            assert(p.take(i as int).last() == (n@, v@));
            assert(p.take(i as int).drop_last() =~= p.take(i - 1));
        }
        if eq_ignore_case_exec(n, name) {
            return Some(v.to_string());
        }
        i = i - 1;
    }
    None
}

/// A parsed integer header, if present and well formed.
pub open spec fn i64_header(v: Option<Seq<char>>) -> Option<i64> {
    match v {
        Some(s) => parse_i64_spec(s),
        None => None,
    }
}

/// The context encoded by `pairs`, or none when the route action, the edge id
/// or the trunk name is missing or the action is unknown. Other fields fall
/// back to their defaults when missing or malformed; the application
/// parameters are kept as serde_json writes the JSON back (compact).
pub open spec fn decode_view(p: Seq<(Seq<char>, Seq<char>)>) -> Option<CallContextView> {
    let get = |n: Seq<char>| header_get(p, n);
    match get("X-Route-Action"@) {
        None => None,
        Some(a) => match (route_action_of(a), get("X-Edge-Id"@), get("X-Trunk-Name"@)) {
            (Some(action), Some(edge_id), Some(trunk_name)) => Some(
                CallContextView {
                    edge_id: edge_id,
                    tenant_id: i64_header(get("X-Tenant-Id"@)),
                    trunk_name: trunk_name,
                    trunk_id: i64_header(get("X-Trunk-Id"@)),
                    direction: match get("X-Direction"@) {
                        Some(d) => match direction_of(d) {
                            Some(x) => x,
                            None => InternalDirection::Inbound,
                        },
                        None => InternalDirection::Inbound,
                    },
                    action: action,
                    original_from: match get("X-Original-From"@) {
                        Some(v) => v,
                        None => Seq::empty(),
                    },
                    original_to: match get("X-Original-To"@) {
                        Some(v) => v,
                        None => Seq::empty(),
                    },
                    targets: match get("X-Targets"@) {
                        Some(v) => trimmed_nonempty(split(v, ',')),
                        None => Seq::empty(),
                    },
                    dial_strategy: match get("X-Dial-Strategy"@) {
                        Some(v) => strategy_of(v),
                        None => DialStrategyKind::Sequential,
                    },
                    app_name: get("X-App-Name"@),
                    app_params: match get("X-App-Params"@) {
                        Some(v) => json_value_text(v),
                        None => None,
                    },
                    queue_name: get("X-Queue-Name"@),
                    record: match get("X-Record"@) {
                        Some(v) => eq_ignore_case(v, "true"@) || v == "1"@,
                        None => false,
                    },
                    max_duration_secs: match get("X-Max-Duration"@) {
                        Some(v) => parse_u64_spec(v),
                        None => None,
                    },
                },
            ),
            _ => None,
        },
    }
}

impl InternalCallContext {
    /// Decodes a context from `(name, value)` header pairs, names matched without
    /// ASCII case and the last of repeated names winning. `None` when the
    /// required route action is absent (not an internal call from the Edge), the
    /// action is unknown, or the edge id or trunk name is missing.
    pub fn from_header_pairs(pairs: Vec<(&str, &str)>) -> (r: Option<Self>)
        ensures
            opt_view(r) == decode_view(str_pairs_view(pairs@)),
    {
        let action_str = match get_header(&pairs, H_ROUTE_ACTION) {
            Some(a) => a,
            None => return None,
        };
        let action = match RouteAction::from_str(action_str.as_str()) {
            Some(a) => a,
            None => return None,
        };
        let edge_id = match get_header(&pairs, H_EDGE_ID) {
            Some(e) => e,
            None => return None,
        };
        let trunk_name = match get_header(&pairs, H_TRUNK_NAME) {
            Some(t) => t,
            None => return None,
        };
        let direction = match get_header(&pairs, H_DIRECTION) {
            Some(d) => match InternalDirection::from_str(d.as_str()) {
                Some(x) => x,
                None => InternalDirection::Inbound,
            },
            None => InternalDirection::Inbound,
        };
        let original_from = match get_header(&pairs, H_ORIGINAL_FROM) {
            Some(v) => v,
            None => String::new(),
        };
        let original_to = match get_header(&pairs, H_ORIGINAL_TO) {
            Some(v) => v,
            None => String::new(),
        };
        let targets = match get_header(&pairs, H_TARGETS) {
            Some(v) => split_trim_nonempty(v.as_str(), ','),
            None => Vec::new(),
        };
        let dial_strategy = match get_header(&pairs, H_DIAL_STRATEGY) {
            Some(v) => DialStrategyKind::from_str(v.as_str()),
            None => DialStrategyKind::Sequential,
        };
        let tenant_id = match get_header(&pairs, H_TENANT_ID) {
            Some(v) => parse_i64(v.as_str()),
            None => None,
        };
        let trunk_id = match get_header(&pairs, H_TRUNK_ID) {
            Some(v) => parse_i64(v.as_str()),
            None => None,
        };
        let app_name = get_header(&pairs, H_APP_NAME);
        let app_params = match get_header(&pairs, H_APP_PARAMS) {
            Some(v) => value_text(v.as_str()),
            None => None,
        };
        let queue_name = get_header(&pairs, H_QUEUE_NAME);
        let record = match get_header(&pairs, H_RECORD) {
            Some(v) => eq_ignore_case_exec(v.as_str(), "true") || str_eq(v.as_str(), "1"),
            None => false,
        };
        let max_duration_secs = match get_header(&pairs, H_MAX_DURATION) {
            Some(v) => parse_u64(v.as_str()),
            None => None,
        };
        let r = InternalCallContext {
            edge_id,
            tenant_id,
            trunk_name,
            trunk_id,
            direction,
            action,
            original_from,
            original_to,
            targets,
            dial_strategy,
            app_name,
            app_params,
            queue_name,
            record,
            max_duration_secs,
        };
        let ghost d = decode_view(str_pairs_view(pairs@));
        assert(d is Some);
        assert(d->0.edge_id == r@.edge_id);
        assert(d->0.tenant_id == r@.tenant_id);
        assert(d->0.trunk_id == r@.trunk_id);
        assert(d->0.direction == r@.direction);
        assert(d->0.action == r@.action);
        assert(d->0.original_from == r@.original_from);
        assert(d->0.targets == r@.targets);
        assert(d->0.dial_strategy == r@.dial_strategy);
        assert(d->0.app_name == r@.app_name);
        assert(d->0.app_params == r@.app_params);
        assert(d->0.record == r@.record);
        assert(d->0.max_duration_secs == r@.max_duration_secs);
        Some(r)
    }
}

/// No two header names are the same when ASCII case is ignored.
proof fn lemma_names_distinct()
    ensures
        forall|i: int, j: int|
            0 <= i < 15 && 0 <= j < 15 && i != j ==> lower_seq(#[trigger] header_names()[i]) != lower_seq(
                #[trigger] header_names()[j],
            ),
{
    reveal_strlit("X-Edge-Id");
    reveal_strlit("X-Tenant-Id");
    reveal_strlit("X-Trunk-Name");
    reveal_strlit("X-Trunk-Id");
    reveal_strlit("X-Direction");
    reveal_strlit("X-Route-Action");
    reveal_strlit("X-Original-From");
    reveal_strlit("X-Original-To");
    reveal_strlit("X-Targets");
    reveal_strlit("X-Dial-Strategy");
    reveal_strlit("X-App-Name");
    reveal_strlit("X-App-Params");
    reveal_strlit("X-Queue-Name");
    reveal_strlit("X-Record");
    reveal_strlit("X-Max-Duration");
    let n = header_names();
    assert forall|i: int, j: int|
        0 <= i < 15 && 0 <= j < 15 && i != j implies lower_seq(#[trigger] n[i]) != lower_seq(#[trigger] n[j]) by {
        if n[i].len() == n[j].len() {
            assert(lower_seq(n[i])[2] != lower_seq(n[j])[2]);
        } else {
            assert(lower_seq(n[i]).len() != lower_seq(n[j]).len());
        }
    }
}

/// With distinct names, each name reads back the value written under it.
proof fn lemma_present_get(vals: Seq<Option<Seq<char>>>, n: nat, k: int)
    requires
        n <= 15,
        0 <= k < 15,
        forall|i: int, j: int|
            0 <= i < 15 && 0 <= j < 15 && i != j ==> lower_seq(#[trigger] header_names()[i]) != lower_seq(
                #[trigger] header_names()[j],
            ),
    ensures
        header_get(present(header_names(), vals, n), header_names()[k]) == (if k < n {
            vals[k]
        } else {
            None
        }),
    decreases n,
{
    if n > 0 {
        lemma_present_get(vals, (n - 1) as nat, k);
        let r = present(header_names(), vals, (n - 1) as nat);
        match vals[n - 1] {
            Some(v) => {
                let q = r.push((header_names()[n - 1], v));
                assert(q.last() == (header_names()[n - 1], v));
                assert(q.drop_last() =~= r);
            },
            None => {},
        }
    }
}

/// Every action, direction and dial strategy reads back from the text it is
/// written as.
pub proof fn law_wire_texts_roundtrip(a: RouteAction, d: InternalDirection, s: DialStrategyKind)
    ensures
        route_action_of(route_action_text(a)) == Some(a),
        direction_of(direction_text(d)) == Some(d),
        strategy_of(strategy_text(s)) == s,
{
    lemma_texts_lower(a, d, s);
    if s == DialStrategyKind::Sequential {
        reveal_strlit("sequential");
        reveal_strlit("parallel");
        assert(lower_seq("sequential"@).len() != "parallel"@.len());
    }
}

/// The texts of actions, directions and strategies are already lower case.
proof fn lemma_texts_lower(a: RouteAction, d: InternalDirection, s: DialStrategyKind)
    ensures
        route_action_of(route_action_text(a)) == Some(a),
        direction_of(direction_text(d)) == Some(d),
        s != DialStrategyKind::Sequential ==> strategy_of(strategy_text(s)) == s,
        eq_ignore_case("true"@, "true"@),
{
    reveal_strlit("forward");
    reveal_strlit("queue");
    reveal_strlit("application");
    reveal_strlit("inbound");
    reveal_strlit("outbound");
    reveal_strlit("internal");
    reveal_strlit("parallel");
    reveal_strlit("sequential");
    assert(lower_seq("forward"@) =~= "forward"@);
    assert(lower_seq("queue"@) =~= "queue"@);
    assert(lower_seq("application"@) =~= "application"@);
    assert(lower_seq("inbound"@) =~= "inbound"@);
    assert(lower_seq("outbound"@) =~= "outbound"@);
    assert(lower_seq("internal"@) =~= "internal"@);
    assert(lower_seq("parallel"@) =~= "parallel"@);
    assert("internal"@ != "outbound"@) by {
        assert("internal"@[0] != "outbound"@[0]);
    }
    assert("internal"@ != "inbound"@) by {
        assert("internal"@.len() != "inbound"@.len());
    }
    assert("outbound"@ != "inbound"@) by {
        assert("outbound"@.len() != "inbound"@.len());
    }
}

/// Decoding the headers of a context gives the context back, for contexts
/// with an edge id and a trunk name (which decoding needs and empty ones are
/// not written), whose targets are non-empty, trimmed and free of commas, and
/// whose application name, parameters and queue, if any, are not empty, the
/// parameters being JSON text in compact form.
pub proof fn law_headers_roundtrip(c: CallContextView)
    requires
        c.edge_id.len() > 0,
        c.trunk_name.len() > 0,
        forall|i: int|
            0 <= i < c.targets.len() ==> (#[trigger] c.targets[i]).len() > 0 && trim(c.targets[i]) == c.targets[i]
                && !c.targets[i].contains(','),
        c.app_name is Some ==> c.app_name->0.len() > 0,
        c.app_params is Some ==> json_value_text(c.app_params->0) == c.app_params && c.app_params->0.len() > 0,
        c.queue_name is Some ==> c.queue_name->0.len() > 0,
    ensures
        decode_view(header_pairs(c)) == Some(c),
{
    lemma_names_distinct();
    let vals = header_values(c);
    let p = header_pairs(c);
    assert forall|k: int| 0 <= k < 15 implies #[trigger] header_get(p, header_names()[k]) == vals[k] by {
        lemma_present_get(vals, 15, k);
    }
    assert(header_get(p, "X-Route-Action"@) == vals[5]);
    assert(header_get(p, "X-Edge-Id"@) == vals[0]);
    assert(header_get(p, "X-Tenant-Id"@) == vals[1]);
    assert(header_get(p, "X-Trunk-Name"@) == vals[2]);
    assert(header_get(p, "X-Trunk-Id"@) == vals[3]);
    assert(header_get(p, "X-Direction"@) == vals[4]);
    assert(header_get(p, "X-Original-From"@) == vals[6]);
    assert(header_get(p, "X-Original-To"@) == vals[7]);
    assert(header_get(p, "X-Targets"@) == vals[8]);
    assert(header_get(p, "X-Dial-Strategy"@) == vals[9]);
    assert(header_get(p, "X-App-Name"@) == vals[10]);
    assert(header_get(p, "X-App-Params"@) == vals[11]);
    assert(header_get(p, "X-Queue-Name"@) == vals[12]);
    assert(header_get(p, "X-Record"@) == vals[13]);
    assert(header_get(p, "X-Max-Duration"@) == vals[14]);
    lemma_texts_lower(c.action, c.direction, c.dial_strategy);
    match c.tenant_id {
        Some(t) => lemma_parse_i64_dec(t),
        None => {},
    }
    match c.trunk_id {
        Some(t) => lemma_parse_i64_dec(t),
        None => {},
    }
    match c.max_duration_secs {
        Some(d) => lemma_parse_u64_dec(d),
        None => {},
    }
    if c.targets.len() > 0 {
        lemma_split_join(c.targets, ',');
        lemma_trimmed_nonempty_id(c.targets);
        assert(c.targets[0].len() > 0);
        if c.targets.len() > 1 {
            assert(join(c.targets, ',') == c.targets[0] + seq![','] + join(c.targets.drop_first(), ','));
        }
        assert(join(c.targets, ',').len() > 0);
    } else {
        assert(join(c.targets, ',') =~= Seq::<char>::empty());
    }
    let d = decode_view(p)->0;
    assert(d.targets == c.targets);
    assert(d.edge_id == c.edge_id);
    assert(d.trunk_name == c.trunk_name);
    assert(d.original_from == c.original_from);
    assert(d.original_to == c.original_to);
    assert(d.app_name == c.app_name);
    assert(d.app_params == c.app_params);
    assert(d.queue_name == c.queue_name);
    assert(d == c);
}

} // verus!
