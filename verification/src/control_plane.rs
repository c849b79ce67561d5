//! Decisions the control-plane gRPC service makes on requests from Edges and
//! Workers: which registry command a report turns into, what a call-slot
//! request asks for and answers, and the SIP Contact `q` preference.

use crate::raft::types::{ExtensionContactRecord, RegistryCommand, WorkerRecord};
use crate::sorted_map::{lookup, SortedMap};
use crate::store::sql::{stores_cdr, CallRecordReport, Statement, Store};
use crate::text::{
    chars_of, digits_val, eq_ignore_case, eq_ignore_case_exec, i64_to_string,
    dec_i64, is_blank, is_digit, parse_u16, parse_u16_spec, split, split_once, split_once_str,
    split_str, to_owned, trim, trim_str,
};
use vstd::prelude::*;

verus! {

/// The registry key binding a tenant's extension to workers.
pub open spec fn extension_key_spec(tenant_id: Option<i64>, extension: Seq<char>) -> Seq<char> {
    "extension:"@ + match tenant_id {
        Some(id) => dec_i64(id),
        None => "global"@,
    } + ":"@ + extension
}

/// `extension:<tenant id or global>:<extension>`.
pub fn extension_affinity_key(tenant_id: Option<i64>, extension: &str) -> (r: String)
    ensures
        r@ == extension_key_spec(tenant_id, extension@),
{
    let mut r = to_owned("extension:");
    match tenant_id {
        Some(id) => {
            let t = i64_to_string(id);
            r.append(t.as_str());
        },
        None => r.append("global"),
    }
    r.append(":");
    r.append(extension);
    r
}

/// The decimal digits of `s`, in order.
pub open spec fn digits_of(s: Seq<char>) -> Seq<char>
    decreases s.len(),
{
    if s.len() == 0 {
        s
    } else if is_digit(s.last()) {
        digits_of(s.drop_last()).push(s.last())
    } else {
        digits_of(s.drop_last())
    }
}

/// `s` padded with `0`s on the right to three characters.
pub open spec fn pad3(s: Seq<char>) -> Seq<char>
    decreases 3 - s.len(),
{
    if s.len() >= 3 {
        s
    } else {
        pad3(s.push('0'))
    }
}

/// Thousandths in a fraction: its first three characters, digits only, padded to three.
pub open spec fn frac_thousandths(frac: Seq<char>) -> nat {
    digits_val(pad3(digits_of(if frac.len() <= 3 { frac } else { frac.take(3) })))
}

/// A SIP `q` value (`0`..`1`, up to three decimals) in thousandths: blank or
/// a malformed whole part gives none; a whole part of 1 or more gives 1000.
pub open spec fn parse_q_spec(value: Seq<char>) -> Option<u16> {
    let v = trim(value);
    if v.len() == 0 {
        None
    } else {
        let (whole, frac) = match split_once(v, '.') {
            Some(p) => p,
            None => (v, Seq::<char>::empty()),
        };
        match parse_u16_spec(whole) {
            None => None,
            Some(w) => if w >= 1 {
                Some(1000u16)
            } else if frac_thousandths(frac) <= 1000 {
                Some(frac_thousandths(frac) as u16)
            } else {
                Some(1000u16)
            },
        }
    }
}

/// Ten to the power `k`.
pub open spec fn pow10(k: nat) -> nat
    decreases k,
{
    if k == 0 {
        1
    } else {
        10 * pow10((k - 1) as nat)
    }
}

/// Parses a `q` value into thousandths.
pub fn parse_q_milli(value: &str) -> (r: Option<u16>)
    ensures
        r == parse_q_spec(value@),
        r matches Some(q) ==> q <= 1000,
{
    let v = trim_str(value);
    if v.as_str().is_empty() {
        return None;
    }
    let (whole, frac) = match split_once_str(v.as_str(), '.') {
        Some(p) => p,
        None => (to_owned(v.as_str()), String::new()),
    };
    let w = match parse_u16(whole.as_str()) {
        Some(w) => w,
        None => return None,
    };
    if w >= 1 {
        return Some(1000);
    }
    let fc = chars_of(frac.as_str());
    let ghost mut acc: Seq<char> = Seq::empty();
    let mut n: u16 = 0;
    let mut cnt: usize = 0;
    let mut i: usize = 0;
    while i < fc.len() && i < 3
        invariant
            fc@ == frac@,
            i <= 3,
            i <= fc@.len(),
            acc == digits_of(fc@.take(i as int)),
            cnt == acc.len(),
            cnt <= i,
            n == digits_val(acc),
            n < pow10(cnt as nat),
        decreases 3 - i,
    {
        let c = fc[i];
        proof {
            assert(fc@.take(i + 1).drop_last() =~= fc@.take(i as int));
            assert(fc@.take(i + 1).last() == c);
        }
        if '0' <= c && c <= '9' {
            let d: u16 = ((c as u32) - ('0' as u32)) as u16;
            proof {
                acc = acc.push(c);
                assert(acc.drop_last() =~= digits_of(fc@.take(i as int)));
                assert(pow10((cnt + 1) as nat) == 10 * pow10(cnt as nat));
                assert(n * 10 + d < pow10((cnt + 1) as nat)) by (nonlinear_arith)
                    requires
                        n < pow10(cnt as nat),
                        d < 10,
                        pow10((cnt + 1) as nat) == 10 * pow10(cnt as nat),
                ;
                assert(pow10(cnt as nat) <= 100) by {
                    assert(pow10(0) == 1);
                    assert(pow10(1) == 10);
                    assert(pow10(2) == 100);
                }
            }
            n = n * 10 + d;
            cnt = cnt + 1;
        }
        i = i + 1;
    }
    proof {
        if frac@.len() <= 3 {
            assert(fc@.take(i as int) =~= frac@);
        } else {
            assert(fc@.take(i as int) =~= frac@.take(3));
        }
    }
    let ghost digits = acc;
    while cnt < 3
        invariant
            cnt == acc.len(),
            cnt <= 3,
            pad3(acc) == pad3(digits),
            n == digits_val(acc),
            n < pow10(cnt as nat),
        decreases 3 - cnt,
    {
        proof {
            assert(pow10(0) == 1);
            assert(pow10(1) == 10);
            assert(pow10(2) == 100);
            assert(pow10(3) == 1000);
            let a2 = acc.push('0');
            assert(a2.drop_last() =~= acc);
            acc = a2;
        }
        n = n * 10;
        cnt = cnt + 1;
    }
    proof {
        assert(pow10(3) == 1000) by {
            assert(pow10(0) == 1);
            assert(pow10(1) == 10);
            assert(pow10(2) == 100);
        }
    }
    Some(n)
}

/// The `q` of the first `q=` parameter among `parts` that parses.
pub open spec fn q_from_parts(parts: Seq<Seq<char>>) -> Option<u16>
    decreases parts.len(),
{
    if parts.len() == 0 {
        None
    } else {
        let here = match split_once(parts[0], '=') {
            Some((k, v)) => if eq_ignore_case(trim(k), "q"@) {
                parse_q_spec(trim(v))
            } else {
                None
            },
            None => None,
        };
        match here {
            Some(q) => Some(q),
            None => q_from_parts(parts.drop_first()),
        }
    }
}

/// A Contact's preference in thousandths: the first well-formed `q` parameter, else 1000.
pub open spec fn contact_q_spec(contact: Seq<char>) -> u16 {
    match q_from_parts(split(contact, ';')) {
        Some(q) => q,
        None => 1000,
    }
}

/// The preference of a SIP Contact in thousandths.
pub fn contact_q_milli(contact: &str) -> (r: u16)
    ensures
        r == contact_q_spec(contact@),
        r <= 1000,
{
    let parts = split_str(contact, ';');
    let ghost ps = parts@.map_values(|x: String| x@);
    let mut i: usize = 0;
    assert(ps.skip(0) =~= ps);
    while i < parts.len()
        invariant
            i <= parts@.len(),
            ps == parts@.map_values(|x: String| x@),
            ps == split(contact@, ';'),
            q_from_parts(ps) == q_from_parts(ps.skip(i as int)),
        decreases parts@.len() - i,
    {
        let ghost rest = ps.skip(i as int);
        proof {
            assert(rest[0] == parts@[i as int]@);
            assert(rest.drop_first() =~= ps.skip(i + 1));
        }
        match split_once_str(parts[i].as_str(), '=') {
            Some((k, v)) => {
                let kt = trim_str(k.as_str());
                if eq_ignore_case_exec(kt.as_str(), "q") {
                    let vt = trim_str(v.as_str());
                    match parse_q_milli(vt.as_str()) {
                        Some(q) => {
                            return q;
                        },
                        None => {},
                    }
                }
            },
            None => {},
        }
        i = i + 1;
    }
    proof {
        assert(ps.skip(i as int).len() == 0);
    }
    1000
}

/// The registry command a worker's extension location report asks for, or why
/// it is refused: a zero expiry unbinds the worker, a blank contact binds the
/// worker until `now_ms` plus the expiry, and a contact binds it with that
/// contact and its preference.
pub open spec fn location_command_ok(
    tenant_id: Option<i64>,
    extension: Seq<char>,
    worker_id: Seq<char>,
    contact: Seq<char>,
    expires_secs: u32,
    now_ms: i64,
    cmd: RegistryCommand,
) -> bool {
    let key = extension_key_spec(tenant_id, trim(extension));
    let until = now_ms + expires_secs * 1000;
    if expires_secs == 0 {
        cmd matches RegistryCommand::UnbindAffinityWorker { affinity_key, worker_id: w }
            && affinity_key@ == key && w@ == worker_id
    } else if trim(contact).len() == 0 {
        cmd matches RegistryCommand::BindAffinity { affinity_key, worker_id: w, expires_at_ms }
            && affinity_key@ == key && w@ == worker_id && expires_at_ms == Some(until as i64)
    } else {
        cmd matches RegistryCommand::BindAffinityContact { affinity_key, worker_id: w, contact: c, q_milli, expires_at_ms }
            && affinity_key@ == key && w@ == worker_id && c@ == trim(contact) && q_milli == contact_q_spec(
            trim(contact),
        ) && expires_at_ms == until
    }
}

/// Turns an extension location report into a registry command. A blank
/// extension or worker id is refused. `now_ms` must leave room for the expiry.
pub fn extension_location_command(
    tenant_id: Option<i64>,
    extension: &str,
    worker_id: &str,
    contact: &str,
    expires_secs: u32,
    now_ms: i64,
) -> (r: Result<RegistryCommand, String>)
    requires
        now_ms <= i64::MAX - 4_294_967_296_000i64,
    ensures
        match r {
            Ok(cmd) => trim(extension@).len() > 0 && trim(worker_id@).len() > 0 && location_command_ok(
                tenant_id,
                extension@,
                worker_id@,
                contact@,
                expires_secs,
                now_ms,
                cmd,
            ),
            Err(_) => trim(extension@).len() == 0 || trim(worker_id@).len() == 0,
        },
{
    let ext = trim_str(extension);
    if ext.as_str().is_empty() || is_blank(worker_id) {
        return Err("extension and worker_id are required".to_string());
    }
    let key = extension_affinity_key(tenant_id, ext.as_str());
    if expires_secs == 0 {
        return Ok(RegistryCommand::UnbindAffinityWorker { affinity_key: key, worker_id: to_owned(worker_id) });
    }
    let until: i64 = now_ms + (expires_secs as i64) * 1000;
    let c = trim_str(contact);
    if c.as_str().is_empty() {
        Ok(RegistryCommand::BindAffinity { affinity_key: key, worker_id: to_owned(worker_id), expires_at_ms: Some(until) })
    } else {
        let q = contact_q_milli(c.as_str());
        Ok(
            RegistryCommand::BindAffinityContact {
                affinity_key: key,
                worker_id: to_owned(worker_id),
                contact: c,
                q_milli: q,
                expires_at_ms: until,
            },
        )
    }
}

/// Whether a call-slot request is capped by its tenant's quota: only tenant ids
/// above zero are; others are counted but never capped.
pub fn tenant_quota_applies(tenant_id: i64) -> (b: bool)
    ensures
        b == (tenant_id > 0),
{
    tenant_id > 0
}

/// The caps a call-slot request is checked against.
pub struct SlotPlan {
    /// The tenant cap (none: unlimited).
    pub max: Option<u32>,
    /// The trimmed source trunk name, when not blank.
    pub trunk_name: Option<String>,
    /// The trunk concurrency cap, when above zero.
    pub trunk_max: Option<u32>,
    /// The trunk calls-per-second cap, when above zero.
    pub trunk_max_cps: Option<u32>,
}

/// A cap kept only when above zero.
pub open spec fn positive_cap(c: Option<u32>) -> Option<u32> {
    match c {
        Some(m) => if m > 0 {
            Some(m)
        } else {
            None
        },
        None => None,
    }
}

fn keep_positive(c: Option<u32>) -> (r: Option<u32>)
    ensures
        r == positive_cap(c),
{
    match c {
        Some(m) => if m > 0 {
            Some(m)
        } else {
            None
        },
        None => None,
    }
}

/// The caps for a call-slot request: the tenant's quota (read only when it
/// applies), the trimmed non-blank trunk name, and the trunk caps above zero.
pub fn slot_plan(
    tenant_id: i64,
    tenant_max: Option<u32>,
    trunk_name: Option<&str>,
    trunk_max_calls: Option<u32>,
    trunk_max_cps: Option<u32>,
) -> (r: SlotPlan)
    ensures
        r.max == (if tenant_id > 0 { tenant_max } else { None }),
        match trunk_name {
            Some(n) => if trim(n@).len() > 0 {
                r.trunk_name matches Some(t) && t@ == trim(n@)
            } else {
                r.trunk_name is None
            },
            None => r.trunk_name is None,
        },
        r.trunk_max == positive_cap(trunk_max_calls),
        r.trunk_max_cps == positive_cap(trunk_max_cps),
{
    let max = if tenant_id > 0 {
        tenant_max
    } else {
        None
    };
    let name = match trunk_name {
        Some(n) => {
            let t = trim_str(n);
            if t.as_str().is_empty() {
                None
            } else {
                Some(t)
            }
        },
        None => None,
    };
    SlotPlan {
        max,
        trunk_name: name,
        trunk_max: keep_positive(trunk_max_calls),
        trunk_max_cps: keep_positive(trunk_max_cps),
    }
}

/// The answer to a call-slot request.
pub struct SlotReply {
    pub granted: bool,
    pub active: u32,
    /// The tenant cap, 0 for unlimited.
    pub max: u32,
    pub trunk_active: u32,
    /// The trunk cap, 0 for unlimited.
    pub trunk_max: u32,
    pub trunk_cps_active: u32,
    /// The trunk calls-per-second cap, 0 for unlimited.
    pub trunk_cps_max: u32,
}

/// The answer built from the registry's response and the caps asked for.
pub fn slot_reply(
    granted: bool,
    active: u32,
    trunk_active: u32,
    trunk_cps_active: u32,
    plan: &SlotPlan,
) -> (r: SlotReply)
    ensures
        r.granted == granted && r.active == active && r.trunk_active == trunk_active
            && r.trunk_cps_active == trunk_cps_active,
        r.max == (match plan.max {
            Some(m) => m,
            None => 0,
        }),
        r.trunk_max == (match plan.trunk_max {
            Some(m) => m,
            None => 0,
        }),
        r.trunk_cps_max == (match plan.trunk_max_cps {
            Some(m) => m,
            None => 0,
        }),
{
    SlotReply {
        granted,
        active,
        max: match plan.max {
            Some(m) => m,
            None => 0,
        },
        trunk_active,
        trunk_max: match plan.trunk_max {
            Some(m) => m,
            None => 0,
        },
        trunk_cps_active,
        trunk_cps_max: match plan.trunk_max_cps {
            Some(m) => m,
            None => 0,
        },
    }
}

/// Whether a heartbeat reply tells the sender to re-register (drain): exactly
/// when the registry did not know it.
pub fn heartbeat_drain(known: bool) -> (drain: bool)
    ensures
        drain == !known,
{
    !known
}

/// What has just happened while a Worker's call record report is handled.
pub enum CdrReportEvent {
    /// The report arrived.
    Received,
    /// The insert of the record ran; `ok` is whether the store accepted it.
    Persisted { ok: bool },
    /// The release of the call's slot ran; `ok` is whether the registry
    /// accepted it.
    SlotReleased { ok: bool },
}

/// What the service does next with a call record report.
pub enum CdrReportAction {
    /// Run this insert.
    Persist(Statement),
    /// Free the call slot held under this call id (nothing happens where
    /// none is held).
    ReleaseSlot(String),
    /// Answer the Worker; the flag is whether the report was accepted.
    Reply(bool),
}

/// The next step for a reported call record: store it, then free the call
/// slot taken at call setup, then acknowledge it. A failed insert still frees
/// the slot, and a failed release is still acknowledged as accepted: losing
/// a record is preferred to holding up the Worker.
pub fn cdr_report_step(rec: &CallRecordReport, event: CdrReportEvent) -> (r: CdrReportAction)
    ensures
        match event {
            CdrReportEvent::Received => r matches CdrReportAction::Persist(s) && stores_cdr(s, *rec),
            CdrReportEvent::Persisted { .. } => r matches CdrReportAction::ReleaseSlot(id) && id@ == rec.call_id@,
            CdrReportEvent::SlotReleased { .. } => r matches CdrReportAction::Reply(accepted) && accepted,
        },
{
    match event {
        CdrReportEvent::Received => CdrReportAction::Persist(Store::persist_cdr(rec)),
        CdrReportEvent::Persisted { .. } => CdrReportAction::ReleaseSlot(to_owned(rec.call_id.as_str())),
        CdrReportEvent::SlotReleased { .. } => CdrReportAction::Reply(true),
    }
}

/// A registered Contact handed out with a worker: its `q` in thousandths
/// and its expiry, never before the epoch.
pub struct OfferedContact {
    pub contact: String,
    pub q_milli: u32,
    pub expires_at_unix_ms: u64,
}

/// A worker offered to an Edge, with the Contacts of the asked-for extension
/// that it owns.
pub struct WorkerOffer {
    pub worker: WorkerRecord,
    pub extension_contacts: Vec<OfferedContact>,
}

/// Whether `o` is the offered form of `c`.
pub open spec fn offers_contact(o: OfferedContact, c: ExtensionContactRecord) -> bool {
    &&& o.contact@ == c.contact@
    &&& o.q_milli == c.q_milli
    &&& o.expires_at_unix_ms == (if c.expires_at_ms < 0 {
        0
    } else {
        c.expires_at_ms
    })
}

/// The Contacts of `worker_id` in a grouped table, none when it owns none.
pub open spec fn owned_contacts(
    contacts: Seq<(Seq<char>, Seq<ExtensionContactRecord>)>,
    worker_id: Seq<char>,
) -> Seq<ExtensionContactRecord> {
    match lookup(contacts, worker_id) {
        Some(v) => v,
        None => Seq::empty(),
    }
}

/// The offered form of one Contact.
pub fn offered_contact(c: &ExtensionContactRecord) -> (r: OfferedContact)
    ensures
        offers_contact(r, *c),
{
    let expires: u64 = if c.expires_at_ms < 0 {
        0
    } else {
        c.expires_at_ms as u64
    };
    OfferedContact { contact: to_owned(c.contact.as_str()), q_milli: c.q_milli as u32, expires_at_unix_ms: expires }
}

/// The affinity key of a worker query, when one is given and not blank.
pub fn affinity_requested(key: Option<&str>) -> (r: Option<&str>)
    ensures
        r == (match key {
            Some(k) => if trim(k@).len() == 0 {
                None::<&str>
            } else {
                Some(k)
            },
            None => None,
        }),
{
    match key {
        Some(k) => if is_blank(k) {
            None
        } else {
            Some(k)
        },
        None => None,
    }
}

/// The answer to a worker query: each worker in the order given, with the
/// Contacts it owns in the grouped table (none for a worker that owns none).
pub fn worker_offers(workers: Vec<WorkerRecord>, contacts: &SortedMap<Vec<ExtensionContactRecord>>) -> (r: Vec<WorkerOffer>)
    requires
        contacts.wf(),
    ensures
        r@.len() == workers@.len(),
        forall|i: int|
            0 <= i < r@.len() ==> (#[trigger] r@[i]).worker == workers@[i] && r@[i].extension_contacts@.len()
                == owned_contacts(contacts@, workers@[i].worker_id@).len() && forall|j: int|
                0 <= j < r@[i].extension_contacts@.len() ==> offers_contact(
                    #[trigger] r@[i].extension_contacts@[j],
                    owned_contacts(contacts@, workers@[i].worker_id@)[j],
                ),
{
    let ghost all = workers@;
    let mut rest = workers;
    let mut out: Vec<WorkerOffer> = Vec::new();
    let n = rest.len();
    let mut i: usize = 0;
    while i < n
        invariant
            n == all.len(),
            i <= n,
            rest@ == all.skip(i as int),
            contacts.wf(),
            out@.len() == i,
            forall|x: int|
                0 <= x < i ==> (#[trigger] out@[x]).worker == all[x] && out@[x].extension_contacts@.len()
                    == owned_contacts(contacts@, all[x].worker_id@).len() && forall|j: int|
                    0 <= j < out@[x].extension_contacts@.len() ==> offers_contact(
                        #[trigger] out@[x].extension_contacts@[j],
                        owned_contacts(contacts@, all[x].worker_id@)[j],
                    ),
        decreases n - i,
    {
        proof {
            assert(rest@[0] == all[i as int]);
        }
        let w = rest.remove(0);
        proof {
            assert(rest@ =~= all.skip(i + 1));
        }
        let mut offered: Vec<OfferedContact> = Vec::new();
        let ghost owned = owned_contacts(contacts@, w.worker_id@);
        match contacts.get(w.worker_id.as_str()) {
            Some(cs) => {
                assert(cs@ == owned);
                let mut j: usize = 0;
                while j < cs.len()
                    invariant
                        j <= cs@.len(),
                        cs@ == owned,
                        offered@.len() == j,
                        forall|y: int| 0 <= y < j ==> offers_contact(#[trigger] offered@[y], owned[y]),
                    decreases cs@.len() - j,
                {
                    offered.push(offered_contact(&cs[j]));
                    j = j + 1;
                }
            },
            None => {},
        }
        out.push(WorkerOffer { worker: w, extension_contacts: offered });
        i = i + 1;
    }
    out
}

} // verus!
