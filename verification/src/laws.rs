//! Properties of the plugin as a whole, over the contracts of its commands.
use vstd::prelude::*;

use crate::cli::Command;
use crate::herdr::{Herdr, HerdrCall, PaneInfo};
use crate::registry::{
    spec_registry_key, LifecycleStatus, RuntimeHandle, ScopeRecord, ScratchpadRecord,
};
use crate::scratchpad::{
    close_effect, closed_record, deliver_effect, deliver_report, focus_effect, fresh_record, handled,
    hide_effect, is_active, keys_named, left_record, open_effect, open_outcome, opt_view, records,
    rename_all, rename_effect, requested_name, reused_record, shown_record, spec_normalize,
    spec_scope, spec_scope_kind, spec_session, spec_snapshot, spec_strings_of_json,
    spec_target_key, spec_with_current, status_effect, target_key, target_name, toggle_effect,
    asked_current, later_calls, live_check, live_calls, open_calls,
    InvocationContext, Output, ScratchApp, ScratchError,
};
use crate::config::{
    spec_direction_word, spec_placement_word, ScopeKind, ScratchpadPlacement, SplitDirection,
};
use crate::text::{is_white_space, trim, trim_end, trim_start};

verus! {

/// A command that fails leaves the registry as it was and asks for no save.
pub proof fn lemma_failure_keeps_registry<H: Herdr>(
    pre: ScratchApp<H>,
    post: ScratchApp<H>,
    command: Command,
    r: Result<Output, ScratchError>,
)
    requires
        handled(pre, post, command, r),
        r is Err,
    ensures
        post.spec_registry() == pre.spec_registry(),
        post.spec_save_pending() == pre.spec_save_pending(),
        post.spec_paths() == pre.spec_paths(),
        post.spec_context() == pre.spec_context(),
{
}

/// After `open` succeeds, or `toggle` succeeds in showing a scratchpad, the
/// scratchpad it addressed is visible and has a runtime handle: a stale
/// record is repaired, a missing one is made.
pub proof fn lemma_open_shows<H: Herdr>(
    pre: ScratchApp<H>,
    post: ScratchApp<H>,
    name: Seq<char>,
    key: Seq<char>,
    current: Option<PaneInfo>,
    r: Result<Output, ScratchError>,
)
    requires
        open_outcome(pre, post, name, key, current, r),
        r is Ok,
    ensures
        records(post).contains_key(key),
        records(post)[key].status == LifecycleStatus::Visible,
        records(post)[key].handle is Some,
        post.spec_save_pending(),
{
    let rec = choose|rec: ScratchpadRecord|
        #![trigger records(pre).insert(key, rec)]
        records(post) == records(pre).insert(key, rec) && (reused_record(pre, key, current, rec)
            || fresh_record(pre, name, key, current, rec));
    assert(records(post) == records(pre).insert(key, rec));
    if reused_record(pre, key, current, rec) {
        let t = choose|t: String|
            rec == shown_record(records(pre)[key], t, spec_snapshot(current));
        assert(rec == shown_record(records(pre)[key], t, spec_snapshot(current)));
    }
}

/// `open` shows the scratchpad it addresses (see `lemma_open_shows`).
pub proof fn lemma_open_command_shows<H: Herdr>(
    pre: ScratchApp<H>,
    post: ScratchApp<H>,
    requested: Option<Seq<char>>,
    current: Option<PaneInfo>,
    r: Result<Output, ScratchError>,
)
    requires
        open_effect(pre, post, requested, current, r),
        r is Ok,
    ensures
        records(post).contains_key(target_key(pre, requested, current)),
        records(post)[target_key(pre, requested, current)].status == LifecycleStatus::Visible,
        records(post)[target_key(pre, requested, current)].handle is Some,
{
    lemma_open_shows(
        pre,
        post,
        target_name(pre, requested),
        target_key(pre, requested, current),
        current,
        r,
    );
}

/// `toggle` on the scratchpad that is the current pane, when toggling
/// returns to the previous context, leaves it: it becomes available and
/// keeps its runtime.
pub proof fn lemma_toggle_leaves_active<H: Herdr>(
    pre: ScratchApp<H>,
    post: ScratchApp<H>,
    requested: Option<Seq<char>>,
    current: Option<PaneInfo>,
    r: Result<Output, ScratchError>,
)
    requires
        toggle_effect(pre, post, requested, current, r),
        spec_normalize(requested_name(pre.spec_config(), requested)) is Ok,
        is_active(pre, target_key(pre, requested, current), current),
        pre.spec_config().behavior.toggle_returns_to_previous,
    ensures
        r is Ok,
        records(post)[target_key(pre, requested, current)].status == LifecycleStatus::Available,
        records(post)[target_key(pre, requested, current)].handle == records(pre)[target_key(
            pre,
            requested,
            current,
        )].handle,
{
    let key = target_key(pre, requested, current);
    let t = choose|t: String| records(post) == records(pre).insert(key, left_record(records(pre)[key], t));
    assert(records(post) == records(pre).insert(key, left_record(records(pre)[key], t)));
}

/// `hide` leaves a known scratchpad without destroying it: it becomes
/// available and keeps its runtime handle.
pub proof fn lemma_hide_keeps_runtime<H: Herdr>(
    pre: ScratchApp<H>,
    post: ScratchApp<H>,
    requested: Option<Seq<char>>,
    current: Option<PaneInfo>,
    r: Result<Output, ScratchError>,
)
    requires
        hide_effect(pre, post, requested, current, r),
        spec_normalize(requested_name(pre.spec_config(), requested)) is Ok,
        records(pre).contains_key(target_key(pre, requested, current)),
    ensures
        records(post)[target_key(pre, requested, current)].status == LifecycleStatus::Available,
        records(post)[target_key(pre, requested, current)].handle == records(pre)[target_key(
            pre,
            requested,
            current,
        )].handle,
        post.spec_save_pending(),
{
    let key = target_key(pre, requested, current);
    let t = choose|t: String| records(post) == records(pre).insert(key, left_record(records(pre)[key], t));
    assert(records(post) == records(pre).insert(key, left_record(records(pre)[key], t)));
}

/// `close` on a known scratchpad forgets its runtime: it becomes closed and
/// has no handle.
pub proof fn lemma_close_forgets_runtime<H: Herdr>(
    pre: ScratchApp<H>,
    post: ScratchApp<H>,
    requested: Option<Seq<char>>,
    current: Option<PaneInfo>,
    r: Result<Output, ScratchError>,
)
    requires
        close_effect(pre, post, requested, current, r),
        spec_normalize(requested_name(pre.spec_config(), requested)) is Ok,
        records(pre).contains_key(target_key(pre, requested, current)),
    ensures
        r is Ok,
        records(post)[target_key(pre, requested, current)].status == LifecycleStatus::Closed,
        records(post)[target_key(pre, requested, current)].handle is None,
{
    let key = target_key(pre, requested, current);
    let t = choose|t: String| records(post) == records(pre).insert(key, closed_record(records(pre)[key], t));
    assert(records(post) == records(pre).insert(key, closed_record(records(pre)[key], t)));
}

/// Renaming the records under `keys` leaves no record named `old`, when every
/// record named `old` is under one of `keys` and the new name differs.
pub proof fn lemma_rename_all_clears(
    m: Map<Seq<char>, ScratchpadRecord>,
    keys: Seq<Seq<char>>,
    new: String,
    old: Seq<char>,
)
    requires
        new@ != old,
        forall|k: Seq<char>| #[trigger] m.contains_key(k) && m[k].name@ == old ==> keys.contains(k),
    ensures
        forall|k: Seq<char>| #[trigger] rename_all(m, keys, new).contains_key(k) ==> rename_all(m, keys, new)[k].name@ != old,
    decreases keys.len(),
{
    if keys.len() > 0 {
        let k0 = keys[0];
        let next = if m.contains_key(k0) {
            let rec = m[k0];
            m.remove(k0).insert(
                crate::registry::spec_registry_key(rec.scope, new@),
                ScratchpadRecord { name: new, ..rec },
            )
        } else {
            m
        };
        assert forall|k: Seq<char>| #[trigger] next.contains_key(k) && next[k].name@ == old implies keys.drop_first().contains(k) by {
            assert(m.contains_key(k) && m[k].name@ == old);
            assert(keys.contains(k));
            let j = choose|j: int| 0 <= j < keys.len() && keys[j] == k;
            if j == 0 {
                assert(k == k0);
                assert(!next.contains_key(k) || next[k].name@ != old);
            }
            assert(keys.drop_first()[j - 1] == k);
        }
        lemma_rename_all_clears(next, keys.drop_first(), new, old);
    }
}

/// After a successful `rename` to a different name, no record keeps the old
/// name.
pub proof fn lemma_rename_clears_old_name<H: Herdr>(
    pre: ScratchApp<H>,
    post: ScratchApp<H>,
    old: Seq<char>,
    new: Seq<char>,
    r: Result<Output, ScratchError>,
)
    requires
        rename_effect(pre, post, old, new, r),
        r is Ok,
        spec_normalize(new) != Ok::<Seq<char>, ScratchError>(old),
    ensures
        forall|k: Seq<char>| #[trigger] records(post).contains_key(k) ==> records(post)[k].name@ != old,
{
    let n = spec_normalize(new)->Ok_0;
    let keys = keys_named(pre, old);
    let s = choose|s: String|
        #![trigger rename_all(records(pre), keys, s)]
        s@ == n && records(post) == rename_all(records(pre), keys, s);
    let m = records(pre);
    let order = pre.spec_registry().scratchpads.key_order();
    assert forall|k: Seq<char>| #[trigger] m.contains_key(k) && m[k].name@ == old implies keys.contains(k) by {
        assert(order.contains(k));
        order.lemma_filter_contains_rev(crate::registry::named(m, old), k);
    }
    lemma_rename_all_clears(m, keys, s, old);
}

proof fn lemma_trim_start_shape(s: Seq<char>)
    ensures
        trim_start(s).len() == 0 || !is_white_space(trim_start(s)[0]),
        trim_start(trim_start(s)) == trim_start(s),
    decreases s.len(),
{
    if s.len() > 0 && is_white_space(s[0]) {
        lemma_trim_start_shape(s.drop_first());
    }
}

proof fn lemma_trim_end_keeps_start(s: Seq<char>)
    requires
        s.len() == 0 || !is_white_space(s[0]),
    ensures
        trim_end(s).len() == 0 || !is_white_space(trim_end(s)[0]),
        trim_end(s).len() == 0 || !is_white_space(trim_end(s).last()),
        trim_end(trim_end(s)) == trim_end(s),
        trim_start(trim_end(s)) == trim_end(s),
    decreases s.len(),
{
    if s.len() > 0 && is_white_space(s.last()) {
        let d = s.drop_last();
        if d.len() > 0 {
            assert(d[0] == s[0]);
        }
        lemma_trim_end_keeps_start(d);
    }
}

/// A scratchpad name is its own normal form: normalizing a valid name gives
/// it back unchanged.
pub proof fn lemma_normalize_idempotent(raw: Seq<char>)
    requires
        spec_normalize(raw) is Ok,
    ensures
        spec_normalize(spec_normalize(raw)->Ok_0) == spec_normalize(raw),
{
    lemma_trim_start_shape(raw);
    lemma_trim_end_keeps_start(trim_start(raw));
    let t = trim(raw);
    assert(trim(t) == t);
}

/// A session started with the environment of a new scratchpad whose command
/// list is not empty runs that command: its first word as the program and
/// the rest as arguments.
pub proof fn lemma_session_runs_command(
    env_value: String,
    command: Seq<Seq<char>>,
    shell: Seq<char>,
)
    requires
        spec_strings_of_json(env_value@) == Some(command),
        command.len() > 0,
    ensures
        spec_session(Some(env_value), shell) == (command[0], command.drop_first()),
{
}

/// Whether a text holds no colon.
pub open spec fn no_colon(s: Seq<char>) -> bool {
    forall|i: int| 0 <= i < s.len() ==> s[i] != ':'
}

/// Registry keys tell scratchpads apart: when scope kinds and names hold no
/// colon, equal keys come only from equal scopes and names.
pub proof fn lemma_registry_key_injective(
    s1: ScopeRecord,
    n1: Seq<char>,
    s2: ScopeRecord,
    n2: Seq<char>,
)
    requires
        no_colon(s1.kind@),
        no_colon(s2.kind@),
        no_colon(n1),
        no_colon(n2),
        spec_registry_key(s1, n1) == spec_registry_key(s2, n2),
    ensures
        s1.kind@ == s2.kind@,
        s1.key@ == s2.key@,
        n1 == n2,
{
    reveal_strlit(":");
    let c = ":"@;
    assert(c =~= seq![':']);
    let (k1, x1, k2, x2) = (s1.kind@, s1.key@, s2.kind@, s2.key@);
    let a = k1 + c + x1 + c + n1;
    let b = k2 + c + x2 + c + n2;
    assert(a == spec_registry_key(s1, n1));
    assert(b == spec_registry_key(s2, n2));
    assert(a.len() == b.len());
    if k1.len() < k2.len() {
        assert(a[k1.len() as int] == ':');
        assert(b[k1.len() as int] == k2[k1.len() as int]);
    }
    if k2.len() < k1.len() {
        assert(b[k2.len() as int] == ':');
        assert(a[k2.len() as int] == k1[k2.len() as int]);
    }
    assert(k1.len() == k2.len());
    assert(k1 =~= a.subrange(0, k1.len() as int));
    assert(k2 =~= b.subrange(0, k2.len() as int));
    let la = a.len() as int;
    if n1.len() < n2.len() {
        assert(a[la - n1.len() - 1] == ':');
        assert(b[la - n1.len() - 1] == n2[n2.len() - n1.len() - 1]);
    }
    if n2.len() < n1.len() {
        assert(b[la - n2.len() - 1] == ':');
        assert(a[la - n2.len() - 1] == n1[n1.len() - n2.len() - 1]);
    }
    assert(n1.len() == n2.len());
    assert(n1 =~= a.subrange(la - n1.len(), la));
    assert(n2 =~= b.subrange(la - n2.len(), la));
    assert(x1 =~= a.subrange(k1.len() as int + 1, la - n1.len() - 1));
    assert(x2 =~= b.subrange(k2.len() as int + 1, la - n2.len() - 1));
}

/// Two texts that end in a colon and a colon-free part split the same way.
proof fn lemma_last_segment(p: Seq<char>, a: Seq<char>, q: Seq<char>, b: Seq<char>)
    requires
        no_colon(a),
        no_colon(b),
        p + ":"@ + a == q + ":"@ + b,
    ensures
        a == b,
        p == q,
{
    reveal_strlit(":");
    let c = ":"@;
    assert(c =~= seq![':']);
    let x = p + c + a;
    let y = q + c + b;
    let l = x.len() as int;
    assert(y.len() == l);
    if a.len() < b.len() {
        assert(x[l - a.len() - 1] == ':');
        assert(y[l - a.len() - 1] == b[b.len() - a.len() - 1]);
    }
    if b.len() < a.len() {
        assert(y[l - b.len() - 1] == ':');
        assert(x[l - b.len() - 1] == a[a.len() - b.len() - 1]);
    }
    assert(a.len() == b.len());
    assert(a =~= x.subrange(l - a.len(), l));
    assert(b =~= y.subrange(l - b.len(), l));
    assert(p =~= x.subrange(0, p.len() as int));
    assert(q =~= y.subrange(0, q.len() as int));
}

/// Whether every record is kept under the key of its scope and name, and
/// scope kinds and names hold no colon (every command keeps this true when
/// the names it stores hold no colon: `lemma_commands_keep_well_keyed`).
pub open spec fn well_keyed(m: Map<Seq<char>, ScratchpadRecord>) -> bool {
    forall|k: Seq<char>|
        #[trigger] m.contains_key(k) ==> k == spec_registry_key(m[k].scope, m[k].name@) && no_colon(
            m[k].scope.kind@,
        ) && no_colon(m[k].name@)
}

/// Whether a key ends in `:name`.
pub open spec fn keyed_name(k: Seq<char>, name: Seq<char>) -> bool {
    exists|p: Seq<char>| k == p + ":"@ + name
}

/// The records after the record under `k0` is renamed to `new`.
pub open spec fn rename_step(m: Map<Seq<char>, ScratchpadRecord>, k0: Seq<char>, new: String) -> Map<Seq<char>, ScratchpadRecord> {
    m.remove(k0).insert(spec_registry_key(m[k0].scope, new@), renamed(m[k0], new))
}

/// The record `r`, renamed to `new`.
pub open spec fn renamed(r: ScratchpadRecord, new: String) -> ScratchpadRecord {
    ScratchpadRecord { name: new, ..r }
}

proof fn lemma_key_names(m: Map<Seq<char>, ScratchpadRecord>, k: Seq<char>, name: Seq<char>)
    requires
        well_keyed(m),
        m.contains_key(k),
        no_colon(name),
        keyed_name(k, name),
    ensures
        m[k].name@ == name,
{
    let p = choose|p: Seq<char>| k == p + ":"@ + name;
    let r = m[k];
    assert(k == (r.scope.kind@ + ":"@ + r.scope.key@) + ":"@ + r.name@);
    lemma_last_segment(p, name, r.scope.kind@ + ":"@ + r.scope.key@, r.name@);
}

proof fn lemma_rename_step(
    m: Map<Seq<char>, ScratchpadRecord>,
    k0: Seq<char>,
    new: String,
    old: Seq<char>,
)
    requires
        well_keyed(m),
        no_colon(new@),
        no_colon(old),
        new@ != old,
        m.contains_key(k0),
        keyed_name(k0, old),
    ensures
        well_keyed(rename_step(m, k0, new)),
        forall|k: Seq<char>| keyed_name(k, old) && k != k0 ==> (#[trigger] rename_step(m, k0, new).contains_key(k) == m.contains_key(k) && (m.contains_key(k) ==> rename_step(m, k0, new)[k] == m[k])),
{
    let r0 = m[k0];
    let n0 = spec_registry_key(r0.scope, new@);
    let m1 = m.remove(k0).insert(n0, renamed(r0, new));
    assert forall|k: Seq<char>| keyed_name(k, old) && k != k0 implies (#[trigger] m1.contains_key(k) == m.contains_key(k) && (m.contains_key(k) ==> m1[k] == m[k])) by {
        if k == n0 {
            let p = choose|p: Seq<char>| k == p + ":"@ + old;
            assert(n0 == (r0.scope.kind@ + ":"@ + r0.scope.key@) + ":"@ + new@);
            lemma_last_segment(p, old, r0.scope.kind@ + ":"@ + r0.scope.key@, new@);
        }
    }
    assert forall|k: Seq<char>| #[trigger] m1.contains_key(k) implies k == spec_registry_key(m1[k].scope, m1[k].name@) && no_colon(m1[k].scope.kind@) && no_colon(m1[k].name@) by {
        if k != n0 {
            assert(m.contains_key(k));
        }
    }
}

/// A renamed record that is already in place stays there while the rest
/// of the records named `old` are renamed.
proof fn lemma_rename_keeps(
    m: Map<Seq<char>, ScratchpadRecord>,
    keys: Seq<Seq<char>>,
    new: String,
    old: Seq<char>,
    k: Seq<char>,
    v: ScratchpadRecord,
)
    requires
        well_keyed(m),
        no_colon(new@),
        no_colon(old),
        new@ != old,
        forall|i: int| 0 <= i < keys.len() ==> keyed_name(#[trigger] keys[i], old),
        m.contains_key(k),
        m[k] == v,
        v.name == new,
        forall|i: int|
            0 <= i < keys.len() && m.contains_key(#[trigger] keys[i]) ==> !(m[keys[i]].scope.kind@
                == v.scope.kind@ && m[keys[i]].scope.key@ == v.scope.key@),
    ensures
        rename_all(m, keys, new).contains_key(k),
        rename_all(m, keys, new)[k] == v,
    decreases keys.len(),
{
    if keys.len() > 0 {
        let k0 = keys[0];
        assert(keyed_name(k0, old));
        if m.contains_key(k0) {
            let r0 = m[k0];
            lemma_key_names(m, k0, old);
            lemma_rename_step(m, k0, new, old);
            let n0 = spec_registry_key(r0.scope, new@);
            let m1 = m.remove(k0).insert(n0, renamed(r0, new));
            assert(k != k0);
            if n0 == k {
                assert(k == spec_registry_key(v.scope, v.name@));
                lemma_registry_key_injective(r0.scope, new@, v.scope, v.name@);
                assert(false);
            }
            let rest = keys.drop_first();
            assert forall|i: int| 0 <= i < rest.len() && m1.contains_key(#[trigger] rest[i]) implies !(m1[rest[i]].scope.kind@
                == v.scope.kind@ && m1[rest[i]].scope.key@ == v.scope.key@) by {
                assert(keys[i + 1] == rest[i]);
                assert(keyed_name(rest[i], old));
                if rest[i] == k0 {
                    assert(!m1.contains_key(k0) || k0 == n0);
                    if k0 == n0 {
                        let p = choose|p: Seq<char>| k0 == p + ":"@ + old;
                        assert(n0 == (r0.scope.kind@ + ":"@ + r0.scope.key@) + ":"@ + new@);
                        lemma_last_segment(p, old, r0.scope.kind@ + ":"@ + r0.scope.key@, new@);
                    }
                }
            }
            lemma_rename_keeps(m1, rest, new, old, k, v);
        } else {
            let rest = keys.drop_first();
            assert forall|i: int| 0 <= i < rest.len() implies keyed_name(#[trigger] rest[i], old) by {
                assert(keys[i + 1] == rest[i]);
            }
            assert forall|i: int| 0 <= i < rest.len() && m.contains_key(#[trigger] rest[i]) implies !(m[rest[i]].scope.kind@
                == v.scope.kind@ && m[rest[i]].scope.key@ == v.scope.key@) by {
                assert(keys[i + 1] == rest[i]);
            }
            lemma_rename_keeps(m, rest, new, old, k, v);
        }
    }
}

/// Renaming the records under `keys`, all keys of the name `old`, moves
/// each of them under the key of its scope and the new name, renamed and
/// otherwise unchanged, in a well-keyed registry.
pub proof fn lemma_rename_all_moves(
    m: Map<Seq<char>, ScratchpadRecord>,
    keys: Seq<Seq<char>>,
    new: String,
    old: Seq<char>,
)
    requires
        well_keyed(m),
        no_colon(new@),
        no_colon(old),
        new@ != old,
        forall|i: int| 0 <= i < keys.len() ==> keyed_name(#[trigger] keys[i], old),
    ensures
        forall|k: Seq<char>|
            #[trigger] m.contains_key(k) && keys.contains(k) ==> rename_all(m, keys, new).contains_key(
                spec_registry_key(m[k].scope, new@),
            ) && rename_all(m, keys, new)[spec_registry_key(m[k].scope, new@)] == renamed(
                m[k],
                new,
            ),
    decreases keys.len(),
{
    if keys.len() > 0 {
        let k0 = keys[0];
        let rest = keys.drop_first();
        assert forall|i: int| 0 <= i < rest.len() implies keyed_name(#[trigger] rest[i], old) by {
            assert(keys[i + 1] == rest[i]);
        }
        if m.contains_key(k0) {
            let r0 = m[k0];
            lemma_key_names(m, k0, old);
            lemma_rename_step(m, k0, new, old);
            let n0 = spec_registry_key(r0.scope, new@);
            let m1 = m.remove(k0).insert(n0, renamed(r0, new));
            lemma_rename_all_moves(m1, rest, new, old);
            assert forall|k: Seq<char>| #[trigger] m.contains_key(k) && keys.contains(k) implies rename_all(m, keys, new).contains_key(
                spec_registry_key(m[k].scope, new@),
            ) && rename_all(m, keys, new)[spec_registry_key(m[k].scope, new@)] == renamed(
                m[k],
                new,
            ) by {
                assert(rename_all(m, keys, new) == rename_all(m1, rest, new));
                if k == k0 {
                    assert forall|i: int| 0 <= i < rest.len() && m1.contains_key(#[trigger] rest[i]) implies !(m1[rest[i]].scope.kind@
                        == r0.scope.kind@ && m1[rest[i]].scope.key@ == r0.scope.key@) by {
                        assert(keyed_name(rest[i], old));
                        if rest[i] == n0 {
                            let p = choose|p: Seq<char>| rest[i] == p + ":"@ + old;
                            assert(n0 == (r0.scope.kind@ + ":"@ + r0.scope.key@) + ":"@ + new@);
                            lemma_last_segment(p, old, r0.scope.kind@ + ":"@ + r0.scope.key@, new@);
                        }
                        assert(rest[i] != k0);
                        assert(m.contains_key(rest[i]));
                        assert(m1[rest[i]] == m[rest[i]]);
                        lemma_key_names(m, rest[i], old);
                        if m[rest[i]].scope.kind@ == r0.scope.kind@ && m[rest[i]].scope.key@ == r0.scope.key@ {
                            assert(rest[i] == spec_registry_key(m[rest[i]].scope, old));
                            assert(k0 == spec_registry_key(r0.scope, old));
                            assert(rest[i] == k0);
                        }
                    }
                    lemma_rename_keeps(m1, rest, new, old, n0, renamed(r0, new));
                } else {
                    let j = choose|j: int| 0 <= j < keys.len() && keys[j] == k;
                    assert(j > 0);
                    assert(rest[j - 1] == k);
                    assert(rest.contains(k));
                    assert(keyed_name(k, old));
                    assert(m1 == rename_step(m, k0, new));
                    assert(rename_step(m, k0, new).contains_key(k));
                    assert(m1.contains_key(k) && m1[k] == m[k]);
                }
            }
        } else {
            lemma_rename_all_moves(m, rest, new, old);
            assert forall|k: Seq<char>| #[trigger] m.contains_key(k) && keys.contains(k) implies rest.contains(k) by {
                let j = choose|j: int| 0 <= j < keys.len() && keys[j] == k;
                assert(j > 0);
                assert(rest[j - 1] == k);
            }
        }
    }
}


/// Renaming the records under `keys` to the name they already have gives
/// each of them the new name string in place, and leaves the rest.
proof fn lemma_rename_same(m: Map<Seq<char>, ScratchpadRecord>, keys: Seq<Seq<char>>, new: String)
    requires
        well_keyed(m),
        forall|i: int| 0 <= i < keys.len() && m.contains_key(#[trigger] keys[i]) ==> m[keys[i]].name@ == new@,
    ensures
        forall|k: Seq<char>|
            #[trigger] m.contains_key(k) ==> rename_all(m, keys, new).contains_key(k) && rename_all(m, keys, new)[k]
                == (if keys.contains(k) { renamed(m[k], new) } else { m[k] }),
        well_keyed(rename_all(m, keys, new)),
    decreases keys.len(),
{
    if keys.len() > 0 {
        let k0 = keys[0];
        let rest = keys.drop_first();
        if m.contains_key(k0) {
            let r0 = m[k0];
            assert(r0.name@ == new@);
            assert(spec_registry_key(r0.scope, new@) == k0);
            let m1 = m.insert(k0, renamed(r0, new));
            assert(m.remove(k0).insert(k0, renamed(r0, new)) =~= m1);
            assert forall|k: Seq<char>| #[trigger] m1.contains_key(k) implies k == spec_registry_key(m1[k].scope, m1[k].name@)
                && no_colon(m1[k].scope.kind@) && no_colon(m1[k].name@) by {
                if k != k0 {
                    assert(m.contains_key(k));
                }
            }
            assert(rename_all(m, keys, new) == rename_all(m1, rest, new));
            assert forall|i: int| 0 <= i < rest.len() && m1.contains_key(#[trigger] rest[i]) implies m1[rest[i]].name@ == new@ by {
                assert(keys[i + 1] == rest[i]);
            }
            lemma_rename_same(m1, rest, new);
            assert forall|k: Seq<char>| #[trigger] m.contains_key(k) implies rename_all(m, keys, new).contains_key(k)
                && rename_all(m, keys, new)[k] == (if keys.contains(k) { renamed(m[k], new) } else { m[k] }) by {
                assert(m1.contains_key(k));
                if k == k0 {
                    assert(keys.contains(k));
                } else {
                    if keys.contains(k) {
                        let j = choose|j: int| 0 <= j < keys.len() && keys[j] == k;
                        assert(rest[j - 1] == k);
                    }
                    if rest.contains(k) {
                        let j = choose|j: int| 0 <= j < rest.len() && rest[j] == k;
                        assert(keys[j + 1] == k);
                    }
                }
            }
        } else {
            assert forall|i: int| 0 <= i < rest.len() && m.contains_key(#[trigger] rest[i]) implies m[rest[i]].name@ == new@ by {
                assert(keys[i + 1] == rest[i]);
            }
            lemma_rename_same(m, rest, new);
            assert forall|k: Seq<char>| #[trigger] m.contains_key(k) implies keys.contains(k) == rest.contains(k) by {
                if keys.contains(k) {
                    let j = choose|j: int| 0 <= j < keys.len() && keys[j] == k;
                    assert(j > 0);
                    assert(rest[j - 1] == k);
                }
                if rest.contains(k) {
                    let j = choose|j: int| 0 <= j < rest.len() && rest[j] == k;
                    assert(keys[j + 1] == k);
                }
            }
        }
    }
}

/// After a successful `rename` of `old` to a name with no colon, in a
/// well-keyed registry, every scratchpad that was named `old` is found under
/// the key of its scope and the new name, with the new name and all else as
/// it was.
pub proof fn lemma_rename_moves<H: Herdr>(
    pre: ScratchApp<H>,
    post: ScratchApp<H>,
    old: Seq<char>,
    new: Seq<char>,
    r: Result<Output, ScratchError>,
)
    requires
        rename_effect(pre, post, old, new, r),
        r is Ok,
        well_keyed(records(pre)),
        spec_normalize(new) is Ok ==> no_colon(spec_normalize(new)->Ok_0),
    ensures
        forall|k: Seq<char>|
            #[trigger] records(pre).contains_key(k) && records(pre)[k].name@ == old ==> {
                let nk = spec_registry_key(records(pre)[k].scope, spec_normalize(new)->Ok_0);
                &&& records(post).contains_key(nk)
                &&& records(post)[nk].name@ == spec_normalize(new)->Ok_0
                &&& records(post)[nk] == renamed(records(pre)[k], records(post)[nk].name)
            },
{
    let n = spec_normalize(new)->Ok_0;
    let keys = keys_named(pre, old);
    let s = choose|s: String|
        #![trigger rename_all(records(pre), keys, s)]
        s@ == n && records(post) == rename_all(records(pre), keys, s);
    let m = records(pre);
    lemma_keys_named(pre, old);
    if n == old {
        lemma_rename_same(m, keys, s);
    } else {
        assert forall|i: int| 0 <= i < keys.len() implies keyed_name(#[trigger] keys[i], old) by {
            let r = m[keys[i]];
            assert(keys[i] == (r.scope.kind@ + ":"@ + r.scope.key@) + ":"@ + old);
        }
        lemma_rename_all_moves(m, keys, s, old);
    }
}


/// Renaming the records under `keys`, all keys of the name `old`, to a
/// different colon-free name keeps a registry well keyed.
proof fn lemma_rename_all_well_keyed(
    m: Map<Seq<char>, ScratchpadRecord>,
    keys: Seq<Seq<char>>,
    new: String,
    old: Seq<char>,
)
    requires
        well_keyed(m),
        no_colon(new@),
        no_colon(old),
        new@ != old,
        forall|i: int| 0 <= i < keys.len() ==> keyed_name(#[trigger] keys[i], old),
    ensures
        well_keyed(rename_all(m, keys, new)),
    decreases keys.len(),
{
    if keys.len() > 0 {
        let k0 = keys[0];
        let rest = keys.drop_first();
        assert forall|i: int| 0 <= i < rest.len() implies keyed_name(#[trigger] rest[i], old) by {
            assert(keys[i + 1] == rest[i]);
        }
        if m.contains_key(k0) {
            lemma_rename_step(m, k0, new, old);
            let m1 = rename_step(m, k0, new);
            assert(rename_all(m, keys, new) == rename_all(m1, rest, new));
            lemma_rename_all_well_keyed(m1, rest, new, old);
        } else {
            lemma_rename_all_well_keyed(m, rest, new, old);
        }
    }
}

/// The keys that `rename` visits are those of the records named `old`, in a
/// well-keyed registry each of them ends in `:old`, and `old` holds no colon
/// when there is one.
proof fn lemma_keys_named<H: Herdr>(pre: ScratchApp<H>, old: Seq<char>)
    requires
        well_keyed(records(pre)),
    ensures
        forall|i: int|
            0 <= i < keys_named(pre, old).len() ==> records(pre).contains_key(#[trigger] keys_named(pre, old)[i])
                && records(pre)[keys_named(pre, old)[i]].name@ == old,
        forall|k: Seq<char>|
            #[trigger] records(pre).contains_key(k) && records(pre)[k].name@ == old ==> keys_named(pre, old).contains(k),
        keys_named(pre, old).len() > 0 ==> no_colon(old),
        forall|i: int| 0 <= i < keys_named(pre, old).len() ==> keyed_name(#[trigger] keys_named(pre, old)[i], old),
{
    let keys = keys_named(pre, old);
    let m = records(pre);
    let order = pre.spec_registry().scratchpads.key_order();
    let named = crate::registry::named(m, old);
    assert forall|i: int| 0 <= i < keys.len() implies m.contains_key(#[trigger] keys[i]) && m[keys[i]].name@ == old by {
        order.lemma_filter_contains_rev(named, keys[i]);
        assert(keys.contains(keys[i]));
        broadcast use vstd::seq_lib::group_filter_ensures;
    }
    if keys.len() > 0 {
        assert(m.contains_key(keys[0]));
    }
    assert forall|k: Seq<char>| #[trigger] m.contains_key(k) && m[k].name@ == old implies keys.contains(k) by {
        assert(order.contains(k));
        order.lemma_filter_contains_rev(named, k);
    }
    assert forall|i: int| 0 <= i < keys.len() implies keyed_name(#[trigger] keys[i], old) by {
        let r = m[keys[i]];
        assert(keys[i] == (r.scope.kind@ + ":"@ + r.scope.key@) + ":"@ + old);
    }
}

/// Whether the name that `raw` gives, when it is a valid name, holds no colon.
pub open spec fn colon_free(raw: Seq<char>) -> bool {
    spec_normalize(raw) is Ok ==> no_colon(spec_normalize(raw)->Ok_0)
}

/// Whether the names under which a command may store a record hold no
/// colon: the scratchpad that `toggle` or `open` shows, and the new name of
/// `rename`.
pub open spec fn stores_colon_free<H: Herdr>(pre: ScratchApp<H>, command: Command) -> bool {
    match command {
        Command::Toggle(a) => colon_free(requested_name(pre.spec_config(), opt_view(a.name))),
        Command::Open(a) => colon_free(requested_name(pre.spec_config(), opt_view(a.name))),
        Command::Rename(a) => colon_free(a.new@),
        _ => true,
    }
}

proof fn lemma_scope_word_colon_free(kind: ScopeKind, c: InvocationContext)
    ensures
        no_colon(spec_scope(kind, c).0),
{
    reveal_strlit("global");
    reveal_strlit("workspace");
    reveal_strlit("cwd");
}

/// Showing a scratchpad keeps the registry well keyed when its name holds
/// no colon.
proof fn lemma_open_well_keyed<H: Herdr>(
    pre: ScratchApp<H>,
    post: ScratchApp<H>,
    name: Seq<char>,
    current: Option<PaneInfo>,
    r: Result<Output, ScratchError>,
)
    requires
        open_outcome(
            pre,
            post,
            name,
            spec_target_key(pre.spec_config(), pre.spec_context(), name, current),
            current,
            r,
        ),
        well_keyed(records(pre)),
        no_colon(name),
    ensures
        well_keyed(records(post)),
{
    let key = spec_target_key(pre.spec_config(), pre.spec_context(), name, current);
    if r is Ok {
        let rec = choose|rec: ScratchpadRecord|
            #![trigger records(pre).insert(key, rec)]
            records(post) == records(pre).insert(key, rec) && (reused_record(pre, key, current, rec)
                || fresh_record(pre, name, key, current, rec));
        if !reused_record(pre, key, current, rec) {
            let config = pre.spec_config();
            lemma_scope_word_colon_free(
                spec_scope_kind(config, name),
                spec_with_current(pre.spec_context(), current),
            );
            assert(key == spec_registry_key(rec.scope, rec.name@));
        }
        assert forall|k: Seq<char>| #[trigger] records(post).contains_key(k) implies k == spec_registry_key(
            records(post)[k].scope,
            records(post)[k].name@,
        ) && no_colon(records(post)[k].scope.kind@) && no_colon(records(post)[k].name@) by {
            if k != key {
                assert(records(pre).contains_key(k));
            }
        }
    }
}

/// Every command keeps the registry well keyed: a record stays under the
/// key of its scope and name, provided the names it stores records under
/// hold no colon.
pub proof fn lemma_commands_keep_well_keyed<H: Herdr>(
    pre: ScratchApp<H>,
    post: ScratchApp<H>,
    command: Command,
    r: Result<Output, ScratchError>,
)
    requires
        handled(pre, post, command, r),
        well_keyed(records(pre)),
        stores_colon_free(pre, command),
    ensures
        well_keyed(records(post)),
{
    let m = records(pre);
    match command {
        Command::Toggle(a) => {
            let req = opt_view(a.name);
            let cur = asked_current(pre, post);
            if spec_normalize(requested_name(pre.spec_config(), req)) is Ok {
                let name = target_name(pre, req);
                let key = target_key(pre, req, cur);
                if is_active(pre, key, cur) && pre.spec_config().behavior.toggle_returns_to_previous {
                    lemma_update_well_keyed(pre, post, key);
                } else {
                    lemma_open_well_keyed(pre, post, name, cur, r);
                }
            }
        },
        Command::Open(a) => {
            let req = opt_view(a.name);
            let cur = asked_current(pre, post);
            if spec_normalize(requested_name(pre.spec_config(), req)) is Ok {
                lemma_open_well_keyed(pre, post, target_name(pre, req), cur, r);
            }
        },
        Command::Focus(a) => {
            let req = opt_view(a.name);
            let cur = asked_current(pre, post);
            if spec_normalize(requested_name(pre.spec_config(), req)) is Ok {
                lemma_update_well_keyed(pre, post, target_key(pre, req, cur));
            }
        },
        Command::Hide(a) => {
            let req = opt_view(a.name);
            let cur = asked_current(pre, post);
            if spec_normalize(requested_name(pre.spec_config(), req)) is Ok {
                lemma_update_well_keyed(pre, post, target_key(pre, req, cur));
            }
        },
        Command::Close(a) => {
            let req = opt_view(a.name);
            let cur = asked_current(pre, post);
            if spec_normalize(requested_name(pre.spec_config(), req)) is Ok {
                lemma_update_well_keyed(pre, post, target_key(pre, req, cur));
            }
        },
        Command::Rename(a) => {
            let old = a.old@;
            let keys = keys_named(pre, old);
            lemma_keys_named(pre, old);
            if spec_normalize(a.new@) is Ok && keys.len() > 0 {
                let n = spec_normalize(a.new@)->Ok_0;
                let s = choose|s: String|
                    #![trigger rename_all(m, keys, s)]
                    s@ == n && records(post) == rename_all(m, keys, s);
                if n == old {
                    lemma_rename_same(m, keys, s);
                } else {
                    lemma_rename_all_well_keyed(m, keys, s, old);
                }
            }
        },
        _ => {},
    }
}

/// A command that only updates the record under `key`, when there is one,
/// and keeps its name and scope, keeps the registry well keyed.
proof fn lemma_update_well_keyed<H: Herdr>(pre: ScratchApp<H>, post: ScratchApp<H>, key: Seq<char>)
    requires
        well_keyed(records(pre)),
        records(post) == records(pre) || (records(pre).contains_key(key) && exists|rec: ScratchpadRecord|
            #![trigger records(pre).insert(key, rec)]
            records(post) == records(pre).insert(key, rec) && rec.name == records(pre)[key].name
                && rec.scope == records(pre)[key].scope),
    ensures
        well_keyed(records(post)),
{
    if records(post) != records(pre) {
        let rec = choose|rec: ScratchpadRecord|
            #![trigger records(pre).insert(key, rec)]
            records(post) == records(pre).insert(key, rec) && rec.name == records(pre)[key].name
                && rec.scope == records(pre)[key].scope;
        assert forall|k: Seq<char>| #[trigger] records(post).contains_key(k) implies k == spec_registry_key(
            records(post)[k].scope,
            records(post)[k].name@,
        ) && no_colon(records(post)[k].scope.kind@) && no_colon(records(post)[k].name@) by {
            if k != key {
                assert(records(pre).contains_key(k));
            }
        }
    }
}

/// Herdr is asked to act on a runtime only once it was checked live: in
/// what a command that acts on a known runtime asks of Herdr, any operation
/// other than getting a pane or a tab comes right after liveness checks that
/// found the runtime live.
pub proof fn lemma_runtime_validated_before_use<H: Herdr>(
    pre: ScratchApp<H>,
    key: Seq<char>,
    r: Result<Output, ScratchError>,
    cs: Seq<HerdrCall>,
    act: spec_fn(RuntimeHandle, HerdrCall) -> bool,
    answer: spec_fn(HerdrCall) -> Result<(), crate::herdr::HerdrError>,
)
    requires
        live_calls(pre, key, r, cs, act, answer),
        records(pre).contains_key(key),
        records(pre)[key].handle is Some,
    ensures
        forall|i: int|
            0 <= i < cs.len() && !(cs[i] is PaneGet) && !(#[trigger] cs[i] is TabGet) ==> live_check(
                records(pre)[key].handle->Some_0,
                cs,
            ) == Some((i as nat, Ok::<(), ScratchError>(()))),
{
}

/// A live runtime is reused, not duplicated: when reuse is configured and
/// the recorded runtime was found live, showing the scratchpad asks Herdr to
/// open no new runtime, and on success the record keeps its runtime.
pub proof fn lemma_live_runtime_reused<H: Herdr>(
    pre: ScratchApp<H>,
    post: ScratchApp<H>,
    name: Seq<char>,
    key: Seq<char>,
    current: Option<PaneInfo>,
    command: Seq<Seq<char>>,
    r: Result<Output, ScratchError>,
    cs: Seq<HerdrCall>,
)
    requires
        open_calls(pre, post, name, key, current, command, r, cs),
        pre.spec_config().behavior.reuse_existing,
        records(pre).contains_key(key),
        records(pre)[key].handle is Some,
        live_check(records(pre)[key].handle->Some_0, cs) matches Some((_, lr)) && lr is Ok,
    ensures
        forall|i: int| 0 <= i < cs.len() ==> !(#[trigger] cs[i] is Open),
        r is Ok ==> records(post)[key].handle == records(pre)[key].handle,
        r is Ok ==> exists|t: String|
            records(post) == records(pre).insert(
                key,
                shown_record(records(pre)[key], t, spec_snapshot(current)),
            ),
        r is Ok ==> records(post)[key].status == LifecycleStatus::Visible,
        r is Ok ==> records(post)[key].previous_focus == match current {
            Some(c) => Some(
                crate::registry::FocusSnapshot {
                    pane_id: Some(c.pane_id),
                    focus_token: Some(c.tab_id),
                    workspace_id: Some(c.workspace_id),
                },
            ),
            None => None,
        },
{
    if r is Ok {
        let t = choose|t: String|
            records(post) == records(pre).insert(
                key,
                shown_record(records(pre)[key], t, spec_snapshot(current)),
            );
        assert(records(post)[key] == shown_record(records(pre)[key], t, spec_snapshot(current)));
    }
}

/// `hide` returns to the previous context: leaving a known scratchpad whose
/// record remembers where focus was asks Herdr to return there.
pub proof fn lemma_hide_returns_to_previous<H: Herdr>(
    pre: ScratchApp<H>,
    post: ScratchApp<H>,
    a: crate::cli::NameArg,
    r: Result<Output, ScratchError>,
)
    requires
        handled(pre, post, Command::Hide(a), r),
        spec_normalize(requested_name(pre.spec_config(), opt_view(a.name))) is Ok,
        records(pre).contains_key(target_key(pre, opt_view(a.name), asked_current(pre, post))),
        records(pre)[target_key(pre, opt_view(a.name), asked_current(pre, post))].previous_focus is Some,
    ensures
        later_calls(pre, post).len() == 1,
        later_calls(pre, post)[0] matches HerdrCall::FocusPrevious(p, _) && Some(p)
            == records(pre)[target_key(pre, opt_view(a.name), asked_current(pre, post))].previous_focus,
{
}

/// A placement's configuration word reads back as that placement: no other
/// placement has the same word, so parsing the word of `p` gives `p`.
pub proof fn lemma_placement_word_reads_back(p: ScratchpadPlacement, q: ScratchpadPlacement)
    requires
        spec_placement_word(q) == spec_placement_word(p),
    ensures
        q == p,
{
    reveal_strlit("split");
    reveal_strlit("tab");
    assert("split"@.len() != "tab"@.len());
}

/// A split direction's configuration word reads back as that direction.
pub proof fn lemma_direction_word_reads_back(d: SplitDirection, e: SplitDirection)
    requires
        spec_direction_word(e) == spec_direction_word(d),
    ensures
        e == d,
{
    reveal_strlit("right");
    reveal_strlit("down");
    assert("right"@.len() != "down"@.len());
}

/// Whether a runtime handle's pane id is the current pane's id.
pub open spec fn pane_is_current(handle: Option<RuntimeHandle>, current: Option<PaneInfo>) -> bool {
    match handle {
        Some(h) => match h.pane_id {
            Some(p) => match current {
                Some(c) => p@ == c.pane_id@,
                None => false,
            },
            None => false,
        },
        None => false,
    }
}

/// `toggle` shows a scratchpad whose recorded pane is not the current pane:
/// when the record has no pane, or its pane id differs from the current
/// pane's id (whatever the workspace), a successful toggle leaves the
/// scratchpad visible with a runtime, as `open` does.
pub proof fn lemma_toggle_shows_unless_current_pane<H: Herdr>(
    pre: ScratchApp<H>,
    post: ScratchApp<H>,
    a: crate::cli::OpenArgs,
    r: Result<Output, ScratchError>,
)
    requires
        handled(pre, post, Command::Toggle(a), r),
        r is Ok,
        spec_normalize(requested_name(pre.spec_config(), opt_view(a.name))) is Ok,
        !(records(pre).contains_key(target_key(pre, opt_view(a.name), asked_current(pre, post)))
            && pane_is_current(
            records(pre)[target_key(pre, opt_view(a.name), asked_current(pre, post))].handle,
            asked_current(pre, post),
        )),
    ensures
        records(post).contains_key(target_key(pre, opt_view(a.name), asked_current(pre, post))),
        records(post)[target_key(pre, opt_view(a.name), asked_current(pre, post))].status
            == LifecycleStatus::Visible,
        records(post)[target_key(pre, opt_view(a.name), asked_current(pre, post))].handle is Some,
{
    let req = opt_view(a.name);
    let cur = asked_current(pre, post);
    lemma_open_shows(pre, post, target_name(pre, req), target_key(pre, req, cur), cur, r);
}

/// `toggle` on the scratchpad whose recorded pane is the current pane
/// leaves it, when toggling returns to the previous context: it becomes
/// available and keeps its runtime.
pub proof fn lemma_toggle_leaves_current_pane<H: Herdr>(
    pre: ScratchApp<H>,
    post: ScratchApp<H>,
    a: crate::cli::OpenArgs,
    r: Result<Output, ScratchError>,
    p: String,
    c: PaneInfo,
)
    requires
        handled(pre, post, Command::Toggle(a), r),
        spec_normalize(requested_name(pre.spec_config(), opt_view(a.name))) is Ok,
        pre.spec_config().behavior.toggle_returns_to_previous,
        asked_current(pre, post) == Some(c),
        records(pre).contains_key(target_key(pre, opt_view(a.name), asked_current(pre, post))),
        records(pre)[target_key(pre, opt_view(a.name), asked_current(pre, post))].handle matches Some(h)
            && h.pane_id == Some(p),
        p@ == c.pane_id@,
    ensures
        r is Ok,
        records(post)[target_key(pre, opt_view(a.name), asked_current(pre, post))].status
            == LifecycleStatus::Available,
{
    let req = opt_view(a.name);
    let cur = asked_current(pre, post);
    let key = target_key(pre, req, cur);
    let t = choose|t: String| records(post) == records(pre).insert(key, left_record(records(pre)[key], t));
    assert(records(post) == records(pre).insert(key, left_record(records(pre)[key], t)));
}

/// A new scratchpad in the `context` start mode starts in the focused
/// pane's directory: when the invocation context, completed from the
/// current pane, has a focused-pane directory `d`, the record that `open`
/// makes for a scratchpad not yet known starts in `d`, whatever the
/// workspace's directory.
pub proof fn lemma_open_starts_in_focused_pane_dir<H: Herdr>(
    pre: ScratchApp<H>,
    post: ScratchApp<H>,
    a: crate::cli::OpenArgs,
    r: Result<Output, ScratchError>,
    d: String,
)
    requires
        handled(pre, post, Command::Open(a), r),
        r is Ok,
        spec_normalize(requested_name(pre.spec_config(), opt_view(a.name))) is Ok,
        !records(pre).contains_key(target_key(pre, opt_view(a.name), asked_current(pre, post))),
        crate::scratchpad::spec_profile_mode(
            pre.spec_config(),
            crate::scratchpad::spec_profile_name(pre.spec_config(), target_name(pre, opt_view(a.name))),
        ) == crate::config::CwdMode::Context,
        spec_with_current(pre.spec_context(), asked_current(pre, post)).focused_pane_cwd == Some(d),
    ensures
        records(post)[target_key(pre, opt_view(a.name), asked_current(pre, post))].cwd
            matches Some(x) && x@ == d@,
{
    let req = opt_view(a.name);
    let cur = asked_current(pre, post);
    let name = target_name(pre, req);
    let key = target_key(pre, req, cur);
    let rec = choose|rec: ScratchpadRecord|
        #![trigger records(pre).insert(key, rec)]
        records(post) == records(pre).insert(key, rec) && (reused_record(pre, key, cur, rec)
            || fresh_record(pre, name, key, cur, rec));
    assert(records(post)[key] == rec);
    assert(fresh_record(pre, name, key, cur, rec));
}

/// A scratchpad scoped to the working directory is keyed by the focused
/// pane's directory: when the completed context has a focused-pane
/// directory `d`, the key is `cwd:d:name`, whatever the workspace's
/// directory.
pub proof fn lemma_cwd_scope_is_focused_pane_dir<H: Herdr>(
    pre: ScratchApp<H>,
    requested: Option<Seq<char>>,
    current: Option<PaneInfo>,
    d: String,
)
    requires
        spec_normalize(requested_name(pre.spec_config(), requested)) is Ok,
        spec_scope_kind(pre.spec_config(), target_name(pre, requested)) == ScopeKind::Cwd,
        spec_with_current(pre.spec_context(), current).focused_pane_cwd == Some(d),
    ensures
        target_key(pre, requested, current) == "cwd"@ + ":"@ + d@ + ":"@ + target_name(pre, requested),
{
}

/// `focus` remembers where focus was: after a successful focus the record
/// holds the current pane, its tab as focus token, and its workspace (none
/// when Herdr could not say which pane is current).
pub proof fn lemma_focus_remembers_current_pane<H: Herdr>(
    pre: ScratchApp<H>,
    post: ScratchApp<H>,
    a: crate::cli::NameArg,
    r: Result<Output, ScratchError>,
)
    requires
        handled(pre, post, Command::Focus(a), r),
        r is Ok,
    ensures
        records(post)[target_key(pre, opt_view(a.name), asked_current(pre, post))].previous_focus
            == match asked_current(pre, post) {
            Some(c) => Some(
                crate::registry::FocusSnapshot {
                    pane_id: Some(c.pane_id),
                    focus_token: Some(c.tab_id),
                    workspace_id: Some(c.workspace_id),
                },
            ),
            None => None,
        },
        records(post)[target_key(pre, opt_view(a.name), asked_current(pre, post))].status
            == LifecycleStatus::Visible,
{
    let req = opt_view(a.name);
    let cur = asked_current(pre, post);
    let key = target_key(pre, req, cur);
    let t = choose|t: String|
        records(post) == records(pre).insert(key, shown_record(records(pre)[key], t, spec_snapshot(cur)));
    assert(records(post) == records(pre).insert(key, shown_record(records(pre)[key], t, spec_snapshot(cur))));
}

/// `send` types the text and never runs it: it asks Herdr for no command
/// run, and when it succeeds its last operation types the joined text into
/// the scratchpad's runtime.
pub proof fn lemma_send_types_without_running<H: Herdr>(
    pre: ScratchApp<H>,
    post: ScratchApp<H>,
    a: crate::cli::SendArgs,
    r: Result<Output, ScratchError>,
)
    requires
        handled(pre, post, Command::Send(a), r),
    ensures
        forall|i: int| 0 <= i < later_calls(pre, post).len() ==> !(#[trigger] later_calls(pre, post)[i] is RunCommand),
        r is Ok ==> later_calls(pre, post).len() >= 1 && (later_calls(pre, post).last() matches HerdrCall::SendText(
            g,
            t,
            _,
        ) && Some(g) == records(pre)[target_key(pre, Some(a.name@), asked_current(pre, post))].handle
            && t@ == crate::text::spec_join_words(crate::text::views(a.text@), " "@)),
{
    lemma_delivery_calls(pre, post, a.name@, crate::text::spec_join_words(crate::text::views(a.text@), " "@), false, r);
}

/// `run` runs the command and never only types it: it asks Herdr to type
/// no text, and when it succeeds its last operation runs the joined
/// command in the scratchpad's runtime.
pub proof fn lemma_run_runs_without_typing<H: Herdr>(
    pre: ScratchApp<H>,
    post: ScratchApp<H>,
    a: crate::cli::RunArgs,
    r: Result<Output, ScratchError>,
)
    requires
        handled(pre, post, Command::Run(a), r),
    ensures
        forall|i: int| 0 <= i < later_calls(pre, post).len() ==> !(#[trigger] later_calls(pre, post)[i] is SendText),
        r is Ok ==> later_calls(pre, post).len() >= 1 && (later_calls(pre, post).last() matches HerdrCall::RunCommand(
            g,
            t,
            _,
        ) && Some(g) == records(pre)[target_key(pre, Some(a.name@), asked_current(pre, post))].handle
            && t@ == crate::text::spec_join_words(crate::text::views(a.command@), " "@)),
{
    lemma_delivery_calls(pre, post, a.name@, crate::text::spec_join_words(crate::text::views(a.command@), " "@), true, r);
}

proof fn lemma_delivery_calls<H: Herdr>(
    pre: ScratchApp<H>,
    post: ScratchApp<H>,
    name: Seq<char>,
    text: Seq<char>,
    run: bool,
    r: Result<Output, ScratchError>,
)
    requires
        crate::scratchpad::deliver_asks(pre, name, asked_current(pre, post), text, run, r, later_calls(pre, post)),
        r is Ok ==> spec_normalize(name) is Ok && records(pre).contains_key(target_key(pre, Some(name), asked_current(pre, post)))
            && records(pre)[target_key(pre, Some(name), asked_current(pre, post))].handle is Some,
    ensures
        forall|i: int| 0 <= i < later_calls(pre, post).len() ==> !(#[trigger] later_calls(pre, post)[i] is PaneGet)
            && !(later_calls(pre, post)[i] is TabGet) ==> (if run {
                later_calls(pre, post)[i] is RunCommand
            } else {
                later_calls(pre, post)[i] is SendText
            }),
        r is Ok ==> later_calls(pre, post).len() >= 1 && (if run {
            later_calls(pre, post).last() matches HerdrCall::RunCommand(g, t, _) && Some(g)
                == records(pre)[target_key(pre, Some(name), asked_current(pre, post))].handle && t@ == text
        } else {
            later_calls(pre, post).last() matches HerdrCall::SendText(g, t, _) && Some(g)
                == records(pre)[target_key(pre, Some(name), asked_current(pre, post))].handle && t@ == text
        }),
{
}

/// Each lifecycle state has its own public word: two states with the same
/// word are the same state, and the word `available` belongs to the
/// available state alone.
pub proof fn lemma_status_words_tell_states_apart(s1: LifecycleStatus, s2: LifecycleStatus)
    ensures
        crate::registry::spec_status_word(s1) == crate::registry::spec_status_word(s2) ==> s1 == s2,
        crate::registry::spec_status_word(s1) == "available"@ <==> s1 == LifecycleStatus::Available,
{
    reveal_strlit("unknown");
    reveal_strlit("available");
    reveal_strlit("visible");
    reveal_strlit("hidden");
    reveal_strlit("stale");
    reveal_strlit("closed");
    reveal_strlit("error");
    assert("unknown"@[0] != "visible"@[0]);
    assert("hidden"@[0] != "closed"@[0]);
    assert("stale"@[0] != "error"@[0]);
}

/// `status` reports the state of a known scratchpad by its own word: the
/// state whose word it reports is the record's state, and it reports
/// `available` exactly when the record is available.
pub proof fn lemma_status_reports_the_state<H: Herdr>(
    pre: ScratchApp<H>,
    post: ScratchApp<H>,
    a: crate::cli::StatusArgs,
    r: Result<Output, ScratchError>,
    st: LifecycleStatus,
)
    requires
        handled(pre, post, Command::Status(a), r),
        r is Ok,
        records(pre).contains_key(target_key(pre, opt_view(a.name), asked_current(pre, post))),
    ensures
        ({
            let rec = records(pre)[target_key(pre, opt_view(a.name), asked_current(pre, post))];
            let word = match r {
                Ok(Output::Json(s)) => s.status@,
                Ok(Output::Scratchpads { scratchpads: v, .. }) => v@[0].status@,
                _ => Seq::empty(),
            };
            &&& (crate::registry::spec_status_word(st) == word <==> st == rec.status)
            &&& (word == "available"@ <==> rec.status == LifecycleStatus::Available)
        }),
{
    let cur = asked_current(pre, post);
    let key = target_key(pre, opt_view(a.name), cur);
    let s = choose|s: crate::scratchpad::ScratchpadSummary|
        #![trigger crate::scratchpad::reports_summary(r, a.json, s)]
        crate::scratchpad::reports_summary(r, a.json, s) && crate::scratchpad::status_summary(
            pre,
            target_name(pre, opt_view(a.name)),
            key,
            cur,
            s,
        );
    lemma_status_words_tell_states_apart(st, records(pre)[key].status);
    lemma_status_words_tell_states_apart(records(pre)[key].status, records(pre)[key].status);
}

} // verus!
