//! Engine-wide laws: properties that relate several operations, proved over
//! the same specification functions the operations' contracts use.

use vstd::prelude::*;

verus! {

use crate::engine::Trap;
use crate::parse::{lemma_store32_load, store32, u16_at, u32_at};
use crate::system::Call;
use crate::{
    alloc_id, alloc_rest, bind_channel, enable_portal, set_ready_list, spec_connect,
    spec_connect_entries, spec_fill_ready, spec_level, spec_log, spec_portal_of, spec_prompt,
    spec_run, spec_step, Command, Connect, StateModel,
};

/// Law: after the dispatcher fills the ready list, each of the `k` slots
/// starting at byte offset `ptr` holds the sentinel `0xFFFF_FFFF`, and no
/// other byte of guest memory changes.
///
/// Together with the dispatcher's own contract, this shows that a successful
/// `ar` call whose commands all completed synchronously returns 0 and leaves
/// the first `ready_capacity` slots of the ready list sentinel-filled.
pub proof fn lemma_fill_ready_sentinel(m: Seq<u8>, ptr: int, k: nat)
    requires
        0 <= ptr,
        ptr + 4 * k <= m.len(),
    ensures
        spec_fill_ready(m, ptr, k).len() == m.len(),
        forall|a: int|
            ptr <= a && a + 4 <= ptr + 4 * k && (a - ptr) % 4 == 0 ==> #[trigger] u32_at(
                spec_fill_ready(m, ptr, k),
                a,
            ) == 0xFFFF_FFFFu32,
        forall|j: int|
            0 <= j < m.len() && !(ptr <= j < ptr + 4 * k) ==> spec_fill_ready(m, ptr, k)[j]
                == m[j],
    decreases k,
{
    if k > 0 {
        let m1 = store32(m, ptr, 0xFFFF_FFFFu32);
        lemma_store32_load(m, ptr, 0xFFFF_FFFFu32);
        lemma_fill_ready_sentinel(m1, ptr + 4, (k - 1) as nat);
        let mf = spec_fill_ready(m, ptr, k);
        assert(u32_at(mf, ptr) == 0xFFFF_FFFFu32);
    }
}

/// Whether channel `c` is bound in state `s`.
pub open spec fn bound(s: StateModel, c: u32) -> bool {
    c < s.conn_channels.len() && s.conn_channels[c as int] is Some
}

/// Law: when processing `k` portal entries at offset `pd` succeeds, the
/// channel IDs written back into the portals array are pairwise distinct and
/// all at least 1; each is bound in the resulting state to exactly the
/// portal the original entry requested; none of them was bound before; and
/// every channel that was already bound keeps its binding.  Guest memory
/// outside the portals array is untouched.
pub proof fn lemma_connect_entries(s: StateModel, m: Seq<u8>, pd: int, k: nat)
    requires
        s.wf(),
        spec_connect_entries(s, m, pd, k) is Ok,
    ensures
        spec_connect_entries(s, m, pd, k) matches Ok((s2, m2)) ==> {
            &&& s2.wf()
            &&& m2.len() == m.len()
            &&& (k > 0 ==> 0 <= pd && pd + 4 * k <= m.len())
            &&& s.next_channel <= s2.next_channel
            &&& s.conn_channels.len() <= s2.conn_channels.len()
            &&& s2.ready_list == s.ready_list
            &&& (forall|c: u32| bound(s, c) ==> #[trigger] s2.conn_channels[c as int]
                == s.conn_channels[c as int])
            &&& (forall|j: int|
                0 <= j < m.len() && !(pd <= j < pd + 4 * k) ==> #[trigger] m2[j] == m[j])
            &&& (forall|a: int|
                0 <= a < k ==> 1 <= #[trigger] u32_at(m2, pd + 4 * a) && !bound(
                    s,
                    u32_at(m2, pd + 4 * a),
                ) && bound(s2, u32_at(m2, pd + 4 * a)) && s2.conn_channels[u32_at(
                    m2,
                    pd + 4 * a,
                ) as int] == spec_portal_of(u32_at(m, pd + 4 * a)))
            &&& (forall|a: int, b: int|
                0 <= a < b < k ==> #[trigger] u32_at(m2, pd + 4 * a) != #[trigger] u32_at(
                    m2,
                    pd + 4 * b,
                ))
        },
    decreases k,
{
    if k > 0 {
        let pv = u32_at(m, pd);
        let p = spec_portal_of(pv)->Some_0;
        let s_en = enable_portal(s, p);
        let id = alloc_id(s_en);
        let s_al = alloc_rest(s_en);
        let s_bi = bind_channel(s_al, id, p);
        let m1 = store32(m, pd, id);
        lemma_store32_load(m, pd, id);
        assert(s_en.wf());
        // The allocated channel is fresh: at least 1, below the new counter,
        // and unbound so far.
        assert(1 <= id);
        assert(id < s_al.next_channel);
        assert(!bound(s, id)) by {
            if s_en.drop_channels.len() > 0 {
            } else {
                assert(id >= s.conn_channels.len());
            }
        }
        assert(s_al.wf()) by {
            if s_en.drop_channels.len() > 0 {
                assert(forall|k1: int|
                    0 <= k1 < s_al.drop_channels.len() ==> s_al.drop_channels[k1]
                        == s_en.drop_channels[k1]);
            }
        }
        // Binding the fresh channel preserves well-formedness.
        assert(s_bi.wf()) by {
            assert(s_bi.conn_channels.len() == s_al.next_channel);
            assert(s_bi.conn_channels[0] is None);
            assert(forall|k1: int|
                0 <= k1 < s_bi.drop_channels.len()
                    && #[trigger] s_bi.drop_channels[k1] < s_bi.conn_channels.len()
                    ==> s_bi.conn_channels[s_bi.drop_channels[k1] as int] is None);
        }
        assert(bound(s_bi, id) && s_bi.conn_channels[id as int] == Some(p));
        // Every channel bound in `s` keeps its binding in `s_bi`.
        assert(forall|c: u32| bound(s, c) ==> #[trigger] s_bi.conn_channels[c as int]
            == s.conn_channels[c as int]);
        lemma_connect_entries(s_bi, m1, pd + 4, (k - 1) as nat);
        let (s2, m2) = spec_connect_entries(s_bi, m1, pd + 4, (k - 1) as nat)->Ok_0;
        assert(pd + 4 * k <= m.len());
        // The first entry's slot is untouched by the remaining steps.
        assert(u32_at(m2, pd) == id) by {
            assert(m2[pd] == m1[pd]);
            assert(m2[pd + 1] == m1[pd + 1]);
            assert(m2[pd + 2] == m1[pd + 2]);
            assert(m2[pd + 3] == m1[pd + 3]);
        }
        assert(s2.conn_channels[id as int] == Some(p));
        // Entries after the first read the same request values from `m1` as
        // from `m`, and their slots sit inside the remaining range.
        assert forall|a: int| 1 <= a < k implies 1 <= #[trigger] u32_at(m2, pd + 4 * a) && !bound(
            s,
            u32_at(m2, pd + 4 * a),
        ) && bound(s2, u32_at(m2, pd + 4 * a)) && s2.conn_channels[u32_at(m2, pd + 4 * a) as int]
            == spec_portal_of(u32_at(m, pd + 4 * a)) by {
            assert(u32_at(m2, (pd + 4) + 4 * (a - 1)) == u32_at(m2, pd + 4 * a));
            let ida = u32_at(m2, pd + 4 * a);
            assert(1 <= ida && !bound(s_bi, ida) && bound(s2, ida) && s2.conn_channels[ida as int]
                == spec_portal_of(u32_at(m1, (pd + 4) + 4 * (a - 1))));
            // A channel bound in `s` would still be bound in `s_bi`.
            if bound(s, ida) {
                assert(s_bi.conn_channels[ida as int] == s.conn_channels[ida as int]);
            }
            // The request value was not overwritten by the first store.
            assert(u32_at(m1, pd + 4 * a) == u32_at(m, pd + 4 * a)) by {
                assert(m1[pd + 4 * a] == m[pd + 4 * a]);
                assert(m1[pd + 4 * a + 1] == m[pd + 4 * a + 1]);
                assert(m1[pd + 4 * a + 2] == m[pd + 4 * a + 2]);
                assert(m1[pd + 4 * a + 3] == m[pd + 4 * a + 3]);
            }
        }
        // Distinctness: the first ID is bound in `s_bi` while all later IDs
        // are not; later IDs are distinct among themselves by induction.
        assert forall|a: int, b: int| 0 <= a < b < k implies #[trigger] u32_at(m2, pd + 4 * a)
            != #[trigger] u32_at(m2, pd + 4 * b) by {
            assert(u32_at(m2, (pd + 4) + 4 * (b - 1)) == u32_at(m2, pd + 4 * b));
            if a == 0 {
                assert(!bound(s_bi, u32_at(m2, (pd + 4) + 4 * (b - 1))));
            } else {
                assert(u32_at(m2, (pd + 4) + 4 * (a - 1)) == u32_at(m2, pd + 4 * a));
            }
        }
    }
}

/// Law (connect round trip): a successful connect installs the ready list
/// the payload names and writes `portals_size` pairwise distinct channel
/// IDs, all at least 1, back into the portals array; each is bound to
/// exactly the portal the original entry requested, so a later dispatch on
/// that channel reaches the matching handler.  Channels bound before the
/// call keep their bindings.
pub proof fn lemma_connect_round_trip(s: StateModel, m: Seq<u8>, c: Connect)
    requires
        s.wf(),
        spec_connect(s, m, c) is Ok,
    ensures
        spec_connect(s, m, c) matches Ok((s2, m2)) ==> {
            let pd = c.portals_data as int;
            &&& s2.wf()
            &&& m2.len() == m.len()
            &&& s.conn_channels.len() <= s2.conn_channels.len()
            &&& s2.ready_list == (c.ready_capacity, c.ready_data)
            &&& (forall|ch: u32| bound(s, ch) ==> #[trigger] s2.conn_channels[ch as int]
                == s.conn_channels[ch as int])
            &&& (forall|a: int|
                0 <= a < c.portals_size ==> 1 <= #[trigger] u32_at(m2, pd + 4 * a) && bound(
                    s2,
                    u32_at(m2, pd + 4 * a),
                ) && s2.conn_channels[u32_at(m2, pd + 4 * a) as int] == spec_portal_of(
                    u32_at(m, pd + 4 * a),
                ))
            &&& (forall|a: int, b: int|
                0 <= a < b < c.portals_size ==> #[trigger] u32_at(m2, pd + 4 * a)
                    != #[trigger] u32_at(m2, pd + 4 * b))
        },
{
    lemma_connect_entries(set_ready_list(s, c), m, c.portals_data as int, c.portals_size as nat);
}

/// Law: a successful command preserves every existing channel binding and
/// the channel table invariants.  A channel ID the host handed out keeps
/// naming the same portal, whatever commands run after it.
pub proof fn lemma_step_preserves_bindings(
    s: StateModel,
    m: Seq<u8>,
    calls: Seq<Call>,
    cmd: Command,
    ch: u32,
)
    requires
        s.wf(),
    ensures
        spec_step(s, m, calls, cmd) matches Ok((s2, _, _, _)) ==> s2.wf() && (bound(s, ch)
            ==> bound(s2, ch) && s2.conn_channels[ch as int] == s.conn_channels[ch as int]),
{
    if cmd.channel == 0 && cmd.size == 16 && cmd.data + 16 <= m.len() {
        let c = Connect {
            portals_size: u32_at(m, cmd.data as int),
            portals_data: u32_at(m, cmd.data + 4),
            ready_capacity: u32_at(m, cmd.data + 8),
            ready_data: u32_at(m, cmd.data + 12),
        };
        if spec_connect(s, m, c) is Ok {
            lemma_connect_round_trip(s, m, c);
        }
    }
}

/// Law: a successful asynchronous request preserves every channel binding
/// that existed when it started: for any channel ID ever returned by the
/// host, a lookup after any later batch of commands yields the same portal.
pub proof fn lemma_run_preserves_bindings(
    s: StateModel,
    m: Seq<u8>,
    calls: Seq<Call>,
    data: int,
    n: nat,
    sync: bool,
    ch: u32,
)
    requires
        s.wf(),
    ensures
        spec_run(s, m, calls, data, n, sync) matches Ok((s2, _, _, _)) ==> s2.wf() && (bound(
            s,
            ch,
        ) ==> bound(s2, ch) && s2.conn_channels[ch as int] == s.conn_channels[ch as int]),
    decreases n,
{
    if n > 0 && 0 <= data && data + 16 <= m.len() {
        let cmd = Command {
            size: u32_at(m, data),
            data: u32_at(m, data + 4),
            channel: u32_at(m, data + 8),
            ready: u32_at(m, data + 12),
        };
        lemma_step_preserves_bindings(s, m, calls, cmd, ch);
        match spec_step(s, m, calls, cmd) {
            Ok((s2, m2, c2, sy)) => {
                lemma_run_preserves_bindings(s2, m2, c2, data + 16, (n - 1) as nat, sync && sy, ch);
            },
            Err(_) => {},
        }
    }
}

/// Law: a log command that completes carried a level in `1..=5`, and the
/// embedder observes exactly one `log` call, at the matching severity, with
/// the exact UTF-8 target and message bytes from guest memory (the target
/// length clamped to 255 bytes).
pub proof fn lemma_log_observed_once(calls: Seq<Call>, m: Seq<u8>, size: u32, data: u32)
    requires
        spec_log(calls, m, size, data) is Ok,
    ensures
        spec_log(calls, m, size, data) matches Ok(c2) ==> {
            let ts = u16_at(m, data as int);
            let tsz = if ts > 255 {
                255 as u16
            } else {
                ts
            };
            let lvl = u16_at(m, data + 2);
            let td = u32_at(m, data + 4);
            let msz = u32_at(m, data + 8);
            let md = u32_at(m, data + 12);
            &&& 1 <= lvl <= 5
            &&& c2 == calls.push(
                Call::Log {
                    text: m.subrange(md as int, md + msz),
                    level: spec_level(lvl),
                    target: m.subrange(td as int, td + tsz),
                },
            )
        },
{
}

/// Law: a prompt command that completes hands the embedder exactly one
/// `read_line` call carrying its own ready identifier and the two pointers
/// from the payload, and neither guest memory nor the ready list changes
/// before the next sleep.
pub proof fn lemma_prompt_observed_once(
    calls: Seq<Call>,
    m: Seq<u8>,
    ready: u32,
    size: u32,
    data: u32,
)
    requires
        spec_prompt(calls, m, ready, size, data) is Ok,
    ensures
        spec_prompt(calls, m, ready, size, data) matches Ok(c2) ==> c2 == calls.push(
            Call::ReadLine {
                ready,
                text_ref: u32_at(m, data + 4),
                capacity_ref: u32_at(m, data as int),
            },
        ),
{
}

/// Law: a command that traps leaves no observable embedder side effect from
/// that command, with the single exception of the fatal log level, whose
/// message is forwarded before the trap.  Earlier commands of the same batch
/// keep the effects they already had.
pub proof fn lemma_trap_before_side_effects(
    s: StateModel,
    m: Seq<u8>,
    calls: Seq<Call>,
    cmd: Command,
)
    ensures
        spec_step(s, m, calls, cmd) matches Err((t, c2)) ==> (t == Trap::Fatal || c2 == calls),
{
}

} // verus!
