//! The order in which USB devices are attached: sorted stably by the kind of
//! host controller they go to, grouped by kind, and numbered within each
//! group to find their controller and port.
use vstd::prelude::*;
use itertools::Itertools;
use crate::config::UsbDevice;
use crate::monitor::QmpCommand;
use crate::util::usable_ports;
use super::controller::{Effect, EffectView, UsbResolution, attach_commands, attach_for_rank, attach_command,
    count_rank, usb_id_string, usb_bus_string};

verus! {

/// The items among the first `n` whose key is `k`, in order.
pub open spec fn with_key(v: Seq<(u8, usize)>, k: u8, n: int) -> Seq<(u8, usize)>
    decreases n,
{
    if n <= 0 {
        seq![]
    } else if v[n - 1].0 == k {
        with_key(v, k, n - 1).push(v[n - 1])
    } else {
        with_key(v, k, n - 1)
    }
}

/// The items ordered by key, ascending, items of equal key in their
/// original order: those of key `k`, then those of key `k + 1`, and so on.
pub open spec fn sorted_from(v: Seq<(u8, usize)>, k: int) -> Seq<(u8, usize)>
    decreases 256 - k,
{
    if k < 0 || k > 255 {
        seq![]
    } else {
        with_key(v, k as u8, v.len() as int) + sorted_from(v, k + 1)
    }
}

/// A stable sort by key.
pub open spec fn stable_sorted(v: Seq<(u8, usize)>) -> Seq<(u8, usize)> {
    sorted_from(v, 0)
}

/// Sorts the items by key, keeping the order of items with equal keys
/// (`Itertools::sorted_by_key`, which sorts stably in ascending order).
#[verifier::external_body]
fn sort_by_key(v: Vec<(u8, usize)>) -> (r: Vec<(u8, usize)>)
    ensures
        r@ == stable_sorted(v@),
{
    v.into_iter().sorted_by_key(|p| p.0).collect()
}

/// The end of the run of items of key `k` that starts at `i`.
pub open spec fn run_end(v: Seq<(u8, usize)>, k: u8, i: int) -> int
    decreases v.len() - i,
{
    if 0 <= i < v.len() && v[i].0 == k {
        run_end(v, k, i + 1)
    } else {
        i
    }
}

pub proof fn lemma_run_end(v: Seq<(u8, usize)>, k: u8, i: int)
    requires
        0 <= i <= v.len(),
    ensures
        i <= run_end(v, k, i) <= v.len(),
        i < v.len() && v[i].0 == k ==> run_end(v, k, i) > i,
    decreases v.len() - i,
{
    if i < v.len() && v[i].0 == k {
        lemma_run_end(v, k, i + 1);
    }
}

/// The runs of consecutive items with equal keys, in order.
pub open spec fn runs(v: Seq<(u8, usize)>) -> Seq<Seq<(u8, usize)>>
    decreases v.len(),
{
    if v.len() == 0 {
        seq![]
    } else {
        let e = run_end(v, v[0].0, 0);
        proof {
            lemma_run_end(v, v[0].0, 0);
        }
        seq![v.subrange(0, e)] + runs(v.subrange(e, v.len() as int))
    }
}

/// Splits the items into runs of equal keys (`Itertools::group_by`, which
/// puts consecutive items that map to the same key into one group).
#[verifier::external_body]
fn group_by_key(v: Vec<(u8, usize)>) -> (r: Vec<Vec<(u8, usize)>>)
    ensures
        r@.map_values(|g: Vec<(u8, usize)>| g@) == runs(v@),
{
    let groups = v.into_iter().group_by(|p| p.0);
    let r = groups.into_iter().map(|(_, g)| g.collect()).collect();
    r
}

/// The controller kind and position of each of the first `n` devices.
pub open spec fn rank_pairs(devs: Seq<UsbDevice>, n: int) -> Seq<(u8, usize)>
    decreases n,
{
    if n <= 0 {
        seq![]
    } else {
        rank_pairs(devs, n - 1).push((devs[n - 1].bus.spec_rank(), (n - 1) as usize))
    }
}

/// The attach command of an item of a group, numbered `q` within it.
pub open spec fn item_command(devs: Seq<UsbDevice>, usb: Seq<Option<(String, String)>>, x: (u8, usize), q: int)
    -> Seq<EffectView>
{
    let i = x.1 as int;
    if !devs[i].permanent && usb[i] is Some {
        seq![attach_command(devs[i], i as nat, q as nat, usb[i]->0)]
    } else {
        seq![]
    }
}

/// The attach commands of the first `p` items of a group.
pub open spec fn group_commands(devs: Seq<UsbDevice>, usb: Seq<Option<(String, String)>>, g: Seq<(u8, usize)>, p: int)
    -> Seq<EffectView>
    decreases p,
{
    if p <= 0 {
        seq![]
    } else {
        group_commands(devs, usb, g, p - 1) + item_command(devs, usb, g[p - 1], p - 1)
    }
}

/// The attach commands of the first `m` groups.
pub open spec fn groups_commands(devs: Seq<UsbDevice>, usb: Seq<Option<(String, String)>>, gs: Seq<Seq<(u8, usize)>>, m: int)
    -> Seq<EffectView>
    decreases m,
{
    if m <= 0 {
        seq![]
    } else {
        groups_commands(devs, usb, gs, m - 1) + group_commands(devs, usb, gs[m - 1], gs[m - 1].len() as int)
    }
}

proof fn lemma_with_key_facts(devs: Seq<UsbDevice>, n: int, r: u8, m: int)
    requires
        0 <= m <= n <= devs.len(),
        devs.len() <= usize::MAX,
    ensures
        with_key(rank_pairs(devs, n), r, m).len() == count_rank(devs, r, m),
        forall|q: int| 0 <= q < with_key(rank_pairs(devs, n), r, m).len() ==> {
            let x = #[trigger] with_key(rank_pairs(devs, n), r, m)[q];
            &&& x.0 == r
            &&& (x.1 as int) < m
            &&& devs[x.1 as int].bus.spec_rank() == r
            &&& count_rank(devs, r, x.1 as int) == q
        },
    decreases m,
{
    if m > 0 {
        lemma_with_key_facts(devs, n, r, m - 1);
        lemma_rank_pairs_index(devs, n, m - 1);
    }
}

proof fn lemma_rank_pairs_index(devs: Seq<UsbDevice>, n: int, i: int)
    requires
        0 <= i < n <= devs.len(),
        devs.len() <= usize::MAX,
    ensures
        rank_pairs(devs, n).len() == n,
        rank_pairs(devs, n)[i] == (devs[i].bus.spec_rank(), i as usize),
    decreases n,
{
    lemma_rank_pairs_len(devs, n);
    if i < n - 1 {
        lemma_rank_pairs_index(devs, n - 1, i);
    }
}

proof fn lemma_rank_pairs_len(devs: Seq<UsbDevice>, n: int)
    requires
        0 <= n,
    ensures
        rank_pairs(devs, n).len() == n,
    decreases n,
{
    if n > 0 {
        lemma_rank_pairs_len(devs, n - 1);
    }
}

proof fn lemma_group_commands_prefix(devs: Seq<UsbDevice>, usb: Seq<Option<(String, String)>>, a: Seq<(u8, usize)>,
    b: Seq<(u8, usize)>, p: int)
    requires
        0 <= p <= a.len(),
        p <= b.len(),
        forall|q: int| 0 <= q < p ==> a[q] == b[q],
    ensures
        group_commands(devs, usb, a, p) == group_commands(devs, usb, b, p),
    decreases p,
{
    if p > 0 {
        lemma_group_commands_prefix(devs, usb, a, b, p - 1);
    }
}

/// The commands of the group of rank `r` are those `attach_for_rank` gives.
proof fn lemma_bucket_commands(devs: Seq<UsbDevice>, usb: Seq<Option<(String, String)>>, n: int, r: u8, m: int)
    requires
        0 <= m <= n <= devs.len(),
        devs.len() <= usize::MAX,
    ensures
        group_commands(devs, usb, with_key(rank_pairs(devs, n), r, m), with_key(rank_pairs(devs, n), r, m).len() as int)
            == attach_for_rank(devs, usb, r, m),
    decreases m,
{
    if m > 0 {
        lemma_bucket_commands(devs, usb, n, r, m - 1);
        lemma_rank_pairs_index(devs, n, m - 1);
        lemma_with_key_facts(devs, n, r, m - 1);
        let prev = with_key(rank_pairs(devs, n), r, m - 1);
        let cur = with_key(rank_pairs(devs, n), r, m);
        if devs[m - 1].bus.spec_rank() == r {
            assert(cur == prev.push((r, (m - 1) as usize)));
            lemma_group_commands_prefix(devs, usb, cur, prev, prev.len() as int);
        }
    }
}

proof fn lemma_with_key_none(v: Seq<(u8, usize)>, k: u8, m: int)
    requires
        0 <= m <= v.len(),
        forall|i: int| 0 <= i < v.len() ==> #[trigger] v[i].0 != k,
    ensures
        with_key(v, k, m) == Seq::<(u8, usize)>::empty(),
    decreases m,
{
    if m > 0 {
        lemma_with_key_none(v, k, m - 1);
    }
}

proof fn lemma_sorted_high_keys(devs: Seq<UsbDevice>, n: int, k: int)
    requires
        4 <= k,
        0 <= n <= devs.len(),
        devs.len() <= usize::MAX,
    ensures
        sorted_from(rank_pairs(devs, n), k) == Seq::<(u8, usize)>::empty(),
    decreases 256 - k,
{
    if k <= 255 {
        lemma_sorted_high_keys(devs, n, k + 1);
        let v = rank_pairs(devs, n);
        lemma_rank_pairs_len(devs, n);
        assert forall|i: int| 0 <= i < v.len() implies #[trigger] v[i].0 != k as u8 by {
            lemma_rank_pairs_index(devs, n, i);
        }
        lemma_with_key_none(v, k as u8, v.len() as int);
        assert(sorted_from(v, k) =~= Seq::<(u8, usize)>::empty());
    }
}

proof fn lemma_run_end_block(b: Seq<(u8, usize)>, rest: Seq<(u8, usize)>, k: u8, i: int)
    requires
        0 <= i <= b.len(),
        forall|q: int| 0 <= q < b.len() ==> #[trigger] b[q].0 == k,
        rest.len() > 0 ==> rest[0].0 != k,
    ensures
        run_end(b + rest, k, i) == b.len(),
    decreases b.len() - i,
{
    if i < b.len() {
        lemma_run_end_block(b, rest, k, i + 1);
    }
}

/// A block of equal keys followed by items of another key is one run.
proof fn lemma_runs_block(b: Seq<(u8, usize)>, rest: Seq<(u8, usize)>, k: u8)
    requires
        b.len() > 0,
        forall|q: int| 0 <= q < b.len() ==> #[trigger] b[q].0 == k,
        rest.len() > 0 ==> rest[0].0 != k,
    ensures
        runs(b + rest) == seq![b] + runs(rest),
{
    let v = b + rest;
    assert(v[0].0 == k);
    lemma_run_end_block(b, rest, k, 0);
    assert(v.subrange(0, b.len() as int) =~= b);
    assert(v.subrange(b.len() as int, v.len() as int) =~= rest);
}

proof fn lemma_groups_commands_prefix(devs: Seq<UsbDevice>, usb: Seq<Option<(String, String)>>, a: Seq<Seq<(u8, usize)>>,
    b: Seq<Seq<(u8, usize)>>, m: int)
    requires
        0 <= m <= a.len(),
        m <= b.len(),
        forall|q: int| 0 <= q < m ==> a[q] == b[q],
    ensures
        groups_commands(devs, usb, a, m) == groups_commands(devs, usb, b, m),
    decreases m,
{
    if m > 0 {
        lemma_groups_commands_prefix(devs, usb, a, b, m - 1);
    }
}

/// The commands of a group followed by more groups.
proof fn lemma_groups_commands_front(devs: Seq<UsbDevice>, usb: Seq<Option<(String, String)>>, b: Seq<(u8, usize)>,
    gs: Seq<Seq<(u8, usize)>>, m: int)
    requires
        0 <= m <= gs.len(),
    ensures
        groups_commands(devs, usb, seq![b] + gs, m + 1)
            == group_commands(devs, usb, b, b.len() as int) + groups_commands(devs, usb, gs, m),
    decreases m,
{
    let all = seq![b] + gs;
    if m == 0 {
        assert(all[0] == b);
        assert(groups_commands(devs, usb, all, 0) =~= Seq::<EffectView>::empty());
        assert(groups_commands(devs, usb, all, 1) =~= group_commands(devs, usb, b, b.len() as int));
    } else {
        lemma_groups_commands_front(devs, usb, b, gs, m - 1);
        assert(all[m] == gs[m - 1]);
        assert(groups_commands(devs, usb, all, m + 1)
            =~= group_commands(devs, usb, b, b.len() as int) + groups_commands(devs, usb, gs, m));
    }
}

/// Commands of the runs of a block followed by the rest: the block's, then
/// the rest's; an empty block adds nothing.
proof fn lemma_block_commands(devs: Seq<UsbDevice>, usb: Seq<Option<(String, String)>>, b: Seq<(u8, usize)>,
    rest: Seq<(u8, usize)>, k: u8)
    requires
        forall|q: int| 0 <= q < b.len() ==> #[trigger] b[q].0 == k,
        rest.len() > 0 ==> rest[0].0 != k,
    ensures
        groups_commands(devs, usb, runs(b + rest), runs(b + rest).len() as int)
            == group_commands(devs, usb, b, b.len() as int) + groups_commands(devs, usb, runs(rest), runs(rest).len() as int),
        (b + rest).len() > 0 ==> (b + rest)[0].0 == (if b.len() > 0 { k } else { rest[0].0 }),
{
    if b.len() == 0 {
        assert(b + rest =~= rest);
        assert(group_commands(devs, usb, b, 0) =~= Seq::<EffectView>::empty());
        assert(groups_commands(devs, usb, runs(rest), runs(rest).len() as int)
            =~= Seq::<EffectView>::empty() + groups_commands(devs, usb, runs(rest), runs(rest).len() as int));
    } else {
        lemma_runs_block(b, rest, k);
        lemma_groups_commands_front(devs, usb, b, runs(rest), runs(rest).len() as int);
    }
}

proof fn lemma_bucket_keys(devs: Seq<UsbDevice>, n: int, r: u8)
    requires
        0 <= n <= devs.len(),
        devs.len() <= usize::MAX,
    ensures
        forall|q: int| 0 <= q < with_key(rank_pairs(devs, n), r, n).len() ==>
            #[trigger] with_key(rank_pairs(devs, n), r, n)[q].0 == r,
        with_key(rank_pairs(devs, n), r, n).len() == count_rank(devs, r, n),
{
    lemma_with_key_facts(devs, n, r, n);
}

/// The runs of the stably sorted devices give the attach commands in the
/// order of `attach_commands`.
proof fn lemma_attach_order(devs: Seq<UsbDevice>, usb: Seq<Option<(String, String)>>)
    requires
        devs.len() <= usize::MAX,
    ensures
        ({
            let s = stable_sorted(rank_pairs(devs, devs.len() as int));
            groups_commands(devs, usb, runs(s), runs(s).len() as int) == attach_commands(devs, usb)
        }),
{
    let n = devs.len() as int;
    let v = rank_pairs(devs, n);
    lemma_rank_pairs_len(devs, n);
    let b0 = with_key(v, 0, n);
    let b1 = with_key(v, 1, n);
    let b2 = with_key(v, 2, n);
    let b3 = with_key(v, 3, n);
    lemma_bucket_keys(devs, n, 0);
    lemma_bucket_keys(devs, n, 1);
    lemma_bucket_keys(devs, n, 2);
    lemma_bucket_keys(devs, n, 3);
    lemma_sorted_high_keys(devs, n, 4);
    let s4 = sorted_from(v, 4);
    let s3 = sorted_from(v, 3);
    let s2 = sorted_from(v, 2);
    let s1 = sorted_from(v, 1);
    let s0 = sorted_from(v, 0);
    assert(s3 == b3 + s4);
    assert(s2 == b2 + s3);
    assert(s1 == b1 + s2);
    assert(s0 == b0 + s1);
    assert(runs(s4) =~= Seq::<Seq<(u8, usize)>>::empty());
    assert(groups_commands(devs, usb, runs(s4), 0) =~= Seq::<EffectView>::empty());
    lemma_block_commands(devs, usb, b3, s4, 3);
    lemma_block_commands(devs, usb, b2, s3, 2);
    lemma_block_commands(devs, usb, b1, s2, 1);
    lemma_block_commands(devs, usb, b0, s1, 0);
    lemma_bucket_commands(devs, usb, n, 0, n);
    lemma_bucket_commands(devs, usb, n, 1, n);
    lemma_bucket_commands(devs, usb, n, 2, n);
    lemma_bucket_commands(devs, usb, n, 3, n);
    assert(groups_commands(devs, usb, runs(s0), runs(s0).len() as int) =~= attach_commands(devs, usb));
}

/// Every item of a run of the sorted devices names a device.
proof fn lemma_runs_items(devs: Seq<UsbDevice>)
    requires
        devs.len() <= usize::MAX,
    ensures
        ({
            let s = stable_sorted(rank_pairs(devs, devs.len() as int));
            forall|j: int, q: int| 0 <= j < runs(s).len() && 0 <= q < runs(s)[j].len() ==>
                (#[trigger] runs(s)[j][q]).1 < devs.len()
        }),
{
    let n = devs.len() as int;
    let v = rank_pairs(devs, n);
    let s = stable_sorted(v);
    lemma_items_of_sorted(devs, 0);
    lemma_runs_sub(s);
}

/// Items of the sort from key `k` on name devices.
proof fn lemma_items_of_sorted(devs: Seq<UsbDevice>, k: int)
    requires
        devs.len() <= usize::MAX,
    ensures
        forall|q: int| 0 <= q < sorted_from(rank_pairs(devs, devs.len() as int), k).len() ==>
            (#[trigger] sorted_from(rank_pairs(devs, devs.len() as int), k)[q]).1 < devs.len(),
    decreases 256 - k,
{
    let n = devs.len() as int;
    let v = rank_pairs(devs, n);
    if 0 <= k <= 255 {
        lemma_items_of_sorted(devs, k + 1);
        lemma_with_key_facts(devs, n, k as u8, n);
        lemma_rank_pairs_len(devs, n);
        let b = with_key(v, k as u8, n);
        let rest = sorted_from(v, k + 1);
        assert(sorted_from(v, k) == b + rest);
        assert forall|q: int| 0 <= q < sorted_from(v, k).len() implies (#[trigger] sorted_from(v, k)[q]).1 < devs.len() by {
            if q < b.len() {
                assert(sorted_from(v, k)[q] == b[q]);
            } else {
                assert(sorted_from(v, k)[q] == rest[q - b.len()]);
            }
        }
    }
}

/// Each run holds items of the sequence.
proof fn lemma_runs_sub(s: Seq<(u8, usize)>)
    ensures
        forall|j: int, q: int| 0 <= j < runs(s).len() && 0 <= q < runs(s)[j].len() ==>
            exists|p: int| 0 <= p < s.len() && #[trigger] runs(s)[j][q] == s[p],
    decreases s.len(),
{
    if s.len() > 0 {
        let e = run_end(s, s[0].0, 0);
        lemma_run_end(s, s[0].0, 0);
        let rest = s.subrange(e, s.len() as int);
        lemma_runs_sub(rest);
        assert forall|j: int, q: int| 0 <= j < runs(s).len() && 0 <= q < runs(s)[j].len() implies
            exists|p: int| 0 <= p < s.len() && #[trigger] runs(s)[j][q] == s[p] by {
            if j == 0 {
                assert(runs(s)[0][q] == s[q]);
            } else {
                assert(runs(s)[j] == runs(rest)[j - 1]);
                let p = choose|p: int| 0 <= p < rest.len() && runs(rest)[j - 1][q] == rest[p];
                assert(rest[p] == s[p + e]);
            }
        }
    }
}

/// The attach commands of a full entry, computed the way the devices are
/// ordered: sorted stably by controller kind and grouped by kind, each
/// device numbered within its group.
pub fn attach_effects(devs: &Vec<UsbDevice>, usb: &UsbResolution) -> (r: Vec<Effect>)
    requires
        usb@.len() == devs@.len(),
    ensures
        r@.map_values(|e: Effect| e@) == attach_commands(devs@, usb@),
{
    let n = devs.len();
    let mut pairs: Vec<(u8, usize)> = Vec::new();
    let mut i: usize = 0;
    while i < n
        invariant
            n == devs@.len(),
            i <= n,
            pairs@ == rank_pairs(devs@, i as int),
        decreases n - i,
    {
        pairs.push((devs[i].bus.rank(), i));
        i = i + 1;
    }
    let sorted = sort_by_key(pairs);
    let groups = group_by_key(sorted);
    let ghost gs = runs(stable_sorted(rank_pairs(devs@, n as int)));
    proof {
        lemma_runs_items(devs@);
        lemma_attach_order(devs@, usb@);
        assert(groups@.len() == gs.len());
        assert forall|j: int| 0 <= j < gs.len() implies #[trigger] groups@[j]@ == gs[j] by {
            assert(groups@.map_values(|g: Vec<(u8, usize)>| g@)[j] == groups@[j]@);
        }
    }
    let mut out: Vec<Effect> = Vec::new();
    let mut j: usize = 0;
    while j < groups.len()
        invariant
            n == devs@.len(),
            usb@.len() == n,
            j <= groups@.len(),
            groups@.len() == gs.len(),
            forall|jj: int| 0 <= jj < gs.len() ==> #[trigger] groups@[jj]@ == gs[jj],
            forall|jj: int, q: int| 0 <= jj < gs.len() && 0 <= q < gs[jj].len() ==> (#[trigger] gs[jj][q]).1 < n,
            out@.map_values(|e: Effect| e@) == groups_commands(devs@, usb@, gs, j as int),
        decreases groups@.len() - j,
    {
        let g = &groups[j];
        let ghost before = out@.map_values(|e: Effect| e@);
        let mut p: usize = 0;
        while p < g.len()
            invariant
                n == devs@.len(),
                usb@.len() == n,
                j < gs.len(),
                g@ == gs[j as int],
                forall|q: int| 0 <= q < gs[j as int].len() ==> (#[trigger] gs[j as int][q]).1 < n,
                p <= g@.len(),
                out@.map_values(|e: Effect| e@) == before + group_commands(devs@, usb@, g@, p as int),
            decreases g@.len() - p,
        {
            let idx = g[p].1;
            assert(gs[j as int][p as int].1 < n);
            let ghost prev = out@.map_values(|e: Effect| e@);
            let dev = &devs[idx];
            if !dev.permanent {
                match &usb[idx] {
                    Some((hostbus, hostaddr)) => {
                        let bus = dev.bus;
                        let ports = usable_ports(bus);
                        out.push(Effect::Monitor(QmpCommand::DeviceAdd {
                            driver: "usb-host",
                            id: usb_id_string(idx),
                            bus: usb_bus_string(bus, p / ports),
                            port: p % ports + 1,
                            hostbus: hostbus.clone(),
                            hostaddr: hostaddr.clone(),
                        }));
                    },
                    None => {},
                }
            }
            assert(out@.map_values(|e: Effect| e@) =~= prev + item_command(devs@, usb@, g@[p as int], p as int));
            p = p + 1;
        }
        j = j + 1;
    }
    out
}

} // verus!
