//! Support for the read API collaborator: the response envelope, the
//! per-asset overview record, and the query shape, plus the verified
//! assembly of the overview from the aggregation engine's read paths.

use crate::kline::{activity_pairs, manager_wf, KLineManager};
use vstd::prelude::*;
use vstd::string::*;

verus! {

/// The envelope every API answer travels in.
pub struct ApiResponse<T> {
    pub success: bool,
    pub data: Option<T>,
    pub message: Option<String>,
}

impl<T> ApiResponse<T> {
    /// A successful answer carrying `data`.
    pub fn ok(data: T) -> (r: Self)
        ensures
            r.success,
            r.data == Some(data),
            r.message is None,
    {
        ApiResponse { success: true, data: Some(data), message: None }
    }

    /// A failed answer carrying a diagnostic message.
    pub fn failure(message: String) -> (r: Self)
        ensures
            !r.success,
            r.data is None,
            r.message == Some(message),
    {
        ApiResponse { success: false, data: None, message: Some(message) }
    }
}

/// One asset in the overview listing: its mint, activity marker, and how
/// many candles it holds.
pub struct MintInfo {
    pub mint: String,
    pub last_activity: u64,
    pub kline_count: usize,
}

/// The query parameters of the per-asset candle listing.
#[derive(Clone, Copy, Debug, PartialEq, Eq, Structural)]
pub struct KlineQuery {
    pub limit: Option<usize>,
}

/// An overview record reports one tracked series faithfully: its mint, its
/// activity marker, and its candle count.
pub open spec fn overview_entry_ok(info: MintInfo, ss: Seq<crate::kline::MintSeries>) -> bool {
    exists|j: int|
        0 <= j < ss.len() && info.mint@ == (#[trigger] ss[j]).mint@ && info.last_activity
            == ss[j].last_activity && info.kline_count == ss[j].klines@.len()
}

/// The overview of every tracked asset, most recently active first: the
/// records' (mint, marker) pairs are exactly the tracked series' pairs, one
/// each, and every record carries its series' candle count.
pub fn get_mints_overview(manager: &KLineManager) -> (r: Vec<MintInfo>)
    requires
        manager_wf(*manager),
    ensures
        r@.len() == manager.series@.len(),
        forall|a: int, b: int|
            0 <= a < b < r@.len() ==> r@[a].last_activity >= r@[b].last_activity,
        forall|k: int| 0 <= k < r@.len() ==> overview_entry_ok(#[trigger] r@[k], manager.series@),
        r@.map_values(|m: MintInfo| (m.mint, m.last_activity)).to_multiset() == activity_pairs(
            manager.series@,
        ).to_multiset(),
{
    let active = manager.get_active_mints();
    proof {
        broadcast use vstd::seq_lib::group_to_multiset_ensures;

        assert(active@.to_multiset().len() == activity_pairs(manager.series@).to_multiset().len());
        assert(activity_pairs(manager.series@).len() == manager.series@.len());
    }
    let mut out: Vec<MintInfo> = Vec::new();
    let mut i: usize = 0;
    while i < active.len()
        invariant
            i <= active@.len(),
            manager_wf(*manager),
            out@.len() == i,
            active@.to_multiset() == activity_pairs(manager.series@).to_multiset(),
            forall|a: int, b: int|
                0 <= a < b < active@.len() ==> active@[a].1 >= active@[b].1,
            forall|k: int|
                0 <= k < i ==> (#[trigger] out@[k]).mint == active@[k].0 && out@[k].last_activity
                    == active@[k].1,
            forall|k: int| 0 <= k < i ==> overview_entry_ok(#[trigger] out@[k], manager.series@),
        decreases active@.len() - i,
    {
        let mint = active[i].0.clone();
        let last_activity = active[i].1;
        proof {
            broadcast use vstd::seq_lib::group_to_multiset_ensures;

            assert(active@.contains(active@[i as int]));
            assert(activity_pairs(manager.series@).to_multiset().count(active@[i as int]) > 0);
            assert(activity_pairs(manager.series@).contains(active@[i as int]));
        }
        let ghost j = choose|j: int|
            0 <= j < activity_pairs(manager.series@).len() && activity_pairs(manager.series@)[j]
                == active@[i as int];
        proof {
            assert(manager.series@[j].mint == active@[i as int].0);
            assert(manager.series@[j].mint@ == mint@);
        }
        let klines = manager.get_klines_for_mint(&mint, None);
        proof {
            let ss = manager.series@;
            let i0 = choose|k: int| 0 <= k < ss.len() && (#[trigger] ss[k]).mint@ == mint@;
            if i0 != j {
                assert(ss[i0].mint@ != ss[j].mint@ || i0 == j);
            }
            assert(klines@.len() == ss[j].klines@.len());
        }
        let info = MintInfo { mint, last_activity, kline_count: klines.len() };
        proof {
            assert(info.mint@ == manager.series@[j].mint@ && info.last_activity
                == manager.series@[j].last_activity && info.kline_count
                == manager.series@[j].klines@.len());
            assert(overview_entry_ok(info, manager.series@));
        }
        out.push(info);
        i += 1;
    }
    proof {
        assert(active@.len() == manager.series@.len());
        assert(out@.map_values(|m: MintInfo| (m.mint, m.last_activity)) =~= active@);
    }
    out
}

} // verus!
