//! Positions in the plan tree: the path of a row (its index among its
//! siblings at every level) worked out from the depths of the rows above it,
//! and the rows that expanding the tree opens.
use vstd::prelude::*;
use crate::plan::SectorModel;

verus! {

/// One row of the walk down the tree: a row at depth `d` either opens a new
/// level (index 0) or moves to the next sibling at level `d`, dropping the
/// levels below. A missing row leaves the path as it is.
pub open spec fn path_step(path: Seq<u32>, depth: Option<u32>) -> Seq<u32> {
    match depth {
        None => path,
        Some(d) => if d as int >= path.len() {
            path.push(0)
        } else {
            path.update(d as int, (path[d as int] + 1) as u32).take(d as int + 1)
        },
    }
}

/// The path of the last row, after walking rows with the given depths from
/// the top of the tree.
pub open spec fn tree_path_of(depths: Seq<Option<u32>>) -> Seq<u32>
    decreases depths.len(),
{
    if depths.len() == 0 {
        Seq::empty()
    } else {
        path_step(tree_path_of(depths.drop_last()), depths.last())
    }
}

/// The depths fit the walk: none is `u32::MAX`.
pub open spec fn depths_fit(depths: Seq<Option<u32>>) -> bool {
    forall|i: int| 0 <= i < depths.len() ==> (#[trigger] depths[i] matches Some(d) ==> d < u32::MAX)
}

/// Every index of the path is below the number of rows walked.
pub proof fn lemma_path_entries_bounded(depths: Seq<Option<u32>>)
    requires
        depths.len() <= u32::MAX,
    ensures
        forall|k: int|
            0 <= k < tree_path_of(depths).len() ==> #[trigger] tree_path_of(depths)[k] < depths.len(),
    decreases depths.len(),
{
    if depths.len() > 0 {
        let front = depths.drop_last();
        lemma_path_entries_bounded(front);
        let p = tree_path_of(front);
        match depths.last() {
            None => {},
            Some(d) => {
                if d as int >= p.len() {
                    assert(tree_path_of(depths) == p.push(0));
                } else {
                    let q = p.update(d as int, (p[d as int] + 1) as u32);
                    assert(tree_path_of(depths) == q.take(d as int + 1));
                    assert forall|k: int| 0 <= k < q.len() implies q[k] < depths.len() by {
                        assert(p[k] < front.len());
                    }
                }
            },
        }
    }
}

/// The path of the row at `depths.len() - 1`, where `depths[i]` is the depth
/// of row `i` (`None` where the tree has no row `i`).
pub fn get_tree_path(depths: &Vec<Option<u32>>) -> (path: Vec<u32>)
    requires
        depths@.len() <= u32::MAX,
        depths_fit(depths@),
    ensures
        path@ == tree_path_of(depths@),
{
    let mut path: Vec<u32> = Vec::new();
    let n = depths.len();
    let mut i: usize = 0;
    while i < n
        invariant
            n == depths@.len(),
            n <= u32::MAX,
            i <= n,
            depths_fit(depths@),
            path@ == tree_path_of(depths@.take(i as int)),
        decreases n - i,
    {
        proof {
            lemma_path_entries_bounded(depths@.take(i as int));
            assert(depths@.take(i as int).len() == i);
            assert(depths@.take(i as int + 1).drop_last() =~= depths@.take(i as int));
        }
        if let Some(d) = depths[i] {
            assert(depths@[i as int] matches Some(dd) ==> dd < u32::MAX);
            let path_index = d as usize;
            if path_index >= path.len() {
                path.push(0);
            } else {
                let old_val = path.remove(path_index);
                path.insert(path_index, old_val + 1);
            }
            path.truncate((d + 1) as usize);
        }
        proof {
            assert(path@ =~= path_step(tree_path_of(depths@.take(i as int)), depths@[i as int]));
        }
        i = i + 1;
    }
    assert(depths@.take(n as int) =~= depths@);
    path
}

/// What expanding the tree to `depth` does at a row: a missing row ends the
/// walk, a row at `depth` or above is expanded, a deeper one is passed.
#[derive(PartialEq, Eq, Structural, Debug)]
pub enum ExpandStep {
    Expand,
    Pass,
    Stop,
}

/// The decision `expand_tree` takes for one row, given the row's depth
/// (`None` where the tree has no row there).
pub fn expand_tree_step(row_depth: Option<u32>, depth: u32) -> (r: ExpandStep)
    ensures
        row_depth.is_none() ==> r == ExpandStep::Stop,
        row_depth matches Some(d) ==> (r == if d <= depth {
            ExpandStep::Expand
        } else {
            ExpandStep::Pass
        }),
{
    match row_depth {
        Some(d) => if d <= depth {
            ExpandStep::Expand
        } else {
            ExpandStep::Pass
        },
        None => ExpandStep::Stop,
    }
}

/// The depths of the rows that a sector shows once the tree is expanded to
/// the sectors: its own row, then one row per child.
pub open spec fn sector_rows(s: SectorModel) -> Seq<Option<u32>> {
    seq![Some(0u32)] + Seq::new(s.children().len(), |i: int| Some(1u32))
}

/// The depths of the rows of a plan's sectors, expanded to the sectors.
pub open spec fn plan_rows(sectors: Seq<SectorModel>) -> Seq<Option<u32>>
    decreases sectors.len(),
{
    if sectors.len() == 0 {
        Seq::empty()
    } else {
        plan_rows(sectors.drop_last()) + sector_rows(sectors.last())
    }
}

/// Walking further rows from a given path.
pub open spec fn walk_from(p: Seq<u32>, rows: Seq<Option<u32>>) -> Seq<u32>
    decreases rows.len(),
{
    if rows.len() == 0 {
        p
    } else {
        path_step(walk_from(p, rows.drop_last()), rows.last())
    }
}

proof fn lemma_walk_concat(a: Seq<Option<u32>>, b: Seq<Option<u32>>)
    ensures
        tree_path_of(a + b) == walk_from(tree_path_of(a), b),
    decreases b.len(),
{
    if b.len() == 0 {
        assert(a + b =~= a);
    } else {
        assert((a + b).drop_last() =~= a + b.drop_last());
        lemma_walk_concat(a, b.drop_last());
    }
}

/// Walking a sector header and `m` child rows after the rows of `s` sectors.
proof fn lemma_walk_sector_block(p: Seq<u32>, s: nat, m: nat)
    requires
        s < u32::MAX,
        m <= u32::MAX,
        s == 0 ==> p.len() == 0,
        s > 0 ==> p.len() >= 1 && p[0] + 1 == s,
    ensures
        walk_from(p, seq![Some(0u32)] + Seq::new(m, |i: int| Some(1u32))) =~= if m == 0 {
            seq![s as u32]
        } else {
            seq![s as u32, (m - 1) as u32]
        },
    decreases m,
{
    let rows = seq![Some(0u32)] + Seq::new(m, |i: int| Some(1u32));
    if m == 0 {
        assert(rows.drop_last() =~= Seq::<Option<u32>>::empty());
        assert(walk_from(p, rows.drop_last()) == p);
        assert(rows.last() == Some(0u32));
        assert(walk_from(p, rows) == path_step(p, Some(0u32)));
        if s > 0 {
            assert(path_step(p, Some(0u32)) == p.update(0, (p[0] + 1) as u32).take(1));
        }
    } else {
        let m1 = (m - 1) as nat;
        let front = seq![Some(0u32)] + Seq::new(m1, |i: int| Some(1u32));
        assert(rows.drop_last() =~= front);
        assert(rows.last() == Some(1u32));
        lemma_walk_sector_block(p, s, m1);
        assert(walk_from(p, rows) == path_step(walk_from(p, front), Some(1u32)));
    }
}

/// The rows of the first `s` sectors leave the path at sector `s - 1`.
proof fn lemma_plan_rows_path(sectors: Seq<SectorModel>)
    requires
        sectors.len() < u32::MAX,
        forall|i: int| 0 <= i < sectors.len() ==> #[trigger] sectors[i].children().len() <= u32::MAX,
    ensures
        sectors.len() == 0 ==> tree_path_of(plan_rows(sectors)).len() == 0,
        sectors.len() > 0 ==> tree_path_of(plan_rows(sectors)).len() >= 1
            && tree_path_of(plan_rows(sectors))[0] + 1 == sectors.len(),
    decreases sectors.len(),
{
    if sectors.len() > 0 {
        let front = sectors.drop_last();
        lemma_plan_rows_path(front);
        let m = sectors.last().children().len();
        lemma_walk_concat(plan_rows(front), sector_rows(sectors.last()));
        lemma_walk_sector_block(tree_path_of(plan_rows(front)), front.len(), m);
    }
}

/// In the tree of a plan expanded to its sectors, the path of the row of
/// sector `s` is `[s]`, and the path of child row `c` of sector `s` is
/// `[s, c]`: the path names the sector and the row within it.
pub proof fn lemma_plan_tree_paths(sectors: Seq<SectorModel>, s: int, c: int)
    requires
        sectors.len() < u32::MAX,
        forall|i: int| 0 <= i < sectors.len() ==> #[trigger] sectors[i].children().len() < u32::MAX,
        0 <= s < sectors.len(),
    ensures
        tree_path_of(plan_rows(sectors.take(s)) + seq![Some(0u32)]) == seq![s as u32],
        0 <= c < sectors[s].children().len() ==> tree_path_of(
            plan_rows(sectors.take(s)) + seq![Some(0u32)] + Seq::new(
                (c + 1) as nat,
                |i: int| Some(1u32),
            ),
        ) == seq![s as u32, c as u32],
{
    let front = sectors.take(s);
    assert forall|i: int| 0 <= i < front.len() implies #[trigger] front[i].children().len()
        <= u32::MAX by {
        assert(front[i] == sectors[i]);
    }
    lemma_plan_rows_path(front);
    let p = tree_path_of(plan_rows(front));
    lemma_walk_concat(plan_rows(front), seq![Some(0u32)]);
    lemma_walk_sector_block(p, s as nat, 0);
    assert(seq![Some(0u32)] + Seq::new(0, |i: int| Some(1u32)) =~= seq![Some(0u32)]);
    if 0 <= c < sectors[s].children().len() {
        let m = (c + 1) as nat;
        let block = seq![Some(0u32)] + Seq::new(m, |i: int| Some(1u32));
        assert(plan_rows(front) + seq![Some(0u32)] + Seq::new(m, |i: int| Some(1u32))
            =~= plan_rows(front) + block);
        lemma_walk_concat(plan_rows(front), block);
        lemma_walk_sector_block(p, s as nat, m);
    }
}

} // verus!
