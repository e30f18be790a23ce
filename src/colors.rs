use vstd::prelude::*;
use crate::header::{players_view, HeaderPlayer, HeaderPlayerView};

verus! {

/// Number of palette colors.
pub const PALETTE_SIZE: usize = 10;

/// Length of the run of free colors that ends at id `e` (0 if `e` is used).
pub open spec fn run_ending(used: Seq<bool>, e: int) -> int
    decreases e + 1,
{
    if e < 0 || used[e] {
        0
    } else {
        run_ending(used, e - 1) + 1
    }
}

/// The largest id in `0..=k` at which the longest run of free colors ends.
pub open spec fn best_end_upto(used: Seq<bool>, k: int) -> int
    decreases k,
{
    if k <= 0 {
        0
    } else {
        let b = best_end_upto(used, k - 1);
        if run_ending(used, k) >= run_ending(used, b) {
            k
        } else {
            b
        }
    }
}

/// The longest run of free colors among ids 0 to 8 (white, id 9, is kept for
/// players who pick it), as (start, end, length); on equal lengths the run
/// that ends later wins; (0, 0, 0) when every id is used.
pub open spec fn best_gap(used: Seq<bool>) -> (i8, i8, i8) {
    let e = best_end_upto(used, 8);
    let l = run_ending(used, e);
    if l == 0 {
        (0, 0, 0)
    } else {
        ((e - l + 1) as i8, e as i8, l as i8)
    }
}

proof fn lemma_run_bounds(used: Seq<bool>, e: int)
    ensures
        0 <= run_ending(used, e) <= if e < 0 { 0 } else { e + 1 },
    decreases e + 1,
{
    if e >= 0 {
        lemma_run_bounds(used, e - 1);
    }
}

proof fn lemma_best_bounds(used: Seq<bool>, k: int)
    ensures
        0 <= best_end_upto(used, k) <= if k < 0 { 0 } else { k },
    decreases k,
{
    if k > 0 {
        lemma_best_bounds(used, k - 1);
    }
}

/// Finds the longest run of free colors among ids 0 to 8; `used[c]` tells
/// whether color `c` is taken.
pub fn find_best_gap(used: &[bool]) -> (r: (i8, i8, i8))
    requires
        used@.len() == PALETTE_SIZE,
    ensures
        r == best_gap(used@),
{
    let mut run: i8 = 0;
    let mut best_end: i8 = 0;
    let mut best_len: i8 = 0;
    let mut c: i8 = 0;
    while c < 9
        invariant
            0 <= c <= 9,
            used@.len() == PALETTE_SIZE,
            run as int == run_ending(used@, c - 1),
            c > 0 ==> best_end as int == best_end_upto(used@, c - 1),
            c > 0 ==> best_len as int == run_ending(used@, best_end as int),
            c == 0 ==> best_len == 0 && best_end == 0,
            0 <= best_end < 9,
        decreases 9 - c,
    {
        proof {
            lemma_run_bounds(used@, c - 1);
        }
        if used[c as usize] {
            run = 0;
        } else {
            run = run + 1;
        }
        if c == 0 || run >= best_len {
            best_end = c;
            best_len = run;
        }
        proof {
            lemma_best_bounds(used@, c as int);
        }
        c = c + 1;
    }
    proof {
        lemma_run_bounds(used@, best_end as int);
    }
    if best_len == 0 {
        (0, 0, 0)
    } else {
        (best_end - best_len + 1, best_end, best_len)
    }
}

/// `p` with color id `c`.
pub open spec fn with_color(p: HeaderPlayerView, c: i8) -> HeaderPlayerView {
    HeaderPlayerView { color_id: c, ..p }
}

/// By color id: whether some lobby entry chose that color explicitly.
pub open spec fn chosen_colors(ps: Seq<HeaderPlayerView>) -> Seq<bool> {
    Seq::new(
        PALETTE_SIZE as nat,
        |c: int| exists|i: int| 0 <= i < ps.len() && ps[i].color_id as int == c,
    )
}

/// The first free color id at `next + off` or later, going round the palette.
pub open spec fn first_free(used: Seq<bool>, next: int, off: int) -> Option<int>
    decreases 10 - off,
{
    if off < 0 || off >= 10 {
        None
    } else if !used[(next + off) % 10] {
        Some((next + off) % 10)
    } else {
        first_free(used, next, off + 1)
    }
}

/// Where the assignment of random colors starts: at the start of the best
/// run of free colors when it is at least 3 long, else at its end.
pub open spec fn start_cursor(used: Seq<bool>) -> int {
    let (s, e, l) = best_gap(used);
    if l >= 3 {
        s as int
    } else {
        e as int
    }
}

/// After the first `n` entries: their color ids, the colors in use, and the cursor.
pub open spec fn assign_upto(ps: Seq<HeaderPlayerView>, n: int) -> (Seq<i8>, Seq<bool>, int)
    decreases n,
{
    if n <= 0 {
        (Seq::empty(), chosen_colors(ps), start_cursor(chosen_colors(ps)))
    } else {
        let (cs, used, next) = assign_upto(ps, n - 1);
        let id = ps[n - 1].color_id;
        if id == -1 {
            match first_free(used, next, 0) {
                Some(c) => (cs.push(c as i8), used.update(c, true), (c + 1) % 10),
                None => (cs.push(id), used, next),
            }
        } else {
            (cs.push(id), used, next)
        }
    }
}

/// The color id of every entry once random colors are resolved.
pub open spec fn assigned_colors(ps: Seq<HeaderPlayerView>) -> Seq<i8> {
    assign_upto(ps, ps.len() as int).0
}

pub(crate) proof fn lemma_first_free_range(used: Seq<bool>, next: int, off: int)
    requires
        0 <= next,
    ensures
        first_free(used, next, off) matches Some(c) ==> 0 <= c < 10 && !used[c],
    decreases 10 - off,
{
    if 0 <= off < 10 && used[(next + off) % 10] {
        lemma_first_free_range(used, next, off + 1);
    }
}

pub(crate) proof fn lemma_assign_shape(ps: Seq<HeaderPlayerView>, n: int)
    requires
        0 <= n <= ps.len(),
    ensures
        assign_upto(ps, n).0.len() == n,
        assign_upto(ps, n).1.len() == PALETTE_SIZE,
        0 <= assign_upto(ps, n).2 < 10,
    decreases n,
{
    if n > 0 {
        lemma_assign_shape(ps, n - 1);
        let (cs, used, next) = assign_upto(ps, n - 1);
        lemma_first_free_range(used, next, 0);
    } else {
        let g = best_gap(chosen_colors(ps));
        lemma_best_bounds(chosen_colors(ps), 8);
        lemma_run_bounds(chosen_colors(ps), best_end_upto(chosen_colors(ps), 8));
    }
}

/// Gives every entry whose color was left to chance (-1) a free color,
/// spreading them from the longest run of free colors on.
pub fn assign_player_colors(players: &mut Vec<HeaderPlayer>)
    ensures
        final(players)@.len() == old(players)@.len(),
        forall|i: int|
            0 <= i < old(players)@.len() ==> (#[trigger] final(players)@[i])@ == with_color(
                old(players)@[i]@,
                assigned_colors(players_view(old(players)@))[i],
            ),
{
    let ghost ps = players_view(players@);
    let mut used: Vec<bool> = vec![false; PALETTE_SIZE];
    let mut k: usize = 0;
    while k < players.len()
        invariant
            k <= players@.len(),
            ps == players_view(players@),
            used@.len() == PALETTE_SIZE,
            forall|c: int|
                0 <= c < 10 ==> used@[c] == (exists|i: int|
                    0 <= i < k && ps[i].color_id as int == c),
        decreases players@.len() - k,
    {
        let id = players[k].color_id;
        if id >= 0 && id < 10 {
            used.set(id as usize, true);
        }
        k = k + 1;
        assert forall|c: int| 0 <= c < 10 implies used@[c] == exists|i: int|
            0 <= i < k && ps[i].color_id as int == c by {
            if ps[k - 1].color_id as int == c {
                assert(ps[k - 1].color_id == players@[k - 1].color_id);
            }
        }
    }
    assert(used@ =~= chosen_colors(ps));
    let (gap_start, gap_end, gap_len) = find_best_gap(used.as_slice());
    let mut next: i8 = if gap_len >= 3 {
        gap_start
    } else {
        gap_end
    };
    proof {
        lemma_assign_shape(ps, 0);
    }
    let mut k: usize = 0;
    while k < players.len()
        invariant
            k <= players@.len(),
            players@.len() == ps.len(),
            used@.len() == PALETTE_SIZE,
            used@ == assign_upto(ps, k as int).1,
            next as int == assign_upto(ps, k as int).2,
            0 <= next < 10,
            forall|i: int| k <= i < ps.len() ==> (#[trigger] players@[i])@ == ps[i],
            forall|i: int|
                0 <= i < k ==> (#[trigger] players@[i])@ == with_color(
                    ps[i],
                    assign_upto(ps, k as int).0[i],
                ),
        decreases players@.len() - k,
    {
        proof {
            lemma_assign_shape(ps, k as int);
            lemma_assign_shape(ps, k + 1);
        }
        assert(players@[k as int]@ == ps[k as int]);
        if players[k].color_id == -1 {
            let mut off: i8 = 0;
            while off < 10
                invariant
                    0 <= off <= 10,
                    0 <= next < 10,
                    used@.len() == PALETTE_SIZE,
                    first_free(used@, next as int, 0) == first_free(used@, next as int, off as int),
                ensures
                    0 <= off <= 10,
                    first_free(used@, next as int, 0) == first_free(used@, next as int, off as int),
                    off < 10 ==> !used@[(next + off) % 10],
                decreases 10 - off,
            {
                let c = (next + off) % 10;
                if !used[c as usize] {
                    break;
                }
                off = off + 1;
            }
            if off < 10 {
                let c = (next + off) % 10;
                assert(first_free(used@, next as int, 0) == Some(c as int));
                players[k].color_id = c;
                used.set(c as usize, true);
                next = (c + 1) % 10;
            }
        }
        k = k + 1;
        assert forall|i: int| 0 <= i < k implies (#[trigger] players@[i])@ == with_color(
            ps[i],
            assign_upto(ps, k as int).0[i],
        ) by {}
    }
}

} // verus!
