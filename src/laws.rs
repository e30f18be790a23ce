use vstd::prelude::*;
use vstd::set_lib::*;
use crate::colors::{assign_upto, assigned_colors, chosen_colors, first_free, PALETTE_SIZE};
use crate::header::{
    chunks_start_of, map_name_from, map_name_of_path, maps_dir, player_of,
    roster_of, roster_upto, table_text, HeaderPlayerView,
};
use crate::models::{ReplayError, ReplayErrorView, ReplayInfo, ReplayInfoView, Winner};
use crate::parser::{colored, decode, is_supported_map, magic, player_slots, result_view};
use crate::stream::analyze;
use crate::text::{find_from, split_chars};

verus! {

/// How many of the first `n` slot strings are lobby entries with a
/// non-negative team id.
pub open spec fn lobby_player_count(slots: Seq<Seq<char>>, n: int) -> int
    decreases n,
{
    if n <= 0 {
        0
    } else {
        lobby_player_count(slots, n - 1) + match player_of(slots[n - 1], ((n - 1) % 256) as u8) {
            Some(p) => if p.team_raw >= 0 {
                1int
            } else {
                0int
            },
            None => 0int,
        }
    }
}

/// The number of lobby entries of a log with a non-negative team id.
pub open spec fn lobby_players(d: Seq<u8>) -> int {
    match table_text(d) {
        Some(t) => lobby_player_count(split_chars(t, ':'), split_chars(t, ':').len() as int),
        None => 0,
    }
}

proof fn lemma_roster_count(sl: Seq<Seq<char>>, n: int)
    ensures
        roster_upto(sl, n).players.len() == lobby_player_count(sl, n),
    decreases n,
{
    if n > 0 {
        lemma_roster_count(sl, n - 1);
    }
}

/// A log with the signature, a readable supported map name and at least one
/// lobby entry with a non-negative team id decodes successfully, with one
/// player for every such entry.
pub proof fn lemma_decode_succeeds(d: Seq<u8>)
    requires
        d.len() >= 24,
        d.subrange(0, 8) == magic(),
        map_name_from(d, 0) is Some,
        is_supported_map(map_name_from(d, 0)->0),
        lobby_players(d) >= 1,
    ensures
        decode(d) is Ok,
        decode(d)->Ok_0.players.len() == lobby_players(d),
{
    if let Some(t) = table_text(d) {
        let sl = split_chars(t, ':');
        lemma_roster_count(sl, sl.len() as int);
    }
}

/// Decoding has no hidden input: two results that `parse_replay` gave for
/// the same bytes are equal, field for field.
pub proof fn lemma_decode_deterministic(
    data: Seq<u8>,
    r1: Result<ReplayInfo, ReplayError>,
    r2: Result<ReplayInfo, ReplayError>,
)
    requires
        result_view(r1) == decode(data),
        result_view(r2) == decode(data),
    ensures
        result_view(r1) == result_view(r2),
{
}

proof fn lemma_roster_upto_slots(sl: Seq<Seq<char>>, n: int)
    requires
        n <= 256,
    ensures
        forall|i: int|
            0 <= i < roster_upto(sl, n).players.len() ==> (#[trigger] roster_upto(
                sl,
                n,
            ).players[i]).slot < n,
        forall|i: int, j: int|
            0 <= i < j < roster_upto(sl, n).players.len() ==> (#[trigger] roster_upto(
                sl,
                n,
            ).players[i]).slot < (#[trigger] roster_upto(sl, n).players[j]).slot,
    decreases n,
{
    if n > 0 {
        lemma_roster_upto_slots(sl, n - 1);
        let r = roster_upto(sl, n - 1);
        match player_of(sl[n - 1], ((n - 1) % 256) as u8) {
            None => {},
            Some(p) => {
                assert(((n - 1) % 256) as u8 == n - 1);
            },
        }
    }
}

/// The players of a decoded log are in strictly increasing slot order, for
/// a lobby table of at most 256 slots (slot ids are bytes).
pub proof fn lemma_slots_increasing(d: Seq<u8>)
    requires
        decode(d) is Ok,
        table_text(d) matches Some(t) ==> split_chars(t, ':').len() <= 256,
    ensures
        forall|i: int, j: int|
            0 <= i < j < decode(d)->Ok_0.players.len() ==> (#[trigger] decode(d)->Ok_0.players[i]).slot
                < (#[trigger] decode(d)->Ok_0.players[j]).slot,
{
    if let Some(t) = table_text(d) {
        let sl = split_chars(t, ':');
        lemma_roster_upto_slots(sl, sl.len() as int);
    }
    let ps = roster_of(d).players;
    let info = decode(d)->Ok_0;
    assert(info.players.len() == ps.len());
    assert forall|i: int| 0 <= i < ps.len() implies (#[trigger] info.players[i]).slot == ps[i].slot by {}
}

/// True when no two lobby entries chose the same color explicitly.
pub open spec fn explicit_colors_distinct(ps: Seq<HeaderPlayerView>) -> bool {
    forall|i: int, j: int|
        0 <= i < ps.len() && 0 <= j < ps.len() && i != j && ps[i].color_id != -1
            && ps[j].color_id != -1 ==> #[trigger] ps[i].color_id != #[trigger] ps[j].color_id
}

/// What holds after the first `n` entries have their colors.
spec fn colors_inv(ps: Seq<HeaderPlayerView>, n: int) -> bool {
    let cs = assign_upto(ps, n).0;
    let used = assign_upto(ps, n).1;
    &&& forall|i: int|
        0 <= i < n && ps[i].color_id != -1 ==> #[trigger] cs[i] == ps[i].color_id
    &&& forall|i: int|
        0 <= i < n && ps[i].color_id == -1 ==> 0 <= #[trigger] cs[i] < 10 && used[cs[i] as int]
    &&& forall|i: int, j: int|
        0 <= i < n && ps[i].color_id == -1 && 0 <= j < ps.len() ==> #[trigger] cs[i]
            != #[trigger] ps[j].color_id
    &&& forall|c: int|
        0 <= c < 10 && #[trigger] used[c] ==> (exists|j: int|
            0 <= j < ps.len() && ps[j].color_id as int == c) || (exists|i: int|
            0 <= i < n && ps[i].color_id == -1 && cs[i] as int == c)
    &&& forall|j: int|
        0 <= j < ps.len() && 0 <= #[trigger] ps[j].color_id < 10 ==> used[ps[j].color_id as int]
    &&& forall|i: int, k: int| 0 <= i < n && 0 <= k < n && i != k ==> #[trigger] cs[i] != #[trigger] cs[k]
}

proof fn lemma_first_free_found(used: Seq<bool>, next: int, o: int, off: int)
    requires
        0 <= o <= off < 10,
        0 <= next,
        !used[(next + off) % 10],
    ensures
        first_free(used, next, o) is Some,
    decreases off - o,
{
    if o < off && used[(next + o) % 10] {
        lemma_first_free_found(used, next, o + 1, off);
    }
}

/// While fewer than ten entries exist, an entry whose color was left to
/// chance always finds a free color.
proof fn lemma_free_color_exists(ps: Seq<HeaderPlayerView>, n: int)
    requires
        ps.len() < 10,
        0 <= n < ps.len(),
        ps[n].color_id == -1,
        colors_inv(ps, n),
        assign_upto(ps, n).1.len() == PALETTE_SIZE,
    ensures
        exists|c: int| 0 <= c < 10 && !(#[trigger] assign_upto(ps, n).1[c]),
{
    let cs = assign_upto(ps, n).0;
    let used = assign_upto(ps, n).1;
    let owner_color = |i: int|
        if ps[i].color_id != -1 {
            ps[i].color_id as int
        } else if i < n {
            cs[i] as int
        } else {
            -1
        };
    let x = set_int_range(0, ps.len() as int).remove(n);
    let y = x.map(owner_color);
    lemma_int_range(0, ps.len() as int);
    assert(set_int_range(0, ps.len() as int).contains(n));
    assert(x.len() == ps.len() - 1);
    lemma_map_size_bound(x, y, owner_color);
    if forall|c: int| 0 <= c < 10 ==> #[trigger] used[c] {
        let all = set_int_range(0, 10);
        assert forall|c: int| #[trigger] all.contains(c) implies y.contains(c) by {
            assert(used[c]);
            if exists|j: int| 0 <= j < ps.len() && ps[j].color_id as int == c {
                let j = choose|j: int| 0 <= j < ps.len() && ps[j].color_id as int == c;
                assert(x.contains(j) && owner_color(j) == c);
            } else {
                let i = choose|i: int| 0 <= i < n && ps[i].color_id == -1 && cs[i] as int == c;
                assert(x.contains(i) && owner_color(i) == c);
            }
        }
        lemma_int_range(0, 10);
        lemma_len_subset(all, y);
        assert(false);
    }
}

proof fn lemma_colors_step(ps: Seq<HeaderPlayerView>, n: int)
    requires
        ps.len() < 10,
        explicit_colors_distinct(ps),
        0 <= n < ps.len(),
        colors_inv(ps, n),
    ensures
        colors_inv(ps, n + 1),
{
    crate::colors::lemma_assign_shape(ps, n);
    crate::colors::lemma_assign_shape(ps, n + 1);
    let cs = assign_upto(ps, n).0;
    let used = assign_upto(ps, n).1;
    let next = assign_upto(ps, n).2;
    let cs2 = assign_upto(ps, n + 1).0;
    let used2 = assign_upto(ps, n + 1).1;
    assert(forall|i: int| 0 <= i < n ==> cs2[i] == cs[i]);
    if ps[n].color_id == -1 {
        lemma_free_color_exists(ps, n);
        let c = choose|c: int| 0 <= c < 10 && !(#[trigger] used[c]);
        let off = (c - next + 10) % 10;
        assert((next + off) % 10 == c);
        lemma_first_free_found(used, next, 0, off);
        crate::colors::lemma_first_free_range(used, next, 0);
        let f = first_free(used, next, 0)->0;
        assert(cs2 == cs.push(f as i8));
        assert(used2 == used.update(f, true));
        assert forall|j: int| 0 <= j < ps.len() implies cs2[n] != #[trigger] ps[j].color_id by {
            if 0 <= ps[j].color_id < 10 {
                assert(used[ps[j].color_id as int]);
            }
        }
        assert forall|c2: int| 0 <= c2 < 10 && #[trigger] used2[c2] implies (exists|j: int|
            0 <= j < ps.len() && ps[j].color_id as int == c2) || (exists|i: int|
            0 <= i < n + 1 && ps[i].color_id == -1 && cs2[i] as int == c2) by {
            if c2 == f {
                assert(0 <= n < n + 1 && ps[n].color_id == -1 && cs2[n] as int == c2);
            } else {
                assert(used[c2]);
                if exists|i: int| 0 <= i < n && ps[i].color_id == -1 && cs[i] as int == c2 {
                    let i = choose|i: int| 0 <= i < n && ps[i].color_id == -1 && cs[i] as int == c2;
                    assert(cs2[i] == cs[i]);
                }
            }
        }
        assert forall|i: int, k: int| 0 <= i < n + 1 && 0 <= k < n + 1 && i != k implies #[trigger] cs2[i]
            != #[trigger] cs2[k] by {
            if i == n && k < n {
                if ps[k].color_id == -1 {
                    assert(used[cs[k] as int]);
                } else {
                    assert(cs[k] == ps[k].color_id);
                    if 0 <= ps[k].color_id < 10 {
                        assert(used[ps[k].color_id as int]);
                    }
                }
            } else if k == n && i < n {
                if ps[i].color_id == -1 {
                    assert(used[cs[i] as int]);
                } else {
                    assert(cs[i] == ps[i].color_id);
                    if 0 <= ps[i].color_id < 10 {
                        assert(used[ps[i].color_id as int]);
                    }
                }
            }
        }
        assert forall|i: int| 0 <= i < n + 1 && ps[i].color_id == -1 implies 0 <= #[trigger] cs2[i] < 10
            && used2[cs2[i] as int] by {
            if i < n {
                assert(used[cs[i] as int]);
            }
        }
    } else {
        assert(cs2 == cs.push(ps[n].color_id));
        assert(used2 == used);
        assert forall|i: int, k: int| 0 <= i < n + 1 && 0 <= k < n + 1 && i != k implies #[trigger] cs2[i]
            != #[trigger] cs2[k] by {
            if i == n && k < n {
                if ps[k].color_id == -1 {
                    assert(cs[k] != ps[n].color_id);
                } else {
                    assert(cs[k] == ps[k].color_id);
                }
            } else if k == n && i < n {
                if ps[i].color_id == -1 {
                    assert(cs[i] != ps[n].color_id);
                } else {
                    assert(cs[i] == ps[i].color_id);
                }
            }
        }
        assert forall|c2: int| 0 <= c2 < 10 && #[trigger] used2[c2] implies (exists|j: int|
            0 <= j < ps.len() && ps[j].color_id as int == c2) || (exists|i: int|
            0 <= i < n + 1 && ps[i].color_id == -1 && cs2[i] as int == c2) by {
            if exists|i: int| 0 <= i < n && ps[i].color_id == -1 && cs[i] as int == c2 {
                let i = choose|i: int| 0 <= i < n && ps[i].color_id == -1 && cs[i] as int == c2;
                assert(cs2[i] == cs[i]);
            }
        }
    }
}

proof fn lemma_colors_upto(ps: Seq<HeaderPlayerView>, n: int)
    requires
        ps.len() < 10,
        explicit_colors_distinct(ps),
        0 <= n <= ps.len(),
    ensures
        colors_inv(ps, n),
    decreases n,
{
    if n == 0 {
        assert(assign_upto(ps, 0).1 == chosen_colors(ps));
        assert forall|j: int| 0 <= j < ps.len() && 0 <= #[trigger] ps[j].color_id < 10 implies assign_upto(
            ps,
            0,
        ).1[ps[j].color_id as int] by {
            assert(chosen_colors(ps)[ps[j].color_id as int]);
        }
    } else {
        lemma_colors_upto(ps, n - 1);
        lemma_colors_step(ps, n - 1);
    }
}

/// Resolved colors never collide: with fewer than ten players and no color
/// chosen explicitly by two of them, no two players share a color id.
pub proof fn lemma_colors_distinct(d: Seq<u8>)
    requires
        decode(d) is Ok,
        roster_of(d).players.len() < 10,
        explicit_colors_distinct(roster_of(d).players),
    ensures
        forall|i: int, j: int|
            0 <= i < decode(d)->Ok_0.players.len() && 0 <= j < decode(d)->Ok_0.players.len() && i
                != j ==> #[trigger] decode(d)->Ok_0.players[i].color_id
                != #[trigger] decode(d)->Ok_0.players[j].color_id,
{
    let ps = roster_of(d).players;
    lemma_colors_upto(ps, ps.len() as int);
    let info = decode(d)->Ok_0;
    let cs = assigned_colors(ps);
    assert forall|i: int| 0 <= i < ps.len() implies #[trigger] info.players[i].color_id == cs[i] by {}
    assert forall|i: int, j: int|
        0 <= i < info.players.len() && 0 <= j < info.players.len() && i != j implies #[trigger] info.players[i].color_id
            != #[trigger] info.players[j].color_id by {
        assert(info.players[i].color_id == cs[i]);
        assert(info.players[j].color_id == cs[j]);
    }
}

/// A map path without "maps/" in it is its own map name.
pub proof fn lemma_plain_path_is_map_name(p: Seq<char>)
    requires
        p.len() > 0,
        find_from(p, maps_dir(), 0) is None,
    ensures
        map_name_of_path(p) == Some(p),
{
}

/// A buffer shorter than the signature and the two timestamps, or one that
/// does not start with the signature, is rejected as an invalid header,
/// whatever else it holds.
pub proof fn lemma_bad_signature_rejected(d: Seq<u8>)
    requires
        d.len() < 24 || d.subrange(0, 8) != magic(),
    ensures
        decode(d) == Err::<ReplayInfoView, ReplayErrorView>(ReplayErrorView::InvalidHeader),
{
}

/// A log whose header gives a map name other than the supported one is
/// rejected with that name, before its lobby or stream decides anything.
pub proof fn lemma_other_map_rejected(d: Seq<u8>, name: Seq<char>)
    requires
        d.len() >= 24,
        d.subrange(0, 8) == magic(),
        map_name_from(d, 0) == Some(name),
        !is_supported_map(name),
    ensures
        decode(d) == Err::<ReplayInfoView, ReplayErrorView>(ReplayErrorView::UnsupportedMap(name)),
{
}

/// A decoded log whose command stream holds neither an end-game event nor
/// a defeat is a crashed match that did not conclude.
pub proof fn lemma_no_events_is_crash(d: Seq<u8>)
    requires
        decode(d) is Ok,
        chunks_start_of(d) is Some,
        analyze(
            d,
            chunks_start_of(d)->0,
            roster_of(d).occupied,
            player_slots(colored(roster_of(d).players)),
        ).endgame is None,
        !analyze(
            d,
            chunks_start_of(d)->0,
            roster_of(d).occupied,
            player_slots(colored(roster_of(d).players)),
        ).any_defeated,
    ensures
        decode(d)->Ok_0.winner == Winner::NotConcluded,
        decode(d)->Ok_0.game_crashed,
{
}

} // verus!
