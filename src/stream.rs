use vstd::prelude::*;
use crate::models::{Faction, MapPosition};
use crate::text::{le_u32, read_le_u32};

verus! {

/// Order code of the first "build object" command.
pub const CMD_BUILD_OBJECT: u32 = 1049;
/// Order code of the second "build object" command.
pub const CMD_BUILD_OBJECT_2: u32 = 1050;
/// Order code of a unit command, which also carries a position.
pub const CMD_UNIT_COMMAND: u32 = 1071;
/// Order code of the end-game event.
pub const CMD_END_GAME: u32 = 29;
/// Order code of the player-defeated event.
pub const CMD_PLAYER_DEFEATED: u32 = 1096;

/// Largest plausible time code of a chunk.
pub const MAX_SANE_TIMECODE: u32 = 10_000_000;
/// Largest plausible player number of a chunk.
pub const MAX_SANE_PLAYER_NUM: u32 = 100;
/// Largest plausible number of argument descriptors of a chunk.
pub const MAX_SANE_ARG_TYPES: u8 = 100;
/// Largest plausible element count of one argument descriptor.
pub const MAX_SANE_ARG_COUNT: u8 = 50;

/// Number of distinct lobby slot ids (a slot id is a `u8`).
pub const SLOT_IDS: usize = 256;
/// Number of player numbers that a decoded chunk can carry (0 to 100).
pub const PLAYER_NUMS: usize = 101;

/// One decoded argument; floating-point values are kept as their bits.
#[derive(Debug, Clone, Copy, PartialEq, Eq, Structural)]
pub enum ChunkArg {
    Int(u32),
    Float(u32),
    Vec3(u32, u32, u32),
    Other,
}

/// One decoded command record.
pub struct Chunk {
    pub time_code: u32,
    pub order_type: u32,
    pub player_num: u32,
    pub args: Vec<ChunkArg>,
}

pub ghost struct ChunkView {
    pub time_code: u32,
    pub order_type: u32,
    pub player_num: u32,
    pub args: Seq<ChunkArg>,
}

impl View for Chunk {
    type V = ChunkView;

    open spec fn view(&self) -> ChunkView {
        ChunkView {
            time_code: self.time_code,
            order_type: self.order_type,
            player_num: self.player_num,
            args: self.args@,
        }
    }
}

/// Width in bytes of one element of an argument of type `t`.
pub open spec fn arg_size(t: u8) -> int {
    if t == 2 {
        1
    } else if t == 5 {
        8
    } else if t == 6 || t == 7 {
        12
    } else if t == 8 {
        16
    } else {
        4
    }
}

fn get_arg_size(arg_type: u8) -> (r: usize)
    ensures
        r as int == arg_size(arg_type),
{
    match arg_type {
        0x00 => 4,
        0x01 => 4,
        0x02 => 1,
        0x03 => 4,
        0x04 => 4,
        0x05 => 8,
        0x06 => 12,
        0x07 => 12,
        0x08 => 16,
        0x09 => 4,
        0x0A => 4,
        _ => 4,
    }
}

/// The argument of type `t` whose bytes start at `pos`.
pub open spec fn arg_at(d: Seq<u8>, t: u8, pos: int) -> ChunkArg {
    if t == 6 {
        ChunkArg::Vec3(le_u32(d, pos) as u32, le_u32(d, pos + 4) as u32, le_u32(d, pos + 8) as u32)
    } else if t == 0 {
        ChunkArg::Int(le_u32(d, pos) as u32)
    } else if t == 1 {
        ChunkArg::Float(le_u32(d, pos) as u32)
    } else {
        ChunkArg::Other
    }
}

/// True when the `n` descriptors at `base` lie inside `d` and none has more
/// than the plausible number of elements.
pub open spec fn descriptors_ok(d: Seq<u8>, base: int, n: int) -> bool {
    base + 2 * n <= d.len() && forall|k: int|
        0 <= k < n ==> #[trigger] d[base + 2 * k + 1] <= MAX_SANE_ARG_COUNT
}

/// Reads the arguments described by descriptors `k..n` at `base`, element `j`
/// of descriptor `k` onwards, starting at byte `pos`, after those in `acc`.
/// Gives the offset after the last argument, or `None` when one runs past
/// the end of `d`.
pub open spec fn read_args(
    d: Seq<u8>,
    base: int,
    n: int,
    k: int,
    j: int,
    pos: int,
    acc: Seq<ChunkArg>,
) -> Option<(int, Seq<ChunkArg>)>
    decreases n - k, 256 - j,
{
    if k < 0 || k >= n || base + 2 * k + 1 >= d.len() || base < 0 {
        Some((pos, acc))
    } else {
        let t = d[base + 2 * k];
        let cnt = d[base + 2 * k + 1] as int;
        if j >= cnt {
            read_args(d, base, n, k + 1, 0, pos, acc)
        } else if j < 0 || pos + arg_size(t) > d.len() {
            None
        } else {
            read_args(d, base, n, k, j + 1, pos + arg_size(t), acc.push(arg_at(d, t, pos)))
        }
    }
}

/// The chunk whose record starts at `off`, with the offset just after it;
/// `None` when the bytes there are no plausible record.
pub open spec fn chunk_at(d: Seq<u8>, off: int) -> Option<(int, ChunkView)> {
    if off < 0 || off + 13 > d.len() {
        None
    } else {
        let tc = le_u32(d, off);
        let ot = le_u32(d, off + 4);
        let pn = le_u32(d, off + 8);
        let n = d[off + 12] as int;
        if tc > MAX_SANE_TIMECODE || pn > MAX_SANE_PLAYER_NUM || n > MAX_SANE_ARG_TYPES as int {
            None
        } else if !descriptors_ok(d, off + 13, n) {
            None
        } else {
            match read_args(d, off + 13, n, 0, 0, off + 13 + 2 * n, Seq::empty()) {
                None => None,
                Some((end, args)) => Some(
                    (
                        end,
                        ChunkView {
                            time_code: tc as u32,
                            order_type: ot as u32,
                            player_num: pn as u32,
                            args,
                        },
                    ),
                ),
            }
        }
    }
}

/// Decodes the chunk record at `offset`.
fn parse_chunk(data: &[u8], offset: usize) -> (r: Option<(usize, Chunk)>)
    ensures
        r matches Some((next, c)) ==> chunk_at(data@, offset as int) == Some(
            (next as int, c@),
        ) && offset + 13 <= next <= data@.len() && c.player_num <= MAX_SANE_PLAYER_NUM,
        r is None ==> chunk_at(data@, offset as int) is None,
{
    let len = data.len();
    if offset > len || len - offset < 13 {
        return None;
    }
    let time_code = read_le_u32(data, offset);
    let order_type = read_le_u32(data, offset + 4);
    let player_num = read_le_u32(data, offset + 8);
    let n_arg_types = data[offset + 12];
    if time_code > MAX_SANE_TIMECODE || player_num > MAX_SANE_PLAYER_NUM || n_arg_types
        > MAX_SANE_ARG_TYPES {
        return None;
    }
    let base = offset + 13;
    let n = n_arg_types as usize;
    // Argument descriptors: (type, count) pairs.
    let mut k: usize = 0;
    while k < n
        invariant
            k <= n,
            n <= 100,
            base == offset + 13,
            base <= len,
            len == data@.len(),
            base + 2 * k <= len,
            forall|i: int| 0 <= i < k ==> #[trigger] data@[base + 2 * i + 1] <= MAX_SANE_ARG_COUNT,
            time_code as int == le_u32(data@, offset as int),
            order_type as int == le_u32(data@, offset as int + 4),
            player_num as int == le_u32(data@, offset as int + 8),
            n == data@[offset + 12] as usize,
            time_code <= MAX_SANE_TIMECODE,
            player_num <= MAX_SANE_PLAYER_NUM,
            offset + 13 <= len,
        decreases n - k,
    {
        if len - (base + 2 * k) < 2 {
            return None;
        }
        if data[base + 2 * k + 1] > MAX_SANE_ARG_COUNT {
            assert(!descriptors_ok(data@, base as int, n as int)) by {
                assert(data@[base + 2 * k + 1] > MAX_SANE_ARG_COUNT);
            }
            return None;
        }
        k = k + 1;
    }
    assert(descriptors_ok(data@, base as int, n as int));
    // Arguments.
    let ghost start = base + 2 * n;
    let mut pos: usize = base + 2 * n;
    let mut args: Vec<ChunkArg> = Vec::new();
    k = 0;
    while k < n
        invariant
            k <= n,
            n <= 100,
            base == offset + 13,
            len == data@.len(),
            base + 2 * n <= pos <= len,
            descriptors_ok(data@, base as int, n as int),
            start == base + 2 * n,
            time_code as int == le_u32(data@, offset as int),
            order_type as int == le_u32(data@, offset as int + 4),
            player_num as int == le_u32(data@, offset as int + 8),
            n == data@[offset + 12] as usize,
            time_code <= MAX_SANE_TIMECODE,
            player_num <= MAX_SANE_PLAYER_NUM,
            offset + 13 <= len,
            read_args(data@, base as int, n as int, 0, 0, start, Seq::empty()) == read_args(
                data@,
                base as int,
                n as int,
                k as int,
                0,
                pos as int,
                args@,
            ),
        decreases n - k,
    {
        let arg_type = data[base + 2 * k];
        let arg_count = data[base + 2 * k + 1];
        let size = get_arg_size(arg_type);
        let mut j: u8 = 0;
        while j < arg_count
            invariant
                k < n,
                n <= 100,
                j <= arg_count,
                arg_type == data@[base + 2 * k],
                arg_count == data@[base + 2 * k + 1],
                size as int == arg_size(arg_type),
                base == offset + 13,
                len == data@.len(),
                base + 2 * n <= pos <= len,
                descriptors_ok(data@, base as int, n as int),
                time_code as int == le_u32(data@, offset as int),
                order_type as int == le_u32(data@, offset as int + 4),
                player_num as int == le_u32(data@, offset as int + 8),
                n == data@[offset + 12] as usize,
                time_code <= MAX_SANE_TIMECODE,
                player_num <= MAX_SANE_PLAYER_NUM,
                offset + 13 <= len,
                start == base + 2 * n,
                read_args(data@, base as int, n as int, 0, 0, start, Seq::empty()) == read_args(
                    data@,
                    base as int,
                    n as int,
                    k as int,
                    j as int,
                    pos as int,
                    args@,
                ),
            decreases arg_count - j,
        {
            if size > len - pos {
                assert(read_args(data@, base as int, n as int, k as int, j as int, pos as int, args@) is None);
                return None;
            }
            let arg = if arg_type == 0x06 {
                ChunkArg::Vec3(
                    read_le_u32(data, pos),
                    read_le_u32(data, pos + 4),
                    read_le_u32(data, pos + 8),
                )
            } else if arg_type == 0x00 {
                ChunkArg::Int(read_le_u32(data, pos))
            } else if arg_type == 0x01 {
                ChunkArg::Float(read_le_u32(data, pos))
            } else {
                ChunkArg::Other
            };
            assert(arg == arg_at(data@, arg_type, pos as int));
            args.push(arg);
            pos = pos + size;
            j = j + 1;
        }
        k = k + 1;
    }
    let chunk = Chunk { time_code, order_type, player_num, args };
    Some((pos, chunk))
}


// ---------------------------------------------------------------------------
// What a chunk tells
// ---------------------------------------------------------------------------

/// The x and y of the first three-float argument at index `i` or later.
pub open spec fn first_vec3_from(args: Seq<ChunkArg>, i: int) -> Option<MapPosition>
    decreases args.len() - i,
{
    if i < 0 || i >= args.len() {
        None
    } else {
        match args[i] {
            ChunkArg::Vec3(x, y, _) => Some(MapPosition { x_bits: x, y_bits: y }),
            _ => first_vec3_from(args, i + 1),
        }
    }
}

/// True when `v` is plausibly a building type id.
pub open spec fn is_building_id(v: u32) -> bool {
    2000 < v && v < 3000
}

/// The first integer argument at index `i` or later that is a building type id.
pub open spec fn first_building_id_from(args: Seq<ChunkArg>, i: int) -> Option<u32>
    decreases args.len() - i,
{
    if i < 0 || i >= args.len() {
        None
    } else {
        match args[i] {
            ChunkArg::Int(v) => if is_building_id(v) {
                Some(v)
            } else {
                first_building_id_from(args, i + 1)
            },
            _ => first_building_id_from(args, i + 1),
        }
    }
}

/// Extracts the position (x, y of the first three-float argument) of a chunk.
fn extract_position(chunk: &Chunk) -> (r: Option<MapPosition>)
    ensures
        r == first_vec3_from(chunk.args@, 0),
{
    let mut i: usize = 0;
    while i < chunk.args.len()
        invariant
            i <= chunk.args@.len(),
            first_vec3_from(chunk.args@, 0) == first_vec3_from(chunk.args@, i as int),
        decreases chunk.args@.len() - i,
    {
        if let ChunkArg::Vec3(x, y, _) = chunk.args[i] {
            return Some(MapPosition::new(x, y));
        }
        i = i + 1;
    }
    None
}

/// Extracts the first building type id among the integer arguments of a chunk.
fn extract_building_id(chunk: &Chunk) -> (r: Option<u32>)
    ensures
        r == first_building_id_from(chunk.args@, 0),
{
    let mut i: usize = 0;
    while i < chunk.args.len()
        invariant
            i <= chunk.args@.len(),
            first_building_id_from(chunk.args@, 0) == first_building_id_from(chunk.args@, i as int),
        decreases chunk.args@.len() - i,
    {
        if let ChunkArg::Int(v) = chunk.args[i] {
            if v > 2000 && v < 3000 {
                return Some(v);
            }
        }
        i = i + 1;
    }
    None
}

/// The faction whose buildings carry type id `b`, if any.
pub open spec fn faction_of_building(b: u32) -> Option<Faction> {
    if 2622 <= b <= 2720 {
        Some(Faction::Men)
    } else if 2577 <= b <= 2620 {
        Some(Faction::Elves)
    } else if 2541 <= b <= 2575 {
        Some(Faction::Dwarves)
    } else if 2151 <= b <= 2185 {
        Some(Faction::Goblins)
    } else if 2060 <= b <= 2090 {
        Some(Faction::Isengard)
    } else if 2130 <= b <= 2150 {
        Some(Faction::Mordor)
    } else {
        None
    }
}

/// Infers a faction from a building type id.
pub fn infer_faction_from_building(building_type: u32) -> (r: Option<Faction>)
    ensures
        r == faction_of_building(building_type),
{
    if 2622 <= building_type && building_type <= 2720 {
        Some(Faction::Men)
    } else if 2577 <= building_type && building_type <= 2620 {
        Some(Faction::Elves)
    } else if 2541 <= building_type && building_type <= 2575 {
        Some(Faction::Dwarves)
    } else if 2151 <= building_type && building_type <= 2185 {
        Some(Faction::Goblins)
    } else if 2060 <= building_type && building_type <= 2090 {
        Some(Faction::Isengard)
    } else if 2130 <= building_type && building_type <= 2150 {
        Some(Faction::Mordor)
    } else {
        None
    }
}

/// The faction of the first id at index `i` or later that belongs to one.
pub open spec fn faction_in_from(ids: Seq<u32>, i: int) -> Option<Faction>
    decreases ids.len() - i,
{
    if i < 0 || i >= ids.len() {
        None
    } else if faction_of_building(ids[i]).is_some() {
        faction_of_building(ids[i])
    } else {
        faction_in_from(ids, i + 1)
    }
}

/// The faction of the first of these building ids (in the order observed)
/// that belongs to one.
pub fn detect_faction_from_buildings(buildings: &[u32]) -> (r: Option<Faction>)
    ensures
        r == faction_in_from(buildings@, 0),
{
    let mut i: usize = 0;
    while i < buildings.len()
        invariant
            i <= buildings@.len(),
            faction_in_from(buildings@, 0) == faction_in_from(buildings@, i as int),
        decreases buildings@.len() - i,
    {
        let f = infer_faction_from_building(buildings[i]);
        if f.is_some() {
            return f;
        }
        i = i + 1;
    }
    None
}

// ---------------------------------------------------------------------------
// Accumulated events
// ---------------------------------------------------------------------------

/// The lobby slot that player number `pn` stands for: numbers are handed out
/// from 3 upwards to the occupied slots in order.
pub open spec fn slot_of_pn(occupied: Seq<u8>, pn: int) -> Option<u8> {
    if 3 <= pn < 3 + occupied.len() {
        Some(occupied[pn - 3])
    } else {
        None
    }
}

/// True when player number `pn` stands for a slot that holds a player
/// (`player_slot[s]` tells whether slot `s` does).
pub open spec fn pn_is_player(occupied: Seq<u8>, player_slot: Seq<bool>, pn: int) -> bool {
    match slot_of_pn(occupied, pn) {
        Some(s) => player_slot[s as int],
        None => false,
    }
}

/// What the two passes over the command stream have gathered.
pub struct EventScan {
    /// Largest time code of any decoded chunk.
    pub max_timecode: u32,
    /// By slot: the first position of a build command.
    pub build_positions: Vec<Option<MapPosition>>,
    /// By slot: the first position of a unit command.
    pub unit_positions: Vec<Option<MapPosition>>,
    /// By slot: the building type ids of build commands, in stream order.
    pub building_ids: Vec<Vec<u32>>,
    /// By player number: whether a defeat was recorded.
    pub defeated: Vec<bool>,
    /// Whether any defeat was recorded.
    pub any_defeated: bool,
    /// The latest end-game event: (player number, time code).
    pub endgame: Option<(u32, u32)>,
}

pub ghost struct ScanState {
    pub max_timecode: u32,
    pub build_positions: Seq<Option<MapPosition>>,
    pub unit_positions: Seq<Option<MapPosition>>,
    pub building_ids: Seq<Seq<u32>>,
    pub defeated: Seq<bool>,
    pub any_defeated: bool,
    pub endgame: Option<(u32, u32)>,
}

impl View for EventScan {
    type V = ScanState;

    open spec fn view(&self) -> ScanState {
        ScanState {
            max_timecode: self.max_timecode,
            build_positions: self.build_positions@,
            unit_positions: self.unit_positions@,
            building_ids: self.building_ids@.map_values(|v: Vec<u32>| v@),
            defeated: self.defeated@,
            any_defeated: self.any_defeated,
            endgame: self.endgame,
        }
    }
}

impl ScanState {
    pub open spec fn wf(&self) -> bool {
        &&& self.build_positions.len() == SLOT_IDS
        &&& self.unit_positions.len() == SLOT_IDS
        &&& self.building_ids.len() == SLOT_IDS
        &&& self.defeated.len() == PLAYER_NUMS
    }

    /// Nothing seen yet.
    pub open spec fn initial() -> ScanState {
        ScanState {
            max_timecode: 0,
            build_positions: Seq::new(SLOT_IDS as nat, |i: int| None),
            unit_positions: Seq::new(SLOT_IDS as nat, |i: int| None),
            building_ids: Seq::new(SLOT_IDS as nat, |i: int| Seq::empty()),
            defeated: Seq::new(PLAYER_NUMS as nat, |i: int| false),
            any_defeated: false,
            endgame: None,
        }
    }

    /// The position of `slot`: a build position if there is one, else a unit position.
    pub open spec fn position(&self, slot: u8) -> Option<MapPosition> {
        if self.build_positions[slot as int].is_some() {
            self.build_positions[slot as int]
        } else {
            self.unit_positions[slot as int]
        }
    }

    /// The faction inferred for `slot`; only a positioned slot gets one.
    pub open spec fn faction(&self, slot: u8) -> Option<Faction> {
        if self.position(slot).is_some() {
            faction_in_from(self.building_ids[slot as int], 0)
        } else {
            None
        }
    }

    /// True when player number `pn` was recorded as defeated.
    pub open spec fn is_defeated(&self, pn: int) -> bool {
        0 <= pn < PLAYER_NUMS && self.defeated[pn]
    }

    /// After a defeat of player number `pn`.
    pub open spec fn with_defeat(self, pn: u32) -> ScanState {
        ScanState { defeated: self.defeated.update(pn as int, true), any_defeated: true, ..self }
    }

    /// After an end-game event; the latest (by time code) is kept, a tie going
    /// to the newer one.
    pub open spec fn with_endgame(self, pn: u32, tc: u32) -> ScanState {
        match self.endgame {
            Some((_, t)) if tc < t => self,
            _ => ScanState { endgame: Some((pn, tc)), ..self },
        }
    }
}

/// `v` with `p` recorded for `slot` unless it already holds one.
pub open spec fn first_write(v: Seq<Option<MapPosition>>, slot: u8, p: Option<MapPosition>) -> Seq<
    Option<MapPosition>,
> {
    if v[slot as int].is_none() && p.is_some() {
        v.update(slot as int, p)
    } else {
        v
    }
}

/// The state after one decoded chunk.
pub open spec fn step(st: ScanState, c: ChunkView, occupied: Seq<u8>, player_slot: Seq<bool>) -> ScanState {
    let st = ScanState {
        max_timecode: if c.time_code > st.max_timecode {
            c.time_code
        } else {
            st.max_timecode
        },
        ..st
    };
    match slot_of_pn(occupied, c.player_num as int) {
        None => st,
        Some(slot) => if !player_slot[slot as int] {
            st
        } else {
            let st = if c.order_type == CMD_BUILD_OBJECT || c.order_type == CMD_BUILD_OBJECT_2 {
                ScanState {
                    build_positions: first_write(st.build_positions, slot, first_vec3_from(c.args, 0)),
                    building_ids: match first_building_id_from(c.args, 0) {
                        Some(b) => st.building_ids.update(
                            slot as int,
                            st.building_ids[slot as int].push(b),
                        ),
                        None => st.building_ids,
                    },
                    ..st
                }
            } else if c.order_type == CMD_UNIT_COMMAND {
                ScanState {
                    unit_positions: first_write(st.unit_positions, slot, first_vec3_from(c.args, 0)),
                    ..st
                }
            } else {
                st
            };
            let st = if c.order_type == CMD_END_GAME {
                st.with_endgame(c.player_num, c.time_code)
            } else {
                st
            };
            if c.order_type == CMD_PLAYER_DEFEATED {
                st.with_defeat(c.player_num)
            } else {
                st
            }
        },
    }
}

/// Where the structured decoder stops: a chunk needs at least 13 bytes.
pub open spec fn stream_limit(d: Seq<u8>) -> int {
    if d.len() >= 13 {
        d.len() - 13
    } else {
        0
    }
}

/// The structured pass from offset `pos` on: decode a chunk where one
/// decodes, else move on by one byte.
pub open spec fn scan_from(
    d: Seq<u8>,
    pos: int,
    st: ScanState,
    occupied: Seq<u8>,
    player_slot: Seq<bool>,
) -> ScanState
    decreases d.len() - pos,
{
    if pos < 0 || pos >= stream_limit(d) {
        st
    } else {
        match chunk_at(d, pos) {
            Some((next, c)) => if pos < next <= d.len() {
                scan_from(d, next, step(st, c, occupied, player_slot), occupied, player_slot)
            } else {
                st
            },
            None => scan_from(d, pos + 1, st, occupied, player_slot),
        }
    }
}

impl EventScan {
    fn new() -> (r: EventScan)
        ensures
            r@ == ScanState::initial(),
            r@.wf(),
    {
        let mut building_ids: Vec<Vec<u32>> = Vec::new();
        let mut i: usize = 0;
        while i < SLOT_IDS
            invariant
                i <= SLOT_IDS,
                building_ids@.len() == i,
                forall|j: int| 0 <= j < i ==> (#[trigger] building_ids@[j])@ == Seq::<u32>::empty(),
            decreases SLOT_IDS - i,
        {
            building_ids.push(Vec::new());
            i = i + 1;
        }
        let r = EventScan {
            max_timecode: 0,
            build_positions: vec![None; SLOT_IDS],
            unit_positions: vec![None; SLOT_IDS],
            building_ids,
            defeated: vec![false; PLAYER_NUMS],
            any_defeated: false,
            endgame: None,
        };
        assert(r@.building_ids =~= ScanState::initial().building_ids);
        assert(r@.build_positions =~= ScanState::initial().build_positions);
        assert(r@.unit_positions =~= ScanState::initial().unit_positions);
        assert(r@.defeated =~= ScanState::initial().defeated);
        r
    }

    fn record_defeat(&mut self, pn: u32)
        requires
            old(self)@.wf(),
            pn < PLAYER_NUMS,
        ensures
            final(self)@ == old(self)@.with_defeat(pn),
            final(self)@.wf(),
    {
        self.defeated.set(pn as usize, true);
        self.any_defeated = true;
        assert(self@.building_ids =~= old(self)@.building_ids);
    }

    fn record_endgame(&mut self, pn: u32, tc: u32)
        requires
            old(self)@.wf(),
        ensures
            final(self)@ == old(self)@.with_endgame(pn, tc),
            final(self)@.wf(),
    {
        let keep = match self.endgame {
            Some((_, t)) => tc < t,
            None => false,
        };
        if !keep {
            self.endgame = Some((pn, tc));
        }
        assert(self@.building_ids =~= old(self)@.building_ids);
    }

    /// Folds one decoded chunk into the state.
    fn apply(&mut self, c: &Chunk, occupied: &[u8], player_slot: &[bool])
        requires
            old(self)@.wf(),
            player_slot@.len() == SLOT_IDS,
            c.player_num <= MAX_SANE_PLAYER_NUM,
        ensures
            final(self)@ == step(old(self)@, c@, occupied@, player_slot@),
            final(self)@.wf(),
    {
        if c.time_code > self.max_timecode {
            self.max_timecode = c.time_code;
        }
        let ghost st1 = self@;
        let pn = c.player_num;
        if pn < 3 || (pn - 3) as usize >= occupied.len() {
            return;
        }
        let slot = occupied[(pn - 3) as usize];
        if !player_slot[slot as usize] {
            return;
        }
        let s = slot as usize;
        if c.order_type == CMD_BUILD_OBJECT || c.order_type == CMD_BUILD_OBJECT_2 {
            if let Some(p) = extract_position(c) {
                if self.build_positions[s].is_none() {
                    self.build_positions.set(s, Some(p));
                }
            }
            if let Some(b) = extract_building_id(c) {
                self.building_ids[s].push(b);
            }
        } else if c.order_type == CMD_UNIT_COMMAND {
            if let Some(p) = extract_position(c) {
                if self.unit_positions[s].is_none() {
                    self.unit_positions.set(s, Some(p));
                }
            }
        }
        assert(self@.building_ids =~= (if c.order_type == CMD_BUILD_OBJECT || c.order_type == CMD_BUILD_OBJECT_2 {
            match first_building_id_from(c.args@, 0) {
                Some(b) => st1.building_ids.update(s as int, st1.building_ids[s as int].push(b)),
                None => st1.building_ids,
            }
        } else {
            st1.building_ids
        }));
        assert(self@.build_positions =~= (if c.order_type == CMD_BUILD_OBJECT || c.order_type == CMD_BUILD_OBJECT_2 {
            first_write(st1.build_positions, slot, first_vec3_from(c.args@, 0))
        } else {
            st1.build_positions
        }));
        assert(self@.unit_positions =~= (if c.order_type != CMD_BUILD_OBJECT && c.order_type != CMD_BUILD_OBJECT_2 && c.order_type == CMD_UNIT_COMMAND {
            first_write(st1.unit_positions, slot, first_vec3_from(c.args@, 0))
        } else {
            st1.unit_positions
        }));
        if c.order_type == CMD_END_GAME {
            self.record_endgame(pn, c.time_code);
        }
        if c.order_type == CMD_PLAYER_DEFEATED {
            self.record_defeat(pn);
        }
    }
}

// ---------------------------------------------------------------------------
// The raw pattern pass
// ---------------------------------------------------------------------------

/// The order code whose little-endian pattern starts at byte `i`, if it is
/// one of the two critical events.
pub open spec fn critical_code_at(d: Seq<u8>, i: int) -> Option<u32> {
    if d[i] == 0x48 && d[i + 1] == 0x04 && d[i + 2] == 0 && d[i + 3] == 0 {
        Some(CMD_PLAYER_DEFEATED)
    } else if d[i] == 0x1d && d[i + 1] == 0 && d[i + 2] == 0 && d[i + 3] == 0 {
        Some(CMD_END_GAME)
    } else {
        None
    }
}

/// The critical event (order code, player number, time code) recovered from
/// a pattern match at byte `i`: the record is taken to start 4 bytes before,
/// inside the stream, and its fields must be plausible and name a player.
pub open spec fn raw_event(
    d: Seq<u8>,
    start: int,
    i: int,
    occupied: Seq<u8>,
    player_slot: Seq<bool>,
) -> Option<(u32, u32, u32)> {
    match critical_code_at(d, i) {
        None => None,
        Some(code) => {
            let off = i - 4;
            if i >= start + 4 && off + 13 <= d.len() {
                let tc = le_u32(d, off);
                let pn = le_u32(d, off + 8);
                let n_args = d[off + 12];
                if 0 < tc < MAX_SANE_TIMECODE && 3 <= pn <= 20 && n_args <= 10 && pn_is_player(
                    occupied,
                    player_slot,
                    pn,
                ) {
                    Some((code, pn as u32, tc as u32))
                } else {
                    None
                }
            } else {
                None
            }
        },
    }
}

/// The raw pass from byte `i` on.
pub open spec fn raw_scan_from(
    d: Seq<u8>,
    start: int,
    i: int,
    st: ScanState,
    occupied: Seq<u8>,
    player_slot: Seq<bool>,
) -> ScanState
    decreases d.len() - i,
{
    if i < 0 || i + 3 >= d.len() {
        st
    } else {
        let st = match raw_event(d, start, i, occupied, player_slot) {
            Some((code, pn, tc)) => if code == CMD_PLAYER_DEFEATED {
                st.with_defeat(pn)
            } else {
                st.with_endgame(pn, tc)
            },
            None => st,
        };
        raw_scan_from(d, start, i + 1, st, occupied, player_slot)
    }
}

/// The raw pass over the stream that starts at `start`.
pub open spec fn raw_scan(
    d: Seq<u8>,
    start: int,
    st: ScanState,
    occupied: Seq<u8>,
    player_slot: Seq<bool>,
) -> ScanState {
    if d.len() < start + 8 {
        st
    } else {
        raw_scan_from(d, start, start, st, occupied, player_slot)
    }
}

/// Both passes over the stream that starts at `start`.
pub open spec fn analyze(d: Seq<u8>, start: int, occupied: Seq<u8>, player_slot: Seq<bool>) -> ScanState {
    raw_scan(
        d,
        start,
        scan_from(d, start, ScanState::initial(), occupied, player_slot),
        occupied,
        player_slot,
    )
}

/// Scans every byte of the stream for the patterns of the defeat and
/// end-game codes, recovering events that the structured pass lost.
fn raw_scan_for_critical_events(
    data: &[u8],
    chunks_start: usize,
    occupied: &[u8],
    player_slot: &[bool],
    result: &mut EventScan,
)
    requires
        old(result)@.wf(),
        player_slot@.len() == SLOT_IDS,
    ensures
        final(result)@ == raw_scan(data@, chunks_start as int, old(result)@, occupied@, player_slot@),
        final(result)@.wf(),
{
    let len = data.len();
    if len < 8 || chunks_start > len - 8 {
        return;
    }
    let end = len - 3;
    let mut i = chunks_start;
    while i < end
        invariant
            len == data@.len(),
            end == len - 3,
            len >= 8,
            chunks_start <= i,
            chunks_start + 8 <= len,
            player_slot@.len() == SLOT_IDS,
            result@.wf(),
            raw_scan(data@, chunks_start as int, old(result)@, occupied@, player_slot@)
                == raw_scan_from(data@, chunks_start as int, i as int, result@, occupied@, player_slot@),
        decreases end - i,
    {
        let b = data[i];
        let code: u32 = if b == 0x48 && data[i + 1] == 0x04 && data[i + 2] == 0 && data[i + 3] == 0 {
            CMD_PLAYER_DEFEATED
        } else if b == 0x1d && data[i + 1] == 0 && data[i + 2] == 0 && data[i + 3] == 0 {
            CMD_END_GAME
        } else {
            0
        };
        if code != 0 && i >= chunks_start + 4 && len - i >= 9 {
            let off = i - 4;
            let tc = read_le_u32(data, off);
            let pn = read_le_u32(data, off + 8);
            let n_args = data[off + 12];
            if tc > 0 && tc < MAX_SANE_TIMECODE && 3 <= pn && pn <= 20 && n_args <= 10
                && ((pn - 3) as usize) < occupied.len() && player_slot[occupied[(pn - 3) as usize] as usize] {
                if code == CMD_PLAYER_DEFEATED {
                    result.record_defeat(pn);
                } else {
                    result.record_endgame(pn, tc);
                }
            }
        }
        i = i + 1;
    }
}

/// Decodes the command stream that starts at `start`, chunk by chunk with
/// byte-wise resynchronisation, then runs the raw pattern pass over it.
pub fn parse_and_analyze_chunks(
    data: &[u8],
    start: usize,
    occupied: &[u8],
    player_slot: &[bool],
) -> (r: EventScan)
    requires
        player_slot@.len() == SLOT_IDS,
    ensures
        r@ == analyze(data@, start as int, occupied@, player_slot@),
        r@.wf(),
{
    let mut result = EventScan::new();
    let len = data.len();
    let limit = if len >= 13 {
        len - 13
    } else {
        0
    };
    let mut pos = start;
    while pos < limit
        invariant
            len == data@.len(),
            limit == stream_limit(data@),
            player_slot@.len() == SLOT_IDS,
            result@.wf(),
            scan_from(data@, start as int, ScanState::initial(), occupied@, player_slot@)
                == scan_from(data@, pos as int, result@, occupied@, player_slot@),
        decreases len - pos,
    {
        match parse_chunk(data, pos) {
            Some((next, chunk)) => {
                result.apply(&chunk, occupied, player_slot);
                pos = next;
            },
            None => {
                pos = pos + 1;
            },
        }
    }
    raw_scan_for_critical_events(data, start, occupied, player_slot, &mut result);
    result
}

impl EventScan {
    /// The position of `slot`: a build position if there is one, else a unit position.
    pub fn position(&self, slot: u8) -> (r: Option<MapPosition>)
        requires
            self@.wf(),
        ensures
            r == self@.position(slot),
    {
        let s = slot as usize;
        if self.build_positions[s].is_some() {
            self.build_positions[s]
        } else {
            self.unit_positions[s]
        }
    }

    /// The faction inferred from the buildings of a positioned slot.
    pub fn faction(&self, slot: u8) -> (r: Option<Faction>)
        requires
            self@.wf(),
        ensures
            r == self@.faction(slot),
    {
        if self.position(slot).is_some() {
            detect_faction_from_buildings(self.building_ids[slot as usize].as_slice())
        } else {
            None
        }
    }

    /// True when player number `pn` was recorded as defeated.
    pub fn is_defeated(&self, pn: u32) -> (r: bool)
        requires
            self@.wf(),
        ensures
            r == self@.is_defeated(pn as int),
    {
        (pn as usize) < PLAYER_NUMS && self.defeated[pn as usize]
    }
}

} // verus!
