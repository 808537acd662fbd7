//! Composite game-state records and their decoders.
use vstd::prelude::*;
use vstd::utf8::encode_utf8;

use crate::error::BanchoError;
use crate::reader::PacketReader;
use crate::wire::{
    lemma_string_round_trip, lemma_bytes32_value, lemma_i32s_wire_item, lemma_i32s_wire_len, i32s_wire, string_wire, bytes16, bytes32, bytes64, le_u16, le_u32, le_u64, lemma_round_trip_16, lemma_round_trip_32, lemma_round_trip_64,
    signed, string_parse, unsigned,
};
use crate::writer::{push_all, write_i16, write_i32, write_i8, write_string, write_u16, write_u64};

verus! {

/// Number of slots in a multiplayer match.
pub const MATCH_SLOTS: usize = 16;

/// Status bits that mark a slot as holding a player.
pub const SLOT_HAS_PLAYER: u8 = 124;

/// The byte at `k` as a signed byte.
pub open spec fn i8_at(s: Seq<u8>, k: int) -> i8 {
    signed(s[k] as int, 256) as i8
}

/// The little-endian signed 16-bit integer at `k`.
pub open spec fn i16_at(s: Seq<u8>, k: int) -> i16 {
    signed(le_u16(s.skip(k)), 0x10000) as i16
}

/// The little-endian unsigned 16-bit integer at `k`.
pub open spec fn u16_at(s: Seq<u8>, k: int) -> u16 {
    le_u16(s.skip(k)) as u16
}

/// The little-endian signed 32-bit integer at `k`.
pub open spec fn i32_at(s: Seq<u8>, k: int) -> i32 {
    signed(le_u32(s.skip(k)), 0x1_0000_0000) as i32
}

/// The little-endian unsigned 32-bit integer at `k`.
pub open spec fn u32_at(s: Seq<u8>, k: int) -> u32 {
    le_u32(s.skip(k)) as u32
}

/// The little-endian unsigned 64-bit integer at `k`.
pub open spec fn u64_at(s: Seq<u8>, k: int) -> u64 {
    le_u64(s.skip(k)) as u64
}

/// Whether a slot status has any of the player bits set.
pub open spec fn occupied(status: i8) -> bool {
    (unsigned(status as int, 256) as u8) & SLOT_HAS_PLAYER != 0
}

/// How many of the first `k` statuses mark a slot with a player.
pub open spec fn occupied_count(statuses: Seq<i8>, k: nat) -> nat
    decreases k,
{
    if k == 0 {
        0
    } else {
        occupied_count(statuses, (k - 1) as nat) + if occupied(statuses[k - 1]) { 1nat } else { 0nat }
    }
}

/// The player id of each of the first `k` slots, read from `ids` in slot
/// order: one 32-bit integer per occupied slot, none for an empty one.
pub open spec fn slot_ids(statuses: Seq<i8>, ids: Seq<u8>, k: nat) -> Seq<Option<i32>>
    decreases k,
{
    if k == 0 {
        Seq::empty()
    } else {
        slot_ids(statuses, ids, (k - 1) as nat).push(
            if occupied(statuses[k - 1]) {
                Some(i32_at(ids, 4 * occupied_count(statuses, (k - 1) as nat) as int))
            } else {
                None
            },
        )
    }
}

/// A multiplayer match as the model sees it.
pub ghost struct MatchView {
    pub id: i16,
    pub in_progress: bool,
    pub powerplay: i8,
    pub mods: i32,
    pub name: Seq<char>,
    pub passwd: Seq<char>,
    pub map_name: Seq<char>,
    pub map_id: i32,
    pub map_md5: Seq<char>,
    pub slot_statuses: Seq<i8>,
    pub slot_teams: Seq<i8>,
    pub slot_ids: Seq<Option<i32>>,
    pub host_id: i32,
    pub mode: i8,
    pub win_condition: i8,
    pub team_type: i8,
    pub freemods: bool,
    pub slot_mods: Seq<i32>,
    pub seed: i32,
}

/// A multiplayer match: settings, the sixteen slots, and the host.
#[derive(Debug)]
pub struct MultiplayerMatch {
    pub id: i16,
    pub in_progress: bool,
    pub powerplay: i8,
    pub mods: i32,
    pub name: String,
    pub passwd: String,
    pub map_name: String,
    pub map_id: i32,
    pub map_md5: String,
    pub slot_statuses: Vec<i8>,
    pub slot_teams: Vec<i8>,
    /// For each slot, the id of its player; `None` for a slot without one.
    pub slot_ids: Vec<Option<i32>>,
    pub host_id: i32,
    pub mode: i8,
    pub win_condition: i8,
    pub team_type: i8,
    pub freemods: bool,
    /// The mods of each slot when mods are chosen per player, else empty.
    pub slot_mods: Vec<i32>,
    pub seed: i32,
}

impl View for MultiplayerMatch {
    type V = MatchView;

    open spec fn view(&self) -> MatchView {
        MatchView {
            id: self.id,
            in_progress: self.in_progress,
            powerplay: self.powerplay,
            mods: self.mods,
            name: self.name@,
            passwd: self.passwd@,
            map_name: self.map_name@,
            map_id: self.map_id,
            map_md5: self.map_md5@,
            slot_statuses: self.slot_statuses@,
            slot_teams: self.slot_teams@,
            slot_ids: self.slot_ids@,
            host_id: self.host_id,
            mode: self.mode,
            win_condition: self.win_condition,
            team_type: self.team_type,
            freemods: self.freemods,
            slot_mods: self.slot_mods@,
            seed: self.seed,
        }
    }
}

/// `count` signed bytes from the front of `s`.
pub open spec fn i8s(s: Seq<u8>, count: nat) -> Seq<i8> {
    Seq::new(count, |i: int| i8_at(s, i))
}

/// `count` signed 32-bit integers from the front of `s`.
pub open spec fn i32s_at(s: Seq<u8>, count: nat) -> Seq<i32> {
    Seq::new(count, |i: int| i32_at(s, 4 * i))
}

/// The slot section of a match as the model sees it.
pub ghost struct SlotsView {
    pub statuses: Seq<i8>,
    pub teams: Seq<i8>,
    pub ids: Seq<Option<i32>>,
    pub host_id: i32,
    pub mode: i8,
    pub win_condition: i8,
    pub team_type: i8,
    pub freemods: bool,
    pub slot_mods: Seq<i32>,
    pub seed: i32,
}

/// Decodes the slot section of a match from the front of `t`: sixteen
/// statuses, sixteen teams, a player id per occupied slot, host, mode, win
/// condition, team type, the per-player mods flag, sixteen slot mods when
/// that flag is set, and the seed.
pub open spec fn match_slots_parse(t: Seq<u8>) -> Result<(SlotsView, nat), BanchoError> {
    if t.len() < 32 {
        Err(BanchoError::UnexpectedEof)
    } else {
        let statuses = i8s(t, 16);
        let after_ids = (32 + 4 * occupied_count(statuses, 16)) as int;
        if t.len() < after_ids + 8 {
            Err(BanchoError::UnexpectedEof)
        } else {
            let freemods = t[after_ids + 7] == 1;
            let seed_at = after_ids + 8 + if freemods { 64int } else { 0int };
            if t.len() < seed_at + 4 {
                Err(BanchoError::UnexpectedEof)
            } else {
                Ok((SlotsView {
                    statuses,
                    teams: i8s(t.skip(16), 16),
                    ids: slot_ids(statuses, t.skip(32), 16),
                    host_id: i32_at(t, after_ids),
                    mode: i8_at(t, after_ids + 4),
                    win_condition: i8_at(t, after_ids + 5),
                    team_type: i8_at(t, after_ids + 6),
                    freemods,
                    slot_mods: if freemods { i32s_at(t.skip(after_ids + 8), 16) } else { Seq::empty() },
                    seed: i32_at(t, seed_at),
                }, (seed_at + 4) as nat))
            }
        }
    }
}

/// The slot section of a match.
struct MatchSlots {
    statuses: Vec<i8>,
    teams: Vec<i8>,
    ids: Vec<Option<i32>>,
    host_id: i32,
    mode: i8,
    win_condition: i8,
    team_type: i8,
    freemods: bool,
    slot_mods: Vec<i32>,
    seed: i32,
}

impl View for MatchSlots {
    type V = SlotsView;

    closed spec fn view(&self) -> SlotsView {
        SlotsView {
            statuses: self.statuses@,
            teams: self.teams@,
            ids: self.ids@,
            host_id: self.host_id,
            mode: self.mode,
            win_condition: self.win_condition,
            team_type: self.team_type,
            freemods: self.freemods,
            slot_mods: self.slot_mods@,
            seed: self.seed,
        }
    }
}

/// The settings that open a match, as the model sees them.
pub ghost struct HeadView {
    pub id: i16,
    pub in_progress: bool,
    pub powerplay: i8,
    pub mods: i32,
    pub name: Seq<char>,
    pub passwd: Seq<char>,
    pub map_name: Seq<char>,
    pub map_id: i32,
    pub map_md5: Seq<char>,
}

/// Decodes the settings that open a match from the front of `s`: id,
/// progress flag, powerplay, mods, name, password, map name, map id and map
/// hash.
pub open spec fn match_head_parse(s: Seq<u8>) -> Result<(HeadView, nat), BanchoError> {
    if s.len() < 8 {
        Err(BanchoError::UnexpectedEof)
    } else {
        match string_parse(s.skip(8)) {
            Err(e) => Err(e),
            Ok((name, a)) => match string_parse(s.skip(8 + a as int)) {
                Err(e) => Err(e),
                Ok((passwd, b)) => match string_parse(s.skip(8 + a + b as int)) {
                    Err(e) => Err(e),
                    Ok((map_name, c)) => {
                        let map_id_at = (8 + a + b + c) as int;
                        if s.len() < map_id_at + 4 {
                            Err(BanchoError::UnexpectedEof)
                        } else {
                            match string_parse(s.skip(map_id_at + 4)) {
                                Err(e) => Err(e),
                                Ok((map_md5, d)) => Ok((HeadView {
                                    id: i16_at(s, 0),
                                    in_progress: s[2] == 1,
                                    powerplay: i8_at(s, 3),
                                    mods: i32_at(s, 4),
                                    name,
                                    passwd,
                                    map_name,
                                    map_id: i32_at(s, map_id_at),
                                    map_md5,
                                }, (map_id_at + 4 + d) as nat)),
                            }
                        }
                    },
                },
            },
        }
    }
}

/// Decodes a match from the front of `s`: its opening settings, then its
/// slot section.
pub open spec fn match_parse(s: Seq<u8>) -> Result<(MatchView, nat), BanchoError> {
    match match_head_parse(s) {
        Err(e) => Err(e),
        Ok((head, q)) => match match_slots_parse(s.skip(q as int)) {
            Err(e) => Err(e),
            Ok((slots, n)) => Ok((MatchView {
                id: head.id,
                in_progress: head.in_progress,
                powerplay: head.powerplay,
                mods: head.mods,
                name: head.name,
                passwd: head.passwd,
                map_name: head.map_name,
                map_id: head.map_id,
                map_md5: head.map_md5,
                slot_statuses: slots.statuses,
                slot_teams: slots.teams,
                slot_ids: slots.ids,
                host_id: slots.host_id,
                mode: slots.mode,
                win_condition: slots.win_condition,
                team_type: slots.team_type,
                freemods: slots.freemods,
                slot_mods: slots.slot_mods,
                seed: slots.seed,
            }, q + n)),
        },
    }
}

/// The settings that open a match.
struct MatchHead {
    id: i16,
    in_progress: bool,
    powerplay: i8,
    mods: i32,
    name: String,
    passwd: String,
    map_name: String,
    map_id: i32,
    map_md5: String,
}

impl View for MatchHead {
    type V = HeadView;

    closed spec fn view(&self) -> HeadView {
        HeadView {
            id: self.id,
            in_progress: self.in_progress,
            powerplay: self.powerplay,
            mods: self.mods,
            name: self.name@,
            passwd: self.passwd@,
            map_name: self.map_name@,
            map_id: self.map_id,
            map_md5: self.map_md5@,
        }
    }
}

impl PacketReader {
    /// Reads `count` signed bytes.
    fn read_i8s(&mut self, count: usize) -> (r: Result<Vec<i8>, BanchoError>)
        ensures
            old(self)@.len() >= count ==> r is Ok && r.unwrap()@ == i8s(old(self)@, count as nat)
                && final(self)@ == old(self)@.skip(count as int),
            old(self)@.len() < count ==> r == Err::<Vec<i8>, BanchoError>(BanchoError::UnexpectedEof),
    {
        let ghost s = self@;
        if self.remaining() < count {
            return Err(BanchoError::UnexpectedEof);
        }
        let mut out: Vec<i8> = Vec::new();
        let mut i: usize = 0;
        while i < count
            invariant
                i <= count,
                count <= s.len(),
                self@ == s.skip(i as int),
                out@ == i8s(s, i as nat),
            decreases count - i,
        {
            let v = self.read_i8()?;
            assert(self@ =~= s.skip(i + 1));
            out.push(v);
            i = i + 1;
            assert(out@ =~= i8s(s, i as nat));
        }
        Ok(out)
    }

    /// Reads `count` signed 32-bit integers.
    fn read_i32s(&mut self, count: usize) -> (r: Result<Vec<i32>, BanchoError>)
        requires
            count <= MATCH_SLOTS,
        ensures
            old(self)@.len() >= 4 * count ==> r is Ok && r.unwrap()@ == i32s_at(old(self)@, count as nat)
                && final(self)@ == old(self)@.skip(4 * count),
            old(self)@.len() < 4 * count ==> r == Err::<Vec<i32>, BanchoError>(BanchoError::UnexpectedEof),
    {
        let ghost s = self@;
        if self.remaining() < 4 * count {
            return Err(BanchoError::UnexpectedEof);
        }
        let mut out: Vec<i32> = Vec::new();
        let mut i: usize = 0;
        while i < count
            invariant
                i <= count <= MATCH_SLOTS,
                4 * count <= s.len(),
                self@ == s.skip(4 * i),
                out@ == i32s_at(s, i as nat),
            decreases count - i,
        {
            let v = self.read_i32()?;
            assert(self@ =~= s.skip(4 * (i + 1)));
            out.push(v);
            i = i + 1;
            assert(out@ =~= i32s_at(s, i as nat));
        }
        Ok(out)
    }

    /// Reads one player id for each slot whose status marks a player, in
    /// slot order, and none for the other slots.
    fn read_slot_ids(&mut self, statuses: &Vec<i8>) -> (r: Result<Vec<Option<i32>>, BanchoError>)
        requires
            statuses@.len() == MATCH_SLOTS,
        ensures
            old(self)@.len() >= 4 * occupied_count(statuses@, 16) ==> r is Ok && r.unwrap()@ == slot_ids(
                statuses@,
                old(self)@,
                16,
            ) && final(self)@ == old(self)@.skip(4 * occupied_count(statuses@, 16) as int),
            old(self)@.len() < 4 * occupied_count(statuses@, 16) ==> r == Err::<Vec<Option<i32>>, BanchoError>(
                BanchoError::UnexpectedEof,
            ),
    {
        let ghost t = self@;
        let mut ids: Vec<Option<i32>> = Vec::new();
        let mut i: usize = 0;
        while i < MATCH_SLOTS
            invariant
                i <= MATCH_SLOTS,
                t == old(self)@,
                statuses@.len() == 16,
                4 * occupied_count(statuses@, i as nat) <= t.len(),
                self@ == t.skip(4 * occupied_count(statuses@, i as nat) as int),
                ids@ == slot_ids(statuses@, t, i as nat),
            decreases MATCH_SLOTS - i,
        {
            proof {
                lemma_occupied_count_monotone(statuses@, (i + 1) as nat, 16);
            }
            if slot_has_player(statuses[i]) {
                assert(occupied_count(statuses@, (i + 1) as nat) == occupied_count(statuses@, i as nat) + 1);
                let player = self.read_i32()?;
                assert(self@ =~= t.skip(4 * occupied_count(statuses@, (i + 1) as nat) as int));
                ids.push(Some(player));
            } else {
                ids.push(None);
            }
            i = i + 1;
        }
        Ok(ids)
    }

    /// Decodes the slot section of a match.
    #[verifier::spinoff_prover]
    #[verifier::rlimit(60)]
    fn read_match_slots(&mut self) -> (r: Result<MatchSlots, BanchoError>)
        ensures
            match match_slots_parse(old(self)@) {
                Ok((v, n)) => r is Ok && r.unwrap()@ == v && n <= old(self)@.len() && final(self)@ == old(
                    self,
                )@.skip(n as int),
                Err(e) => r == Err::<MatchSlots, BanchoError>(e),
            },
    {
        let ghost t = self@;
        let statuses = self.read_i8s(MATCH_SLOTS)?;
        assert(self@ =~= t.skip(16));
        let teams = self.read_i8s(MATCH_SLOTS)?;
        assert(self@ =~= t.skip(32));
        proof {
            lemma_occupied_count_bounded(statuses@, 16);
        }
        let ids = self.read_slot_ids(&statuses)?;
        let ghost after_ids = (32 + 4 * occupied_count(statuses@, 16)) as int;
        assert(self@ =~= t.skip(after_ids));
        let host_id = self.read_i32()?;
        assert(self@ =~= t.skip(after_ids + 4));
        let mode = self.read_i8()?;
        assert(self@ =~= t.skip(after_ids + 5));
        let win_condition = self.read_i8()?;
        assert(self@ =~= t.skip(after_ids + 6));
        let team_type = self.read_i8()?;
        assert(self@ =~= t.skip(after_ids + 7));
        let freemods = self.read_i8()? == 1;
        assert(self@ =~= t.skip(after_ids + 8));
        let slot_mods = if freemods {
            self.read_i32s(MATCH_SLOTS)?
        } else {
            Vec::new()
        };
        let ghost seed_at = after_ids + 8 + if freemods { 64int } else { 0int };
        assert(self@ =~= t.skip(seed_at));
        let seed = self.read_i32()?;
        assert(self@ =~= t.skip(seed_at + 4));
        let slots = MatchSlots { statuses, teams, ids, host_id, mode, win_condition, team_type, freemods, slot_mods, seed };
        assert(slots@.slot_mods =~= (if freemods { i32s_at(t.skip(after_ids + 8), 16) } else { Seq::empty() }));
        Ok(slots)
    }

    /// Decodes the settings that open a match.
    #[verifier::spinoff_prover]
    #[verifier::rlimit(60)]
    fn read_match_head(&mut self) -> (r: Result<MatchHead, BanchoError>)
        ensures
            match match_head_parse(old(self)@) {
                Ok((v, n)) => r is Ok && r.unwrap()@ == v && n <= old(self)@.len() && final(self)@ == old(
                    self,
                )@.skip(n as int),
                Err(e) => r == Err::<MatchHead, BanchoError>(e),
            },
    {
        let ghost s = self@;
        let id = self.read_i16()?;
        assert(self@ =~= s.skip(2));
        let in_progress = self.read_i8()? == 1;
        assert(self@ =~= s.skip(3));
        let powerplay = self.read_i8()?;
        assert(self@ =~= s.skip(4));
        let mods = self.read_i32()?;
        assert(self@ =~= s.skip(8));
        assert(s.skip(0) =~= s);
        let name = self.read_string()?;
        let ghost a = string_parse(s.skip(8)).unwrap().1 as int;
        assert(self@ =~= s.skip(8 + a));
        let passwd = self.read_string()?;
        let ghost b = string_parse(s.skip(8 + a)).unwrap().1 as int;
        assert(self@ =~= s.skip(8 + a + b));
        let map_name = self.read_string()?;
        let ghost map_id_at = 8 + a + b + string_parse(s.skip(8 + a + b)).unwrap().1;
        assert(self@ =~= s.skip(map_id_at));
        let map_id = self.read_i32()?;
        assert(self@ =~= s.skip(map_id_at + 4));
        let map_md5 = self.read_string()?;
        let ghost q = map_id_at + 4 + string_parse(s.skip(map_id_at + 4)).unwrap().1;
        assert(self@ =~= s.skip(q));
        Ok(MatchHead { id, in_progress, powerplay, mods, name, passwd, map_name, map_id, map_md5 })
    }

    /// Decodes a multiplayer match. The slot statuses decide how many player
    /// ids follow, one per slot with a player, in slot order; the per-player
    /// mods flag decides whether sixteen slot mods follow.
    pub fn read_match(&mut self) -> (r: Result<MultiplayerMatch, BanchoError>)
        ensures
            match match_parse(old(self)@) {
                Ok((m, n)) => r is Ok && r.unwrap()@ == m && final(self)@ == old(self)@.skip(n as int),
                Err(e) => r == Err::<MultiplayerMatch, BanchoError>(e),
            },
    {
        let ghost s = self@;
        let head = self.read_match_head()?;
        let ghost q = match_head_parse(s).unwrap().1 as int;
        let slots = self.read_match_slots()?;
        assert(self@ =~= s.skip(q + match_slots_parse(s.skip(q)).unwrap().1));
        Ok(MultiplayerMatch {
            id: head.id,
            in_progress: head.in_progress,
            powerplay: head.powerplay,
            mods: head.mods,
            name: head.name,
            passwd: head.passwd,
            map_name: head.map_name,
            map_id: head.map_id,
            map_md5: head.map_md5,
            slot_statuses: slots.statuses,
            slot_teams: slots.teams,
            slot_ids: slots.ids,
            host_id: slots.host_id,
            mode: slots.mode,
            win_condition: slots.win_condition,
            team_type: slots.team_type,
            freemods: slots.freemods,
            slot_mods: slots.slot_mods,
            seed: slots.seed,
        })
    }
}

/// Whether a slot with this status holds a player.
pub fn slot_has_player(status: i8) -> (r: bool)
    ensures
        r == occupied(status),
{
    let byte: u8 = if status >= 0 { status as u8 } else { ((status + 127 + 1) as u8) + 128 };
    byte & SLOT_HAS_PLAYER != 0
}

proof fn lemma_occupied_count_bounded(statuses: Seq<i8>, k: nat)
    ensures
        occupied_count(statuses, k) <= k,
    decreases k,
{
    if k > 0 {
        lemma_occupied_count_bounded(statuses, (k - 1) as nat);
    }
}

proof fn lemma_occupied_count_monotone(statuses: Seq<i8>, j: nat, k: nat)
    requires
        j <= k,
    ensures
        occupied_count(statuses, j) <= occupied_count(statuses, k),
    decreases k,
{
    if j < k {
        lemma_occupied_count_monotone(statuses, j, (k - 1) as nat);
    }
}

/// Bytes in the fixed part of a score frame.
pub const SCOREFRAME_PREFIX: usize = 29;

/// A snapshot of a play in progress. The two portions are IEEE-754 doubles,
/// kept as their bit patterns, and present only under score v2 (else 0).
#[derive(Debug, Clone, Copy, PartialEq, Eq, Structural)]
pub struct ScoreFrame {
    pub time: i32,
    pub id: u8,
    pub num300: u16,
    pub num100: u16,
    pub num50: u16,
    pub num_geki: u16,
    pub num_katu: u16,
    pub num_miss: u16,
    pub total_score: i32,
    pub max_combo: u16,
    pub current_combo: u16,
    pub perfect: bool,
    pub current_hp: u8,
    pub tag_byte: u8,
    pub score_v2: bool,
    pub combo_portion_bits: u64,
    pub bonus_portion_bits: u64,
}

/// Decodes a score frame from the front of `s`: a fixed 29-byte prefix,
/// then two 64-bit floats when the prefix's last byte marks score v2.
pub open spec fn scoreframe_parse(s: Seq<u8>) -> Result<(ScoreFrame, nat), BanchoError> {
    if s.len() < 29 {
        Err(BanchoError::UnexpectedEof)
    } else {
        let v2 = s[28] != 0;
        if v2 && s.len() < 45 {
            Err(BanchoError::UnexpectedEof)
        } else {
            Ok((ScoreFrame {
                time: i32_at(s, 0),
                id: s[4],
                num300: u16_at(s, 5),
                num100: u16_at(s, 7),
                num50: u16_at(s, 9),
                num_geki: u16_at(s, 11),
                num_katu: u16_at(s, 13),
                num_miss: u16_at(s, 15),
                total_score: i32_at(s, 17),
                max_combo: u16_at(s, 21),
                current_combo: u16_at(s, 23),
                perfect: s[25] != 0,
                current_hp: s[26],
                tag_byte: s[27],
                score_v2: v2,
                combo_portion_bits: if v2 { u64_at(s, 29) } else { 0 },
                bonus_portion_bits: if v2 { u64_at(s, 37) } else { 0 },
            }, if v2 { 45nat } else { 29nat }))
        }
    }
}

/// One frame of cursor and key input. `x` and `y` are IEEE-754 singles,
/// kept as their bit patterns.
#[derive(Debug, Clone, Copy, PartialEq, Eq, Structural)]
pub struct ReplayFrame {
    pub button_state: u8,
    pub taiko_byte: u8,
    pub x_bits: u32,
    pub y_bits: u32,
    pub time: i32,
}

/// Bytes in one replay frame.
pub const REPLAYFRAME_BYTES: usize = 14;

/// The replay frame at `k`.
pub open spec fn replay_frame_at(s: Seq<u8>, k: int) -> ReplayFrame {
    ReplayFrame {
        button_state: s[k],
        taiko_byte: s[k + 1],
        x_bits: u32_at(s, k + 2),
        y_bits: u32_at(s, k + 6),
        time: i32_at(s, k + 10),
    }
}

/// A bundle of replay frames as the model sees it.
pub ghost struct BundleView {
    pub raw_data: Seq<u8>,
    pub extra: i32,
    pub frames: Seq<ReplayFrame>,
    pub action: u8,
    pub score_frame: ScoreFrame,
    pub sequence: u16,
}

/// Replay frames sent by a player for spectators. `raw_data` holds the
/// bundle's bytes as received, which is what gets passed on to others.
#[derive(Debug)]
pub struct ReplayFrameBundle {
    pub raw_data: Vec<u8>,
    pub extra: i32,
    pub frames: Vec<ReplayFrame>,
    pub action: u8,
    pub score_frame: ScoreFrame,
    pub sequence: u16,
}

impl View for ReplayFrameBundle {
    type V = BundleView;

    open spec fn view(&self) -> BundleView {
        BundleView {
            raw_data: self.raw_data@,
            extra: self.extra,
            frames: self.frames@,
            action: self.action,
            score_frame: self.score_frame,
            sequence: self.sequence,
        }
    }
}

/// Decodes a bundle from `s`, the rest of a frame body: an extra integer, a
/// frame count and that many frames, the action, a score frame and a
/// sequence number. The bundle also keeps all of `s` unparsed.
pub open spec fn bundle_parse(s: Seq<u8>) -> Result<(BundleView, nat), BanchoError> {
    if s.len() < 6 {
        Err(BanchoError::UnexpectedEof)
    } else {
        let count = u16_at(s, 4) as int;
        let action_at = 6 + REPLAYFRAME_BYTES * count;
        if s.len() < action_at + 1 {
            Err(BanchoError::UnexpectedEof)
        } else {
            match scoreframe_parse(s.skip(action_at + 1)) {
                Err(e) => Err(e),
                Ok((score_frame, n)) => {
                    let sequence_at = action_at + 1 + n;
                    if s.len() < sequence_at + 2 {
                        Err(BanchoError::UnexpectedEof)
                    } else {
                        Ok((BundleView {
                            raw_data: s,
                            extra: i32_at(s, 0),
                            frames: Seq::new(count as nat, |i: int| replay_frame_at(s.skip(6), REPLAYFRAME_BYTES * i)),
                            action: s[action_at],
                            score_frame,
                            sequence: u16_at(s, sequence_at),
                        }, (sequence_at + 2) as nat))
                    }
                },
            }
        }
    }
}

impl PacketReader {
    /// Decodes a score frame.
    pub fn read_scoreframe(&mut self) -> (r: Result<ScoreFrame, BanchoError>)
        ensures
            match scoreframe_parse(old(self)@) {
                Ok((v, n)) => r == Ok::<ScoreFrame, BanchoError>(v) && final(self)@ == old(self)@.skip(n as int),
                Err(e) => r == Err::<ScoreFrame, BanchoError>(e),
            },
    {
        let ghost s = self@;
        if self.remaining() < SCOREFRAME_PREFIX {
            return Err(BanchoError::UnexpectedEof);
        }
        let time = self.read_i32()?;
        assert(self@ =~= s.skip(4));
        let id = self.read_u8()?;
        assert(self@ =~= s.skip(5));
        let num300 = self.read_u16()?;
        assert(self@ =~= s.skip(7));
        let num100 = self.read_u16()?;
        assert(self@ =~= s.skip(9));
        let num50 = self.read_u16()?;
        assert(self@ =~= s.skip(11));
        let num_geki = self.read_u16()?;
        assert(self@ =~= s.skip(13));
        let num_katu = self.read_u16()?;
        assert(self@ =~= s.skip(15));
        let num_miss = self.read_u16()?;
        assert(self@ =~= s.skip(17));
        let total_score = self.read_i32()?;
        assert(self@ =~= s.skip(21));
        let max_combo = self.read_u16()?;
        assert(self@ =~= s.skip(23));
        let current_combo = self.read_u16()?;
        assert(self@ =~= s.skip(25));
        let perfect = self.read_u8()? != 0;
        let current_hp = self.read_u8()?;
        let tag_byte = self.read_u8()?;
        let score_v2 = self.read_u8()? != 0;
        assert(self@ =~= s.skip(29));
        assert(s.skip(0) =~= s);
        let mut combo_portion_bits: u64 = 0;
        let mut bonus_portion_bits: u64 = 0;
        if score_v2 {
            combo_portion_bits = self.read_u64()?;
            assert(self@ =~= s.skip(37));
            bonus_portion_bits = self.read_u64()?;
            assert(self@ =~= s.skip(45));
        }
        Ok(ScoreFrame {
            time,
            id,
            num300,
            num100,
            num50,
            num_geki,
            num_katu,
            num_miss,
            total_score,
            max_combo,
            current_combo,
            perfect,
            current_hp,
            tag_byte,
            score_v2,
            combo_portion_bits,
            bonus_portion_bits,
        })
    }

    /// Decodes one replay frame.
    pub fn read_replayframe(&mut self) -> (r: Result<ReplayFrame, BanchoError>)
        ensures
            old(self)@.len() >= REPLAYFRAME_BYTES ==> r == Ok::<ReplayFrame, BanchoError>(replay_frame_at(old(self)@, 0))
                && final(self)@ == old(self)@.skip(REPLAYFRAME_BYTES as int),
            old(self)@.len() < REPLAYFRAME_BYTES ==> r == Err::<ReplayFrame, BanchoError>(BanchoError::UnexpectedEof),
    {
        let ghost s = self@;
        if self.remaining() < REPLAYFRAME_BYTES {
            return Err(BanchoError::UnexpectedEof);
        }
        let button_state = self.read_u8()?;
        let taiko_byte = self.read_u8()?;
        assert(self@ =~= s.skip(2));
        let x_bits = self.read_u32()?;
        assert(self@ =~= s.skip(6));
        let y_bits = self.read_u32()?;
        assert(self@ =~= s.skip(10));
        let time = self.read_i32()?;
        assert(self@ =~= s.skip(14));
        Ok(ReplayFrame { button_state, taiko_byte, x_bits, y_bits, time })
    }

    /// A copy of every byte not yet consumed, leaving the cursor where it is.
    pub fn peek_remaining(&self) -> (r: Vec<u8>)
        ensures
            r@ == self@,
    {
        let n = self.remaining();
        let mut out: Vec<u8> = Vec::new();
        let mut i: usize = 0;
        while i < n
            invariant
                i <= n,
                n == self@.len(),
                out@ == self@.take(i as int),
            decreases n - i,
        {
            out.push(self.peek(i));
            i = i + 1;
            assert(out@ =~= self@.take(i as int));
        }
        assert(out@ =~= self@);
        out
    }

    /// Decodes `count` replay frames.
    fn read_replayframes(&mut self, count: u16) -> (r: Result<Vec<ReplayFrame>, BanchoError>)
        ensures
            old(self)@.len() >= REPLAYFRAME_BYTES * count ==> r is Ok && r.unwrap()@ == Seq::new(
                count as nat,
                |j: int| replay_frame_at(old(self)@, REPLAYFRAME_BYTES * j),
            ) && final(self)@ == old(self)@.skip(REPLAYFRAME_BYTES * count),
            old(self)@.len() < REPLAYFRAME_BYTES * count ==> r is Err && r->Err_0 == BanchoError::UnexpectedEof,
    {
        let ghost s = self@;
        let mut frames: Vec<ReplayFrame> = Vec::new();
        let mut i: u16 = 0;
        while i < count
            invariant
                i <= count,
                s == old(self)@,
                REPLAYFRAME_BYTES * i <= s.len(),
                self@ == s.skip(REPLAYFRAME_BYTES * i),
                frames@ == Seq::new(i as nat, |j: int| replay_frame_at(s, REPLAYFRAME_BYTES * j)),
            decreases count - i,
        {
            let ghost before = self@;
            let frame = self.read_replayframe()?;
            proof {
                assert(replay_frame_at(before, 0) == replay_frame_at(s, REPLAYFRAME_BYTES * i)) by {
                    assert(before.skip(2) =~= s.skip(REPLAYFRAME_BYTES * i + 2));
                    assert(before.skip(6) =~= s.skip(REPLAYFRAME_BYTES * i + 6));
                    assert(before.skip(10) =~= s.skip(REPLAYFRAME_BYTES * i + 10));
                }
                assert(self@ =~= s.skip(REPLAYFRAME_BYTES * (i + 1)));
            }
            frames.push(frame);
            i = i + 1;
            assert(frames@ =~= Seq::new(i as nat, |j: int| replay_frame_at(s, REPLAYFRAME_BYTES * j)));
        }
        Ok(frames)
    }

    /// Decodes a bundle of replay frames, keeping a copy of the bytes it was
    /// decoded from: the rest of the frame body.
    #[verifier::spinoff_prover]
    #[verifier::rlimit(60)]
    pub fn read_replayframe_bundle(&mut self) -> (r: Result<ReplayFrameBundle, BanchoError>)
        ensures
            match bundle_parse(old(self)@) {
                Ok((v, n)) => r is Ok && r.unwrap()@ == v && final(self)@ == old(self)@.skip(n as int),
                Err(e) => r == Err::<ReplayFrameBundle, BanchoError>(e),
            },
    {
        let ghost s = self@;
        let raw_data = self.peek_remaining();
        let extra = self.read_i32()?;
        assert(self@ =~= s.skip(4));
        let count = self.read_u16()?;
        assert(self@ =~= s.skip(6));
        assert(s.skip(0) =~= s);
        let frames = self.read_replayframes(count)?;
        assert(self@ =~= s.skip(6 + REPLAYFRAME_BYTES * count));
        let ghost action_at = 6 + REPLAYFRAME_BYTES * count;
        let action = self.read_u8()?;
        assert(self@ =~= s.skip(action_at + 1));
        let score_frame = self.read_scoreframe()?;
        let ghost sequence_at = action_at + 1 + scoreframe_parse(s.skip(action_at + 1)).unwrap().1;
        assert(self@ =~= s.skip(sequence_at));
        let sequence = self.read_u16()?;
        assert(self@ =~= s.skip(sequence_at + 2));
        Ok(ReplayFrameBundle { raw_data, extra, frames, action, score_frame, sequence })
    }
}

/// The first 17 bytes of a score frame's wire form.
#[verifier::opaque]
pub open spec fn scoreframe_head_wire(sf: ScoreFrame) -> Seq<u8> {
    bytes32(unsigned(sf.time as int, 0x1_0000_0000)) + seq![sf.id] + bytes16(sf.num300 as int) + bytes16(
        sf.num100 as int,
    ) + bytes16(sf.num50 as int) + bytes16(sf.num_geki as int) + bytes16(sf.num_katu as int) + bytes16(
        sf.num_miss as int,
    )
}

/// Bytes 17 to 29 of a score frame's wire form.
#[verifier::opaque]
pub open spec fn scoreframe_tail_wire(sf: ScoreFrame) -> Seq<u8> {
    bytes32(unsigned(sf.total_score as int, 0x1_0000_0000)) + bytes16(sf.max_combo as int) + bytes16(
        sf.current_combo as int,
    ) + seq![if sf.perfect { 1u8 } else { 0u8 }, sf.current_hp, sf.tag_byte, if sf.score_v2 { 1u8 } else { 0u8 }]
}

/// The two portions, sent under score v2 only.
#[verifier::opaque]
pub open spec fn scoreframe_portions_wire(sf: ScoreFrame) -> Seq<u8> {
    if sf.score_v2 {
        bytes64(sf.combo_portion_bits as int) + bytes64(sf.bonus_portion_bits as int)
    } else {
        Seq::empty()
    }
}

/// The wire form of a score frame: the 29-byte prefix, then the two
/// portions under score v2.
pub open spec fn scoreframe_wire(sf: ScoreFrame) -> Seq<u8> {
    scoreframe_head_wire(sf) + scoreframe_tail_wire(sf) + scoreframe_portions_wire(sf)
}

/// Encodes a score frame.
pub fn write_scoreframe(sf: &ScoreFrame) -> (r: Vec<u8>)
    ensures
        r@ == scoreframe_wire(*sf),
{
    let mut out: Vec<u8> = Vec::new();
    push_all(&mut out, &write_i32(sf.time));
    out.push(sf.id);
    push_all(&mut out, &write_u16(sf.num300));
    push_all(&mut out, &write_u16(sf.num100));
    push_all(&mut out, &write_u16(sf.num50));
    push_all(&mut out, &write_u16(sf.num_geki));
    push_all(&mut out, &write_u16(sf.num_katu));
    push_all(&mut out, &write_u16(sf.num_miss));
    push_all(&mut out, &write_i32(sf.total_score));
    push_all(&mut out, &write_u16(sf.max_combo));
    push_all(&mut out, &write_u16(sf.current_combo));
    out.push(if sf.perfect { 1 } else { 0 });
    out.push(sf.current_hp);
    out.push(sf.tag_byte);
    out.push(if sf.score_v2 { 1 } else { 0 });
    if sf.score_v2 {
        push_all(&mut out, &write_u64(sf.combo_portion_bits));
        push_all(&mut out, &write_u64(sf.bonus_portion_bits));
    }
    proof {
        reveal(scoreframe_head_wire);
        reveal(scoreframe_tail_wire);
        reveal(scoreframe_portions_wire);
    }
    assert(out@ =~= scoreframe_wire(*sf));
    out
}

/// The fields of the first 17 bytes of a score frame decode back.
#[verifier::spinoff_prover]
#[verifier::rlimit(100)]
proof fn lemma_scoreframe_round_trip_head(sf: ScoreFrame, s: Seq<u8>)
    requires
        s.len() >= 17,
        s.subrange(0, 17) == scoreframe_head_wire(sf),
    ensures
        i32_at(s, 0) == sf.time,
        s[4] == sf.id,
        u16_at(s, 5) == sf.num300,
        u16_at(s, 7) == sf.num100,
        u16_at(s, 9) == sf.num50,
        u16_at(s, 11) == sf.num_geki,
        u16_at(s, 13) == sf.num_katu,
        u16_at(s, 15) == sf.num_miss,
{
    reveal(scoreframe_head_wire);
    let h = s.subrange(0, 17);
    assert(s[4] == h[4]);
    assert(s.skip(0) =~= h.subrange(0, 4) + s.skip(4));
    lemma_round_trip_32(0, sf.time, s.skip(4));
    assert(h.subrange(0, 4) =~= bytes32(unsigned(sf.time as int, 0x1_0000_0000)));
    assert(s.skip(5) =~= h.subrange(5, 7) + s.skip(7));
    assert(h.subrange(5, 7) =~= bytes16(sf.num300 as int));
    lemma_round_trip_16(sf.num300, 0, s.skip(7));
    assert(s.skip(7) =~= h.subrange(7, 9) + s.skip(9));
    assert(h.subrange(7, 9) =~= bytes16(sf.num100 as int));
    lemma_round_trip_16(sf.num100, 0, s.skip(9));
    assert(s.skip(9) =~= h.subrange(9, 11) + s.skip(11));
    assert(h.subrange(9, 11) =~= bytes16(sf.num50 as int));
    lemma_round_trip_16(sf.num50, 0, s.skip(11));
    assert(s.skip(11) =~= h.subrange(11, 13) + s.skip(13));
    assert(h.subrange(11, 13) =~= bytes16(sf.num_geki as int));
    lemma_round_trip_16(sf.num_geki, 0, s.skip(13));
    assert(s.skip(13) =~= h.subrange(13, 15) + s.skip(15));
    assert(h.subrange(13, 15) =~= bytes16(sf.num_katu as int));
    lemma_round_trip_16(sf.num_katu, 0, s.skip(15));
    assert(s.skip(15) =~= h.subrange(15, 17) + s.skip(17));
    assert(h.subrange(15, 17) =~= bytes16(sf.num_miss as int));
    lemma_round_trip_16(sf.num_miss, 0, s.skip(17));
}

/// The fields of bytes 17 to 29 of a score frame, and the portions that
/// follow under score v2, decode back.
#[verifier::spinoff_prover]
#[verifier::rlimit(100)]
proof fn lemma_scoreframe_round_trip_tail(sf: ScoreFrame, s: Seq<u8>)
    requires
        s.len() >= 29,
        s.subrange(17, 29) == scoreframe_tail_wire(sf),
        sf.score_v2 ==> s.len() >= 45 && s.subrange(29, 45) == scoreframe_portions_wire(sf),
    ensures
        i32_at(s, 17) == sf.total_score,
        u16_at(s, 21) == sf.max_combo,
        u16_at(s, 23) == sf.current_combo,
        (s[25] != 0) == sf.perfect,
        s[26] == sf.current_hp,
        s[27] == sf.tag_byte,
        (s[28] != 0) == sf.score_v2,
        sf.score_v2 ==> u64_at(s, 29) == sf.combo_portion_bits && u64_at(s, 37) == sf.bonus_portion_bits,
{
    reveal(scoreframe_tail_wire);
    reveal(scoreframe_portions_wire);
    let t = s.subrange(17, 29);
    assert(s[25] == t[8] && s[26] == t[9] && s[27] == t[10] && s[28] == t[11]);
    assert(s.skip(17) =~= t.subrange(0, 4) + s.skip(21));
    assert(t.subrange(0, 4) =~= bytes32(unsigned(sf.total_score as int, 0x1_0000_0000)));
    lemma_round_trip_32(0, sf.total_score, s.skip(21));
    assert(s.skip(21) =~= t.subrange(4, 6) + s.skip(23));
    assert(t.subrange(4, 6) =~= bytes16(sf.max_combo as int));
    lemma_round_trip_16(sf.max_combo, 0, s.skip(23));
    assert(s.skip(23) =~= t.subrange(6, 8) + s.skip(25));
    assert(t.subrange(6, 8) =~= bytes16(sf.current_combo as int));
    lemma_round_trip_16(sf.current_combo, 0, s.skip(25));
    if sf.score_v2 {
        let p = s.subrange(29, 45);
        assert(s.skip(29) =~= p.subrange(0, 8) + s.skip(37));
        assert(p.subrange(0, 8) =~= bytes64(sf.combo_portion_bits as int));
        lemma_round_trip_64(sf.combo_portion_bits, 0, s.skip(37));
        assert(s.skip(37) =~= p.subrange(8, 16) + s.skip(45));
        assert(p.subrange(8, 16) =~= bytes64(sf.bonus_portion_bits as int));
        lemma_round_trip_64(sf.bonus_portion_bits, 0, s.skip(45));
    }
}

proof fn lemma_scoreframe_wire_lens(sf: ScoreFrame)
    ensures
        scoreframe_head_wire(sf).len() == 17,
        scoreframe_tail_wire(sf).len() == 12,
        scoreframe_portions_wire(sf).len() == if sf.score_v2 { 16int } else { 0int },
{
    reveal(scoreframe_head_wire);
    reveal(scoreframe_tail_wire);
    reveal(scoreframe_portions_wire);
}

/// A score frame decodes back from its wire form, whatever follows it. The
/// portions are only sent under score v2, so without it they must be zero.
#[verifier::spinoff_prover]
pub proof fn lemma_scoreframe_round_trip(sf: ScoreFrame, rest: Seq<u8>)
    requires
        sf.score_v2 || (sf.combo_portion_bits == 0 && sf.bonus_portion_bits == 0),
    ensures
        scoreframe_parse(scoreframe_wire(sf) + rest) == Ok::<(ScoreFrame, nat), BanchoError>(
            (sf, scoreframe_wire(sf).len()),
        ),
{
    let s = scoreframe_wire(sf) + rest;
    let h = scoreframe_head_wire(sf);
    let t = scoreframe_tail_wire(sf);
    let p = scoreframe_portions_wire(sf);
    lemma_scoreframe_wire_lens(sf);
    assert(s =~= h + (t + (p + rest)));
    assert(s.subrange(0, 17) =~= h);
    lemma_scoreframe_round_trip_head(sf, s);
    assert(s.subrange(17, 29) =~= t);
    if sf.score_v2 {
        assert(s.subrange(29, 45) =~= p);
    }
    lemma_scoreframe_round_trip_tail(sf, s);
}

/// One byte per signed byte of `v`.
pub open spec fn i8s_wire(v: Seq<i8>) -> Seq<u8> {
    Seq::new(v.len(), |i: int| unsigned(v[i] as int, 256) as u8)
}

/// The ids of the first `k` slots as a match sends them: one 32-bit integer
/// for each slot whose status marks a player, nothing for the others.
pub open spec fn slot_ids_wire(statuses: Seq<i8>, ids: Seq<Option<i32>>, k: nat) -> Seq<u8>
    decreases k,
{
    if k == 0 {
        Seq::empty()
    } else {
        slot_ids_wire(statuses, ids, (k - 1) as nat) + if occupied(statuses[k - 1]) {
            bytes32(unsigned(ids[k - 1].unwrap() as int, 0x1_0000_0000))
        } else {
            Seq::empty()
        }
    }
}

/// Whether a match's slot arrays hold sixteen entries each, with a player id
/// exactly for the slots whose status marks a player, and sixteen slot mods
/// exactly when mods are chosen per player.
pub open spec fn match_well_formed(m: MatchView) -> bool {
    &&& m.slot_statuses.len() == 16
    &&& m.slot_teams.len() == 16
    &&& m.slot_ids.len() == 16
    &&& forall|i: int| 0 <= i < 16 ==> (#[trigger] m.slot_ids[i] is Some) == occupied(m.slot_statuses[i])
    &&& m.slot_mods.len() == if m.freemods { 16int } else { 0int }
}

/// The settings that open a match, as sent.
#[verifier::opaque]
pub open spec fn match_head_wire(m: MatchView) -> Seq<u8> {
    bytes16(unsigned(m.id as int, 0x10000)) + seq![if m.in_progress { 1u8 } else { 0u8 }] + i8s_wire(
        seq![m.powerplay],
    ) + bytes32(unsigned(m.mods as int, 0x1_0000_0000)) + string_wire(encode_utf8(m.name)) + string_wire(
        encode_utf8(m.passwd),
    ) + string_wire(encode_utf8(m.map_name)) + bytes32(unsigned(m.map_id as int, 0x1_0000_0000)) + string_wire(
        encode_utf8(m.map_md5),
    )
}

/// The slot section of a match, as sent.
#[verifier::opaque]
pub open spec fn match_slots_wire(m: MatchView) -> Seq<u8> {
    i8s_wire(m.slot_statuses) + i8s_wire(m.slot_teams) + slot_ids_wire(m.slot_statuses, m.slot_ids, 16) + bytes32(
        unsigned(m.host_id as int, 0x1_0000_0000),
    ) + i8s_wire(seq![m.mode, m.win_condition, m.team_type]) + seq![if m.freemods { 1u8 } else { 0u8 }]
        + i32s_wire(m.slot_mods) + bytes32(unsigned(m.seed as int, 0x1_0000_0000))
}

/// Appends one byte per signed byte of `v`.
fn push_i8s(out: &mut Vec<u8>, v: &Vec<i8>)
    ensures
        final(out)@ == old(out)@ + i8s_wire(v@),
{
    let mut i: usize = 0;
    while i < v.len()
        invariant
            i <= v@.len(),
            out@ == old(out)@ + i8s_wire(v@.take(i as int)),
        decreases v@.len() - i,
    {
        let b = write_i8(v[i]);
        out.push(b[0]);
        i = i + 1;
        assert(out@ =~= old(out)@ + i8s_wire(v@.take(i as int)));
    }
    assert(v@.take(i as int) =~= v@);
}

/// Appends a 32-bit integer for each item of `v`.
fn push_i32s(out: &mut Vec<u8>, v: &Vec<i32>)
    ensures
        final(out)@ == old(out)@ + i32s_wire(v@),
{
    let mut i: usize = 0;
    while i < v.len()
        invariant
            i <= v@.len(),
            out@ == old(out)@ + i32s_wire(v@.take(i as int)),
        decreases v@.len() - i,
    {
        push_all(out, &write_i32(v[i]));
        assert(v@.take(i + 1).drop_last() =~= v@.take(i as int));
        i = i + 1;
    }
    assert(v@.take(i as int) =~= v@);
}

/// Appends the player id of each occupied slot, in slot order.
fn push_slot_ids(out: &mut Vec<u8>, statuses: &Vec<i8>, ids: &Vec<Option<i32>>)
    requires
        statuses@.len() == 16,
        ids@.len() == 16,
        forall|i: int| 0 <= i < 16 ==> (#[trigger] ids@[i] is Some) == occupied(statuses@[i]),
    ensures
        final(out)@ == old(out)@ + slot_ids_wire(statuses@, ids@, 16),
{
    let mut i: usize = 0;
    while i < MATCH_SLOTS
        invariant
            i <= MATCH_SLOTS,
            statuses@.len() == 16,
            ids@.len() == 16,
            forall|j: int| 0 <= j < 16 ==> (#[trigger] ids@[j] is Some) == occupied(statuses@[j]),
            out@ == old(out)@ + slot_ids_wire(statuses@, ids@, i as nat),
        decreases MATCH_SLOTS - i,
    {
        let ghost before = out@;
        if slot_has_player(statuses[i]) {
            match ids[i] {
                Some(id) => push_all(out, &write_i32(id)),
                None => {},
            }
        }
        i = i + 1;
        assert(out@ =~= old(out)@ + slot_ids_wire(statuses@, ids@, i as nat));
    }
}

/// Encodes a multiplayer match in the field order that `read_match` reads.
pub fn write_match(m: &MultiplayerMatch) -> (r: Vec<u8>)
    requires
        match_well_formed(m@),
    ensures
        r@ == match_head_wire(m@) + match_slots_wire(m@),
{
    let mut out: Vec<u8> = Vec::new();
    push_all(&mut out, &write_i16(m.id));
    out.push(if m.in_progress { 1 } else { 0 });
    out.push(write_i8(m.powerplay)[0]);
    push_all(&mut out, &write_i32(m.mods));
    let mut part = write_string(m.name.as_str());
    out.append(&mut part);
    let mut part = write_string(m.passwd.as_str());
    out.append(&mut part);
    let mut part = write_string(m.map_name.as_str());
    out.append(&mut part);
    push_all(&mut out, &write_i32(m.map_id));
    let mut part = write_string(m.map_md5.as_str());
    out.append(&mut part);
    proof {
        reveal(match_head_wire);
    }
    assert(out@ =~= match_head_wire(m@));
    let ghost head = out@;
    push_i8s(&mut out, &m.slot_statuses);
    push_i8s(&mut out, &m.slot_teams);
    push_slot_ids(&mut out, &m.slot_statuses, &m.slot_ids);
    push_all(&mut out, &write_i32(m.host_id));
    out.push(write_i8(m.mode)[0]);
    out.push(write_i8(m.win_condition)[0]);
    out.push(write_i8(m.team_type)[0]);
    out.push(if m.freemods { 1 } else { 0 });
    push_i32s(&mut out, &m.slot_mods);
    push_all(&mut out, &write_i32(m.seed));
    proof {
        reveal(match_slots_wire);
    }
    assert(out@ =~= head + match_slots_wire(m@));
    out
}

proof fn lemma_slot_ids_wire_len(statuses: Seq<i8>, ids: Seq<Option<i32>>, k: nat)
    ensures
        slot_ids_wire(statuses, ids, k).len() == 4 * occupied_count(statuses, k),
    decreases k,
{
    if k > 0 {
        lemma_slot_ids_wire_len(statuses, ids, (k - 1) as nat);
    }
}

/// The ids of the first `j` slots open the ids of the first `k`.
proof fn lemma_slot_ids_wire_prefix(statuses: Seq<i8>, ids: Seq<Option<i32>>, j: nat, k: nat)
    requires
        j <= k,
    ensures
        slot_ids_wire(statuses, ids, k).subrange(0, 4 * occupied_count(statuses, j) as int) == slot_ids_wire(
            statuses,
            ids,
            j,
        ),
    decreases k,
{
    lemma_slot_ids_wire_len(statuses, ids, k);
    lemma_slot_ids_wire_len(statuses, ids, j);
    if j < k {
        lemma_slot_ids_wire_prefix(statuses, ids, j, (k - 1) as nat);
        lemma_slot_ids_wire_len(statuses, ids, (k - 1) as nat);
        lemma_occupied_count_monotone(statuses, j, (k - 1) as nat);
        assert(slot_ids_wire(statuses, ids, k).subrange(0, 4 * occupied_count(statuses, j) as int) =~= slot_ids_wire(
            statuses,
            ids,
            (k - 1) as nat,
        ).subrange(0, 4 * occupied_count(statuses, j) as int));
    } else {
        assert(slot_ids_wire(statuses, ids, k).subrange(0, 4 * occupied_count(statuses, j) as int) =~= slot_ids_wire(
            statuses,
            ids,
            k,
        ));
    }
}

/// Reading the ids of the first `k` slots from bytes that open with the
/// ids as sent gives back the ids.
proof fn lemma_slot_ids_round_trip(statuses: Seq<i8>, ids: Seq<Option<i32>>, x: Seq<u8>, k: nat)
    requires
        k <= 16,
        statuses.len() == 16,
        ids.len() == 16,
        forall|i: int| 0 <= i < 16 ==> (#[trigger] ids[i] is Some) == occupied(statuses[i]),
        x.len() >= 4 * occupied_count(statuses, 16),
        x.subrange(0, 4 * occupied_count(statuses, 16) as int) == slot_ids_wire(statuses, ids, 16),
    ensures
        slot_ids(statuses, x, k) == ids.take(k as int),
    decreases k,
{
    if k == 0 {
        assert(ids.take(0) =~= Seq::<Option<i32>>::empty());
    } else {
        let j = (k - 1) as nat;
        lemma_slot_ids_round_trip(statuses, ids, x, j);
        assert(ids.take(k as int) =~= ids.take(j as int).push(ids[j as int]));
        if occupied(statuses[j as int]) {
            let c = 4 * occupied_count(statuses, j) as int;
            lemma_slot_ids_wire_prefix(statuses, ids, k, 16);
            lemma_slot_ids_wire_len(statuses, ids, j);
            lemma_occupied_count_monotone(statuses, k, 16);
            let u = unsigned(ids[j as int].unwrap() as int, 0x1_0000_0000);
            let w = slot_ids_wire(statuses, ids, k);
            assert(w == slot_ids_wire(statuses, ids, j) + bytes32(u));
            let y = x.skip(c as int);
            assert(y =~= bytes32(u) + y.skip(4)) by {
                assert(x.subrange(0, 4 * occupied_count(statuses, k) as int) == w);
                assert forall|i: int| 0 <= i < 4 implies y[i] == bytes32(u)[i] by {
                    assert(y[i] == x[c + i]);
                    assert(x[c + i] == x.subrange(0, 4 * occupied_count(statuses, k) as int)[c + i]);
                    assert(w[c + i] == bytes32(u)[i]);
                }
            }
            lemma_round_trip_32(0, ids[j as int].unwrap(), y.skip(4));
        }
    }
}

/// The slot section of a match, as the model sees it.
pub open spec fn slots_of(m: MatchView) -> SlotsView {
    SlotsView {
        statuses: m.slot_statuses,
        teams: m.slot_teams,
        ids: m.slot_ids,
        host_id: m.host_id,
        mode: m.mode,
        win_condition: m.win_condition,
        team_type: m.team_type,
        freemods: m.freemods,
        slot_mods: m.slot_mods,
        seed: m.seed,
    }
}

/// Sixteen 32-bit integers read back from their wire form.
proof fn lemma_i32s_round_trip(v: Seq<i32>, x: Seq<u8>)
    requires
        v.len() == 16,
        x.len() >= 64,
        x.subrange(0, 64) == i32s_wire(v),
    ensures
        i32s_at(x, 16) == v,
{
    lemma_i32s_wire_len(v);
    assert forall|j: int| 0 <= j < 16 implies #[trigger] i32s_at(x, 16)[j] == v[j] by {
        lemma_i32s_wire_item(v, j);
        let u = unsigned(v[j] as int, 0x1_0000_0000);
        let y = x.skip(4 * j);
        assert(y =~= bytes32(u) + y.skip(4)) by {
            assert forall|i: int| 0 <= i < 4 implies y[i] == bytes32(u)[i] by {
                assert(y[i] == x.subrange(0, 64)[4 * j + i]);
                assert(i32s_wire(v).subrange(4 * j, 4 * j + 4)[i] == i32s_wire(v)[4 * j + i]);
            }
        }
        lemma_bytes32_value(u, y.skip(4));
    }
    assert(i32s_at(x, 16) =~= v);
}

/// Statuses and teams read back from their wire form.
proof fn lemma_i8s_round_trip(st: Seq<i8>, teams: Seq<i8>, y: Seq<u8>)
    requires
        st.len() == 16,
        teams.len() == 16,
    ensures
        i8s(i8s_wire(st) + (i8s_wire(teams) + y), 16) == st,
        i8s((i8s_wire(st) + (i8s_wire(teams) + y)).skip(16), 16) == teams,
        (i8s_wire(st) + (i8s_wire(teams) + y)).skip(32) == y,
{
    let x = i8s_wire(st) + (i8s_wire(teams) + y);
    assert(i8s(x, 16) =~= st);
    assert(x.skip(16) =~= i8s_wire(teams) + y);
    assert(i8s(x.skip(16), 16) =~= teams);
    assert(x.skip(32) =~= y);
}

/// What follows the slot ids reads back: host, mode, win condition, team
/// type, the per-player mods flag, the slot mods when it is set, and the
/// seed.
#[verifier::spinoff_prover]
#[verifier::rlimit(60)]
proof fn lemma_match_after_ids_round_trip(m: MatchView, rest: Seq<u8>)
    requires
        m.slot_mods.len() == if m.freemods { 16int } else { 0int },
    ensures
        ({
            let y = bytes32(unsigned(m.host_id as int, 0x1_0000_0000)) + (i8s_wire(seq![m.mode, m.win_condition, m.team_type])
                + (seq![if m.freemods { 1u8 } else { 0u8 }] + (i32s_wire(m.slot_mods) + (bytes32(
                unsigned(m.seed as int, 0x1_0000_0000),
            ) + rest))));
            let seed_at = 8 + if m.freemods { 64int } else { 0int };
            &&& y.len() == seed_at + 4 + rest.len()
            &&& i32_at(y, 0) == m.host_id
            &&& i8_at(y, 4) == m.mode
            &&& i8_at(y, 5) == m.win_condition
            &&& i8_at(y, 6) == m.team_type
            &&& (y[7] == 1) == m.freemods
            &&& m.freemods ==> i32s_at(y.skip(8), 16) == m.slot_mods
            &&& i32_at(y, seed_at) == m.seed
        }),
{
    let d = bytes32(unsigned(m.host_id as int, 0x1_0000_0000));
    let e = i8s_wire(seq![m.mode, m.win_condition, m.team_type]);
    let f = seq![if m.freemods { 1u8 } else { 0u8 }];
    let g = i32s_wire(m.slot_mods);
    let h = bytes32(unsigned(m.seed as int, 0x1_0000_0000));
    lemma_i32s_wire_len(m.slot_mods);
    let y = d + (e + (f + (g + (h + rest))));
    assert(y.skip(0) =~= y);
    lemma_round_trip_32(0, m.host_id, e + (f + (g + (h + rest))));
    assert(y[4] == e[0] && y[5] == e[1] && y[6] == e[2] && y[7] == f[0]);
    assert(y.skip(8) =~= g + (h + rest));
    if m.freemods {
        assert(y.skip(8).subrange(0, 64) =~= g);
        lemma_i32s_round_trip(m.slot_mods, y.skip(8));
        assert(y.skip(72) =~= h + rest);
    } else {
        assert(y.skip(8) =~= h + rest);
    }
    lemma_round_trip_32(0, m.seed, rest);
}

/// The slot section of a well-formed match decodes back from its wire form,
/// whatever follows it.
#[verifier::spinoff_prover]
#[verifier::rlimit(60)]
pub proof fn lemma_match_slots_round_trip(m: MatchView, rest: Seq<u8>)
    requires
        match_well_formed(m),
    ensures
        match_slots_parse(match_slots_wire(m) + rest) == Ok::<(SlotsView, nat), BanchoError>(
            (slots_of(m), match_slots_wire(m).len()),
        ),
{
    reveal(match_slots_wire);
    let st = m.slot_statuses;
    let c = slot_ids_wire(st, m.slot_ids, 16);
    let y = bytes32(unsigned(m.host_id as int, 0x1_0000_0000)) + (i8s_wire(seq![m.mode, m.win_condition, m.team_type])
        + (seq![if m.freemods { 1u8 } else { 0u8 }] + (i32s_wire(m.slot_mods) + (bytes32(
        unsigned(m.seed as int, 0x1_0000_0000),
    ) + rest))));
    let t = match_slots_wire(m) + rest;
    assert(t =~= i8s_wire(st) + (i8s_wire(m.slot_teams) + (c + y)));
    lemma_i8s_round_trip(st, m.slot_teams, c + y);
    lemma_slot_ids_wire_len(st, m.slot_ids, 16);
    lemma_occupied_count_bounded(st, 16);
    let n = 4 * occupied_count(st, 16) as int;
    assert((c + y).subrange(0, n) =~= c);
    lemma_slot_ids_round_trip(st, m.slot_ids, c + y, 16);
    assert(m.slot_ids.take(16) =~= m.slot_ids);
    assert((c + y).skip(n) =~= y);
    lemma_match_after_ids_round_trip(m, rest);
    let k = 32 + n;
    assert(t.skip(k) =~= y);
    assert(t[k + 7] == y[7]);
    assert(i32_at(t, k) == i32_at(y, 0));
    assert(i8_at(t, k + 4) == i8_at(y, 4) && i8_at(t, k + 5) == i8_at(y, 5) && i8_at(t, k + 6) == i8_at(y, 6));
    assert(t.skip(k + 8) =~= y.skip(8));
    let seed_at = 8 + if m.freemods { 64int } else { 0int };
    assert(t.skip(k + seed_at) =~= y.skip(seed_at));
    assert(t.skip(32) == c + y);
    assert(i8s(t, 16) == st);
    assert(slot_ids(st, t.skip(32), 16) == m.slot_ids);
    assert(t.len() == k + seed_at + 4 + rest.len());
    assert(i32_at(t, k + seed_at) == m.seed);
    assert(m.freemods ==> i32s_at(t.skip(k + 8), 16) == m.slot_mods);
    assert(match_slots_wire(m).len() == k + seed_at + 4);
    if !m.freemods {
        assert(m.slot_mods =~= Seq::<i32>::empty());
    }
}

/// The settings that open a match, as the model sees them.
pub open spec fn head_of(m: MatchView) -> HeadView {
    HeadView {
        id: m.id,
        in_progress: m.in_progress,
        powerplay: m.powerplay,
        mods: m.mods,
        name: m.name,
        passwd: m.passwd,
        map_name: m.map_name,
        map_id: m.map_id,
        map_md5: m.map_md5,
    }
}

/// Whether each string of a match has a byte length a ULEB128 length can
/// carry.
pub open spec fn match_strings_fit(m: MatchView) -> bool {
    &&& encode_utf8(m.name).len() <= u64::MAX
    &&& encode_utf8(m.passwd).len() <= u64::MAX
    &&& encode_utf8(m.map_name).len() <= u64::MAX
    &&& encode_utf8(m.map_md5).len() <= u64::MAX
}

/// The settings that open a match decode back from their wire form,
/// whatever follows them.
#[verifier::spinoff_prover]
#[verifier::rlimit(60)]
pub proof fn lemma_match_head_round_trip(m: MatchView, rest: Seq<u8>)
    requires
        match_strings_fit(m),
    ensures
        match_head_parse(match_head_wire(m) + rest) == Ok::<(HeadView, nat), BanchoError>(
            (head_of(m), match_head_wire(m).len()),
        ),
{
    reveal(match_head_wire);
    let p = bytes16(unsigned(m.id as int, 0x10000)) + seq![if m.in_progress { 1u8 } else { 0u8 }] + i8s_wire(
        seq![m.powerplay],
    ) + bytes32(unsigned(m.mods as int, 0x1_0000_0000));
    let sn = string_wire(encode_utf8(m.name));
    let sp = string_wire(encode_utf8(m.passwd));
    let sm = string_wire(encode_utf8(m.map_name));
    let mi = bytes32(unsigned(m.map_id as int, 0x1_0000_0000));
    let sd = string_wire(encode_utf8(m.map_md5));
    let s = match_head_wire(m) + rest;
    assert(p.len() == 8);
    assert(s =~= p + (sn + (sp + (sm + (mi + (sd + rest))))));
    assert(s.skip(0) =~= s);
    lemma_round_trip_16(0, m.id, s.skip(2));
    assert(s =~= bytes16(unsigned(m.id as int, 0x10000)) + s.skip(2));
    assert(s[2] == p[2] && s[3] == p[3]);
    lemma_round_trip_32(0, m.mods, s.skip(8));
    assert(s.skip(4) =~= bytes32(unsigned(m.mods as int, 0x1_0000_0000)) + s.skip(8));
    let a = sn.len() as int;
    let b = sp.len() as int;
    let c = sm.len() as int;
    assert(s.skip(8) =~= sn + (sp + (sm + (mi + (sd + rest)))));
    lemma_string_round_trip(m.name, sp + (sm + (mi + (sd + rest))));
    assert(s.skip(8 + a) =~= sp + (sm + (mi + (sd + rest))));
    lemma_string_round_trip(m.passwd, sm + (mi + (sd + rest)));
    assert(s.skip(8 + a + b) =~= sm + (mi + (sd + rest)));
    lemma_string_round_trip(m.map_name, mi + (sd + rest));
    assert(s.skip(8 + a + b + c) =~= mi + (sd + rest));
    lemma_round_trip_32(0, m.map_id, sd + rest);
    assert(s.skip(8 + a + b + c + 4) =~= sd + rest);
    lemma_string_round_trip(m.map_md5, rest);
}

/// A well-formed match decodes back from the bytes `write_match` gives for
/// it, whatever follows them.
#[verifier::spinoff_prover]
pub proof fn lemma_match_round_trip(m: MatchView, rest: Seq<u8>)
    requires
        match_well_formed(m),
        match_strings_fit(m),
    ensures
        match_parse(match_head_wire(m) + match_slots_wire(m) + rest) == Ok::<(MatchView, nat), BanchoError>(
            (m, match_head_wire(m).len() + match_slots_wire(m).len()),
        ),
{
    let h = match_head_wire(m);
    let t = match_slots_wire(m);
    let s = h + t + rest;
    assert(s =~= h + (t + rest));
    lemma_match_head_round_trip(m, t + rest);
    assert(s.skip(h.len() as int) =~= t + rest);
    lemma_match_slots_round_trip(m, rest);
}

} // verus!
