//! The handler registry and the dispatch loop that routes a request's frames
//! to it.
use vstd::prelude::*;

use crate::error::BanchoError;
use crate::packets::{packet_id, Packets, Player};
use crate::reader::PacketReader;
use crate::wire::{bytes16, bytes32, le_u16, le_u32, lemma_round_trip_16, lemma_round_trip_32};

verus! {

/// Ids below this bound index a registry's table; the catalogue's ids all do.
pub const ID_SPACE: usize = 110;

/// Bytes in a frame header: a 16-bit id and a 32-bit body length.
pub const FRAME_HEADER_BYTES: usize = 6;

/// Every catalogue id indexes a registry's table.
pub proof fn lemma_packet_ids_in_space(p: Packets)
    ensures
        packet_id(p) < ID_SPACE,
{
}

/// One declared handler: the packet it handles, whether restricted accounts
/// may reach it, and the handler itself.
#[derive(Debug)]
pub struct HandlerEntry<H> {
    pub packet: Packets,
    pub restricted_ok: bool,
    pub handler: H,
}

/// Whether a declaration belongs in the registry built for `restricted`.
pub open spec fn admitted<H>(d: HandlerEntry<H>, restricted: bool) -> bool {
    !restricted || d.restricted_ok
}

/// The table built by registering, in order, each declaration admitted for
/// `restricted`: entry `id` holds the handler declared for that id, if any.
pub open spec fn fold_table<H>(decls: Seq<HandlerEntry<H>>, restricted: bool) -> Seq<Option<H>>
    decreases decls.len(),
{
    if decls.len() == 0 {
        Seq::new(ID_SPACE as nat, |i: int| None)
    } else {
        let t = fold_table(decls.drop_last(), restricted);
        let d = decls.last();
        if admitted(d, restricted) {
            t.update(packet_id(d.packet) as int, Some(d.handler))
        } else {
            t
        }
    }
}

/// Whether two declarations admitted for `restricted` name the same packet.
pub open spec fn has_duplicate<H>(decls: Seq<HandlerEntry<H>>, restricted: bool) -> bool
    decreases decls.len(),
{
    if decls.len() == 0 {
        false
    } else {
        has_duplicate(decls.drop_last(), restricted) || (admitted(decls.last(), restricted)
            && fold_table(decls.drop_last(), restricted)[packet_id(decls.last().packet) as int] is Some)
    }
}

/// The handler that `table` holds for `id`, if any.
pub open spec fn lookup<H>(table: Seq<Option<H>>, id: u16) -> Option<H> {
    if id < table.len() {
        table[id as int]
    } else {
        None
    }
}

/// A read-only mapping from packet ids to handlers.
#[derive(Debug)]
pub struct Registry<H> {
    table: Vec<Option<H>>,
}

impl<H> View for Registry<H> {
    type V = Seq<Option<H>>;

    closed spec fn view(&self) -> Seq<Option<H>> {
        self.table@
    }
}

/// Two packets were declared with a handler for the same id.
#[derive(Debug, Clone, Copy, PartialEq, Eq, Structural)]
pub struct DuplicateHandler {
    pub id: u16,
}

impl<H: Copy> Registry<H> {
    /// Registers, in order, each declaration admitted for `restricted`; fails
    /// on the first id declared twice.
    pub fn build(decls: &Vec<HandlerEntry<H>>, restricted: bool) -> (r: Result<Self, DuplicateHandler>)
        ensures
            r is Err <==> has_duplicate(decls@, restricted),
            r is Ok ==> r.unwrap()@ == fold_table(decls@, restricted),
    {
        let mut table: Vec<Option<H>> = Vec::new();
        while table.len() < ID_SPACE
            invariant
                table.len() <= ID_SPACE,
                forall|i: int| 0 <= i < table.len() ==> table@[i] is None,
            decreases ID_SPACE - table.len(),
        {
            table.push(None);
        }
        assert(table@ =~= fold_table(decls@.take(0), restricted));
        let mut i: usize = 0;
        while i < decls.len()
            invariant
                i <= decls@.len(),
                table@ == fold_table(decls@.take(i as int), restricted),
                !has_duplicate(decls@.take(i as int), restricted),
            decreases decls@.len() - i,
        {
            let d = &decls[i];
            assert(decls@.take(i + 1).drop_last() =~= decls@.take(i as int));
            proof {
                lemma_fold_table_len(decls@.take(i as int), restricted);
                lemma_packet_ids_in_space(d.packet);
            }
            if !restricted || d.restricted_ok {
                let id = d.packet.id();
                if table[id as usize].is_some() {
                    proof {
                        lemma_duplicate_extends(decls@, (i + 1) as nat, restricted);
                    }
                    return Err(DuplicateHandler { id });
                }
                table[id as usize] = Some(d.handler);
            }
            i = i + 1;
        }
        assert(decls@.take(i as int) =~= decls@);
        Ok(Registry { table })
    }

    /// The handler registered for `id`, if any.
    pub fn get(&self, id: u16) -> (r: Option<H>)
        ensures
            r == lookup(self@, id),
    {
        if (id as usize) < self.table.len() {
            self.table[id as usize]
        } else {
            None
        }
    }
}

proof fn lemma_fold_table_len<H>(decls: Seq<HandlerEntry<H>>, restricted: bool)
    ensures
        fold_table(decls, restricted).len() == ID_SPACE,
    decreases decls.len(),
{
    if decls.len() > 0 {
        lemma_fold_table_len(decls.drop_last(), restricted);
        lemma_packet_ids_in_space(decls.last().packet);
    }
}

/// A duplicate among the first `k` declarations is a duplicate among all.
proof fn lemma_duplicate_extends<H>(decls: Seq<HandlerEntry<H>>, k: nat, restricted: bool)
    requires
        k <= decls.len(),
        has_duplicate(decls.take(k as int), restricted),
    ensures
        has_duplicate(decls, restricted),
    decreases decls.len() - k,
{
    if k < decls.len() {
        assert(decls.take(k + 1 as int).drop_last() =~= decls.take(k as int));
        lemma_duplicate_extends(decls, k + 1, restricted);
    } else {
        assert(decls.take(k as int) =~= decls);
    }
}

/// A registry for every handler, and one for those that restricted
/// accounts may reach.
#[derive(Debug)]
pub struct Registries<H> {
    pub full: Registry<H>,
    pub restricted: Registry<H>,
}

impl<H: Copy> Registries<H> {
    /// Builds both registries from one list of declarations.
    pub fn build(decls: &Vec<HandlerEntry<H>>) -> (r: Result<Self, DuplicateHandler>)
        ensures
            r is Err <==> has_duplicate(decls@, false) || has_duplicate(decls@, true),
            r is Ok ==> r.unwrap().full@ == fold_table(decls@, false) && r.unwrap().restricted@
                == fold_table(decls@, true),
    {
        let full = Registry::build(decls, false)?;
        let restricted = Registry::build(decls, true)?;
        Ok(Registries { full, restricted })
    }

    /// The registry that applies to `player`.
    pub fn for_player(&self, player: &Player) -> (r: &Registry<H>)
        ensures
            r@ == (if player.restricted { self.restricted@ } else { self.full@ }),
    {
        if player.restricted {
            &self.restricted
        } else {
            &self.full
        }
    }
}

/// A handler call that the dispatch loop decided on: the packet id, its
/// handler, and the frame body the handler is to read.
#[derive(Debug)]
pub struct Invocation<H> {
    pub packet_id: u16,
    pub handler: H,
    pub body: Vec<u8>,
}

/// The calls as the model sees them.
pub open spec fn calls_view<H>(v: Seq<Invocation<H>>) -> Seq<(u16, H, Seq<u8>)> {
    v.map_values(|c: Invocation<H>| (c.packet_id, c.handler, c.body@))
}

/// The wire form of one frame: id, body length, body.
pub open spec fn frame_wire(id: u16, body: Seq<u8>) -> Seq<u8> {
    bytes16(id as int) + bytes32(body.len() as int) + body
}

/// The handler calls that a request `s` makes under `table`, frame by
/// frame in order. A frame whose id has a handler, other than a ping, gives
/// a call with its body; any other frame is skipped by its declared length.
/// An incomplete header fails with `UnexpectedEof`, and a body longer than
/// what remains with `TruncatedFrame`; either way no call is made.
pub open spec fn frames_plan<H>(s: Seq<u8>, table: Seq<Option<H>>) -> Result<Seq<(u16, H, Seq<u8>)>, BanchoError>
    decreases s.len(),
{
    if s.len() == 0 {
        Ok(Seq::empty())
    } else if s.len() < FRAME_HEADER_BYTES {
        Err(BanchoError::UnexpectedEof)
    } else {
        let id = le_u16(s) as u16;
        let len = le_u32(s.skip(2));
        if len > s.len() - FRAME_HEADER_BYTES {
            Err(BanchoError::TruncatedFrame)
        } else {
            match frames_plan(s.skip(FRAME_HEADER_BYTES + len), table) {
                Err(e) => Err(e),
                Ok(calls) => if id != packet_id(Packets::OsuPing) && lookup(table, id) is Some {
                    Ok(seq![(id, lookup(table, id).unwrap(), s.subrange(6, 6 + len))] + calls)
                } else {
                    Ok(calls)
                },
            }
        }
    }
}

/// Peels the frames of a request off one by one and decides which handler
/// each goes to. Nothing is handed out unless every frame is well formed.
pub fn plan_dispatch<H: Copy>(registry: &Registry<H>, data: Vec<u8>) -> (r: Result<Vec<Invocation<H>>, BanchoError>)
    ensures
        match frames_plan(data@, registry@) {
            Ok(calls) => r is Ok && calls_view(r.unwrap()@) == calls,
            Err(e) => r is Err && r->Err_0 == e,
        },
{
    let ghost s = data@;
    let mut reader = PacketReader::new(data);
    let mut out: Vec<Invocation<H>> = Vec::new();
    let ping = Packets::OsuPing.id();
    while !reader.is_empty()
        invariant
            s == data@,
            ping == packet_id(Packets::OsuPing),
            frames_plan(s, registry@) == match frames_plan(reader@, registry@) {
                Ok(c) => Ok(calls_view(out@) + c),
                Err(e) => Err(e),
            },
        decreases reader@.len(),
    {
        let ghost cur = reader@;
        proof {
            if cur.len() < FRAME_HEADER_BYTES {
                assert(frames_plan(cur, registry@) == Err::<Seq<(u16, H, Seq<u8>)>, BanchoError>(
                    BanchoError::UnexpectedEof,
                ));
            }
        }
        let id = reader.read_u16()?;
        let len = reader.read_u32()?;
        assert(reader@ =~= cur.skip(6));
        if len as usize > reader.remaining() {
            assert(frames_plan(cur, registry@) == Err::<Seq<(u16, H, Seq<u8>)>, BanchoError>(
                BanchoError::TruncatedFrame,
            ));
            return Err(BanchoError::TruncatedFrame);
        }
        let body = reader.read_bytes(len as usize)?;
        proof {
            assert(reader@ =~= cur.skip(6 + len));
            assert(body@ =~= cur.subrange(6, 6 + len));
        }
        if id != ping {
            match registry.get(id) {
                Some(handler) => {
                    let ghost before = out@;
                    out.push(Invocation { packet_id: id, handler, body });
                    proof {
                        assert(calls_view(out@) =~= calls_view(before).push((id, handler, cur.subrange(6, 6 + len))));
                        match frames_plan(reader@, registry@) {
                            Ok(c) => {
                                assert(calls_view(out@) + c =~= calls_view(before) + (seq![(id, handler, cur.subrange(6, 6 + len))] + c));
                            },
                            Err(e) => {},
                        }
                    }
                },
                None => {},
            }
        }
    }
    assert(frames_plan(reader@, registry@) == Ok::<Seq<(u16, H, Seq<u8>)>, BanchoError>(Seq::empty()));
    assert(calls_view(out@) + Seq::empty() =~= calls_view(out@));
    Ok(out)
}

/// Plans the dispatch of a request for `player`, under the registry that
/// applies to them.
pub fn plan_for_player<H: Copy>(registries: &Registries<H>, player: &Player, data: Vec<u8>) -> (r: Result<Vec<Invocation<H>>, BanchoError>)
    ensures
        match frames_plan(data@, if player.restricted { registries.restricted@ } else { registries.full@ }) {
            Ok(calls) => r is Ok && calls_view(r.unwrap()@) == calls,
            Err(e) => r is Err && r->Err_0 == e,
        },
{
    plan_dispatch(registries.for_player(player), data)
}

/// A request of one frame makes one call when the frame's id has a
/// handler and is not a ping, and none otherwise.
pub proof fn lemma_single_frame<H>(id: u16, body: Seq<u8>, table: Seq<Option<H>>)
    requires
        body.len() <= u32::MAX,
    ensures
        frames_plan(frame_wire(id, body), table) == Ok::<Seq<(u16, H, Seq<u8>)>, BanchoError>(
            if id != packet_id(Packets::OsuPing) && lookup(table, id) is Some {
                seq![(id, lookup(table, id).unwrap(), body)]
            } else {
                Seq::empty()
            },
        ),
{
    let f = frame_wire(id, body);
    lemma_frame_header(id, body, Seq::empty());
    assert(f + Seq::<u8>::empty() =~= f);
    assert(f.skip(6 + body.len() as int) =~= Seq::<u8>::empty());
    assert(frames_plan(Seq::<u8>::empty(), table) == Ok::<Seq<(u16, H, Seq<u8>)>, BanchoError>(Seq::empty()));
    assert(f.subrange(6, 6 + body.len() as int) =~= body);
    assert(seq![(id, lookup(table, id).unwrap(), body)] + Seq::empty() =~= seq![(id, lookup(table, id).unwrap(), body)]);
}

/// A frame whose id has no handler is skipped whole: the frame after it
/// reaches its handler once, with its own body intact.
pub proof fn lemma_unregistered_frame_skipped<H>(
    id1: u16,
    body1: Seq<u8>,
    id2: u16,
    body2: Seq<u8>,
    table: Seq<Option<H>>,
)
    requires
        lookup(table, id1) is None,
        lookup(table, id2) is Some,
        id2 != packet_id(Packets::OsuPing),
        body1.len() <= u32::MAX,
        body2.len() <= u32::MAX,
    ensures
        frames_plan(frame_wire(id1, body1) + frame_wire(id2, body2), table) == Ok::<Seq<(u16, H, Seq<u8>)>, BanchoError>(
            seq![(id2, lookup(table, id2).unwrap(), body2)],
        ),
{
    let f1 = frame_wire(id1, body1);
    let f2 = frame_wire(id2, body2);
    lemma_single_frame(id2, body2, table);
    lemma_frame_header(id1, body1, f2);
    assert((f1 + f2).skip(6 + body1.len() as int) =~= f2);
}

/// A frame whose declared length runs past the end of the request fails
/// the whole request with `TruncatedFrame`, so no handler is called.
pub proof fn lemma_truncated_frame<H>(s: Seq<u8>, table: Seq<Option<H>>)
    requires
        s.len() >= FRAME_HEADER_BYTES,
        le_u32(s.skip(2)) > s.len() - FRAME_HEADER_BYTES,
    ensures
        frames_plan(s, table) == Err::<Seq<(u16, H, Seq<u8>)>, BanchoError>(BanchoError::TruncatedFrame),
{
}

/// Every call planned under a table goes to the handler that the table holds
/// for its id, and never to a ping.
pub proof fn lemma_plan_registered<H>(s: Seq<u8>, table: Seq<Option<H>>)
    ensures
        frames_plan(s, table) is Ok ==> forall|k: int|
            0 <= k < frames_plan(s, table).unwrap().len() ==> {
                let c = #[trigger] frames_plan(s, table).unwrap()[k];
                lookup(table, c.0) == Some(c.1) && c.0 != packet_id(Packets::OsuPing)
            },
    decreases s.len(),
{
    if s.len() >= FRAME_HEADER_BYTES {
        let len = le_u32(s.skip(2));
        if len <= s.len() - FRAME_HEADER_BYTES {
            lemma_plan_registered(s.skip(FRAME_HEADER_BYTES + len), table);
        }
    }
}

/// Whatever entry a built table holds was declared, and admitted.
pub proof fn lemma_table_declared<H>(decls: Seq<HandlerEntry<H>>, restricted: bool, id: u16)
    ensures
        lookup(fold_table(decls, restricted), id) is Some ==> exists|i: int|
            0 <= i < decls.len() && admitted(#[trigger] decls[i], restricted) && packet_id(decls[i].packet) == id,
    decreases decls.len(),
{
    lemma_fold_table_len(decls, restricted);
    if decls.len() > 0 {
        lemma_table_declared(decls.drop_last(), restricted, id);
        lemma_fold_table_len(decls.drop_last(), restricted);
        if lookup(fold_table(decls, restricted), id) is Some {
            if lookup(fold_table(decls.drop_last(), restricted), id) is Some {
                let i = choose|i: int|
                    0 <= i < decls.drop_last().len() && admitted(#[trigger] decls.drop_last()[i], restricted)
                        && packet_id(decls.drop_last()[i].packet) == id;
                assert(decls[i] == decls.drop_last()[i]);
            } else {
                assert(decls[decls.len() - 1] == decls.last());
            }
        }
    }
}

/// A restricted session reaches only handlers of the restricted registry:
/// each call planned for it goes to the handler that registry holds for its
/// id, and that id was declared as allowed to restricted accounts.
pub proof fn lemma_restricted_routing<H>(decls: Seq<HandlerEntry<H>>, s: Seq<u8>)
    ensures
        frames_plan(s, fold_table(decls, true)) is Ok ==> forall|k: int|
            0 <= k < frames_plan(s, fold_table(decls, true)).unwrap().len() ==> {
                let c = #[trigger] frames_plan(s, fold_table(decls, true)).unwrap()[k];
                &&& lookup(fold_table(decls, true), c.0) == Some(c.1)
                &&& exists|i: int|
                    0 <= i < decls.len() && (#[trigger] decls[i]).restricted_ok && packet_id(decls[i].packet) == c.0
            },
{
    let table = fold_table(decls, true);
    lemma_plan_registered(s, table);
    if frames_plan(s, table) is Ok {
        assert forall|k: int| 0 <= k < frames_plan(s, table).unwrap().len() implies {
            let c = #[trigger] frames_plan(s, table).unwrap()[k];
            &&& lookup(table, c.0) == Some(c.1)
            &&& exists|i: int| 0 <= i < decls.len() && (#[trigger] decls[i]).restricted_ok && packet_id(decls[i].packet) == c.0
        } by {
            let c = frames_plan(s, table).unwrap()[k];
            lemma_table_declared(decls, true, c.0);
        }
    }
}

/// The header of a frame reads back as its id and its body length, and the
/// body follows it.
proof fn lemma_frame_header(id: u16, body: Seq<u8>, rest: Seq<u8>)
    requires
        body.len() <= u32::MAX,
    ensures
        le_u16(frame_wire(id, body) + rest) == id,
        le_u32((frame_wire(id, body) + rest).skip(2)) == body.len(),
        (frame_wire(id, body) + rest).len() == 6 + body.len() + rest.len(),
{
    let s = frame_wire(id, body) + rest;
    lemma_round_trip_16(id, 0, bytes32(body.len() as int) + body + rest);
    assert(s =~= bytes16(id as int) + (bytes32(body.len() as int) + body + rest));
    lemma_round_trip_32(body.len() as u32, 0, body + rest);
    assert(s.skip(2) =~= bytes32(body.len() as int) + (body + rest));
}

} // verus!
