//! The packet catalogue, the session a handler acts on, and the packets a
//! client sends.
use vstd::prelude::*;

use crate::error::BanchoError;
use crate::reader::{message_parse, Message, PacketReader};
use vstd::utf8::encode_utf8;

use crate::wire::{bytes32, i32_list_parse, le_u32, signed, string_parse, string_wire};
use crate::writer::{write_string, write_u32};

verus! {

/// Every packet of the protocol. Client (`Osu`) and server (`Cho`) packets
/// share one space of ids, some of which are unused.
#[derive(Clone, Copy, Debug, PartialEq, Eq, Hash, Structural)]
pub enum Packets {
    OsuChangeAction,
    OsuSendPublicMessage,
    OsuLogout,
    OsuRequestStatusUpdate,
    OsuPing,
    ChoUserId,
    ChoSendMessage,
    ChoPong,
    ChoHandleIrcChangeUsername,
    ChoHandleIrcQuit,
    ChoUserStats,
    ChoUserLogout,
    ChoSpectatorJoined,
    ChoSpectatorLeft,
    ChoSpectateFrames,
    OsuStartSpectating,
    OsuStopSpectating,
    OsuSpectateFrames,
    ChoVersionUpdate,
    OsuErrorReport,
    OsuCantSpectate,
    ChoSpectatorCantSpectate,
    ChoGetAttention,
    ChoNotification,
    OsuSendPrivateMessage,
    ChoUpdateMatch,
    ChoNewMatch,
    ChoDisposeMatch,
    OsuPartLobby,
    OsuJoinLobby,
    OsuCreateMatch,
    OsuJoinMatch,
    OsuPartMatch,
    ChoToggleBlockNonFriendDms,
    ChoMatchJoinSuccess,
    ChoMatchJoinFail,
    OsuMatchChangeSlot,
    OsuMatchReady,
    OsuMatchLock,
    OsuMatchChangeSettings,
    ChoFellowSpectatorJoined,
    ChoFellowSpectatorLeft,
    OsuMatchStart,
    ChoAllPlayersLoaded,
    ChoMatchStart,
    OsuMatchScoreUpdate,
    ChoMatchScoreUpdate,
    OsuMatchComplete,
    ChoMatchTransferHost,
    OsuMatchChangeMods,
    OsuMatchLoadComplete,
    ChoMatchAllPlayersLoaded,
    OsuMatchNoBeatmap,
    OsuMatchNotReady,
    OsuMatchFailed,
    ChoMatchPlayerFailed,
    ChoMatchComplete,
    OsuMatchHasBeatmap,
    OsuMatchSkipRequest,
    ChoMatchSkip,
    ChoUnauthorized,
    OsuChannelJoin,
    ChoChannelJoinSuccess,
    ChoChannelInfo,
    ChoChannelKick,
    ChoChannelAutoJoin,
    OsuBeatmapInfoRequest,
    ChoBeatmapInfoReply,
    OsuMatchTransferHost,
    ChoPrivileges,
    ChoFriendsList,
    OsuFriendAdd,
    OsuFriendRemove,
    ChoProtocolVersion,
    ChoMainMenuIcon,
    OsuMatchChangeTeam,
    OsuChannelPart,
    OsuReceiveUpdates,
    ChoMonitor,
    ChoMatchPlayerSkipped,
    OsuSetAwayMessage,
    ChoUserPresence,
    OsuIrcOnly,
    OsuUserStatsRequest,
    ChoRestart,
    OsuMatchInvite,
    ChoMatchInvite,
    ChoChannelInfoEnd,
    OsuMatchChangePassword,
    ChoMatchChangePassword,
    ChoSilenceEnd,
    OsuTournamentMatchInfoRequest,
    ChoUserSilenced,
    ChoUserPresenceSingle,
    ChoUserPresenceBundle,
    OsuUserPresenceRequest,
    OsuUserPresenceRequestAll,
    OsuToggleBlockNonFriendDms,
    ChoUserDmBlocked,
    ChoTargetIsSilenced,
    ChoVersionUpdateForced,
    ChoSwitchServer,
    ChoAccountRestricted,
    ChoRtx,
    ChoMatchAbort,
    ChoSwitchTournamentServer,
    OsuTournamentJoinMatchChannel,
    OsuTournamentLeaveMatchChannel,
}

/// The wire id of each packet. Published ids never change.
pub open spec fn packet_id(p: Packets) -> u16 {
    match p {
        Packets::OsuChangeAction => 0,
        Packets::OsuSendPublicMessage => 1,
        Packets::OsuLogout => 2,
        Packets::OsuRequestStatusUpdate => 3,
        Packets::OsuPing => 4,
        Packets::ChoUserId => 5,
        Packets::ChoSendMessage => 7,
        Packets::ChoPong => 8,
        Packets::ChoHandleIrcChangeUsername => 9,
        Packets::ChoHandleIrcQuit => 10,
        Packets::ChoUserStats => 11,
        Packets::ChoUserLogout => 12,
        Packets::ChoSpectatorJoined => 13,
        Packets::ChoSpectatorLeft => 14,
        Packets::ChoSpectateFrames => 15,
        Packets::OsuStartSpectating => 16,
        Packets::OsuStopSpectating => 17,
        Packets::OsuSpectateFrames => 18,
        Packets::ChoVersionUpdate => 19,
        Packets::OsuErrorReport => 20,
        Packets::OsuCantSpectate => 21,
        Packets::ChoSpectatorCantSpectate => 22,
        Packets::ChoGetAttention => 23,
        Packets::ChoNotification => 24,
        Packets::OsuSendPrivateMessage => 25,
        Packets::ChoUpdateMatch => 26,
        Packets::ChoNewMatch => 27,
        Packets::ChoDisposeMatch => 28,
        Packets::OsuPartLobby => 29,
        Packets::OsuJoinLobby => 30,
        Packets::OsuCreateMatch => 31,
        Packets::OsuJoinMatch => 32,
        Packets::OsuPartMatch => 33,
        Packets::ChoToggleBlockNonFriendDms => 34,
        Packets::ChoMatchJoinSuccess => 36,
        Packets::ChoMatchJoinFail => 37,
        Packets::OsuMatchChangeSlot => 38,
        Packets::OsuMatchReady => 39,
        Packets::OsuMatchLock => 40,
        Packets::OsuMatchChangeSettings => 41,
        Packets::ChoFellowSpectatorJoined => 42,
        Packets::ChoFellowSpectatorLeft => 43,
        Packets::OsuMatchStart => 44,
        Packets::ChoAllPlayersLoaded => 45,
        Packets::ChoMatchStart => 46,
        Packets::OsuMatchScoreUpdate => 47,
        Packets::ChoMatchScoreUpdate => 48,
        Packets::OsuMatchComplete => 49,
        Packets::ChoMatchTransferHost => 50,
        Packets::OsuMatchChangeMods => 51,
        Packets::OsuMatchLoadComplete => 52,
        Packets::ChoMatchAllPlayersLoaded => 53,
        Packets::OsuMatchNoBeatmap => 54,
        Packets::OsuMatchNotReady => 55,
        Packets::OsuMatchFailed => 56,
        Packets::ChoMatchPlayerFailed => 57,
        Packets::ChoMatchComplete => 58,
        Packets::OsuMatchHasBeatmap => 59,
        Packets::OsuMatchSkipRequest => 60,
        Packets::ChoMatchSkip => 61,
        Packets::ChoUnauthorized => 62,
        Packets::OsuChannelJoin => 63,
        Packets::ChoChannelJoinSuccess => 64,
        Packets::ChoChannelInfo => 65,
        Packets::ChoChannelKick => 66,
        Packets::ChoChannelAutoJoin => 67,
        Packets::OsuBeatmapInfoRequest => 68,
        Packets::ChoBeatmapInfoReply => 69,
        Packets::OsuMatchTransferHost => 70,
        Packets::ChoPrivileges => 71,
        Packets::ChoFriendsList => 72,
        Packets::OsuFriendAdd => 73,
        Packets::OsuFriendRemove => 74,
        Packets::ChoProtocolVersion => 75,
        Packets::ChoMainMenuIcon => 76,
        Packets::OsuMatchChangeTeam => 77,
        Packets::OsuChannelPart => 78,
        Packets::OsuReceiveUpdates => 79,
        Packets::ChoMonitor => 80,
        Packets::ChoMatchPlayerSkipped => 81,
        Packets::OsuSetAwayMessage => 82,
        Packets::ChoUserPresence => 83,
        Packets::OsuIrcOnly => 84,
        Packets::OsuUserStatsRequest => 85,
        Packets::ChoRestart => 86,
        Packets::OsuMatchInvite => 87,
        Packets::ChoMatchInvite => 88,
        Packets::ChoChannelInfoEnd => 89,
        Packets::OsuMatchChangePassword => 90,
        Packets::ChoMatchChangePassword => 91,
        Packets::ChoSilenceEnd => 92,
        Packets::OsuTournamentMatchInfoRequest => 93,
        Packets::ChoUserSilenced => 94,
        Packets::ChoUserPresenceSingle => 95,
        Packets::ChoUserPresenceBundle => 96,
        Packets::OsuUserPresenceRequest => 97,
        Packets::OsuUserPresenceRequestAll => 98,
        Packets::OsuToggleBlockNonFriendDms => 99,
        Packets::ChoUserDmBlocked => 100,
        Packets::ChoTargetIsSilenced => 101,
        Packets::ChoVersionUpdateForced => 102,
        Packets::ChoSwitchServer => 103,
        Packets::ChoAccountRestricted => 104,
        Packets::ChoRtx => 105,
        Packets::ChoMatchAbort => 106,
        Packets::ChoSwitchTournamentServer => 107,
        Packets::OsuTournamentJoinMatchChannel => 108,
        Packets::OsuTournamentLeaveMatchChannel => 109,
    }
}

/// The packet with wire id `id`, if the catalogue has one.
pub open spec fn packet_of(id: u16) -> Option<Packets> {
    match id {
        0 => Some(Packets::OsuChangeAction),
        1 => Some(Packets::OsuSendPublicMessage),
        2 => Some(Packets::OsuLogout),
        3 => Some(Packets::OsuRequestStatusUpdate),
        4 => Some(Packets::OsuPing),
        5 => Some(Packets::ChoUserId),
        7 => Some(Packets::ChoSendMessage),
        8 => Some(Packets::ChoPong),
        9 => Some(Packets::ChoHandleIrcChangeUsername),
        10 => Some(Packets::ChoHandleIrcQuit),
        11 => Some(Packets::ChoUserStats),
        12 => Some(Packets::ChoUserLogout),
        13 => Some(Packets::ChoSpectatorJoined),
        14 => Some(Packets::ChoSpectatorLeft),
        15 => Some(Packets::ChoSpectateFrames),
        16 => Some(Packets::OsuStartSpectating),
        17 => Some(Packets::OsuStopSpectating),
        18 => Some(Packets::OsuSpectateFrames),
        19 => Some(Packets::ChoVersionUpdate),
        20 => Some(Packets::OsuErrorReport),
        21 => Some(Packets::OsuCantSpectate),
        22 => Some(Packets::ChoSpectatorCantSpectate),
        23 => Some(Packets::ChoGetAttention),
        24 => Some(Packets::ChoNotification),
        25 => Some(Packets::OsuSendPrivateMessage),
        26 => Some(Packets::ChoUpdateMatch),
        27 => Some(Packets::ChoNewMatch),
        28 => Some(Packets::ChoDisposeMatch),
        29 => Some(Packets::OsuPartLobby),
        30 => Some(Packets::OsuJoinLobby),
        31 => Some(Packets::OsuCreateMatch),
        32 => Some(Packets::OsuJoinMatch),
        33 => Some(Packets::OsuPartMatch),
        34 => Some(Packets::ChoToggleBlockNonFriendDms),
        36 => Some(Packets::ChoMatchJoinSuccess),
        37 => Some(Packets::ChoMatchJoinFail),
        38 => Some(Packets::OsuMatchChangeSlot),
        39 => Some(Packets::OsuMatchReady),
        40 => Some(Packets::OsuMatchLock),
        41 => Some(Packets::OsuMatchChangeSettings),
        42 => Some(Packets::ChoFellowSpectatorJoined),
        43 => Some(Packets::ChoFellowSpectatorLeft),
        44 => Some(Packets::OsuMatchStart),
        45 => Some(Packets::ChoAllPlayersLoaded),
        46 => Some(Packets::ChoMatchStart),
        47 => Some(Packets::OsuMatchScoreUpdate),
        48 => Some(Packets::ChoMatchScoreUpdate),
        49 => Some(Packets::OsuMatchComplete),
        50 => Some(Packets::ChoMatchTransferHost),
        51 => Some(Packets::OsuMatchChangeMods),
        52 => Some(Packets::OsuMatchLoadComplete),
        53 => Some(Packets::ChoMatchAllPlayersLoaded),
        54 => Some(Packets::OsuMatchNoBeatmap),
        55 => Some(Packets::OsuMatchNotReady),
        56 => Some(Packets::OsuMatchFailed),
        57 => Some(Packets::ChoMatchPlayerFailed),
        58 => Some(Packets::ChoMatchComplete),
        59 => Some(Packets::OsuMatchHasBeatmap),
        60 => Some(Packets::OsuMatchSkipRequest),
        61 => Some(Packets::ChoMatchSkip),
        62 => Some(Packets::ChoUnauthorized),
        63 => Some(Packets::OsuChannelJoin),
        64 => Some(Packets::ChoChannelJoinSuccess),
        65 => Some(Packets::ChoChannelInfo),
        66 => Some(Packets::ChoChannelKick),
        67 => Some(Packets::ChoChannelAutoJoin),
        68 => Some(Packets::OsuBeatmapInfoRequest),
        69 => Some(Packets::ChoBeatmapInfoReply),
        70 => Some(Packets::OsuMatchTransferHost),
        71 => Some(Packets::ChoPrivileges),
        72 => Some(Packets::ChoFriendsList),
        73 => Some(Packets::OsuFriendAdd),
        74 => Some(Packets::OsuFriendRemove),
        75 => Some(Packets::ChoProtocolVersion),
        76 => Some(Packets::ChoMainMenuIcon),
        77 => Some(Packets::OsuMatchChangeTeam),
        78 => Some(Packets::OsuChannelPart),
        79 => Some(Packets::OsuReceiveUpdates),
        80 => Some(Packets::ChoMonitor),
        81 => Some(Packets::ChoMatchPlayerSkipped),
        82 => Some(Packets::OsuSetAwayMessage),
        83 => Some(Packets::ChoUserPresence),
        84 => Some(Packets::OsuIrcOnly),
        85 => Some(Packets::OsuUserStatsRequest),
        86 => Some(Packets::ChoRestart),
        87 => Some(Packets::OsuMatchInvite),
        88 => Some(Packets::ChoMatchInvite),
        89 => Some(Packets::ChoChannelInfoEnd),
        90 => Some(Packets::OsuMatchChangePassword),
        91 => Some(Packets::ChoMatchChangePassword),
        92 => Some(Packets::ChoSilenceEnd),
        93 => Some(Packets::OsuTournamentMatchInfoRequest),
        94 => Some(Packets::ChoUserSilenced),
        95 => Some(Packets::ChoUserPresenceSingle),
        96 => Some(Packets::ChoUserPresenceBundle),
        97 => Some(Packets::OsuUserPresenceRequest),
        98 => Some(Packets::OsuUserPresenceRequestAll),
        99 => Some(Packets::OsuToggleBlockNonFriendDms),
        100 => Some(Packets::ChoUserDmBlocked),
        101 => Some(Packets::ChoTargetIsSilenced),
        102 => Some(Packets::ChoVersionUpdateForced),
        103 => Some(Packets::ChoSwitchServer),
        104 => Some(Packets::ChoAccountRestricted),
        105 => Some(Packets::ChoRtx),
        106 => Some(Packets::ChoMatchAbort),
        107 => Some(Packets::ChoSwitchTournamentServer),
        108 => Some(Packets::OsuTournamentJoinMatchChannel),
        109 => Some(Packets::OsuTournamentLeaveMatchChannel),
        _ => None,
    }
}

/// Each packet is found again from its id: no two packets share an id.
pub proof fn lemma_packet_ids_unique(p: Packets)
    ensures
        packet_of(packet_id(p)) == Some(p),
{
}

/// An id that the catalogue knows is the id of the packet it names.
pub proof fn lemma_packet_of_id(id: u16)
    ensures
        packet_of(id) is Some ==> packet_id(packet_of(id).unwrap()) == id,
{
}

impl Packets {
    /// The packet's wire id.
    pub fn id(&self) -> (r: u16)
        ensures
            r == packet_id(*self),
    {
        match self {
            Packets::OsuChangeAction => 0,
            Packets::OsuSendPublicMessage => 1,
            Packets::OsuLogout => 2,
            Packets::OsuRequestStatusUpdate => 3,
            Packets::OsuPing => 4,
            Packets::ChoUserId => 5,
            Packets::ChoSendMessage => 7,
            Packets::ChoPong => 8,
            Packets::ChoHandleIrcChangeUsername => 9,
            Packets::ChoHandleIrcQuit => 10,
            Packets::ChoUserStats => 11,
            Packets::ChoUserLogout => 12,
            Packets::ChoSpectatorJoined => 13,
            Packets::ChoSpectatorLeft => 14,
            Packets::ChoSpectateFrames => 15,
            Packets::OsuStartSpectating => 16,
            Packets::OsuStopSpectating => 17,
            Packets::OsuSpectateFrames => 18,
            Packets::ChoVersionUpdate => 19,
            Packets::OsuErrorReport => 20,
            Packets::OsuCantSpectate => 21,
            Packets::ChoSpectatorCantSpectate => 22,
            Packets::ChoGetAttention => 23,
            Packets::ChoNotification => 24,
            Packets::OsuSendPrivateMessage => 25,
            Packets::ChoUpdateMatch => 26,
            Packets::ChoNewMatch => 27,
            Packets::ChoDisposeMatch => 28,
            Packets::OsuPartLobby => 29,
            Packets::OsuJoinLobby => 30,
            Packets::OsuCreateMatch => 31,
            Packets::OsuJoinMatch => 32,
            Packets::OsuPartMatch => 33,
            Packets::ChoToggleBlockNonFriendDms => 34,
            Packets::ChoMatchJoinSuccess => 36,
            Packets::ChoMatchJoinFail => 37,
            Packets::OsuMatchChangeSlot => 38,
            Packets::OsuMatchReady => 39,
            Packets::OsuMatchLock => 40,
            Packets::OsuMatchChangeSettings => 41,
            Packets::ChoFellowSpectatorJoined => 42,
            Packets::ChoFellowSpectatorLeft => 43,
            Packets::OsuMatchStart => 44,
            Packets::ChoAllPlayersLoaded => 45,
            Packets::ChoMatchStart => 46,
            Packets::OsuMatchScoreUpdate => 47,
            Packets::ChoMatchScoreUpdate => 48,
            Packets::OsuMatchComplete => 49,
            Packets::ChoMatchTransferHost => 50,
            Packets::OsuMatchChangeMods => 51,
            Packets::OsuMatchLoadComplete => 52,
            Packets::ChoMatchAllPlayersLoaded => 53,
            Packets::OsuMatchNoBeatmap => 54,
            Packets::OsuMatchNotReady => 55,
            Packets::OsuMatchFailed => 56,
            Packets::ChoMatchPlayerFailed => 57,
            Packets::ChoMatchComplete => 58,
            Packets::OsuMatchHasBeatmap => 59,
            Packets::OsuMatchSkipRequest => 60,
            Packets::ChoMatchSkip => 61,
            Packets::ChoUnauthorized => 62,
            Packets::OsuChannelJoin => 63,
            Packets::ChoChannelJoinSuccess => 64,
            Packets::ChoChannelInfo => 65,
            Packets::ChoChannelKick => 66,
            Packets::ChoChannelAutoJoin => 67,
            Packets::OsuBeatmapInfoRequest => 68,
            Packets::ChoBeatmapInfoReply => 69,
            Packets::OsuMatchTransferHost => 70,
            Packets::ChoPrivileges => 71,
            Packets::ChoFriendsList => 72,
            Packets::OsuFriendAdd => 73,
            Packets::OsuFriendRemove => 74,
            Packets::ChoProtocolVersion => 75,
            Packets::ChoMainMenuIcon => 76,
            Packets::OsuMatchChangeTeam => 77,
            Packets::OsuChannelPart => 78,
            Packets::OsuReceiveUpdates => 79,
            Packets::ChoMonitor => 80,
            Packets::ChoMatchPlayerSkipped => 81,
            Packets::OsuSetAwayMessage => 82,
            Packets::ChoUserPresence => 83,
            Packets::OsuIrcOnly => 84,
            Packets::OsuUserStatsRequest => 85,
            Packets::ChoRestart => 86,
            Packets::OsuMatchInvite => 87,
            Packets::ChoMatchInvite => 88,
            Packets::ChoChannelInfoEnd => 89,
            Packets::OsuMatchChangePassword => 90,
            Packets::ChoMatchChangePassword => 91,
            Packets::ChoSilenceEnd => 92,
            Packets::OsuTournamentMatchInfoRequest => 93,
            Packets::ChoUserSilenced => 94,
            Packets::ChoUserPresenceSingle => 95,
            Packets::ChoUserPresenceBundle => 96,
            Packets::OsuUserPresenceRequest => 97,
            Packets::OsuUserPresenceRequestAll => 98,
            Packets::OsuToggleBlockNonFriendDms => 99,
            Packets::ChoUserDmBlocked => 100,
            Packets::ChoTargetIsSilenced => 101,
            Packets::ChoVersionUpdateForced => 102,
            Packets::ChoSwitchServer => 103,
            Packets::ChoAccountRestricted => 104,
            Packets::ChoRtx => 105,
            Packets::ChoMatchAbort => 106,
            Packets::ChoSwitchTournamentServer => 107,
            Packets::OsuTournamentJoinMatchChannel => 108,
            Packets::OsuTournamentLeaveMatchChannel => 109,
        }
    }

    /// The packet with wire id `id`, or `None` for an id outside the
    /// catalogue.
    pub fn from_id(id: u16) -> (r: Option<Packets>)
        ensures
            r == packet_of(id),
    {
        match id {
            0 => Some(Packets::OsuChangeAction),
            1 => Some(Packets::OsuSendPublicMessage),
            2 => Some(Packets::OsuLogout),
            3 => Some(Packets::OsuRequestStatusUpdate),
            4 => Some(Packets::OsuPing),
            5 => Some(Packets::ChoUserId),
            7 => Some(Packets::ChoSendMessage),
            8 => Some(Packets::ChoPong),
            9 => Some(Packets::ChoHandleIrcChangeUsername),
            10 => Some(Packets::ChoHandleIrcQuit),
            11 => Some(Packets::ChoUserStats),
            12 => Some(Packets::ChoUserLogout),
            13 => Some(Packets::ChoSpectatorJoined),
            14 => Some(Packets::ChoSpectatorLeft),
            15 => Some(Packets::ChoSpectateFrames),
            16 => Some(Packets::OsuStartSpectating),
            17 => Some(Packets::OsuStopSpectating),
            18 => Some(Packets::OsuSpectateFrames),
            19 => Some(Packets::ChoVersionUpdate),
            20 => Some(Packets::OsuErrorReport),
            21 => Some(Packets::OsuCantSpectate),
            22 => Some(Packets::ChoSpectatorCantSpectate),
            23 => Some(Packets::ChoGetAttention),
            24 => Some(Packets::ChoNotification),
            25 => Some(Packets::OsuSendPrivateMessage),
            26 => Some(Packets::ChoUpdateMatch),
            27 => Some(Packets::ChoNewMatch),
            28 => Some(Packets::ChoDisposeMatch),
            29 => Some(Packets::OsuPartLobby),
            30 => Some(Packets::OsuJoinLobby),
            31 => Some(Packets::OsuCreateMatch),
            32 => Some(Packets::OsuJoinMatch),
            33 => Some(Packets::OsuPartMatch),
            34 => Some(Packets::ChoToggleBlockNonFriendDms),
            36 => Some(Packets::ChoMatchJoinSuccess),
            37 => Some(Packets::ChoMatchJoinFail),
            38 => Some(Packets::OsuMatchChangeSlot),
            39 => Some(Packets::OsuMatchReady),
            40 => Some(Packets::OsuMatchLock),
            41 => Some(Packets::OsuMatchChangeSettings),
            42 => Some(Packets::ChoFellowSpectatorJoined),
            43 => Some(Packets::ChoFellowSpectatorLeft),
            44 => Some(Packets::OsuMatchStart),
            45 => Some(Packets::ChoAllPlayersLoaded),
            46 => Some(Packets::ChoMatchStart),
            47 => Some(Packets::OsuMatchScoreUpdate),
            48 => Some(Packets::ChoMatchScoreUpdate),
            49 => Some(Packets::OsuMatchComplete),
            50 => Some(Packets::ChoMatchTransferHost),
            51 => Some(Packets::OsuMatchChangeMods),
            52 => Some(Packets::OsuMatchLoadComplete),
            53 => Some(Packets::ChoMatchAllPlayersLoaded),
            54 => Some(Packets::OsuMatchNoBeatmap),
            55 => Some(Packets::OsuMatchNotReady),
            56 => Some(Packets::OsuMatchFailed),
            57 => Some(Packets::ChoMatchPlayerFailed),
            58 => Some(Packets::ChoMatchComplete),
            59 => Some(Packets::OsuMatchHasBeatmap),
            60 => Some(Packets::OsuMatchSkipRequest),
            61 => Some(Packets::ChoMatchSkip),
            62 => Some(Packets::ChoUnauthorized),
            63 => Some(Packets::OsuChannelJoin),
            64 => Some(Packets::ChoChannelJoinSuccess),
            65 => Some(Packets::ChoChannelInfo),
            66 => Some(Packets::ChoChannelKick),
            67 => Some(Packets::ChoChannelAutoJoin),
            68 => Some(Packets::OsuBeatmapInfoRequest),
            69 => Some(Packets::ChoBeatmapInfoReply),
            70 => Some(Packets::OsuMatchTransferHost),
            71 => Some(Packets::ChoPrivileges),
            72 => Some(Packets::ChoFriendsList),
            73 => Some(Packets::OsuFriendAdd),
            74 => Some(Packets::OsuFriendRemove),
            75 => Some(Packets::ChoProtocolVersion),
            76 => Some(Packets::ChoMainMenuIcon),
            77 => Some(Packets::OsuMatchChangeTeam),
            78 => Some(Packets::OsuChannelPart),
            79 => Some(Packets::OsuReceiveUpdates),
            80 => Some(Packets::ChoMonitor),
            81 => Some(Packets::ChoMatchPlayerSkipped),
            82 => Some(Packets::OsuSetAwayMessage),
            83 => Some(Packets::ChoUserPresence),
            84 => Some(Packets::OsuIrcOnly),
            85 => Some(Packets::OsuUserStatsRequest),
            86 => Some(Packets::ChoRestart),
            87 => Some(Packets::OsuMatchInvite),
            88 => Some(Packets::ChoMatchInvite),
            89 => Some(Packets::ChoChannelInfoEnd),
            90 => Some(Packets::OsuMatchChangePassword),
            91 => Some(Packets::ChoMatchChangePassword),
            92 => Some(Packets::ChoSilenceEnd),
            93 => Some(Packets::OsuTournamentMatchInfoRequest),
            94 => Some(Packets::ChoUserSilenced),
            95 => Some(Packets::ChoUserPresenceSingle),
            96 => Some(Packets::ChoUserPresenceBundle),
            97 => Some(Packets::OsuUserPresenceRequest),
            98 => Some(Packets::OsuUserPresenceRequestAll),
            99 => Some(Packets::OsuToggleBlockNonFriendDms),
            100 => Some(Packets::ChoUserDmBlocked),
            101 => Some(Packets::ChoTargetIsSilenced),
            102 => Some(Packets::ChoVersionUpdateForced),
            103 => Some(Packets::ChoSwitchServer),
            104 => Some(Packets::ChoAccountRestricted),
            105 => Some(Packets::ChoRtx),
            106 => Some(Packets::ChoMatchAbort),
            107 => Some(Packets::ChoSwitchTournamentServer),
            108 => Some(Packets::OsuTournamentJoinMatchChannel),
            109 => Some(Packets::OsuTournamentLeaveMatchChannel),
            _ => None,
        }
    }
}

/// A connected player, as far as packet handling needs one.
pub struct Player {
    pub id: i32,
    pub name: String,
    /// A restricted player only reaches the handlers allowed to restricted
    /// accounts.
    pub restricted: bool,
}

/// A handler's failure, with the packet and the data that caused it.
pub struct PacketError {
    pub packet_id: u8,
    pub data: Vec<u8>,
    pub message: String,
}

/// A packet that can be handled for a player and written out.
pub trait BasePacket {
    /// The bytes `to_bytes` gives.
    spec fn wire(&self) -> Seq<u8>;

    fn handle(&self, p: Player) -> Result<(), PacketError>;

    fn to_bytes(&self) -> (r: Vec<u8>)
        ensures
            r@ == self.wire(),
    ;
}

/// A packet sent by the client.
pub trait ClientPacket {}

/// The player changed what they are doing: its kind, a description, the map
/// and mods in play, and the game mode.
pub struct OsuChangeAction {
    pub id: u16,
    pub action: u8,
    pub info_text: String,
    pub map_md5: String,
    pub mods: u32,
    pub mode: u8,
}

/// What `OsuChangeAction::new` decodes from the front of `s`: the action,
/// the description, the map hash, the mods and the mode.
pub open spec fn change_action_parse(s: Seq<u8>) -> Result<((u8, Seq<char>, Seq<char>, u32, u8), nat), BanchoError> {
    if s.len() < 1 {
        Err(BanchoError::UnexpectedEof)
    } else {
        match string_parse(s.skip(1)) {
            Err(e) => Err(e),
            Ok((info_text, a)) => match string_parse(s.skip(1 + a as int)) {
                Err(e) => Err(e),
                Ok((map_md5, b)) => {
                    let k = (1 + a + b) as int;
                    if s.len() < k + 5 {
                        Err(BanchoError::UnexpectedEof)
                    } else {
                        Ok(((s[0], info_text, map_md5, le_u32(s.skip(k)) as u32, s[k + 4]), (k + 5) as nat))
                    }
                },
            },
        }
    }
}

impl ClientPacket for OsuChangeAction {}

impl OsuChangeAction {
    pub fn new(reader: &mut PacketReader) -> (r: Result<Self, BanchoError>)
        ensures
            match change_action_parse(old(reader)@) {
                Ok((v, n)) => r is Ok && (r.unwrap().action, r.unwrap().info_text@, r.unwrap().map_md5@, r.unwrap().mods, r.unwrap().mode) == v
                    && r.unwrap().id == packet_id(Packets::OsuChangeAction) && final(reader)@ == old(reader)@.skip(n as int),
                Err(e) => r is Err && r->Err_0 == e,
            },
    {
        let ghost s = reader@;
        let action = reader.read_u8()?;
        let info_text = reader.read_string()?;
        let ghost a = string_parse(s.skip(1)).unwrap().1 as int;
        assert(reader@ =~= s.skip(1 + a));
        let map_md5 = reader.read_string()?;
        let ghost k = 1 + a + string_parse(s.skip(1 + a)).unwrap().1;
        assert(reader@ =~= s.skip(k));
        let mods = reader.read_u32()?;
        assert(reader@ =~= s.skip(k + 4));
        let mode = reader.read_u8()?;
        assert(reader@ =~= s.skip(k + 5));
        Ok(Self { id: Packets::OsuChangeAction.id(), action, info_text, map_md5, mods, mode })
    }
}

impl BasePacket for OsuChangeAction {
    open spec fn wire(&self) -> Seq<u8> {
        seq![self.action] + string_wire(encode_utf8(self.info_text@)) + string_wire(encode_utf8(self.map_md5@))
            + bytes32(self.mods as int) + seq![self.mode]
    }

    fn handle(&self, p: Player) -> Result<(), PacketError> {
        Ok(())
    }

    fn to_bytes(&self) -> (r: Vec<u8>) {
        let mut r: Vec<u8> = Vec::new();
        r.push(self.action);
        let mut part = write_string(self.info_text.as_str());
        r.append(&mut part);
        let mut part = write_string(self.map_md5.as_str());
        r.append(&mut part);
        let mods = write_u32(self.mods);
        let mut i: usize = 0;
        while i < 4
            invariant
                i <= 4,
                r@ == seq![self.action] + string_wire(encode_utf8(self.info_text@)) + string_wire(encode_utf8(self.map_md5@))
                    + mods@.take(i as int),
            decreases 4 - i,
        {
            r.push(mods[i]);
            i = i + 1;
            assert(r@ =~= seq![self.action] + string_wire(encode_utf8(self.info_text@)) + string_wire(
                encode_utf8(self.map_md5@),
            ) + mods@.take(i as int));
        }
        r.push(self.mode);
        assert(mods@.take(4) =~= mods@);
        assert(r@ =~= self.wire());
        r
    }
}

pub struct OsuSendPublicMessage {
    pub id: u16,
    pub message: String,
}

impl ClientPacket for OsuSendPublicMessage {}

impl OsuSendPublicMessage {
    pub fn new(reader: &mut PacketReader) -> (r: Result<Self, BanchoError>)
        ensures
            match string_parse(old(reader)@) {
                Ok((v, n)) => r is Ok && r.unwrap().message@ == v && r.unwrap().id == packet_id(Packets::OsuSendPublicMessage)
                    && final(reader)@ == old(reader)@.skip(n as int),
                Err(e) => r is Err && r->Err_0 == e,
            },
    {
        let message = reader.read_string()?;
        Ok(Self { id: Packets::OsuSendPublicMessage.id(), message })
    }
}

pub struct OsuLogout {
    pub id: u16,
}

impl ClientPacket for OsuLogout {}

impl OsuLogout {
    pub fn new() -> (r: Self)
        ensures
            r.id == packet_id(Packets::OsuLogout),
    {
        Self { id: Packets::OsuLogout.id() }
    }
}

pub struct OsuRequestStatusUpdate {
    pub id: u16,
}

impl ClientPacket for OsuRequestStatusUpdate {}

impl OsuRequestStatusUpdate {
    pub fn new() -> (r: Self)
        ensures
            r.id == packet_id(Packets::OsuRequestStatusUpdate),
    {
        Self { id: Packets::OsuRequestStatusUpdate.id() }
    }
}

pub struct OsuPing {
    pub id: u16,
}

impl ClientPacket for OsuPing {}

impl OsuPing {
    pub fn new() -> (r: Self)
        ensures
            r.id == packet_id(Packets::OsuPing),
    {
        Self { id: Packets::OsuPing.id() }
    }
}

pub struct OsuStartSpectating {
    pub id: u16,
    pub target_user_id: i32,
}

impl ClientPacket for OsuStartSpectating {}

impl OsuStartSpectating {
    pub fn new(reader: &mut PacketReader) -> (r: Result<Self, BanchoError>)
        ensures
            old(reader)@.len() >= 4 ==> r is Ok && r.unwrap().target_user_id as int == signed(le_u32(old(reader)@), 0x1_0000_0000)
                && r.unwrap().id == packet_id(Packets::OsuStartSpectating) && final(reader)@ == old(reader)@.skip(4),
            old(reader)@.len() < 4 ==> r is Err && r->Err_0 == BanchoError::UnexpectedEof,
    {
        let target_user_id = reader.read_i32()?;
        Ok(Self { id: Packets::OsuStartSpectating.id(), target_user_id })
    }
}

pub struct OsuStopSpectating {
    pub id: u16,
}

impl ClientPacket for OsuStopSpectating {}

impl OsuStopSpectating {
    pub fn new() -> (r: Self)
        ensures
            r.id == packet_id(Packets::OsuStopSpectating),
    {
        Self { id: Packets::OsuStopSpectating.id() }
    }
}

/// Its body is not decoded: the handler is given the bytes as they came.
pub struct OsuSpectateFrames {
    pub id: u16,
}

impl ClientPacket for OsuSpectateFrames {}

impl OsuSpectateFrames {
    pub fn new(reader: &mut PacketReader) -> (r: Self)
        ensures
            r.id == packet_id(Packets::OsuSpectateFrames),
            final(reader)@ == old(reader)@,
    {
        Self { id: Packets::OsuSpectateFrames.id() }
    }
}

/// Its body is not decoded: the handler is given the bytes as they came.
pub struct OsuErrorReport {
    pub id: u16,
}

impl ClientPacket for OsuErrorReport {}

impl OsuErrorReport {
    pub fn new(reader: &mut PacketReader) -> (r: Self)
        ensures
            r.id == packet_id(Packets::OsuErrorReport),
            final(reader)@ == old(reader)@,
    {
        Self { id: Packets::OsuErrorReport.id() }
    }
}

/// Its body is not decoded: the handler is given the bytes as they came.
pub struct OsuCantSpectate {
    pub id: u16,
}

impl ClientPacket for OsuCantSpectate {}

impl OsuCantSpectate {
    pub fn new(reader: &mut PacketReader) -> (r: Self)
        ensures
            r.id == packet_id(Packets::OsuCantSpectate),
            final(reader)@ == old(reader)@,
    {
        Self { id: Packets::OsuCantSpectate.id() }
    }
}

pub struct OsuSendPrivateMessage {
    pub id: u16,
    pub message: Message,
}

impl ClientPacket for OsuSendPrivateMessage {}

impl OsuSendPrivateMessage {
    pub fn new(reader: &mut PacketReader) -> (r: Result<Self, BanchoError>)
        ensures
            match message_parse(old(reader)@) {
                Ok((v, n)) => r is Ok && r.unwrap().message@ == v && r.unwrap().id == packet_id(Packets::OsuSendPrivateMessage)
                    && final(reader)@ == old(reader)@.skip(n as int),
                Err(e) => r is Err && r->Err_0 == e,
            },
    {
        let message = reader.read_message()?;
        Ok(Self { id: Packets::OsuSendPrivateMessage.id(), message })
    }
}

pub struct OsuPartLobby {
    pub id: u16,
}

impl ClientPacket for OsuPartLobby {}

impl OsuPartLobby {
    pub fn new() -> (r: Self)
        ensures
            r.id == packet_id(Packets::OsuPartLobby),
    {
        Self { id: Packets::OsuPartLobby.id() }
    }
}

pub struct OsuJoinLobby {
    pub id: u16,
}

impl ClientPacket for OsuJoinLobby {}

impl OsuJoinLobby {
    pub fn new() -> (r: Self)
        ensures
            r.id == packet_id(Packets::OsuJoinLobby),
    {
        Self { id: Packets::OsuJoinLobby.id() }
    }
}

/// Its body is not decoded: the handler is given the bytes as they came.
pub struct OsuCreateMatch {
    pub id: u16,
}

impl ClientPacket for OsuCreateMatch {}

impl OsuCreateMatch {
    pub fn new(reader: &mut PacketReader) -> (r: Self)
        ensures
            r.id == packet_id(Packets::OsuCreateMatch),
            final(reader)@ == old(reader)@,
    {
        Self { id: Packets::OsuCreateMatch.id() }
    }
}

/// Its body is not decoded: the handler is given the bytes as they came.
pub struct OsuJoinMatch {
    pub id: u16,
}

impl ClientPacket for OsuJoinMatch {}

impl OsuJoinMatch {
    pub fn new(reader: &mut PacketReader) -> (r: Self)
        ensures
            r.id == packet_id(Packets::OsuJoinMatch),
            final(reader)@ == old(reader)@,
    {
        Self { id: Packets::OsuJoinMatch.id() }
    }
}

pub struct OsuPartMatch {
    pub id: u16,
}

impl ClientPacket for OsuPartMatch {}

impl OsuPartMatch {
    pub fn new() -> (r: Self)
        ensures
            r.id == packet_id(Packets::OsuPartMatch),
    {
        Self { id: Packets::OsuPartMatch.id() }
    }
}

/// Its body is not decoded: the handler is given the bytes as they came.
pub struct OsuMatchChangeSlot {
    pub id: u16,
}

impl ClientPacket for OsuMatchChangeSlot {}

impl OsuMatchChangeSlot {
    pub fn new(reader: &mut PacketReader) -> (r: Self)
        ensures
            r.id == packet_id(Packets::OsuMatchChangeSlot),
            final(reader)@ == old(reader)@,
    {
        Self { id: Packets::OsuMatchChangeSlot.id() }
    }
}

pub struct OsuMatchReady {
    pub id: u16,
}

impl ClientPacket for OsuMatchReady {}

impl OsuMatchReady {
    pub fn new() -> (r: Self)
        ensures
            r.id == packet_id(Packets::OsuMatchReady),
    {
        Self { id: Packets::OsuMatchReady.id() }
    }
}

/// Its body is not decoded: the handler is given the bytes as they came.
pub struct OsuMatchLock {
    pub id: u16,
}

impl ClientPacket for OsuMatchLock {}

impl OsuMatchLock {
    pub fn new(reader: &mut PacketReader) -> (r: Self)
        ensures
            r.id == packet_id(Packets::OsuMatchLock),
            final(reader)@ == old(reader)@,
    {
        Self { id: Packets::OsuMatchLock.id() }
    }
}

/// Its body is not decoded: the handler is given the bytes as they came.
pub struct OsuMatchChangeSettings {
    pub id: u16,
}

impl ClientPacket for OsuMatchChangeSettings {}

impl OsuMatchChangeSettings {
    pub fn new(reader: &mut PacketReader) -> (r: Self)
        ensures
            r.id == packet_id(Packets::OsuMatchChangeSettings),
            final(reader)@ == old(reader)@,
    {
        Self { id: Packets::OsuMatchChangeSettings.id() }
    }
}

pub struct OsuMatchStart {
    pub id: u16,
}

impl ClientPacket for OsuMatchStart {}

impl OsuMatchStart {
    pub fn new() -> (r: Self)
        ensures
            r.id == packet_id(Packets::OsuMatchStart),
    {
        Self { id: Packets::OsuMatchStart.id() }
    }
}

/// Its body is not decoded: the handler is given the bytes as they came.
pub struct OsuMatchScoreUpdate {
    pub id: u16,
}

impl ClientPacket for OsuMatchScoreUpdate {}

impl OsuMatchScoreUpdate {
    pub fn new(reader: &mut PacketReader) -> (r: Self)
        ensures
            r.id == packet_id(Packets::OsuMatchScoreUpdate),
            final(reader)@ == old(reader)@,
    {
        Self { id: Packets::OsuMatchScoreUpdate.id() }
    }
}

pub struct OsuMatchComplete {
    pub id: u16,
}

impl ClientPacket for OsuMatchComplete {}

impl OsuMatchComplete {
    pub fn new() -> (r: Self)
        ensures
            r.id == packet_id(Packets::OsuMatchComplete),
    {
        Self { id: Packets::OsuMatchComplete.id() }
    }
}

/// Its body is not decoded: the handler is given the bytes as they came.
pub struct OsuMatchChangeMods {
    pub id: u16,
}

impl ClientPacket for OsuMatchChangeMods {}

impl OsuMatchChangeMods {
    pub fn new(reader: &mut PacketReader) -> (r: Self)
        ensures
            r.id == packet_id(Packets::OsuMatchChangeMods),
            final(reader)@ == old(reader)@,
    {
        Self { id: Packets::OsuMatchChangeMods.id() }
    }
}

pub struct OsuMatchLoadComplete {
    pub id: u16,
}

impl ClientPacket for OsuMatchLoadComplete {}

impl OsuMatchLoadComplete {
    pub fn new() -> (r: Self)
        ensures
            r.id == packet_id(Packets::OsuMatchLoadComplete),
    {
        Self { id: Packets::OsuMatchLoadComplete.id() }
    }
}

pub struct OsuMatchNoBeatmap {
    pub id: u16,
}

impl ClientPacket for OsuMatchNoBeatmap {}

impl OsuMatchNoBeatmap {
    pub fn new() -> (r: Self)
        ensures
            r.id == packet_id(Packets::OsuMatchNoBeatmap),
    {
        Self { id: Packets::OsuMatchNoBeatmap.id() }
    }
}

pub struct OsuMatchNotReady {
    pub id: u16,
}

impl ClientPacket for OsuMatchNotReady {}

impl OsuMatchNotReady {
    pub fn new() -> (r: Self)
        ensures
            r.id == packet_id(Packets::OsuMatchNotReady),
    {
        Self { id: Packets::OsuMatchNotReady.id() }
    }
}

pub struct OsuMatchFailed {
    pub id: u16,
}

impl ClientPacket for OsuMatchFailed {}

impl OsuMatchFailed {
    pub fn new() -> (r: Self)
        ensures
            r.id == packet_id(Packets::OsuMatchFailed),
    {
        Self { id: Packets::OsuMatchFailed.id() }
    }
}

/// Its body is not decoded: the handler is given the bytes as they came.
pub struct OsuMatchHasBeatmap {
    pub id: u16,
}

impl ClientPacket for OsuMatchHasBeatmap {}

impl OsuMatchHasBeatmap {
    pub fn new(reader: &mut PacketReader) -> (r: Self)
        ensures
            r.id == packet_id(Packets::OsuMatchHasBeatmap),
            final(reader)@ == old(reader)@,
    {
        Self { id: Packets::OsuMatchHasBeatmap.id() }
    }
}

pub struct OsuMatchSkipRequest {
    pub id: u16,
}

impl ClientPacket for OsuMatchSkipRequest {}

impl OsuMatchSkipRequest {
    pub fn new() -> (r: Self)
        ensures
            r.id == packet_id(Packets::OsuMatchSkipRequest),
    {
        Self { id: Packets::OsuMatchSkipRequest.id() }
    }
}

pub struct OsuChannelJoin {
    pub id: u16,
    pub channel_name: String,
}

impl ClientPacket for OsuChannelJoin {}

impl OsuChannelJoin {
    pub fn new(reader: &mut PacketReader) -> (r: Result<Self, BanchoError>)
        ensures
            match string_parse(old(reader)@) {
                Ok((v, n)) => r is Ok && r.unwrap().channel_name@ == v && r.unwrap().id == packet_id(Packets::OsuChannelJoin)
                    && final(reader)@ == old(reader)@.skip(n as int),
                Err(e) => r is Err && r->Err_0 == e,
            },
    {
        let channel_name = reader.read_string()?;
        Ok(Self { id: Packets::OsuChannelJoin.id(), channel_name })
    }
}

/// Its body is not decoded: the handler is given the bytes as they came.
pub struct OsuBeatmapInfoRequest {
    pub id: u16,
}

impl ClientPacket for OsuBeatmapInfoRequest {}

impl OsuBeatmapInfoRequest {
    pub fn new(reader: &mut PacketReader) -> (r: Self)
        ensures
            r.id == packet_id(Packets::OsuBeatmapInfoRequest),
            final(reader)@ == old(reader)@,
    {
        Self { id: Packets::OsuBeatmapInfoRequest.id() }
    }
}

/// Its body is not decoded: the handler is given the bytes as they came.
pub struct OsuMatchTransferHost {
    pub id: u16,
}

impl ClientPacket for OsuMatchTransferHost {}

impl OsuMatchTransferHost {
    pub fn new(reader: &mut PacketReader) -> (r: Self)
        ensures
            r.id == packet_id(Packets::OsuMatchTransferHost),
            final(reader)@ == old(reader)@,
    {
        Self { id: Packets::OsuMatchTransferHost.id() }
    }
}

pub struct OsuFriendAdd {
    pub id: u16,
    pub user_id: i32,
}

impl ClientPacket for OsuFriendAdd {}

impl OsuFriendAdd {
    pub fn new(reader: &mut PacketReader) -> (r: Result<Self, BanchoError>)
        ensures
            old(reader)@.len() >= 4 ==> r is Ok && r.unwrap().user_id as int == signed(le_u32(old(reader)@), 0x1_0000_0000)
                && r.unwrap().id == packet_id(Packets::OsuFriendAdd) && final(reader)@ == old(reader)@.skip(4),
            old(reader)@.len() < 4 ==> r is Err && r->Err_0 == BanchoError::UnexpectedEof,
    {
        let user_id = reader.read_i32()?;
        Ok(Self { id: Packets::OsuFriendAdd.id(), user_id })
    }
}

pub struct OsuFriendRemove {
    pub id: u16,
    pub user_id: i32,
}

impl ClientPacket for OsuFriendRemove {}

impl OsuFriendRemove {
    pub fn new(reader: &mut PacketReader) -> (r: Result<Self, BanchoError>)
        ensures
            old(reader)@.len() >= 4 ==> r is Ok && r.unwrap().user_id as int == signed(le_u32(old(reader)@), 0x1_0000_0000)
                && r.unwrap().id == packet_id(Packets::OsuFriendRemove) && final(reader)@ == old(reader)@.skip(4),
            old(reader)@.len() < 4 ==> r is Err && r->Err_0 == BanchoError::UnexpectedEof,
    {
        let user_id = reader.read_i32()?;
        Ok(Self { id: Packets::OsuFriendRemove.id(), user_id })
    }
}

/// Its body is not decoded: the handler is given the bytes as they came.
pub struct OsuMatchChangeTeam {
    pub id: u16,
}

impl ClientPacket for OsuMatchChangeTeam {}

impl OsuMatchChangeTeam {
    pub fn new(reader: &mut PacketReader) -> (r: Self)
        ensures
            r.id == packet_id(Packets::OsuMatchChangeTeam),
            final(reader)@ == old(reader)@,
    {
        Self { id: Packets::OsuMatchChangeTeam.id() }
    }
}

pub struct OsuChannelPart {
    pub id: u16,
    pub channel_name: String,
}

impl ClientPacket for OsuChannelPart {}

impl OsuChannelPart {
    pub fn new(reader: &mut PacketReader) -> (r: Result<Self, BanchoError>)
        ensures
            match string_parse(old(reader)@) {
                Ok((v, n)) => r is Ok && r.unwrap().channel_name@ == v && r.unwrap().id == packet_id(Packets::OsuChannelPart)
                    && final(reader)@ == old(reader)@.skip(n as int),
                Err(e) => r is Err && r->Err_0 == e,
            },
    {
        let channel_name = reader.read_string()?;
        Ok(Self { id: Packets::OsuChannelPart.id(), channel_name })
    }
}

pub struct OsuReceiveUpdates {
    pub id: u16,
    pub value: i32,
}

impl ClientPacket for OsuReceiveUpdates {}

impl OsuReceiveUpdates {
    pub fn new(reader: &mut PacketReader) -> (r: Result<Self, BanchoError>)
        ensures
            old(reader)@.len() >= 4 ==> r is Ok && r.unwrap().value as int == signed(le_u32(old(reader)@), 0x1_0000_0000)
                && r.unwrap().id == packet_id(Packets::OsuReceiveUpdates) && final(reader)@ == old(reader)@.skip(4),
            old(reader)@.len() < 4 ==> r is Err && r->Err_0 == BanchoError::UnexpectedEof,
    {
        let value = reader.read_i32()?;
        Ok(Self { id: Packets::OsuReceiveUpdates.id(), value })
    }
}

pub struct OsuSetAwayMessage {
    pub id: u16,
    pub message: Message,
}

impl ClientPacket for OsuSetAwayMessage {}

impl OsuSetAwayMessage {
    pub fn new(reader: &mut PacketReader) -> (r: Result<Self, BanchoError>)
        ensures
            match message_parse(old(reader)@) {
                Ok((v, n)) => r is Ok && r.unwrap().message@ == v && r.unwrap().id == packet_id(Packets::OsuSetAwayMessage)
                    && final(reader)@ == old(reader)@.skip(n as int),
                Err(e) => r is Err && r->Err_0 == e,
            },
    {
        let message = reader.read_message()?;
        Ok(Self { id: Packets::OsuSetAwayMessage.id(), message })
    }
}

/// Its body is not decoded: the handler is given the bytes as they came.
pub struct OsuIrcOnly {
    pub id: u16,
}

impl ClientPacket for OsuIrcOnly {}

impl OsuIrcOnly {
    pub fn new(reader: &mut PacketReader) -> (r: Self)
        ensures
            r.id == packet_id(Packets::OsuIrcOnly),
            final(reader)@ == old(reader)@,
    {
        Self { id: Packets::OsuIrcOnly.id() }
    }
}

pub struct OsuUserStatsRequest {
    pub id: u16,
    /// Read behind a 16-bit count.
    pub user_ids: Vec<i32>,
}

impl ClientPacket for OsuUserStatsRequest {}

impl OsuUserStatsRequest {
    pub fn new(reader: &mut PacketReader) -> (r: Result<Self, BanchoError>)
        ensures
            match i32_list_parse(old(reader)@, 2) {
                Ok((v, n)) => r is Ok && r.unwrap().user_ids@ == v && r.unwrap().id == packet_id(Packets::OsuUserStatsRequest)
                    && final(reader)@ == old(reader)@.skip(n as int),
                Err(e) => r is Err && r->Err_0 == e,
            },
    {
        let user_ids = reader.read_i32_list_i16l()?;
        Ok(Self { id: Packets::OsuUserStatsRequest.id(), user_ids })
    }
}

/// Its body is not decoded: the handler is given the bytes as they came.
pub struct OsuMatchInvite {
    pub id: u16,
}

impl ClientPacket for OsuMatchInvite {}

impl OsuMatchInvite {
    pub fn new(reader: &mut PacketReader) -> (r: Self)
        ensures
            r.id == packet_id(Packets::OsuMatchInvite),
            final(reader)@ == old(reader)@,
    {
        Self { id: Packets::OsuMatchInvite.id() }
    }
}

/// Its body is not decoded: the handler is given the bytes as they came.
pub struct OsuMatchChangePassword {
    pub id: u16,
}

impl ClientPacket for OsuMatchChangePassword {}

impl OsuMatchChangePassword {
    pub fn new(reader: &mut PacketReader) -> (r: Self)
        ensures
            r.id == packet_id(Packets::OsuMatchChangePassword),
            final(reader)@ == old(reader)@,
    {
        Self { id: Packets::OsuMatchChangePassword.id() }
    }
}

/// Its body is not decoded: the handler is given the bytes as they came.
pub struct OsuTournamentMatchInfoRequest {
    pub id: u16,
}

impl ClientPacket for OsuTournamentMatchInfoRequest {}

impl OsuTournamentMatchInfoRequest {
    pub fn new(reader: &mut PacketReader) -> (r: Self)
        ensures
            r.id == packet_id(Packets::OsuTournamentMatchInfoRequest),
            final(reader)@ == old(reader)@,
    {
        Self { id: Packets::OsuTournamentMatchInfoRequest.id() }
    }
}

pub struct OsuUserPresenceRequest {
    pub id: u16,
    /// Read behind a 16-bit count.
    pub user_ids: Vec<i32>,
}

impl ClientPacket for OsuUserPresenceRequest {}

impl OsuUserPresenceRequest {
    pub fn new(reader: &mut PacketReader) -> (r: Result<Self, BanchoError>)
        ensures
            match i32_list_parse(old(reader)@, 2) {
                Ok((v, n)) => r is Ok && r.unwrap().user_ids@ == v && r.unwrap().id == packet_id(Packets::OsuUserPresenceRequest)
                    && final(reader)@ == old(reader)@.skip(n as int),
                Err(e) => r is Err && r->Err_0 == e,
            },
    {
        let user_ids = reader.read_i32_list_i16l()?;
        Ok(Self { id: Packets::OsuUserPresenceRequest.id(), user_ids })
    }
}

pub struct OsuUserPresenceRequestAll {
    pub id: u16,
    pub ingame_time: i32,
}

impl ClientPacket for OsuUserPresenceRequestAll {}

impl OsuUserPresenceRequestAll {
    pub fn new(reader: &mut PacketReader) -> (r: Result<Self, BanchoError>)
        ensures
            old(reader)@.len() >= 4 ==> r is Ok && r.unwrap().ingame_time as int == signed(le_u32(old(reader)@), 0x1_0000_0000)
                && r.unwrap().id == packet_id(Packets::OsuUserPresenceRequestAll) && final(reader)@ == old(reader)@.skip(4),
            old(reader)@.len() < 4 ==> r is Err && r->Err_0 == BanchoError::UnexpectedEof,
    {
        let ingame_time = reader.read_i32()?;
        Ok(Self { id: Packets::OsuUserPresenceRequestAll.id(), ingame_time })
    }
}

pub struct OsuToggleBlockNonFriendDms {
    pub id: u16,
    pub value: i32,
}

impl ClientPacket for OsuToggleBlockNonFriendDms {}

impl OsuToggleBlockNonFriendDms {
    pub fn new(reader: &mut PacketReader) -> (r: Result<Self, BanchoError>)
        ensures
            old(reader)@.len() >= 4 ==> r is Ok && r.unwrap().value as int == signed(le_u32(old(reader)@), 0x1_0000_0000)
                && r.unwrap().id == packet_id(Packets::OsuToggleBlockNonFriendDms) && final(reader)@ == old(reader)@.skip(4),
            old(reader)@.len() < 4 ==> r is Err && r->Err_0 == BanchoError::UnexpectedEof,
    {
        let value = reader.read_i32()?;
        Ok(Self { id: Packets::OsuToggleBlockNonFriendDms.id(), value })
    }
}

/// Its body is not decoded: the handler is given the bytes as they came.
pub struct OsuTournamentJoinMatchChannel {
    pub id: u16,
}

impl ClientPacket for OsuTournamentJoinMatchChannel {}

impl OsuTournamentJoinMatchChannel {
    pub fn new(reader: &mut PacketReader) -> (r: Self)
        ensures
            r.id == packet_id(Packets::OsuTournamentJoinMatchChannel),
            final(reader)@ == old(reader)@,
    {
        Self { id: Packets::OsuTournamentJoinMatchChannel.id() }
    }
}

/// Its body is not decoded: the handler is given the bytes as they came.
pub struct OsuTournamentLeaveMatchChannel {
    pub id: u16,
}

impl ClientPacket for OsuTournamentLeaveMatchChannel {}

impl OsuTournamentLeaveMatchChannel {
    pub fn new(reader: &mut PacketReader) -> (r: Self)
        ensures
            r.id == packet_id(Packets::OsuTournamentLeaveMatchChannel),
            final(reader)@ == old(reader)@,
    {
        Self { id: Packets::OsuTournamentLeaveMatchChannel.id() }
    }
}

} // verus!
