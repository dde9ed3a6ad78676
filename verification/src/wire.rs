//! The vocabulary of the wire: the type names of inbound and outbound
//! records, and which command an inbound record stands for.

use crate::commands::LobbyCommand;
use crate::delta_sync::SyncEvent;
use crate::fanout::ServerMessage;
use crate::player::{spawn_rotation, Endpoint, Vec3};
use vstd::prelude::*;

verus! {

/// The kinds of record the server accepts.
#[derive(Clone, Copy, Debug, PartialEq, Eq, Structural)]
pub enum PacketKind {
    Join,
    Leave,
    PositionUpdate,
    Shoot,
    Reload,
    WeaponSwitch,
    RequestState,
    Keepalive,
}

/// The kind a type name stands for, if any.
pub open spec fn kind_named(name: Seq<char>) -> Option<PacketKind> {
    if name == "join"@ {
        Some(PacketKind::Join)
    } else if name == "leave"@ {
        Some(PacketKind::Leave)
    } else if name == "position_update"@ {
        Some(PacketKind::PositionUpdate)
    } else if name == "shoot"@ {
        Some(PacketKind::Shoot)
    } else if name == "reload"@ {
        Some(PacketKind::Reload)
    } else if name == "weapon_switch"@ {
        Some(PacketKind::WeaponSwitch)
    } else if name == "request_state"@ {
        Some(PacketKind::RequestState)
    } else if name == "keepalive"@ {
        Some(PacketKind::Keepalive)
    } else {
        None
    }
}

fn same_text(a: &str, b: &str) -> (same: bool)
    ensures
        same == (a@ == b@),
{
    a.to_string() == b.to_string()
}

/// Reads the type name of an inbound record.
pub fn packet_kind(name: &str) -> (kind: Option<PacketKind>)
    ensures
        kind == kind_named(name@),
{
    if same_text(name, "join") {
        Some(PacketKind::Join)
    } else if same_text(name, "leave") {
        Some(PacketKind::Leave)
    } else if same_text(name, "position_update") {
        Some(PacketKind::PositionUpdate)
    } else if same_text(name, "shoot") {
        Some(PacketKind::Shoot)
    } else if same_text(name, "reload") {
        Some(PacketKind::Reload)
    } else if same_text(name, "weapon_switch") {
        Some(PacketKind::WeaponSwitch)
    } else if same_text(name, "request_state") {
        Some(PacketKind::RequestState)
    } else if same_text(name, "keepalive") {
        Some(PacketKind::Keepalive)
    } else {
        None
    }
}

/// The fields of an inbound record, as far as they were present and well
/// typed.
#[derive(Debug)]
pub struct PacketFields {
    pub player_id: u32,
    pub target_id: Option<u32>,
    pub weapon_id: Option<u32>,
    pub player_name: Option<String>,
    pub position: Option<Vec3>,
    pub rotation: Option<Vec3>,
}

/// The command a record of kind `kind` with the fields `fields` stands for,
/// if it stands for one: a shot needs its target, a weapon switch its
/// weapon and a position update its position; a request for state is no
/// command. A missing rotation counts as no rotation.
pub open spec fn command_of(kind: PacketKind, fields: PacketFields, name: String, from: Endpoint) -> Option<
    LobbyCommand,
> {
    match kind {
        PacketKind::Join => Some(
            LobbyCommand::UdpConnect { player_id: fields.player_id, name, addr: from },
        ),
        PacketKind::Leave => Some(LobbyCommand::PlayerLeave { player_id: fields.player_id }),
        PacketKind::PositionUpdate => match fields.position {
            Some(position) => Some(
                LobbyCommand::PositionUpdate {
                    player_id: fields.player_id,
                    position,
                    rotation: match fields.rotation {
                        Some(r) => r,
                        None => spawn_rotation(),
                    },
                    addr: from,
                },
            ),
            None => None,
        },
        PacketKind::Shoot => match fields.target_id {
            Some(target_id) => Some(LobbyCommand::Shoot { player_id: fields.player_id, target_id }),
            None => None,
        },
        PacketKind::Reload => Some(LobbyCommand::Reload { player_id: fields.player_id }),
        PacketKind::WeaponSwitch => match fields.weapon_id {
            Some(weapon_id) => Some(
                LobbyCommand::WeaponSwitch { player_id: fields.player_id, weapon_id },
            ),
            None => None,
        },
        PacketKind::RequestState => None,
        PacketKind::Keepalive => Some(
            LobbyCommand::Heartbeat { player_id: fields.player_id, addr: from },
        ),
    }
}

/// Turns an inbound record into the command it stands for. A joining
/// player without a name is called `Unknown`.
pub fn command_for(kind: PacketKind, fields: PacketFields, from: Endpoint) -> (cmd: Option<
    LobbyCommand,
>)
    ensures
        exists|name: String|
            name@ == (match fields.player_name {
                Some(n) => n@,
                None => "Unknown"@,
            }) && cmd == command_of(kind, fields, name, from),
{
    let PacketFields { player_id, target_id, weapon_id, player_name, position, rotation } = fields;
    let name: String = match player_name {
        Some(n) => n,
        None => "Unknown".to_string(),
    };
    let ghost label = name;
    let cmd = match kind {
        PacketKind::Join => Some(LobbyCommand::UdpConnect { player_id, name, addr: from }),
        PacketKind::Leave => Some(LobbyCommand::PlayerLeave { player_id }),
        PacketKind::PositionUpdate => match position {
            Some(position) => Some(
                LobbyCommand::PositionUpdate {
                    player_id,
                    position,
                    rotation: match rotation {
                        Some(r) => r,
                        None => Vec3 { x: 0, y: 0, z: 0 },
                    },
                    addr: from,
                },
            ),
            None => None,
        },
        PacketKind::Shoot => match target_id {
            Some(target_id) => Some(LobbyCommand::Shoot { player_id, target_id }),
            None => None,
        },
        PacketKind::Reload => Some(LobbyCommand::Reload { player_id }),
        PacketKind::WeaponSwitch => match weapon_id {
            Some(weapon_id) => Some(LobbyCommand::WeaponSwitch { player_id, weapon_id }),
            None => None,
        },
        PacketKind::RequestState => None,
        PacketKind::Keepalive => Some(LobbyCommand::Heartbeat { player_id, addr: from }),
    };
    assert(cmd == command_of(kind, fields, label, from));
    cmd
}

/// The type name an event is sent under. A change of reload state is sent as
/// a start or a finish; changes of health, ammunition and magazine size
/// share one name.
pub open spec fn event_name(event: SyncEvent) -> Seq<char> {
    match event {
        SyncEvent::HealthChanged { .. } => "player_state_update"@,
        SyncEvent::AmmoChanged { .. } => "player_state_update"@,
        SyncEvent::MaxAmmoChanged { .. } => "player_state_update"@,
        SyncEvent::WeaponChanged { .. } => "weapon_switched"@,
        SyncEvent::ReloadStateChanged { is_reloading, .. } => if is_reloading {
            "reload_started"@
        } else {
            "reload_finished"@
        },
        SyncEvent::PositionChanged { .. } => "position_update"@,
        SyncEvent::PlayerKilled { .. } => "player_killed"@,
        SyncEvent::PlayerRespawned { .. } => "player_respawned"@,
        SyncEvent::ScoreChanged { .. } => "score_update"@,
        SyncEvent::PlayerKicked { .. } => "player_kicked"@,
        SyncEvent::InactivityWarning { .. } => "inactivity_warning"@,
    }
}

/// The type name a message is sent under.
pub open spec fn message_name(message: ServerMessage) -> Seq<char> {
    match message {
        ServerMessage::Welcome { .. } => "welcome"@,
        ServerMessage::UdpConnected { .. } => "udp_connected"@,
        ServerMessage::PlayerList { .. } => "player_list"@,
        ServerMessage::PlayerJoined { .. } => "player_joined"@,
        ServerMessage::PlayerLeft { .. } => "player_left"@,
        ServerMessage::Event(event) => event_name(event),
    }
}

/// The type name of an event on the wire.
pub fn event_type(event: &SyncEvent) -> (name: &'static str)
    ensures
        name@ == event_name(*event),
{
    match event {
        SyncEvent::HealthChanged { .. } => "player_state_update",
        SyncEvent::AmmoChanged { .. } => "player_state_update",
        SyncEvent::MaxAmmoChanged { .. } => "player_state_update",
        SyncEvent::WeaponChanged { .. } => "weapon_switched",
        SyncEvent::ReloadStateChanged { is_reloading, .. } => if *is_reloading {
            "reload_started"
        } else {
            "reload_finished"
        },
        SyncEvent::PositionChanged { .. } => "position_update",
        SyncEvent::PlayerKilled { .. } => "player_killed",
        SyncEvent::PlayerRespawned { .. } => "player_respawned",
        SyncEvent::ScoreChanged { .. } => "score_update",
        SyncEvent::PlayerKicked { .. } => "player_kicked",
        SyncEvent::InactivityWarning { .. } => "inactivity_warning",
    }
}

/// The type name of a message on the wire.
pub fn message_type(message: &ServerMessage) -> (name: &'static str)
    ensures
        name@ == message_name(*message),
{
    match message {
        ServerMessage::Welcome { .. } => "welcome",
        ServerMessage::UdpConnected { .. } => "udp_connected",
        ServerMessage::PlayerList { .. } => "player_list",
        ServerMessage::PlayerJoined { .. } => "player_joined",
        ServerMessage::PlayerLeft { .. } => "player_left",
        ServerMessage::Event(event) => event_type(event),
    }
}

} // verus!
