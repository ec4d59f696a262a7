//! The slash commands the bot offers: their names, who may use them, and the
//! set registered at start-up.

use vstd::prelude::*;
use crate::text::{joined, same_text};

verus! {

/// A slash command name that the bot does not know; holds the name.
#[derive(Clone, Debug)]
pub struct SlashCommandParseError(pub String);

impl SlashCommandParseError {
    /// "Unknown slash command: " followed by the name.
    pub fn message(&self) -> (r: String)
        ensures
            r@ == "Unknown slash command: "@ + self.0@,
    {
        joined("Unknown slash command: ", self.0.as_str())
    }
}

/// All slash commands.
#[derive(Clone, Copy, Debug, PartialEq, Eq, Structural)]
pub enum AppCommands {
    Register,
    Unregister,
    Raid,
    RaidBoss,
    RaidRole,
    RaidTier,
    Config,
}

/// Who may use a command: holders of the squad-maker role, or every member
/// of the guild.
#[derive(Clone, Copy, Debug, PartialEq, Eq, Structural)]
pub enum CommandAudience {
    SquadMakers,
    Everyone,
}

pub open spec fn command_name(c: AppCommands) -> Seq<char> {
    match c {
        AppCommands::Register => "register"@,
        AppCommands::Unregister => "unregister"@,
        AppCommands::Raid => "raid"@,
        AppCommands::RaidBoss => "raid_boss"@,
        AppCommands::RaidRole => "raid_role"@,
        AppCommands::RaidTier => "raid_tier"@,
        AppCommands::Config => "config"@,
    }
}

pub open spec fn audience_of(c: AppCommands) -> CommandAudience {
    match c {
        AppCommands::Register | AppCommands::Unregister => CommandAudience::Everyone,
        _ => CommandAudience::SquadMakers,
    }
}

pub open spec fn default_commands_spec() -> Seq<AppCommands> {
    seq![
        AppCommands::Register,
        AppCommands::Unregister,
        AppCommands::Raid,
        AppCommands::RaidBoss,
        AppCommands::RaidRole,
        AppCommands::RaidTier,
        AppCommands::Config,
    ]
}

impl AppCommands {
    /// The name under which the command is registered.
    pub fn name(&self) -> (r: &'static str)
        ensures
            r@ == command_name(*self),
    {
        match self {
            AppCommands::Register => "register",
            AppCommands::Unregister => "unregister",
            AppCommands::Raid => "raid",
            AppCommands::RaidBoss => "raid_boss",
            AppCommands::RaidRole => "raid_role",
            AppCommands::RaidTier => "raid_tier",
            AppCommands::Config => "config",
        }
    }

    /// The command registered under `s`.
    pub fn parse(s: &str) -> (r: Result<AppCommands, SlashCommandParseError>)
        ensures
            match r {
                Ok(c) => command_name(c) == s@,
                Err(e) => (forall|c: AppCommands| command_name(c) != s@) && e.0@ == s@,
            },
    {
        if same_text(s, "register") {
            Ok(AppCommands::Register)
        } else if same_text(s, "unregister") {
            Ok(AppCommands::Unregister)
        } else if same_text(s, "raid") {
            Ok(AppCommands::Raid)
        } else if same_text(s, "raid_boss") {
            Ok(AppCommands::RaidBoss)
        } else if same_text(s, "raid_role") {
            Ok(AppCommands::RaidRole)
        } else if same_text(s, "raid_tier") {
            Ok(AppCommands::RaidTier)
        } else if same_text(s, "config") {
            Ok(AppCommands::Config)
        } else {
            proof {
                reveal_strlit("");
            }
            Err(SlashCommandParseError(joined(s, "")))
        }
    }

    /// The commands created when the bot starts: all of them.
    pub fn default_commands() -> (r: Vec<AppCommands>)
        ensures
            r@ == default_commands_spec(),
    {
        let r = vec![
            AppCommands::Register,
            AppCommands::Unregister,
            AppCommands::Raid,
            AppCommands::RaidBoss,
            AppCommands::RaidRole,
            AppCommands::RaidTier,
            AppCommands::Config,
        ];
        assert(r@ =~= default_commands_spec());
        r
    }

    /// Who may use the command.
    pub fn audience(&self) -> (r: CommandAudience)
        ensures
            r == audience_of(*self),
    {
        match self {
            AppCommands::Register | AppCommands::Unregister => CommandAudience::Everyone,
            _ => CommandAudience::SquadMakers,
        }
    }

    /// The Discord role that the command's permission is granted to: the
    /// squad-maker role, or the guild's own id, which stands for everyone.
    pub fn permission_role_id(&self, squadmaker_role_id: u64, guild_id: u64) -> (r: u64)
        ensures
            r == match audience_of(*self) {
                CommandAudience::SquadMakers => squadmaker_role_id,
                CommandAudience::Everyone => guild_id,
            },
    {
        match self.audience() {
            CommandAudience::SquadMakers => squadmaker_role_id,
            CommandAudience::Everyone => guild_id,
        }
    }
}

impl std::str::FromStr for AppCommands {
    type Err = SlashCommandParseError;

    fn from_str(s: &str) -> Result<AppCommands, SlashCommandParseError> {
        AppCommands::parse(s)
    }
}

} // verus!
