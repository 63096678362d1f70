//! The tool's settings.

use vstd::prelude::*;
use vstd::string::*;

verus! {

/// What the tool does once a synchronization has finished.
#[derive(Clone, Copy, Debug, PartialEq, Eq, Structural)]
pub enum ActionAfterSync {
    Exit,
    DoNothing,
    ExecuteCommand,
    ExecuteCommandAndExit,
}

/// Settings of the synchronization itself.
#[derive(Debug)]
pub struct Sync {
    /// Address of the server that holds the remote profile.
    pub server: String,
    pub auto_update: bool,
    pub auto_sync: bool,
    pub action_after_sync: ActionAfterSync,
    /// Command line for the actions that execute a command.
    pub command: String,
}

/// Settings of the local installation.
#[derive(Debug)]
pub struct Minecraft {
    /// Name of the version whose mods are synchronized.
    pub version: String,
    /// `true`: every version shares one mods directory. `false`: each
    /// version has a mods directory under its own folder.
    pub isolate: bool,
    pub sync_config: bool,
}

/// All settings.
#[derive(Debug)]
pub struct Config {
    /// Version of the settings format.
    pub version: String,
    pub sync: Sync,
    pub minecraft: Minecraft,
}

impl Clone for Sync {
    fn clone(&self) -> (copy: Self)
        ensures
            copy == *self,
    {
        Sync {
            server: self.server.clone(),
            auto_update: self.auto_update,
            auto_sync: self.auto_sync,
            action_after_sync: self.action_after_sync,
            command: self.command.clone(),
        }
    }
}

impl Clone for Minecraft {
    fn clone(&self) -> (copy: Self)
        ensures
            copy == *self,
    {
        Minecraft {
            version: self.version.clone(),
            isolate: self.isolate,
            sync_config: self.sync_config,
        }
    }
}

impl Clone for Config {
    fn clone(&self) -> (copy: Self)
        ensures
            copy == *self,
    {
        Config {
            version: self.version.clone(),
            sync: self.sync.clone(),
            minecraft: self.minecraft.clone(),
        }
    }
}

/// Version of the settings format that [`Config::default`] writes.
pub open spec fn format_version() -> Seq<char> {
    seq!['2', '.', '0']
}

impl Config {
    /// Whether these are the settings of a fresh installation: format
    /// version `2.0`, no server, no command, no version chosen, every switch
    /// off, nothing done after a synchronization.
    pub open spec fn is_default(&self) -> bool {
        &&& self.version@ == format_version()
        &&& self.sync.server@ == Seq::<char>::empty()
        &&& !self.sync.auto_update
        &&& !self.sync.auto_sync
        &&& self.sync.action_after_sync == ActionAfterSync::DoNothing
        &&& self.sync.command@ == Seq::<char>::empty()
        &&& self.minecraft.version@ == Seq::<char>::empty()
        &&& !self.minecraft.isolate
        &&& !self.minecraft.sync_config
    }

    /// The settings of a fresh installation.
    pub fn default() -> (config: Config)
        ensures
            config.is_default(),
    {
        proof {
            reveal_strlit("2.0");
            reveal_strlit("");
        }
        let config = Config {
            version: String::from_str("2.0"),
            sync: Sync {
                server: String::from_str(""),
                auto_update: false,
                auto_sync: false,
                action_after_sync: ActionAfterSync::DoNothing,
                command: String::from_str(""),
            },
            minecraft: Minecraft {
                version: String::from_str(""),
                isolate: false,
                sync_config: false,
            },
        };
        assert(config.version@ =~= format_version());
        assert(config.sync.server@ =~= Seq::<char>::empty());
        config
    }
}

/// Makes `config` the settings in force.
pub fn replace_current_config(current: &mut Config, config: Config)
    ensures
        *final(current) == config,
{
    *current = config;
}

} // verus!
