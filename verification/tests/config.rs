use modsyncnext2::{replace_current_config, ActionAfterSync, Config};

#[test]
fn default_config_is_that_of_a_fresh_installation() {
    let config = Config::default();
    assert_eq!(config.version, "2.0");
    assert_eq!(config.sync.server, "");
    assert!(!config.sync.auto_update);
    assert!(!config.sync.auto_sync);
    assert_eq!(config.sync.action_after_sync, ActionAfterSync::DoNothing);
    assert_eq!(config.sync.command, "");
    assert_eq!(config.minecraft.version, "");
    assert!(!config.minecraft.isolate);
    assert!(!config.minecraft.sync_config);
}

#[test]
fn replacing_the_config_puts_the_new_one_in_force() {
    let mut current = Config::default();
    let mut next = Config::default();
    next.sync.server = "https://mods.example".to_string();
    next.sync.action_after_sync = ActionAfterSync::ExecuteCommandAndExit;
    next.minecraft.version = "1.20.1".to_string();
    next.minecraft.isolate = true;
    replace_current_config(&mut current, next);
    assert_eq!(current.version, "2.0");
    assert_eq!(current.sync.server, "https://mods.example");
    assert_eq!(current.sync.action_after_sync, ActionAfterSync::ExecuteCommandAndExit);
    assert_eq!(current.minecraft.version, "1.20.1");
    assert!(current.minecraft.isolate);
}
