use clay::actions::Action;
use clay::config::{Config, Keybind};

#[test]
fn actions_describe_themselves() {
    assert_eq!(Action::Quit.description(), "Quit the application");
    assert_eq!(Action::VersionUpdate.description(), "Increment patch version");
    assert_eq!(Action::Quit.command_str(), "/quit");
    assert_eq!(Action::EnterCommandMode.command_str(), "/");
    assert_eq!(Action::GenerateMessage.command_str(), "/message");
    assert!(!Action::ClearShell.is_editable());
    assert!(Action::Lint.is_editable());
    assert_eq!(Action::ToggleHelp.fixed_keybinding_display(), Some("[h]"));
    assert_eq!(Action::Build.fixed_keybinding_display(), None);
    let all = Action::all();
    assert_eq!(all.len(), 20);
    for (i, a) in all.iter().enumerate() {
        assert_eq!(a.index(), i);
    }
}

#[test]
fn default_config_binds_default_keys() {
    let c = Config::default();
    assert_eq!(c.get_keybind(Action::Run), Some(&Keybind::Char('r')));
    assert_eq!(c.get_keybind(Action::Publish), Some(&Keybind::Char('P')));
    assert_eq!(c.get_keybind(Action::Quit), Some(&Keybind::Unbound));
    assert_eq!(c.get_action_for_key('b'), Some(Action::Build));
    assert_eq!(c.get_action_for_key('R'), Some(Action::RemovePackage));
    assert_eq!(c.get_action_for_key('z'), None);
}

#[test]
fn set_keybind_rebinds() {
    let mut c = Config::default();
    c.set_keybind(Action::Build, Keybind::Char('z'));
    assert_eq!(c.get_keybind(Action::Build), Some(&Keybind::Char('z')));
    assert_eq!(c.get_action_for_key('z'), Some(Action::Build));
    assert_eq!(c.get_action_for_key('b'), None);
}

#[test]
fn loaded_bindings_fill_in_defaults() {
    let c = Config::from_bindings(&vec![(Action::Run, Keybind::Char('x')), (Action::Run, Keybind::Char('y'))]);
    assert_eq!(c.get_keybind(Action::Run), Some(&Keybind::Char('y')));
    assert_eq!(c.get_keybind(Action::Build), Some(&Keybind::Char('b')));
    assert_eq!(Config::default_keybind_for_action(Action::Commit), Keybind::Char('m'));
    assert_eq!(Config::default_keybind_for_action(Action::ShowDiff), Keybind::Unbound);
}

#[test]
fn conflicts_are_found_and_unbound() {
    let mut c = Config::default();
    assert!(c.find_conflicts().is_empty());
    c.set_keybind(Action::Build, Keybind::Char('r'));
    c.set_keybind(Action::Lint, Keybind::Char('c'));
    let mut conflicts = c.find_conflicts();
    conflicts.sort();
    assert_eq!(conflicts, vec!['c', 'r']);
    c.unbind_keys(&conflicts);
    assert_eq!(c.get_keybind(Action::Build), Some(&Keybind::Unbound));
    assert_eq!(c.get_keybind(Action::Run), Some(&Keybind::Unbound));
    assert_eq!(c.get_keybind(Action::Lint), Some(&Keybind::Unbound));
    assert_eq!(c.get_keybind(Action::Push), Some(&Keybind::Char('p')));
    assert!(c.find_conflicts().is_empty());
}
