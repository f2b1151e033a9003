use opensprig_rs::chat::{apply_chat_action, chat_action, ChatAction, ChatButtons};
use opensprig_rs::error::Error;
use opensprig_rs::keyboard::Keyboard;
use opensprig_rs::loader::{scratch_after_load, start_up, StartUp, BOOT_PROGRAM_MAGIC, SCRATCH_CLEARED};

fn idle() -> ChatButtons {
    ChatButtons {
        l_up: false,
        l_left: false,
        l_down: false,
        l_right: false,
        r_left: false,
        r_down: false,
        r_up_held: false,
        r_right_held: false,
    }
}

#[test]
fn chat_reset_chord_wins() {
    let b = ChatButtons { r_up_held: true, r_right_held: true, r_left: true, l_up: true, ..idle() };
    assert!(matches!(chat_action(&b), ChatAction::Reset));
    let b = ChatButtons { r_up_held: true, ..idle() };
    assert!(matches!(chat_action(&b), ChatAction::Wait));
}

#[test]
fn chat_buttons_in_order() {
    assert!(matches!(chat_action(&idle()), ChatAction::Wait));
    assert!(matches!(chat_action(&ChatButtons { r_left: true, r_down: true, ..idle() }), ChatAction::Type));
    assert!(matches!(chat_action(&ChatButtons { r_down: true, l_up: true, ..idle() }), ChatAction::Delete));
    assert!(matches!(chat_action(&ChatButtons { l_up: true, l_left: true, ..idle() }), ChatAction::Up));
    assert!(matches!(chat_action(&ChatButtons { l_left: true, l_down: true, ..idle() }), ChatAction::Left));
    assert!(matches!(chat_action(&ChatButtons { l_down: true, l_right: true, ..idle() }), ChatAction::Down));
    assert!(matches!(chat_action(&ChatButtons { l_right: true, ..idle() }), ChatAction::Right));
}

#[test]
fn chat_actions_drive_the_keyboard() {
    let mut k = Keyboard::new(0, 0);
    apply_chat_action(&mut k, &ChatAction::Down);
    apply_chat_action(&mut k, &ChatAction::Right);
    apply_chat_action(&mut k, &ChatAction::Type);
    k.unpress();
    assert_eq!(k.get_content(), "W");
    apply_chat_action(&mut k, &ChatAction::Up);
    apply_chat_action(&mut k, &ChatAction::Left);
    apply_chat_action(&mut k, &ChatAction::Type);
    assert_eq!(k.get_content(), "W1");
    apply_chat_action(&mut k, &ChatAction::Delete);
    assert_eq!(k.get_content(), "W");
    apply_chat_action(&mut k, &ChatAction::Wait);
    apply_chat_action(&mut k, &ChatAction::Reset);
    assert_eq!(k.get_content(), "W");
    assert_eq!(k.len(), 1);
}

#[test]
fn firmware_boots_only_on_the_magic() {
    assert!(matches!(start_up(BOOT_PROGRAM_MAGIC), StartUp::BootProgram));
    assert!(matches!(start_up(0x0550_1EAD), StartUp::BootProgram));
    assert!(matches!(start_up(SCRATCH_CLEARED), StartUp::LoadProgram));
    assert!(matches!(start_up(0x0550_1EAC), StartUp::LoadProgram));
}

#[test]
fn firmware_sets_the_magic_after_a_load() {
    let ok: Result<u32, Error> = Ok(4096);
    assert_eq!(scratch_after_load(&ok), Some(0x0550_1EAD));
    let failed: Result<u32, Error> = Err(Error::new("target is empty"));
    assert_eq!(scratch_after_load(&failed), None);
    assert!(matches!(start_up(scratch_after_load(&ok).unwrap()), StartUp::BootProgram));
}
