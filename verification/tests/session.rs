use vole_rs::error::VoleError;
use vole_rs::loader::{parse_program_text, program_text};
use vole_rs::model::{Focus, Model};
use vole_rs::update::{on_key_event, update, Key, Msg};

#[test]
fn test_exit_msg() {
    let mut model = Model::default();
    update(&mut model, Msg::Exit);
    assert!(!model.running)
}

#[test]
fn default_session_holds_the_default_program() {
    let model = Model::default();
    assert_eq!(&model.cpu.memory[..6], &[0x14, 0x02, 0x34, 0x17, 0xC0, 0x00]);
    assert!(model.cpu.memory[6..].iter().all(|b| *b == 0));
    assert_eq!(model.program_text, vec!["0x14", "0x02", "0x34", "0x17", "0xC0", "0x00"]);
    assert!(model.running);
    assert_eq!(model.focus, Focus::Memory);
    assert_eq!(model.memory_scroll, 0);
    assert_eq!(model.registers_scroll, 0);
    assert_eq!(model.error_msg, None);
}

#[test]
fn session_refuses_a_program_that_is_too_large() {
    assert_eq!(Model::init(vec![0; 257]).err(), Some(VoleError::ProgramTooLarge));
    assert!(Model::init(vec![0; 256]).is_ok());
}

#[test]
fn program_text_is_read_back() {
    let program: Vec<u8> = (0..=255u8).collect();
    let text = program_text(&program);
    assert_eq!(text.len(), 256);
    assert_eq!(text[0], "0x00");
    assert_eq!(text[0x0A], "0x0A");
    assert_eq!(text[0xFF], "0xFF");
    assert_eq!(parse_program_text(&text), Ok(program));
}

#[test]
fn keys_have_their_meaning() {
    let mut model = Model::default();
    for focus in [Focus::Registers, Focus::Memory, Focus::Program] {
        model.focus = focus;
        assert_eq!(on_key_event(&model, Key::Esc), Some(Msg::Exit));
        assert_eq!(on_key_event(&model, Key::Char('q')), Some(Msg::Exit));
        assert_eq!(on_key_event(&model, Key::Char('r')), Some(Msg::Load));
        assert_eq!(on_key_event(&model, Key::Char('p')), Some(Msg::Cycle));
        assert_eq!(on_key_event(&model, Key::Tab), Some(Msg::FocusNext));
        assert_eq!(on_key_event(&model, Key::BackTab), Some(Msg::FocusPrevious));
    }
    model.focus = Focus::Program;
    assert_eq!(on_key_event(&model, Key::Up), Some(Msg::KeyInput));
    assert_eq!(on_key_event(&model, Key::Down), Some(Msg::KeyInput));
    assert_eq!(on_key_event(&model, Key::Char('0')), Some(Msg::KeyInput));
    assert_eq!(on_key_event(&model, Key::Other), Some(Msg::KeyInput));
    for focus in [Focus::Registers, Focus::Memory] {
        model.focus = focus;
        assert_eq!(on_key_event(&model, Key::Up), Some(Msg::ScrollUp));
        assert_eq!(on_key_event(&model, Key::Down), Some(Msg::ScrollDown));
        assert_eq!(on_key_event(&model, Key::Char('0')), None);
        assert_eq!(on_key_event(&model, Key::Char('Q')), None);
        assert_eq!(on_key_event(&model, Key::Other), None);
    }
}

#[test]
fn focus_goes_round() {
    let mut model = Model::default();
    assert_eq!(model.focus, Focus::Memory);
    update(&mut model, Msg::FocusNext);
    assert_eq!(model.focus, Focus::Program);
    update(&mut model, Msg::FocusNext);
    assert_eq!(model.focus, Focus::Registers);
    update(&mut model, Msg::FocusNext);
    assert_eq!(model.focus, Focus::Memory);
    update(&mut model, Msg::FocusPrevious);
    assert_eq!(model.focus, Focus::Registers);
    update(&mut model, Msg::FocusPrevious);
    assert_eq!(model.focus, Focus::Program);
    update(&mut model, Msg::FocusPrevious);
    assert_eq!(model.focus, Focus::Memory);
}

#[test]
fn scrolling_stays_within_the_pane() {
    let mut model = Model::default();
    update(&mut model, Msg::ScrollUp);
    assert_eq!(model.memory_scroll, 0);
    for _ in 0..300 {
        update(&mut model, Msg::ScrollDown);
    }
    assert_eq!(model.memory_scroll, 256);
    assert_eq!(model.registers_scroll, 0);
    update(&mut model, Msg::ScrollUp);
    assert_eq!(model.memory_scroll, 255);

    model.focus = Focus::Registers;
    for _ in 0..20 {
        update(&mut model, Msg::ScrollDown);
    }
    assert_eq!(model.registers_scroll, 16);
    assert_eq!(model.memory_scroll, 255);
    update(&mut model, Msg::ScrollUp);
    assert_eq!(model.registers_scroll, 15);

    model.focus = Focus::Program;
    update(&mut model, Msg::ScrollDown);
    update(&mut model, Msg::ScrollUp);
    assert_eq!(model.registers_scroll, 15);
    assert_eq!(model.memory_scroll, 255);
}

#[test]
fn cycle_message_stops_at_the_halt() {
    let mut model = Model::default();
    update(&mut model, Msg::Cycle);
    assert_eq!(model.cpu.cycle, 1);
    assert_eq!(model.cpu.registers[4], 0x34);
    update(&mut model, Msg::Cycle);
    update(&mut model, Msg::Cycle);
    assert!(model.cpu.halted);
    assert_eq!(model.cpu.cycle, 3);
    assert_eq!(model.cpu.memory[0x17], 0x34);
    update(&mut model, Msg::Cycle);
    assert_eq!(model.cpu.cycle, 3);
    assert_eq!(model.cpu.program_counter, 6);
}

#[test]
fn load_resets_the_machine_from_the_text() {
    let mut model = Model::default();
    update(&mut model, Msg::Cycle);
    model.program_text = vec!["0x21 0x07".to_string(), "".to_string(), "0xC0 0x00".to_string()];
    update(&mut model, Msg::Load);
    assert_eq!(model.error_msg, None);
    assert_eq!(model.cpu.cycle, 0);
    assert_eq!(model.cpu.program_counter, 0);
    assert_eq!(model.cpu.registers, [0u8; 16]);
    assert_eq!(&model.cpu.memory[..5], &[0x21, 0x07, 0xC0, 0x00, 0x00]);
    assert!(model.running);
}

#[test]
fn load_of_a_bad_text_leaves_the_machine() {
    let mut model = Model::default();
    update(&mut model, Msg::Cycle);
    model.program_text = vec!["0x21 0x07".to_string(), "bad".to_string()];
    update(&mut model, Msg::Load);
    assert_eq!(model.error_msg, Some("only byte values in hex notation allowed"));
    assert_eq!(model.cpu.cycle, 1);
    assert_eq!(model.cpu.memory[0], 0x14);

    model.program_text = vec!["0x00".to_string(); 257];
    update(&mut model, Msg::Load);
    assert_eq!(model.error_msg, Some("given program does not fit into memory"));
    assert_eq!(model.cpu.cycle, 1);

    model.program_text = vec!["0xC0".to_string()];
    update(&mut model, Msg::Load);
    assert_eq!(model.error_msg, None);
    assert_eq!(model.cpu.memory[0], 0xC0);
}

#[test]
fn key_input_changes_nothing() {
    let mut model = Model::default();
    model.focus = Focus::Program;
    assert!(update(&mut model, Msg::KeyInput));
    assert!(model.running);
    assert_eq!(model.focus, Focus::Program);
    assert_eq!(model.program_text.len(), 6);
    assert_eq!(model.cpu.cycle, 0);
}

#[test]
fn only_a_key_for_the_focused_editor_is_handed_on() {
    let mut model = Model::default();
    for focus in [Focus::Registers, Focus::Memory] {
        model.focus = focus;
        assert!(!update(&mut model, Msg::KeyInput));
    }
    model.focus = Focus::Program;
    for msg in [Msg::Load, Msg::Cycle, Msg::ScrollUp, Msg::ScrollDown, Msg::Exit] {
        assert!(!update(&mut model, msg));
    }
    assert!(update(&mut model, Msg::KeyInput));
    assert!(!update(&mut model, Msg::FocusNext));
    assert!(!update(&mut model, Msg::KeyInput));
}
