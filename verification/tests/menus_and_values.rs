use numworks_games::snake::menu::{options_step, MyOption, OptionType, OptionsCursor, OptionsEvent};
use numworks_games::eadk::{Color, State};
use numworks_games::graphical::{ColorConfig, DrawOp};
use numworks_games::menu::settings::{
    calculate_first_y, format_page_counter, item_y, items_on_page, page_count, setting_selection, Setting, SettingsCursor, SettingsEvent,
};
use numworks_games::menu::{draw_selection_string, pause_menu, selection, MenuConfig, MenuCursor, MenuEvent};
use numworks_games::storage::{read_data, values_from_bytes, values_to_bytes, write_data};
use numworks_games::utils::{
    decimal_to_ascii_number, get_centered_text_x_coordo, get_string_pixel_size, randint, string_from_u16,
    string_from_u32, wait_for_no_keydown,
};
use numworks_games::widgets::numberinput::{numberinput, try_push_digit, NumberInputStep};

const DOWN: u64 = 1 << 2;
const UP: u64 = 1 << 1;
const OK: u64 = 1 << 4;
const BACK: u64 = 1 << 5;
const RIGHT: u64 = 1 << 3;
const LEFT: u64 = 1 << 0;

fn cfg() -> ColorConfig {
    ColorConfig { text: Color::black(), bckgrd: Color::white(), alt: Color::red() }
}

#[test]
fn decimal_strings() {
    assert_eq!(string_from_u16(0).as_str(), "0\0");
    assert_eq!(string_from_u16(7).as_str(), "7\0");
    assert_eq!(string_from_u16(65535).as_str(), "65535\0");
    assert_eq!(string_from_u32(0).as_str(), "0\0");
    assert_eq!(string_from_u32(4294967295).as_str(), "4294967295\0");
    assert_eq!(string_from_u32(1000).as_str(), "1000\0");
}

#[test]
fn text_metrics() {
    assert_eq!(get_string_pixel_size("abc", true), 27);
    assert_eq!(get_string_pixel_size("abc", false), 18);
    assert_eq!(get_centered_text_x_coordo("abcd", true), (320 - 36) / 2);
    assert_eq!(randint(3, 5, 10), 3 + 10 % 3);
    assert_eq!(randint(0, u32::MAX, 77), 77);
    assert_eq!(decimal_to_ascii_number(b'7'), Some(7));
    assert_eq!(decimal_to_ascii_number(b'a'), None);
    assert!(wait_for_no_keydown(&State::new(0)));
    assert!(!wait_for_no_keydown(&State::new(OK)));
}

#[test]
fn menu_cursor_wraps_around() {
    let config = pause_menu(50);
    assert_eq!(config.choices.len(), 3);
    assert_eq!(config.dimensions, (128, 112));
    let mut c = MenuCursor::new(1000);
    assert_eq!(selection(&mut c, &config, false, &State::new(UP), 1200), MenuEvent::Moved { from: 0 });
    assert_eq!(c.cursor_pos, 2);
    assert_eq!(selection(&mut c, &config, false, &State::new(DOWN), 1300), MenuEvent::Idle);
    assert_eq!(selection(&mut c, &config, false, &State::new(DOWN), 1400), MenuEvent::Moved { from: 2 });
    assert_eq!(c.cursor_pos, 0);
    assert_eq!(selection(&mut c, &config, false, &State::new(OK), 1500), MenuEvent::Chosen);
    assert_eq!(selection(&mut c, &config, false, &State::new(BACK), 1500), MenuEvent::Back(0));
    // Releasing the key allows an immediate move.
    assert_eq!(selection(&mut c, &config, false, &State::new(0), 1500), MenuEvent::Idle);
    assert_eq!(c.last_action, 0);
}

#[test]
fn menu_lines() {
    let config = pause_menu(0);
    let ops = draw_selection_string(1, &cfg(), &config, true, false);
    match ops[0] {
        DrawOp::Text { text, pos, large, text_color, .. } => {
            assert_eq!(text, "Menu\0");
            assert!(large);
            assert_eq!(text_color, Color::red());
            // Centered: 5 characters of 9 pixels; second of three lines.
            assert_eq!(pos.x, (320 - 45) / 2);
            assert_eq!(pos.y, 120 - 56 + 10 + (112 - 20 - 16) / 2);
        },
        _ => panic!("expected a text"),
    }
    match ops[1] {
        DrawOp::FillRect { rect, color } => {
            assert_eq!((rect.width, rect.height), (10, 2));
            assert_eq!(color, Color::red());
        },
        _ => panic!("expected a rectangle"),
    }
    let horizontal = MenuConfig { choices: &["Replay\0", "Menu\0", "Exit\0"], rect_margins: (20, 0), dimensions: (320, 16), offset: (0, 104), back_key_return: 1 };
    match draw_selection_string(0, &cfg(), &horizontal, false, true)[0] {
        DrawOp::Text { pos, .. } => assert_eq!((pos.x, pos.y), (20, 120 - 8 + 104)),
        _ => panic!("expected a text"),
    }
}

#[test]
fn settings_pages() {
    assert_eq!(items_on_page(0, 7), 5);
    assert_eq!(items_on_page(1, 7), 2);
    assert_eq!(items_on_page(2, 7), 0);
    assert_eq!(calculate_first_y(5), 48);
    assert_eq!(calculate_first_y(8), 0);
    assert_eq!(item_y(48, 2), 112);
    assert_eq!(page_count(7), 2);
    assert_eq!(page_count(5), 1);
    assert_eq!(page_count(1), 1);
}

fn list_setting() -> Setting {
    Setting {
        name: "Speed\0",
        choice: 1,
        values: heapless::Vec::from_slice(&[3, 2, 1]).unwrap(),
        texts: heapless::Vec::from_slice(&["Fast\0", "Normal\0", "Slow\0"]).unwrap(),
        user_modifiable: true,
        fixed_values: true,
    }
}

fn number_setting() -> Setting {
    Setting {
        name: "Level\0",
        choice: 0,
        values: heapless::Vec::from_slice(&[1, 1, 19]).unwrap(),
        texts: heapless::Vec::new(),
        user_modifiable: true,
        fixed_values: false,
    }
}

#[test]
fn settings_values() {
    let mut s = list_setting();
    assert_eq!(s.get_setting_value(), 2);
    assert_eq!(s.get_text(), "Normal\0");
    s.increment_value();
    s.increment_value();
    assert_eq!(s.choice, 0);
    s.decrement_value();
    assert_eq!(s.choice, 2);
    s.set_value(9);
    assert_eq!(s.values.as_slice(), &[9, 2, 1]);
    assert_eq!(s.stored_value(), 2);
    let mut n = number_setting();
    n.set_value_from_file(7);
    assert_eq!(n.get_setting_value(), 7);
    assert_eq!(n.stored_value(), 7);
    s.set_value_from_file(1);
    assert_eq!(s.choice, 1);
}

#[test]
fn settings_navigation() {
    let mut c = SettingsCursor { current_page: 0, cursor_pos: 4, first_y: 48, last_action: 0, last_action_key: 13 };
    let mut s = list_setting();
    assert_eq!(setting_selection(&mut c, &mut s, 7, 2, &State::new(DOWN), 1000), SettingsEvent::PageChanged);
    assert_eq!((c.current_page, c.cursor_pos, c.first_y), (1, 0, 96));
    assert_eq!(setting_selection(&mut c, &mut s, 7, 2, &State::new(DOWN), 1300), SettingsEvent::Moved { from: 0 });
    assert_eq!(setting_selection(&mut c, &mut s, 7, 2, &State::new(DOWN), 1600), SettingsEvent::Idle);
    assert_eq!(c.cursor_pos, 1);
    assert_eq!(setting_selection(&mut c, &mut s, 7, 2, &State::new(RIGHT), 1900), SettingsEvent::Edited);
    assert_eq!(s.choice, 2);
    assert_eq!(setting_selection(&mut c, &mut s, 7, 2, &State::new(BACK), 2000), SettingsEvent::Exit);
    let mut n = number_setting();
    assert_eq!(setting_selection(&mut c, &mut n, 7, 2, &State::new(RIGHT), 2300), SettingsEvent::Edited);
    assert_eq!(n.values.as_slice(), &[2, 1, 19]);
    assert_eq!(setting_selection(&mut c, &mut n, 7, 2, &State::new(OK), 2600), SettingsEvent::AskNumber);
    assert_eq!(setting_selection(&mut c, &mut n, 7, 2, &State::new(LEFT), 2900), SettingsEvent::Edited);
    assert_eq!(setting_selection(&mut c, &mut n, 7, 2, &State::new(LEFT), 3200), SettingsEvent::Edited);
    assert_eq!(n.values.as_slice(), &[1, 1, 19]);
}

#[test]
fn number_input() {
    assert_eq!(try_push_digit(12, 3, 200), 123);
    assert_eq!(try_push_digit(123, 4, 200), 123);
    assert_eq!(try_push_digit(429496729, 6, u32::MAX), 429496729);
    assert_eq!(numberinput(12, 0, 200, &State::new(OK)), NumberInputStep::Done);
    assert_eq!(numberinput(12, 0, 200, &State::new(1 << 44)), NumberInputStep::Changed(123));
    assert_eq!(numberinput(12, 0, 200, &State::new(UP)), NumberInputStep::Changed(13));
    assert_eq!(numberinput(0, 0, 200, &State::new(DOWN)), NumberInputStep::Unchanged);
    assert_eq!(numberinput(125, 0, 200, &State::new(1 << 17)), NumberInputStep::Changed(12));
    assert_eq!(numberinput(125, 0, 200, &State::new(0)), NumberInputStep::Unchanged);
    // Backspace would leave 5, below the minimum 10: refused
    assert_eq!(numberinput(50, 10, 200, &State::new(1 << 17)), NumberInputStep::Unchanged);
}

#[test]
fn stored_values() {
    let v = values_from_bytes(&[1, 0, 0, 0, 0, 1, 0, 0]);
    assert_eq!(v.as_slice(), &[1, 256]);
    let mut w: heapless::Vec<u32, 16> = heapless::Vec::from_slice(&[0x01020304]).unwrap();
    assert_eq!(values_to_bytes(&w), vec![4, 3, 2, 1]);
    assert_eq!(read_data(&w, 0), Some(0x01020304));
    assert_eq!(read_data(&w, 1), None);
    assert_eq!(write_data(&mut w, Some(0), 5), 0);
    assert_eq!(write_data(&mut w, Some(9), 6), 1);
    assert_eq!(write_data(&mut w, None, 7), 2);
    assert_eq!(w.as_slice(), &[5, 6, 7]);
    let back = values_from_bytes(&values_to_bytes(&w));
    assert_eq!(back.as_slice(), w.as_slice());
}

fn speed_option() -> MyOption {
    let mut values: heapless::Vec<(OptionType, &'static str), 10> = heapless::Vec::new();
    values.push((OptionType::Int(1), "Slow")).unwrap();
    values.push((OptionType::Int(2), "Fast")).unwrap();
    values.push((OptionType::Bool(true), "On")).unwrap();
    MyOption { name: "Speed", value: 0, possible_values: values }
}

#[test]
fn option_values_cycle() {
    let mut opt = speed_option();
    assert_eq!(opt.get_value().1, "Slow");
    assert_eq!(opt.get_param_value::<u16>(), 1);
    opt.increment_value();
    assert_eq!(opt.value, 1);
    assert_eq!(opt.get_param_value::<u16>(), 2);
    opt.increment_value();
    assert!(opt.get_param_value::<bool>());
    opt.increment_value();
    assert_eq!(opt.value, 0);
    assert_eq!(opt.get_value().0, OptionType::Int(1));
}

#[test]
fn page_counter_counts_from_one() {
    assert_eq!(format_page_counter(0, 3).as_str(), "1/3\0");
    assert_eq!(format_page_counter(9, 12).as_str(), "10/12\0");
    assert_eq!(format_page_counter(65534, 65535).as_str(), "65535/65535\0");
}

#[test]
fn options_menu_moves_round_and_changes_values() {
    let mut opt = speed_option();
    let mut c = OptionsCursor { cursor_pos: 0, last_action: 0, last_action_key: 0 };
    // Up from the first option goes round to the last of three
    assert_eq!(options_step(&mut c, &mut opt, 3, &State::new(UP), 1000), OptionsEvent::Moved { from: 0 });
    assert_eq!(c.cursor_pos, 2);
    // held within 200 ms: nothing
    assert_eq!(options_step(&mut c, &mut opt, 3, &State::new(UP), 1100), OptionsEvent::Idle);
    assert_eq!(options_step(&mut c, &mut opt, 3, &State::new(DOWN), 1300), OptionsEvent::Moved { from: 2 });
    assert_eq!(c.cursor_pos, 0);
    assert_eq!(options_step(&mut c, &mut opt, 3, &State::new(OK), 1600), OptionsEvent::Changed);
    assert_eq!(opt.value, 1);
    assert_eq!(options_step(&mut c, &mut opt, 3, &State::new(BACK), 1650), OptionsEvent::Exit);
}
