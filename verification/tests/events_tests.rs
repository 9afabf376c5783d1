use chip8::events::{EventDriver, Key};

#[test]
fn get_key_follows_the_layout() {
    let driver = EventDriver::new();
    assert_eq!(driver.get_key(0x1), Some(Key::Num1));
    assert_eq!(driver.get_key(0x2), Some(Key::Num2));
    assert_eq!(driver.get_key(0x3), Some(Key::Num3));
    assert_eq!(driver.get_key(0xC), Some(Key::Num4));
    assert_eq!(driver.get_key(0x4), Some(Key::Q));
    assert_eq!(driver.get_key(0x5), Some(Key::W));
    assert_eq!(driver.get_key(0x6), Some(Key::E));
    assert_eq!(driver.get_key(0xD), Some(Key::R));
    assert_eq!(driver.get_key(0x7), Some(Key::A));
    assert_eq!(driver.get_key(0x8), Some(Key::S));
    assert_eq!(driver.get_key(0x9), Some(Key::D));
    assert_eq!(driver.get_key(0xE), Some(Key::F));
    assert_eq!(driver.get_key(0xA), Some(Key::Z));
    assert_eq!(driver.get_key(0x0), Some(Key::X));
    assert_eq!(driver.get_key(0xB), Some(Key::C));
    assert_eq!(driver.get_key(0xF), Some(Key::V));
}

#[test]
fn get_key_has_no_key_above_0xf() {
    let driver = EventDriver::new();
    assert_eq!(driver.get_key(0x10), None);
    assert_eq!(driver.get_key(0xFF), None);
}

#[test]
fn key_value_is_the_inverse_of_get_key() {
    let driver = EventDriver::new();
    for value in 0u8..16 {
        let key = driver.get_key(value).unwrap();
        assert_eq!(key.value(), value);
    }
}

#[test]
fn pool_of_a_new_driver_has_no_key_down() {
    let driver = EventDriver::new();
    assert_eq!(driver.pool(), Ok([false; 16]));
}

#[test]
fn pool_sets_the_logical_keys_of_the_pressed_keys() {
    let mut driver = EventDriver::new();
    driver.pressed = vec![Key::X, Key::Num4, Key::V, Key::X];
    let mut expected = [false; 16];
    expected[0x0] = true;
    expected[0xC] = true;
    expected[0xF] = true;
    assert_eq!(driver.pool(), Ok(expected));
}

#[test]
fn pool_with_every_key_down_sets_all() {
    let mut driver = EventDriver::new();
    driver.pressed = vec![
        Key::Num1, Key::Num2, Key::Num3, Key::Num4, Key::Q, Key::W, Key::E, Key::R, Key::A,
        Key::S, Key::D, Key::F, Key::Z, Key::X, Key::C, Key::V,
    ];
    assert_eq!(driver.pool(), Ok([true; 16]));
}

#[test]
fn pool_fails_on_quit() {
    let mut driver = EventDriver::new();
    driver.quit = true;
    driver.pressed = vec![Key::Q];
    assert_eq!(driver.pool(), Err(()));
}
