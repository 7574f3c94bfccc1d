use dot_games::max7219::{clear_commands, init_commands, show_commands, Command, RegisterAddress};
use dot_games::DotScreen;

#[test]
fn command_word_layout() {
    let c = Command { register: RegisterAddress::Column3, data: 0xab };
    assert_eq!(c.word(), 0x03ab);
    assert_eq!(Command { register: RegisterAddress::Test, data: 1 }.word(), 0x0f01);
    assert_eq!(Command::intensity(12).word(), 0x0a0c);
}

#[test]
fn wire_bits_high_bit_first() {
    let c = Command { register: RegisterAddress::Column3, data: 0xab };
    // 0x03ab == 0000 0011 1010 1011
    let expected = [
        false, false, false, false, false, false, true, true, true, false, true, false, true,
        false, true, true,
    ];
    assert_eq!(c.wire_bits(), expected);
    let s = Command { register: RegisterAddress::Shutdown, data: 1 };
    let bits = s.wire_bits();
    assert_eq!(bits[0..8], [false, false, false, false, true, true, false, false]);
    assert!(bits[15]);
    assert_eq!(bits.iter().filter(|b| **b).count(), 3);
    // 0x0f00: the don't-care prefix goes out first, all zero.
    let t = Command::test(false).wire_bits();
    assert_eq!(t[0..8], [false, false, false, false, true, true, true, true]);
    assert!(t[8..16].iter().all(|b| !*b));
}

#[test]
fn register_addresses() {
    assert_eq!(RegisterAddress::Column1.address(), 1);
    assert_eq!(RegisterAddress::Column8.address(), 8);
    assert_eq!(RegisterAddress::Decode.address(), 9);
    assert_eq!(RegisterAddress::Intensity.address(), 0xa);
    assert_eq!(RegisterAddress::ScanLimit.address(), 0xb);
    assert_eq!(RegisterAddress::Shutdown.address(), 0xc);
    assert_eq!(RegisterAddress::Test.address(), 0xf);
    assert_eq!(RegisterAddress::column(4), RegisterAddress::Column5);
}

#[test]
fn control_commands() {
    assert_eq!(Command::shutdown(true).data, 0);
    assert_eq!(Command::shutdown(false).data, 1);
    assert_eq!(Command::test(true).data, 1);
    assert_eq!(Command::test(false).data, 0);
    assert_eq!(Command::intensity(15).register, RegisterAddress::Intensity);
}

#[test]
fn show_sends_each_column() {
    let screen = DotScreen::new([1, 2, 3, 4, 5, 6, 7, 0x80]);
    let cmds = show_commands(&screen);
    for (i, c) in cmds.iter().enumerate() {
        assert_eq!(c.register.address() as usize, i + 1);
        assert_eq!(c.data, screen.columns[i]);
    }
    assert_eq!(cmds[7].word(), 0x0880);
    for c in clear_commands().iter() {
        assert_eq!(c.data, 0);
    }
}

#[test]
fn start_up_sequence() {
    let words: Vec<u16> = init_commands().iter().map(|c| c.word()).collect();
    assert_eq!(words, vec![0x0c01, 0x0f00, 0x0900, 0x0b07, 0x0a0c]);
}
