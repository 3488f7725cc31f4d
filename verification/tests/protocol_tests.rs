use soundboard::protocol::{make_command, Action, MENU_SUFFIX, POWER_SUFFIX, PROJECTOR_SUFFIX};

#[test]
fn make_command_puts_prefix_command_and_suffix() {
    assert_eq!(
        make_command(0xcd, PROJECTOR_SUFFIX),
        [0x05, 0x00, 0x06, 0x00, 0x00, 0x03, 0x00, 0xcd, 0x13]
    );
    assert_eq!(
        make_command(0x00, POWER_SUFFIX),
        [0x05, 0x00, 0x06, 0x00, 0x00, 0x03, 0x00, 0x00, 0x00]
    );
    assert_eq!(
        make_command(0x23, MENU_SUFFIX),
        [0x05, 0x00, 0x06, 0x00, 0x00, 0x03, 0x00, 0x23, 0x14]
    );
}

#[test]
fn make_command_keeps_every_byte_value() {
    let payload = make_command(0xff, 0xff);
    assert_eq!(payload.len(), 9);
    assert_eq!(&payload[..7], &[0x05, 0x00, 0x06, 0x00, 0x00, 0x03, 0x00]);
    assert_eq!(payload[7], 0xff);
    assert_eq!(payload[8], 0xff);
}

#[test]
fn actions_encode_to_their_table_entries() {
    assert_eq!(Action::InputVgaA.command(), make_command(0xcd, 0x13));
    assert_eq!(Action::InputVgaB.command(), make_command(0xce, 0x13));
    assert_eq!(Action::InputComposite.command(), make_command(0xcf, 0x13));
    assert_eq!(Action::InputSVideo.command(), make_command(0xd0, 0x13));
    assert_eq!(Action::InputHdmi.command(), make_command(0xd1, 0x13));
    assert_eq!(Action::InputWireless.command(), make_command(0xd3, 0x13));
    assert_eq!(Action::InputUsbDisplay.command(), make_command(0xd4, 0x13));
    assert_eq!(Action::InputUsbViewer.command(), make_command(0xd5, 0x13));
    assert_eq!(Action::VolumeUp.command(), make_command(0xfa, 0x13));
    assert_eq!(Action::VolumeDown.command(), make_command(0xfb, 0x13));
    assert_eq!(Action::VolumeMute.command(), make_command(0xfc, 0x13));
    assert_eq!(Action::VolumeUnMute.command(), make_command(0xfd, 0x13));
    assert_eq!(Action::PowerOn.command(), make_command(0x00, 0x00));
    assert_eq!(Action::PowerOff.command(), make_command(0x01, 0x00));
    assert_eq!(Action::MenuButton.command(), make_command(0x1d, 0x14));
    assert_eq!(Action::MenuUp.command(), make_command(0x1e, 0x14));
    assert_eq!(Action::MenuDown.command(), make_command(0x1f, 0x14));
    assert_eq!(Action::MenuLeft.command(), make_command(0x20, 0x14));
    assert_eq!(Action::MenuRight.command(), make_command(0x21, 0x14));
    assert_eq!(Action::MenuOk.command(), make_command(0x23, 0x14));
    assert_eq!(Action::PictureBlank.command(), make_command(0xee, 0x13));
    assert_eq!(Action::PictureUnBlank.command(), make_command(0xef, 0x13));
    assert_eq!(Action::PictureFreeze.command(), make_command(0xf0, 0x13));
    assert_eq!(Action::PictureUnFreeze.command(), make_command(0xf1, 0x13));
    assert_eq!(Action::PictureContrastUp.command(), make_command(0xf6, 0x13));
    assert_eq!(Action::PictureContrastDown.command(), make_command(0xf7, 0x13));
    assert_eq!(Action::PictureBrightnessUp.command(), make_command(0xf5, 0x13));
    assert_eq!(Action::PictureBrightnessDown.command(), make_command(0xf4, 0x13));
}

#[test]
fn action_code_and_suffix() {
    assert_eq!(Action::PowerOff.code(), 0x01);
    assert_eq!(Action::PowerOff.suffix(), 0x00);
    assert_eq!(Action::MenuOk.code(), 0x23);
    assert_eq!(Action::MenuOk.suffix(), 0x14);
    assert_eq!(Action::VolumeMute.code(), 0xfc);
    assert_eq!(Action::VolumeMute.suffix(), 0x13);
}
