//! Wire encoding of the projector's remote-control commands.
//!
//! Every command is nine bytes: a fixed seven-byte prefix, one byte that
//! selects the command, and one byte that names the command family.

use vstd::prelude::*;

verus! {

/// Length of an encoded command.
pub const COMMAND_LEN: usize = 9;

/// Suffix of the power commands.
pub const POWER_SUFFIX: u8 = 0x00;

/// Suffix of the commands that address the projector itself.
pub const PROJECTOR_SUFFIX: u8 = 0x13;

/// Suffix of the menu commands.
pub const MENU_SUFFIX: u8 = 0x14;

/// The bytes that open every command.
pub open spec fn prefix() -> Seq<u8> {
    seq![0x05u8, 0x00u8, 0x06u8, 0x00u8, 0x00u8, 0x03u8, 0x00u8]
}

/// The nine bytes of the command `command` of the family `suffix`.
pub open spec fn command_bytes(command: u8, suffix: u8) -> Seq<u8> {
    prefix().push(command).push(suffix)
}

/// Encodes one command.
pub fn make_command(command: u8, suffix: u8) -> (payload: [u8; 9])
    ensures
        payload@ == command_bytes(command, suffix),
{
    let payload: [u8; 9] = [0x05, 0x00, 0x06, 0x00, 0x00, 0x03, 0x00, command, suffix];
    assert(payload@ =~= command_bytes(command, suffix));
    payload
}

/// What the remote can ask of the projector.
#[derive(Debug, Clone, Copy, PartialEq, Eq, Structural)]
pub enum Action {
    /// The first VGA input.
    InputVgaA,
    /// The second VGA input.
    InputVgaB,
    /// The composite input.
    InputComposite,
    /// The S-Video input.
    InputSVideo,
    /// The HDMI input.
    InputHdmi,
    /// The wireless input.
    InputWireless,
    /// The USB display input.
    InputUsbDisplay,
    /// The USB viewer input.
    InputUsbViewer,
    /// Louder.
    VolumeUp,
    /// Quieter.
    VolumeDown,
    /// Sound off.
    VolumeMute,
    /// Sound on again.
    VolumeUnMute,
    /// Switch on.
    PowerOn,
    /// Switch off.
    PowerOff,
    /// The menu button.
    MenuButton,
    /// Up in the menu.
    MenuUp,
    /// Down in the menu.
    MenuDown,
    /// Left in the menu.
    MenuLeft,
    /// Right in the menu.
    MenuRight,
    /// Confirm in the menu.
    MenuOk,
    /// Blank the picture.
    PictureBlank,
    /// Show the picture again.
    PictureUnBlank,
    /// Freeze the picture.
    PictureFreeze,
    /// Let the picture run again.
    PictureUnFreeze,
    /// More contrast.
    PictureContrastUp,
    /// Less contrast.
    PictureContrastDown,
    /// Brighter.
    PictureBrightnessUp,
    /// Darker.
    PictureBrightnessDown,
}

impl Action {
    /// The byte that selects this action within its family.
    pub open spec fn opcode(self) -> u8 {
        match self {
            Action::InputVgaA => 0xcd,
            Action::InputVgaB => 0xce,
            Action::InputComposite => 0xcf,
            Action::InputSVideo => 0xd0,
            Action::InputHdmi => 0xd1,
            Action::InputWireless => 0xd3,
            Action::InputUsbDisplay => 0xd4,
            Action::InputUsbViewer => 0xd5,
            Action::VolumeUp => 0xfa,
            Action::VolumeDown => 0xfb,
            Action::VolumeMute => 0xfc,
            Action::VolumeUnMute => 0xfd,
            Action::PowerOn => 0x00,
            Action::PowerOff => 0x01,
            Action::MenuButton => 0x1d,
            Action::MenuUp => 0x1e,
            Action::MenuDown => 0x1f,
            Action::MenuLeft => 0x20,
            Action::MenuRight => 0x21,
            Action::MenuOk => 0x23,
            Action::PictureBlank => 0xee,
            Action::PictureUnBlank => 0xef,
            Action::PictureFreeze => 0xf0,
            Action::PictureUnFreeze => 0xf1,
            Action::PictureContrastUp => 0xf6,
            Action::PictureContrastDown => 0xf7,
            Action::PictureBrightnessUp => 0xf5,
            Action::PictureBrightnessDown => 0xf4,
        }
    }

    /// The byte that names this action's family.
    pub open spec fn family(self) -> u8 {
        match self {
            Action::PowerOn | Action::PowerOff => POWER_SUFFIX,
            Action::MenuButton | Action::MenuUp | Action::MenuDown | Action::MenuLeft | Action::MenuRight | Action::MenuOk => MENU_SUFFIX,
            _ => PROJECTOR_SUFFIX,
        }
    }

    /// The byte that selects this action within its family.
    pub fn code(self) -> (code: u8)
        ensures
            code == self.opcode(),
    {
        match self {
            Action::InputVgaA => 0xcd,
            Action::InputVgaB => 0xce,
            Action::InputComposite => 0xcf,
            Action::InputSVideo => 0xd0,
            Action::InputHdmi => 0xd1,
            Action::InputWireless => 0xd3,
            Action::InputUsbDisplay => 0xd4,
            Action::InputUsbViewer => 0xd5,
            Action::VolumeUp => 0xfa,
            Action::VolumeDown => 0xfb,
            Action::VolumeMute => 0xfc,
            Action::VolumeUnMute => 0xfd,
            Action::PowerOn => 0x00,
            Action::PowerOff => 0x01,
            Action::MenuButton => 0x1d,
            Action::MenuUp => 0x1e,
            Action::MenuDown => 0x1f,
            Action::MenuLeft => 0x20,
            Action::MenuRight => 0x21,
            Action::MenuOk => 0x23,
            Action::PictureBlank => 0xee,
            Action::PictureUnBlank => 0xef,
            Action::PictureFreeze => 0xf0,
            Action::PictureUnFreeze => 0xf1,
            Action::PictureContrastUp => 0xf6,
            Action::PictureContrastDown => 0xf7,
            Action::PictureBrightnessUp => 0xf5,
            Action::PictureBrightnessDown => 0xf4,
        }
    }

    /// The byte that names this action's family.
    pub fn suffix(self) -> (suffix: u8)
        ensures
            suffix == self.family(),
    {
        match self {
            Action::PowerOn | Action::PowerOff => POWER_SUFFIX,
            Action::MenuButton | Action::MenuUp | Action::MenuDown | Action::MenuLeft | Action::MenuRight | Action::MenuOk => MENU_SUFFIX,
            _ => PROJECTOR_SUFFIX,
        }
    }

    /// The nine bytes to send for this action.
    pub fn command(self) -> (payload: [u8; 9])
        ensures
            payload@ == command_bytes(self.opcode(), self.family()),
    {
        make_command(self.code(), self.suffix())
    }
}

} // verus!
