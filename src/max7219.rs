//! The command protocol of the MAX7219 LED driver: which words go to the
//! chip and in what order their bits are clocked out.
use vstd::prelude::*;
use crate::dot_screen::DotScreen;

verus! {

/// A register of the driver chip.
#[derive(Clone, Copy, Debug, PartialEq, Eq, Structural)]
pub enum RegisterAddress {
    Column1,
    Column2,
    Column3,
    Column4,
    Column5,
    Column6,
    Column7,
    Column8,
    Decode,
    Intensity,
    ScanLimit,
    Shutdown,
    Test,
}

impl RegisterAddress {
    /// The 4-bit address of the register.
    pub open spec fn spec_address(self) -> u8 {
        match self {
            RegisterAddress::Column1 => 0x1,
            RegisterAddress::Column2 => 0x2,
            RegisterAddress::Column3 => 0x3,
            RegisterAddress::Column4 => 0x4,
            RegisterAddress::Column5 => 0x5,
            RegisterAddress::Column6 => 0x6,
            RegisterAddress::Column7 => 0x7,
            RegisterAddress::Column8 => 0x8,
            RegisterAddress::Decode => 0x9,
            RegisterAddress::Intensity => 0xA,
            RegisterAddress::ScanLimit => 0xB,
            RegisterAddress::Shutdown => 0xC,
            RegisterAddress::Test => 0xF,
        }
    }

    /// The 4-bit address of the register.
    pub fn address(self) -> (r: u8)
        ensures
            r == self.spec_address(),
    {
        match self {
            RegisterAddress::Column1 => 0x1,
            RegisterAddress::Column2 => 0x2,
            RegisterAddress::Column3 => 0x3,
            RegisterAddress::Column4 => 0x4,
            RegisterAddress::Column5 => 0x5,
            RegisterAddress::Column6 => 0x6,
            RegisterAddress::Column7 => 0x7,
            RegisterAddress::Column8 => 0x8,
            RegisterAddress::Decode => 0x9,
            RegisterAddress::Intensity => 0xA,
            RegisterAddress::ScanLimit => 0xB,
            RegisterAddress::Shutdown => 0xC,
            RegisterAddress::Test => 0xF,
        }
    }

    /// The register of display column `i` (0 is the leftmost, register 1).
    pub open spec fn spec_column(i: int) -> RegisterAddress {
        if i == 0 {
            RegisterAddress::Column1
        } else if i == 1 {
            RegisterAddress::Column2
        } else if i == 2 {
            RegisterAddress::Column3
        } else if i == 3 {
            RegisterAddress::Column4
        } else if i == 4 {
            RegisterAddress::Column5
        } else if i == 5 {
            RegisterAddress::Column6
        } else if i == 6 {
            RegisterAddress::Column7
        } else {
            RegisterAddress::Column8
        }
    }

    /// The register of display column `i` (0 is the leftmost, register 1).
    pub fn column(i: usize) -> (r: RegisterAddress)
        requires
            i < 8,
        ensures
            r == Self::spec_column(i as int),
            r.spec_address() == i + 1,
    {
        if i == 0 {
            RegisterAddress::Column1
        } else if i == 1 {
            RegisterAddress::Column2
        } else if i == 2 {
            RegisterAddress::Column3
        } else if i == 3 {
            RegisterAddress::Column4
        } else if i == 4 {
            RegisterAddress::Column5
        } else if i == 5 {
            RegisterAddress::Column6
        } else if i == 6 {
            RegisterAddress::Column7
        } else {
            RegisterAddress::Column8
        }
    }
}

/// The level of bit `i` of the wire sequence of `word`: all sixteen bits,
/// most significant first (bit 15, the first of the four "don't care" bits,
/// is sent first).
pub open spec fn wire_bit(word: u16, i: int) -> bool {
    (word >> ((15 - i) as u16)) & 1 == 1
}

proof fn lemma_word(address: u16, data: u16)
    by (bit_vector)
    requires
        address < 16,
        data < 256,
    ensures
        (address << 8u16) | data == address * 256 + data,
{
}

/// One command to the driver: a register and the byte to write to it.
#[derive(Clone, Copy, Debug, PartialEq, Eq, Structural)]
pub struct Command {
    pub register: RegisterAddress,
    pub data: u8,
}

impl Command {
    /// The 16-bit word of the command: the address in bits 11 to 8, the data
    /// in bits 7 to 0.
    pub open spec fn spec_word(self) -> int {
        self.register.spec_address() * 256 + self.data
    }

    /// The 16-bit word of the command.
    pub fn word(&self) -> (r: u16)
        ensures
            r == self.spec_word(),
    {
        let address = self.register.address() as u16;
        let data = self.data as u16;
        proof {
            lemma_word(address, data);
        }
        (address << 8u16) | data
    }

    /// The levels of the data line for the command, in the order they are
    /// clocked out while chip select is held low: the sixteen bits of the
    /// word, most significant first.
    pub fn wire_bits(&self) -> (r: [bool; 16])
        ensures
            forall|i: int| 0 <= i < 16 ==> r[i] == wire_bit(self.spec_word() as u16, i),
    {
        let word = self.word();
        let mut bits = [false; 16];
        let mut i: usize = 0;
        while i < 16
            invariant
                i <= 16,
                word == self.spec_word(),
                forall|j: int| 0 <= j < i ==> bits[j] == wire_bit(word, j),
            decreases 16 - i,
        {
            bits[i] = (word >> ((15 - i) as u16)) & 1 == 1;
            i = i + 1;
        }
        bits
    }

    /// Writes column byte `data` to display column `i`.
    pub fn column(i: usize, data: u8) -> (r: Command)
        requires
            i < 8,
        ensures
            r == (Command { register: RegisterAddress::spec_column(i as int), data }),
    {
        Command { register: RegisterAddress::column(i), data }
    }

    /// Sets the brightness, from 0 (lowest) to 15 (highest).
    pub fn intensity(level: u8) -> (r: Command)
        ensures
            r == (Command { register: RegisterAddress::Intensity, data: level }),
    {
        Command { register: RegisterAddress::Intensity, data: level }
    }

    /// Shuts the display down (`off`) or wakes it; the column data is kept.
    /// The chip is shut down when the register holds 0.
    pub fn shutdown(off: bool) -> (r: Command)
        ensures
            r == (Command { register: RegisterAddress::Shutdown, data: if off { 0 } else { 1 } }),
    {
        Command { register: RegisterAddress::Shutdown, data: if off { 0 } else { 1 } }
    }

    /// Turns test mode (every LED fully lit) on or off.
    pub fn test(on: bool) -> (r: Command)
        ensures
            r == (Command { register: RegisterAddress::Test, data: if on { 1 } else { 0 } }),
    {
        Command { register: RegisterAddress::Test, data: if on { 1 } else { 0 } }
    }
}

/// The commands that show `screen`: column `i` gets byte `i`, left to right.
pub fn show_commands(screen: &DotScreen) -> (r: [Command; 8])
    ensures
        forall|i: int| 0 <= i < 8 ==> #[trigger] r[i] == (Command {
            register: RegisterAddress::spec_column(i),
            data: screen.columns[i],
        }),
{
    let mut commands = [Command { register: RegisterAddress::Column1, data: 0 }; 8];
    let mut i: usize = 0;
    while i < 8
        invariant
            i <= 8,
            forall|j: int| 0 <= j < i ==> #[trigger] commands[j] == (Command {
                register: RegisterAddress::spec_column(j),
                data: screen.columns[j],
            }),
        decreases 8 - i,
    {
        commands[i] = Command::column(i, screen.columns[i]);
        i = i + 1;
    }
    commands
}

/// The commands that darken every column.
pub fn clear_commands() -> (r: [Command; 8])
    ensures
        forall|i: int| 0 <= i < 8 ==> #[trigger] r[i] == (Command {
            register: RegisterAddress::spec_column(i),
            data: 0,
        }),
{
    let empty = DotScreen::new_empty();
    show_commands(&empty)
}

/// The commands that bring the chip up, before the columns are cleared:
/// display on, test mode off, no digit decoding, all eight columns scanned,
/// brightness 12.
pub fn init_commands() -> (r: [Command; 5])
    ensures
        r[0] == (Command { register: RegisterAddress::Shutdown, data: 1 }),
        r[1] == (Command { register: RegisterAddress::Test, data: 0 }),
        r[2] == (Command { register: RegisterAddress::Decode, data: 0 }),
        r[3] == (Command { register: RegisterAddress::ScanLimit, data: 7 }),
        r[4] == (Command { register: RegisterAddress::Intensity, data: 12 }),
{
    [
        Command::shutdown(false),
        Command::test(false),
        Command { register: RegisterAddress::Decode, data: 0 },
        Command { register: RegisterAddress::ScanLimit, data: 7 },
        Command::intensity(12),
    ]
}

} // verus!
