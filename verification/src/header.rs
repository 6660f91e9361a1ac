//! The cartridge header: the record that every ROM carries at 0x0104.

use vstd::prelude::*;
use vstd::utf8::encode_utf8;

verus! {

#[derive(Clone, Copy, PartialEq, Debug)]
pub enum ColorSupport {
    Unsupported,
    SupportedBackwardsCompatible,
    SupportedNotBackwardsCompatible,
}

impl ColorSupport {
    /// The byte that stands at 0x0143.
    pub open spec fn code(self) -> u8 {
        match self {
            ColorSupport::Unsupported => 0x00,
            ColorSupport::SupportedBackwardsCompatible => 0x80,
            ColorSupport::SupportedNotBackwardsCompatible => 0xC0,
        }
    }

    pub fn byte(&self) -> (byte: u8)
        ensures
            byte == self.code(),
    {
        match self {
            ColorSupport::Unsupported => 0x00,
            ColorSupport::SupportedBackwardsCompatible => 0x80,
            ColorSupport::SupportedNotBackwardsCompatible => 0xC0,
        }
    }

    pub fn is_supported(&self) -> (supported: bool)
        ensures
            supported == !(*self is Unsupported),
    {
        match self {
            ColorSupport::Unsupported => false,
            ColorSupport::SupportedBackwardsCompatible => true,
            ColorSupport::SupportedNotBackwardsCompatible => true,
        }
    }
}

#[derive(Clone, Copy, PartialEq, Debug)]
pub enum CartridgeType {
    RomOnly,
    Mbc1,
    Mbc1Ram,
    Mbc1RamBattery,
    Mbc2,
    Mbc2Battery,
    RomRam,
    RomRamBattery,
    Mmm01,
    Mmm01Ram,
    Mmm01RamBattery,
    Mbc3TimerBattery,
    Mbc3TimerRamBattery,
    Mbc3,
    Mbc3Ram,
    Mbc3RamBattery,
    Mbc5,
    Mbc5Ram,
    Mbc5RamBattery,
    Mbc5Rumble,
    Mbc5RumbleRam,
    Mbc5RumbleRamBattery,
    PocketCamera,
    HuC3,
    HuC1RamBattery,
    Unknown(u8),
}

impl CartridgeType {
    /// The byte that stands at 0x0147.
    pub open spec fn code(self) -> u8 {
        match self {
            CartridgeType::RomOnly => 0x00,
            CartridgeType::Mbc1 => 0x01,
            CartridgeType::Mbc1Ram => 0x02,
            CartridgeType::Mbc1RamBattery => 0x03,
            CartridgeType::Mbc2 => 0x05,
            CartridgeType::Mbc2Battery => 0x06,
            CartridgeType::RomRam => 0x08,
            CartridgeType::RomRamBattery => 0x09,
            CartridgeType::Mmm01 => 0x0B,
            CartridgeType::Mmm01Ram => 0x0C,
            CartridgeType::Mmm01RamBattery => 0x0D,
            CartridgeType::Mbc3TimerBattery => 0x0F,
            CartridgeType::Mbc3TimerRamBattery => 0x10,
            CartridgeType::Mbc3 => 0x11,
            CartridgeType::Mbc3Ram => 0x12,
            CartridgeType::Mbc3RamBattery => 0x13,
            CartridgeType::Mbc5 => 0x19,
            CartridgeType::Mbc5Ram => 0x1A,
            CartridgeType::Mbc5RamBattery => 0x1B,
            CartridgeType::Mbc5Rumble => 0x1C,
            CartridgeType::Mbc5RumbleRam => 0x1D,
            CartridgeType::Mbc5RumbleRamBattery => 0x1E,
            CartridgeType::PocketCamera => 0xFC,
            CartridgeType::HuC3 => 0xFE,
            CartridgeType::HuC1RamBattery => 0xFF,
            CartridgeType::Unknown(value) => value,
        }
    }

    /// The cartridge type that a code stands for; a code without a name
    /// stands for `Unknown`.
    pub open spec fn of_code(value: u8) -> CartridgeType {
        if value == 0x00 {
            CartridgeType::RomOnly
        } else if value == 0x01 {
            CartridgeType::Mbc1
        } else if value == 0x02 {
            CartridgeType::Mbc1Ram
        } else if value == 0x03 {
            CartridgeType::Mbc1RamBattery
        } else if value == 0x05 {
            CartridgeType::Mbc2
        } else if value == 0x06 {
            CartridgeType::Mbc2Battery
        } else if value == 0x08 {
            CartridgeType::RomRam
        } else if value == 0x09 {
            CartridgeType::RomRamBattery
        } else if value == 0x0B {
            CartridgeType::Mmm01
        } else if value == 0x0C {
            CartridgeType::Mmm01Ram
        } else if value == 0x0D {
            CartridgeType::Mmm01RamBattery
        } else if value == 0x0F {
            CartridgeType::Mbc3TimerBattery
        } else if value == 0x10 {
            CartridgeType::Mbc3TimerRamBattery
        } else if value == 0x11 {
            CartridgeType::Mbc3
        } else if value == 0x12 {
            CartridgeType::Mbc3Ram
        } else if value == 0x13 {
            CartridgeType::Mbc3RamBattery
        } else if value == 0x19 {
            CartridgeType::Mbc5
        } else if value == 0x1A {
            CartridgeType::Mbc5Ram
        } else if value == 0x1B {
            CartridgeType::Mbc5RamBattery
        } else if value == 0x1C {
            CartridgeType::Mbc5Rumble
        } else if value == 0x1D {
            CartridgeType::Mbc5RumbleRam
        } else if value == 0x1E {
            CartridgeType::Mbc5RumbleRamBattery
        } else if value == 0xFC {
            CartridgeType::PocketCamera
        } else if value == 0xFE {
            CartridgeType::HuC3
        } else if value == 0xFF {
            CartridgeType::HuC1RamBattery
        } else {
            CartridgeType::Unknown(value)
        }
    }

    /// The greatest ROM size factor that the cartridge's controller can
    /// address, where it has a limit.
    pub open spec fn max_size_factor(self) -> Option<u8> {
        match self {
            CartridgeType::RomOnly | CartridgeType::RomRam | CartridgeType::RomRamBattery => Some(
                0u8,
            ),
            CartridgeType::Mbc1 | CartridgeType::Mbc1Ram | CartridgeType::Mbc1RamBattery => Some(
                6u8,
            ),
            CartridgeType::Mbc2 | CartridgeType::Mbc2Battery => Some(3u8),
            CartridgeType::Mbc3TimerBattery | CartridgeType::Mbc3TimerRamBattery
            | CartridgeType::Mbc3 | CartridgeType::Mbc3Ram | CartridgeType::Mbc3RamBattery => Some(
                6u8,
            ),
            CartridgeType::Mbc5 | CartridgeType::Mbc5Ram | CartridgeType::Mbc5RamBattery
            | CartridgeType::Mbc5Rumble | CartridgeType::Mbc5RumbleRam
            | CartridgeType::Mbc5RumbleRamBattery => Some(8u8),
            CartridgeType::PocketCamera => Some(8u8),
            CartridgeType::HuC1RamBattery => Some(6u8),
            CartridgeType::Mmm01 | CartridgeType::Mmm01Ram | CartridgeType::Mmm01RamBattery
            | CartridgeType::HuC3 | CartridgeType::Unknown(_) => None,
        }
    }

    pub fn byte(&self) -> (byte: u8)
        ensures
            byte == self.code(),
    {
        match self {
            CartridgeType::RomOnly => 0x00,
            CartridgeType::Mbc1 => 0x01,
            CartridgeType::Mbc1Ram => 0x02,
            CartridgeType::Mbc1RamBattery => 0x03,
            CartridgeType::Mbc2 => 0x05,
            CartridgeType::Mbc2Battery => 0x06,
            CartridgeType::RomRam => 0x08,
            CartridgeType::RomRamBattery => 0x09,
            CartridgeType::Mmm01 => 0x0B,
            CartridgeType::Mmm01Ram => 0x0C,
            CartridgeType::Mmm01RamBattery => 0x0D,
            CartridgeType::Mbc3TimerBattery => 0x0F,
            CartridgeType::Mbc3TimerRamBattery => 0x10,
            CartridgeType::Mbc3 => 0x11,
            CartridgeType::Mbc3Ram => 0x12,
            CartridgeType::Mbc3RamBattery => 0x13,
            CartridgeType::Mbc5 => 0x19,
            CartridgeType::Mbc5Ram => 0x1A,
            CartridgeType::Mbc5RamBattery => 0x1B,
            CartridgeType::Mbc5Rumble => 0x1C,
            CartridgeType::Mbc5RumbleRam => 0x1D,
            CartridgeType::Mbc5RumbleRamBattery => 0x1E,
            CartridgeType::PocketCamera => 0xFC,
            CartridgeType::HuC3 => 0xFE,
            CartridgeType::HuC1RamBattery => 0xFF,
            CartridgeType::Unknown(value) => *value,
        }
    }

    /// The cartridge type that a code stands for; a code without a name
    /// gives `Unknown`.
    pub fn variant(value: u8) -> (cartridge: CartridgeType)
        ensures
            cartridge == CartridgeType::of_code(value),
            cartridge.code() == value,
    {
        match value {
            0x00 => CartridgeType::RomOnly,
            0x01 => CartridgeType::Mbc1,
            0x02 => CartridgeType::Mbc1Ram,
            0x03 => CartridgeType::Mbc1RamBattery,
            0x05 => CartridgeType::Mbc2,
            0x06 => CartridgeType::Mbc2Battery,
            0x08 => CartridgeType::RomRam,
            0x09 => CartridgeType::RomRamBattery,
            0x0B => CartridgeType::Mmm01,
            0x0C => CartridgeType::Mmm01Ram,
            0x0D => CartridgeType::Mmm01RamBattery,
            0x0F => CartridgeType::Mbc3TimerBattery,
            0x10 => CartridgeType::Mbc3TimerRamBattery,
            0x11 => CartridgeType::Mbc3,
            0x12 => CartridgeType::Mbc3Ram,
            0x13 => CartridgeType::Mbc3RamBattery,
            0x19 => CartridgeType::Mbc5,
            0x1A => CartridgeType::Mbc5Ram,
            0x1B => CartridgeType::Mbc5RamBattery,
            0x1C => CartridgeType::Mbc5Rumble,
            0x1D => CartridgeType::Mbc5RumbleRam,
            0x1E => CartridgeType::Mbc5RumbleRamBattery,
            0xFC => CartridgeType::PocketCamera,
            0xFE => CartridgeType::HuC3,
            0xFF => CartridgeType::HuC1RamBattery,
            a => CartridgeType::Unknown(a),
        }
    }
}

#[derive(Clone, Copy, PartialEq, Debug)]
pub enum RamType {
    /// The cartridge has no RAM.
    NoRam,
    Mbc2,
    Some2KB,
    Some8KB,
    Some32KB,
}

impl RamType {
    /// The byte that stands at 0x0149.
    pub open spec fn code(self) -> u8 {
        match self {
            RamType::NoRam => 0,
            RamType::Mbc2 => 0,
            RamType::Some2KB => 1,
            RamType::Some8KB => 2,
            RamType::Some32KB => 3,
        }
    }

    pub fn byte(&self) -> (byte: u8)
        ensures
            byte == self.code(),
    {
        match self {
            RamType::NoRam => 0,
            RamType::Mbc2 => 0,
            RamType::Some2KB => 1,
            RamType::Some8KB => 2,
            RamType::Some32KB => 3,
        }
    }
}

#[derive(Clone, PartialEq, Debug)]
pub struct Header {
    /// At most 16 bytes, and at most 15 where color is supported.
    pub title: String,
    pub color_support: ColorSupport,
    /// At most 2 bytes.
    pub licence: String,
    pub sgb_support: bool,
    pub cartridge_type: CartridgeType,
    pub ram_type: RamType,
    pub japanese: bool,
    pub version_number: u8,
}

/// The address at which the header starts.
pub const HEADER_START: usize = 0x0104;

/// The address of the first byte behind the header.
pub const HEADER_END: usize = 0x0150;

/// The Nintendo logo, which the boot ROM compares with its own copy.
pub open spec fn logo() -> Seq<u8> {
    seq![
        0xCEu8, 0xED, 0x66, 0x66, 0xCC, 0x0D, 0x00, 0x0B, 0x03, 0x73, 0x00, 0x83,
        0x00, 0x0C, 0x00, 0x0D, 0x00, 0x08, 0x11, 0x1F, 0x88, 0x89, 0x00, 0x0E,
        0xDC, 0xCC, 0x6E, 0xE6, 0xDD, 0xDD, 0xD9, 0x99, 0xBB, 0xBB, 0x67, 0x63,
        0x6E, 0x0E, 0xEC, 0xCC, 0xDD, 0xDC, 0x99, 0x9F, 0xBB, 0xB9, 0x33, 0x3E,
    ]
}

/// The sum of the bytes.
pub open spec fn byte_sum(bytes: Seq<u8>) -> int
    decreases bytes.len(),
{
    if bytes.len() == 0 {
        0
    } else {
        byte_sum(bytes.drop_last()) + bytes.last()
    }
}

/// The header checksum of the bytes: starting from zero, each byte and
/// one more are subtracted, modulo 256.
pub open spec fn checksum(bytes: Seq<u8>) -> u8
    decreases bytes.len(),
{
    if bytes.len() == 0 {
        0
    } else {
        ((checksum(bytes.drop_last()) - bytes.last() - 1) % 256) as u8
    }
}

/// The checksum makes up for the sum of the bytes and their number.
pub proof fn lemma_checksum_balances(bytes: Seq<u8>)
    ensures
        (byte_sum(bytes) + checksum(bytes) + bytes.len()) % 256 == 0,
    decreases bytes.len(),
{
    if bytes.len() > 0 {
        lemma_checksum_balances(bytes.drop_last());
    }
}

/// `bytes`, and zeroes behind them up to `width` bytes.
pub open spec fn zero_padded(bytes: Seq<u8>, width: int) -> Seq<u8> {
    bytes + Seq::new((width - bytes.len()) as nat, |i: int| 0u8)
}

impl Header {
    /// The title as it stands in the ROM.
    pub open spec fn title_bytes(self) -> Seq<u8> {
        encode_utf8(self.title@)
    }

    /// The licence as it stands in the ROM.
    pub open spec fn licence_bytes(self) -> Seq<u8> {
        encode_utf8(self.licence@)
    }

    /// Whether title and licence fit their fields.
    pub open spec fn fits(self) -> bool {
        &&& self.title_bytes().len() <= 16
        &&& self.title_bytes().len() == 16 ==> self.color_support is Unsupported
        &&& self.licence_bytes().len() <= 2
    }

    /// The sixteen bytes at 0x0134: a title of sixteen bytes fills them; a
    /// shorter title is padded with zeroes to fifteen bytes and the byte
    /// for the color support follows.
    pub open spec fn title_field(self) -> Seq<u8> {
        if self.title_bytes().len() < 16 {
            zero_padded(self.title_bytes(), 15).push(self.color_support.code())
        } else {
            self.title_bytes()
        }
    }

    /// The seven bytes from 0x0146 to 0x014C: the flag for the Super Game
    /// Boy (0x03 where it is supported), the cartridge type, the ROM size
    /// factor, the RAM type, the region (0x00 for Japan, else 0x01), the
    /// old licence code 0x33, which points to the new licence, and the
    /// version number.
    pub open spec fn flag_bytes(self, rom_size_factor: u8) -> Seq<u8> {
        seq![
            if self.sgb_support { 0x03u8 } else { 0x00u8 },
            self.cartridge_type.code(),
            rom_size_factor,
            self.ram_type.code(),
            if self.japanese { 0x00u8 } else { 0x01u8 },
            0x33u8,
            self.version_number,
        ]
    }

    /// The 25 bytes from 0x0134 to 0x014C, which the checksum covers.
    pub open spec fn checked_bytes(self, rom_size_factor: u8) -> Seq<u8> {
        self.title_field() + zero_padded(self.licence_bytes(), 2) + self.flag_bytes(
            rom_size_factor,
        )
    }

    /// The 76 bytes of the header, from 0x0104 to 0x014F: the logo, the
    /// bytes that the checksum covers, the checksum, and two zero bytes
    /// in place of the global checksum.
    pub open spec fn bytes(self, rom_size_factor: u8) -> Seq<u8> {
        logo() + self.checked_bytes(rom_size_factor) + seq![
            checksum(self.checked_bytes(rom_size_factor)),
            0u8,
            0u8,
        ]
    }

    /// The shape of the header: its length, the logo at its start, the
    /// cartridge type and the size factor at their addresses, and the
    /// checksum that balances the 25 bytes before it.
    pub proof fn lemma_bytes_shape(self, rom_size_factor: u8)
        requires
            self.fits(),
        ensures
            self.bytes(rom_size_factor).len() == 0x4C,
            self.bytes(rom_size_factor).subrange(0, 0x30) == logo(),
            self.bytes(rom_size_factor)[0x43] == self.cartridge_type.code(),
            self.bytes(rom_size_factor)[0x44] == rom_size_factor,
            (byte_sum(self.bytes(rom_size_factor).subrange(0x30, 0x49)) + self.bytes(
                rom_size_factor,
            )[0x49] + 0x19) % 256 == 0,
    {
        let checked = self.checked_bytes(rom_size_factor);
        assert(self.title_field().len() == 16);
        assert(checked.len() == 25);
        assert(self.bytes(rom_size_factor).subrange(0, 0x30) == logo());
        assert(self.bytes(rom_size_factor).subrange(0x30, 0x49) == checked);
        lemma_checksum_balances(checked);
    }

    /// Appends the sixteen bytes of the title field.
    fn write_title_field(&self, rom: &mut Vec<u8>)
        requires
            self.fits(),
        ensures
            final(rom)@ == old(rom)@ + self.title_field(),
    {
        let title = self.title.as_str().as_bytes();
        extend(rom, title);
        if title.len() < 0x10 {
            push_zeroes(rom, 0xF - title.len());
            rom.push(self.color_support.byte());
        }
    }

    /// Appends the licence, padded to two bytes.
    fn write_licence(&self, rom: &mut Vec<u8>)
        requires
            self.fits(),
        ensures
            final(rom)@ == old(rom)@ + zero_padded(self.licence_bytes(), 2),
    {
        let licence = self.licence.as_str().as_bytes();
        extend(rom, licence);
        push_zeroes(rom, 0x2 - licence.len());
    }

    /// Appends the seven bytes from 0x0146 to 0x014C.
    fn write_flags(&self, rom: &mut Vec<u8>, rom_size_factor: u8)
        ensures
            final(rom)@ == old(rom)@ + self.flag_bytes(rom_size_factor),
    {
        rom.push(if self.sgb_support { 0x03 } else { 0x00 });
        rom.push(self.cartridge_type.byte());
        rom.push(rom_size_factor);
        rom.push(self.ram_type.byte());
        rom.push(if self.japanese { 0x00 } else { 0x01 });
        rom.push(0x33);  // the licence is the new one, so the old licence says so
        rom.push(self.version_number);
    }

    /// Appends the 25 bytes that the checksum covers.
    fn write_checked_bytes(&self, rom: &mut Vec<u8>, rom_size_factor: u8)
        requires
            self.fits(),
        ensures
            final(rom)@ == old(rom)@ + self.checked_bytes(rom_size_factor),
    {
        let ghost before = rom@;
        self.write_title_field(rom);
        self.write_licence(rom);
        self.write_flags(rom, rom_size_factor);
        assert(rom@ == before + self.checked_bytes(rom_size_factor));
    }

    /// Appends the header to `rom`, which must hold the 0x0104 bytes
    /// before it.
    pub fn write(&self, rom: &mut Vec<u8>, rom_size_factor: u8)
        requires
            old(rom)@.len() == HEADER_START,
            self.fits(),
        ensures
            final(rom)@ == old(rom)@ + self.bytes(rom_size_factor),
            final(rom)@.len() == HEADER_END,
            final(rom)@.subrange(0x0104, 0x0134) == logo(),
            (byte_sum(final(rom)@.subrange(0x0134, 0x014D)) + final(rom)@[0x014D] + 0x19) % 256
                == 0,
    {
        let ghost before = rom@;
        let ghost checked = self.checked_bytes(rom_size_factor);
        proof {
            self.lemma_bytes_shape(rom_size_factor);
        }
        push_logo(rom);
        self.write_checked_bytes(rom, rom_size_factor);
        assert(rom@.subrange(0x0134, 0x014D) == checked) by {
            assert(self.title_field().len() == 16);
            assert(checked.len() == 25);
        }
        let sum = checksum_of(rom, 0x0134, 0x014D);
        rom.push(sum);
        // the global checksum, which the hardware does not look at
        rom.push(0x00);
        rom.push(0x00);
        assert(rom@ == before + self.bytes(rom_size_factor));
        assert(rom@.subrange(0x0104, 0x0134) == self.bytes(rom_size_factor).subrange(0, 0x30));
        assert(rom@.subrange(0x0134, 0x014D) == self.bytes(rom_size_factor).subrange(0x30, 0x49));
    }
}

/// The header checksum of the bytes of `rom` from `from` up to `to`.
fn checksum_of(rom: &Vec<u8>, from: usize, to: usize) -> (sum: u8)
    requires
        from <= to <= rom@.len(),
    ensures
        sum == checksum(rom@.subrange(from as int, to as int)),
{
    let mut sum: u8 = 0;
    let mut i: usize = from;
    while i < to
        invariant
            from <= i <= to <= rom@.len(),
            sum == checksum(rom@.subrange(from as int, i as int)),
        decreases to - i,
    {
        assert(rom@.subrange(from as int, i + 1).drop_last() == rom@.subrange(
            from as int,
            i as int,
        ));
        sum = sum.wrapping_sub(rom[i]);
        sum = sum.wrapping_sub(1);
        i += 1;
    }
    sum
}

/// Appends the logo.
pub(crate) fn push_logo(rom: &mut Vec<u8>)
    ensures
        final(rom)@ == old(rom)@ + logo(),
{
    let bytes: [u8; 48] = [
        0xCE, 0xED, 0x66, 0x66, 0xCC, 0x0D, 0x00, 0x0B, 0x03, 0x73, 0x00, 0x83,
        0x00, 0x0C, 0x00, 0x0D, 0x00, 0x08, 0x11, 0x1F, 0x88, 0x89, 0x00, 0x0E,
        0xDC, 0xCC, 0x6E, 0xE6, 0xDD, 0xDD, 0xD9, 0x99, 0xBB, 0xBB, 0x67, 0x63,
        0x6E, 0x0E, 0xEC, 0xCC, 0xDD, 0xDC, 0x99, 0x9F, 0xBB, 0xB9, 0x33, 0x3E,
    ];
    assert(bytes@ == logo());
    extend(rom, bytes.as_slice());
}

/// Appends a copy of `bytes`.
pub(crate) fn extend(rom: &mut Vec<u8>, bytes: &[u8])
    ensures
        final(rom)@ == old(rom)@ + bytes@,
{
    let ghost before = rom@;
    let mut i: usize = 0;
    while i < bytes.len()
        invariant
            i <= bytes.len(),
            rom@ == before + bytes@.subrange(0, i as int),
        decreases bytes.len() - i,
    {
        rom.push(bytes[i]);
        i += 1;
    }
    assert(bytes@.subrange(0, i as int) == bytes@);
}

/// Appends `count` zero bytes.
pub(crate) fn push_zeroes(rom: &mut Vec<u8>, count: usize)
    ensures
        final(rom)@ == old(rom)@ + Seq::new(count as nat, |i: int| 0u8),
{
    let ghost before = rom@;
    let mut i: usize = 0;
    while i < count
        invariant
            i <= count,
            rom@ == before + Seq::new(i as nat, |j: int| 0u8),
        decreases count - i,
    {
        rom.push(0x00);
        i += 1;
    }
}

} // verus!
